//! The second pass: every node gets its box, parents before children.

use crate::algorithm::item::{collect_items, flow_count, items_of, lemma_item_at, lemma_items_count};
use crate::algorithm::measure::{
    child_naturals, child_styles, collect_child_naturals, collect_child_styles, lemma_natural_tree, measure, natural,
    natural_tree, zero_size, Measured,
};
use crate::algorithm::place::{place_items, place_items_spec, ItemBox};
use crate::algorithm::resolve::{
    bounded, content_box, content_box_spec, cross_of, edges, main_of, oriented_point, oriented_size, zero,
};
use crate::fixed::Fixed;
use crate::geometry::{Point, Size};
use crate::layout::{LayoutNode, LayoutTree};
use crate::number::Number;
use crate::style::{AlignSelf, Display, JustifyContent, Node, PositionType, Style, StyleNode, StyleTree};
use vstd::prelude::*;

verus! {

/// The box of a child inside the content box of its parent.
#[derive(Copy, Clone, Debug)]
pub struct ChildBox {
    pub size: Size<Fixed>,
    pub location: Point<Fixed>,
}

/// The origin of a content box.
pub open spec fn origin() -> Point<Fixed> {
    Point { x: zero(), y: zero() }
}

/// The box of a child that is not displayed.
pub open spec fn no_box() -> ChildBox {
    ChildBox { size: zero_size(), location: origin() }
}

/// A content box of known extent, as the containing box of the children.
pub open spec fn definite(inner: Size<Fixed>) -> Size<Number> {
    Size { width: Number::Defined(inner.width), height: Number::Defined(inner.height) }
}

/// The box of an item turned from the axes of the container to width and
/// height.
pub open spec fn upright_spec(direction: crate::style::FlexDirection, item: ItemBox) -> ChildBox {
    ChildBox {
        size: oriented_size(direction, item.main_size, item.cross_size),
        location: oriented_point(direction, item.main_offset, item.cross_offset),
    }
}

/// The box of an item turned from the axes of the container to width and
/// height.
pub fn upright(direction: crate::style::FlexDirection, item: ItemBox) -> (r: ChildBox)
    ensures
        r == upright_spec(direction, item),
{
    ChildBox {
        size: oriented_size(direction, item.main_size, item.cross_size),
        location: oriented_point(direction, item.main_offset, item.cross_offset),
    }
}

/// The extent between two insets and inside the margins, where both
/// insets are given.
pub open spec fn spanned_spec(extent: Fixed, near: Number, far: Number, before: Fixed, after: Fixed) -> Number {
    match (near, far) {
        (Number::Defined(a), Number::Defined(b)) => Number::Defined(
            extent.spec_sub(a).spec_sub(b).spec_sub(before).spec_sub(after),
        ),
        _ => Number::Undefined,
    }
}

/// The extent between two insets and inside the margins.
#[verifier::when_used_as_spec(spanned_spec)]
pub fn spanned(extent: Fixed, near: Number, far: Number, before: Fixed, after: Fixed) -> (r: Number)
    ensures
        r == spanned_spec(extent, near, far, before, after),
{
    match (near, far) {
        (Number::Defined(a), Number::Defined(b)) => Number::Defined(extent - a - b - before - after),
        _ => Number::Undefined,
    }
}

/// Where a box of extent `size` begins along one axis of a content box of
/// extent `extent`: after the near inset and the margin before it; else
/// before the far inset and the margin after it; else at `fallback`.
pub open spec fn inset_offset_spec(
    extent: Fixed,
    size: Fixed,
    near: Number,
    far: Number,
    before: Fixed,
    after: Fixed,
    fallback: Fixed,
) -> Fixed {
    match near {
        Number::Defined(a) => a.spec_add(before),
        Number::Undefined => match far {
            Number::Defined(b) => extent.spec_sub(b).spec_sub(after).spec_sub(size),
            Number::Undefined => fallback,
        },
    }
}

/// Where a box begins along one axis of a content box, by its insets.
#[verifier::when_used_as_spec(inset_offset_spec)]
pub fn inset_offset(
    extent: Fixed,
    size: Fixed,
    near: Number,
    far: Number,
    before: Fixed,
    after: Fixed,
    fallback: Fixed,
) -> (r: Fixed)
    ensures
        r == inset_offset_spec(extent, size, near, far, before, after, fallback),
{
    match near {
        Number::Defined(a) => a + before,
        Number::Undefined => match far {
            Number::Defined(b) => extent - b - after - size,
            Number::Undefined => fallback,
        },
    }
}

/// Where a box without insets begins along the main axis: where it would
/// as the only item of the container.
pub open spec fn static_main_spec(
    justify: JustifyContent,
    reverse: bool,
    extent: Fixed,
    size: Fixed,
    before: Fixed,
    after: Fixed,
) -> Fixed {
    let free = extent.spec_sub(size).spec_sub(before).spec_sub(after);
    let offset = match justify {
        JustifyContent::FlexStart => before,
        JustifyContent::SpaceBetween => before,
        JustifyContent::FlexEnd => before.spec_add(free),
        _ => before.spec_add(free.div_int_spec(2)),
    };
    if reverse {
        extent.spec_sub(offset).spec_sub(size)
    } else {
        offset
    }
}

/// Where a box without insets begins along the main axis.
#[verifier::when_used_as_spec(static_main_spec)]
pub fn static_main(justify: JustifyContent, reverse: bool, extent: Fixed, size: Fixed, before: Fixed, after: Fixed) -> (r:
    Fixed)
    ensures
        r == static_main_spec(justify, reverse, extent, size, before, after),
{
    let free = extent - size - before - after;
    let offset = match justify {
        JustifyContent::FlexStart => before,
        JustifyContent::SpaceBetween => before,
        JustifyContent::FlexEnd => before + free,
        _ => before + free.div_int(2),
    };
    if reverse {
        extent - offset - size
    } else {
        offset
    }
}

/// Where a box without insets begins along the cross axis: where its
/// alignment puts it in a line that fills the container.
pub open spec fn static_cross_spec(align: AlignSelf, extent: Fixed, size: Fixed, before: Fixed, after: Fixed) -> Fixed {
    let free = extent.spec_sub(size).spec_sub(before).spec_sub(after);
    match align {
        AlignSelf::FlexEnd => before.spec_add(free),
        AlignSelf::Center => before.spec_add(free.div_int_spec(2)),
        _ => before,
    }
}

/// Where a box without insets begins along the cross axis.
#[verifier::when_used_as_spec(static_cross_spec)]
pub fn static_cross(align: AlignSelf, extent: Fixed, size: Fixed, before: Fixed, after: Fixed) -> (r: Fixed)
    ensures
        r == static_cross_spec(align, extent, size, before, after),
{
    let free = extent - size - before - after;
    match align {
        AlignSelf::FlexEnd => before + free,
        AlignSelf::Center => before + free.div_int(2),
        _ => before,
    }
}

/// The box of a child that is positioned by its insets, in a container
/// with content box `inner`.
///
/// Along each axis the child has its own size, else the extent between its
/// two insets, else its natural size, held between its limits. It begins
/// where its insets put it, and without insets where it would as the only
/// child in flow.
pub open spec fn absolute_box_spec(parent: Style, child: Style, natural: Size<Fixed>, inner: Size<Fixed>) -> ChildBox {
    let w = Number::Defined(inner.width);
    let h = Number::Defined(inner.height);
    let margin = edges(child.margin, w);
    let start = child.position.start.resolve(w);
    let end = child.position.end.resolve(w);
    let top = child.position.top.resolve(h);
    let bottom = child.position.bottom.resolve(h);
    let width = bounded(
        child.size.width.resolve(w).or(spanned(inner.width, start, end, margin.start, margin.end)).or_else(
            natural.width,
        ),
        child.min_size.width.resolve(w),
        child.max_size.width.resolve(w),
    );
    let height = bounded(
        child.size.height.resolve(h).or(spanned(inner.height, top, bottom, margin.top, margin.bottom)).or_else(
            natural.height,
        ),
        child.min_size.height.resolve(h),
        child.max_size.height.resolve(h),
    );
    let row = parent.flex_direction.is_row();
    let reverse = parent.flex_direction.is_reverse();
    let align = child.align_self_spec(parent.align_items);
    let x = if row {
        static_main(parent.justify_content, reverse, inner.width, width, margin.start, margin.end)
    } else {
        static_cross(align, inner.width, width, margin.start, margin.end)
    };
    let y = if row {
        static_cross(align, inner.height, height, margin.top, margin.bottom)
    } else {
        static_main(parent.justify_content, reverse, inner.height, height, margin.top, margin.bottom)
    };
    ChildBox {
        size: Size { width, height },
        location: Point {
            x: inset_offset(inner.width, width, start, end, margin.start, margin.end, x),
            y: inset_offset(inner.height, height, top, bottom, margin.top, margin.bottom, y),
        },
    }
}

/// The box of a child that is positioned by its insets.
pub fn absolute_box(parent: &Style, child: &Style, natural: Size<Fixed>, inner: Size<Fixed>) -> (r: ChildBox)
    ensures
        r == absolute_box_spec(*parent, *child, natural, inner),
{
    let w = Number::Defined(inner.width);
    let h = Number::Defined(inner.height);
    let margin = edges(child.margin, w);
    let start = child.position.start.resolve(w);
    let end = child.position.end.resolve(w);
    let top = child.position.top.resolve(h);
    let bottom = child.position.bottom.resolve(h);
    let width = bounded(
        child.size.width.resolve(w).or(spanned(inner.width, start, end, margin.start, margin.end)).or_else(
            natural.width,
        ),
        child.min_size.width.resolve(w),
        child.max_size.width.resolve(w),
    );
    let height = bounded(
        child.size.height.resolve(h).or(spanned(inner.height, top, bottom, margin.top, margin.bottom)).or_else(
            natural.height,
        ),
        child.min_size.height.resolve(h),
        child.max_size.height.resolve(h),
    );
    let row = parent.flex_direction.is_row();
    let reverse = parent.flex_direction.is_reverse();
    let align = child.resolved_align_self(parent.align_items);
    let x = if row {
        static_main(parent.justify_content, reverse, inner.width, width, margin.start, margin.end)
    } else {
        static_cross(align, inner.width, width, margin.start, margin.end)
    };
    let y = if row {
        static_cross(align, inner.height, height, margin.top, margin.bottom)
    } else {
        static_main(parent.justify_content, reverse, inner.height, height, margin.top, margin.bottom)
    };
    ChildBox {
        size: Size { width, height },
        location: Point {
            x: inset_offset(inner.width, width, start, end, margin.start, margin.end, x),
            y: inset_offset(inner.height, height, top, bottom, margin.top, margin.bottom, y),
        },
    }
}

/// The box of the child at `i`: none if it is not displayed, the one its
/// insets give it if it is positioned by them, and else the box of its
/// item.
pub open spec fn child_box_spec(
    parent: Style,
    kids: Seq<Style>,
    naturals: Seq<Size<Fixed>>,
    inner: Size<Fixed>,
    boxes: Seq<ItemBox>,
    i: int,
) -> ChildBox {
    if kids[i].display == Display::Hidden {
        no_box()
    } else if kids[i].position_type == PositionType::Absolute {
        absolute_box_spec(parent, kids[i], naturals[i], inner)
    } else {
        upright_spec(parent.flex_direction, boxes[flow_count(kids, i) as int])
    }
}

/// The boxes of the children of a container with content box `inner`, one
/// for each child and in their order. Only the children in flow take part
/// in lines and in the distribution of space.
pub open spec fn child_boxes_spec(parent: Style, kids: Seq<Style>, naturals: Seq<Size<Fixed>>, inner: Size<Fixed>) -> Seq<
    ChildBox,
> {
    let items = items_of(kids, naturals, parent, definite(inner));
    let boxes = place_items_spec(
        parent,
        items,
        main_of(inner, parent.flex_direction),
        cross_of(inner, parent.flex_direction),
    );
    Seq::new(kids.len(), |i: int| child_box_spec(parent, kids, naturals, inner, boxes, i))
}

/// The boxes of the children of a container with content box `inner`.
pub fn child_boxes(parent: &Style, kids: &Vec<Style>, naturals: &Vec<Size<Fixed>>, inner: Size<Fixed>) -> (r: Vec<
    ChildBox,
>)
    requires
        kids.len() == naturals.len(),
    ensures
        r@ == child_boxes_spec(*parent, kids@, naturals@, inner),
{
    let containing = Size { width: Number::Defined(inner.width), height: Number::Defined(inner.height) };
    let items = collect_items(kids, naturals, parent, containing);
    let boxes = place_items(parent, &items, main_of(inner, parent.flex_direction), cross_of(inner, parent.flex_direction));
    let mut out: Vec<ChildBox> = Vec::new();
    let mut rank: usize = 0;
    let mut i: usize = 0;
    proof {
        lemma_items_count(kids@, naturals@, *parent, containing, kids.len() as int);
    }
    while i < kids.len()
        invariant
            i <= kids.len(),
            kids.len() == naturals.len(),
            containing == definite(inner),
            items@ == items_of(kids@, naturals@, *parent, containing),
            boxes@ == place_items_spec(
                *parent,
                items@,
                main_of(inner, parent.flex_direction),
                cross_of(inner, parent.flex_direction),
            ),
            boxes.len() == items.len(),
            items.len() == flow_count(kids@, kids.len() as int),
            rank == flow_count(kids@, i as int),
            out.len() == i,
            forall|j: int| 0 <= j < i ==> out[j] == child_box_spec(*parent, kids@, naturals@, inner, boxes@, j),
        decreases kids.len() - i,
    {
        if kids[i].display == Display::Hidden {
            out.push(
                ChildBox {
                    size: Size { width: Fixed::zero(), height: Fixed::zero() },
                    location: Point { x: Fixed::zero(), y: Fixed::zero() },
                },
            );
        } else if kids[i].position_type == PositionType::Absolute {
            out.push(absolute_box(parent, &kids[i], naturals[i], inner));
        } else {
            proof {
                lemma_item_at(kids@, naturals@, *parent, containing, kids.len() as int, i as int);
            }
            out.push(upright(parent.flex_direction, boxes[rank]));
            rank += 1;
        }
        i += 1;
    }
    assert(out@ =~= child_boxes_spec(*parent, kids@, naturals@, inner));
    out
}

/// The geometry of a subtree that is not displayed: the same shape, and
/// nothing in it has a size or a place.
pub open spec fn hidden_tree(tree: StyleTree) -> LayoutTree
    decreases tree, 1int,
{
    LayoutTree { size: zero_size(), location: origin(), children: hidden_trees(tree) }
}

/// The geometry of the subtrees of a node that is not displayed.
pub open spec fn hidden_trees(tree: StyleTree) -> Seq<LayoutTree>
    decreases tree, 0int,
{
    Seq::new(
        tree.children.len(),
        |i: int|
            if 0 <= i < tree.children.len() {
                hidden_tree(tree.children[i])
            } else {
                arbitrary()
            },
    )
}

/// The geometry of the child at `i` of a node whose children have the
/// boxes `boxes` and resolve their edges against `width`.
pub open spec fn arranged_child(tree: StyleTree, boxes: Seq<ChildBox>, width: Number, i: int) -> LayoutTree
    decreases tree, 0int,
{
    if 0 <= i < tree.children.len() {
        if tree.children[i].style.display == Display::Hidden {
            hidden_tree(tree.children[i])
        } else {
            LayoutTree {
                size: boxes[i].size,
                location: boxes[i].location,
                children: arrange_spec(tree.children[i], boxes[i].size, width),
            }
        }
    } else {
        arbitrary()
    }
}

/// The boxes of the children of a displayed node of size `size`, in a box
/// of width `containing`.
pub open spec fn boxes_in(tree: StyleTree, size: Size<Fixed>, containing: Number) -> Seq<ChildBox> {
    child_boxes_spec(
        tree.style,
        child_styles(tree),
        child_naturals(tree),
        content_box_spec(tree.style, size, containing),
    )
}

/// The geometry of the children of a displayed node of size `size`, held
/// by a box of width `containing`: every child gets its box inside the
/// content box of the node and arranges its own children inside that.
pub open spec fn arrange_spec(tree: StyleTree, size: Size<Fixed>, containing: Number) -> Seq<LayoutTree>
    decreases tree, 1int,
{
    let boxes = boxes_in(tree, size, containing);
    let width = Number::Defined(content_box_spec(tree.style, size, containing).width);
    Seq::new(tree.children.len(), |i: int| arranged_child(tree, boxes, width, i))
}

/// The size of the root: along each axis its own size, else the space
/// available, else its natural size; held between its limits.
pub open spec fn root_size_spec(style: Style, natural: Size<Fixed>, available: Size<Number>) -> Size<Fixed> {
    Size {
        width: bounded(
            style.size.width.resolve(available.width).or(available.width).or_else(natural.width),
            style.min_size.width.resolve(available.width),
            style.max_size.width.resolve(available.width),
        ),
        height: bounded(
            style.size.height.resolve(available.height).or(available.height).or_else(natural.height),
            style.min_size.height.resolve(available.height),
            style.max_size.height.resolve(available.height),
        ),
    }
}

/// The size of the root.
pub fn root_size(style: &Style, natural: Size<Fixed>, available: Size<Number>) -> (r: Size<Fixed>)
    ensures
        r == root_size_spec(*style, natural, available),
{
    Size {
        width: bounded(
            style.size.width.resolve(available.width).or(available.width).or_else(natural.width),
            style.min_size.width.resolve(available.width),
            style.max_size.width.resolve(available.width),
        ),
        height: bounded(
            style.size.height.resolve(available.height).or(available.height).or_else(natural.height),
            style.min_size.height.resolve(available.height),
            style.max_size.height.resolve(available.height),
        ),
    }
}

/// The geometry of a style tree laid out in the space `available`.
///
/// The root sits at the origin. A tree whose root is not displayed has no
/// extent anywhere.
pub open spec fn layout_spec(tree: StyleTree, available: Size<Number>) -> LayoutTree {
    if tree.style.display == Display::Hidden {
        hidden_tree(tree)
    } else {
        let size = root_size_spec(tree.style, natural(tree), available);
        LayoutTree { size, location: origin(), children: arrange_spec(tree, size, available.width) }
    }
}

/// Whether a geometry tree has the shape of a style tree: the same number
/// of children at every node, in the same order.
pub open spec fn same_shape(layout: LayoutTree, tree: StyleTree) -> bool
    decreases tree,
{
    &&& layout.children.len() == tree.children.len()
    &&& forall|i: int| 0 <= i < tree.children.len() ==> same_shape(#[trigger] layout.children[i], tree.children[i])
}

/// What the geometry of a hidden subtree is made of.
pub proof fn lemma_hidden_tree(tree: StyleTree)
    ensures
        hidden_tree(tree).size == zero_size(),
        hidden_tree(tree).location == origin(),
        hidden_tree(tree).children.len() == tree.children.len(),
        forall|i: int|
            0 <= i < tree.children.len() ==> #[trigger] hidden_tree(tree).children[i] == hidden_tree(
                tree.children[i],
            ),
{
    reveal_with_fuel(hidden_tree, 2);
    reveal_with_fuel(hidden_trees, 2);
}

/// What the geometry of the children of a node is made of.
pub proof fn lemma_arrange(tree: StyleTree, size: Size<Fixed>, containing: Number)
    ensures
        arrange_spec(tree, size, containing).len() == tree.children.len(),
        forall|i: int|
            0 <= i < tree.children.len() ==> #[trigger] arrange_spec(tree, size, containing)[i] == (
            if tree.children[i].style.display == Display::Hidden {
                hidden_tree(tree.children[i])
            } else {
                LayoutTree {
                    size: boxes_in(tree, size, containing)[i].size,
                    location: boxes_in(tree, size, containing)[i].location,
                    children: arrange_spec(
                        tree.children[i],
                        boxes_in(tree, size, containing)[i].size,
                        Number::Defined(content_box_spec(tree.style, size, containing).width),
                    ),
                }
            }),
{
    reveal_with_fuel(arrange_spec, 2);
    reveal_with_fuel(arranged_child, 2);
}

/// The geometry of a hidden subtree has the shape of the subtree.
pub proof fn lemma_hidden_shape(tree: StyleTree)
    ensures
        same_shape(hidden_tree(tree), tree),
    decreases tree,
{
    lemma_hidden_tree(tree);
    assert forall|i: int| 0 <= i < tree.children.len() implies same_shape(
        #[trigger] hidden_tree(tree).children[i],
        tree.children[i],
    ) by {
        lemma_hidden_shape(tree.children[i]);
    }
}

/// The geometry of the children of a node has the shape of the children.
pub proof fn lemma_arrange_shape(tree: StyleTree, size: Size<Fixed>, containing: Number)
    ensures
        arrange_spec(tree, size, containing).len() == tree.children.len(),
        forall|i: int|
            0 <= i < tree.children.len() ==> same_shape(
                #[trigger] arrange_spec(tree, size, containing)[i],
                tree.children[i],
            ),
    decreases tree,
{
    lemma_arrange(tree, size, containing);
    let boxes = boxes_in(tree, size, containing);
    let width = Number::Defined(content_box_spec(tree.style, size, containing).width);
    assert forall|i: int| 0 <= i < tree.children.len() implies same_shape(
        #[trigger] arrange_spec(tree, size, containing)[i],
        tree.children[i],
    ) by {
        let child = tree.children[i];
        if child.style.display == Display::Hidden {
            lemma_hidden_shape(child);
        } else {
            lemma_arrange_shape(child, boxes[i].size, width);
        }
    }
}

/// Layout keeps the shape of the tree: the geometry of a style tree has
/// as many children as the style tree at every node, in the same order.
pub proof fn lemma_layout_keeps_shape(tree: StyleTree, available: Size<Number>)
    ensures
        same_shape(layout_spec(tree, available), tree),
{
    if tree.style.display == Display::Hidden {
        lemma_hidden_shape(tree);
    } else {
        let size = root_size_spec(tree.style, natural(tree), available);
        lemma_arrange_shape(tree, size, available.width);
    }
}

/// The geometry that each node of a sequence stands for.
pub open spec fn tree_views(nodes: Seq<crate::layout::Node>) -> Seq<LayoutTree> {
    Seq::new(nodes.len(), |i: int| nodes[i]@)
}

/// The geometry of a subtree that is not displayed.
pub fn hidden(node: &Node) -> (r: crate::layout::Node)
    ensures
        r@ == hidden_tree(node@),
    decreases node,
{
    proof {
        node.lemma_view();
        lemma_hidden_tree(node@);
    }
    let mut children: Vec<crate::layout::Node> = Vec::new();
    let mut i: usize = 0;
    while i < node.children.len()
        invariant
            i <= node.children.len(),
            children.len() == i,
            node@.children.len() == node.children.len(),
            forall|j: int| 0 <= j < node.children.len() ==> #[trigger] node@.children[j] == node.children[j]@,
            forall|j: int| 0 <= j < i ==> #[trigger] children[j]@ == hidden_tree(node@.children[j]),
        decreases node.children.len() - i,
    {
        proof {
            assert(decreases_to!(node => node.children));
            assert(decreases_to!(node.children => node.children@));
            assert(decreases_to!(node.children@ => node.children@[i as int]));
            assert(node@.children[i as int] == node.children[i as int]@);
        }
        let child = hidden(&node.children[i]);
        children.push(child);
        i += 1;
    }
    let r = crate::layout::Node {
        size: Size { width: Fixed::zero(), height: Fixed::zero() },
        location: Point { x: Fixed::zero(), y: Fixed::zero() },
        children,
    };
    proof {
        r.lemma_view();
        assert(r@.children =~= hidden_tree(node@).children);
    }
    r
}

/// Arranges the children of a displayed node of size `size`, held by a box
/// of width `containing`, given the natural sizes of its tree.
pub(crate) fn arrange(node: &Node, measured: &Measured, size: Size<Fixed>, containing: Number) -> (r: Vec<
    crate::layout::Node,
>)
    requires
        measured@ == natural_tree(node@),
        node.display != Display::Hidden,
    ensures
        tree_views(r@) == arrange_spec(node@, size, containing),
    decreases node,
{
    proof {
        node.lemma_view();
        measured.lemma_view();
        lemma_natural_tree(node@);
        lemma_arrange(node@, size, containing);
    }
    let style = node.style();
    let inner = content_box(&style, size, containing);
    let kids = collect_child_styles(node);
    let naturals = collect_child_naturals(measured);
    proof {
        assert(naturals@ =~= child_naturals(node@));
    }
    let boxes = child_boxes(&style, &kids, &naturals, inner);
    let width = Number::Defined(inner.width);
    let mut out: Vec<crate::layout::Node> = Vec::new();
    let mut i: usize = 0;
    while i < node.children.len()
        invariant
            i <= node.children.len(),
            out.len() == i,
            node.display != Display::Hidden,
            measured@ == natural_tree(node@),
            measured.children.len() == node.children.len(),
            boxes.len() == node.children.len(),
            boxes@ == boxes_in(node@, size, containing),
            width == Number::Defined(content_box_spec(node@.style, size, containing).width),
            node@.children.len() == node.children.len(),
            forall|j: int| 0 <= j < node.children.len() ==> #[trigger] node@.children[j] == node.children[j]@,
            forall|j: int|
                0 <= j < node.children.len() ==> #[trigger] measured@.children[j] == measured.children[j]@,
            forall|j: int|
                0 <= j < node.children.len() ==> #[trigger] natural_tree(node@).children[j] == natural_tree(
                    node@.children[j],
                ),
            forall|j: int| 0 <= j < i ==> #[trigger] out[j]@ == arranged_child(node@, boxes@, width, j),
        decreases node.children.len() - i,
    {
        proof {
            assert(decreases_to!(node => node.children));
            assert(decreases_to!(node.children => node.children@));
            assert(decreases_to!(node.children@ => node.children@[i as int]));
            assert(node@.children[i as int] == node.children[i as int]@);
            assert(measured@.children[i as int] == measured.children[i as int]@);
            assert(natural_tree(node@).children[i as int] == natural_tree(node@.children[i as int]));
            node.children[i as int].lemma_view();
        }
        let child = &node.children[i];
        if child.display == Display::Hidden {
            out.push(hidden(child));
        } else {
            let place = boxes[i];
            let children = arrange(child, &measured.children[i], place.size, width);
            let laid = crate::layout::Node { size: place.size, location: place.location, children };
            proof {
                laid.lemma_view();
                assert(laid@.children =~= tree_views(children@));
            }
            out.push(laid);
        }
        i += 1;
    }
    proof {
        reveal_with_fuel(arrange_spec, 2);
        assert(tree_views(out@) =~= arrange_spec(node@, size, containing));
    }
    out
}

/// Lays out a style tree in the space `available` and gives the geometry
/// of every node: its size, and its position inside the content box of its
/// parent. The geometry tree has the shape of the style tree.
pub fn compute(root: &Node, available: Size<Number>) -> (r: crate::layout::Node)
    ensures
        r@ == layout_spec(root@, available),
        same_shape(r@, root@),
{
    proof {
        root.lemma_view();
        lemma_layout_keeps_shape(root@, available);
    }
    if root.display == Display::Hidden {
        return hidden(root);
    }
    let measured = measure(root);
    let style = root.style();
    proof {
        measured.lemma_view();
    }
    let size = root_size(&style, measured.size, available);
    let children = arrange(root, &measured, size, available.width);
    let r = crate::layout::Node { size, location: Point { x: Fixed::zero(), y: Fixed::zero() }, children };
    proof {
        r.lemma_view();
        assert(r@.children =~= tree_views(children@));
    }
    r
}

/// Lays out a style tree that arrives in boundary form and hands the
/// geometry back in boundary form. Both trees change hands whole: the style
/// tree is used up, the geometry tree belongs to the caller.
pub fn compute_layout(root: Box<StyleNode>, available: Size<Number>) -> (r: Box<LayoutNode>)
    ensures
        r@ == layout_spec(root@, available),
        same_shape(r@, root@),
        r.attached(),
{
    let owned = StyleNode::to_node(root);
    let laid = compute(&*owned, available);
    crate::layout::Node::to_layout_node(Box::new(laid))
}

} // verus!
