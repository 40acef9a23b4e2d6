//! What holds of every layout.
//!
//! Most laws speak of [`child_boxes_spec`], the boxes that a container
//! with a given content box gives its children. These are the boxes in the
//! geometry tree: [`lemma_children_get_their_boxes`] says that every child
//! of a node of the tree has the size and the place of its box.

use crate::algorithm::compute::{
    absolute_box_spec, arrange_spec, boxes_in, child_box_spec, child_boxes_spec, definite, hidden_tree, layout_spec,
    lemma_arrange, lemma_hidden_tree, root_size_spec, upright_spec, ChildBox,
};
use crate::algorithm::measure::{child_naturals, child_styles, lemma_natural_tree, natural, unconstrained};
use crate::algorithm::flex::{
    balanced, flex_sizes_spec, grow_only, growth_factors, grows, lemma_flex_sizes, lemma_growth_shares,
};
use crate::algorithm::item::{flow_count, item_of_spec, items_of, items_upto, lemma_item_at, lemma_items_count, Item};
use crate::algorithm::line::{joined, lemma_split_without_wrap, lines};
use crate::algorithm::place::{
    boxes_by_line, lemma_flex_sizes_len, lemma_placed_within_limits, line_boxes_spec, line_crosses, line_offsets,
    place_items_spec,
};
use crate::algorithm::resolve::{bounded, content_box_spec, cross_of, edge, in_flow_spec, lemma_bounded, main_of, zero};
use crate::algorithm::series::{lemma_shares_add_up, raw_total, total};
use crate::fixed::Fixed;
use crate::geometry::Size;
use crate::number::Number;
use crate::style::{AlignSelf, Dimension, Display, FlexDirection, FlexWrap, PositionType, Style, StyleTree};
use vstd::prelude::*;

verus! {

/// The items of a container that does not wrap form one line, which
/// begins where the content box begins and is as far across as the content
/// box.
pub proof fn lemma_single_line(parent: Style, items: Seq<Item>, main: Fixed, cross: Fixed)
    requires
        parent.flex_wrap == FlexWrap::NoWrap,
        items.len() > 0,
    ensures
        place_items_spec(parent, items, main, cross) == line_boxes_spec(parent, items, main, cross, zero()),
{
    reveal_with_fuel(total, 2);
    reveal_with_fuel(joined, 2);
    let ls = lines(items, main, false);
    lemma_split_without_wrap(items, main, Seq::empty(), zero());
    assert(Seq::<Item>::empty() + items =~= items);
    assert(ls == seq![items]);
    let crosses = line_crosses(parent, ls, cross);
    assert(crosses =~= seq![cross]);
    let starts = line_offsets(parent, crosses, cross);
    assert(total(crosses, 1).raw == cross.raw);
    assert(starts[0] == zero());
    let parts = boxes_by_line(parent, ls, main, cross);
    assert(parts[0] == line_boxes_spec(parent, items, main, cross, zero()));
    assert(joined(parts, 1) =~= parts[0]);
}

/// The box of a child in flow is the box of its item, turned upright.
pub proof fn lemma_flowing_child(parent: Style, kids: Seq<Style>, naturals: Seq<Size<Fixed>>, inner: Size<Fixed>, i: int)
    requires
        0 <= i < kids.len(),
        in_flow_spec(kids[i]),
    ensures
        flow_count(kids, i) < items_of(kids, naturals, parent, definite(inner)).len(),
        items_of(kids, naturals, parent, definite(inner))[flow_count(kids, i) as int] == item_of_spec(
            kids[i],
            naturals[i],
            parent,
            definite(inner),
        ),
        child_boxes_spec(parent, kids, naturals, inner)[i] == upright_spec(
            parent.flex_direction,
            place_items_spec(
                parent,
                items_of(kids, naturals, parent, definite(inner)),
                main_of(inner, parent.flex_direction),
                cross_of(inner, parent.flex_direction),
            )[flow_count(kids, i) as int],
        ),
{
    lemma_item_at(kids, naturals, parent, definite(inner), kids.len() as int, i);
}

/// In a container that does not wrap, a child in flow has the main size
/// that the distribution of free space gives its item, and the cross size
/// that its item has in a line as far across as the content box.
pub proof fn lemma_flowing_child_size(
    parent: Style,
    kids: Seq<Style>,
    naturals: Seq<Size<Fixed>>,
    inner: Size<Fixed>,
    i: int,
)
    requires
        parent.flex_wrap == FlexWrap::NoWrap,
        0 <= i < kids.len(),
        in_flow_spec(kids[i]),
    ensures
        main_of(child_boxes_spec(parent, kids, naturals, inner)[i].size, parent.flex_direction) == flex_sizes_spec(
            items_of(kids, naturals, parent, definite(inner)),
            main_of(inner, parent.flex_direction),
        )[flow_count(kids, i) as int],
        cross_of(child_boxes_spec(parent, kids, naturals, inner)[i].size, parent.flex_direction) == item_of_spec(
            kids[i],
            naturals[i],
            parent,
            definite(inner),
        ).cross_size(cross_of(inner, parent.flex_direction)),
{
    let items = items_of(kids, naturals, parent, definite(inner));
    let main = main_of(inner, parent.flex_direction);
    let cross = cross_of(inner, parent.flex_direction);
    lemma_flowing_child(parent, kids, naturals, inner, i);
    lemma_single_line(parent, items, main, cross);
    lemma_flex_sizes_len(items, main);
}

/// A child that stretches fills the content box of its container along
/// the cross axis, inside its own margins.
///
/// In a container that does not wrap, a child in flow whose alignment is
/// `Stretch`, by its own style or by that of the container, and that has
/// no cross size of its own, is as far across as the content box less its
/// two cross margins, held between its limits. With no limits, and margins
/// that leave room, it is exactly that.
pub proof fn lemma_stretch_fills_cross_axis(
    parent: Style,
    kids: Seq<Style>,
    naturals: Seq<Size<Fixed>>,
    inner: Size<Fixed>,
    i: int,
)
    requires
        parent.flex_wrap == FlexWrap::NoWrap,
        0 <= i < kids.len(),
        in_flow_spec(kids[i]),
        kids[i].align_self_spec(parent.align_items) == AlignSelf::Stretch,
        kids[i].cross_size(parent.flex_direction).resolve(
            Number::Defined(cross_of(inner, parent.flex_direction)),
        ) is Undefined,
    ensures
        ({
            let direction = parent.flex_direction;
            let extent = cross_of(inner, direction);
            let width = Number::Defined(inner.width);
            let room = extent.spec_sub(edge(kids[i].cross_margin_start(direction), width)).spec_sub(
                edge(kids[i].cross_margin_end(direction), width),
            );
            let min = kids[i].min_cross_size(direction).resolve(Number::Defined(extent));
            let max = kids[i].max_cross_size(direction).resolve(Number::Defined(extent));
            let got = cross_of(child_boxes_spec(parent, kids, naturals, inner)[i].size, direction);
            &&& got == bounded(room, min, max)
            &&& min is Undefined && max is Undefined && room.raw >= 0 ==> got == room
        }),
{
    reveal(item_of_spec);
    lemma_flowing_child_size(parent, kids, naturals, inner, i);
}

/// Whether a child asks for nothing along the main axis of its container
/// but a share of the free space: it is in flow, its basis is zero, and
/// it has no limits and no margins along that axis.
pub open spec fn only_grows(kid: Style, parent: Style, inner: Size<Fixed>) -> bool {
    let direction = parent.flex_direction;
    let extent = Number::Defined(main_of(inner, direction));
    let width = Number::Defined(inner.width);
    &&& in_flow_spec(kid)
    &&& kid.flex_basis == Dimension::Points(zero())
    &&& kid.flex_grow.raw >= 0
    &&& kid.min_main_size(direction).resolve(extent) is Undefined
    &&& kid.max_main_size(direction).resolve(extent) is Undefined
    &&& edge(kid.main_margin_start(direction), width) == zero()
    &&& edge(kid.main_margin_end(direction), width) == zero()
}

/// The growth factor of each child.
pub open spec fn factors_of(kids: Seq<Style>) -> Seq<Fixed> {
    Seq::new(kids.len(), |i: int| kids[i].flex_grow)
}

/// The main size of each box.
pub open spec fn main_sizes(boxes: Seq<ChildBox>, direction: FlexDirection) -> Seq<Fixed> {
    Seq::new(boxes.len(), |i: int| main_of(boxes[i].size, direction))
}

/// Where all children are in flow, each is its own item.
pub proof fn lemma_all_in_flow(kids: Seq<Style>, n: int)
    requires
        0 <= n <= kids.len(),
        forall|i: int| 0 <= i < kids.len() ==> in_flow_spec(#[trigger] kids[i]),
    ensures
        flow_count(kids, n) == n,
    decreases n,
{
    if n > 0 {
        lemma_all_in_flow(kids, n - 1);
    }
}

/// Growth fills the container, in proportion.
///
/// In a container that does not wrap and whose children ask for nothing
/// but a share of its main extent, every child gets that extent times its
/// growth factor over the sum of all growth factors, rounded down to a
/// representable length. Together the children are as long as the
/// container, less what the rounding took, which is less than one unit a
/// child.
pub proof fn lemma_growth_fills_main_axis(
    parent: Style,
    kids: Seq<Style>,
    naturals: Seq<Size<Fixed>>,
    inner: Size<Fixed>,
)
    requires
        parent.flex_wrap == FlexWrap::NoWrap,
        kids.len() == naturals.len(),
        main_of(inner, parent.flex_direction).raw >= 0,
        forall|i: int| 0 <= i < kids.len() ==> only_grows(#[trigger] kids[i], parent, inner),
        0 < raw_total(factors_of(kids), kids.len() as int) <= i64::MAX,
    ensures
        ({
            let direction = parent.flex_direction;
            let extent = main_of(inner, direction).raw;
            let sum = raw_total(factors_of(kids), kids.len() as int);
            let boxes = child_boxes_spec(parent, kids, naturals, inner);
            &&& forall|i: int|
                0 <= i < kids.len() ==> main_of(#[trigger] boxes[i].size, direction).raw == (extent
                    * kids[i].flex_grow.raw) / sum
            &&& extent - kids.len() < raw_total(main_sizes(boxes, direction), kids.len() as int) <= extent
        }),
{
    let n = kids.len() as int;
    let direction = parent.flex_direction;
    let main = main_of(inner, direction);
    let extent = main.raw as int;
    let items = items_of(kids, naturals, parent, definite(inner));
    let factors = factors_of(kids);
    let sum = raw_total(factors, n);
    let boxes = child_boxes_spec(parent, kids, naturals, inner);
    let sizes = flex_sizes_spec(items, main);
    assert(n > 0) by {
        if n <= 0 {
            assert(raw_total(factors, n) == 0);
        }
    }
    assert forall|i: int| 0 <= i < kids.len() implies in_flow_spec(#[trigger] kids[i]) by {
        assert(only_grows(kids[i], parent, inner));
    }
    lemma_items_count(kids, naturals, parent, definite(inner), n);
    lemma_all_in_flow(kids, n);
    assert(items.len() == n);
    assert forall|i: int| 0 <= i < n implies grow_only(#[trigger] items[i]) && items[i].grow == kids[i].flex_grow by {
        assert(only_grows(kids[i], parent, inner));
        lemma_all_in_flow(kids, i);
        lemma_flowing_child(parent, kids, naturals, inner, i);
        reveal(item_of_spec);
    }
    assert(growth_factors(items) =~= factors);
    lemma_growth_shares(items, main);
    assert forall|i: int| 0 <= i < n implies main_of(#[trigger] boxes[i].size, direction) == sizes[i] by {
        assert(only_grows(kids[i], parent, inner));
        lemma_all_in_flow(kids, i);
        lemma_flowing_child_size(parent, kids, naturals, inner, i);
    }
    assert(main_sizes(boxes, direction) =~= sizes);
    assert forall|i: int| 0 <= i < n implies factors[i].raw >= 0 by {
        assert(only_grows(kids[i], parent, inner));
    }
    assert forall|i: int| 0 <= i < n implies sizes[i].raw == (extent * factors[i].raw) / sum by {
        assert(items[i].grow == kids[i].flex_grow);
    }
    lemma_shares_add_up(extent, factors, sizes, n);
    let together = raw_total(sizes, n);
    assert(extent - n < together <= extent) by (nonlinear_arith)
        requires
            sum > 0,
            n > 0,
            sum * together <= extent * sum,
            sum * together >= extent * sum - n * (sum - 1),
    ;
}

/// No child shrinks below its least size, nor below nothing.
///
/// Whatever the container, the main size of a child in flow lies between
/// the limits of the child, where the lower limit wins over an upper limit
/// below it.
pub proof fn lemma_main_size_respects_limits(
    parent: Style,
    kids: Seq<Style>,
    naturals: Seq<Size<Fixed>>,
    inner: Size<Fixed>,
    i: int,
)
    requires
        0 <= i < kids.len(),
        in_flow_spec(kids[i]),
    ensures
        ({
            let direction = parent.flex_direction;
            let extent = Number::Defined(main_of(inner, direction));
            let min = kids[i].min_main_size(direction).resolve(extent);
            let max = kids[i].max_main_size(direction).resolve(extent);
            let got = main_of(child_boxes_spec(parent, kids, naturals, inner)[i].size, direction);
            &&& got == bounded(got, min, max)
            &&& got.raw >= 0
            &&& min matches Number::Defined(least) ==> got.raw >= least.raw
            &&& max matches Number::Defined(most) ==> (min matches Number::Defined(least) ==> least.raw <= most.raw)
                && most.raw >= 0 ==> got.raw <= most.raw
        }),
{
    let direction = parent.flex_direction;
    let items = items_of(kids, naturals, parent, definite(inner));
    let main = main_of(inner, direction);
    let cross = cross_of(inner, direction);
    let rank = flow_count(kids, i) as int;
    reveal(item_of_spec);
    lemma_flowing_child(parent, kids, naturals, inner, i);
    lemma_placed_within_limits(parent, items, main, cross, rank);
    let got = place_items_spec(parent, items, main, cross)[rank].main_size;
    assert(main_of(child_boxes_spec(parent, kids, naturals, inner)[i].size, direction) == got);
    lemma_bounded(got, items[rank].min_main, items[rank].max_main);
}

/// What the limits of some children keep them from taking, or make them
/// take, is shared among the others.
///
/// In a container that does not wrap there is a set of children, those
/// whose limits cut their share, such that all others share among them, by
/// weight, the space that is left when the children in the set take their
/// sizes and the others their bases.
pub proof fn lemma_slack_is_shared(parent: Style, kids: Seq<Style>, naturals: Seq<Size<Fixed>>, inner: Size<Fixed>)
    requires
        parent.flex_wrap == FlexWrap::NoWrap,
    ensures
        ({
            let items = items_of(kids, naturals, parent, definite(inner));
            let main = main_of(inner, parent.flex_direction);
            let sizes = flex_sizes_spec(items, main);
            &&& exists|clamped: Seq<bool>| #[trigger] balanced(items, main, grows(items, main), clamped, sizes)
            &&& forall|i: int|
                0 <= i < kids.len() && in_flow_spec(#[trigger] kids[i]) ==> main_of(
                    child_boxes_spec(parent, kids, naturals, inner)[i].size,
                    parent.flex_direction,
                ) == sizes[flow_count(kids, i) as int]
        }),
{
    let items = items_of(kids, naturals, parent, definite(inner));
    let main = main_of(inner, parent.flex_direction);
    lemma_flex_sizes(items, main);
    assert forall|i: int| 0 <= i < kids.len() && in_flow_spec(#[trigger] kids[i]) implies main_of(
        child_boxes_spec(parent, kids, naturals, inner)[i].size,
        parent.flex_direction,
    ) == flex_sizes_spec(items, main)[flow_count(kids, i) as int] by {
        lemma_flowing_child_size(parent, kids, naturals, inner, i);
    }
}

/// The items of a container do not change when a child that is not in
/// flow is taken out.
pub proof fn lemma_items_without(
    kids: Seq<Style>,
    naturals: Seq<Size<Fixed>>,
    parent: Style,
    inner: Size<Number>,
    k: int,
    n: int,
)
    requires
        0 <= k < kids.len(),
        kids.len() == naturals.len(),
        !in_flow_spec(kids[k]),
        0 <= n <= kids.len(),
    ensures
        n <= k ==> items_upto(kids.remove(k), naturals.remove(k), parent, inner, n) == items_upto(
            kids,
            naturals,
            parent,
            inner,
            n,
        ),
        n > k ==> items_upto(kids.remove(k), naturals.remove(k), parent, inner, n - 1) == items_upto(
            kids,
            naturals,
            parent,
            inner,
            n,
        ),
        n <= k ==> flow_count(kids.remove(k), n) == flow_count(kids, n),
        n > k ==> flow_count(kids.remove(k), n - 1) == flow_count(kids, n),
    decreases n,
{
    if n > 0 {
        lemma_items_without(kids, naturals, parent, inner, k, n - 1);
        if n - 1 < k {
            assert(kids.remove(k)[n - 1] == kids[n - 1]);
            assert(naturals.remove(k)[n - 1] == naturals[n - 1]);
        } else if n - 1 > k {
            assert(kids.remove(k)[n - 2] == kids[n - 1]);
            assert(naturals.remove(k)[n - 2] == naturals[n - 1]);
        }
    }
}

/// A child that is positioned by its insets has no part in the layout of
/// its siblings: without it every other child has the box it has with it.
pub proof fn lemma_absolute_child_leaves_flow_alone(
    parent: Style,
    kids: Seq<Style>,
    naturals: Seq<Size<Fixed>>,
    inner: Size<Fixed>,
    k: int,
)
    requires
        0 <= k < kids.len(),
        kids.len() == naturals.len(),
        kids[k].position_type == PositionType::Absolute,
    ensures
        child_boxes_spec(parent, kids.remove(k), naturals.remove(k), inner) == child_boxes_spec(
            parent,
            kids,
            naturals,
            inner,
        ).remove(k),
{
    let n = kids.len() as int;
    let with = child_boxes_spec(parent, kids, naturals, inner);
    let without = child_boxes_spec(parent, kids.remove(k), naturals.remove(k), inner);
    lemma_items_without(kids, naturals, parent, definite(inner), k, n);
    let items = items_of(kids, naturals, parent, definite(inner));
    assert(items_of(kids.remove(k), naturals.remove(k), parent, definite(inner)) == items);
    let boxes = place_items_spec(
        parent,
        items,
        main_of(inner, parent.flex_direction),
        cross_of(inner, parent.flex_direction),
    );
    assert forall|j: int| 0 <= j < n - 1 implies without[j] == with.remove(k)[j] by {
        let source = if j < k {
            j
        } else {
            j + 1
        };
        assert(kids.remove(k)[j] == kids[source]);
        assert(naturals.remove(k)[j] == naturals[source]);
        lemma_items_without(kids, naturals, parent, definite(inner), k, source);
        assert(flow_count(kids.remove(k), j) == flow_count(kids, source));
        assert(without[j] == child_box_spec(parent, kids.remove(k), naturals.remove(k), inner, boxes, j));
        assert(with[source] == child_box_spec(parent, kids, naturals, inner, boxes, source));
    }
    assert(without =~= with.remove(k));
}

/// The box of a child that is positioned by its insets depends on its own
/// style and natural size and on the content box of its container, and on
/// no sibling. Along each axis an inset at the near edge puts it that far,
/// and its margin, from that edge.
pub proof fn lemma_absolute_child_follows_insets(
    parent: Style,
    kids: Seq<Style>,
    naturals: Seq<Size<Fixed>>,
    inner: Size<Fixed>,
    k: int,
)
    requires
        0 <= k < kids.len(),
        kids[k].display == Display::Flex,
        kids[k].position_type == PositionType::Absolute,
    ensures
        child_boxes_spec(parent, kids, naturals, inner)[k] == absolute_box_spec(parent, kids[k], naturals[k], inner),
        kids[k].position.start.resolve(Number::Defined(inner.width)) matches Number::Defined(start)
            ==> child_boxes_spec(parent, kids, naturals, inner)[k].location.x == start.spec_add(
            edge(kids[k].margin.start, Number::Defined(inner.width)),
        ),
        kids[k].position.top.resolve(Number::Defined(inner.height)) matches Number::Defined(top)
            ==> child_boxes_spec(parent, kids, naturals, inner)[k].location.y == top.spec_add(
            edge(kids[k].margin.top, Number::Defined(inner.width)),
        ),
{
}

/// Every child of a displayed node has, in the geometry tree, the size and
/// the place of its box.
pub proof fn lemma_children_get_their_boxes(tree: StyleTree, size: Size<Fixed>, containing: Number)
    ensures
        arrange_spec(tree, size, containing).len() == tree.children.len(),
        forall|i: int|
            0 <= i < tree.children.len() ==> (#[trigger] arrange_spec(tree, size, containing)[i]).size == boxes_in(
                tree,
                size,
                containing,
            )[i].size && arrange_spec(tree, size, containing)[i].location == boxes_in(
                tree,
                size,
                containing,
            )[i].location,
{
    lemma_arrange(tree, size, containing);
    assert forall|i: int| 0 <= i < tree.children.len() implies (#[trigger] arrange_spec(
        tree,
        size,
        containing,
    )[i]).size == boxes_in(tree, size, containing)[i].size && arrange_spec(tree, size, containing)[i].location
        == boxes_in(tree, size, containing)[i].location by {
        if tree.children[i].style.display == Display::Hidden {
            lemma_hidden_tree(tree.children[i]);
            assert(child_styles(tree)[i] == tree.children[i].style);
        }
    }
}

/// A tree without its child at `k`.
pub open spec fn without_child(tree: StyleTree, k: int) -> StyleTree {
    StyleTree { style: tree.style, children: tree.children.remove(k) }
}

/// A node is as large by nature without a child that is not in flow as it
/// is with it.
pub proof fn lemma_natural_size_ignores_absolute_child(tree: StyleTree, k: int)
    requires
        0 <= k < tree.children.len(),
        tree.children[k].style.position_type == PositionType::Absolute,
    ensures
        natural(without_child(tree, k)) == natural(tree),
{
    let rest = without_child(tree, k);
    lemma_natural_tree(tree);
    lemma_natural_tree(rest);
    if tree.style.display != Display::Hidden {
        let kids = child_styles(tree);
        let naturals = child_naturals(tree);
        assert(child_styles(rest) =~= kids.remove(k));
        assert(child_naturals(rest) =~= naturals.remove(k));
        lemma_items_without(kids, naturals, tree.style, unconstrained(), k, kids.len() as int);
    }
}

/// The geometry of a hidden subtree without one of its children is its
/// geometry with that child, less the geometry of the child.
pub proof fn lemma_hidden_without_child(tree: StyleTree, k: int)
    requires
        0 <= k < tree.children.len(),
    ensures
        hidden_tree(without_child(tree, k)).children == hidden_tree(tree).children.remove(k),
{
    let rest = without_child(tree, k);
    let with = hidden_tree(tree).children;
    let without = hidden_tree(rest).children;
    lemma_hidden_tree(tree);
    lemma_hidden_tree(rest);
    assert forall|j: int| 0 <= j < without.len() implies without[j] == with.remove(k)[j] by {
        let source = if j < k {
            j
        } else {
            j + 1
        };
        assert(rest.children[j] == tree.children[source]);
        assert(with[source] == hidden_tree(tree.children[source]));
    }
    assert(without =~= with.remove(k));
}

/// The boxes of the children of a node without a child that is positioned
/// by its insets are the boxes with that child, less the box of the child.
pub proof fn lemma_boxes_without_absolute_child(tree: StyleTree, k: int, size: Size<Fixed>, containing: Number)
    requires
        0 <= k < tree.children.len(),
        tree.children[k].style.position_type == PositionType::Absolute,
    ensures
        boxes_in(without_child(tree, k), size, containing) == boxes_in(tree, size, containing).remove(k),
{
    let rest = without_child(tree, k);
    let kids = child_styles(tree);
    let naturals = child_naturals(tree);
    let inner = content_box_spec(tree.style, size, containing);
    assert(child_styles(rest) =~= kids.remove(k));
    assert(child_naturals(rest) =~= naturals.remove(k));
    lemma_absolute_child_leaves_flow_alone(tree.style, kids, naturals, inner, k);
}

/// The geometry of the children of a node without a child that is
/// positioned by its insets is their geometry with that child, less the
/// geometry of the child.
pub proof fn lemma_arrange_without_absolute_child(tree: StyleTree, k: int, size: Size<Fixed>, containing: Number)
    requires
        0 <= k < tree.children.len(),
        tree.children[k].style.position_type == PositionType::Absolute,
    ensures
        arrange_spec(without_child(tree, k), size, containing) == arrange_spec(tree, size, containing).remove(k),
{
    let rest = without_child(tree, k);
    let with = arrange_spec(tree, size, containing);
    let without = arrange_spec(rest, size, containing);
    let boxes = boxes_in(tree, size, containing);
    let fewer = boxes_in(rest, size, containing);
    lemma_boxes_without_absolute_child(tree, k, size, containing);
    lemma_arrange(tree, size, containing);
    lemma_arrange(rest, size, containing);
    assert forall|j: int| 0 <= j < without.len() implies without[j] == with.remove(k)[j] by {
        let source = if j < k {
            j
        } else {
            j + 1
        };
        assert(rest.children[j] == tree.children[source]);
        assert(fewer[j] == boxes.remove(k)[j]);
        assert(fewer[j] == boxes[source]);
        assert(with.remove(k)[j] == with[source]);
    }
    assert(without =~= with.remove(k));
}

/// A child that is positioned by its insets has no part in the layout of
/// the tree around it: laid out without it, the root and every other node
/// have the geometry they have with it.
pub proof fn lemma_absolute_child_leaves_layout_alone(tree: StyleTree, k: int, available: Size<Number>)
    requires
        0 <= k < tree.children.len(),
        tree.children[k].style.position_type == PositionType::Absolute,
    ensures
        layout_spec(without_child(tree, k), available).size == layout_spec(tree, available).size,
        layout_spec(without_child(tree, k), available).location == layout_spec(tree, available).location,
        layout_spec(without_child(tree, k), available).children == layout_spec(tree, available).children.remove(k),
{
    lemma_natural_size_ignores_absolute_child(tree, k);
    if tree.style.display == Display::Hidden {
        lemma_hidden_without_child(tree, k);
        lemma_hidden_tree(tree);
        lemma_hidden_tree(without_child(tree, k));
    } else {
        let size = root_size_spec(tree.style, natural(tree), available);
        lemma_arrange_without_absolute_child(tree, k, size, available.width);
    }
}

} // verus!
