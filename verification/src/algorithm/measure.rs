//! The first pass: the natural size of every node.
//!
//! The natural size of a node is the size it takes when the box that holds
//! it is unknown: percentages resolve to nothing, no line is broken, and no
//! free space is distributed. A node without a size of its own is as large
//! as its children in flow need it to be.

use crate::algorithm::item::{collect_items, items_of};
use crate::algorithm::line::{collect_outer_crosses, collect_outer_hypotheticals, outer_crosses, outer_hypotheticals};
use crate::algorithm::resolve::{
    border_box, border_box_spec, bounded, oriented_size, zero,
};
use crate::algorithm::series::{largest, peak, sum, total};
use crate::fixed::Fixed;
use crate::geometry::Size;
use crate::number::Number;
use crate::style::{Display, Node, Style, StyleTree};
use vstd::prelude::*;

verus! {

/// The size of nothing.
pub open spec fn zero_size() -> Size<Fixed> {
    Size { width: zero(), height: zero() }
}

/// A containing box of which nothing is known.
pub open spec fn unconstrained() -> Size<Number> {
    Size { width: Number::Undefined, height: Number::Undefined }
}

/// The styles of the children of a node.
pub open spec fn child_styles(tree: StyleTree) -> Seq<Style> {
    Seq::new(tree.children.len(), |i: int| tree.children[i].style)
}

/// The extent that the children in flow take when laid side by side along
/// the main axis of their container, each at its size before free space is
/// distributed and with its margins.
pub open spec fn content_size_spec(parent: Style, kids: Seq<Style>, naturals: Seq<Size<Fixed>>) -> Size<Fixed> {
    let items = items_of(kids, naturals, parent, unconstrained());
    oriented_size(
        parent.flex_direction,
        total(outer_hypotheticals(items), items.len() as int),
        peak(outer_crosses(items), items.len() as int),
    )
}

/// The natural size of a node with the given children: along each axis its
/// own size if that is given in points, else what its children, its
/// padding and its border take; held between its limits as far as they are
/// given in points. A node that is not displayed has no size.
pub open spec fn natural_size_spec(style: Style, kids: Seq<Style>, naturals: Seq<Size<Fixed>>) -> Size<Fixed> {
    if style.display == Display::Hidden {
        zero_size()
    } else {
        let content = border_box_spec(style, content_size_spec(style, kids, naturals), Number::Undefined);
        Size {
            width: bounded(
                style.size.width.resolve(Number::Undefined).or_else(content.width),
                style.min_size.width.resolve(Number::Undefined),
                style.max_size.width.resolve(Number::Undefined),
            ),
            height: bounded(
                style.size.height.resolve(Number::Undefined).or_else(content.height),
                style.min_size.height.resolve(Number::Undefined),
                style.max_size.height.resolve(Number::Undefined),
            ),
        }
    }
}

/// The natural size of a node with the given children.
pub fn natural_size(style: &Style, kids: &Vec<Style>, naturals: &Vec<Size<Fixed>>) -> (r: Size<Fixed>)
    requires
        kids.len() == naturals.len(),
    ensures
        r == natural_size_spec(*style, kids@, naturals@),
{
    if style.display == Display::Hidden {
        return Size { width: Fixed::zero(), height: Fixed::zero() };
    }
    let nothing = Size { width: Number::Undefined, height: Number::Undefined };
    let items = collect_items(kids, naturals, style, nothing);
    let mains = collect_outer_hypotheticals(&items);
    let crosses = collect_outer_crosses(&items);
    let content = oriented_size(style.flex_direction, sum(&mains), largest(&crosses));
    let outer = border_box(style, content, Number::Undefined);
    Size {
        width: bounded(
            style.size.width.resolve(Number::Undefined).or_else(outer.width),
            style.min_size.width.resolve(Number::Undefined),
            style.max_size.width.resolve(Number::Undefined),
        ),
        height: bounded(
            style.size.height.resolve(Number::Undefined).or_else(outer.height),
            style.min_size.height.resolve(Number::Undefined),
            style.max_size.height.resolve(Number::Undefined),
        ),
    }
}

/// The natural sizes of a tree as a mathematical value.
pub struct MeasuredTree {
    pub size: Size<Fixed>,
    pub children: Seq<MeasuredTree>,
}

/// The natural sizes of a tree, node for node. A node that is not
/// displayed has no children here.
#[derive(Debug)]
pub struct Measured {
    pub size: Size<Fixed>,
    pub children: Vec<Measured>,
}

impl View for Measured {
    type V = MeasuredTree;

    open spec fn view(&self) -> MeasuredTree
        decreases self,
    {
        MeasuredTree {
            size: self.size,
            children: Seq::new(
                self.children.len() as nat,
                |i: int|
                    if 0 <= i < self.children.len() {
                        self.children[i].view()
                    } else {
                        arbitrary()
                    },
            ),
        }
    }
}

impl Measured {
    /// What the view of a node is made of.
    pub proof fn lemma_view(self)
        ensures
            self@.size == self.size,
            self@.children.len() == self.children.len(),
            forall|i: int| 0 <= i < self.children.len() ==> #[trigger] self@.children[i] == self.children[i]@,
    {
        reveal_with_fuel(<Measured as View>::view, 2);
    }
}

/// The natural sizes of a tree.
pub open spec fn natural_tree(tree: StyleTree) -> MeasuredTree
    decreases tree, 1int,
{
    if tree.style.display == Display::Hidden {
        MeasuredTree { size: zero_size(), children: Seq::empty() }
    } else {
        MeasuredTree {
            size: natural_size_spec(tree.style, child_styles(tree), sizes_of(natural_trees(tree))),
            children: natural_trees(tree),
        }
    }
}

/// The natural sizes of the subtrees of a tree.
pub open spec fn natural_trees(tree: StyleTree) -> Seq<MeasuredTree>
    decreases tree, 0int,
{
    Seq::new(
        tree.children.len(),
        |i: int|
            if 0 <= i < tree.children.len() {
                natural_tree(tree.children[i])
            } else {
                arbitrary()
            },
    )
}

/// The sizes at the roots of measured trees.
pub open spec fn sizes_of(trees: Seq<MeasuredTree>) -> Seq<Size<Fixed>> {
    Seq::new(trees.len(), |i: int| trees[i].size)
}

/// The natural size of a tree.
pub open spec fn natural(tree: StyleTree) -> Size<Fixed> {
    natural_tree(tree).size
}

/// The natural sizes of the children of a node.
pub open spec fn child_naturals(tree: StyleTree) -> Seq<Size<Fixed>> {
    Seq::new(tree.children.len(), |i: int| natural(tree.children[i]))
}

/// What the natural sizes of a tree are made of.
pub proof fn lemma_natural_tree(tree: StyleTree)
    ensures
        tree.style.display == Display::Hidden ==> natural_tree(tree) == (MeasuredTree {
            size: zero_size(),
            children: Seq::empty(),
        }),
        tree.style.display != Display::Hidden ==> {
            &&& natural(tree) == natural_size_spec(tree.style, child_styles(tree), child_naturals(tree))
            &&& natural_tree(tree).children.len() == tree.children.len()
            &&& forall|i: int|
                0 <= i < tree.children.len() ==> #[trigger] natural_tree(tree).children[i] == natural_tree(
                    tree.children[i],
                )
        },
{
    reveal_with_fuel(natural_tree, 2);
    reveal_with_fuel(natural_trees, 2);
    if tree.style.display != Display::Hidden {
        assert(child_naturals(tree) =~= sizes_of(natural_trees(tree)));
    }
}

/// The styles of the children of a node, read off the node.
pub fn collect_child_styles(node: &Node) -> (r: Vec<Style>)
    ensures
        r@ == child_styles(node@),
{
    let mut out: Vec<Style> = Vec::new();
    let mut i: usize = 0;
    proof {
        node.lemma_view();
    }
    while i < node.children.len()
        invariant
            i <= node.children.len(),
            out.len() == i,
            node@.children.len() == node.children.len(),
            forall|j: int| 0 <= j < node.children.len() ==> #[trigger] node@.children[j] == node.children[j]@,
            forall|j: int| 0 <= j < i ==> out[j] == node@.children[j].style,
        decreases node.children.len() - i,
    {
        proof {
            node.children[i as int].lemma_view();
            assert(node@.children[i as int] == node.children[i as int]@);
        }
        out.push(node.children[i].style());
        i += 1;
    }
    assert(out@ =~= child_styles(node@));
    out
}

/// The natural sizes of the children of a measured node.
pub fn collect_child_naturals(measured: &Measured) -> (r: Vec<Size<Fixed>>)
    ensures
        r.len() == measured.children.len(),
        forall|j: int| 0 <= j < r.len() ==> r[j] == measured@.children[j].size,
{
    let mut out: Vec<Size<Fixed>> = Vec::new();
    let mut i: usize = 0;
    proof {
        measured.lemma_view();
    }
    while i < measured.children.len()
        invariant
            i <= measured.children.len(),
            out.len() == i,
            measured@.children.len() == measured.children.len(),
            forall|j: int|
                0 <= j < measured.children.len() ==> #[trigger] measured@.children[j] == measured.children[j]@,
            forall|j: int| 0 <= j < i ==> out[j] == measured@.children[j].size,
        decreases measured.children.len() - i,
    {
        proof {
            measured.children[i as int].lemma_view();
            assert(measured@.children[i as int] == measured.children[i as int]@);
        }
        out.push(measured.children[i].size);
        i += 1;
    }
    out
}

/// Measures a tree: the natural size of every node, children before
/// parents.
pub fn measure(node: &Node) -> (r: Measured)
    ensures
        r@ == natural_tree(node@),
    decreases node,
{
    proof {
        node.lemma_view();
        lemma_natural_tree(node@);
    }
    if node.display == Display::Hidden {
        let r = Measured { size: Size { width: Fixed::zero(), height: Fixed::zero() }, children: Vec::new() };
        proof {
            r.lemma_view();
            assert(r@.children =~= Seq::empty());
        }
        return r;
    }
    let style = node.style();
    let kids = collect_child_styles(node);
    let mut children: Vec<Measured> = Vec::new();
    let mut naturals: Vec<Size<Fixed>> = Vec::new();
    let mut i: usize = 0;
    while i < node.children.len()
        invariant
            i <= node.children.len(),
            children.len() == i,
            naturals.len() == i,
            node@.children.len() == node.children.len(),
            forall|j: int| 0 <= j < node.children.len() ==> #[trigger] node@.children[j] == node.children[j]@,
            forall|j: int| 0 <= j < i ==> #[trigger] children[j]@ == natural_tree(node@.children[j]),
            forall|j: int| 0 <= j < i ==> #[trigger] naturals[j] == natural(node@.children[j]),
        decreases node.children.len() - i,
    {
        proof {
            assert(decreases_to!(node => node.children));
            assert(decreases_to!(node.children => node.children@));
            assert(decreases_to!(node.children@ => node.children@[i as int]));
            assert(node@.children[i as int] == node.children[i as int]@);
        }
        let child = measure(&node.children[i]);
        proof {
            child.lemma_view();
        }
        naturals.push(child.size);
        children.push(child);
        i += 1;
    }
    proof {
        assert(naturals@ =~= child_naturals(node@));
    }
    let size = natural_size(&style, &kids, &naturals);
    let r = Measured { size, children };
    proof {
        r.lemma_view();
        assert(r@.children =~= natural_tree(node@).children);
    }
    r
}

} // verus!
