//! Flex items: what a container has to know of each child in its flow.

use crate::algorithm::resolve::{bounded, cross_of, edge, in_flow_spec, main_of, zero};
use crate::fixed::Fixed;
use crate::geometry::Size;
use crate::number::Number;
use crate::style::{AlignSelf, Display, PositionType, Style};
use vstd::prelude::*;

verus! {

/// A child in the flow of its container, with every dimension resolved
/// against the content box of the container.
#[derive(Copy, Clone, Debug)]
pub struct Item {
    /// The main size before any free space is distributed.
    pub basis: Fixed,
    pub min_main: Number,
    pub max_main: Number,
    /// The share of positive free space the item asks for; never negative.
    pub grow: Fixed,
    /// The share of negative free space the item takes; never negative.
    pub shrink: Fixed,
    pub margin_main_start: Fixed,
    pub margin_main_end: Fixed,
    /// The cross size of the item unless it is stretched.
    pub cross: Fixed,
    /// Whether the item fills the cross extent of its line.
    pub stretches: bool,
    pub min_cross: Number,
    pub max_cross: Number,
    pub margin_cross_start: Fixed,
    pub margin_cross_end: Fixed,
    /// The alignment in the line; never `Auto`.
    pub align: AlignSelf,
}

/// Whether a node takes part in the flow of its container.
pub fn in_flow(style: &Style) -> (r: bool)
    ensures
        r == in_flow_spec(*style),
{
    style.display == Display::Flex && style.position_type == PositionType::Relative
}

/// The item that stands for a child of natural size `natural` in a
/// container of style `parent` whose content box is `inner`.
///
/// The basis is the child's flex basis, else its main size, else its
/// natural main size. The cross size is the child's own, else its natural
/// one, held between its limits. Margins resolve against the width of the
/// content box, sizes against its extent along their own axis.
#[verifier::opaque]
pub open spec fn item_of_spec(child: Style, natural: Size<Fixed>, parent: Style, inner: Size<Number>) -> Item {
    let direction = parent.flex_direction;
    let main = main_of(inner, direction);
    let cross = cross_of(inner, direction);
    let cross_style = child.cross_size(direction).resolve(cross);
    let min_cross = child.min_cross_size(direction).resolve(cross);
    let max_cross = child.max_cross_size(direction).resolve(cross);
    let align = child.align_self_spec(parent.align_items);
    Item {
        basis: child.flex_basis.resolve(main).or_else(
            child.main_size(direction).resolve(main).or_else(main_of(natural, direction)),
        ),
        min_main: child.min_main_size(direction).resolve(main),
        max_main: child.max_main_size(direction).resolve(main),
        grow: child.flex_grow.max_spec(zero()),
        shrink: child.flex_shrink.max_spec(zero()),
        margin_main_start: edge(child.main_margin_start(direction), inner.width),
        margin_main_end: edge(child.main_margin_end(direction), inner.width),
        cross: bounded(cross_style.or_else(cross_of(natural, direction)), min_cross, max_cross),
        stretches: align == AlignSelf::Stretch && cross_style is Undefined,
        min_cross,
        max_cross,
        margin_cross_start: edge(child.cross_margin_start(direction), inner.width),
        margin_cross_end: edge(child.cross_margin_end(direction), inner.width),
        align,
    }
}

/// The item that stands for a child in a container.
pub fn item_of(child: &Style, natural: Size<Fixed>, parent: &Style, inner: Size<Number>) -> (r: Item)
    ensures
        r == item_of_spec(*child, natural, *parent, inner),
{
    reveal(item_of_spec);
    let direction = parent.flex_direction;
    let main = main_of(inner, direction);
    let cross = cross_of(inner, direction);
    let cross_style = child.cross_size(direction).resolve(cross);
    let min_cross = child.min_cross_size(direction).resolve(cross);
    let max_cross = child.max_cross_size(direction).resolve(cross);
    let align = child.resolved_align_self(parent.align_items);
    Item {
        basis: child.flex_basis.resolve(main).or_else(
            child.main_size(direction).resolve(main).or_else(main_of(natural, direction)),
        ),
        min_main: child.min_main_size(direction).resolve(main),
        max_main: child.max_main_size(direction).resolve(main),
        grow: child.flex_grow.max(Fixed::zero()),
        shrink: child.flex_shrink.max(Fixed::zero()),
        margin_main_start: edge(child.main_margin_start(direction), inner.width),
        margin_main_end: edge(child.main_margin_end(direction), inner.width),
        cross: bounded(cross_style.or_else(cross_of(natural, direction)), min_cross, max_cross),
        stretches: align == AlignSelf::Stretch && cross_style.is_undefined(),
        min_cross,
        max_cross,
        margin_cross_start: edge(child.cross_margin_start(direction), inner.width),
        margin_cross_end: edge(child.cross_margin_end(direction), inner.width),
        align,
    }
}

/// The items of the children in flow among the first `n`, in order.
pub open spec fn items_upto(
    kids: Seq<Style>,
    naturals: Seq<Size<Fixed>>,
    parent: Style,
    inner: Size<Number>,
    n: int,
) -> Seq<Item>
    decreases n,
{
    if n <= 0 {
        Seq::empty()
    } else {
        let before = items_upto(kids, naturals, parent, inner, n - 1);
        if in_flow_spec(kids[n - 1]) {
            before.push(item_of_spec(kids[n - 1], naturals[n - 1], parent, inner))
        } else {
            before
        }
    }
}

/// The items of all children in flow, in order.
pub open spec fn items_of(kids: Seq<Style>, naturals: Seq<Size<Fixed>>, parent: Style, inner: Size<Number>) -> Seq<
    Item,
> {
    items_upto(kids, naturals, parent, inner, kids.len() as int)
}

/// How many of the first `n` children are in flow.
pub open spec fn flow_count(kids: Seq<Style>, n: int) -> nat
    decreases n,
{
    if n <= 0 {
        0
    } else if in_flow_spec(kids[n - 1]) {
        flow_count(kids, n - 1) + 1
    } else {
        flow_count(kids, n - 1)
    }
}

/// There is one item for each child in flow.
pub proof fn lemma_items_count(kids: Seq<Style>, naturals: Seq<Size<Fixed>>, parent: Style, inner: Size<Number>, n: int)
    requires
        0 <= n <= kids.len(),
    ensures
        items_upto(kids, naturals, parent, inner, n).len() == flow_count(kids, n),
    decreases n,
{
    if n > 0 {
        lemma_items_count(kids, naturals, parent, inner, n - 1);
    }
}

/// The item of the child in flow at `i` is the one at `flow_count(kids, i)`.
pub proof fn lemma_item_at(
    kids: Seq<Style>,
    naturals: Seq<Size<Fixed>>,
    parent: Style,
    inner: Size<Number>,
    n: int,
    i: int,
)
    requires
        0 <= i < n <= kids.len(),
        in_flow_spec(kids[i]),
    ensures
        flow_count(kids, i) < flow_count(kids, n),
        flow_count(kids, n) == items_upto(kids, naturals, parent, inner, n).len(),
        items_upto(kids, naturals, parent, inner, n)[flow_count(kids, i) as int] == item_of_spec(
            kids[i],
            naturals[i],
            parent,
            inner,
        ),
    decreases n,
{
    lemma_items_count(kids, naturals, parent, inner, n);
    lemma_items_count(kids, naturals, parent, inner, n - 1);
    if i < n - 1 {
        lemma_item_at(kids, naturals, parent, inner, n - 1, i);
    }
}

/// The items of all children in flow, in order.
pub fn collect_items(kids: &Vec<Style>, naturals: &Vec<Size<Fixed>>, parent: &Style, inner: Size<Number>) -> (r:
    Vec<Item>)
    requires
        kids.len() == naturals.len(),
    ensures
        r@ == items_of(kids@, naturals@, *parent, inner),
{
    let mut out: Vec<Item> = Vec::new();
    let mut i: usize = 0;
    while i < kids.len()
        invariant
            i <= kids.len(),
            kids.len() == naturals.len(),
            out@ == items_upto(kids@, naturals@, *parent, inner, i as int),
        decreases kids.len() - i,
    {
        if in_flow(&kids[i]) {
            out.push(item_of(&kids[i], naturals[i], parent, inner));
        }
        i += 1;
    }
    out
}

} // verus!
