//! Placement: where the items of a container go once their lines and
//! their main sizes are known.

use crate::algorithm::flex::{flex_sizes, flex_sizes_spec};
use crate::algorithm::item::Item;
use crate::algorithm::line::{break_lines, collect_outer_crosses, joined, line_views, lines, outer_crosses};
use crate::algorithm::resolve::{bounded, zero};
use crate::algorithm::series::{largest, offsets, peak, stacked, sum, total};
use crate::fixed::Fixed;
use crate::style::{AlignContent, AlignSelf, FlexWrap, JustifyContent, Style};
use vstd::prelude::*;

verus! {

/// The box of an item along the axes of its container, relative to the
/// content box of the container.
#[derive(Copy, Clone, Debug)]
pub struct ItemBox {
    pub main_size: Fixed,
    pub cross_size: Fixed,
    pub main_offset: Fixed,
    pub cross_offset: Fixed,
}

/// How a row of boxes is spread: where the first begins and how far
/// consecutive ones are apart.
#[derive(Copy, Clone, Debug)]
pub struct Spacing {
    pub lead: Fixed,
    pub gap: Fixed,
}

/// How `count` items are spread along the main axis over `free` space.
/// Space that is missing is never shared out: the `Space*` forms then
/// pack the items at the start.
pub open spec fn justify_spacing_spec(justify: JustifyContent, free: Fixed, count: int) -> Spacing {
    let room = free.max_spec(zero());
    match justify {
        JustifyContent::FlexStart => Spacing { lead: zero(), gap: zero() },
        JustifyContent::FlexEnd => Spacing { lead: free, gap: zero() },
        JustifyContent::Center => Spacing { lead: free.div_int_spec(2), gap: zero() },
        JustifyContent::SpaceBetween => Spacing {
            lead: zero(),
            gap: if count > 1 {
                room.div_int_spec(count - 1)
            } else {
                zero()
            },
        },
        JustifyContent::SpaceAround => Spacing {
            lead: room.div_int_spec(count).div_int_spec(2),
            gap: room.div_int_spec(count),
        },
        JustifyContent::SpaceEvenly => Spacing {
            lead: room.div_int_spec(count + 1),
            gap: room.div_int_spec(count + 1),
        },
    }
}

/// How `count` items are spread along the main axis over `free` space.
pub fn justify_spacing(justify: JustifyContent, free: Fixed, count: usize) -> (r: Spacing)
    ensures
        r == justify_spacing_spec(justify, free, count as int),
{
    let room = free.max(Fixed::zero());
    match justify {
        JustifyContent::FlexStart => Spacing { lead: Fixed::zero(), gap: Fixed::zero() },
        JustifyContent::FlexEnd => Spacing { lead: free, gap: Fixed::zero() },
        JustifyContent::Center => Spacing { lead: free.div_int(2), gap: Fixed::zero() },
        JustifyContent::SpaceBetween => Spacing {
            lead: Fixed::zero(),
            gap: if count > 1 {
                room.div_int((count - 1) as u128)
            } else {
                Fixed::zero()
            },
        },
        JustifyContent::SpaceAround => Spacing {
            lead: room.div_int(count as u128).div_int(2),
            gap: room.div_int(count as u128),
        },
        JustifyContent::SpaceEvenly => Spacing {
            lead: room.div_int(count as u128 + 1),
            gap: room.div_int(count as u128 + 1),
        },
    }
}

/// How `count` lines are spread along the cross axis over `free` space.
pub open spec fn content_spacing_spec(align: AlignContent, free: Fixed, count: int) -> Spacing {
    let room = free.max_spec(zero());
    match align {
        AlignContent::FlexStart => Spacing { lead: zero(), gap: zero() },
        AlignContent::Stretch => Spacing { lead: zero(), gap: zero() },
        AlignContent::FlexEnd => Spacing { lead: free, gap: zero() },
        AlignContent::Center => Spacing { lead: free.div_int_spec(2), gap: zero() },
        AlignContent::SpaceBetween => Spacing {
            lead: zero(),
            gap: if count > 1 {
                room.div_int_spec(count - 1)
            } else {
                zero()
            },
        },
        AlignContent::SpaceAround => Spacing {
            lead: room.div_int_spec(count).div_int_spec(2),
            gap: room.div_int_spec(count),
        },
    }
}

/// How `count` lines are spread along the cross axis over `free` space.
pub fn content_spacing(align: AlignContent, free: Fixed, count: usize) -> (r: Spacing)
    ensures
        r == content_spacing_spec(align, free, count as int),
{
    let room = free.max(Fixed::zero());
    match align {
        AlignContent::FlexStart => Spacing { lead: Fixed::zero(), gap: Fixed::zero() },
        AlignContent::Stretch => Spacing { lead: Fixed::zero(), gap: Fixed::zero() },
        AlignContent::FlexEnd => Spacing { lead: free, gap: Fixed::zero() },
        AlignContent::Center => Spacing { lead: free.div_int(2), gap: Fixed::zero() },
        AlignContent::SpaceBetween => Spacing {
            lead: Fixed::zero(),
            gap: if count > 1 {
                room.div_int((count - 1) as u128)
            } else {
                Fixed::zero()
            },
        },
        AlignContent::SpaceAround => Spacing {
            lead: room.div_int(count as u128).div_int(2),
            gap: room.div_int(count as u128),
        },
    }
}

impl Item {
    /// The cross size of the item in a line of cross extent `line`: what
    /// the line leaves inside the margins if the item stretches, held
    /// between its limits, and its own cross size otherwise.
    pub open spec fn cross_size_spec(&self, line: Fixed) -> Fixed {
        if self.stretches {
            bounded(
                line.spec_sub(self.margin_cross_start).spec_sub(self.margin_cross_end),
                self.min_cross,
                self.max_cross,
            )
        } else {
            self.cross
        }
    }

    /// The cross size of the item in a line of cross extent `line`.
    #[verifier::when_used_as_spec(cross_size_spec)]
    pub fn cross_size(&self, line: Fixed) -> (r: Fixed)
        ensures
            r == self.cross_size_spec(line),
    {
        if self.stretches {
            bounded(line - self.margin_cross_start - self.margin_cross_end, self.min_cross, self.max_cross)
        } else {
            self.cross
        }
    }

    /// Where an item of cross size `size` begins inside a line of cross
    /// extent `line`. An item aligned to the baseline begins where the line
    /// begins.
    pub open spec fn cross_offset_spec(&self, line: Fixed, size: Fixed) -> Fixed {
        match self.align {
            AlignSelf::FlexEnd => line.spec_sub(size).spec_sub(self.margin_cross_end),
            AlignSelf::Center => self.margin_cross_start.spec_add(
                line.spec_sub(size).spec_sub(self.margin_cross_start).spec_sub(
                    self.margin_cross_end,
                ).div_int_spec(2),
            ),
            _ => self.margin_cross_start,
        }
    }

    /// Where an item of cross size `size` begins inside a line of cross
    /// extent `line`.
    #[verifier::when_used_as_spec(cross_offset_spec)]
    pub fn cross_offset(&self, line: Fixed, size: Fixed) -> (r: Fixed)
        ensures
            r == self.cross_offset_spec(line, size),
    {
        match self.align {
            AlignSelf::FlexEnd => line - size - self.margin_cross_end,
            AlignSelf::Center => self.margin_cross_start + (line - size - self.margin_cross_start
                - self.margin_cross_end).div_int(2),
            _ => self.margin_cross_start,
        }
    }

    /// The box of the item: `size` long, beginning after its margin at
    /// `start` along the main axis, or as far from the far end of `main`
    /// where the axis is reversed; aligned inside a line that begins at
    /// `line_offset` and is `line_cross` across.
    pub open spec fn boxed_spec(
        &self,
        reverse: bool,
        size: Fixed,
        start: Fixed,
        main: Fixed,
        line_cross: Fixed,
        line_offset: Fixed,
    ) -> ItemBox {
        let offset = start.spec_add(self.margin_main_start);
        let cross = self.cross_size(line_cross);
        ItemBox {
            main_size: size,
            cross_size: cross,
            main_offset: if reverse {
                main.spec_sub(offset).spec_sub(size)
            } else {
                offset
            },
            cross_offset: line_offset.spec_add(self.cross_offset(line_cross, cross)),
        }
    }

    /// The box of the item.
    #[verifier::when_used_as_spec(boxed_spec)]
    pub fn boxed(
        &self,
        reverse: bool,
        size: Fixed,
        start: Fixed,
        main: Fixed,
        line_cross: Fixed,
        line_offset: Fixed,
    ) -> (r: ItemBox)
        ensures
            r == self.boxed_spec(reverse, size, start, main, line_cross, line_offset),
    {
        let offset = start + self.margin_main_start;
        let cross = self.cross_size(line_cross);
        ItemBox {
            main_size: size,
            cross_size: cross,
            main_offset: if reverse {
                main - offset - size
            } else {
                offset
            },
            cross_offset: line_offset + self.cross_offset(line_cross, cross),
        }
    }
}

/// The main extent each item takes at its main size, margins included.
pub open spec fn outer_sizes(line: Seq<Item>, sizes: Seq<Fixed>) -> Seq<Fixed> {
    Seq::new(line.len(), |i: int| line[i].outer_main(sizes[i]))
}

/// The main extent each item takes at its main size.
fn collect_outer_sizes(line: &Vec<Item>, sizes: &Vec<Fixed>) -> (r: Vec<Fixed>)
    requires
        sizes.len() == line.len(),
    ensures
        r@ == outer_sizes(line@, sizes@),
{
    let mut out: Vec<Fixed> = Vec::new();
    let mut i: usize = 0;
    while i < line.len()
        invariant
            i <= line.len(),
            sizes.len() == line.len(),
            out.len() == i,
            forall|j: int| 0 <= j < i ==> out[j] == line[j].outer_main(sizes[j]),
        decreases line.len() - i,
    {
        out.push(line[i].outer_main(sizes[i]));
        i += 1;
    }
    assert(out@ =~= outer_sizes(line@, sizes@));
    out
}

/// The boxes of the items of one line, given their main sizes.
pub open spec fn arranged(
    parent: Style,
    line: Seq<Item>,
    sizes: Seq<Fixed>,
    main: Fixed,
    line_cross: Fixed,
    line_offset: Fixed,
) -> Seq<ItemBox> {
    let outer = outer_sizes(line, sizes);
    let free = main.spec_sub(total(outer, line.len() as int));
    let spacing = justify_spacing_spec(parent.justify_content, free, line.len() as int);
    let starts = stacked(outer, spacing.lead, spacing.gap);
    Seq::new(
        line.len(),
        |i: int|
            line[i].boxed(parent.flex_direction.is_reverse(), sizes[i], starts[i], main, line_cross, line_offset),
    )
}

/// The boxes of the items of one line in a container of main extent
/// `main`: free space is distributed, then the items are spread along the
/// main axis and aligned across the line.
pub open spec fn line_boxes_spec(parent: Style, line: Seq<Item>, main: Fixed, line_cross: Fixed, line_offset: Fixed) -> Seq<
    ItemBox,
> {
    arranged(parent, line, flex_sizes_spec(line, main), main, line_cross, line_offset)
}

/// Appends the boxes of the items of one line to `out`.
pub fn line_boxes(
    parent: &Style,
    line: &Vec<Item>,
    main: Fixed,
    line_cross: Fixed,
    line_offset: Fixed,
    out: &mut Vec<ItemBox>,
)
    ensures
        final(out)@ == old(out)@ + line_boxes_spec(*parent, line@, main, line_cross, line_offset),
{
    let sizes = flex_sizes(line, main);
    proof {
        lemma_flex_sizes_len(line@, main);
    }
    let outer = collect_outer_sizes(line, &sizes);
    let free = main - sum(&outer);
    let spacing = justify_spacing(parent.justify_content, free, line.len());
    let starts = offsets(&outer, spacing.lead, spacing.gap);
    let reverse = parent.flex_direction.is_reverse();
    let ghost before = out@;
    let ghost boxes = line_boxes_spec(*parent, line@, main, line_cross, line_offset);
    let mut i: usize = 0;
    while i < line.len()
        invariant
            i <= line.len(),
            sizes.len() == line.len(),
            starts.len() == line.len(),
            boxes.len() == line.len(),
            out.len() == before.len() + i,
            forall|j: int| 0 <= j < before.len() ==> out[j] == before[j],
            forall|j: int|
                0 <= j < i ==> out[before.len() + j] == line[j].boxed(
                    reverse,
                    sizes[j],
                    starts[j],
                    main,
                    line_cross,
                    line_offset,
                ),
        decreases line.len() - i,
    {
        out.push(line[i].boxed(reverse, sizes[i], starts[i], main, line_cross, line_offset));
        i += 1;
    }
    assert(out@ =~= before + boxes);
}

/// A line yields one main size for each item.
pub proof fn lemma_flex_sizes_len(line: Seq<Item>, main: Fixed)
    ensures
        flex_sizes_spec(line, main).len() == line.len(),
{
    crate::algorithm::flex::lemma_settle_len(
        line,
        crate::algorithm::flex::none_frozen(line),
        crate::algorithm::flex::hypotheticals(line),
        main,
        crate::algorithm::flex::grows(line, main),
    );
}

/// The cross extent each line takes by its items alone.
pub open spec fn natural_crosses(lines: Seq<Seq<Item>>) -> Seq<Fixed> {
    Seq::new(lines.len(), |k: int| peak(outer_crosses(lines[k]), lines[k].len() as int))
}

/// The cross extent of each line in a container of cross extent `cross`.
/// The one line of a container that does not wrap fills it. The lines of
/// one that wraps take what their items take, and share what is left in
/// equal parts if they are stretched.
pub open spec fn line_crosses(parent: Style, lines: Seq<Seq<Item>>, cross: Fixed) -> Seq<Fixed> {
    if parent.flex_wrap == FlexWrap::NoWrap {
        Seq::new(lines.len(), |k: int| cross)
    } else {
        let natural = natural_crosses(lines);
        let free = cross.spec_sub(total(natural, lines.len() as int));
        let extra = if parent.align_content == AlignContent::Stretch {
            free.max_spec(zero()).div_int_spec(lines.len() as int)
        } else {
            zero()
        };
        Seq::new(lines.len(), |k: int| natural[k].spec_add(extra))
    }
}

/// Where each line begins along the cross axis, from the far end where the
/// container wraps in reverse.
pub open spec fn line_offsets(parent: Style, crosses: Seq<Fixed>, cross: Fixed) -> Seq<Fixed> {
    let free = cross.spec_sub(total(crosses, crosses.len() as int));
    let spacing = content_spacing_spec(parent.align_content, free, crosses.len() as int);
    let starts = stacked(crosses, spacing.lead, spacing.gap);
    Seq::new(
        crosses.len(),
        |k: int|
            if parent.flex_wrap == FlexWrap::WrapReverse {
                cross.spec_sub(starts[k]).spec_sub(crosses[k])
            } else {
                starts[k]
            },
    )
}

/// The boxes of each line of a container.
pub open spec fn boxes_by_line(parent: Style, lines: Seq<Seq<Item>>, main: Fixed, cross: Fixed) -> Seq<Seq<ItemBox>> {
    let crosses = line_crosses(parent, lines, cross);
    let starts = line_offsets(parent, crosses, cross);
    Seq::new(lines.len(), |k: int| line_boxes_spec(parent, lines[k], main, crosses[k], starts[k]))
}

/// The boxes of the items of a container whose content box is `main` by
/// `cross`, one for each item and in their order.
pub open spec fn place_items_spec(parent: Style, items: Seq<Item>, main: Fixed, cross: Fixed) -> Seq<ItemBox> {
    let lines = lines(items, main, parent.flex_wrap != FlexWrap::NoWrap);
    joined(boxes_by_line(parent, lines, main, cross), lines.len() as int)
}

/// Joined parts are as long as the parts together.
pub proof fn lemma_joined_len<A, B>(left: Seq<Seq<A>>, right: Seq<Seq<B>>, n: int)
    requires
        0 <= n <= left.len(),
        n <= right.len(),
        forall|k: int| 0 <= k < n ==> (#[trigger] left[k]).len() == right[k].len(),
    ensures
        joined(left, n).len() == joined(right, n).len(),
    decreases n,
{
    if n > 0 {
        lemma_joined_len(left, right, n - 1);
    }
}

/// Every item gets a box.
pub proof fn lemma_place_items_len(parent: Style, items: Seq<Item>, main: Fixed, cross: Fixed)
    ensures
        place_items_spec(parent, items, main, cross).len() == items.len(),
{
    let wrap = parent.flex_wrap != FlexWrap::NoWrap;
    let ls = lines(items, main, wrap);
    let boxes = boxes_by_line(parent, ls, main, cross);
    crate::algorithm::line::lemma_split_joins(items, main, wrap, Seq::empty(), zero());
    assert(Seq::<Item>::empty() + items =~= items);
    assert forall|k: int| 0 <= k < ls.len() implies (#[trigger] boxes[k]).len() == ls[k].len() by {
        lemma_flex_sizes_len(ls[k], main);
    }
    lemma_joined_len(boxes, ls, ls.len() as int);
}

/// Whatever the lines, every item has a main size between its limits.
pub proof fn lemma_placed_within_limits(parent: Style, items: Seq<Item>, main: Fixed, cross: Fixed, r: int)
    requires
        0 <= r < items.len(),
    ensures
        place_items_spec(parent, items, main, cross).len() == items.len(),
        items[r].clamp_main(place_items_spec(parent, items, main, cross)[r].main_size) == place_items_spec(
            parent,
            items,
            main,
            cross,
        )[r].main_size,
{
    let wrap = parent.flex_wrap != FlexWrap::NoWrap;
    let ls = lines(items, main, wrap);
    let n = ls.len() as int;
    let parts = boxes_by_line(parent, ls, main, cross);
    lemma_place_items_len(parent, items, main, cross);
    crate::algorithm::line::lemma_split_joins(items, main, wrap, Seq::empty(), zero());
    assert(Seq::<Item>::empty() + items =~= items);
    assert forall|k: int| 0 <= k < n implies (#[trigger] parts[k]).len() == ls[k].len() by {
        lemma_flex_sizes_len(ls[k], main);
    }
    let place = crate::algorithm::line::lemma_joined_locate(parts, n, r);
    let k = place.0;
    let j = place.1;
    lemma_joined_len(parts, ls, k);
    crate::algorithm::line::lemma_joined_at(ls, n, k, j);
    assert(ls[k][j] == items[r]);
    crate::algorithm::flex::lemma_flex_sizes(ls[k], main);
    assert(parts[k][j].main_size == flex_sizes_spec(ls[k], main)[j]);
}

/// The cross extent each line takes by its items alone.
fn collect_natural_crosses(lines: &Vec<Vec<Item>>) -> (r: Vec<Fixed>)
    ensures
        r@ == natural_crosses(line_views(lines@)),
{
    let mut out: Vec<Fixed> = Vec::new();
    let mut k: usize = 0;
    while k < lines.len()
        invariant
            k <= lines.len(),
            out.len() == k,
            forall|j: int| 0 <= j < k ==> out[j] == natural_crosses(line_views(lines@))[j],
        decreases lines.len() - k,
    {
        let outer = collect_outer_crosses(&lines[k]);
        out.push(largest(&outer));
        k += 1;
    }
    assert(out@ =~= natural_crosses(line_views(lines@)));
    out
}

/// The cross extent of each line.
fn collect_line_crosses(parent: &Style, lines: &Vec<Vec<Item>>, cross: Fixed) -> (r: Vec<Fixed>)
    ensures
        r@ == line_crosses(*parent, line_views(lines@), cross),
{
    let ghost views = line_views(lines@);
    let natural = collect_natural_crosses(lines);
    let extra = if parent.flex_wrap == FlexWrap::NoWrap {
        Fixed::zero()
    } else if parent.align_content == AlignContent::Stretch {
        (cross - sum(&natural)).max(Fixed::zero()).div_int(lines.len() as u128)
    } else {
        Fixed::zero()
    };
    let mut out: Vec<Fixed> = Vec::new();
    let mut k: usize = 0;
    while k < lines.len()
        invariant
            k <= lines.len(),
            natural.len() == lines.len(),
            views == line_views(lines@),
            natural@ == natural_crosses(views),
            parent.flex_wrap != FlexWrap::NoWrap ==> extra == (if parent.align_content == AlignContent::Stretch {
                cross.spec_sub(total(natural@, lines.len() as int)).max_spec(zero()).div_int_spec(
                    lines.len() as int,
                )
            } else {
                zero()
            }),
            out.len() == k,
            forall|j: int| 0 <= j < k ==> out[j] == line_crosses(*parent, views, cross)[j],
        decreases lines.len() - k,
    {
        if parent.flex_wrap == FlexWrap::NoWrap {
            out.push(cross);
        } else {
            out.push(natural[k] + extra);
        }
        k += 1;
    }
    assert(out@ =~= line_crosses(*parent, views, cross));
    out
}

/// Where each line begins along the cross axis.
fn collect_line_offsets(parent: &Style, crosses: &Vec<Fixed>, cross: Fixed) -> (r: Vec<Fixed>)
    ensures
        r@ == line_offsets(*parent, crosses@, cross),
{
    let free = cross - sum(crosses);
    let spacing = content_spacing(parent.align_content, free, crosses.len());
    let starts = offsets(crosses, spacing.lead, spacing.gap);
    let mut out: Vec<Fixed> = Vec::new();
    let mut k: usize = 0;
    while k < crosses.len()
        invariant
            k <= crosses.len(),
            starts.len() == crosses.len(),
            starts@ == stacked(crosses@, spacing.lead, spacing.gap),
            spacing == content_spacing_spec(
                parent.align_content,
                cross.spec_sub(total(crosses@, crosses.len() as int)),
                crosses.len() as int,
            ),
            out.len() == k,
            forall|j: int| 0 <= j < k ==> out[j] == line_offsets(*parent, crosses@, cross)[j],
        decreases crosses.len() - k,
    {
        if parent.flex_wrap == FlexWrap::WrapReverse {
            out.push(cross - starts[k] - crosses[k]);
        } else {
            out.push(starts[k]);
        }
        k += 1;
    }
    assert(out@ =~= line_offsets(*parent, crosses@, cross));
    out
}

/// The boxes of the items of a container whose content box is `main` by
/// `cross`, one for each item and in their order.
pub fn place_items(parent: &Style, items: &Vec<Item>, main: Fixed, cross: Fixed) -> (r: Vec<ItemBox>)
    ensures
        r@ == place_items_spec(*parent, items@, main, cross),
        r.len() == items.len(),
{
    let broken = break_lines(items, main, parent.flex_wrap != FlexWrap::NoWrap);
    let ghost views = line_views(broken@);
    let crosses = collect_line_crosses(parent, &broken, cross);
    let starts = collect_line_offsets(parent, &crosses, cross);
    let ghost parts = boxes_by_line(*parent, views, main, cross);
    let mut out: Vec<ItemBox> = Vec::new();
    let mut k: usize = 0;
    assert(out@ =~= joined(parts, 0));
    while k < broken.len()
        invariant
            k <= broken.len(),
            views == line_views(broken@),
            parts == boxes_by_line(*parent, views, main, cross),
            crosses@ == line_crosses(*parent, views, cross),
            starts@ == line_offsets(*parent, crosses@, cross),
            out@ == joined(parts, k as int),
        decreases broken.len() - k,
    {
        assert(views[k as int] == broken[k as int]@);
        line_boxes(parent, &broken[k], main, crosses[k], starts[k], &mut out);
        k += 1;
    }
    proof {
        lemma_place_items_len(*parent, items@, main, cross);
    }
    out
}

} // verus!
