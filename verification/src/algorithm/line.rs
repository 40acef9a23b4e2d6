//! Flex lines: how the items of a container are broken into rows.

use crate::algorithm::item::Item;
use crate::algorithm::resolve::{bounded, zero};
use crate::fixed::Fixed;
use vstd::prelude::*;

verus! {

impl Item {
    /// The main size of the item before free space is distributed: its
    /// basis held between its limits.
    pub open spec fn hypothetical_spec(&self) -> Fixed {
        bounded(self.basis, self.min_main, self.max_main)
    }

    /// The main size of the item before free space is distributed.
    #[verifier::when_used_as_spec(hypothetical_spec)]
    pub fn hypothetical(&self) -> (r: Fixed)
        ensures
            r == self.hypothetical_spec(),
    {
        bounded(self.basis, self.min_main, self.max_main)
    }

    /// The main extent the item takes at main size `size`, margins
    /// included.
    pub open spec fn outer_main_spec(&self, size: Fixed) -> Fixed {
        self.margin_main_start.spec_add(size).spec_add(self.margin_main_end)
    }

    /// The main extent the item takes at main size `size`, margins
    /// included.
    #[verifier::when_used_as_spec(outer_main_spec)]
    pub fn outer_main(&self, size: Fixed) -> (r: Fixed)
        ensures
            r == self.outer_main_spec(size),
    {
        self.margin_main_start + size + self.margin_main_end
    }

    /// The main extent the item takes before free space is distributed.
    pub open spec fn outer_hypothetical_spec(&self) -> Fixed {
        self.outer_main(self.hypothetical())
    }

    /// The main extent the item takes before free space is distributed.
    #[verifier::when_used_as_spec(outer_hypothetical_spec)]
    pub fn outer_hypothetical(&self) -> (r: Fixed)
        ensures
            r == self.outer_hypothetical_spec(),
    {
        self.outer_main(self.hypothetical())
    }

    /// The cross extent the item takes unless it is stretched, margins
    /// included.
    pub open spec fn outer_cross_spec(&self) -> Fixed {
        self.margin_cross_start.spec_add(self.cross).spec_add(self.margin_cross_end)
    }

    /// The cross extent the item takes unless it is stretched.
    #[verifier::when_used_as_spec(outer_cross_spec)]
    pub fn outer_cross(&self) -> (r: Fixed)
        ensures
            r == self.outer_cross_spec(),
    {
        self.margin_cross_start + self.cross + self.margin_cross_end
    }
}

/// The main extents that the items take before free space is distributed.
pub open spec fn outer_hypotheticals(items: Seq<Item>) -> Seq<Fixed> {
    Seq::new(items.len(), |i: int| items[i].outer_hypothetical())
}

/// The cross extents that the items take unless they are stretched.
pub open spec fn outer_crosses(items: Seq<Item>) -> Seq<Fixed> {
    Seq::new(items.len(), |i: int| items[i].outer_cross())
}

/// The main extents that the items take before free space is distributed.
pub fn collect_outer_hypotheticals(items: &Vec<Item>) -> (r: Vec<Fixed>)
    ensures
        r@ == outer_hypotheticals(items@),
{
    let mut out: Vec<Fixed> = Vec::new();
    let mut i: usize = 0;
    while i < items.len()
        invariant
            i <= items.len(),
            out.len() == i,
            forall|j: int| 0 <= j < i ==> out[j] == items[j].outer_hypothetical(),
        decreases items.len() - i,
    {
        out.push(items[i].outer_hypothetical());
        i += 1;
    }
    assert(out@ =~= outer_hypotheticals(items@));
    out
}

/// The cross extents that the items take unless they are stretched.
pub fn collect_outer_crosses(items: &Vec<Item>) -> (r: Vec<Fixed>)
    ensures
        r@ == outer_crosses(items@),
{
    let mut out: Vec<Fixed> = Vec::new();
    let mut i: usize = 0;
    while i < items.len()
        invariant
            i <= items.len(),
            out.len() == i,
            forall|j: int| 0 <= j < i ==> out[j] == items[j].outer_cross(),
        decreases items.len() - i,
    {
        out.push(items[i].outer_cross());
        i += 1;
    }
    assert(out@ =~= outer_crosses(items@));
    out
}

/// The lines that `rest` is broken into when the line under way holds
/// `current` and is filled up to `run`.
///
/// An item joins the line under way unless the container wraps, the line
/// holds something already, and the item would carry it beyond `limit`.
pub open spec fn split(rest: Seq<Item>, limit: Fixed, wrap: bool, current: Seq<Item>, run: Fixed) -> Seq<Seq<Item>>
    decreases rest.len(),
{
    if rest.len() == 0 {
        if current.len() == 0 {
            Seq::empty()
        } else {
            seq![current]
        }
    } else {
        let item = rest[0];
        let next = run.spec_add(item.outer_hypothetical());
        if current.len() > 0 && wrap && next.raw > limit.raw {
            seq![current] + split(rest.skip(1), limit, wrap, seq![item], item.outer_hypothetical())
        } else {
            split(rest.skip(1), limit, wrap, current.push(item), next)
        }
    }
}

/// The lines of a container with main extent `limit`: every line holds as
/// many items as fit, and one at least. Without wrapping there is one
/// line, or none for no items.
pub open spec fn lines(items: Seq<Item>, limit: Fixed, wrap: bool) -> Seq<Seq<Item>> {
    split(items, limit, wrap, Seq::empty(), zero())
}

/// The contents of each line.
pub open spec fn line_views(lines: Seq<Vec<Item>>) -> Seq<Seq<Item>> {
    Seq::new(lines.len(), |k: int| lines[k]@)
}

/// The items of the first `n` lines, in order.
pub open spec fn joined<T>(parts: Seq<Seq<T>>, n: int) -> Seq<T>
    decreases n,
{
    if n <= 0 {
        Seq::empty()
    } else {
        joined(parts, n - 1) + parts[n - 1]
    }
}

/// Breaking into lines loses no item, reorders none and leaves no line
/// empty.
pub proof fn lemma_split_joins(rest: Seq<Item>, limit: Fixed, wrap: bool, current: Seq<Item>, run: Fixed)
    ensures
        joined(split(rest, limit, wrap, current, run), split(rest, limit, wrap, current, run).len() as int)
            == current + rest,
        forall|k: int|
            0 <= k < split(rest, limit, wrap, current, run).len() ==> (#[trigger] split(
                rest,
                limit,
                wrap,
                current,
                run,
            )[k]).len() > 0,
    decreases rest.len(),
{
    let result = split(rest, limit, wrap, current, run);
    if rest.len() == 0 {
        if current.len() == 0 {
            assert(current + rest =~= Seq::<Item>::empty());
        } else {
            assert(joined(result, 0) =~= Seq::<Item>::empty());
            assert(joined(result, 1) =~= current + rest);
        }
    } else {
        let item = rest[0];
        let next = run.spec_add(item.outer_hypothetical());
        if current.len() > 0 && wrap && next.raw > limit.raw {
            let tail = split(rest.skip(1), limit, wrap, seq![item], item.outer_hypothetical());
            lemma_split_joins(rest.skip(1), limit, wrap, seq![item], item.outer_hypothetical());
            lemma_joined_prepend(current, tail, tail.len() as int);
            assert(seq![item] + rest.skip(1) =~= rest);
            assert(result =~= seq![current] + tail);
            assert forall|k: int| 0 <= k < result.len() implies (#[trigger] result[k]).len() > 0 by {
                if k > 0 {
                    assert(result[k] == tail[k - 1]);
                }
            }
        } else {
            lemma_split_joins(rest.skip(1), limit, wrap, current.push(item), next);
            assert(current.push(item) + rest.skip(1) =~= current + rest);
        }
    }
}

/// Joining after one more part in front puts that part in front.
pub proof fn lemma_joined_prepend<T>(first: Seq<T>, parts: Seq<Seq<T>>, n: int)
    requires
        0 <= n <= parts.len(),
    ensures
        joined(seq![first] + parts, n + 1) == first + joined(parts, n),
    decreases n,
{
    let all = seq![first] + parts;
    if n == 0 {
        assert(joined(all, 0) =~= Seq::<T>::empty());
        assert(joined(all, 1) =~= first + joined(parts, 0));
    } else {
        lemma_joined_prepend(first, parts, n - 1);
        assert(all[n] == parts[n - 1]);
        assert(joined(all, n + 1) =~= first + joined(parts, n));
    }
}

/// An element of the joined parts lies in one of the parts.
pub proof fn lemma_joined_locate<T>(parts: Seq<Seq<T>>, n: int, r: int) -> (place: (int, int))
    requires
        0 <= n <= parts.len(),
        0 <= r < joined(parts, n).len(),
    ensures
        0 <= place.0 < n,
        0 <= place.1 < parts[place.0].len(),
        r == joined(parts, place.0).len() + place.1,
        joined(parts, n)[r] == parts[place.0][place.1],
    decreases n,
{
    if r < joined(parts, n - 1).len() {
        lemma_joined_locate(parts, n - 1, r)
    } else {
        (n - 1, r - joined(parts, n - 1).len())
    }
}

/// An element of a part lies in the joined parts, behind the parts before
/// its own.
pub proof fn lemma_joined_at<T>(parts: Seq<Seq<T>>, n: int, k: int, j: int)
    requires
        0 <= k < n <= parts.len(),
        0 <= j < parts[k].len(),
    ensures
        joined(parts, k).len() + j < joined(parts, n).len(),
        joined(parts, n)[joined(parts, k).len() + j] == parts[k][j],
    decreases n,
{
    if k < n - 1 {
        lemma_joined_at(parts, n - 1, k, j);
    }
}

/// Without wrapping all items share one line.
pub proof fn lemma_split_without_wrap(rest: Seq<Item>, limit: Fixed, current: Seq<Item>, run: Fixed)
    requires
        current.len() + rest.len() > 0,
    ensures
        split(rest, limit, false, current, run) == seq![current + rest],
    decreases rest.len(),
{
    if rest.len() == 0 {
        assert(current + rest =~= current);
    } else {
        let item = rest[0];
        lemma_split_without_wrap(rest.skip(1), limit, current.push(item), run.spec_add(item.outer_hypothetical()));
        assert(current.push(item) + rest.skip(1) =~= current + rest);
    }
}

/// Breaks the items of a container into lines.
pub fn break_lines(items: &Vec<Item>, limit: Fixed, wrap: bool) -> (r: Vec<Vec<Item>>)
    ensures
        line_views(r@) == lines(items@, limit, wrap),
{
    let mut done: Vec<Vec<Item>> = Vec::new();
    let mut current: Vec<Item> = Vec::new();
    let mut run = Fixed::zero();
    let mut i: usize = 0;
    proof {
        assert(items@.skip(0) =~= items@);
        assert(line_views(done@) + split(items@, limit, wrap, current@, run) =~= lines(items@, limit, wrap));
    }
    while i < items.len()
        invariant
            i <= items.len(),
            lines(items@, limit, wrap) == line_views(done@) + split(
                items@.skip(i as int),
                limit,
                wrap,
                current@,
                run,
            ),
        decreases items.len() - i,
    {
        let item = items[i];
        let next = run + item.outer_hypothetical();
        let ghost rest = items@.skip(i as int);
        let ghost before = line_views(done@);
        let ghost held = current@;
        proof {
            assert(rest[0] == item);
            assert(rest.skip(1) =~= items@.skip(i as int + 1));
        }
        if current.len() > 0 && wrap && next.raw > limit.raw {
            done.push(current);
            current = Vec::new();
            current.push(item);
            run = item.outer_hypothetical();
            proof {
                assert(current@ =~= seq![item]);
                assert(line_views(done@) =~= before + seq![held]);
                assert(before + (seq![held] + split(rest.skip(1), limit, wrap, seq![item], run)) =~= (before
                    + seq![held]) + split(rest.skip(1), limit, wrap, seq![item], run));
            }
        } else {
            current.push(item);
            run = next;
        }
        i += 1;
    }
    let ghost before = line_views(done@);
    let ghost held = current@;
    proof {
        assert(items@.skip(i as int).len() == 0);
    }
    if current.len() > 0 {
        done.push(current);
        proof {
            assert(line_views(done@) =~= before + seq![held]);
        }
    } else {
        proof {
            assert(before + Seq::<Seq<Item>>::empty() =~= before);
        }
    }
    done
}

} // verus!
