//! Distribution of the free space of a line among its items.
//!
//! Free space is handed out in passes. Each pass shares what the items
//! that are not yet settled leave free among them by weight, and holds
//! every share between the limits of its item. Items whose limits cut
//! their share are settled at the limit, and the next pass shares what then
//! is left among the others. A pass in which no limit cuts settles all.

use crate::algorithm::item::Item;
use crate::algorithm::line::{collect_outer_hypotheticals, outer_hypotheticals};
use crate::algorithm::resolve::{bounded, zero};
use crate::algorithm::series::{
    lemma_raw_total_bounds_each, lemma_total_is_plain, lemma_total_of_zeros, raw_total, sum, total,
};
use crate::fixed::Fixed;
use vstd::prelude::*;

verus! {

impl Item {
    /// The weight by which the item shares in free space: its growth
    /// factor where the line grows, its shrink factor times its basis where
    /// the line shrinks. Never negative.
    pub open spec fn weight_spec(&self, growing: bool) -> Fixed {
        if growing {
            self.grow.max_spec(zero())
        } else {
            self.shrink.spec_mul(self.basis).max_spec(zero())
        }
    }

    /// The weight by which the item shares in free space.
    #[verifier::when_used_as_spec(weight_spec)]
    pub fn weight(&self, growing: bool) -> (r: Fixed)
        ensures
            r == self.weight_spec(growing),
    {
        if growing {
            self.grow.max(Fixed::zero())
        } else {
            (self.shrink * self.basis).max(Fixed::zero())
        }
    }

    /// A main size held between the limits of the item.
    pub open spec fn clamp_main_spec(&self, size: Fixed) -> Fixed {
        bounded(size, self.min_main, self.max_main)
    }

    /// A main size held between the limits of the item.
    #[verifier::when_used_as_spec(clamp_main_spec)]
    pub fn clamp_main(&self, size: Fixed) -> (r: Fixed)
        ensures
            r == self.clamp_main_spec(size),
    {
        bounded(size, self.min_main, self.max_main)
    }

    /// The main size the item would have with its share of `space`, before
    /// its limits are applied. With no weight in the line nobody shares.
    pub open spec fn target_spec(&self, space: Fixed, weights: Fixed, growing: bool) -> Fixed {
        if weights.raw > 0 {
            self.basis.spec_add(space.mul_div_spec(self.weight(growing), weights))
        } else {
            self.basis
        }
    }

    /// The main size the item would have with its share of `space`.
    #[verifier::when_used_as_spec(target_spec)]
    pub fn target(&self, space: Fixed, weights: Fixed, growing: bool) -> (r: Fixed)
        ensures
            r == self.target_spec(space, weights, growing),
    {
        if weights.raw > 0 {
            self.basis + space.mul_div(self.weight(growing), weights)
        } else {
            self.basis
        }
    }
}

/// Whether the line grows: its items leave room in `main` before free
/// space is distributed.
pub open spec fn grows(line: Seq<Item>, main: Fixed) -> bool {
    total(outer_hypotheticals(line), line.len() as int).raw < main.raw
}

/// The main extent each item takes for now: settled items at their size,
/// the others at their basis, margins included.
pub open spec fn occupied(line: Seq<Item>, frozen: Seq<bool>, sizes: Seq<Fixed>) -> Seq<Fixed> {
    Seq::new(
        line.len(),
        |i: int|
            line[i].outer_main(
                if frozen[i] {
                    sizes[i]
                } else {
                    line[i].basis
                },
            ),
    )
}

/// The weight of each item that is not settled, zero for the others.
pub open spec fn live_weights(line: Seq<Item>, frozen: Seq<bool>, growing: bool) -> Seq<Fixed> {
    Seq::new(
        line.len(),
        |i: int|
            if frozen[i] {
                zero()
            } else {
                line[i].weight(growing)
            },
    )
}

/// The space to share in a pass: what the items leave free of `main`, as
/// far as it has the sign the line asks for.
pub open spec fn shared_space(line: Seq<Item>, frozen: Seq<bool>, sizes: Seq<Fixed>, main: Fixed, growing: bool) -> Fixed {
    let free = main.spec_sub(total(occupied(line, frozen, sizes), line.len() as int));
    if growing {
        free.max_spec(zero())
    } else {
        free.min_spec(zero())
    }
}

/// The size each item would have after a pass, before its limits are
/// applied.
pub open spec fn targets(line: Seq<Item>, frozen: Seq<bool>, sizes: Seq<Fixed>, main: Fixed, growing: bool) -> Seq<
    Fixed,
> {
    let space = shared_space(line, frozen, sizes, main, growing);
    let weights = total(live_weights(line, frozen, growing), line.len() as int);
    Seq::new(line.len(), |i: int| line[i].target(space, weights, growing))
}

/// Whether the limits of the item at `i` cut its share in this pass.
pub open spec fn violates(line: Seq<Item>, frozen: Seq<bool>, wanted: Seq<Fixed>, i: int) -> bool {
    !frozen[i] && line[i].clamp_main(wanted[i]) != wanted[i]
}

/// Whether the limits of any item cut its share in this pass.
pub open spec fn any_violation(line: Seq<Item>, frozen: Seq<bool>, wanted: Seq<Fixed>) -> bool {
    exists|i: int| 0 <= i < line.len() && violates(line, frozen, wanted, i)
}

/// The items that are settled after a pass: those that were, those whose
/// share was cut, and all of them if no share was cut.
pub open spec fn next_frozen(line: Seq<Item>, frozen: Seq<bool>, wanted: Seq<Fixed>) -> Seq<bool> {
    Seq::new(
        line.len(),
        |i: int| frozen[i] || !any_violation(line, frozen, wanted) || violates(line, frozen, wanted, i),
    )
}

/// The sizes after a pass: settled items keep theirs, the others get their
/// share held between their limits.
pub open spec fn next_sizes(line: Seq<Item>, frozen: Seq<bool>, sizes: Seq<Fixed>, wanted: Seq<Fixed>) -> Seq<
    Fixed,
> {
    Seq::new(
        line.len(),
        |i: int|
            if frozen[i] {
                sizes[i]
            } else {
                line[i].clamp_main(wanted[i])
            },
    )
}

/// How many of the first `n` items are not settled.
pub open spec fn unfrozen(frozen: Seq<bool>, n: int) -> nat
    decreases n,
{
    if n <= 0 {
        0
    } else if frozen[n - 1] {
        unfrozen(frozen, n - 1)
    } else {
        unfrozen(frozen, n - 1) + 1
    }
}

/// Settling an item, and unsettling none, leaves fewer items unsettled.
pub proof fn lemma_unfrozen_decreases(before: Seq<bool>, after: Seq<bool>, n: int, i: int)
    requires
        0 <= i < n,
        forall|j: int| 0 <= j < n && before[j] ==> after[j],
        !before[i],
        after[i],
    ensures
        unfrozen(after, n) < unfrozen(before, n),
    decreases n,
{
    if i < n - 1 {
        lemma_unfrozen_decreases(before, after, n - 1, i);
    } else {
        lemma_unfrozen_monotone(before, after, n - 1);
    }
}

/// Unsettling no item leaves no more items unsettled.
pub proof fn lemma_unfrozen_monotone(before: Seq<bool>, after: Seq<bool>, n: int)
    requires
        forall|j: int| 0 <= j < n && before[j] ==> after[j],
    ensures
        unfrozen(after, n) <= unfrozen(before, n),
    decreases n,
{
    if n > 0 {
        lemma_unfrozen_monotone(before, after, n - 1);
    }
}

/// No item is unsettled exactly when all are settled.
pub proof fn lemma_unfrozen_none(frozen: Seq<bool>, n: int)
    ensures
        unfrozen(frozen, n) == 0 <==> (forall|j: int| 0 <= j < n ==> frozen[j]),
    decreases n,
{
    if n > 0 {
        lemma_unfrozen_none(frozen, n - 1);
        if unfrozen(frozen, n) == 0 {
            assert forall|j: int| 0 <= j < n implies frozen[j] by {
                if j < n - 1 {
                }
            }
        }
    }
}

/// A pass settles an item at least.
pub proof fn lemma_pass_settles(line: Seq<Item>, frozen: Seq<bool>, wanted: Seq<Fixed>)
    requires
        unfrozen(frozen, line.len() as int) > 0,
    ensures
        unfrozen(next_frozen(line, frozen, wanted), line.len() as int) < unfrozen(frozen, line.len() as int),
{
    let n = line.len() as int;
    let after = next_frozen(line, frozen, wanted);
    if any_violation(line, frozen, wanted) {
        let i = choose|i: int| 0 <= i < line.len() && violates(line, frozen, wanted, i);
        lemma_unfrozen_decreases(frozen, after, n, i);
    } else {
        lemma_unfrozen_none(after, n);
    }
}

/// The sizes at which the items settle when passes are run from the given
/// state until every item is settled.
pub open spec fn settle(line: Seq<Item>, frozen: Seq<bool>, sizes: Seq<Fixed>, main: Fixed, growing: bool) -> Seq<
    Fixed,
>
    decreases unfrozen(frozen, line.len() as int),
{
    if unfrozen(frozen, line.len() as int) == 0 {
        sizes
    } else {
        let wanted = targets(line, frozen, sizes, main, growing);
        proof {
            lemma_pass_settles(line, frozen, wanted);
        }
        settle(line, next_frozen(line, frozen, wanted), next_sizes(line, frozen, sizes, wanted), main, growing)
    }
}

/// No item settled.
pub open spec fn none_frozen(line: Seq<Item>) -> Seq<bool> {
    Seq::new(line.len(), |i: int| false)
}

/// The main size of each item before free space is distributed.
pub open spec fn hypotheticals(line: Seq<Item>) -> Seq<Fixed> {
    Seq::new(line.len(), |i: int| line[i].hypothetical())
}

/// The main sizes of the items of a line in a container of main extent
/// `main`.
pub open spec fn flex_sizes_spec(line: Seq<Item>, main: Fixed) -> Seq<Fixed> {
    settle(line, none_frozen(line), hypotheticals(line), main, grows(line, main))
}

/// Settling changes no length.
pub proof fn lemma_settle_len(line: Seq<Item>, frozen: Seq<bool>, sizes: Seq<Fixed>, main: Fixed, growing: bool)
    requires
        sizes.len() == line.len(),
    ensures
        settle(line, frozen, sizes, main, growing).len() == line.len(),
    decreases unfrozen(frozen, line.len() as int),
{
    if unfrozen(frozen, line.len() as int) != 0 {
        let wanted = targets(line, frozen, sizes, main, growing);
        lemma_pass_settles(line, frozen, wanted);
        lemma_settle_len(
            line,
            next_frozen(line, frozen, wanted),
            next_sizes(line, frozen, sizes, wanted),
            main,
            growing,
        );
    }
}

/// Holding a size between limits twice changes nothing.
pub proof fn lemma_clamp_main_twice(item: Item, size: Fixed)
    ensures
        item.clamp_main(item.clamp_main(size)) == item.clamp_main(size),
{
}

/// Every item settles at a size between its limits, if those that are
/// settled already are.
pub proof fn lemma_settle_within_limits(
    line: Seq<Item>,
    frozen: Seq<bool>,
    sizes: Seq<Fixed>,
    main: Fixed,
    growing: bool,
)
    requires
        sizes.len() == line.len(),
        forall|i: int| 0 <= i < line.len() && frozen[i] ==> line[i].clamp_main(sizes[i]) == sizes[i],
    ensures
        forall|i: int|
            0 <= i < line.len() ==> line[i].clamp_main(#[trigger] settle(line, frozen, sizes, main, growing)[i])
                == settle(line, frozen, sizes, main, growing)[i],
    decreases unfrozen(frozen, line.len() as int),
{
    if unfrozen(frozen, line.len() as int) == 0 {
        lemma_unfrozen_none(frozen, line.len() as int);
        assert(settle(line, frozen, sizes, main, growing) == sizes);
    } else {
        let wanted = targets(line, frozen, sizes, main, growing);
        let frozen_after = next_frozen(line, frozen, wanted);
        let sizes_after = next_sizes(line, frozen, sizes, wanted);
        lemma_pass_settles(line, frozen, wanted);
        assert forall|i: int| 0 <= i < line.len() && frozen_after[i] implies line[i].clamp_main(sizes_after[i])
            == sizes_after[i] by {
            lemma_clamp_main_twice(line[i], wanted[i]);
        }
        lemma_settle_within_limits(line, frozen_after, sizes_after, main, growing);
        assert(settle(line, frozen, sizes, main, growing) == settle(line, frozen_after, sizes_after, main, growing));
    }
}

/// Whether the items outside `clamped` share among them, by weight, what
/// those in `clamped` leave of `main`: each has its basis and its share of
/// the space that is left when the items in `clamped` take their sizes and
/// the others their bases.
pub open spec fn balanced(line: Seq<Item>, main: Fixed, growing: bool, clamped: Seq<bool>, sizes: Seq<Fixed>) -> bool {
    forall|i: int|
        0 <= i < line.len() && !clamped[i] ==> #[trigger] sizes[i] == targets(
            line,
            clamped,
            sizes,
            main,
            growing,
        )[i]
}

/// What a pass hands out depends on the sizes of the settled items only.
pub proof fn lemma_targets_read_settled_sizes(
    line: Seq<Item>,
    frozen: Seq<bool>,
    sizes: Seq<Fixed>,
    other: Seq<Fixed>,
    main: Fixed,
    growing: bool,
)
    requires
        forall|i: int| 0 <= i < line.len() && frozen[i] ==> sizes[i] == other[i],
    ensures
        targets(line, frozen, sizes, main, growing) == targets(line, frozen, other, main, growing),
{
    assert(occupied(line, frozen, sizes) =~= occupied(line, frozen, other));
}

/// When all items are settled, those whose limits did not cut their share
/// have shared among them what the others left.
pub proof fn lemma_settle_balanced(line: Seq<Item>, frozen: Seq<bool>, sizes: Seq<Fixed>, main: Fixed, growing: bool)
    requires
        sizes.len() == line.len(),
    ensures
        exists|clamped: Seq<bool>| #[trigger]
            balanced(line, main, growing, clamped, settle(line, frozen, sizes, main, growing)),
    decreases unfrozen(frozen, line.len() as int),
{
    let n = line.len() as int;
    if unfrozen(frozen, n) == 0 {
        lemma_unfrozen_none(frozen, n);
        assert(settle(line, frozen, sizes, main, growing) == sizes);
        assert(balanced(line, main, growing, frozen, sizes));
    } else {
        let wanted = targets(line, frozen, sizes, main, growing);
        let frozen_after = next_frozen(line, frozen, wanted);
        let sizes_after = next_sizes(line, frozen, sizes, wanted);
        lemma_pass_settles(line, frozen, wanted);
        assert(settle(line, frozen, sizes, main, growing) == settle(line, frozen_after, sizes_after, main, growing));
        if any_violation(line, frozen, wanted) {
            lemma_settle_balanced(line, frozen_after, sizes_after, main, growing);
        } else {
            lemma_unfrozen_none(frozen_after, n);
            assert(settle(line, frozen_after, sizes_after, main, growing) == sizes_after);
            lemma_targets_read_settled_sizes(line, frozen, sizes, sizes_after, main, growing);
            assert forall|i: int| 0 <= i < line.len() && !frozen[i] implies #[trigger] sizes_after[i] == targets(
                line,
                frozen,
                sizes_after,
                main,
                growing,
            )[i] by {
                assert(!violates(line, frozen, wanted, i));
            }
            assert(balanced(line, main, growing, frozen, sizes_after));
        }
    }
}

/// The sizes that the distribution of free space gives the items of a
/// line: every one lies between the limits of its item, and the items
/// whose limits cut nothing share among them what the others leave.
pub proof fn lemma_flex_sizes(line: Seq<Item>, main: Fixed)
    ensures
        flex_sizes_spec(line, main).len() == line.len(),
        forall|i: int|
            0 <= i < line.len() ==> line[i].clamp_main(#[trigger] flex_sizes_spec(line, main)[i])
                == flex_sizes_spec(line, main)[i],
        exists|clamped: Seq<bool>| #[trigger]
            balanced(line, main, grows(line, main), clamped, flex_sizes_spec(line, main)),
{
    lemma_settle_len(line, none_frozen(line), hypotheticals(line), main, grows(line, main));
    lemma_settle_within_limits(line, none_frozen(line), hypotheticals(line), main, grows(line, main));
    lemma_settle_balanced(line, none_frozen(line), hypotheticals(line), main, grows(line, main));
}

/// Whether an item asks for nothing but a share of free space: it has no
/// basis, no limits and no margins along the main axis.
pub open spec fn grow_only(item: Item) -> bool {
    &&& item.basis == zero()
    &&& item.min_main is Undefined
    &&& item.max_main is Undefined
    &&& item.margin_main_start == zero()
    &&& item.margin_main_end == zero()
    &&& item.grow.raw >= 0
}

/// The growth factor of each item.
pub open spec fn growth_factors(line: Seq<Item>) -> Seq<Fixed> {
    Seq::new(line.len(), |i: int| line[i].grow)
}

/// Items that ask for nothing but a share of free space get the main
/// extent of their container shared out by growth factor, each share
/// rounded down.
pub proof fn lemma_growth_shares(line: Seq<Item>, main: Fixed)
    requires
        main.raw >= 0,
        forall|i: int| 0 <= i < line.len() ==> grow_only(#[trigger] line[i]),
        0 < raw_total(growth_factors(line), line.len() as int) <= i64::MAX,
    ensures
        flex_sizes_spec(line, main).len() == line.len(),
        forall|i: int|
            0 <= i < line.len() ==> (#[trigger] flex_sizes_spec(line, main)[i]).raw == (main.raw * line[i].grow.raw)
                / raw_total(growth_factors(line), line.len() as int),
{
    let n = line.len() as int;
    let factors = growth_factors(line);
    let sum = raw_total(factors, n);
    let growing = grows(line, main);
    let frozen = none_frozen(line);
    let sizes = hypotheticals(line);
    let wanted = targets(line, frozen, sizes, main, growing);
    let weights = total(live_weights(line, frozen, growing), n);
    lemma_settle_len(line, frozen, sizes, main, growing);
    assert(n > 0) by {
        if n <= 0 {
            assert(raw_total(factors, n) == 0);
        }
    }
    assert forall|i: int| 0 <= i < n implies outer_hypotheticals(line)[i] == zero() by {
        assert(grow_only(line[i]));
    }
    lemma_total_of_zeros(outer_hypotheticals(line), n);
    assert(growing == (main.raw > 0));
    assert forall|i: int| 0 <= i < n implies occupied(line, frozen, sizes)[i] == zero() by {
        assert(grow_only(line[i]));
    }
    lemma_total_of_zeros(occupied(line, frozen, sizes), n);
    assert(shared_space(line, frozen, sizes, main, growing) == main);
    if growing {
        assert forall|i: int| 0 <= i < n implies factors[i].raw >= 0 by {
            assert(grow_only(line[i]));
        }
        assert(live_weights(line, frozen, growing) =~= factors) by {
            assert forall|i: int| 0 <= i < n implies live_weights(line, frozen, growing)[i] == factors[i] by {
                assert(grow_only(line[i]));
            }
        }
        lemma_total_is_plain(factors, n);
        assert(weights.raw == sum);
    } else {
        assert forall|i: int| 0 <= i < n implies live_weights(line, frozen, growing)[i] == zero() by {
            assert(grow_only(line[i]));
            assert(line[i].shrink.raw * 0 == 0);
        }
        lemma_total_of_zeros(live_weights(line, frozen, growing), n);
        assert(weights.raw == 0);
    }
    assert forall|i: int| 0 <= i < n implies (#[trigger] wanted[i]).raw == (main.raw * line[i].grow.raw) / sum
        && line[i].clamp_main(wanted[i]) == wanted[i] by {
        assert(grow_only(line[i]));
        let grow = line[i].grow.raw as int;
        let whole = main.raw as int;
        if growing {
            assert(factors[i] == line[i].grow);
            lemma_raw_total_bounds_each(factors, n, i);
            assert(0 <= (whole * grow) / sum <= whole) by (nonlinear_arith)
                requires
                    0 <= grow <= sum,
                    sum > 0,
                    whole >= 0,
            ;
            assert(whole * grow >= 0) by (nonlinear_arith)
                requires
                    0 <= grow,
                    whole >= 0,
            ;
        } else {
            assert(whole == 0);
            assert((whole * grow) / sum == 0) by (nonlinear_arith)
                requires
                    whole == 0,
                    sum > 0,
            ;
        }
    }
    assert(!any_violation(line, frozen, wanted));
    let frozen_after = next_frozen(line, frozen, wanted);
    let sizes_after = next_sizes(line, frozen, sizes, wanted);
    assert(unfrozen(frozen, n) > 0) by {
        lemma_unfrozen_none(frozen, n);
        assert(!frozen[0]);
    }
    lemma_unfrozen_none(frozen_after, n);
    assert(unfrozen(frozen_after, n) == 0);
    assert(settle(line, frozen_after, sizes_after, main, growing) == sizes_after);
    assert(settle(line, frozen, sizes, main, growing) == settle(line, frozen_after, sizes_after, main, growing));
    assert forall|i: int| 0 <= i < n implies (#[trigger] flex_sizes_spec(line, main)[i]).raw == (main.raw
        * line[i].grow.raw) / sum by {
        assert(sizes_after[i] == line[i].clamp_main(wanted[i]));
    }
}

/// The main extent each item takes for now.
fn collect_occupied(line: &Vec<Item>, frozen: &Vec<bool>, sizes: &Vec<Fixed>) -> (r: Vec<Fixed>)
    requires
        frozen.len() == line.len(),
        sizes.len() == line.len(),
    ensures
        r@ == occupied(line@, frozen@, sizes@),
{
    let mut out: Vec<Fixed> = Vec::new();
    let mut i: usize = 0;
    while i < line.len()
        invariant
            i <= line.len(),
            frozen.len() == line.len(),
            sizes.len() == line.len(),
            out.len() == i,
            forall|j: int| 0 <= j < i ==> out[j] == occupied(line@, frozen@, sizes@)[j],
        decreases line.len() - i,
    {
        let size = if frozen[i] {
            sizes[i]
        } else {
            line[i].basis
        };
        out.push(line[i].outer_main(size));
        i += 1;
    }
    assert(out@ =~= occupied(line@, frozen@, sizes@));
    out
}

/// The weight of each item that is not settled.
fn collect_live_weights(line: &Vec<Item>, frozen: &Vec<bool>, growing: bool) -> (r: Vec<Fixed>)
    requires
        frozen.len() == line.len(),
    ensures
        r@ == live_weights(line@, frozen@, growing),
{
    let mut out: Vec<Fixed> = Vec::new();
    let mut i: usize = 0;
    while i < line.len()
        invariant
            i <= line.len(),
            frozen.len() == line.len(),
            out.len() == i,
            forall|j: int| 0 <= j < i ==> out[j] == live_weights(line@, frozen@, growing)[j],
        decreases line.len() - i,
    {
        let weight = if frozen[i] {
            Fixed::zero()
        } else {
            line[i].weight(growing)
        };
        out.push(weight);
        i += 1;
    }
    assert(out@ =~= live_weights(line@, frozen@, growing));
    out
}

/// The size each item would have after a pass.
fn collect_targets(line: &Vec<Item>, frozen: &Vec<bool>, sizes: &Vec<Fixed>, main: Fixed, growing: bool) -> (r: Vec<
    Fixed,
>)
    requires
        frozen.len() == line.len(),
        sizes.len() == line.len(),
    ensures
        r@ == targets(line@, frozen@, sizes@, main, growing),
{
    let taken = collect_occupied(line, frozen, sizes);
    let free = main - sum(&taken);
    let space = if growing {
        free.max(Fixed::zero())
    } else {
        free.min(Fixed::zero())
    };
    let live = collect_live_weights(line, frozen, growing);
    let weights = sum(&live);
    let mut out: Vec<Fixed> = Vec::new();
    let mut i: usize = 0;
    while i < line.len()
        invariant
            i <= line.len(),
            out.len() == i,
            forall|j: int| 0 <= j < i ==> out[j] == line[j].target(space, weights, growing),
        decreases line.len() - i,
    {
        out.push(line[i].target(space, weights, growing));
        i += 1;
    }
    assert(out@ =~= targets(line@, frozen@, sizes@, main, growing));
    out
}

/// Whether the limits of any item cut its share in this pass.
fn find_violation(line: &Vec<Item>, frozen: &Vec<bool>, wanted: &Vec<Fixed>) -> (r: bool)
    requires
        frozen.len() == line.len(),
        wanted.len() == line.len(),
    ensures
        r == any_violation(line@, frozen@, wanted@),
{
    let mut i: usize = 0;
    while i < line.len()
        invariant
            i <= line.len(),
            frozen.len() == line.len(),
            wanted.len() == line.len(),
            forall|j: int| 0 <= j < i ==> !violates(line@, frozen@, wanted@, j),
        decreases line.len() - i,
    {
        if !frozen[i] && line[i].clamp_main(wanted[i]) != wanted[i] {
            assert(violates(line@, frozen@, wanted@, i as int));
            return true;
        }
        i += 1;
    }
    false
}

/// How many items are not settled.
fn count_unfrozen(frozen: &Vec<bool>) -> (r: usize)
    ensures
        r == unfrozen(frozen@, frozen.len() as int),
{
    let mut count: usize = 0;
    let mut i: usize = 0;
    while i < frozen.len()
        invariant
            i <= frozen.len(),
            count == unfrozen(frozen@, i as int),
            count <= i,
        decreases frozen.len() - i,
    {
        if !frozen[i] {
            count += 1;
        }
        i += 1;
    }
    count
}

/// The main sizes of the items of a line in a container of main extent
/// `main`.
pub fn flex_sizes(line: &Vec<Item>, main: Fixed) -> (r: Vec<Fixed>)
    ensures
        r@ == flex_sizes_spec(line@, main),
{
    let n = line.len();
    let outer = collect_outer_hypotheticals(line);
    let growing = sum(&outer).raw < main.raw;
    let mut frozen: Vec<bool> = Vec::new();
    let mut sizes: Vec<Fixed> = Vec::new();
    let mut i: usize = 0;
    while i < n
        invariant
            i <= n,
            n == line.len(),
            frozen.len() == i,
            sizes.len() == i,
            forall|j: int| 0 <= j < i ==> !frozen[j],
            forall|j: int| 0 <= j < i ==> sizes[j] == line[j].hypothetical(),
        decreases n - i,
    {
        frozen.push(false);
        sizes.push(line[i].hypothetical());
        i += 1;
    }
    assert(frozen@ =~= none_frozen(line@));
    assert(sizes@ =~= hypotheticals(line@));
    let mut remaining = count_unfrozen(&frozen);
    while remaining > 0
        invariant
            n == line.len(),
            frozen.len() == n,
            sizes.len() == n,
            remaining == unfrozen(frozen@, n as int),
            flex_sizes_spec(line@, main) == settle(line@, frozen@, sizes@, main, growing),
        decreases remaining,
    {
        let wanted = collect_targets(line, &frozen, &sizes, main, growing);
        let any = find_violation(line, &frozen, &wanted);
        let mut frozen_after: Vec<bool> = Vec::new();
        let mut sizes_after: Vec<Fixed> = Vec::new();
        let mut k: usize = 0;
        while k < n
            invariant
                k <= n,
                n == line.len(),
                frozen.len() == n,
                sizes.len() == n,
                wanted.len() == n,
                any == any_violation(line@, frozen@, wanted@),
                frozen_after.len() == k,
                sizes_after.len() == k,
                forall|j: int| 0 <= j < k ==> frozen_after[j] == next_frozen(line@, frozen@, wanted@)[j],
                forall|j: int| 0 <= j < k ==> sizes_after[j] == next_sizes(line@, frozen@, sizes@, wanted@)[j],
            decreases n - k,
        {
            if frozen[k] {
                frozen_after.push(true);
                sizes_after.push(sizes[k]);
            } else {
                let size = line[k].clamp_main(wanted[k]);
                frozen_after.push(!any || size != wanted[k]);
                sizes_after.push(size);
            }
            k += 1;
        }
        proof {
            assert(frozen_after@ =~= next_frozen(line@, frozen@, wanted@));
            assert(sizes_after@ =~= next_sizes(line@, frozen@, sizes@, wanted@));
            lemma_pass_settles(line@, frozen@, wanted@);
        }
        frozen = frozen_after;
        sizes = sizes_after;
        remaining = count_unfrozen(&frozen);
    }
    sizes
}

} // verus!
