//! Sums, maxima and running offsets of sequences of lengths.

use crate::algorithm::resolve::zero;
use crate::fixed::Fixed;
use vstd::prelude::*;

verus! {

/// The saturating sum of the first `n` lengths, added from the left.
pub open spec fn total(lengths: Seq<Fixed>, n: int) -> Fixed
    decreases n,
{
    if n <= 0 {
        zero()
    } else {
        total(lengths, n - 1).spec_add(lengths[n - 1])
    }
}

/// The saturating sum of all lengths.
pub fn sum(lengths: &Vec<Fixed>) -> (r: Fixed)
    ensures
        r == total(lengths@, lengths.len() as int),
{
    let mut acc = Fixed::zero();
    let mut i: usize = 0;
    while i < lengths.len()
        invariant
            i <= lengths.len(),
            acc == total(lengths@, i as int),
        decreases lengths.len() - i,
    {
        acc = acc + lengths[i];
        i += 1;
    }
    acc
}

/// The largest of the first `n` lengths, and zero at least.
pub open spec fn peak(lengths: Seq<Fixed>, n: int) -> Fixed
    decreases n,
{
    if n <= 0 {
        zero()
    } else {
        peak(lengths, n - 1).max_spec(lengths[n - 1])
    }
}

/// The largest of all lengths, and zero at least.
pub fn largest(lengths: &Vec<Fixed>) -> (r: Fixed)
    ensures
        r == peak(lengths@, lengths.len() as int),
{
    let mut acc = Fixed::zero();
    let mut i: usize = 0;
    while i < lengths.len()
        invariant
            i <= lengths.len(),
            acc == peak(lengths@, i as int),
        decreases lengths.len() - i,
    {
        acc = acc.max(lengths[i]);
        i += 1;
    }
    acc
}

/// Where the `k`-th of a row of boxes begins when the first begins at
/// `lead` and consecutive boxes are `gap` apart.
pub open spec fn stack(extents: Seq<Fixed>, lead: Fixed, gap: Fixed, k: int) -> Fixed
    decreases k,
{
    if k <= 0 {
        lead
    } else {
        stack(extents, lead, gap, k - 1).spec_add(extents[k - 1]).spec_add(gap)
    }
}

/// Where each of a row of boxes begins.
pub open spec fn stacked(extents: Seq<Fixed>, lead: Fixed, gap: Fixed) -> Seq<Fixed> {
    Seq::new(extents.len(), |k: int| stack(extents, lead, gap, k))
}

/// Where each of a row of boxes begins when the first begins at `lead` and
/// consecutive boxes are `gap` apart.
pub fn offsets(extents: &Vec<Fixed>, lead: Fixed, gap: Fixed) -> (r: Vec<Fixed>)
    ensures
        r@ == stacked(extents@, lead, gap),
{
    let mut out: Vec<Fixed> = Vec::new();
    let mut cursor = lead;
    let mut k: usize = 0;
    while k < extents.len()
        invariant
            k <= extents.len(),
            out.len() == k,
            cursor == stack(extents@, lead, gap, k as int),
            forall|j: int| 0 <= j < k ==> out[j] == stack(extents@, lead, gap, j),
        decreases extents.len() - k,
    {
        out.push(cursor);
        cursor = cursor + extents[k] + gap;
        k += 1;
    }
    assert(out@ =~= stacked(extents@, lead, gap));
    out
}

/// The plain sum of the first `n` raw lengths, without saturation.
pub open spec fn raw_total(lengths: Seq<Fixed>, n: int) -> int
    decreases n,
{
    if n <= 0 {
        0
    } else {
        raw_total(lengths, n - 1) + lengths[n - 1].raw
    }
}

/// A sum of lengths that are not negative saturates only where the plain
/// sum leaves the range.
pub proof fn lemma_total_is_plain(lengths: Seq<Fixed>, n: int)
    requires
        0 <= n <= lengths.len(),
        forall|i: int| 0 <= i < n ==> lengths[i].raw >= 0,
        raw_total(lengths, n) <= i64::MAX,
    ensures
        total(lengths, n).raw == raw_total(lengths, n),
        raw_total(lengths, n) >= 0,
    decreases n,
{
    if n > 0 {
        lemma_raw_total_monotone(lengths, n - 1, n);
        lemma_total_is_plain(lengths, n - 1);
    }
}

/// Plain sums of lengths that are not negative grow with the number of
/// lengths summed.
pub proof fn lemma_raw_total_monotone(lengths: Seq<Fixed>, m: int, n: int)
    requires
        0 <= m <= n <= lengths.len(),
        forall|i: int| 0 <= i < n ==> lengths[i].raw >= 0,
    ensures
        0 <= raw_total(lengths, m) <= raw_total(lengths, n),
    decreases n,
{
    if m < n {
        lemma_raw_total_monotone(lengths, m, n - 1);
    } else if n > 0 {
        lemma_raw_total_monotone(lengths, m - 1, n - 1);
    }
}

/// A sum of zeros is zero.
pub proof fn lemma_total_of_zeros(lengths: Seq<Fixed>, n: int)
    requires
        0 <= n <= lengths.len(),
        forall|i: int| 0 <= i < n ==> lengths[i] == zero(),
    ensures
        total(lengths, n) == zero(),
    decreases n,
{
    if n > 0 {
        lemma_total_of_zeros(lengths, n - 1);
    }
}

/// No length exceeds the plain sum of lengths that are not negative.
pub proof fn lemma_raw_total_bounds_each(lengths: Seq<Fixed>, n: int, i: int)
    requires
        0 <= i < n <= lengths.len(),
        forall|j: int| 0 <= j < n ==> lengths[j].raw >= 0,
    ensures
        lengths[i].raw <= raw_total(lengths, n),
    decreases n,
{
    lemma_raw_total_monotone(lengths, n - 1, n);
    if i < n - 1 {
        lemma_raw_total_bounds_each(lengths, n - 1, i);
    } else {
        lemma_raw_total_monotone(lengths, 0, n - 1);
    }
}

/// Shares of `whole` by weight, each rounded down, add up to `whole` less
/// what the rounding took, which is less than one unit for each share.
pub proof fn lemma_shares_add_up(whole: int, weights: Seq<Fixed>, shares: Seq<Fixed>, k: int)
    requires
        whole >= 0,
        weights.len() == shares.len(),
        0 <= k <= weights.len(),
        forall|i: int| 0 <= i < weights.len() ==> weights[i].raw >= 0,
        raw_total(weights, weights.len() as int) > 0,
        forall|i: int|
            0 <= i < weights.len() ==> shares[i].raw == (whole * weights[i].raw) / raw_total(
                weights,
                weights.len() as int,
            ),
    ensures
        raw_total(weights, weights.len() as int) * raw_total(shares, k) <= whole * raw_total(weights, k),
        raw_total(weights, weights.len() as int) * raw_total(shares, k) >= whole * raw_total(weights, k) - k * (
        raw_total(weights, weights.len() as int) - 1),
    decreases k,
{
    let sum = raw_total(weights, weights.len() as int);
    if k > 0 {
        lemma_shares_add_up(whole, weights, shares, k - 1);
        let weight = weights[k - 1].raw as int;
        let share = shares[k - 1].raw as int;
        let before = raw_total(shares, k - 1);
        let weight_before = raw_total(weights, k - 1);
        let part = whole * weight;
        assert(part >= 0) by (nonlinear_arith)
            requires
                whole >= 0,
                weight >= 0,
                part == whole * weight,
        ;
        vstd::arithmetic::div_mod::lemma_fundamental_div_mod(part, sum);
        vstd::arithmetic::div_mod::lemma_mod_bound(part, sum);
        assert(sum * share <= part && sum * share >= part - (sum - 1));
        assert(sum * (before + share) == sum * before + sum * share) by (nonlinear_arith);
        assert(whole * (weight_before + weight) == whole * weight_before + whole * weight) by (nonlinear_arith);
        assert(k * (sum - 1) == (k - 1) * (sum - 1) + (sum - 1)) by (nonlinear_arith);
    }
}

} // verus!
