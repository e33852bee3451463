//! Scaled weighted sums over ranked value sequences.
//!
//! `wsum(s, from, to, shift)` is the exact scaled contribution of the
//! entries `s[from .. to]` when entry `i` sits at rank `i + shift`. The
//! gap solver uses `shift == 0` for entries above an insertion point and
//! `shift == 1` for entries pushed one rank down by it.

use vstd::prelude::*;

use crate::weights::{decay_weight, lemma_weight_le_scale, SCALE};

verus! {

/// Sum of `s[i] * decay_weight(i + shift)` over `from <= i < to`.
pub open spec fn wsum(s: Seq<u64>, from: int, to: int, shift: nat) -> int
    decreases to - from,
{
    if from < 0 || from >= to || to > s.len() {
        0
    } else {
        s[from] * decay_weight((from + shift) as nat) + wsum(s, from + 1, to, shift)
    }
}

/// The whole list's scaled weighted total, every entry at its own rank.
pub open spec fn weighted_total_scaled(s: Seq<u64>) -> int {
    wsum(s, 0, s.len() as int, 0)
}

/// A weighted sum of unsigned entries is never negative.
pub proof fn lemma_wsum_nonneg(s: Seq<u64>, from: int, to: int, shift: nat)
    ensures
        wsum(s, from, to, shift) >= 0,
    decreases to - from,
{
    if !(from < 0 || from >= to || to > s.len()) {
        assert(s[from] * decay_weight((from + shift) as nat) >= 0) by (nonlinear_arith);
        lemma_wsum_nonneg(s, from + 1, to, shift);
    }
}

/// A weighted sum splits at any midpoint.
pub proof fn lemma_wsum_split(s: Seq<u64>, from: int, mid: int, to: int, shift: nat)
    requires
        0 <= from <= mid <= to <= s.len(),
    ensures
        wsum(s, from, to, shift) == wsum(s, from, mid, shift) + wsum(s, mid, to, shift),
    decreases mid - from,
{
    if from < mid {
        lemma_wsum_split(s, from + 1, mid, to, shift);
    }
}

/// Dropping the last entry removes exactly its own weighted term.
pub proof fn lemma_wsum_last(s: Seq<u64>, from: int, to: int, shift: nat)
    requires
        0 <= from < to <= s.len(),
    ensures
        wsum(s, from, to, shift) == wsum(s, from, to - 1, shift) + s[to - 1] * decay_weight(
            (to - 1 + shift) as nat,
        ),
    decreases to - from,
{
    lemma_wsum_split(s, from, to - 1, to, shift);
    assert(wsum(s, to - 1, to, shift) == s[to - 1] * decay_weight((to - 1 + shift) as nat) + wsum(
        s,
        to,
        to,
        shift,
    ));
}

/// Bound: with every entry at most `vmax`, the sum is at most
/// `(to - from) * vmax * SCALE`.
pub proof fn lemma_wsum_bound(s: Seq<u64>, from: int, to: int, shift: nat, vmax: u64)
    requires
        0 <= from <= to <= s.len(),
        forall|i: int| from <= i < to ==> s[i] <= vmax,
    ensures
        wsum(s, from, to, shift) <= (to - from) * vmax * SCALE,
    decreases to - from,
{
    if from < to {
        lemma_wsum_bound(s, from + 1, to, shift, vmax);
        lemma_weight_le_scale((from + shift) as nat);
        assert(s[from] * decay_weight((from + shift) as nat) <= vmax * SCALE) by (nonlinear_arith)
            requires
                s[from] <= vmax,
                decay_weight((from + shift) as nat) <= SCALE,
        ;
        assert((to - from) * vmax * SCALE == vmax * SCALE + (to - from - 1) * vmax * SCALE)
            by (nonlinear_arith);
    } else {
        assert((to - from) * vmax * SCALE == 0) by (nonlinear_arith)
            requires
                to == from,
        ;
    }
}

} // verus!
