//! Inverting the weighted-sum ranking formula.
//!
//! Given a ranked list, its current aggregate total (weighted sum plus any
//! bonus) and a target total, the solver finds the one new value that,
//! entered at its correctly sorted rank, lifts the aggregate to the target.
//! Entering a value at rank `k` pushes every entry at or below `k` one
//! rank down; with a full list the entry that would fall past the last
//! kept rank is dropped entirely. A list shorter than the capacity simply
//! has a shorter sum: nothing is dropped and no compensation term applies
//! to the ranks it does not fill.

use vstd::prelude::*;

use crate::totals::{lemma_wsum_last, lemma_wsum_nonneg, weighted_total_scaled, wsum};
use crate::weighted_list::{WeightedList, VALUE_MAX};
use crate::weights::{
    decay_weight, lemma_weight_floor, lemma_weight_le_scale, lemma_weight_step, weights_up_to,
    CAPACITY, SCALE, WEIGHT_FLOOR,
};

verus! {

/// Largest admissible aggregate total, in fixed-point units.
pub const TOTAL_MAX: u64 = 1_000_000_000_000;

/// Result of a solve: either nothing is needed, or one new score is.
#[derive(Clone, Copy, PartialEq, Eq, Structural, Debug)]
pub enum GapOutcome {
    /// The current total already meets or exceeds the target.
    AlreadyAchieved,
    /// A new value of `required` units would lift the total to the target,
    /// standing at the 1-based rank `rank`.
    NewScore { required: u64, rank: usize },
}

/// Failure of a solve.
#[derive(Clone, Copy, PartialEq, Eq, Structural, Debug)]
pub enum GapError {
    /// The list is empty and the current total is below the target: there
    /// is no rank structure to solve against.
    InsufficientData,
}

/// End of the suffix of entries that stay on the list after an insertion:
/// with a full list, the last entry is dropped rather than pushed down.
pub open spec fn kept_end(s: Seq<u64>) -> int {
    if s.len() == CAPACITY {
        s.len() - 1
    } else {
        s.len() as int
    }
}

/// Scaled aggregate after a new value `x` enters at 0-based rank `k`:
/// the bonus, the entries above `k` at their own weights, `x` at rank
/// `k`'s weight, and the kept entries at or below `k` one rank down.
pub open spec fn insert_total_scaled(s: Seq<u64>, bonus: int, k: int, x: u64) -> int {
    rest_scaled(s, bonus, k) + x * decay_weight(k as nat)
}

/// The insertion aggregate without the new value's own term.
pub open spec fn rest_scaled(s: Seq<u64>, bonus: int, k: int) -> int {
    bonus + wsum(s, 0, k, 0) + wsum(s, k, kept_end(s), 1)
}

/// What the solver promises of a returned value and 1-based rank: the
/// value stands at a rank consistent with the descending order — strictly
/// below its upper neighbour, at or above the entry it displaces, so a
/// boundary tie settles on the smaller rank — and the recomputed
/// aggregate meets the target, overshooting by less than one unit's
/// weight.
pub open spec fn gap_solution(
    s: Seq<u64>,
    bonus: int,
    target_scaled: int,
    required: u64,
    rank: usize,
) -> bool {
    let k = rank - 1;
    &&& 1 <= rank
    &&& k <= kept_end(s)
    &&& (k == 0 || s[k - 1] > required)
    &&& (k >= s.len() || required >= s[k])
    &&& target_scaled <= insert_total_scaled(s, bonus, k, required)
    &&& insert_total_scaled(s, bonus, k, required) < target_scaled + decay_weight(k as nat)
}

/// Rounding a division up: the quotient times the divisor reaches the
/// dividend and overshoots it by less than the divisor.
proof fn lemma_ceil_div(a: int, b: int)
    requires
        a >= 1,
        b >= 1,
    ensures
        ((a + b - 1) / b) * b >= a,
        ((a + b - 1) / b) * b < a + b,
        (a + b - 1) / b >= 1,
{
    assert(((a + b - 1) / b) * b >= a && ((a + b - 1) / b) * b < a + b && (a + b - 1) / b >= 1)
        by (nonlinear_arith)
        requires
            a >= 1,
            b >= 1,
    ;
}

/// Finds the single new value that lifts the aggregate to the target.
///
/// `current_total` is the list's weighted total plus any bonus the caller
/// carries outside the list; a target at or below it needs no new score.
/// With a non-empty list and a higher target, the solver returns the
/// required value and the 1-based rank it would occupy; a value that
/// exactly matches an existing entry stands above it, so a boundary tie
/// settles on the smaller of the two candidate ranks.
pub fn gap_to_target(list: &WeightedList, current_total: u64, target_total: u64) -> (r: Result<
    GapOutcome,
    GapError,
>)
    requires
        list.wf(),
        current_total <= TOTAL_MAX,
        target_total <= TOTAL_MAX,
        weighted_total_scaled(list.values@) <= current_total * SCALE,
    ensures
        current_total >= target_total ==> r == Ok::<GapOutcome, GapError>(
            GapOutcome::AlreadyAchieved,
        ),
        current_total < target_total && list.values@.len() == 0 ==> r == Err::<
            GapOutcome,
            GapError,
        >(GapError::InsufficientData),
        current_total < target_total && list.values@.len() > 0 ==> (r matches Ok(
            GapOutcome::NewScore { required, rank },
        ) && gap_solution(
            list.values@,
            current_total * SCALE - weighted_total_scaled(list.values@),
            target_total * SCALE,
            required,
            rank,
        )),
{
    if current_total >= target_total {
        return Ok(GapOutcome::AlreadyAchieved);
    }
    let n = list.len();
    if n == 0 {
        return Err(GapError::InsufficientData);
    }
    let ghost s = list.values@;
    let ghost bonus = current_total * SCALE - weighted_total_scaled(s);
    let ghost target_scaled_g = target_total * SCALE;

    let k0: usize = if n == CAPACITY {
        CAPACITY - 1
    } else {
        n
    };
    assert(k0 == kept_end(s));
    let ws = weights_up_to(k0);
    let target_scaled: u128 = (target_total as u128) * (SCALE as u128);
    let current_scaled: u128 = (current_total as u128) * (SCALE as u128);
    proof {
        lemma_wsum_nonneg(s, 0, s.len() as int, 0);
    }

    let mut k: usize = k0;
    let mut rest: u128;
    if n == CAPACITY {
        proof {
            lemma_wsum_last(s, 0, n as int, 0);
            lemma_weight_le_scale((n - 1) as nat);
            lemma_wsum_nonneg(s, 0, n - 1, 0);
            assert(s[n - 1] * decay_weight((n - 1) as nat) <= VALUE_MAX * SCALE)
                by (nonlinear_arith)
                requires
                    s[n - 1] <= VALUE_MAX,
                    decay_weight((n - 1) as nat) <= SCALE,
            ;
        }
        rest = current_scaled - (list.values[n - 1] as u128) * (ws[n - 1] as u128);
        assert(rest == rest_scaled(s, bonus, k as int));
        proof {
            assert((s[n - 1] - 1) * decay_weight((n - 1) as nat) == s[n - 1] * decay_weight(
                (n - 1) as nat,
            ) - decay_weight((n - 1) as nat)) by (nonlinear_arith);
        }
    } else {
        rest = current_scaled;
        assert(rest == rest_scaled(s, bonus, k as int));
    }
    proof {
        // The target strictly exceeds the current total, by at least one
        // whole fixed-point unit once both are scaled.
        assert(target_scaled_g >= current_total * SCALE + SCALE) by (nonlinear_arith)
            requires
                current_total < target_total,
                target_scaled_g == target_total * SCALE,
        ;
    }

    loop
        invariant
            list.wf(),
            s == list.values@,
            k <= k0,
            k0 == kept_end(s),
            k0 <= CAPACITY - 1 || k0 == s.len(),
            k0 <= CAPACITY,
            ws@.len() == k0 + 1,
            forall|j: int| 0 <= j <= k0 ==> ws@[j] == decay_weight(j as nat),
            target_scaled == target_total * SCALE,
            target_scaled_g == target_scaled,
            bonus == current_total * SCALE - weighted_total_scaled(s),
            weighted_total_scaled(s) <= current_total * SCALE,
            current_total < target_total,
            s.len() > 0,
            target_total <= TOTAL_MAX,
            rest == rest_scaled(s, bonus, k as int),
            rest < target_scaled,
            k < s.len() ==> target_scaled - rest > (s[k as int] - 1) * decay_weight(k as nat),
        decreases k,
    {
        let wk: u128 = ws[k] as u128;
        proof {
            lemma_weight_floor(k as nat);
            lemma_weight_le_scale(k as nat);
        }
        let need: u128 = target_scaled - rest;
        let x: u128 = (need + wk - 1) / wk;
        proof {
            lemma_ceil_div(need as int, wk as int);
            // The computed value fits the machine word: its weighted term
            // overshoots the needed amount by less than one weight, and
            // weights of kept ranks never fall under the floor.
            assert(x * wk < need + wk);
            assert(x <= 200_000_000_000_000) by (nonlinear_arith)
                requires
                    x * wk < need + wk,
                    need <= target_scaled,
                    target_scaled <= 1_000_000_000_000_000_000_000_000,
                    WEIGHT_FLOOR <= wk,
                    wk <= SCALE,
                    x >= 1,
            ;
        }
        if k == 0 || list.values[k - 1] as u128 > x {
            let required: u64 = x as u64;
            let rank: usize = k + 1;
            proof {
                assert(x * wk >= need);
                assert(required as int == x as int);
                assert(wk as int == decay_weight(k as nat));
                assert(required * decay_weight(k as nat) == x * wk) by (nonlinear_arith)
                    requires
                        required as int == x as int,
                        wk as int == decay_weight(k as nat),
                ;
                assert(insert_total_scaled(s, bonus, k as int, required) == rest + x * wk);
                assert(insert_total_scaled(s, bonus, k as int, required) >= target_scaled_g);
                assert(insert_total_scaled(s, bonus, k as int, required) < target_scaled_g
                    + decay_weight(k as nat));
                if k < s.len() {
                    // The loop invariant keeps the needed amount above the
                    // displaced entry's contribution less one weight, so
                    // the solved value reaches that entry.
                    assert(required >= s[k as int]) by (nonlinear_arith)
                        requires
                            required * (decay_weight(k as nat) as int) >= need,
                            need > (s[k as int] - 1) * decay_weight(k as nat),
                            decay_weight(k as nat) >= 1,
                    ;
                }
                assert(gap_solution(s, bonus, target_scaled_g, required, rank));
            }
            return Ok(GapOutcome::NewScore { required, rank });
        }
        // The value is too large for this rank: move the entry above the
        // insertion point below it and retry one rank higher.
        let v: u128 = list.values[k - 1] as u128;
        let wk1: u128 = ws[k - 1] as u128;
        proof {
            lemma_weight_step((k - 1) as nat);
            lemma_weight_le_scale((k - 1) as nat);
            // v fits under the bound, and both its weighted terms do too.
            assert(v * wk1 <= VALUE_MAX * SCALE && v * wk <= VALUE_MAX * SCALE)
                by (nonlinear_arith)
                requires
                    v <= VALUE_MAX,
                    wk1 <= SCALE,
                    wk <= wk1,
            ;
            // Unfold the prefix sum at its right end and the suffix sum at
            // its left end: the moved entry swaps its own weight for the
            // pushed-down one.
            lemma_wsum_last(s, 0, k as int, 0);
            assert(wsum(s, k - 1, kept_end(s), 1) == s[k - 1] * decay_weight(k as nat) + wsum(
                s,
                k as int,
                kept_end(s),
                1,
            ));
            lemma_wsum_nonneg(s, 0, k - 1, 0);
            lemma_wsum_nonneg(s, k - 1, kept_end(s), 1);
            assert(rest_scaled(s, bonus, k - 1) == rest_scaled(s, bonus, k as int) - v * wk1 + v
                * wk);
            // The needed amount at the next rank still exceeds the next
            // displaced entry's contribution less one weight.
            assert(x * wk >= need);
            assert(need > (v - 1) * wk) by (nonlinear_arith)
                requires
                    x >= v,
                    x * wk < need + wk,
                    wk >= 1,
            ;
            // The rest never grows: the moved entry's pushed-down term is
            // no larger than its own.
            assert(v * wk <= v * wk1) by (nonlinear_arith)
                requires
                    wk <= wk1,
                    v >= 0,
            ;
            assert(target_scaled - (rest + v * wk - v * wk1) > (s[k - 1] - 1) * decay_weight(
                (k - 1) as nat,
            )) by (nonlinear_arith)
                requires
                    target_scaled - rest > (v - 1) * wk,
                    v == s[k - 1],
                    wk1 == decay_weight((k - 1) as nat),
                    wk == decay_weight(k as nat),
                    wk <= wk1,
            ;
            // The update neither underflows (the new rest is a sum of
            // non-negative terms) nor overflows the wide word.
            assert(rest_scaled(s, bonus, k - 1) >= 0);
            assert(rest + v * wk >= v * wk1);
            assert(rest + v * wk <= TOTAL_MAX * SCALE + VALUE_MAX * SCALE);
        }
        rest = rest + v * wk - v * wk1;
        k = k - 1;
    }
}

/// The aggregate a hypothetical new score would produce, and the 1-based
/// rank it would occupy: the value enters below every entry at least as
/// large, every kept entry at or below it moves one rank down, and with a
/// full list the last entry drops. A value that would fall below the last
/// entry of a full list changes nothing and earns no rank.
pub fn total_with_new_value(list: &WeightedList, bonus: u64, x: u64) -> (r: Option<(u64, usize)>)
    requires
        list.wf(),
        bonus <= TOTAL_MAX,
        x <= VALUE_MAX,
    ensures
        ({
            let s = list.values@;
            match r {
                None => s.len() == CAPACITY && s[s.len() - 1] >= x,
                Some((total, rank)) => {
                    let k = rank - 1;
                    &&& 1 <= rank
                    &&& k <= kept_end(s)
                    &&& (k == 0 || s[k - 1] >= x)
                    &&& (k >= s.len() || s[k] < x)
                    &&& total == insert_total_scaled(s, bonus * SCALE, k as int, x) / (
                    SCALE as int)
                },
            }
        }),
{
    let ghost s = list.values@;
    let n = list.len();
    let mut k: usize = 0;
    while k < n && list.values[k] >= x
        invariant
            k <= n,
            n == s.len(),
            s == list.values@,
            list.wf(),
            forall|j: int| 0 <= j < k ==> s[j] >= x,
        decreases n - k,
    {
        k = k + 1;
    }
    if k == CAPACITY {
        return None;
    }
    let ghost bonus_s = bonus * SCALE;
    let ghost cut = kept_end(s);
    let cut_exec: usize = if n == CAPACITY {
        CAPACITY - 1
    } else {
        n
    };
    let ws = weights_up_to(n);
    let mut acc: u128 = (bonus as u128) * (SCALE as u128);
    proof {
        assert(acc == bonus_s + wsum(s, 0, 0, 0));
        assert(bonus_s <= TOTAL_MAX * SCALE) by (nonlinear_arith)
            requires
                bonus <= TOTAL_MAX,
                bonus_s == bonus * SCALE,
        ;
    }
    let mut i: usize = 0;
    while i < k
        invariant
            i <= k,
            k <= n,
            k <= CAPACITY - 1 || k < n,
            n == s.len(),
            s == list.values@,
            list.wf(),
            ws@.len() == n + 1,
            forall|j: int| 0 <= j <= n ==> ws@[j] == decay_weight(j as nat),
            bonus_s <= TOTAL_MAX * SCALE,
            acc == bonus_s + wsum(s, 0, i as int, 0),
            acc <= bonus_s + (i as int) * VALUE_MAX * SCALE,
        decreases k - i,
    {
        proof {
            lemma_wsum_last(s, 0, i + 1, 0);
            lemma_weight_le_scale(i as nat);
            assert(s[i as int] * decay_weight(i as nat) <= VALUE_MAX * SCALE) by (nonlinear_arith)
                requires
                    s[i as int] <= VALUE_MAX,
                    decay_weight(i as nat) <= SCALE,
            ;
            assert((i + 1) as int * VALUE_MAX * SCALE == (i as int) * VALUE_MAX * SCALE + VALUE_MAX
                * SCALE) by (nonlinear_arith);
            assert((i as int) * VALUE_MAX * SCALE <= 100 * (VALUE_MAX as int) * (SCALE as int))
                by (nonlinear_arith)
                requires
                    0 <= i <= 100,
            ;
        }
        acc = acc + (list.values[i] as u128) * (ws[i] as u128);
        i = i + 1;
    }
    proof {
        lemma_weight_le_scale(k as nat);
        assert(x * decay_weight(k as nat) <= VALUE_MAX * SCALE) by (nonlinear_arith)
            requires
                x <= VALUE_MAX,
                decay_weight(k as nat) <= SCALE,
        ;
        assert((k as int) * VALUE_MAX * SCALE <= 100 * (VALUE_MAX as int) * (SCALE as int))
            by (nonlinear_arith)
            requires
                0 <= k <= 100,
        ;
    }
    acc = acc + (x as u128) * (ws[k] as u128);
    let ghost mid = bonus_s + wsum(s, 0, k as int, 0) + x * decay_weight(k as nat);
    assert(acc == mid + wsum(s, k as int, k as int, 1));
    let mut i: usize = k;
    while i < cut_exec
        invariant
            k <= i <= cut_exec,
            cut_exec == cut,
            cut == kept_end(s),
            cut <= n,
            n == s.len(),
            s == list.values@,
            list.wf(),
            ws@.len() == n + 1,
            forall|j: int| 0 <= j <= n ==> ws@[j] == decay_weight(j as nat),
            bonus_s <= TOTAL_MAX * SCALE,
            mid <= bonus_s + 101 * (VALUE_MAX as int) * (SCALE as int),
            acc == mid + wsum(s, k as int, i as int, 1),
            acc <= mid + (i as int) * VALUE_MAX * SCALE,
        decreases cut_exec - i,
    {
        proof {
            lemma_wsum_last(s, k as int, i + 1, 1);
            lemma_weight_le_scale((i + 1) as nat);
            assert(s[i as int] * decay_weight((i + 1) as nat) <= VALUE_MAX * SCALE)
                by (nonlinear_arith)
                requires
                    s[i as int] <= VALUE_MAX,
                    decay_weight((i + 1) as nat) <= SCALE,
            ;
            assert((i + 1) as int * VALUE_MAX * SCALE == (i as int) * VALUE_MAX * SCALE + VALUE_MAX
                * SCALE) by (nonlinear_arith);
            assert((i as int) * VALUE_MAX * SCALE <= 100 * (VALUE_MAX as int) * (SCALE as int))
                by (nonlinear_arith)
                requires
                    0 <= i <= 100,
            ;
        }
        acc = acc + (list.values[i] as u128) * (ws[i + 1] as u128);
        i = i + 1;
    }
    proof {
        assert(acc == insert_total_scaled(s, bonus_s, k as int, x));
        lemma_wsum_nonneg(s, 0, k as int, 0);
        lemma_wsum_nonneg(s, k as int, cut, 1);
        assert((cut) * VALUE_MAX * SCALE <= 100 * (VALUE_MAX as int) * (SCALE as int))
            by (nonlinear_arith)
            requires
                0 <= cut <= 100,
        ;
        assert(acc / (SCALE as u128) <= (TOTAL_MAX * SCALE + 201 * (VALUE_MAX as int) * (
        SCALE as int)) / (SCALE as int)) by (nonlinear_arith)
            requires
                0 <= acc <= TOTAL_MAX * SCALE + 201 * (VALUE_MAX as int) * (SCALE as int),
        ;
        assert((TOTAL_MAX * SCALE + 201 * (VALUE_MAX as int) * (SCALE as int)) / (SCALE as int)
            < u64::MAX) by (nonlinear_arith);
    }
    let total: u64 = (acc / (SCALE as u128)) as u64;
    Some((total, k + 1))
}

/// Solves as `gap_to_target`, checking the inputs first: a current total
/// below the list's own weighted sum is malformed (the current total is
/// the weighted sum plus a non-negative bonus) and reported as
/// insufficient data rather than solved against.
pub fn gap_to_target_checked(list: &WeightedList, current_total: u64, target_total: u64) -> (r:
    Result<GapOutcome, GapError>)
    requires
        list.wf(),
        current_total <= TOTAL_MAX,
        target_total <= TOTAL_MAX,
    ensures
        weighted_total_scaled(list.values@) > current_total * SCALE ==> r == Err::<
            GapOutcome,
            GapError,
        >(GapError::InsufficientData),
        weighted_total_scaled(list.values@) <= current_total * SCALE ==> {
            &&& (current_total >= target_total ==> r == Ok::<GapOutcome, GapError>(
                GapOutcome::AlreadyAchieved,
            ))
            &&& (current_total < target_total && list.values@.len() == 0 ==> r == Err::<
                GapOutcome,
                GapError,
            >(GapError::InsufficientData))
            &&& (current_total < target_total && list.values@.len() > 0 ==> (r matches Ok(
                GapOutcome::NewScore { required, rank },
            ) && gap_solution(
                list.values@,
                current_total * SCALE - weighted_total_scaled(list.values@),
                target_total * SCALE,
                required,
                rank,
            )))
        },
{
    let scaled = list.scaled_total();
    proof {
        assert((current_total as int) * (SCALE as int) <= (TOTAL_MAX as int) * (SCALE as int))
            by (nonlinear_arith)
            requires
                current_total <= TOTAL_MAX,
        ;
    }
    if scaled > (current_total as u128) * (SCALE as u128) {
        return Err(GapError::InsufficientData);
    }
    gap_to_target(list, current_total, target_total)
}

} // verus!
