//! The ranked list of performance values.
//!
//! A `WeightedList` keeps at most `CAPACITY` fixed-point values sorted in
//! descending order; the entry at rank `i` contributes with weight
//! `decay_weight(i)`. The constructor sorts; the list is never mutated
//! afterwards.

use vstd::prelude::*;
use vstd::seq_lib::to_multiset_insert;

use crate::totals::{lemma_wsum_bound, lemma_wsum_nonneg, weighted_total_scaled};
use crate::weights::{CAPACITY, SCALE};

verus! {

/// Largest admissible single value, in fixed-point units.
pub const VALUE_MAX: u64 = 10_000_000_000;

/// Descending order: no entry is smaller than a later one.
pub open spec fn sorted_desc(s: Seq<u64>) -> bool {
    forall|i: int, j: int| 0 <= i <= j < s.len() ==> s[i] >= s[j]
}

/// An ordered sequence of performance values with per-rank decay.
pub struct WeightedList {
    pub values: Vec<u64>,
}

impl WeightedList {
    /// The list is within capacity, sorted descending, and each entry is
    /// within the admissible value range.
    pub open spec fn wf(self) -> bool {
        &&& self.values@.len() <= CAPACITY
        &&& sorted_desc(self.values@)
        &&& forall|i: int| 0 <= i < self.values@.len() ==> self.values@[i] <= VALUE_MAX
    }

    /// Number of entries.
    pub fn len(&self) -> (n: usize)
        ensures
            n == self.values@.len(),
    {
        self.values.len()
    }

    /// Builds a list from an unordered collection of values, sorting it
    /// descending. Rejects a collection over capacity or holding a value
    /// out of range; otherwise the result holds exactly the given values.
    pub fn from_values(vals: &Vec<u64>) -> (r: Option<WeightedList>)
        ensures
            match r {
                Some(list) => {
                    &&& vals@.len() <= CAPACITY
                    &&& (forall|i: int| 0 <= i < vals@.len() ==> vals@[i] <= VALUE_MAX)
                    &&& list.wf()
                    &&& list.values@.to_multiset() == vals@.to_multiset()
                },
                None => vals@.len() > CAPACITY || exists|i: int|
                    0 <= i < vals@.len() && vals@[i] > VALUE_MAX,
            },
    {
        if vals.len() > CAPACITY {
            return None;
        }
        let mut sorted: Vec<u64> = Vec::new();
        let mut i: usize = 0;
        proof {
            assert(sorted@ =~= vals@.subrange(0, 0));
        }
        while i < vals.len()
            invariant
                i <= vals@.len(),
                vals@.len() <= CAPACITY,
                sorted@.len() == i,
                sorted_desc(sorted@),
                forall|j: int| 0 <= j < i ==> vals@[j] <= VALUE_MAX,
                forall|j: int| 0 <= j < sorted@.len() ==> sorted@[j] <= VALUE_MAX,
                sorted@.to_multiset() == vals@.subrange(0, i as int).to_multiset(),
            decreases vals@.len() - i,
        {
            let v = vals[i];
            if v > VALUE_MAX {
                return None;
            }
            let pos = insert_position(&sorted, v);
            let ghost old_sorted = sorted@;
            sorted.insert(pos, v);
            proof {
                to_multiset_insert(old_sorted, pos as int, v);
                assert(vals@.subrange(0, i + 1).drop_last() =~= vals@.subrange(0, i as int));
                assert(vals@.subrange(0, i + 1).to_multiset() =~= vals@.subrange(
                    0,
                    i as int,
                ).to_multiset().insert(vals@[i as int])) by {
                    vals@.subrange(0, i + 1).to_multiset_ensures();
                    assert(vals@.subrange(0, i + 1) =~= vals@.subrange(0, i as int).push(
                        vals@[i as int],
                    ));
                    vals@.subrange(0, i as int).to_multiset_ensures();
                }
            }
            i = i + 1;
        }
        proof {
            assert(vals@.subrange(0, vals@.len() as int) =~= vals@);
        }
        Some(WeightedList { values: sorted })
    }

    /// The weighted total plus a bonus, in fixed-point units (the scaled
    /// weighted sum rounded down to units).
    pub fn total(&self, bonus: u64) -> (t: u64)
        requires
            self.wf(),
            bonus <= VALUE_MAX,
        ensures
            t == weighted_total_scaled(self.values@) / (SCALE as int) + bonus,
    {
        let scaled = self.scaled_total();
        proof {
            lemma_wsum_nonneg(self.values@, 0, self.values@.len() as int, 0);
            lemma_wsum_bound(self.values@, 0, self.values@.len() as int, 0, VALUE_MAX);
            assert(weighted_total_scaled(self.values@) / (SCALE as int) <= (100 * VALUE_MAX
                * SCALE) / (SCALE as int)) by (nonlinear_arith)
                requires
                    0 <= weighted_total_scaled(self.values@) <= 100 * VALUE_MAX * SCALE,
            ;
        }
        (scaled / (SCALE as u128)) as u64 + bonus
    }

    /// The exact scaled weighted sum of the list.
    pub fn scaled_total(&self) -> (t: u128)
        requires
            self.wf(),
        ensures
            t == weighted_total_scaled(self.values@),
    {
        let ws = crate::weights::weights_up_to(self.values.len());
        let mut acc: u128 = 0;
        let mut i: usize = 0;
        proof {
            lemma_wsum_nonneg(self.values@, 0, self.values@.len() as int, 0);
        }
        while i < self.values.len()
            invariant
                i <= self.values@.len(),
                self.wf(),
                ws@.len() == self.values@.len() + 1,
                forall|j: int|
                    0 <= j <= self.values@.len() ==> ws@[j] == crate::weights::decay_weight(
                        j as nat,
                    ),
                acc == crate::totals::wsum(self.values@, 0, i as int, 0),
                acc <= (i as int) * VALUE_MAX * SCALE,
            decreases self.values@.len() - i,
        {
            proof {
                crate::totals::lemma_wsum_last(self.values@, 0, i + 1, 0);
                crate::weights::lemma_weight_le_scale(i as nat);
                assert(self.values@[i as int] * crate::weights::decay_weight(i as nat) <= VALUE_MAX
                    * SCALE) by (nonlinear_arith)
                    requires
                        self.values@[i as int] <= VALUE_MAX,
                        crate::weights::decay_weight(i as nat) <= SCALE,
                ;
                assert((i + 1) as int * VALUE_MAX * SCALE == (i as int) * VALUE_MAX * SCALE
                    + VALUE_MAX * SCALE) by (nonlinear_arith);
                assert(100 * (VALUE_MAX as int) * (SCALE as int) < u128::MAX) by (nonlinear_arith);
            }
            acc = acc + (self.values[i] as u128) * (ws[i] as u128);
            i = i + 1;
        }
        acc
    }
}

/// First position in a descending list where `v` can stand without
/// breaking the order: after every strictly greater entry, before the rest.
fn insert_position(sorted: &Vec<u64>, v: u64) -> (pos: usize)
    requires
        sorted_desc(sorted@),
    ensures
        pos <= sorted@.len(),
        forall|j: int| 0 <= j < pos ==> sorted@[j] >= v,
        forall|j: int| pos <= j < sorted@.len() ==> sorted@[j] <= v,
        sorted_desc(sorted@.insert(pos as int, v)),
{
    let mut pos: usize = 0;
    while pos < sorted.len() && sorted[pos] > v
        invariant
            pos <= sorted@.len(),
            sorted_desc(sorted@),
            forall|j: int| 0 <= j < pos ==> sorted@[j] > v,
        decreases sorted@.len() - pos,
    {
        pos = pos + 1;
    }
    proof {
        let s = sorted@.insert(pos as int, v);
        sorted@.insert_ensures(pos as int, v);
        assert forall|i: int, j: int| 0 <= i <= j < s.len() implies s[i] >= s[j] by {
            if i < pos && j > pos {
                assert(s[i] == sorted@[i]);
                assert(s[j] == sorted@[j - 1]);
            }
        }
    }
    pos
}

} // verus!
