//! Soundness of the selector's pruning heuristic.
//!
//! The heuristic skips a candidate only when its combo is already within
//! two hundredths of the beatmap's maximum and its original value lies
//! below 94 hundredths of the running tenth-best reconstructed value.
//! Under the premise the heuristic banks on — reconstructing an
//! almost-full-combo play raises its value by less than the factor 50/47 —
//! every skipped candidate stays below ten kept entries, so the pruned
//! run's best five equal the exhaustive run's best five.

use vstd::multiset::Multiset;
use vstd::prelude::*;

use crate::topk::{
    entries_sorted, entry_before, insert_entry, run_entries, spec_insert_pos, spec_p10,
    spec_prune, Candidate, RankedEntry,
};

verus! {

broadcast use vstd::seq_lib::group_to_multiset_ensures, vstd::multiset::group_multiset_axioms;

/// No two entries share a batch position.
pub open spec fn indices_unique(s: Seq<RankedEntry>) -> bool {
    forall|a: int, b: int| 0 <= a < b < s.len() ==> s[a].index != s[b].index
}

/// Every entry's batch position lies below `bound`.
pub open spec fn indices_below(s: Seq<RankedEntry>, bound: int) -> bool {
    forall|j: int| 0 <= j < s.len() ==> s[j].index < bound
}

/// The premise the heuristic banks on: wherever a play's combo is within
/// two hundredths of the maximum, its reconstructed value exceeds its
/// original value by less than the factor 50/47.
pub open spec fn bounded_gain(cands: Seq<Candidate>, vals: Seq<u64>) -> bool {
    forall|j: int|
        0 <= j < cands.len() && 50 * cands[j].play.combo > 49 * cands[j].map.max_combo ==> 47 * (
        #[trigger] vals[j]) <= 50 * cands[j].value
}

/// Entries before the entry position come before the new entry; the entry
/// at the position itself does not.
proof fn lemma_insert_pos_props(s: Seq<RankedEntry>, e: RankedEntry)
    ensures
        0 <= spec_insert_pos(s, e) <= s.len(),
        forall|j: int| 0 <= j < spec_insert_pos(s, e) ==> entry_before(s[j], e),
        spec_insert_pos(s, e) < s.len() ==> !entry_before(s[spec_insert_pos(s, e)], e),
    decreases s.len(),
{
    if s.len() > 0 && entry_before(s[0], e) {
        lemma_insert_pos_props(s.drop_first(), e);
        let pos = spec_insert_pos(s, e);
        assert(pos == 1 + spec_insert_pos(s.drop_first(), e));
        assert forall|j: int| 0 <= j < pos implies entry_before(s[j], e) by {
            if j > 0 {
                assert(s.drop_first()[j - 1] == s[j]);
            }
        }
        if pos < s.len() {
            assert(s.drop_first()[pos - 1] == s[pos]);
        }
    }
}

/// Entering an entry into a sorted sequence keeps it sorted, adds the
/// entry to its contents, never lowers the tenth-best value, and adds no
/// entry beyond the new one.
proof fn lemma_insert_entry_props(s: Seq<RankedEntry>, e: RankedEntry)
    requires
        entries_sorted(s),
    ensures
        entries_sorted(insert_entry(s, e)),
        insert_entry(s, e).len() == s.len() + 1,
        insert_entry(s, e).to_multiset() == s.to_multiset().insert(e),
        spec_p10(insert_entry(s, e)) >= spec_p10(s),
        forall|j: int|
            0 <= j < s.len() + 1 ==> (#[trigger] insert_entry(s, e)[j] == e || s.contains(
                insert_entry(s, e)[j],
            )),
{
    let pos = spec_insert_pos(s, e);
    let t = insert_entry(s, e);
    lemma_insert_pos_props(s, e);
    s.insert_ensures(pos, e);
    assert forall|i: int, j: int| 0 <= i <= j < t.len() implies entry_before(t[i], t[j]) by {
        if i < pos && j > pos {
            assert(t[i] == s[i]);
            assert(t[j] == s[j - 1]);
        }
        if i == pos && j > pos {
            assert(t[j] == s[j - 1]);
            assert(!entry_before(s[pos], e));
            assert(entry_before(s[pos], s[j - 1]));
        }
    }
    assert forall|j: int| 0 <= j < s.len() + 1 implies (#[trigger] t[j] == e || s.contains(
        t[j],
    )) by {
        if j < pos {
            assert(t[j] == s[j]);
        } else if j > pos {
            assert(t[j] == s[j - 1]);
        }
    }
    if s.len() >= 10 {
        if pos < 9 {
            assert(t[9] == s[8]);
            assert(entry_before(s[8], s[9]));
        } else if pos == 9 {
            assert(t[9] == e);
            assert(!entry_before(s[9], e));
        } else {
            assert(t[9] == s[9]);
        }
    }
}

/// Entering an entry with a fresh batch position keeps positions unique
/// and bounded.
proof fn lemma_insert_entry_indices(s: Seq<RankedEntry>, e: RankedEntry, bound: int)
    requires
        entries_sorted(s),
        indices_unique(s),
        indices_below(s, bound),
        e.index < bound,
        forall|j: int| 0 <= j < s.len() ==> s[j].index != e.index,
    ensures
        indices_unique(insert_entry(s, e)),
        indices_below(insert_entry(s, e), bound),
{
    let pos = spec_insert_pos(s, e);
    let t = insert_entry(s, e);
    lemma_insert_pos_props(s, e);
    s.insert_ensures(pos, e);
    assert forall|a: int, b: int| 0 <= a < b < t.len() implies t[a].index != t[b].index by {
        if a < pos && b > pos {
            assert(t[a] == s[a]);
            assert(t[b] == s[b - 1]);
        }
        if a == pos && b > pos {
            assert(t[b] == s[b - 1]);
        }
        if b == pos && a < pos {
            assert(t[a] == s[a]);
        }
    }
    assert forall|j: int| 0 <= j < t.len() implies t[j].index < bound by {
        if j < pos {
            assert(t[j] == s[j]);
        } else if j > pos {
            assert(t[j] == s[j - 1]);
        }
    }
}

/// Every running set is sorted, holds one entry per processed candidate
/// at most, and its batch positions are unique and below the number of
/// candidates processed.
pub proof fn lemma_run_wf(cands: Seq<Candidate>, vals: Seq<u64>, prune: bool, i: int)
    requires
        0 <= i <= usize::MAX,
    ensures
        entries_sorted(run_entries(cands, vals, prune, i)),
        run_entries(cands, vals, prune, i).len() <= i,
        indices_unique(run_entries(cands, vals, prune, i)),
        indices_below(run_entries(cands, vals, prune, i), i),
    decreases i,
{
    if i > 0 {
        lemma_run_wf(cands, vals, prune, i - 1);
        let prev = run_entries(cands, vals, prune, i - 1);
        let e = RankedEntry {
            value: vals[i - 1],
            index: (i - 1) as usize,
            play: crate::topk::spec_reconstructed(cands[i - 1]),
        };
        if !(prune && spec_prune(spec_p10(prev), cands[i - 1])) {
            assert(e.index == i - 1);
            lemma_insert_entry_props(prev, e);
            lemma_insert_entry_indices(prev, e, i);
        }
    }
}

/// The difference of the exhaustive and the pruned run, after `i`
/// candidates: the exhaustive set holds the pruned set plus the skipped
/// entries, and every skipped entry's value lies strictly below the
/// pruned run's tenth-best value, which only exists once ten entries are
/// kept.
proof fn lemma_run_rel(cands: Seq<Candidate>, vals: Seq<u64>, i: int) -> (m: Multiset<RankedEntry>)
    requires
        0 <= i <= cands.len(),
        cands.len() == vals.len(),
        cands.len() <= usize::MAX,
        bounded_gain(cands, vals),
    ensures
        ({
            let f = run_entries(cands, vals, false, i);
            let p = run_entries(cands, vals, true, i);
            &&& f.to_multiset() == p.to_multiset().add(m)
            &&& f.len() == p.len() + m.len()
            &&& (m.len() > 0 ==> p.len() >= 10)
            &&& forall|e: RankedEntry| #[trigger] m.count(e) > 0 ==> (e.value as int) < spec_p10(p)
        }),
    decreases i,
{
    if i == 0 {
        let m = Multiset::<RankedEntry>::empty();
        let f = run_entries(cands, vals, false, 0);
        let p = run_entries(cands, vals, true, 0);
        assert(f.to_multiset() =~= p.to_multiset().add(m));
        m
    } else {
        let m1 = lemma_run_rel(cands, vals, i - 1);
        lemma_run_wf(cands, vals, false, i - 1);
        lemma_run_wf(cands, vals, true, i - 1);
        let f1 = run_entries(cands, vals, false, i - 1);
        let p1 = run_entries(cands, vals, true, i - 1);
        let f = run_entries(cands, vals, false, i);
        let p = run_entries(cands, vals, true, i);
        let e = RankedEntry {
            value: vals[i - 1],
            index: (i - 1) as usize,
            play: crate::topk::spec_reconstructed(cands[i - 1]),
        };
        lemma_insert_entry_props(f1, e);
        if spec_prune(spec_p10(p1), cands[i - 1]) {
            // Skipped: the pruning test only fires once ten entries are
            // kept, and under the bounded-gain premise the skipped entry's
            // value stays below the tenth-best.
            let m = m1.insert(e);
            assert(p == p1);
            assert(p1.len() >= 10) by {
                if p1.len() < 10 {
                    assert(spec_p10(p1) == 0);
                    assert(50 * cands[i - 1].value < 0);
                }
            }
            assert((e.value as int) < spec_p10(p1)) by {
                assert(50 * cands[i - 1].play.combo > 49 * cands[i - 1].map.max_combo);
                assert(47 * vals[i - 1] <= 50 * cands[i - 1].value);
                assert(50 * cands[i - 1].value < 47 * spec_p10(p1));
            }
            assert(f.to_multiset() =~= p.to_multiset().add(m));
            m
        } else {
            let m = m1;
            lemma_insert_entry_props(p1, e);
            assert(p == insert_entry(p1, e));
            assert(f.to_multiset() =~= p.to_multiset().add(m));
            assert(spec_p10(p) >= spec_p10(p1));
            m
        }
    }
}

/// Two sorted sequences whose contents differ by entries all standing
/// strictly below the shorter one's entry at `t - 1` agree on their first
/// `k <= t` entries.
proof fn lemma_sorted_prefix_agree(
    f: Seq<RankedEntry>,
    p: Seq<RankedEntry>,
    m: Multiset<RankedEntry>,
    t: int,
    k: int,
)
    requires
        entries_sorted(f),
        entries_sorted(p),
        indices_unique(f),
        f.to_multiset() == p.to_multiset().add(m),
        0 <= k <= t <= p.len(),
        forall|e: RankedEntry| #[trigger] m.count(e) > 0 ==> t >= 1 && (e.value as int) < (p[t
            - 1].value as int),
    ensures
        f.len() == p.len() + m.len(),
        forall|j: int| 0 <= j < k ==> f[j] == p[j],
    decreases k,
{
    assert(f.to_multiset().len() == f.len());
    assert(p.to_multiset().len() == p.len());
    assert(f.len() == p.len() + m.len());
    if k >= 1 {
        // The first exhaustive entry equals the first kept entry: neither
        // can be a skipped one, since skipped entries stand strictly below
        // the kept entry at t - 1, while the heads stand at or above it.
        assert(p.contains(p[0]));
        assert(f.to_multiset().count(p[0]) > 0);
        assert(f.contains(p[0]));
        let jf = choose|jj: int| 0 <= jj < f.len() && f[jj] == p[0];
        assert(entry_before(f[0], f[jf]));
        assert(f.contains(f[0]));
        assert(f.to_multiset().count(f[0]) > 0);
        if m.count(f[0]) > 0 {
            assert((f[0].value as int) < (p[t - 1].value as int));
            assert(entry_before(p[0], p[t - 1]));
            assert(false);
        }
        assert(p.to_multiset().count(f[0]) > 0);
        assert(p.contains(f[0]));
        let jp = choose|jj: int| 0 <= jj < p.len() && p[jj] == f[0];
        assert(entry_before(p[0], p[jp]));
        assert(f[0].value == p[0].value && f[0].index == p[0].index);
        assert(f[jf].index == f[0].index);
        assert(f[0] == p[0]);
        if k >= 2 {
            let f2 = f.drop_first();
            let p2 = p.drop_first();
            assert(f2 =~= f.remove(0));
            assert(p2 =~= p.remove(0));
            assert(f2.to_multiset() == f.to_multiset().remove(f[0]));
            assert(p2.to_multiset() == p.to_multiset().remove(p[0]));
            assert(f2.to_multiset() =~= p2.to_multiset().add(m));
            assert(forall|a: int| 0 <= a < f2.len() ==> f2[a] == f[a + 1]);
            assert(forall|a: int| 0 <= a < p2.len() ==> p2[a] == p[a + 1]);
            assert(entries_sorted(f2));
            assert(entries_sorted(p2));
            assert(indices_unique(f2));
            assert(p2[t - 2] == p[t - 1]);
            lemma_sorted_prefix_agree(f2, p2, m, t - 1, k - 1);
            assert(forall|j: int| 1 <= j < k ==> f[j] == f2[j - 1] && p[j] == p2[j - 1]);
        }
    }
}

/// Law: the pruning is sound. Under the bounded-gain premise, running the
/// whole batch with the heuristic on yields the same best `k` entries, in
/// the same order, as reconstructing every candidate, for any `k` up to
/// ten.
pub proof fn lemma_pruning_sound(cands: Seq<Candidate>, vals: Seq<u64>, k: int)
    requires
        cands.len() == vals.len(),
        cands.len() <= usize::MAX,
        bounded_gain(cands, vals),
        0 <= k <= 10,
    ensures
        ({
            let f = run_entries(cands, vals, false, cands.len() as int);
            let p = run_entries(cands, vals, true, cands.len() as int);
            let kf = if k <= f.len() {
                k
            } else {
                f.len() as int
            };
            let kp = if k <= p.len() {
                k
            } else {
                p.len() as int
            };
            f.take(kf) == p.take(kp)
        }),
{
    let n = cands.len() as int;
    let f = run_entries(cands, vals, false, n);
    let p = run_entries(cands, vals, true, n);
    let m = lemma_run_rel(cands, vals, n);
    lemma_run_wf(cands, vals, false, n);
    lemma_run_wf(cands, vals, true, n);
    let kf = if k <= f.len() {
        k
    } else {
        f.len() as int
    };
    let kp = if k <= p.len() {
        k
    } else {
        p.len() as int
    };
    if m.len() == 0 {
        // Nothing was skipped: the runs hold the same entries.
        assert(forall|e: RankedEntry| #[trigger] m.count(e) <= 0);
        lemma_sorted_prefix_agree(f, p, m, kp, kp);
        assert(kf == kp);
        assert(f.take(kf) =~= p.take(kp));
    } else {
        // Something was skipped, so ten entries are kept, and every
        // skipped entry stands below the kept tenth: the first ten kept
        // entries are the first ten overall.
        assert(p.len() >= 10);
        assert(spec_p10(p) == p[9].value);
        lemma_sorted_prefix_agree(f, p, m, 10, k);
        assert(kf == k && kp == k);
        assert(f.take(kf) =~= p.take(kp));
    }
}

} // verus!
