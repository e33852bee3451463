//! Selecting the best reconstructed plays of a batch.
//!
//! Candidates are processed in batch order. Each one is either pruned by a
//! heuristic — an almost-full-combo play whose original value already sits
//! far below the running tenth-best reconstructed value cannot plausibly
//! reach the top — or reconstructed and scored, its entry kept in a running
//! set ordered by value, ties broken by batch order. The best `k` entries
//! come out in that order.

use vstd::prelude::*;

use crate::play::{play_matches, BeatmapStats, PlayRecord};
use crate::reconstruct::spec_unchoked_hits;
use crate::reconstruct::unchoke;

verus! {

/// One batch item: a play, the beatmap it was played on, and the play's
/// original performance value in fixed-point units.
#[derive(Clone, Copy, PartialEq, Eq, Structural, Debug)]
pub struct Candidate {
    pub play: PlayRecord,
    pub map: BeatmapStats,
    pub value: u64,
}

/// One kept result: the reconstructed value, the candidate's batch
/// position, and the reconstructed play itself.
#[derive(Clone, Copy, PartialEq, Eq, Structural, Debug)]
pub struct RankedEntry {
    pub value: u64,
    pub index: usize,
    pub play: PlayRecord,
}

/// The running order: higher value first, earlier batch position first
/// among equal values.
pub open spec fn entry_before(a: RankedEntry, b: RankedEntry) -> bool {
    a.value > b.value || (a.value == b.value && a.index <= b.index)
}

/// Every earlier entry of the sequence comes before every later one.
pub open spec fn entries_sorted(s: Seq<RankedEntry>) -> bool {
    forall|i: int, j: int| 0 <= i <= j < s.len() ==> entry_before(s[i], s[j])
}

/// The running tenth-best reconstructed value; zero while fewer than ten
/// entries are in.
pub open spec fn spec_p10(s: Seq<RankedEntry>) -> int {
    if s.len() >= 10 {
        s[9].value as int
    } else {
        0
    }
}

/// The pruning rule: combo ratio strictly above 98 hundredths, and the
/// original value strictly below 94 hundredths of the running tenth-best.
pub open spec fn spec_prune(p10: int, c: Candidate) -> bool {
    &&& 50 * c.play.combo > 49 * c.map.max_combo
    &&& 50 * c.value < 47 * p10
}

/// The play a candidate's reconstruction settles on: the play itself when
/// it is already clean (maximum combo, no miss), else its unchoke.
pub open spec fn spec_reconstructed(c: Candidate) -> PlayRecord {
    if c.play.combo == c.map.max_combo && c.play.hits.n_miss == 0 {
        c.play
    } else {
        PlayRecord {
            hits: spec_unchoked_hits(c.play.hits, c.play.mode),
            combo: c.map.max_combo,
            mode: c.play.mode,
            mods: c.play.mods,
        }
    }
}

/// Length of the leading run of entries that come before `e`: where `e`
/// enters a sorted sequence.
pub open spec fn spec_insert_pos(s: Seq<RankedEntry>, e: RankedEntry) -> int
    decreases s.len(),
{
    if s.len() == 0 {
        0
    } else if entry_before(s[0], e) {
        1 + spec_insert_pos(s.drop_first(), e)
    } else {
        0
    }
}

/// A sorted sequence with `e` entered at its position.
pub open spec fn insert_entry(s: Seq<RankedEntry>, e: RankedEntry) -> Seq<RankedEntry> {
    s.insert(spec_insert_pos(s, e), e)
}

/// The running set after the first `i` candidates, pruning applied when
/// `prune` is set: a pruned candidate leaves no entry; any other leaves
/// its entry at its sorted position.
pub open spec fn run_entries(cands: Seq<Candidate>, vals: Seq<u64>, prune: bool, i: int) -> Seq<
    RankedEntry,
>
    decreases i,
{
    if i <= 0 {
        Seq::empty()
    } else {
        let prev = run_entries(cands, vals, prune, i - 1);
        if prune && spec_prune(spec_p10(prev), cands[i - 1]) {
            prev
        } else {
            insert_entry(
                prev,
                RankedEntry {
                    value: vals[i - 1],
                    index: (i - 1) as usize,
                    play: spec_reconstructed(cands[i - 1]),
                },
            )
        }
    }
}

/// The running set of scored candidates, ordered by value and batch
/// position.
pub struct TopKState {
    pub entries: Vec<RankedEntry>,
}

impl TopKState {
    /// The set is sorted by value, ties by batch position.
    pub open spec fn wf(self) -> bool {
        entries_sorted(self.entries@)
    }

    /// An empty running set.
    pub fn new() -> (s: TopKState)
        ensures
            s.wf(),
            s.entries@ == Seq::<RankedEntry>::empty(),
    {
        TopKState { entries: Vec::new() }
    }

    /// The running tenth-best value, zero while fewer than ten are in.
    pub fn p10(&self) -> (v: u64)
        ensures
            v == spec_p10(self.entries@),
    {
        if self.entries.len() >= 10 {
            self.entries[9].value
        } else {
            0
        }
    }

    /// Whether the heuristic would skip this candidate now.
    pub fn should_prune(&self, c: &Candidate) -> (r: bool)
        ensures
            r == spec_prune(spec_p10(self.entries@), *c),
    {
        let near_full = 50 * (c.play.combo as u64) > 49 * (c.map.max_combo as u64);
        let below = 50 * (c.value as u128) < 47 * (self.p10() as u128);
        near_full && below
    }

    /// Enters a scored result at its position in the running order.
    pub fn record(&mut self, value: u64, index: usize, play: PlayRecord)
        requires
            old(self).wf(),
        ensures
            final(self).wf(),
            final(self).entries@ == insert_entry(
                old(self).entries@,
                RankedEntry { value, index, play },
            ),
    {
        let e = RankedEntry { value, index, play };
        let mut pos: usize = 0;
        while pos < self.entries.len() && (self.entries[pos].value > value || (
        self.entries[pos].value == value && self.entries[pos].index <= index))
            invariant
                pos <= self.entries@.len(),
                self.wf(),
                e == (RankedEntry { value, index, play }),
                forall|j: int| 0 <= j < pos ==> entry_before(self.entries@[j], e),
            decreases self.entries@.len() - pos,
        {
            pos = pos + 1;
        }
        proof {
            lemma_insert_pos_is_prefix_run(self.entries@, e, pos as int);
            let s = self.entries@.insert(pos as int, e);
            self.entries@.insert_ensures(pos as int, e);
            assert forall|i: int, j: int| 0 <= i <= j < s.len() implies entry_before(
                s[i],
                s[j],
            ) by {
                if i < pos && j > pos {
                    assert(s[i] == self.entries@[i]);
                    assert(s[j] == self.entries@[j - 1]);
                }
                if i == pos && pos <= j && j < s.len() && j > pos {
                    // The entry at the position itself comes before every
                    // displaced one: the loop stopped on the first entry
                    // not before `e`.
                    assert(s[j] == self.entries@[j - 1]);
                    assert(!entry_before(self.entries@[pos as int], e));
                    assert(entry_before(self.entries@[pos as int], self.entries@[j - 1]));
                }
            }
        }
        self.entries.insert(pos, e);
    }

    /// The best `k` entries, in order; fewer when fewer are in.
    pub fn top(&self, k: usize) -> (r: Vec<RankedEntry>)
        requires
            self.wf(),
        ensures
            r@ == self.entries@.take(
                if k <= self.entries@.len() {
                    k as int
                } else {
                    self.entries@.len() as int
                },
            ),
            r@.len() <= k,
            r@.len() <= self.entries@.len(),
            entries_sorted(r@),
    {
        let n = if k <= self.entries.len() {
            k
        } else {
            self.entries.len()
        };
        let mut r: Vec<RankedEntry> = Vec::new();
        let mut i: usize = 0;
        while i < n
            invariant
                i <= n,
                n <= self.entries@.len(),
                r@ == self.entries@.take(i as int),
            decreases n - i,
        {
            let e = self.entries[i];
            r.push(e);
            proof {
                assert(r@ =~= self.entries@.take(i + 1));
            }
            i = i + 1;
        }
        r
    }
}

/// Law: the selected entries come out strictly descending by value
/// wherever no two of them earned the same value; among equal values the
/// order is the batch order, so the sequence is strictly descending in
/// the pair (value, batch position).
pub proof fn lemma_top_strictly_descending(s: Seq<RankedEntry>)
    requires
        entries_sorted(s),
        forall|a: int, b: int| 0 <= a < b < s.len() ==> s[a].value != s[b].value,
    ensures
        forall|a: int, b: int| 0 <= a < b < s.len() ==> s[a].value > s[b].value,
{
    assert forall|a: int, b: int| 0 <= a < b < s.len() implies s[a].value > s[b].value by {
        assert(entry_before(s[a], s[b]));
    }
}

/// The entry position lies within the sequence.
pub proof fn lemma_insert_pos_range(s: Seq<RankedEntry>, e: RankedEntry)
    ensures
        0 <= spec_insert_pos(s, e) <= s.len(),
    decreases s.len(),
{
    if s.len() > 0 && entry_before(s[0], e) {
        lemma_insert_pos_range(s.drop_first(), e);
    }
}

/// The entry position really is the length of the leading run of entries
/// before `e`.
proof fn lemma_insert_pos_is_prefix_run(s: Seq<RankedEntry>, e: RankedEntry, p: int)
    requires
        0 <= p <= s.len(),
        forall|j: int| 0 <= j < p ==> entry_before(s[j], e),
        p < s.len() ==> !entry_before(s[p], e),
    ensures
        spec_insert_pos(s, e) == p,
    decreases s.len(),
{
    if s.len() > 0 {
        if p == 0 {
        } else {
            assert(entry_before(s[0], e));
            lemma_insert_pos_is_prefix_run(s.drop_first(), e, p - 1);
        }
    }
}

/// Runs the whole batch: candidate `i` is scored with `values[i]` (the
/// value its reconstruction earns), pruned candidates are skipped when
/// `prune` is set, and the best `k` results come out in order. A pruned
/// candidate's value is never consulted.
pub fn top_k(cands: &Vec<Candidate>, values: &Vec<u64>, k: usize, prune: bool) -> (r: Vec<
    RankedEntry,
>)
    requires
        cands@.len() == values@.len(),
        forall|i: int| 0 <= i < cands@.len() ==> play_matches(cands@[i].play, cands@[i].map),
    ensures
        ({
            let full = run_entries(cands@, values@, prune, cands@.len() as int);
            r@ == full.take(
                if k <= full.len() {
                    k as int
                } else {
                    full.len() as int
                },
            )
        }),
        r@.len() <= k,
        r@.len() <= cands@.len(),
        entries_sorted(r@),
{
    let mut state = TopKState::new();
    let mut i: usize = 0;
    proof {
        assert(state.entries@ =~= run_entries(cands@, values@, prune, 0));
    }
    while i < cands.len()
        invariant
            i <= cands@.len(),
            cands@.len() == values@.len(),
            forall|j: int| 0 <= j < cands@.len() ==> play_matches(cands@[j].play, cands@[j].map),
            state.wf(),
            state.entries@ == run_entries(cands@, values@, prune, i as int),
            state.entries@.len() <= i,
        decreases cands@.len() - i,
    {
        let c = &cands[i];
        if prune && state.should_prune(c) {
            // Skipped: the heuristic rules this candidate out of the top.
        } else {
            let rec = if c.play.combo == c.map.max_combo && c.play.hits.n_miss == 0 {
                c.play
            } else {
                unchoke(&c.play, &c.map)
            };
            assert(rec == spec_reconstructed(cands@[i as int]));
            let ghost before = state.entries@;
            state.record(values[i], i, rec);
            proof {
                let e = RankedEntry { value: values@[i as int], index: i, play: rec };
                lemma_insert_pos_range(before, e);
                before.insert_ensures(spec_insert_pos(before, e), e);
            }
        }
        i = i + 1;
    }
    state.top(k)
}

} // verus!
