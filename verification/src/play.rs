//! Plays, beatmaps and per-mode accuracy.
//!
//! A play is a breakdown of hit outcomes plus the combo it reached; a
//! beatmap states what a perfect play could reach. Each mode judges its
//! own set of categories, and accuracy is the mode's weighted hit-value
//! ratio, in fixed-point ten-thousandths of one percent point times one
//! hundred (so 10000 stands for 100%).

use vstd::prelude::*;

verus! {

/// Full accuracy, in fixed-point units: 10000 stands for 100%.
pub const ACC_MAX: u32 = 10_000;

/// The closed set of game modes.
#[derive(Clone, Copy, PartialEq, Eq, Structural, Debug)]
pub enum GameMode {
    Standard,
    Taiko,
    Catch,
    Mania,
}

/// Hit outcome counts of one play. Categories a mode does not judge are
/// zero in records of that mode.
#[derive(Clone, Copy, PartialEq, Eq, Structural, Debug)]
pub struct HitCounts {
    pub n_geki: u32,
    pub n300: u32,
    pub n_katu: u32,
    pub n100: u32,
    pub n50: u32,
    pub n_miss: u32,
}

/// What a beatmap offers: its maximum achievable combo, its total number
/// of judged objects, and its mode.
#[derive(Clone, Copy, PartialEq, Eq, Structural, Debug)]
pub struct BeatmapStats {
    pub max_combo: u32,
    pub object_count: u32,
    pub mode: GameMode,
}

/// One play: hit counts, achieved maximum combo, mode and modifier flags.
#[derive(Clone, Copy, PartialEq, Eq, Structural, Debug)]
pub struct PlayRecord {
    pub hits: HitCounts,
    pub combo: u32,
    pub mode: GameMode,
    pub mods: u32,
}

/// The number of judged objects a record accounts for: the sum of the
/// categories its mode judges.
pub open spec fn spec_hit_sum(h: HitCounts, mode: GameMode) -> int {
    match mode {
        GameMode::Standard => h.n300 + h.n100 + h.n50 + h.n_miss,
        GameMode::Taiko => h.n300 + h.n100 + h.n_miss,
        GameMode::Catch => h.n300 + h.n100 + h.n50 + h.n_katu + h.n_miss,
        GameMode::Mania => h.n_geki + h.n300 + h.n_katu + h.n100 + h.n50 + h.n_miss,
    }
}

/// A play fits a beatmap: same mode, every object accounted for, combo
/// within what the beatmap offers.
pub open spec fn play_matches(p: PlayRecord, map: BeatmapStats) -> bool {
    &&& p.mode == map.mode
    &&& spec_hit_sum(p.hits, p.mode) == map.object_count
    &&& p.combo <= map.max_combo
}

/// The mode's weighted sum of hit values: each category counts with the
/// score weight its mode gives it.
pub open spec fn spec_acc_num(h: HitCounts, mode: GameMode) -> int {
    match mode {
        GameMode::Standard => 300 * h.n300 + 100 * h.n100 + 50 * h.n50,
        GameMode::Taiko => 300 * h.n300 + 150 * h.n100,
        GameMode::Catch => h.n300 + h.n100 + h.n50,
        GameMode::Mania => 300 * (h.n_geki + h.n300) + 200 * h.n_katu + 100 * h.n100 + 50 * h.n50,
    }
}

/// The mode's worth of a perfect record over the same objects.
pub open spec fn spec_acc_den(h: HitCounts, mode: GameMode) -> int {
    match mode {
        GameMode::Standard => 300 * spec_hit_sum(h, mode),
        GameMode::Taiko => 300 * spec_hit_sum(h, mode),
        GameMode::Catch => spec_hit_sum(h, mode),
        GameMode::Mania => 300 * spec_hit_sum(h, mode),
    }
}

/// Exact fixed-point accuracy of a record under its mode's formula.
pub open spec fn spec_accuracy(h: HitCounts, mode: GameMode) -> int {
    spec_acc_num(h, mode) * ACC_MAX / spec_acc_den(h, mode)
}

impl HitCounts {
    /// The number of judged objects this record accounts for.
    pub fn hit_sum(&self, mode: GameMode) -> (n: u64)
        ensures
            n == spec_hit_sum(*self, mode),
    {
        match mode {
            GameMode::Standard => self.n300 as u64 + self.n100 as u64 + self.n50 as u64
                + self.n_miss as u64,
            GameMode::Taiko => self.n300 as u64 + self.n100 as u64 + self.n_miss as u64,
            GameMode::Catch => self.n300 as u64 + self.n100 as u64 + self.n50 as u64
                + self.n_katu as u64 + self.n_miss as u64,
            GameMode::Mania => self.n_geki as u64 + self.n300 as u64 + self.n_katu as u64
                + self.n100 as u64 + self.n50 as u64 + self.n_miss as u64,
        }
    }

    /// Computes the record's accuracy under its mode's own formula,
    /// in ten-thousandths: 10000 is a perfect record.
    pub fn accuracy(&self, mode: GameMode) -> (acc: u32)
        requires
            spec_hit_sum(*self, mode) >= 1,
        ensures
            acc == spec_accuracy(*self, mode),
            acc <= ACC_MAX,
    {
        let num: u64 = match mode {
            GameMode::Standard => 300 * self.n300 as u64 + 100 * self.n100 as u64 + 50
                * self.n50 as u64,
            GameMode::Taiko => 300 * self.n300 as u64 + 150 * self.n100 as u64,
            GameMode::Catch => self.n300 as u64 + self.n100 as u64 + self.n50 as u64,
            GameMode::Mania => 300 * (self.n_geki as u64 + self.n300 as u64) + 200
                * self.n_katu as u64 + 100 * self.n100 as u64 + 50 * self.n50 as u64,
        };
        let den: u64 = match mode {
            GameMode::Standard => 300 * self.hit_sum(mode),
            GameMode::Taiko => 300 * self.hit_sum(mode),
            GameMode::Catch => self.hit_sum(mode),
            GameMode::Mania => 300 * self.hit_sum(mode),
        };
        proof {
            assert(num <= den);
            assert((num as int) * (ACC_MAX as int) / (den as int) <= ACC_MAX) by (nonlinear_arith)
                requires
                    0 <= num <= den,
                    den >= 1,
            ;
        }
        (num * (ACC_MAX as u64) / den) as u32
    }
}

} // verus!
