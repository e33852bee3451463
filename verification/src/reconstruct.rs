//! Reconstructing a hypothetical clean play.
//!
//! `unchoke` turns a play into the full-combo play it would have been had
//! no miss broken the combo: the combo rises to the beatmap's maximum and
//! every miss moves into the mode's best hit category. `simulate` instead
//! follows a caller's explicit targets for accuracy, combo and misses,
//! solving for a hit distribution that meets them over the beatmap's
//! object count. Both keep every object accounted for and never add a
//! miss; one mode supports only the plain unchoke.

use vstd::prelude::*;

use crate::play::{
    play_matches, spec_hit_sum, BeatmapStats, GameMode, HitCounts, PlayRecord, ACC_MAX,
};

verus! {

/// Failure of a targeted reconstruction.
#[derive(Clone, Copy, PartialEq, Eq, Structural, Debug)]
pub enum ReconstructError {
    /// The play's mode cannot be steered toward a target; only the plain
    /// unchoke applies to it.
    ModeUnsupported,
}

/// Caller overrides steering a reconstruction: a desired accuracy (in
/// ten-thousandths, at most 10000), a desired combo, a desired miss count.
/// An absent field leaves the play's own value in charge.
#[derive(Clone, Copy, PartialEq, Eq, Structural, Debug)]
pub struct SimulationTarget {
    pub accuracy: Option<u32>,
    pub combo: Option<u32>,
    pub misses: Option<u32>,
}

/// The mode's best hit category, grown by the removed misses: every mode
/// promotes misses to perfect hits; the combo-judgement mode's perfect
/// category is its own.
pub open spec fn spec_unchoked_hits(h: HitCounts, mode: GameMode) -> HitCounts {
    match mode {
        GameMode::Mania => HitCounts { n_geki: (h.n_geki + h.n_miss) as u32, n_miss: 0, ..h },
        _ => HitCounts { n300: (h.n300 + h.n_miss) as u32, n_miss: 0, ..h },
    }
}

/// Reconstructs the play as a clean full-combo play: combo at the
/// beatmap's maximum, misses moved into the mode's best hit category.
/// A play already at the maximum combo with no miss comes back unchanged.
pub fn unchoke(play: &PlayRecord, map: &BeatmapStats) -> (r: PlayRecord)
    requires
        play_matches(*play, *map),
    ensures
        r.hits == spec_unchoked_hits(play.hits, play.mode),
        r.combo == map.max_combo,
        r.mode == play.mode,
        r.mods == play.mods,
        r.hits.n_miss == 0,
        spec_hit_sum(r.hits, r.mode) == map.object_count,
        r.hits.n_miss <= play.hits.n_miss,
        r.combo <= map.max_combo,
        play.combo == map.max_combo && play.hits.n_miss == 0 ==> r == *play,
        play_matches(r, *map),
{
    let mut hits = play.hits;
    match play.mode {
        GameMode::Mania => {
            hits.n_geki = hits.n_geki + hits.n_miss;
        },
        _ => {
            hits.n300 = hits.n300 + hits.n_miss;
        },
    }
    hits.n_miss = 0;
    PlayRecord { hits, combo: map.max_combo, mode: play.mode, mods: play.mods }
}

/// The two reconstructions agree on what they preserve: `unchoke` is one
/// point of it, `simulate` the other. The solved middle-category count for
/// a target accuracy `acc` over `objects` objects with `misses` misses,
/// before clamping: the exact linear solve of the mode's accuracy formula
/// with the weakest judged category left empty.
pub open spec fn spec_solved_mid(mode: GameMode, objects: int, misses: int, acc: int) -> int {
    match mode {
        GameMode::Taiko => (2 * objects * (ACC_MAX - acc) - 2 * ACC_MAX * misses) / (ACC_MAX as int),
        _ => (6 * objects * (ACC_MAX - acc) - 6 * ACC_MAX * misses) / (4 * ACC_MAX),
    }
}

/// The hit distribution a targeted simulation settles on: `kept` misses
/// stay, the middle category takes the clamped accuracy solve, and the
/// mode's best category absorbs the rest of the objects.
pub open spec fn spec_simulated_hits(
    mode: GameMode,
    objects: int,
    kept_misses: int,
    mid: int,
) -> HitCounts {
    match mode {
        GameMode::Mania => HitCounts {
            n_geki: (objects - kept_misses - mid) as u32,
            n300: 0,
            n_katu: 0,
            n100: mid as u32,
            n50: 0,
            n_miss: kept_misses as u32,
        },
        _ => HitCounts {
            n_geki: 0,
            n300: (objects - kept_misses - mid) as u32,
            n_katu: 0,
            n100: mid as u32,
            n50: 0,
            n_miss: kept_misses as u32,
        },
    }
}

/// Reconstructs the play toward the caller's targets.
///
/// The kept miss count is the requested one, but never above the play's
/// own (reconstruction removes misses, never adds them); the combo is the
/// requested one, but never above the beatmap's maximum (absent a request
/// it is the maximum itself). With a target accuracy the middle hit
/// category takes the exact solve of the mode's accuracy formula, clamped
/// to the objects left, and the best category absorbs the remainder;
/// without one the play keeps its own distribution, misses promoted as in
/// `unchoke`. The catch mode supports no targeted reconstruction.
pub fn simulate(play: &PlayRecord, map: &BeatmapStats, target: &SimulationTarget) -> (r: Result<
    PlayRecord,
    ReconstructError,
>)
    requires
        play_matches(*play, *map),
        target.accuracy matches Some(a) ==> a <= ACC_MAX,
    ensures
        r is Err <==> play.mode == GameMode::Catch,
        r matches Ok(rec) ==> {
            let kept = match target.misses {
                Some(m) => if m <= play.hits.n_miss {
                    m as int
                } else {
                    play.hits.n_miss as int
                },
                None => play.hits.n_miss as int,
            };
            &&& rec.mode == play.mode
            &&& rec.mods == play.mods
            &&& spec_hit_sum(rec.hits, rec.mode) == map.object_count
            &&& rec.hits.n_miss == kept
            &&& rec.hits.n_miss <= play.hits.n_miss
            &&& rec.combo <= map.max_combo
            &&& (target.combo matches Some(c) ==> rec.combo == if c <= map.max_combo {
                c as int
            } else {
                map.max_combo as int
            })
            &&& (target.combo is None ==> rec.combo == map.max_combo)
            &&& (target.accuracy matches Some(a) ==> rec.hits == spec_simulated_hits(
                play.mode,
                map.object_count as int,
                kept,
                clamped_mid(play.mode, map.object_count as int, kept, a as int),
            ))
            &&& (target.accuracy is None ==> rec.hits == HitCounts {
                n_miss: kept as u32,
                ..spec_unchoked_hits(
                    HitCounts { n_miss: (play.hits.n_miss - kept) as u32, ..play.hits },
                    play.mode,
                )
            })
            &&& play_matches(rec, *map)
        },
{
    match play.mode {
        GameMode::Catch => {
            return Err(ReconstructError::ModeUnsupported);
        },
        _ => {},
    }
    let kept: u32 = match target.misses {
        Some(m) => {
            if m <= play.hits.n_miss {
                m
            } else {
                play.hits.n_miss
            }
        },
        None => play.hits.n_miss,
    };
    let combo: u32 = match target.combo {
        Some(c) => {
            if c <= map.max_combo {
                c
            } else {
                map.max_combo
            }
        },
        None => map.max_combo,
    };
    let hits: HitCounts = match target.accuracy {
        Some(a) => {
            let objects: u64 = map.object_count as u64;
            let kept64: u64 = kept as u64;
            let acc64: u64 = a as u64;
            proof {
                // Each product stays far under the machine word: counts fit
                // a 32-bit word and the accuracy factor is at most 10000.
                assert(6 * objects * ((ACC_MAX as u64) - acc64) <= 6 * 0xFFFF_FFFFu64 * 10_000
                    && 2 * objects * ((ACC_MAX as u64) - acc64) <= 2 * 0xFFFF_FFFFu64 * 10_000
                    && 6 * (ACC_MAX as u64) * kept64 <= 6 * 10_000 * 0xFFFF_FFFFu64 && 2 * (
                ACC_MAX as u64) * kept64 <= 2 * 10_000 * 0xFFFF_FFFFu64) by (nonlinear_arith)
                    requires
                        objects <= 0xFFFF_FFFFu64,
                        kept64 <= 0xFFFF_FFFFu64,
                        acc64 <= ACC_MAX,
                ;
            }
            let shortfall: u64 = match play.mode {
                GameMode::Taiko => 2 * objects * ((ACC_MAX as u64) - acc64),
                _ => 6 * objects * ((ACC_MAX as u64) - acc64),
            };
            let miss_part: u64 = match play.mode {
                GameMode::Taiko => 2 * (ACC_MAX as u64) * kept64,
                _ => 6 * (ACC_MAX as u64) * kept64,
            };
            let raw: u64 = if shortfall >= miss_part {
                match play.mode {
                    GameMode::Taiko => (shortfall - miss_part) / (ACC_MAX as u64),
                    _ => (shortfall - miss_part) / (4 * (ACC_MAX as u64)),
                }
            } else {
                0
            };
            let room: u64 = objects - kept64;
            let mid: u32 = if raw <= room {
                raw as u32
            } else {
                room as u32
            };
            proof {
                lemma_clamped_mid_fits(
                    play.mode,
                    map.object_count as int,
                    kept as int,
                    a as int,
                );
            }
            let best: u32 = map.object_count - kept - mid;
            match play.mode {
                GameMode::Mania => HitCounts {
                    n_geki: best,
                    n300: 0,
                    n_katu: 0,
                    n100: mid,
                    n50: 0,
                    n_miss: kept,
                },
                _ => HitCounts {
                    n_geki: 0,
                    n300: best,
                    n_katu: 0,
                    n100: mid,
                    n50: 0,
                    n_miss: kept,
                },
            }
        },
        None => {
            let removed: u32 = play.hits.n_miss - kept;
            let mut hits = play.hits;
            match play.mode {
                GameMode::Mania => {
                    hits.n_geki = hits.n_geki + removed;
                },
                _ => {
                    hits.n300 = hits.n300 + removed;
                },
            }
            hits.n_miss = kept;
            hits
        },
    };
    Ok(PlayRecord { hits, combo, mode: play.mode, mods: play.mods })
}

/// The accuracy solve after clamping into the objects left over the kept
/// misses: never negative, never past the remaining objects.
pub open spec fn clamped_mid(mode: GameMode, objects: int, kept_misses: int, acc: int) -> int {
    let raw = spec_solved_mid(mode, objects, kept_misses, acc);
    let lower = if raw >= 0 {
        raw
    } else {
        0
    };
    if lower <= objects - kept_misses {
        lower
    } else {
        objects - kept_misses
    }
}

/// The clamped solve leaves a well-formed distribution: the middle and
/// best categories both fit the objects left.
proof fn lemma_clamped_mid_fits(mode: GameMode, objects: int, kept_misses: int, acc: int)
    requires
        0 <= kept_misses <= objects,
        0 <= acc <= ACC_MAX,
    ensures
        0 <= clamped_mid(mode, objects, kept_misses, acc),
        clamped_mid(mode, objects, kept_misses, acc) <= objects - kept_misses,
{
}

} // verus!
