use pp_engine::play::{BeatmapStats, GameMode, HitCounts, PlayRecord};
use pp_engine::reconstruct::{simulate, unchoke, ReconstructError, SimulationTarget};

fn hits(n_geki: u32, n300: u32, n_katu: u32, n100: u32, n50: u32, n_miss: u32) -> HitCounts {
    HitCounts { n_geki, n300, n_katu, n100, n50, n_miss }
}

fn mode_sum(h: &HitCounts, mode: GameMode) -> u64 {
    h.hit_sum(mode)
}

#[test]
fn unchoke_identity_on_clean_play() {
    // Already at the maximum combo with no miss: unchoke changes nothing.
    let play = PlayRecord {
        hits: hits(0, 480, 0, 15, 5, 0),
        combo: 700,
        mode: GameMode::Standard,
        mods: 0,
    };
    let map = BeatmapStats { max_combo: 700, object_count: 500, mode: GameMode::Standard };
    assert_eq!(unchoke(&play, &map), play);
    // And unchoking twice equals unchoking once.
    let choked = PlayRecord { combo: 400, hits: hits(0, 470, 0, 15, 5, 10), ..play };
    let once = unchoke(&choked, &map);
    assert_eq!(unchoke(&once, &map), once);
}

#[test]
fn unchoke_scenario_standard() {
    // Combo 450 of 500, three misses: the unchoke reaches combo 500 with
    // no miss, the three misses turned into perfect hits.
    let play = PlayRecord {
        hits: hits(0, 400, 0, 80, 17, 3),
        combo: 450,
        mode: GameMode::Standard,
        mods: 0,
    };
    let map = BeatmapStats { max_combo: 500, object_count: 500, mode: GameMode::Standard };
    let r = unchoke(&play, &map);
    assert_eq!(r.combo, 500);
    assert_eq!(r.hits.n_miss, 0);
    assert_eq!(r.hits.n300, 403);
    assert_eq!(r.hits.n100, 80);
    assert_eq!(r.hits.n50, 17);
    assert_eq!(mode_sum(&r.hits, GameMode::Standard), 500);
}

#[test]
fn unchoke_preserves_counts_all_modes() {
    let cases = [
        (GameMode::Standard, hits(0, 90, 0, 5, 2, 3), 100),
        (GameMode::Taiko, hits(0, 90, 0, 7, 0, 3), 100),
        (GameMode::Catch, hits(0, 80, 10, 5, 2, 3), 100),
        (GameMode::Mania, hits(50, 30, 10, 5, 2, 3), 100),
    ];
    for (mode, h, objects) in cases {
        let play = PlayRecord { hits: h, combo: 60, mode, mods: 0 };
        let map = BeatmapStats { max_combo: 120, object_count: objects, mode };
        let r = unchoke(&play, &map);
        assert_eq!(mode_sum(&r.hits, mode), objects as u64);
        assert_eq!(r.hits.n_miss, 0);
        assert_eq!(r.combo, 120);
        assert!(r.hits.n_miss <= play.hits.n_miss);
    }
}

#[test]
fn unchoke_mania_promotes_to_best_category() {
    let play = PlayRecord {
        hits: hits(50, 30, 10, 5, 2, 3),
        combo: 60,
        mode: GameMode::Mania,
        mods: 0,
    };
    let map = BeatmapStats { max_combo: 120, object_count: 100, mode: GameMode::Mania };
    let r = unchoke(&play, &map);
    assert_eq!(r.hits.n_geki, 53);
    assert_eq!(r.hits.n300, 30);
}

#[test]
fn simulate_unsupported_for_catch() {
    let play = PlayRecord {
        hits: hits(0, 80, 10, 5, 2, 3),
        combo: 60,
        mode: GameMode::Catch,
        mods: 0,
    };
    let map = BeatmapStats { max_combo: 120, object_count: 100, mode: GameMode::Catch };
    let target = SimulationTarget { accuracy: Some(9500), combo: None, misses: None };
    assert_eq!(simulate(&play, &map, &target), Err(ReconstructError::ModeUnsupported));
}

#[test]
fn simulate_standard_meets_targets() {
    let play = PlayRecord {
        hits: hits(0, 900, 0, 80, 10, 10),
        combo: 800,
        mode: GameMode::Standard,
        mods: 0,
    };
    let map = BeatmapStats { max_combo: 1000, object_count: 1000, mode: GameMode::Standard };
    let target = SimulationTarget { accuracy: Some(9500), combo: Some(900), misses: Some(5) };
    let r = simulate(&play, &map, &target).unwrap();
    assert_eq!(r.combo, 900);
    assert_eq!(r.hits.n_miss, 5);
    assert_eq!(mode_sum(&r.hits, GameMode::Standard), 1000);
    // The solved distribution lands on the requested accuracy, up to the
    // one-count granularity of the middle category.
    let acc = r.hits.accuracy(GameMode::Standard);
    assert!((9500 - 10..=9500 + 10).contains(&(acc as i64)));
}

#[test]
fn simulate_taiko_meets_targets() {
    let play = PlayRecord {
        hits: hits(0, 450, 0, 40, 0, 10),
        combo: 300,
        mode: GameMode::Taiko,
        mods: 0,
    };
    let map = BeatmapStats { max_combo: 500, object_count: 500, mode: GameMode::Taiko };
    let target = SimulationTarget { accuracy: Some(9000), combo: None, misses: Some(0) };
    let r = simulate(&play, &map, &target).unwrap();
    assert_eq!(r.hits.n_miss, 0);
    assert_eq!(r.combo, 500);
    assert_eq!(mode_sum(&r.hits, GameMode::Taiko), 500);
    let acc = r.hits.accuracy(GameMode::Taiko);
    assert!((9000 - 10..=9000 + 10).contains(&(acc as i64)));
}

#[test]
fn simulate_mania_meets_targets() {
    let play = PlayRecord {
        hits: hits(400, 50, 20, 10, 10, 10),
        combo: 300,
        mode: GameMode::Mania,
        mods: 0,
    };
    let map = BeatmapStats { max_combo: 600, object_count: 500, mode: GameMode::Mania };
    let target = SimulationTarget { accuracy: Some(9700), combo: None, misses: Some(2) };
    let r = simulate(&play, &map, &target).unwrap();
    assert_eq!(r.hits.n_miss, 2);
    assert_eq!(mode_sum(&r.hits, GameMode::Mania), 500);
    let acc = r.hits.accuracy(GameMode::Mania);
    assert!((9700 - 10..=9700 + 10).contains(&(acc as i64)));
}

#[test]
fn simulate_never_adds_misses() {
    let play = PlayRecord {
        hits: hits(0, 95, 0, 2, 0, 3),
        combo: 60,
        mode: GameMode::Standard,
        mods: 0,
    };
    let map = BeatmapStats { max_combo: 120, object_count: 100, mode: GameMode::Standard };
    let target = SimulationTarget { accuracy: None, combo: None, misses: Some(10) };
    let r = simulate(&play, &map, &target).unwrap();
    assert_eq!(r.hits.n_miss, 3);
}

#[test]
fn simulate_without_accuracy_keeps_distribution() {
    let play = PlayRecord {
        hits: hits(0, 90, 0, 5, 0, 5),
        combo: 60,
        mode: GameMode::Standard,
        mods: 0,
    };
    let map = BeatmapStats { max_combo: 120, object_count: 100, mode: GameMode::Standard };
    let target = SimulationTarget { accuracy: None, combo: Some(100), misses: Some(2) };
    let r = simulate(&play, &map, &target).unwrap();
    assert_eq!(r.combo, 100);
    assert_eq!(r.hits.n_miss, 2);
    assert_eq!(r.hits.n300, 93);
    assert_eq!(r.hits.n100, 5);
    assert_eq!(mode_sum(&r.hits, GameMode::Standard), 100);
}

#[test]
fn simulate_clamps_combo_to_map_maximum() {
    let play = PlayRecord {
        hits: hits(0, 95, 0, 2, 0, 3),
        combo: 60,
        mode: GameMode::Standard,
        mods: 0,
    };
    let map = BeatmapStats { max_combo: 120, object_count: 100, mode: GameMode::Standard };
    let target = SimulationTarget { accuracy: None, combo: Some(999), misses: None };
    let r = simulate(&play, &map, &target).unwrap();
    assert_eq!(r.combo, 120);
}

#[test]
fn accuracy_formulas_are_mode_specific() {
    // Standard: (300*9 + 100*1) / (300*10) = 93.33%.
    let std = hits(0, 9, 0, 1, 0, 0);
    assert_eq!(std.accuracy(GameMode::Standard), 9333);
    // Taiko: (300*8 + 150*1) / (300*10) = 85.00%.
    let tko = hits(0, 8, 0, 1, 0, 1);
    assert_eq!(tko.accuracy(GameMode::Taiko), 8500);
    // Catch: 9 caught of 10 judged = 90.00%.
    let ctb = hits(0, 7, 1, 1, 1, 0);
    assert_eq!(ctb.accuracy(GameMode::Catch), 9000);
    // Mania: (300*(5+3) + 200*1 + 100*1) / (300*10) = 90.00%.
    let mna = hits(5, 3, 1, 1, 0, 0);
    assert_eq!(mna.accuracy(GameMode::Mania), 9000);
    // A perfect record is 100% in every mode.
    assert_eq!(hits(0, 10, 0, 0, 0, 0).accuracy(GameMode::Standard), 10000);
    assert_eq!(hits(0, 10, 0, 0, 0, 0).accuracy(GameMode::Taiko), 10000);
    assert_eq!(hits(0, 10, 0, 0, 0, 0).accuracy(GameMode::Catch), 10000);
    assert_eq!(hits(10, 0, 0, 0, 0, 0).accuracy(GameMode::Mania), 10000);
}
