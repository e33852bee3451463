use pp_engine::play::{BeatmapStats, GameMode, HitCounts, PlayRecord};
use pp_engine::topk::{top_k, Candidate, TopKState};

fn candidate(combo: u32, max_combo: u32, misses: u32, value: u64) -> Candidate {
    let objects = 100;
    let hits = HitCounts {
        n_geki: 0,
        n300: objects - misses,
        n_katu: 0,
        n100: 0,
        n50: 0,
        n_miss: misses,
    };
    Candidate {
        play: PlayRecord { hits, combo, mode: GameMode::Standard, mods: 0 },
        map: BeatmapStats { max_combo, object_count: objects, mode: GameMode::Standard },
        value,
    }
}

#[test]
fn top_k_never_exceeds_min_of_k_and_batch() {
    let cands: Vec<Candidate> = (0..7u64).map(|i| candidate(50, 100, 1, 1000 + i)).collect();
    let values: Vec<u64> = cands.iter().map(|c| c.value + 50).collect();
    let r = top_k(&cands, &values, 5, false);
    assert_eq!(r.len(), 5);
    let few: Vec<Candidate> = cands[..3].to_vec();
    let few_values: Vec<u64> = values[..3].to_vec();
    let r = top_k(&few, &few_values, 5, false);
    assert_eq!(r.len(), 3);
}

#[test]
fn top_k_descending_by_value() {
    let cands: Vec<Candidate> = vec![
        candidate(50, 100, 1, 900),
        candidate(50, 100, 1, 1200),
        candidate(50, 100, 1, 700),
        candidate(50, 100, 1, 1500),
        candidate(50, 100, 1, 1100),
        candidate(50, 100, 1, 800),
    ];
    let values: Vec<u64> = cands.iter().map(|c| c.value + 100).collect();
    let r = top_k(&cands, &values, 5, false);
    assert_eq!(r.len(), 5);
    for w in r.windows(2) {
        assert!(w[0].value > w[1].value);
    }
    assert_eq!(r[0].value, 1600);
}

#[test]
fn top_k_ties_keep_batch_order() {
    let cands: Vec<Candidate> = vec![
        candidate(50, 100, 1, 1000),
        candidate(50, 100, 1, 1000),
        candidate(50, 100, 1, 1000),
    ];
    let values: Vec<u64> = vec![1000, 1000, 1000];
    let r = top_k(&cands, &values, 5, false);
    assert_eq!(r.len(), 3);
    assert_eq!(r[0].index, 0);
    assert_eq!(r[1].index, 1);
    assert_eq!(r[2].index, 2);
}

#[test]
fn top_k_records_reconstructed_play() {
    let cands = vec![candidate(50, 100, 2, 1000)];
    let values = vec![1100];
    let r = top_k(&cands, &values, 5, false);
    assert_eq!(r.len(), 1);
    assert_eq!(r[0].play.combo, 100);
    assert_eq!(r[0].play.hits.n_miss, 0);
    assert_eq!(r[0].value, 1100);
}

#[test]
fn pruned_run_equals_exhaustive_run() {
    // Ten strong candidates first, then one almost-full-combo play far
    // below the running tenth-best, then one more strong play. With the
    // unchoke gaining under the heuristic's factor, both runs agree.
    let mut cands: Vec<Candidate> = Vec::new();
    let mut values: Vec<u64> = Vec::new();
    for i in 0..10u64 {
        cands.push(candidate(60, 100, 2, 5000 + 100 * i));
        values.push(5100 + 100 * i);
    }
    // Combo 99 of 100 (ratio 0.99) and value 100, far below 0.94 * p10;
    // its reconstructed value gains about 4 percent.
    cands.push(candidate(99, 100, 1, 100));
    values.push(104);
    cands.push(candidate(70, 100, 3, 7000));
    values.push(7500);
    let pruned = top_k(&cands, &values, 5, true);
    let exhaustive = top_k(&cands, &values, 5, false);
    assert_eq!(pruned.len(), exhaustive.len());
    for (a, b) in pruned.iter().zip(exhaustive.iter()) {
        assert_eq!(a.value, b.value);
        assert_eq!(a.index, b.index);
        assert_eq!(a.play, b.play);
    }
}

#[test]
fn should_prune_needs_both_conditions() {
    let mut state = TopKState::new();
    let clean = PlayRecord {
        hits: HitCounts { n_geki: 0, n300: 100, n_katu: 0, n100: 0, n50: 0, n_miss: 0 },
        combo: 100,
        mode: GameMode::Standard,
        mods: 0,
    };
    for i in 0..10u64 {
        state.record(10_000 + i, i as usize, clean);
    }
    // The tenth-best value is 10000.
    assert_eq!(state.p10(), 10_000);
    // Near-full combo and value below 94 hundredths of the tenth-best.
    assert!(state.should_prune(&candidate(99, 100, 1, 9000)));
    // Near-full combo but a value above the threshold.
    assert!(!state.should_prune(&candidate(99, 100, 1, 9600)));
    // Low value but a combo far from the maximum.
    assert!(!state.should_prune(&candidate(60, 100, 1, 9000)));
}

#[test]
fn p10_is_zero_before_ten_entries() {
    let mut state = TopKState::new();
    let clean = PlayRecord {
        hits: HitCounts { n_geki: 0, n300: 100, n_katu: 0, n100: 0, n50: 0, n_miss: 0 },
        combo: 100,
        mode: GameMode::Standard,
        mods: 0,
    };
    for i in 0..9u64 {
        state.record(10_000 + i, i as usize, clean);
        assert_eq!(state.p10(), 0);
        // With no tenth-best yet, nothing is ever pruned.
        assert!(!state.should_prune(&candidate(99, 100, 1, 0)));
    }
}

#[test]
fn state_top_returns_prefix_in_order() {
    let mut state = TopKState::new();
    let clean = PlayRecord {
        hits: HitCounts { n_geki: 0, n300: 100, n_katu: 0, n100: 0, n50: 0, n_miss: 0 },
        combo: 100,
        mode: GameMode::Standard,
        mods: 0,
    };
    state.record(500, 0, clean);
    state.record(900, 1, clean);
    state.record(700, 2, clean);
    let top = state.top(2);
    assert_eq!(top.len(), 2);
    assert_eq!(top[0].value, 900);
    assert_eq!(top[1].value, 700);
}
