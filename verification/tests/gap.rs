use pp_engine::gap::{gap_to_target, gap_to_target_checked, total_with_new_value, GapError, GapOutcome};
use pp_engine::weighted_list::WeightedList;

const SCALE: u128 = 1_000_000_000_000;
const CAPACITY: usize = 100;

/// The scaled per-rank weights, as the engine computes them.
fn weights(n: usize) -> Vec<u128> {
    let mut ws = Vec::new();
    let mut w: u128 = SCALE;
    for _ in 0..=n {
        ws.push(w);
        w = w * 19 / 20;
    }
    ws
}

/// The scaled weighted total of a sorted list.
fn weighted_scaled(values: &[u64]) -> u128 {
    let ws = weights(values.len());
    values.iter().enumerate().map(|(i, &v)| v as u128 * ws[i]).sum()
}

/// The scaled aggregate after inserting `x` at 0-based rank `k`: entries
/// above keep their weights, `x` takes rank `k`'s, entries at or below
/// move one rank down, and with a full list the last entry is dropped.
fn insert_total_scaled(values: &[u64], bonus: u128, k: usize, x: u64) -> u128 {
    let cut = if values.len() == CAPACITY { CAPACITY - 1 } else { values.len() };
    let ws = weights(values.len() + 1);
    let mut total = bonus + x as u128 * ws[k];
    for i in 0..k {
        total += values[i] as u128 * ws[i];
    }
    for i in k..cut {
        total += values[i] as u128 * ws[i + 1];
    }
    total
}

/// One hundred values falling evenly from 300.0 to 50.0, in fixed-point
/// ten-thousandths.
fn descending_hundred() -> Vec<u64> {
    (0..100u64).map(|i| 3_000_000 - i * 2_500_000 / 99).collect()
}

#[test]
fn already_achieved_when_target_not_above_current() {
    let vals = descending_hundred();
    let list = WeightedList::from_values(&vals).unwrap();
    let current = 60_000_000;
    assert_eq!(
        gap_to_target(&list, current, current),
        Ok(GapOutcome::AlreadyAchieved)
    );
    assert_eq!(
        gap_to_target(&list, current, current - 1),
        Ok(GapOutcome::AlreadyAchieved)
    );
}

#[test]
fn insufficient_data_on_empty_list() {
    let list = WeightedList::from_values(&Vec::new()).unwrap();
    assert_eq!(gap_to_target(&list, 100, 200), Err(GapError::InsufficientData));
}

#[test]
fn insufficient_data_on_malformed_current_total() {
    // The current total must carry at least the list's own weighted sum.
    let vals = vec![1_000_000u64, 900_000];
    let list = WeightedList::from_values(&vals).unwrap();
    assert_eq!(
        gap_to_target_checked(&list, 1_000_000, 5_000_000),
        Err(GapError::InsufficientData)
    );
}

#[test]
fn gap_scenario_hundred_values() {
    // Existing list of one hundred values from 300.0 down to 50.0, current
    // total 6000.0, target 6200.0: re-weighting with the solved value at
    // the reported rank recovers the target within tolerance.
    let vals = descending_hundred();
    let list = WeightedList::from_values(&vals).unwrap();
    let wtotal = weighted_scaled(&vals);
    let current: u64 = 60_000_000;
    let target: u64 = 62_000_000;
    assert!(wtotal <= current as u128 * SCALE);
    let r = gap_to_target(&list, current, target).unwrap();
    match r {
        GapOutcome::NewScore { required, rank } => {
            assert!(rank >= 1);
            let k = rank - 1;
            let bonus = current as u128 * SCALE - wtotal;
            let achieved = insert_total_scaled(&vals, bonus, k, required);
            let target_scaled = target as u128 * SCALE;
            assert!(achieved >= target_scaled);
            // Overshoot below one weight step, far inside 0.001 points.
            assert!(achieved - target_scaled < SCALE);
        }
        other => panic!("expected a new score, got {:?}", other),
    }
}

#[test]
fn gap_result_sits_at_its_sorted_rank() {
    let vals = vec![1_000_000u64, 900_000, 800_000];
    let list = WeightedList::from_values(&vals).unwrap();
    let wtotal = weighted_scaled(&vals);
    let current = (wtotal / SCALE) as u64 + 1;
    let target = current + 500_000;
    let r = gap_to_target(&list, current, target).unwrap();
    match r {
        GapOutcome::NewScore { required, rank } => {
            let k = rank - 1;
            if k > 0 {
                assert!(vals[k - 1] > required);
            }
            if k < vals.len() {
                assert!(required >= vals[k]);
            }
        }
        other => panic!("expected a new score, got {:?}", other),
    }
}

#[test]
fn gap_full_list_drops_last_entry() {
    // With a full list the solved value must beat the last entry; it can
    // never be the silent zero of a value that would fall off the end.
    let vals = descending_hundred();
    let list = WeightedList::from_values(&vals).unwrap();
    let wtotal = weighted_scaled(&vals);
    let current = (wtotal / SCALE) as u64 + 1;
    let target = current + 10_000;
    let r = gap_to_target(&list, current, target).unwrap();
    match r {
        GapOutcome::NewScore { required, rank } => {
            assert!(rank <= 100);
            assert!(required > *vals.last().unwrap());
        }
        other => panic!("expected a new score, got {:?}", other),
    }
}

#[test]
fn gap_boundary_tie_prefers_upper_rank() {
    // One entry of 1.0; from a total of 1.0 to 1.95 the exact solution is
    // a second 1.0 score: at the boundary it stands above the equal entry
    // and takes the smaller rank.
    let vals = vec![10_000u64];
    let list = WeightedList::from_values(&vals).unwrap();
    assert_eq!(
        gap_to_target(&list, 10_000, 19_500),
        Ok(GapOutcome::NewScore { required: 10_000, rank: 1 })
    );
}

#[test]
fn new_value_total_and_rank() {
    // List [1.0, 0.5], bonus 0.2, new value 0.8: it ranks second, and the
    // total is 1.0 + 0.95 * 0.8 + 0.9025 * 0.5 + 0.2 = 2.41125.
    let vals = vec![10_000u64, 5_000];
    let list = WeightedList::from_values(&vals).unwrap();
    let (total, rank) = total_with_new_value(&list, 2_000, 8_000).unwrap();
    assert_eq!(rank, 2);
    assert_eq!(total, 24_112);
}

#[test]
fn new_value_ties_rank_below_equal_entries() {
    let vals = vec![10_000u64, 8_000, 5_000];
    let list = WeightedList::from_values(&vals).unwrap();
    let (_, rank) = total_with_new_value(&list, 0, 8_000).unwrap();
    assert_eq!(rank, 3);
}

#[test]
fn new_value_below_full_list_changes_nothing() {
    let vals = descending_hundred();
    let list = WeightedList::from_values(&vals).unwrap();
    assert!(total_with_new_value(&list, 0, 400_000).is_none());
    assert!(total_with_new_value(&list, 0, 600_000).is_some());
}

#[test]
fn gap_small_list_exact() {
    // Empty bonus, two entries, a target one point up: recompute exactly.
    let vals = vec![1_000_000u64, 500_000];
    let list = WeightedList::from_values(&vals).unwrap();
    let wtotal = weighted_scaled(&vals);
    let current = (wtotal / SCALE) as u64;
    let target = current + 10_000;
    let r = gap_to_target(&list, current, target).unwrap();
    match r {
        GapOutcome::NewScore { required, rank } => {
            let k = rank - 1;
            let bonus = current as u128 * SCALE - wtotal;
            let achieved = insert_total_scaled(&vals, bonus, k, required);
            let target_scaled = target as u128 * SCALE;
            assert!(achieved >= target_scaled && achieved - target_scaled < SCALE);
        }
        other => panic!("expected a new score, got {:?}", other),
    }
}
