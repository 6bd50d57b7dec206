//! Behavioural tests of the per-cell age tracker.

use life_automata::age::{age_step, track_age, update_ages, AgedCell, MAX_DEAD_AGE, MAX_GEN};

#[test]
fn age_round_trip() {
    // Alive for 3 ticks, then dead until the death counter saturates, then
    // alive again: the streak restarts at 1.
    let mut cell = AgedCell { generation: 0, dead_for: 0 };
    for _ in 0..3 {
        cell = age_step(cell, 1);
    }
    assert_eq!(cell, AgedCell { generation: 3, dead_for: 0 });
    cell = age_step(cell, 0);
    assert_eq!(cell, AgedCell { generation: -3, dead_for: 1 });
    for tick in 2..=12u8 {
        cell = age_step(cell, 0);
        assert_eq!(cell.generation, -3);
        assert_eq!(cell.dead_for, tick.min(MAX_DEAD_AGE));
    }
    cell = age_step(cell, 1);
    assert_eq!(cell, AgedCell { generation: 1, dead_for: 0 });
}

#[test]
fn streak_saturates() {
    let mut cell = AgedCell { generation: 0, dead_for: 0 };
    for _ in 0..20 {
        cell = age_step(cell, 1);
    }
    assert_eq!(cell, AgedCell { generation: MAX_GEN, dead_for: 0 });
}

#[test]
fn neutral_cell_rests() {
    let neutral = AgedCell { generation: 0, dead_for: 0 };
    assert_eq!(age_step(neutral, 0), neutral);
}

#[test]
fn track_age_applies_table_per_cell() {
    let prev = vec![
        AgedCell { generation: 0, dead_for: 0 },
        AgedCell { generation: 2, dead_for: 0 },
        AgedCell { generation: 2, dead_for: 0 },
        AgedCell { generation: -5, dead_for: 2 },
        AgedCell { generation: -5, dead_for: 2 },
        AgedCell { generation: 0, dead_for: 0 },
    ];
    let raw = vec![1u8, 1, 0, 0, 1, 0];
    let ages = track_age(&prev, &raw, 2, 3);
    assert_eq!(ages, vec![
        AgedCell { generation: 1, dead_for: 0 },
        AgedCell { generation: 3, dead_for: 0 },
        AgedCell { generation: -2, dead_for: 1 },
        AgedCell { generation: -5, dead_for: 3 },
        AgedCell { generation: 1, dead_for: 0 },
        AgedCell { generation: 0, dead_for: 0 },
    ]);
}

#[test]
fn parallel_ages_match_sequential() {
    let mut prev = Vec::new();
    let mut raw = Vec::new();
    for idx in 0..35u8 {
        prev.push(AgedCell {
            generation: (idx as i8 % 19) - 9,
            dead_for: if idx % 19 < 9 { (idx % 5) + 1 } else { 0 },
        });
        raw.push(idx as u8 % 2);
    }
    let sequential = track_age(&prev, &raw, 5, 7);
    let parallel = update_ages(&prev, &raw, 5, 7);
    assert_eq!(sequential, parallel);
    assert_eq!(parallel.len(), 35);
}

#[test]
fn parallel_ages_change_state() {
    // The parallel update must really apply the table, not hand back its
    // input: every neutral cell under a live raw state starts a streak.
    let prev = vec![AgedCell { generation: 0, dead_for: 0 }; 4];
    let raw = vec![1u8; 4];
    let ages = update_ages(&prev, &raw, 2, 2);
    assert_eq!(ages, vec![AgedCell { generation: 1, dead_for: 0 }; 4]);
}
