//! Tests for the rank ladder and the pure level-up decision engine.

use player_progression::engine::evaluate_level_up;
use player_progression::rank::{headshots_required, kills_required, parse_rank, rank_code};

const RANK_CODES: [&str; 30] = [
    "A0", "A1", "A2", "A3", "A4", "A5", "A6", "A7", "A8", "A9", "B0", "B1", "B2", "B3", "B4",
    "B5", "B6", "B7", "B8", "B9", "C0", "C1", "C2", "C3", "C4", "C5", "C6", "C7", "C8", "C9",
];

const THRESHOLDS: [(i64, i64); 29] = [
    (500, 50),
    (800, 100),
    (1000, 150),
    (1400, 200),
    (1800, 250),
    (2200, 300),
    (2600, 350),
    (3000, 400),
    (3500, 450),
    (4000, 500),
    (4500, 550),
    (5000, 600),
    (5500, 650),
    (6000, 700),
    (6500, 750),
    (7000, 800),
    (7500, 850),
    (8000, 900),
    (8500, 950),
    (9000, 1000),
    (9500, 1050),
    (10000, 1100),
    (10500, 1150),
    (11000, 1200),
    (11500, 1250),
    (12000, 1300),
    (12500, 1350),
    (13000, 1400),
    (13500, 1450),
];

#[test]
fn rank_codes_round_trip() {
    for (p, code) in RANK_CODES.iter().enumerate() {
        assert_eq!(parse_rank(code), Some(p as u8));
        assert_eq!(rank_code(p as u8), *code);
    }
}

#[test]
fn rank_parsing_rejects_values_outside_the_ladder() {
    for bad in ["", "A", "D1", "a0", "A10", "9A", "C 9", "AA", "Z!"] {
        assert_eq!(parse_rank(bad), None);
    }
}

#[test]
fn threshold_tables_match_expected_values() {
    for (i, (kills, headshots)) in THRESHOLDS.iter().enumerate() {
        let q = i + 1;
        assert_eq!(kills_required(q), *kills);
        assert_eq!(headshots_required(q), *headshots);
    }
}

#[test]
fn exact_threshold_advances_exactly_one_step() {
    for (i, (kills, headshots)) in THRESHOLDS.iter().enumerate() {
        let current = RANK_CODES[i];
        let next = RANK_CODES[i + 1];
        assert_eq!(
            evaluate_level_up(current, *kills, *headshots),
            Some(next.to_string())
        );
    }
}

#[test]
fn one_unit_below_either_threshold_gives_no_change() {
    for (i, (kills, headshots)) in THRESHOLDS.iter().enumerate() {
        let current = RANK_CODES[i];
        assert_eq!(evaluate_level_up(current, kills - 1, *headshots), None);
        assert_eq!(evaluate_level_up(current, *kills, headshots - 1), None);
    }
}

#[test]
fn terminal_rank_never_changes() {
    assert_eq!(evaluate_level_up("C9", 0, 0), None);
    assert_eq!(evaluate_level_up("C9", 13500, 1450), None);
    assert_eq!(evaluate_level_up("C9", i64::MAX, i64::MAX), None);
}

#[test]
fn stats_beyond_several_tiers_still_advance_one_step() {
    // These stats satisfy every threshold in the ladder, yet a single
    // evaluation moves the rank only to its immediate successor.
    assert_eq!(
        evaluate_level_up("A0", 13500, 1450),
        Some("A1".to_string())
    );
    assert_eq!(
        evaluate_level_up("B7", i64::MAX, i64::MAX),
        Some("B8".to_string())
    );
}

#[test]
fn unrecognized_rank_gives_no_change() {
    assert_eq!(evaluate_level_up("D1", i64::MAX, i64::MAX), None);
    assert_eq!(evaluate_level_up("", 1000, 1000), None);
    assert_eq!(evaluate_level_up("Gold", 1000, 1000), None);
}

#[test]
fn first_advance_of_the_ladder() {
    assert_eq!(evaluate_level_up("A0", 500, 50), Some("A1".to_string()));
    assert_eq!(evaluate_level_up("A0", 499, 50), None);
    assert_eq!(evaluate_level_up("A0", 500, 49), None);
}
