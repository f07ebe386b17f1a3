//! Tests for the player store: CRUD round trips, partial updates, rank
//! assignment, and the orchestrated level-up operation.

use player_progression::models::{ErrorResponse, NewPlayer, StoreError, UpdatePlayer};
use player_progression::store::PlayerStore;

fn new_player(id: i32, rank: &str, kills: i64, headshots: i64, bank: i64) -> NewPlayer {
    NewPlayer {
        id,
        rank: rank.to_string(),
        kills,
        headshots,
        bank,
    }
}

fn no_update() -> UpdatePlayer {
    UpdatePlayer {
        rank: None,
        kills: None,
        headshots: None,
        bank: None,
    }
}

#[test]
fn create_then_get_returns_identical_record() {
    let mut store = PlayerStore::new();
    let created = store
        .create_player(new_player(1, "B4", 10, 5, 200))
        .unwrap_or_else(|_| panic!("create failed"));
    assert_eq!(created.id, 1);
    assert_eq!(created.rank, "B4");
    assert_eq!(created.kills, 10);
    assert_eq!(created.headshots, 5);
    assert_eq!(created.bank, 200);

    let fetched = store.get_player(1).expect("player should exist");
    assert_eq!(fetched.id, 1);
    assert_eq!(fetched.rank, "B4");
    assert_eq!(fetched.kills, 10);
    assert_eq!(fetched.headshots, 5);
    assert_eq!(fetched.bank, 200);
}

#[test]
fn delete_then_get_returns_absence() {
    let mut store = PlayerStore::new();
    store.create_player(new_player(1, "A0", 0, 0, 0)).ok();
    assert!(store.delete_player(1));
    assert!(store.get_player(1).is_none());
    // Deleting again is idempotent and reports that nothing was removed.
    assert!(!store.delete_player(1));
}

#[test]
fn duplicate_id_create_is_a_conflict() {
    let mut store = PlayerStore::new();
    assert!(store.create_player(new_player(1, "A0", 0, 0, 0)).is_ok());
    let second = store.create_player(new_player(1, "C3", 9, 9, 9));
    assert!(matches!(second, Err(StoreError::Conflict)));
    // The stored record is the first one, untouched.
    let fetched = store.get_player(1).unwrap();
    assert_eq!(fetched.rank, "A0");
    assert_eq!(fetched.kills, 0);
}

#[test]
fn bank_only_update_leaves_other_fields_unchanged() {
    let mut store = PlayerStore::new();
    store.create_player(new_player(4, "B2", 42, 17, 1000)).ok();
    let update = UpdatePlayer {
        bank: Some(-5),
        ..no_update()
    };
    let updated = store.update_player(4, update).expect("player should exist");
    assert_eq!(updated.rank, "B2");
    assert_eq!(updated.kills, 42);
    assert_eq!(updated.headshots, 17);
    assert_eq!(updated.bank, -5);
    let fetched = store.get_player(4).unwrap();
    assert_eq!(fetched.rank, "B2");
    assert_eq!(fetched.kills, 42);
    assert_eq!(fetched.headshots, 17);
    assert_eq!(fetched.bank, -5);
}

#[test]
fn update_applies_every_present_field() {
    let mut store = PlayerStore::new();
    store.create_player(new_player(4, "B2", 42, 17, 1000)).ok();
    let update = UpdatePlayer {
        rank: Some("C0".to_string()),
        kills: Some(50),
        headshots: Some(20),
        bank: Some(1234),
    };
    let updated = store.update_player(4, update).unwrap();
    assert_eq!(updated.id, 4);
    assert_eq!(updated.rank, "C0");
    assert_eq!(updated.kills, 50);
    assert_eq!(updated.headshots, 20);
    assert_eq!(updated.bank, 1234);
}

#[test]
fn update_of_absent_id_is_not_found() {
    let mut store = PlayerStore::new();
    let update = UpdatePlayer {
        bank: Some(1),
        ..no_update()
    };
    assert!(store.update_player(99, update).is_none());
}

#[test]
fn replace_overwrites_every_field_but_the_id() {
    let mut store = PlayerStore::new();
    store.create_player(new_player(6, "A5", 1, 1, 1)).ok();
    let replaced = store
        .replace_player(6, "B0".to_string(), 4000, 500, -20)
        .unwrap();
    assert_eq!(replaced.id, 6);
    assert_eq!(replaced.rank, "B0");
    assert_eq!(replaced.kills, 4000);
    assert_eq!(replaced.headshots, 500);
    assert_eq!(replaced.bank, -20);
    assert!(store
        .replace_player(7, "B0".to_string(), 0, 0, 0)
        .is_none());
}

#[test]
fn field_projections_return_the_raw_values() {
    let mut store = PlayerStore::new();
    store.create_player(new_player(2, "C1", 9000, 1000, -3)).ok();
    assert_eq!(store.get_player_rank(2), Some("C1".to_string()));
    assert_eq!(store.get_player_kills(2), Some(9000));
    assert_eq!(store.get_player_headshots(2), Some(1000));
    assert_eq!(store.get_player_bank(2), Some(-3));
    assert_eq!(store.get_player_rank(3), None);
    assert_eq!(store.get_player_kills(3), None);
    assert_eq!(store.get_player_headshots(3), None);
    assert_eq!(store.get_player_bank(3), None);
}

#[test]
fn assign_rank_outside_the_ladder_is_rejected_before_any_write() {
    let mut store = PlayerStore::new();
    store.create_player(new_player(5, "B9", 0, 0, 0)).ok();
    for bad in ["D4", "", "gold", "A10"] {
        let result = store.assign_rank(5, bad);
        assert!(matches!(result, Err(StoreError::InvalidRank)));
        assert_eq!(store.get_player_rank(5), Some("B9".to_string()));
    }
}

#[test]
fn assign_rank_of_absent_id_is_not_found() {
    let mut store = PlayerStore::new();
    let result = store.assign_rank(5, "B1");
    assert!(matches!(result, Err(StoreError::NotFound)));
}

#[test]
fn assign_rank_sets_a_valid_rank_directly() {
    let mut store = PlayerStore::new();
    store.create_player(new_player(5, "A0", 0, 0, 0)).ok();
    let assigned = store.assign_rank(5, "C7").unwrap();
    assert_eq!(assigned, "C7");
    assert_eq!(store.get_player_rank(5), Some("C7".to_string()));
    // Threshold checks are skipped: the stats stayed at zero.
    assert_eq!(store.get_player_kills(5), Some(0));
}

#[test]
fn level_up_advances_at_threshold_and_then_holds() {
    let mut store = PlayerStore::new();
    // A player at rank B4 with fresh counters.
    store.create_player(new_player(8, "B4", 0, 0, 0)).ok();
    // Raise the counters to exactly the thresholds of B5.
    let update = UpdatePlayer {
        kills: Some(6500),
        headshots: Some(750),
        ..no_update()
    };
    store.update_player(8, update).unwrap();
    // The first level-up advances to B5.
    assert_eq!(store.level_up_player(8), Some("B5".to_string()));
    assert_eq!(store.get_player_rank(8), Some("B5".to_string()));
    // A second level-up with unchanged stats is "no change".
    assert_eq!(store.level_up_player(8), Some("B5".to_string()));
    assert_eq!(store.get_player_rank(8), Some("B5".to_string()));
}

#[test]
fn two_level_up_calls_advance_exactly_once() {
    let mut store = PlayerStore::new();
    // Stats qualify for exactly one advance from A3: they meet the A4
    // threshold (1400, 200) but not the A5 threshold (1800, 250).
    store.create_player(new_player(9, "A3", 1500, 220, 0)).ok();
    let first = store.level_up_player(9);
    let second = store.level_up_player(9);
    assert_eq!(first, Some("A4".to_string()));
    assert_eq!(second, Some("A4".to_string()));
    assert_eq!(store.get_player_rank(9), Some("A4".to_string()));
}

#[test]
fn level_up_of_absent_id_is_absent() {
    let mut store = PlayerStore::new();
    assert_eq!(store.level_up_player(1), None);
}

#[test]
fn level_up_of_unrecognized_rank_is_no_change() {
    let mut store = PlayerStore::new();
    store
        .create_player(new_player(3, "X9", i64::MAX, i64::MAX, 0))
        .ok();
    assert_eq!(store.level_up_player(3), Some("X9".to_string()));
    assert_eq!(store.get_player_rank(3), Some("X9".to_string()));
}

#[test]
fn level_up_below_threshold_is_no_change() {
    let mut store = PlayerStore::new();
    store.create_player(new_player(3, "A0", 499, 50, 0)).ok();
    assert_eq!(store.level_up_player(3), Some("A0".to_string()));
    assert_eq!(store.get_player_rank(3), Some("A0".to_string()));
}

#[test]
fn terminal_rank_level_up_is_no_change() {
    let mut store = PlayerStore::new();
    store
        .create_player(new_player(3, "C9", i64::MAX, i64::MAX, 0))
        .ok();
    assert_eq!(store.level_up_player(3), Some("C9".to_string()));
    assert_eq!(store.get_player_rank(3), Some("C9".to_string()));
}

#[test]
fn independent_ids_do_not_interfere() {
    let mut store = PlayerStore::new();
    store.create_player(new_player(1, "A0", 500, 50, 10)).ok();
    store.create_player(new_player(2, "B0", 0, 0, 20)).ok();
    assert_eq!(store.level_up_player(1), Some("A1".to_string()));
    assert_eq!(store.get_player_rank(2), Some("B0".to_string()));
    assert!(store.delete_player(2));
    let fetched = store.get_player(1).unwrap();
    assert_eq!(fetched.rank, "A1");
    assert_eq!(fetched.bank, 10);
}

#[test]
fn error_messages_describe_each_kind() {
    assert_eq!(
        ErrorResponse::of_error(StoreError::NotFound).error,
        "Player not found"
    );
    assert_eq!(
        ErrorResponse::of_error(StoreError::InvalidRank).error,
        "Invalid rank"
    );
    assert_eq!(
        ErrorResponse::of_error(StoreError::Conflict).error,
        "Player already exists"
    );
}
