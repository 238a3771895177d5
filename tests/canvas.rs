use std::collections::HashMap;

use place::canvas::AppState;
use place::error::AppStateError;
use place::updates::{DatabaseUpdate, MessageUpdate};
use place::user::User;

fn palette(n: usize) -> Vec<(u8, u8, u8)> {
    (0..n).map(|i| (i as u8 * 10, i as u8 * 20, i as u8 * 30)).collect()
}

fn state(width: usize, height: usize, colors: usize, cooldown: u16, update_cooldown: u16) -> AppState {
    let mut users = HashMap::new();
    users.insert(1u16, User::new("alice".to_string(), 0, true));
    users.insert(2u16, User::new("bob".to_string(), 0, false));
    users.insert(3u16, User::new("carol".to_string(), 0, true));
    AppState::new(
        width,
        height,
        vec![0u8; width * height],
        vec![0u16; width * height],
        palette(colors),
        users,
        cooldown,
        update_cooldown,
        "SECRET-REDACTED".to_string(),
    )
    .unwrap()
}

fn grid(s: &AppState, x: usize, y: usize) -> u8 {
    s.get_pixel(x, y)
}

#[test]
fn end_to_end_scenario() {
    let mut s = state(4, 4, 4, 5, 10);
    let now = 1_000;
    assert_eq!(s.draw_at(1, 2, 1, 3, now), Ok(5));
    assert_eq!(grid(&s, 1, 2), 3);
    let a = s.get_user(1).unwrap();
    assert_eq!(a.score, 1);
    assert_eq!(a.cooldown, now + 5);
    assert_eq!(s.get_username_from_pixel(1, 2), "alice");
    assert_eq!(s.draw_at(0, 0, 1, 1, now), Err(AppStateError::CooldownActive(5)));
    assert_eq!(s.draw_at(0, 0, 2, 1, now), Err(AppStateError::Unverified));
    assert_eq!(grid(&s, 0, 0), 0);
    assert_eq!(s.get_message_updates(), vec![MessageUpdate { x: 1, y: 2, color: 3 }]);
    assert_eq!(s.get_username_from_pixel(0, 0), "No username");
}

#[test]
fn draw_sets_cell_and_owner_only() {
    let mut s = state(3, 2, 4, 5, 10);
    assert_eq!(s.draw_at(2, 1, 3, 2, 0), Ok(5));
    assert_eq!(s.get_username_from_pixel(2, 1), "carol");
    for x in 0..3 {
        for y in 0..2 {
            if (x, y) == (2, 1) {
                assert_eq!((grid(&s, x, y), s.owner_of(x, y)), (2, 3));
            } else {
                assert_eq!((grid(&s, x, y), s.owner_of(x, y)), (0, 0));
            }
        }
    }
    assert_eq!(
        s.get_database_updates().clone(),
        vec![DatabaseUpdate { x: 2, y: 1, color: 2, user_id: 3, timestamp: 0 }]
    );
}

#[test]
fn out_of_bounds_draw_changes_nothing() {
    let mut s = state(4, 4, 4, 5, 10);
    assert_eq!(s.draw_at(4, 0, 1, 1, 0), Err(AppStateError::OutOfBounds));
    assert_eq!(s.draw_at(0, 4, 1, 1, 0), Err(AppStateError::OutOfBounds));
    assert_eq!(s.draw_at(9, 9, 42, 9, 0), Err(AppStateError::OutOfBounds));
    assert!(s.get_message_updates().is_empty());
    assert!(s.get_database_updates().is_empty());
    assert_eq!(s.get_user(1).unwrap().score, 0);
    for x in 0..4 {
        for y in 0..4 {
            assert_eq!((grid(&s, x, y), s.owner_of(x, y)), (0, 0));
        }
    }
}

#[test]
fn draw_error_variants() {
    let mut s = state(4, 4, 4, 5, 10);
    assert_eq!(s.draw_at(0, 0, 1, 4, 0), Err(AppStateError::InvalidColor));
    assert_eq!(s.draw_at(0, 0, 99, 1, 0), Err(AppStateError::NoSuchUser));
    assert_eq!(s.draw_at(0, 0, 2, 1, 0), Err(AppStateError::Unverified));
    assert!(s.get_message_updates().is_empty());
}

#[test]
fn second_draw_within_cooldown_is_refused() {
    let mut s = state(4, 4, 4, 5, 10);
    let t0 = 50;
    assert_eq!(s.draw_at(1, 1, 1, 2, t0), Ok(5));
    assert_eq!(s.draw_at(3, 3, 1, 1, t0 + 1), Err(AppStateError::CooldownActive(4)));
    assert_eq!(s.get_message_updates().len(), 1);
    assert_eq!(grid(&s, 3, 3), 0);
    assert_eq!(s.get_username_from_pixel(3, 3), "No username");
    assert_eq!(s.draw_at(3, 3, 1, 1, t0 + 5), Ok(5));
    assert_eq!(s.get_user(1).unwrap().score, 2);
}

#[test]
fn disjoint_draws_by_distinct_actors_are_all_kept() {
    let mut s = state(8, 8, 4, 5, 10);
    assert_eq!(s.draw_at(0, 0, 1, 1, 7), Ok(5));
    assert_eq!(s.draw_at(7, 7, 3, 2, 7), Ok(5));
    assert_eq!(grid(&s, 0, 0), 1);
    assert_eq!(grid(&s, 7, 7), 2);
    assert_eq!(s.get_username_from_pixel(0, 0), "alice");
    assert_eq!(s.get_username_from_pixel(7, 7), "carol");
}

#[test]
fn cooldown_expiry_saturates() {
    let mut s = state(2, 2, 4, 5, 10);
    assert_eq!(s.draw_at(0, 0, 1, 1, i64::MAX - 2), Ok(5));
    assert_eq!(s.get_user(1).unwrap().cooldown, i64::MAX);
}

#[test]
fn consolidation_is_throttled() {
    let mut s = state(4, 4, 4, 5, 10);
    let t0 = 100;
    let first = s.try_update_at(t0).unwrap();
    assert!(first.is_empty());
    let png0 = s.get_png().clone();
    assert!(!png0.is_empty());
    assert_eq!(&png0[1..4], b"PNG");
    assert_eq!(s.draw_at(1, 2, 1, 3, t0 + 1), Ok(5));
    assert!(s.try_update_at(t0 + 5).is_none());
    assert_eq!(s.get_png(), &png0);
    assert_eq!(s.get_message_updates().len(), 1);
    let batch = s.try_update_at(t0 + 11).unwrap();
    assert_eq!(batch, vec![DatabaseUpdate { x: 1, y: 2, color: 3, user_id: 1, timestamp: t0 + 1 }]);
    assert_ne!(s.get_png(), &png0);
    assert!(s.get_message_updates().is_empty());
    assert!(s.get_database_updates().is_empty());
}

#[test]
fn consolidation_recomputes_ranks() {
    let mut s = state(4, 4, 4, 0, 0);
    s.insert_user(4, User::new("dave".to_string(), 0, true));
    assert_eq!(s.draw_at(0, 0, 3, 1, 0), Ok(0));
    assert_eq!(s.draw_at(0, 1, 3, 1, 0), Ok(0));
    assert_eq!(s.draw_at(0, 2, 1, 1, 0), Ok(0));
    assert!(s.try_update_at(0).is_some());
    assert_eq!(s.get_user(3).unwrap().rank, 1);
    assert_eq!(s.get_user(1).unwrap().rank, 2);
    assert_eq!(s.get_user(2).unwrap().rank, 3);
    assert_eq!(s.get_user(4).unwrap().rank, 4);
    let board: Vec<String> = s.get_leaderboard().into_iter().map(|u| u.username).collect();
    assert_eq!(board, vec!["carol", "alice", "bob", "dave"]);
}

#[test]
fn equal_scores_rank_by_identifier_and_repeat() {
    let mut users = HashMap::new();
    for id in [9u16, 4, 7, 1] {
        users.insert(id, User::new(format!("u{}", id), 5, true));
    }
    users.insert(3u16, User::new("top".to_string(), 6, true));
    let mut s = AppState::new(1, 1, vec![0], vec![0], palette(1), users, 1, 1, String::new()).unwrap();
    s.recompute_ranks();
    let first: Vec<u32> = [3u16, 1, 4, 7, 9].iter().map(|id| s.get_user(*id).unwrap().rank).collect();
    assert_eq!(first, vec![1, 2, 3, 4, 5]);
    s.recompute_ranks();
    let second: Vec<u32> = [3u16, 1, 4, 7, 9].iter().map(|id| s.get_user(*id).unwrap().rank).collect();
    assert_eq!(first, second);
}

#[test]
fn leaderboard_keeps_ten() {
    let mut users = HashMap::new();
    for id in 0u16..15 {
        users.insert(id, User::new(format!("u{}", id), id as u32, true));
    }
    let mut s = AppState::new(1, 1, vec![0], vec![0], palette(1), users, 1, 1, String::new()).unwrap();
    s.recompute_ranks();
    let board = s.get_leaderboard();
    assert_eq!(board.len(), 10);
    let ranks: Vec<u32> = board.iter().map(|u| u.rank).collect();
    assert_eq!(ranks, (1..=10).collect::<Vec<u32>>());
    assert_eq!(board[0].username, "u14");
    assert_eq!(board[9].username, "u5");
}

#[test]
fn new_rejects_bad_grids() {
    let users = HashMap::new();
    assert_eq!(
        AppState::new(2, 2, vec![0; 3], vec![0; 4], palette(4), users.clone(), 1, 1, String::new()).err(),
        Some(AppStateError::InvalidGrid)
    );
    assert_eq!(
        AppState::new(2, 2, vec![0, 1, 2, 4], vec![0; 4], palette(4), users.clone(), 1, 1, String::new()).err(),
        Some(AppStateError::InvalidGrid)
    );
    assert_eq!(
        AppState::new(usize::MAX, 2, vec![], vec![], palette(4), users, 1, 1, String::new()).err(),
        Some(AppStateError::InvalidGrid)
    );
}

#[test]
fn accessors_report_state() {
    let s = state(5, 3, 4, 7, 10);
    assert_eq!(s.get_size(), (5, 3));
    assert_eq!(s.cooldown(), 7);
    assert_eq!(s.jwt_secret(), "SECRET-REDACTED");
    assert_eq!(s.user_length(), 3);
    assert!(s.get_png().is_empty());
    assert!(!s.institutional_only());
}

#[test]
fn verify_and_rename_users() {
    let mut s = state(2, 2, 4, 5, 10);
    assert_eq!(s.draw_at(0, 0, 2, 1, 0), Err(AppStateError::Unverified));
    assert!(s.verify_user(2));
    assert!(!s.verify_user(77));
    assert_eq!(s.draw_at(0, 0, 2, 1, 0), Ok(5));
    assert!(s.rename_user(2, "robert".to_string()));
    assert!(!s.rename_user(77, "x".to_string()));
    assert_eq!(s.get_username_from_pixel(0, 0), "robert");
    assert!(s.is_username_taken("robert"));
    assert!(!s.is_username_taken("bob"));
}

#[test]
fn signup_checks() {
    let s = state(2, 2, 4, 5, 10);
    assert_eq!(s.check_signup("dave", "password1", "dave@example.com"), Ok(0));
    assert_eq!(s.check_signup("dave", "password1", "not-an-email"), Err(AppStateError::InvalidEmail));
    assert_eq!(s.check_signup("da", "password1", "dave@example.com"), Err(AppStateError::InvalidUsername));
    assert_eq!(
        s.check_signup("a_very_long_username", "password1", "d@example.com"),
        Err(AppStateError::InvalidUsername)
    );
    assert_eq!(s.check_signup("dave", "short", "dave@example.com"), Err(AppStateError::InvalidPassword));
    assert_eq!(s.check_signup("alice", "password1", "alice@example.com"), Err(AppStateError::NameTaken));
}

#[test]
fn institutional_signup_checks() {
    let mut s = state(2, 2, 4, 5, 10);
    s.set_institutional_only(true);
    assert!(s.institutional_only());
    assert_eq!(s.check_signup("dave", "password1", "e2201234@etud.univ-ubs.fr"), Ok(2201234));
    assert_eq!(s.check_signup("dave", "password1", "e42@univ-ubs.fr"), Ok(42));
    assert_eq!(
        s.check_signup("dave", "password1", "dave@example.com"),
        Err(AppStateError::NotInstitutional)
    );
    assert_eq!(
        s.check_signup("dave", "password1", "john.doe@univ-ubs.fr"),
        Err(AppStateError::InvalidEmail)
    );
    assert_eq!(
        s.check_signup("alice", "password1", "e1@univ-ubs.fr"),
        Err(AppStateError::NameTaken)
    );
    s.set_institutional_only(false);
    assert_eq!(s.check_signup("dave", "password1", "dave@example.com"), Ok(0));
}

#[test]
fn profile_edit_checks() {
    let s = state(2, 2, 4, 5, 10);
    assert_eq!(s.check_profile_edit(1, "alice"), Ok(()));
    assert_eq!(s.check_profile_edit(1, "alicia"), Ok(()));
    assert_eq!(s.check_profile_edit(1, "bob"), Err(AppStateError::NameTaken));
    assert_eq!(s.check_profile_edit(1, "al"), Err(AppStateError::InvalidUsername));
    assert_eq!(s.check_profile_edit(50, "zed"), Err(AppStateError::NoSuchUser));
}

#[test]
fn sessions_receive_draws_in_order() {
    let mut s = state(4, 4, 4, 0, 10);
    let a = s.add_session().unwrap();
    let b = s.add_session().unwrap();
    assert_ne!(a, b);
    assert_eq!(s.get_users_connected(), 2);
    assert_eq!(s.draw_at(0, 0, 1, 1, 0), Ok(0));
    assert_eq!(s.draw_at(1, 0, 1, 2, 0), Ok(0));
    assert_eq!(
        s.take_session_updates(a),
        vec![MessageUpdate { x: 0, y: 0, color: 1 }, MessageUpdate { x: 1, y: 0, color: 2 }]
    );
    assert!(s.take_session_updates(a).is_empty());
    assert!(s.remove_session(b));
    assert!(!s.remove_session(b));
    assert_eq!(s.get_users_connected(), 1);
    assert!(!s.report_delivery(a, false));
    assert!(!s.report_delivery(a, false));
    assert!(s.report_delivery(a, false));
    assert_eq!(s.get_users_connected(), 0);
}

#[test]
fn failed_batch_is_requeued_first() {
    let mut s = state(4, 4, 4, 0, 0);
    assert_eq!(s.draw_at(0, 0, 1, 1, 10), Ok(0));
    let batch = s.try_update_at(10).unwrap();
    assert_eq!(s.draw_at(1, 1, 3, 2, 11), Ok(0));
    s.requeue_database_updates(batch);
    let pending: Vec<(usize, usize)> = s.get_database_updates().iter().map(|u| (u.x, u.y)).collect();
    assert_eq!(pending, vec![(0, 0), (1, 1)]);
}

#[test]
fn clock_driven_entry_points() {
    let mut s = state(4, 4, 4, 5, 10);
    assert_eq!(s.draw(2, 3, 1, 2), Ok(5));
    let expiry = s.get_user(1).unwrap().cooldown;
    assert!(expiry > 1_600_000_000);
    assert!(matches!(s.draw(0, 0, 1, 1), Err(AppStateError::CooldownActive(r)) if r <= 5));
    let batch = s.try_update().unwrap();
    assert_eq!(batch.len(), 1);
    assert_eq!(batch[0].timestamp, expiry - 5);
    assert!(s.try_update().is_none());
    assert!(!s.get_pixels_color().is_empty());
}
