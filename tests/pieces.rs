use std::io::Read;
use std::collections::HashMap;

use place::auth::Claims;
use place::broadcast::Broadcaster;
use place::render::{render_png, render_rgb};
use place::signup::{
    check_signup_fields, code_from_bytes, generate_verification_code, institutional_id,
    verification_mail_body, VERIFICATION_CODE_LEN,
};
use place::store::{grid_from_rows, hex_to_rgb, users_from_rows, PixelRow, UserRow, DEFAULT_COLOR};
use place::updates::MessageUpdate;
use place::user::User;
use place::error::AppStateError;
use place::ranking::assign_ranks;
use place::leaderboard::leaderboard;

#[test]
fn user_new_starts_unranked() {
    let u = User::new("eve".to_string(), 3, true);
    assert_eq!(u.username, "eve");
    assert_eq!((u.cooldown, u.score, u.rank, u.verified), (0, 3, 0, true));
}

#[test]
fn rgb_image_is_row_major() {
    // 2 columns, 1 row... cells stored column after column.
    let palette = vec![(1, 2, 3), (4, 5, 6)];
    let colors = vec![1, 0, 0, 1]; // (0,0)=1 (0,1)=0 (1,0)=0 (1,1)=1
    let rgb = render_rgb(&palette, &colors, 2, 2);
    assert_eq!(rgb, vec![4, 5, 6, 1, 2, 3, 1, 2, 3, 4, 5, 6]);
}

#[test]
fn png_is_encoded() {
    let palette = vec![(255, 0, 0)];
    let png = render_png(&palette, &vec![0; 6], 3, 2).unwrap();
    assert_eq!(&png[..8], &[0x89, b'P', b'N', b'G', 0x0d, 0x0a, 0x1a, 0x0a]);
    assert_ne!(png, vec![255, 0, 0, 255, 0, 0, 255, 0, 0, 255, 0, 0, 255, 0, 0, 255, 0, 0]);
}

#[test]
fn verification_codes_are_alphanumeric() {
    let a = generate_verification_code();
    let b = generate_verification_code();
    assert_eq!(a.chars().count(), VERIFICATION_CODE_LEN);
    assert!(a.chars().all(|c| c.is_ascii_alphanumeric()));
    assert_ne!(a, b);
}

#[test]
fn mail_body_links_to_verification() {
    assert_eq!(
        verification_mail_body("https://place.example", "abc123"),
        "Click on this link to verify your account: https://place.example/api/verify/abc123"
    );
}

#[test]
fn signup_field_rules() {
    assert_eq!(check_signup_fields("abc", "12345678", true, false), Ok(()));
    assert_eq!(check_signup_fields("abcdefghijklmno", &"x".repeat(128), true, false), Ok(()));
    assert_eq!(check_signup_fields("abc", "12345678", false, true), Err(AppStateError::InvalidEmail));
    assert_eq!(check_signup_fields("abcdefghijklmnop", "12345678", true, false), Err(AppStateError::InvalidUsername));
    assert_eq!(check_signup_fields("abc", &"x".repeat(129), true, false), Err(AppStateError::InvalidPassword));
    assert_eq!(check_signup_fields("abc", "1234567", true, false), Err(AppStateError::InvalidPassword));
    assert_eq!(check_signup_fields("abc", "12345678", true, true), Err(AppStateError::NameTaken));
}

#[test]
fn grid_is_rebuilt_from_rows() {
    let rows = vec![
        PixelRow { x: 0, y: 1, user: 5, color: 2 },
        PixelRow { x: 1, y: 0, user: 6, color: 3 },
        PixelRow { x: 0, y: 1, user: 7, color: 4 },
        PixelRow { x: 5, y: 0, user: 8, color: 1 },
        PixelRow { x: 1, y: 1, user: 9, color: 300 },
    ];
    let (colors, owners) = grid_from_rows(2, 2, &rows);
    assert_eq!(colors, vec![DEFAULT_COLOR, 4, 3, DEFAULT_COLOR]);
    assert_eq!(owners, vec![0, 7, 6, 0]);
}

#[test]
fn users_are_rebuilt_from_rows() {
    let rows = vec![
        UserRow { id: 1, username: "a".to_string(), pixel_count: 4, verified: 1 },
        UserRow { id: 70000, username: "b".to_string(), pixel_count: 1, verified: 1 },
        UserRow { id: 2, username: "c".to_string(), pixel_count: -3, verified: 0 },
        UserRow { id: 1, username: "d".to_string(), pixel_count: 9, verified: 0 },
    ];
    let users = users_from_rows(&rows);
    assert_eq!(users.len(), 2);
    let d = &users[&1];
    assert_eq!((d.username.as_str(), d.score, d.verified), ("d", 9, false));
    assert_eq!(users[&2].score, 0);
}

#[test]
fn palette_entries_parse() {
    assert_eq!(hex_to_rgb("#ff8000"), Some((255, 128, 0)));
    assert_eq!(hex_to_rgb("#A0b1C2"), Some((160, 177, 194)));
    assert_eq!(hex_to_rgb("ff8000"), None);
    assert_eq!(hex_to_rgb("#ff80"), None);
    assert_eq!(hex_to_rgb("#gg0000"), None);
}

#[test]
fn claims_expire_after_a_week() {
    let c = Claims::new(12, 1_000);
    assert_eq!(c, Claims { id: 12, exp: 605_800 });
    assert_eq!(Claims::new(1, -700_000).exp, 0);
}

#[test]
fn broadcaster_drops_updates_past_capacity() {
    let mut b = Broadcaster::new();
    let id = b.register().unwrap();
    for i in 0..(place::broadcast::QUEUE_CAPACITY + 5) {
        b.broadcast(MessageUpdate { x: i, y: 0, color: 0 });
    }
    let q = b.take_pending(id);
    assert_eq!(q.len(), place::broadcast::QUEUE_CAPACITY);
    assert_eq!(q[0].x, 0);
    assert_eq!(q[q.len() - 1].x, place::broadcast::QUEUE_CAPACITY - 1);
    assert!(b.take_pending(999).is_empty());
    assert!(!b.report_delivery(id, false));
    assert!(!b.report_delivery(id, true));
    assert!(!b.report_delivery(id, false));
    assert!(!b.report_delivery(id, false));
    assert!(b.report_delivery(id, false));
    assert_eq!(b.len(), 0);
    assert!(b.unregister(id) == false);
}

#[test]
fn strictly_highest_score_ranks_first() {
    let mut users = HashMap::new();
    users.insert(10u16, User::new("x".to_string(), 1, true));
    users.insert(2u16, User::new("y".to_string(), 8, true));
    users.insert(5u16, User::new("z".to_string(), 3, true));
    assign_ranks(&mut users);
    assert_eq!((users[&2].rank, users[&5].rank, users[&10].rank), (1, 2, 3));
    let board: Vec<u32> = leaderboard(&users).iter().map(|u| u.score).collect();
    assert_eq!(board, vec![8, 3, 1]);
}

#[test]
fn compressed_grid_is_throttled() {
    let mut users = HashMap::new();
    users.insert(1u16, User::new("a".to_string(), 0, true));
    let palette = vec![(0, 0, 0), (9, 9, 9)];
    let mut s = place::canvas::AppState::new(2, 2, vec![0; 4], vec![0; 4], palette, users, 0, 0, String::new()).unwrap();
    let first = s.get_pixels_color_at(5_000);
    let mut plain = Vec::new();
    flate2::read::GzDecoder::new(&first[..]).read_to_end(&mut plain).unwrap();
    assert_eq!(plain, vec![0, 0, 0, 0]);
    assert_eq!(s.draw_at(1, 0, 1, 1, 0), Ok(0));
    assert_eq!(s.get_pixels_color_at(5_500), first);
    let later = s.get_pixels_color_at(6_001);
    let mut plain = Vec::new();
    flate2::read::GzDecoder::new(&later[..]).read_to_end(&mut plain).unwrap();
    assert_eq!(plain, vec![0, 0, 1, 0]);
}

#[test]
fn codes_spell_their_bytes() {
    assert_eq!(code_from_bytes(&b"aZ09".to_vec()), "aZ09");
    assert_eq!(code_from_bytes(&Vec::new()), "");
}

#[test]
fn member_numbers_are_read_from_addresses() {
    assert_eq!(institutional_id("e2201234@etud.univ-ubs.fr"), Some(2201234));
    assert_eq!(institutional_id("x0@a"), Some(0));
    assert_eq!(institutional_id("e4294967295@a"), Some(4294967295));
    assert_eq!(institutional_id("e4294967296@a"), None);
    assert_eq!(institutional_id("e@a"), None);
    assert_eq!(institutional_id("e12a@a"), None);
    assert_eq!(institutional_id("e123"), None);
}
