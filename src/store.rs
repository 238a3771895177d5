use std::collections::HashMap;
use vstd::prelude::*;
use vstd::string::StringSliceAdditionalSpecFns;

use crate::user::User;

verus! {

broadcast use vstd::std_specs::hash::group_hash_axioms;

/// The color of a cell nobody has drawn yet.
pub const DEFAULT_COLOR: u8 = 31;

/// One stored draw, as durable storage returns it: the latest for its cell.
#[derive(Clone, Copy, Debug, PartialEq, Eq, Structural)]
pub struct PixelRow {
    pub x: i64,
    pub y: i64,
    pub user: i64,
    pub color: i64,
}

/// One stored actor with the number of draws it has made.
pub struct UserRow {
    pub id: i64,
    pub username: String,
    pub pixel_count: i64,
    pub verified: i64,
}

/// A row that names a cell of the grid, a color byte and an actor identifier.
pub open spec fn row_valid(r: PixelRow, width: nat, height: nat) -> bool {
    &&& 0 <= r.x < width
    &&& 0 <= r.y < height
    &&& 0 <= r.color <= u8::MAX
    &&& 0 <= r.user <= u16::MAX
}

/// The last valid row of `rows` that lands on cell `i`.
pub open spec fn last_row_at(rows: Seq<PixelRow>, width: nat, height: nat, i: int) -> Option<PixelRow>
    decreases rows.len(),
{
    if rows.len() == 0 {
        None
    } else {
        let r = rows.last();
        if row_valid(r, width, height) && r.x * height + r.y == i {
            Some(r)
        } else {
            last_row_at(rows.drop_last(), width, height, i)
        }
    }
}

/// Rebuilds the grid from stored rows: each cell takes the color and actor
/// of the last valid row on it, `DEFAULT_COLOR` and actor 0 where there is
/// none. Rows outside the grid or out of range are ignored.
pub fn grid_from_rows(width: usize, height: usize, rows: &Vec<PixelRow>) -> (r: (Vec<u8>, Vec<u16>))
    requires
        width * height <= usize::MAX,
    ensures
        r.0@.len() == width * height,
        r.1@.len() == width * height,
        forall|i: int|
            0 <= i < width * height ==> #[trigger] r.0@[i] == match last_row_at(rows@, width as nat, height as nat, i) {
                Some(row) => row.color as u8,
                None => DEFAULT_COLOR,
            },
        forall|i: int|
            0 <= i < width * height ==> #[trigger] r.1@[i] == match last_row_at(rows@, width as nat, height as nat, i) {
                Some(row) => row.user as u16,
                None => 0u16,
            },
{
    let cells = width * height;
    let mut colors: Vec<u8> = vec![DEFAULT_COLOR; cells];
    let mut owners: Vec<u16> = vec![0u16; cells];
    let mut t: usize = 0;
    while t < rows.len()
        invariant
            cells == width * height,
            colors@.len() == cells,
            owners@.len() == cells,
            t <= rows@.len(),
            forall|i: int|
                0 <= i < cells ==> #[trigger] colors@[i] == match last_row_at(rows@.take(t as int), width as nat, height as nat, i) {
                    Some(row) => row.color as u8,
                    None => DEFAULT_COLOR,
                },
            forall|i: int|
                0 <= i < cells ==> #[trigger] owners@[i] == match last_row_at(rows@.take(t as int), width as nat, height as nat, i) {
                    Some(row) => row.user as u16,
                    None => 0u16,
                },
        decreases rows@.len() - t,
    {
        let row = rows[t];
        proof {
            assert(rows@.take(t + 1).drop_last() == rows@.take(t as int));
            assert(rows@.take(t + 1).last() == row);
        }
        if 0 <= row.x && (row.x as u64) < (width as u64) && 0 <= row.y && (row.y as u64) < (height as u64)
            && 0 <= row.color && row.color <= 255 && 0 <= row.user && row.user <= 65535 {
            let x = row.x as usize;
            let y = row.y as usize;
            proof {
                assert(x * height + y < width * height) by (nonlinear_arith)
                    requires x < width, y < height;
                assert(x * height <= x * height + y);
            }
            let i = x * height + y;
            colors.set(i, row.color as u8);
            owners.set(i, row.user as u16);
        }
        t = t + 1;
    }
    assert(rows@.take(rows@.len() as int) == rows@);
    (colors, owners)
}

/// The actor a stored row describes.
pub open spec fn user_of_row(name: String, pixel_count: i64, verified: i64) -> User {
    User {
        username: name,
        cooldown: 0,
        score: if pixel_count < 0 {
            0
        } else if pixel_count > u32::MAX {
            u32::MAX
        } else {
            pixel_count as u32
        },
        rank: 0,
        verified: verified == 1,
    }
}

/// The registry that the first `n` rows describe; a later row for the same
/// identifier wins, and rows whose identifier is out of range are ignored.
pub open spec fn users_of_rows(rows: Seq<UserRow>, n: int) -> Map<u16, User>
    decreases n,
{
    if n <= 0 {
        Map::empty()
    } else {
        let r = rows[n - 1];
        let m = users_of_rows(rows, n - 1);
        if 0 <= r.id <= u16::MAX {
            m.insert(r.id as u16, user_of_row(r.username, r.pixel_count, r.verified))
        } else {
            m
        }
    }
}

/// Rebuilds the actor registry from stored rows. Scores are clamped to the
/// range of a score.
pub fn users_from_rows(rows: &Vec<UserRow>) -> (r: HashMap<u16, User>)
    ensures
        r@ == users_of_rows(rows@, rows@.len() as int),
{
    let mut users: HashMap<u16, User> = HashMap::new();
    let n = rows.len();
    let mut t: usize = 0;
    while t < n
        invariant
            n == rows@.len(),
            t <= n,
            users@ == users_of_rows(rows@, t as int),
        decreases n - t,
    {
        let row = &rows[t];
        if 0 <= row.id && row.id <= 65535 {
            let score: u32 = if row.pixel_count < 0 {
                0
            } else if row.pixel_count > u32::MAX as i64 {
                u32::MAX
            } else {
                row.pixel_count as u32
            };
            let u = User {
                username: row.username.clone(),
                cooldown: 0,
                score,
                rank: 0,
                verified: row.verified == 1,
            };
            users.insert(row.id as u16, u);
        }
        t = t + 1;
    }
    users
}

/// The value of one hexadecimal digit.
pub open spec fn hex_digit(b: u8) -> Option<u8> {
    if 48 <= b <= 57 {
        Some((b - 48) as u8)
    } else if 97 <= b <= 102 {
        Some((b - 87) as u8)
    } else if 65 <= b <= 70 {
        Some((b - 55) as u8)
    } else {
        None
    }
}

fn hex_digit_value(b: u8) -> (r: Option<u8>)
    ensures
        r == hex_digit(b),
{
    if 48 <= b && b <= 57 {
        Some(b - 48)
    } else if 97 <= b && b <= 102 {
        Some(b - 87)
    } else if 65 <= b && b <= 70 {
        Some(b - 55)
    } else {
        None
    }
}

/// The byte that two hexadecimal digits spell.
pub open spec fn hex_byte(hi: u8, lo: u8) -> Option<u8> {
    match (hex_digit(hi), hex_digit(lo)) {
        (Some(h), Some(l)) => Some((h * 16 + l) as u8),
        _ => None,
    }
}

/// The color a palette entry `#rrggbb` spells, in either case.
pub open spec fn hex_color(s: Seq<u8>) -> Option<(u8, u8, u8)> {
    if s.len() != 7 || s[0] != 35 {
        None
    } else {
        match (hex_byte(s[1], s[2]), hex_byte(s[3], s[4]), hex_byte(s[5], s[6])) {
            (Some(r), Some(g), Some(b)) => Some((r, g, b)),
            _ => None,
        }
    }
}

fn parse_hex_byte(hi: u8, lo: u8) -> (r: Option<u8>)
    ensures
        r == hex_byte(hi, lo),
{
    match (hex_digit_value(hi), hex_digit_value(lo)) {
        (Some(h), Some(l)) => Some(h * 16 + l),
        _ => None,
    }
}

/// Reads a palette entry written `#rrggbb`.
pub fn hex_to_rgb(s: &str) -> (r: Option<(u8, u8, u8)>)
    ensures
        r == hex_color(s.spec_bytes()),
{
    let b = s.as_bytes();
    if b.len() != 7 || b[0] != 35 {
        return None;
    }
    match (parse_hex_byte(b[1], b[2]), parse_hex_byte(b[3], b[4]), parse_hex_byte(b[5], b[6])) {
        (Some(r), Some(g), Some(bl)) => Some((r, g, bl)),
        _ => None,
    }
}

} // verus!
