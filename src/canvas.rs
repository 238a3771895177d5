use std::collections::HashMap;
use vstd::arithmetic::div_mod::lemma_fundamental_div_mod_converse;
use vstd::prelude::*;
use vstd::string::{StringExecFns, StringSliceAdditionalSpecFns};

use crate::broadcast::{enqueued, position_of, Broadcaster, ObserverView, MAX_FAILURES};
use crate::clock::{current_timestamp, current_timestamp_millis};
use crate::error::AppStateError;
use crate::leaderboard::{leaderboard, top_ids, users_at, LEADERBOARD_SIZE};
use crate::ranking::{assign_ranks, collect_ids, with_ranks};
use crate::render::{gzip, gzip_of, png_of, render_png, rgb_of};
use crate::signup::{
    check_signup_fields, institutional_id, institutional_id_of, regex_match_of, regex_matches,
    signup_error, username_len_ok, EMAIL_PATTERN, INSTITUTIONAL_PATTERN, MAX_USERNAME_LEN,
    MIN_USERNAME_LEN,
};
use crate::updates::{DatabaseUpdate, MessageUpdate};
use crate::user::User;

verus! {

broadcast use vstd::std_specs::hash::group_hash_axioms;

/// The abstract state of the canvas.
pub struct CanvasView {
    pub width: nat,
    pub height: nat,
    /// Palette index of every cell, cell `(x, y)` at `x * height + y`.
    pub colors: Seq<u8>,
    /// The actor that last drew every cell.
    pub owners: Seq<u16>,
    pub palette: Seq<(u8, u8, u8)>,
    pub users: Map<u16, User>,
    /// The snapshot image as of the last consolidation.
    pub png: Seq<u8>,
    /// The gzip-compressed grid as of the last time it was compressed.
    pub compressed: Seq<u8>,
    /// When the grid was last compressed, in milliseconds.
    pub last_compress: i64,
    pub last_update: i64,
    /// Seconds that must pass between two consolidations.
    pub update_cooldown: u16,
    /// Seconds an actor waits after each accepted draw.
    pub cooldown: u16,
    /// Accepted draws not yet handed over for durable storage, oldest first.
    pub pending: Seq<DatabaseUpdate>,
    /// Accepted draws since the last consolidation, for late observers.
    pub messages: Seq<MessageUpdate>,
    pub observers: Seq<ObserverView>,
    pub next_observer: u64,
    pub jwt_secret: Seq<char>,
    /// Signups are restricted to the institution's addresses.
    pub institutional_only: bool,
}

/// The shared canvas: the grid, the actor registry, the pending-update log,
/// the live observers and the cached snapshot.
pub struct AppState {
    width: usize,
    height: usize,
    pixels_color: Vec<u8>,
    pixels_user: Vec<u16>,
    palette: Vec<(u8, u8, u8)>,
    users: HashMap<u16, User>,
    png: Vec<u8>,
    compressed_pixels_color: Vec<u8>,
    last_compress: i64,
    last_update: i64,
    update_cooldown: u16,
    database_updates: Vec<DatabaseUpdate>,
    message_updates: Vec<MessageUpdate>,
    sessions: Broadcaster,
    institutional_only: bool,
    cooldown: u16,
    jwt_secret: String,
}

impl View for AppState {
    type V = CanvasView;

    closed spec fn view(&self) -> CanvasView {
        CanvasView {
            width: self.width as nat,
            height: self.height as nat,
            colors: self.pixels_color@,
            owners: self.pixels_user@,
            palette: self.palette@,
            users: self.users@,
            png: self.png@,
            compressed: self.compressed_pixels_color@,
            last_compress: self.last_compress,
            last_update: self.last_update,
            update_cooldown: self.update_cooldown,
            cooldown: self.cooldown,
            pending: self.database_updates@,
            messages: self.message_updates@,
            observers: self.sessions.observers(),
            next_observer: self.sessions.next_id(),
            jwt_secret: self.jwt_secret@,
            institutional_only: self.institutional_only,
        }
    }
}

/// Where cell `(x, y)` is stored.
pub open spec fn cell_index(height: nat, x: int, y: int) -> int {
    x * height + y
}

/// The grid fits its dimensions and palette, and its image fits in memory.
pub open spec fn grid_ok(
    width: nat,
    height: nat,
    colors: Seq<u8>,
    owners: Seq<u16>,
    palette: Seq<(u8, u8, u8)>,
) -> bool {
    &&& colors.len() == width * height
    &&& owners.len() == width * height
    &&& width <= u32::MAX
    &&& height <= u32::MAX
    &&& 3 * width * height <= usize::MAX
    &&& forall|i: int| 0 <= i < colors.len() ==> (#[trigger] colors[i] as int) < palette.len()
}

pub open spec fn view_wf(v: CanvasView) -> bool {
    grid_ok(v.width, v.height, v.colors, v.owners, v.palette)
}

/// When a cooldown of `cooldown` seconds started at `now` ends.
pub open spec fn expiry(now: i64, cooldown: u16) -> i64 {
    if now + cooldown > i64::MAX {
        i64::MAX
    } else {
        (now + cooldown) as i64
    }
}

/// A score after one more accepted draw.
pub open spec fn bumped(score: u32) -> u32 {
    if score == u32::MAX {
        score
    } else {
        (score + 1) as u32
    }
}

/// Why a draw is refused, in the order the checks run: the cell, the color,
/// the actor, its verification, its cooldown.
pub open spec fn draw_error(v: CanvasView, x: usize, y: usize, id: u16, color: u8, now: i64) -> Option<
    AppStateError,
> {
    if x >= v.width || y >= v.height {
        Some(AppStateError::OutOfBounds)
    } else if color >= v.palette.len() {
        Some(AppStateError::InvalidColor)
    } else if !v.users.contains_key(id) {
        Some(AppStateError::NoSuchUser)
    } else if !v.users[id].verified {
        Some(AppStateError::Unverified)
    } else if now < v.users[id].cooldown {
        Some(AppStateError::CooldownActive((v.users[id].cooldown - now) as u64))
    } else {
        None
    }
}

/// The state after an accepted draw: the cell takes the color and the
/// actor, the actor's score and cooldown move on, the draw is logged and
/// offered to every observer.
pub open spec fn after_draw(v: CanvasView, x: usize, y: usize, id: u16, color: u8, now: i64) -> CanvasView {
    let i = cell_index(v.height, x as int, y as int);
    let u = v.users[id];
    let msg = MessageUpdate { x, y, color };
    CanvasView {
        colors: v.colors.update(i, color),
        owners: v.owners.update(i, id),
        users: v.users.insert(id, User { cooldown: expiry(now, v.cooldown), score: bumped(u.score), ..u }),
        pending: v.pending.push(DatabaseUpdate { x, y, color, user_id: id, timestamp: now }),
        messages: v.messages.push(msg),
        observers: v.observers.map_values(
            |o: ObserverView| ObserverView { queue: enqueued(o.queue, msg), ..o },
        ),
        ..v
    }
}

/// Enough time has passed since the last consolidation for another one.
pub open spec fn consolidation_due(v: CanvasView, now: i64) -> bool {
    now - v.last_update >= v.update_cooldown
}

/// The snapshot that rendering the current grid gives, where encoding
/// succeeds.
pub open spec fn rendered(v: CanvasView) -> Option<Seq<u8>> {
    png_of(v.width as u32, v.height as u32, rgb_of(v.palette, v.colors, v.width, v.height))
}

/// The state after a consolidation at `now`: a fresh snapshot (the old one
/// stays where encoding fails), ranks recomputed, both logs emptied.
pub open spec fn after_consolidation(v: CanvasView, now: i64) -> CanvasView {
    CanvasView {
        png: match rendered(v) {
            Some(b) => b,
            None => v.png,
        },
        users: with_ranks(v.users),
        last_update: now,
        pending: Seq::empty(),
        messages: Seq::empty(),
        ..v
    }
}

/// Milliseconds a compressed grid is served before it is compressed anew.
pub const COMPRESS_INTERVAL_MS: i64 = 1000;

/// The compressed grid is older than `COMPRESS_INTERVAL_MS` at `now_ms`.
pub open spec fn compression_due(v: CanvasView, now_ms: i64) -> bool {
    now_ms - v.last_compress > COMPRESS_INTERVAL_MS
}

/// The state after a read of the compressed grid at `now_ms`.
pub open spec fn after_compressed_read(v: CanvasView, now_ms: i64) -> CanvasView {
    if compression_due(v, now_ms) {
        CanvasView {
            compressed: match gzip_of(v.colors) {
                Some(b) => b,
                None => v.compressed,
            },
            last_compress: now_ms,
            ..v
        }
    } else {
        v
    }
}

/// `r` and `post` are what a draw on `v` at time `now` gives.
pub open spec fn draw_result(
    v: CanvasView,
    x: usize,
    y: usize,
    id: u16,
    color: u8,
    now: i64,
    r: Result<u16, AppStateError>,
    post: CanvasView,
) -> bool {
    match r {
        Ok(cd) => {
            &&& draw_error(v, x, y, id, color, now) is None
            &&& cd == v.cooldown
            &&& post == after_draw(v, x, y, id, color, now)
        },
        Err(e) => {
            &&& draw_error(v, x, y, id, color, now) == Some(e)
            &&& post == v
        },
    }
}

/// `r` and `post` are what an attempt to consolidate `v` at time `now` gives.
pub open spec fn consolidation_result(
    v: CanvasView,
    now: i64,
    r: Option<Vec<DatabaseUpdate>>,
    post: CanvasView,
) -> bool {
    &&& !consolidation_due(v, now) ==> r is None && post == v
    &&& consolidation_due(v, now) ==> {
        &&& r matches Some(batch) && batch@ == v.pending
        &&& post == after_consolidation(v, now)
    }
}

/// Some actor already goes by `name`.
pub open spec fn name_taken(users: Map<u16, User>, name: Seq<char>) -> bool {
    exists|k: u16| users.contains_key(k) && #[trigger] users[k].username@ == name
}

/// Why a change of name by actor `id` is refused: the name's length, the
/// actor, a name that another actor has.
pub open spec fn profile_edit_error(users: Map<u16, User>, id: u16, name: Seq<char>, name_len: nat) -> Option<AppStateError> {
    if !username_len_ok(name_len) {
        Some(AppStateError::InvalidUsername)
    } else if !users.contains_key(id) {
        Some(AppStateError::NoSuchUser)
    } else if users[id].username@ != name && name_taken(users, name) {
        Some(AppStateError::NameTaken)
    } else {
        None
    }
}

/// Two in-bounds cells that are stored at the same place are the same cell.
pub proof fn lemma_cell_index_injective(height: nat, x1: int, y1: int, x2: int, y2: int)
    requires
        0 <= x1,
        0 <= x2,
        0 <= y1 < height,
        0 <= y2 < height,
        cell_index(height, x1, y1) == cell_index(height, x2, y2),
    ensures
        x1 == x2 && y1 == y2,
{
    let i = cell_index(height, x1, y1);
    lemma_fundamental_div_mod_converse(i, height as int, x1, y1);
    lemma_fundamental_div_mod_converse(i, height as int, x2, y2);
}

/// After an accepted draw at `t0`, the same actor's next attempt before its
/// cooldown has run out is refused with the seconds still to wait, wherever
/// it draws and with whatever color.
pub proof fn lemma_cooldown_blocks_next_draw(
    v: CanvasView,
    x1: usize,
    y1: usize,
    id: u16,
    c1: u8,
    t0: i64,
    x2: usize,
    y2: usize,
    c2: u8,
    t1: i64,
)
    requires
        draw_error(v, x1, y1, id, c1, t0) is None,
        x2 < v.width,
        y2 < v.height,
        c2 < v.palette.len(),
        t1 < expiry(t0, v.cooldown),
    ensures
        draw_error(after_draw(v, x1, y1, id, c1, t0), x2, y2, id, c2, t1) == Some(
            AppStateError::CooldownActive((expiry(t0, v.cooldown) - t1) as u64),
        ),
        t0 + v.cooldown <= i64::MAX ==> draw_error(after_draw(v, x1, y1, id, c1, t0), x2, y2, id, c2, t1)
            == Some(AppStateError::CooldownActive((t0 + v.cooldown - t1) as u64)),
{
}

/// Draws neither move the consolidation clock nor touch the snapshot: between
/// two consolidations every reader gets the same snapshot bytes.
pub proof fn lemma_draw_keeps_snapshot(v: CanvasView, x: usize, y: usize, id: u16, color: u8, now: i64)
    ensures
        after_draw(v, x, y, id, color, now).png == v.png,
        after_draw(v, x, y, id, color, now).last_update == v.last_update,
        after_draw(v, x, y, id, color, now).update_cooldown == v.update_cooldown,
{
}

/// After a consolidation at `t0`, another attempt at `t1` is refused while
/// fewer than `update_cooldown` seconds have passed, and runs once they have;
/// it then renders the grid as it is, with every draw accepted since.
pub proof fn lemma_consolidation_throttle(v: CanvasView, t0: i64, t1: i64)
    requires
        v.last_update == t0,
    ensures
        t1 - t0 < v.update_cooldown ==> !consolidation_due(v, t1),
        t1 - t0 >= v.update_cooldown ==> consolidation_due(v, t1),
        t1 - t0 >= v.update_cooldown ==> (rendered(v) matches Some(b) ==> after_consolidation(
            v,
            t1,
        ).png == b),
{
}

/// Two accepted draws on distinct cells both show in the grid, whichever
/// comes first: neither is lost.
pub proof fn lemma_disjoint_draws_both_kept(
    v: CanvasView,
    x1: usize,
    y1: usize,
    id1: u16,
    c1: u8,
    t1: i64,
    x2: usize,
    y2: usize,
    id2: u16,
    c2: u8,
    t2: i64,
)
    requires
        view_wf(v),
        x1 < v.width,
        y1 < v.height,
        x2 < v.width,
        y2 < v.height,
        x1 != x2 || y1 != y2,
    ensures
        ({
            let i1 = cell_index(v.height, x1 as int, y1 as int);
            let i2 = cell_index(v.height, x2 as int, y2 as int);
            let a = after_draw(after_draw(v, x1, y1, id1, c1, t1), x2, y2, id2, c2, t2);
            let b = after_draw(after_draw(v, x2, y2, id2, c2, t2), x1, y1, id1, c1, t1);
            &&& a.colors[i1] == c1 && a.owners[i1] == id1
            &&& a.colors[i2] == c2 && a.owners[i2] == id2
            &&& a.colors == b.colors
            &&& a.owners == b.owners
        }),
{
    let i1 = cell_index(v.height, x1 as int, y1 as int);
    let i2 = cell_index(v.height, x2 as int, y2 as int);
    if i1 == i2 {
        lemma_cell_index_injective(v.height, x1 as int, y1 as int, x2 as int, y2 as int);
    }
    assert(i1 < v.colors.len()) by (nonlinear_arith)
        requires i1 == x1 * v.height + y1, x1 < v.width, y1 < v.height, v.colors.len() == v.width * v.height;
    assert(i2 < v.colors.len()) by (nonlinear_arith)
        requires i2 == x2 * v.height + y2, x2 < v.width, y2 < v.height, v.colors.len() == v.width * v.height;
    let a = after_draw(after_draw(v, x1, y1, id1, c1, t1), x2, y2, id2, c2, t2);
    let b = after_draw(after_draw(v, x2, y2, id2, c2, t2), x1, y1, id1, c1, t1);
    assert(a.colors =~= b.colors);
    assert(a.owners =~= b.owners);
}

/// What a signup gives: the checks in order (address shape, the
/// institution's domain and member number where signups are restricted,
/// name length, password length, free name), then the member number.
pub open spec fn signup_result(
    institutional_only: bool,
    name_len: nat,
    password_len: nat,
    email: Seq<char>,
    email_bytes: Seq<u8>,
    name_taken: bool,
) -> Result<u32, AppStateError> {
    if !regex_match_of(EMAIL_PATTERN@, email) {
        Err(AppStateError::InvalidEmail)
    } else if institutional_only && !regex_match_of(INSTITUTIONAL_PATTERN@, email) {
        Err(AppStateError::NotInstitutional)
    } else if institutional_only && institutional_id_of(email_bytes) is None {
        Err(AppStateError::InvalidEmail)
    } else {
        match signup_error(name_len, password_len, true, name_taken) {
            Some(e) => Err(e),
            None => Ok(
                if institutional_only {
                    institutional_id_of(email_bytes).unwrap()
                } else {
                    0
                },
            ),
        }
    }
}

impl AppState {
    /// A well-formed state has a grid of `width * height` cells whose colors
    /// all select palette entries.
    pub proof fn lemma_wf_grid(&self)
        requires
            self.wf(),
        ensures
            view_wf(self@),
    {
    }

    pub closed spec fn wf(&self) -> bool {
        &&& view_wf(self@)
        &&& self.sessions.wf()
    }

    /// A canvas over a grid loaded from storage. Refused with `InvalidGrid`
    /// where the grid does not have `width * height` cells, a cell's color is
    /// not in the palette, or the image would not fit in memory.
    pub fn new(
        width: usize,
        height: usize,
        pixels_color: Vec<u8>,
        pixels_user: Vec<u16>,
        palette: Vec<(u8, u8, u8)>,
        users: HashMap<u16, User>,
        cooldown: u16,
        update_cooldown: u16,
        jwt_secret: String,
    ) -> (r: Result<Self, AppStateError>)
        ensures
            !grid_ok(width as nat, height as nat, pixels_color@, pixels_user@, palette@) ==> r
                == Err::<Self, AppStateError>(AppStateError::InvalidGrid),
            grid_ok(width as nat, height as nat, pixels_color@, pixels_user@, palette@) ==> r is Ok,
            r matches Ok(s) ==> {
                &&& s.wf()
                &&& s@ == (CanvasView {
                    width: width as nat,
                    height: height as nat,
                    colors: pixels_color@,
                    owners: pixels_user@,
                    palette: palette@,
                    users: users@,
                    png: Seq::empty(),
                    compressed: Seq::empty(),
                    last_compress: 0,
                    last_update: 0,
                    update_cooldown,
                    cooldown,
                    pending: Seq::empty(),
                    messages: Seq::empty(),
                    observers: Seq::empty(),
                    next_observer: 0,
                    jwt_secret: jwt_secret@,
                    institutional_only: false,
                })
            },
    {
        if width > u32::MAX as usize || height > u32::MAX as usize {
            return Err(AppStateError::InvalidGrid);
        }
        let cells = match width.checked_mul(height) {
            Some(c) => c,
            None => {
                proof {
                    assert(3 * width * height > usize::MAX) by (nonlinear_arith)
                        requires width * height > usize::MAX;
                }
                return Err(AppStateError::InvalidGrid);
            },
        };
        if cells > usize::MAX / 3 || pixels_color.len() != cells || pixels_user.len() != cells {
            proof {
                if cells > usize::MAX / 3 {
                    assert(3 * width * height > usize::MAX) by (nonlinear_arith)
                        requires cells == width * height, cells > usize::MAX / 3;
                }
            }
            return Err(AppStateError::InvalidGrid);
        }
        proof {
            assert(3 * width * height <= usize::MAX) by (nonlinear_arith)
                requires cells == width * height, cells <= usize::MAX / 3;
        }
        let mut i: usize = 0;
        while i < cells
            invariant
                cells == pixels_color@.len(),
                i <= cells,
                forall|j: int| 0 <= j < i ==> (#[trigger] pixels_color@[j] as int) < palette@.len(),
            decreases cells - i,
        {
            if pixels_color[i] as usize >= palette.len() {
                return Err(AppStateError::InvalidGrid);
            }
            i = i + 1;
        }
        Ok(AppState {
            width,
            height,
            pixels_color,
            pixels_user,
            palette,
            users,
            png: Vec::new(),
            compressed_pixels_color: Vec::new(),
            last_compress: 0,
            last_update: 0,
            update_cooldown,
            database_updates: Vec::new(),
            message_updates: Vec::new(),
            sessions: Broadcaster::new(),
            institutional_only: false,
            cooldown,
            jwt_secret,
        })
    }

    /// Validates and applies one draw at time `now` (seconds). On success the
    /// actor's cooldown is returned, so it knows when to draw next. A refused
    /// draw changes nothing.
    pub fn draw_at(&mut self, x: usize, y: usize, user_id: u16, color: u8, now: i64) -> (r: Result<
        u16,
        AppStateError,
    >)
        requires
            old(self).wf(),
        ensures
            final(self).wf(),
            draw_result(old(self)@, x, y, user_id, color, now, r, final(self)@),
            r is Ok ==> {
                let i = cell_index(old(self)@.height, x as int, y as int);
                &&& final(self)@.colors[i] == color
                &&& final(self)@.owners[i] == user_id
                &&& forall|j: int|
                    0 <= j < old(self)@.colors.len() && j != i ==> final(self)@.colors[j]
                        == old(self)@.colors[j] && final(self)@.owners[j] == old(self)@.owners[j]
            },
            x >= old(self)@.width || y >= old(self)@.height ==> r == Err::<u16, AppStateError>(
                AppStateError::OutOfBounds,
            ) && final(self)@ == old(self)@,
    {
        if x >= self.width || y >= self.height {
            return Err(AppStateError::OutOfBounds);
        }
        if color as usize >= self.palette.len() {
            return Err(AppStateError::InvalidColor);
        }
        let (verified, until) = match self.users.get(&user_id) {
            Some(u) => (u.verified, u.cooldown),
            None => return Err(AppStateError::NoSuchUser),
        };
        if !verified {
            return Err(AppStateError::Unverified);
        }
        if now < until {
            let remaining = (until as i128 - now as i128) as u64;
            return Err(AppStateError::CooldownActive(remaining));
        }
        proof {
            assert(x * self.height + y < self.width * self.height) by (nonlinear_arith)
                requires x < self.width, y < self.height;
            assert(x * self.height <= x * self.height + y);
            assert(self.width * self.height <= 3 * self.width * self.height) by (nonlinear_arith);
        }
        let index = x * self.height + y;
        self.pixels_color.set(index, color);
        self.pixels_user.set(index, user_id);
        let mut u = self.users.remove(&user_id).unwrap();
        u.cooldown = if now > i64::MAX - self.cooldown as i64 {
            i64::MAX
        } else {
            now + self.cooldown as i64
        };
        u.score = u.score.saturating_add(1);
        self.users.insert(user_id, u);
        self.database_updates.push(DatabaseUpdate { x, y, color, user_id, timestamp: now });
        let msg = MessageUpdate { x, y, color };
        self.message_updates.push(msg);
        self.sessions.broadcast(msg);
        proof {
            let v = after_draw(old(self)@, x, y, user_id, color, now);
            assert(self@.observers =~= v.observers);
            assert(self@.users =~= v.users);
            assert(self@ == v);
        }
        Ok(self.cooldown)
    }

    /// Validates and applies one draw now; see `draw_at`.
    pub fn draw(&mut self, x: usize, y: usize, user_id: u16, color: u8) -> (r: Result<u16, AppStateError>)
        requires
            old(self).wf(),
        ensures
            final(self).wf(),
            exists|now: i64|
                #[trigger] draw_result(old(self)@, x, y, user_id, color, now, r, final(self)@),
    {
        let now = current_timestamp();
        self.draw_at(x, y, user_id, color, now)
    }

    /// Consolidates at time `now` if the throttle allows: re-renders the
    /// snapshot, recomputes the ranks, empties both logs and hands over the
    /// accepted draws that await durable storage. Otherwise returns `None` and
    /// changes nothing.
    pub fn try_update_at(&mut self, now: i64) -> (r: Option<Vec<DatabaseUpdate>>)
        requires
            old(self).wf(),
        ensures
            final(self).wf(),
            consolidation_result(old(self)@, now, r, final(self)@),
    {
        if (now as i128) - (self.last_update as i128) < self.update_cooldown as i128 {
            return None;
        }
        self.last_update = now;
        match render_png(&self.palette, &self.pixels_color, self.width as u32, self.height as u32) {
            Some(b) => {
                self.png = b;
            },
            None => {},
        }
        assign_ranks(&mut self.users);
        let mut batch: Vec<DatabaseUpdate> = Vec::new();
        std::mem::swap(&mut batch, &mut self.database_updates);
        self.message_updates.clear();
        proof {
            assert(self@ == after_consolidation(old(self)@, now));
        }
        Some(batch)
    }

    /// Consolidates now if the throttle allows; see `try_update_at`.
    pub fn try_update(&mut self) -> (r: Option<Vec<DatabaseUpdate>>)
        requires
            old(self).wf(),
        ensures
            final(self).wf(),
            exists|now: i64| #[trigger] consolidation_result(old(self)@, now, r, final(self)@),
    {
        let now = current_timestamp();
        self.try_update_at(now)
    }

    /// Puts back, ahead of the draws accepted since, a batch that durable
    /// storage failed to take, so that the next consolidation writes it again.
    pub fn requeue_database_updates(&mut self, batch: Vec<DatabaseUpdate>)
        requires
            old(self).wf(),
        ensures
            final(self).wf(),
            final(self)@ == (CanvasView { pending: batch@ + old(self)@.pending, ..old(self)@ }),
    {
        let mut batch = batch;
        batch.append(&mut self.database_updates);
        self.database_updates = batch;
    }

    /// Recomputes every actor's rank from the current scores.
    pub fn recompute_ranks(&mut self)
        requires
            old(self).wf(),
        ensures
            final(self).wf(),
            final(self)@ == (CanvasView { users: with_ranks(old(self)@.users), ..old(self)@ }),
    {
        assign_ranks(&mut self.users);
    }

    pub fn get_size(&self) -> (r: (usize, usize))
        ensures
            r.0 == self@.width && r.1 == self@.height,
    {
        (self.width, self.height)
    }

    /// The grid's color indices, gzip-compressed, at time `now_ms`
    /// (milliseconds). The compression is redone at most once per
    /// `COMPRESS_INTERVAL_MS`; in between, and where it fails, the last one
    /// is served.
    pub fn get_pixels_color_at(&mut self, now_ms: i64) -> (r: Vec<u8>)
        requires
            old(self).wf(),
        ensures
            final(self).wf(),
            final(self)@ == after_compressed_read(old(self)@, now_ms),
            r@ == final(self)@.compressed,
    {
        if (now_ms as i128) - (self.last_compress as i128) > COMPRESS_INTERVAL_MS as i128 {
            self.last_compress = now_ms;
            match gzip(&self.pixels_color) {
                Some(b) => {
                    self.compressed_pixels_color = b;
                },
                None => {},
            }
        }
        self.compressed_pixels_color.clone()
    }

    /// The compressed grid now; see `get_pixels_color_at`.
    pub fn get_pixels_color(&mut self) -> (r: Vec<u8>)
        requires
            old(self).wf(),
        ensures
            final(self).wf(),
            exists|now_ms: i64| #[trigger] after_compressed_read(old(self)@, now_ms) == final(self)@,
            r@ == final(self)@.compressed,
    {
        let now_ms = current_timestamp_millis();
        self.get_pixels_color_at(now_ms)
    }

    /// The color index of cell `(x, y)`.
    pub fn get_pixel(&self, x: usize, y: usize) -> (r: u8)
        requires
            self.wf(),
            x < self@.width,
            y < self@.height,
        ensures
            r == self@.colors[cell_index(self@.height, x as int, y as int)],
    {
        proof {
            assert(x * self.height + y < self.width * self.height) by (nonlinear_arith)
                requires x < self.width, y < self.height;
            assert(x * self.height <= x * self.height + y);
            assert(self.width * self.height <= 3 * self.width * self.height) by (nonlinear_arith);
        }
        self.pixels_color[x * self.height + y]
    }

    /// The actor that last drew cell `(x, y)`.
    pub fn owner_of(&self, x: usize, y: usize) -> (r: u16)
        requires
            self.wf(),
            x < self@.width,
            y < self@.height,
        ensures
            r == self@.owners[cell_index(self@.height, x as int, y as int)],
    {
        proof {
            assert(x * self.height + y < self.width * self.height) by (nonlinear_arith)
                requires x < self.width, y < self.height;
            assert(x * self.height <= x * self.height + y);
            assert(self.width * self.height <= 3 * self.width * self.height) by (nonlinear_arith);
        }
        self.pixels_user[x * self.height + y]
    }

    /// The snapshot image as of the last consolidation.
    pub fn get_png(&self) -> (r: &Vec<u8>)
        ensures
            r@ == self@.png,
    {
        &self.png
    }

    /// The draws accepted since the last consolidation, oldest first.
    pub fn get_message_updates(&self) -> (r: Vec<MessageUpdate>)
        ensures
            r@ == self@.messages,
    {
        self.message_updates.clone()
    }

    /// The draws that await durable storage, oldest first.
    pub fn get_database_updates(&self) -> (r: &Vec<DatabaseUpdate>)
        ensures
            r@ == self@.pending,
    {
        &self.database_updates
    }

    pub fn get_user(&self, id: u16) -> (r: Option<&User>)
        ensures
            match r {
                Some(u) => self@.users.contains_key(id) && *u == self@.users[id],
                None => !self@.users.contains_key(id),
            },
    {
        self.users.get(&id)
    }

    /// Adds or replaces the actor with identifier `id`.
    pub fn insert_user(&mut self, id: u16, user: User)
        requires
            old(self).wf(),
        ensures
            final(self).wf(),
            final(self)@ == (CanvasView { users: old(self)@.users.insert(id, user), ..old(self)@ }),
    {
        self.users.insert(id, user);
    }

    /// Marks the actor `id` as verified; `false` if there is no such actor.
    pub fn verify_user(&mut self, id: u16) -> (r: bool)
        requires
            old(self).wf(),
        ensures
            final(self).wf(),
            r == old(self)@.users.contains_key(id),
            r ==> final(self)@ == (CanvasView {
                users: old(self)@.users.insert(id, User { verified: true, ..old(self)@.users[id] }),
                ..old(self)@
            }),
            !r ==> final(self)@ == old(self)@,
    {
        match self.users.remove(&id) {
            Some(u) => {
                let mut u = u;
                u.verified = true;
                self.users.insert(id, u);
                proof {
                    assert(self@.users =~= old(self)@.users.insert(
                        id,
                        User { verified: true, ..old(self)@.users[id] },
                    ));
                }
                true
            },
            None => {
                assert(self@.users =~= old(self)@.users);
                false
            },
        }
    }

    /// Gives the actor `id` a new name; `false` if there is no such actor.
    pub fn rename_user(&mut self, id: u16, username: String) -> (r: bool)
        requires
            old(self).wf(),
        ensures
            final(self).wf(),
            r == old(self)@.users.contains_key(id),
            r ==> final(self)@ == (CanvasView {
                users: old(self)@.users.insert(id, User { username, ..old(self)@.users[id] }),
                ..old(self)@
            }),
            !r ==> final(self)@ == old(self)@,
    {
        match self.users.remove(&id) {
            Some(u) => {
                let mut u = u;
                u.username = username;
                self.users.insert(id, u);
                proof {
                    assert(self@.users =~= old(self)@.users.insert(
                        id,
                        User { username, ..old(self)@.users[id] },
                    ));
                }
                true
            },
            None => {
                assert(self@.users =~= old(self)@.users);
                false
            },
        }
    }

    /// The leaderboard: the first `LEADERBOARD_SIZE` actors by rank as of the
    /// last consolidation.
    pub fn get_leaderboard(&self) -> (r: Vec<User>)
        ensures
            r@ == users_at(
                self@.users,
                top_ids(
                    self@.users,
                    if self@.users.len() < LEADERBOARD_SIZE {
                        self@.users.len()
                    } else {
                        LEADERBOARD_SIZE as nat
                    },
                ),
            ),
    {
        leaderboard(&self.users)
    }

    pub fn is_username_taken(&self, username: &str) -> (r: bool)
        ensures
            r == name_taken(self@.users, username@),
    {
        let name = String::from_str(username);
        let ids = collect_ids(&self.users);
        let mut i: usize = 0;
        while i < ids.len()
            invariant
                name@ == username@,
                ids@.to_set() == self.users@.dom(),
                i <= ids@.len(),
                forall|j: int| 0 <= j < i ==> self.users@[#[trigger] ids@[j]].username@ != name@,
            decreases ids@.len() - i,
        {
            assert(ids@.to_set().contains(ids@[i as int]));
            if self.users.get(&ids[i]).unwrap().username == name {
                return true;
            }
            i = i + 1;
        }
        proof {
            assert forall|k: u16| self.users@.contains_key(k) implies #[trigger] self.users@[k].username@ != username@ by {
                assert(ids@.to_set().contains(k));
                let j = choose|j: int| 0 <= j < ids@.len() && ids@[j] == k;
                assert(self.users@[ids@[j]].username@ != name@);
            }
        }
        false
    }

    /// The name of the actor that last drew cell `(x, y)`, or "No username"
    /// where that actor is unknown.
    pub fn get_username_from_pixel(&self, x: usize, y: usize) -> (r: String)
        requires
            self.wf(),
            x < self@.width,
            y < self@.height,
        ensures
            ({
                let owner = self@.owners[cell_index(self@.height, x as int, y as int)];
                r@ == if self@.users.contains_key(owner) {
                    self@.users[owner].username@
                } else {
                    "No username"@
                }
            }),
    {
        proof {
            assert(x * self.height + y < self.width * self.height) by (nonlinear_arith)
                requires x < self.width, y < self.height;
            assert(x * self.height <= x * self.height + y);
            assert(self.width * self.height <= 3 * self.width * self.height) by (nonlinear_arith);
        }
        let owner = self.pixels_user[x * self.height + y];
        match self.users.get(&owner) {
            Some(u) => u.username.clone(),
            None => String::from_str("No username"),
        }
    }

    /// Checks a signup and, where signups are restricted to the institution,
    /// returns the member number read from the address (0 otherwise).
    pub fn check_signup(&self, username: &str, password: &str, email: &str) -> (r: Result<u32, AppStateError>)
        ensures
            r == signup_result(
                self@.institutional_only,
                username.len() as nat,
                password.len() as nat,
                email@,
                email.spec_bytes(),
                name_taken(self@.users, username@),
            ),
    {
        let email_ok = regex_matches(EMAIL_PATTERN, email);
        let mut id: u32 = 0;
        if email_ok && self.institutional_only {
            if !regex_matches(INSTITUTIONAL_PATTERN, email) {
                return Err(AppStateError::NotInstitutional);
            }
            match institutional_id(email) {
                Some(i) => {
                    id = i;
                },
                None => return Err(AppStateError::InvalidEmail),
            }
        }
        let taken = self.is_username_taken(username);
        match check_signup_fields(username, password, email_ok, taken) {
            Ok(()) => Ok(id),
            Err(e) => Err(e),
        }
    }

    /// Restricts signups to the institution's addresses, or lifts the
    /// restriction.
    pub fn set_institutional_only(&mut self, on: bool)
        requires
            old(self).wf(),
        ensures
            final(self).wf(),
            final(self)@ == (CanvasView { institutional_only: on, ..old(self)@ }),
    {
        self.institutional_only = on;
    }

    pub fn institutional_only(&self) -> (r: bool)
        ensures
            r == self@.institutional_only,
    {
        self.institutional_only
    }

    /// Checks that actor `id` may take the name `username`.
    pub fn check_profile_edit(&self, id: u16, username: &str) -> (r: Result<(), AppStateError>)
        ensures
            match profile_edit_error(self@.users, id, username@, username.len() as nat) {
                Some(e) => r == Err::<(), AppStateError>(e),
                None => r is Ok,
            },
    {
        let n = username.len();
        if n < MIN_USERNAME_LEN || n > MAX_USERNAME_LEN {
            return Err(AppStateError::InvalidUsername);
        }
        let same = match self.users.get(&id) {
            Some(u) => u.username == String::from_str(username),
            None => return Err(AppStateError::NoSuchUser),
        };
        if !same && self.is_username_taken(username) {
            return Err(AppStateError::NameTaken);
        }
        Ok(())
    }

    /// Registers a live observer and returns its handle; `None` once every
    /// handle has been used.
    pub fn add_session(&mut self) -> (r: Option<u64>)
        requires
            old(self).wf(),
        ensures
            final(self).wf(),
            old(self)@.next_observer == u64::MAX ==> r is None && final(self)@ == old(self)@,
            old(self)@.next_observer < u64::MAX ==> {
                &&& r == Some(old(self)@.next_observer)
                &&& final(self)@ == (CanvasView {
                    observers: old(self)@.observers.push(
                        ObserverView { id: old(self)@.next_observer, queue: Seq::empty(), failures: 0 },
                    ),
                    next_observer: (old(self)@.next_observer + 1) as u64,
                    ..old(self)@
                })
            },
    {
        self.sessions.register()
    }

    /// Removes the observer `id`; `false` if there was none.
    pub fn remove_session(&mut self, id: u64) -> (r: bool)
        requires
            old(self).wf(),
        ensures
            final(self).wf(),
            match position_of(old(self)@.observers, id) {
                Some(i) => r && final(self)@ == (CanvasView {
                    observers: old(self)@.observers.remove(i),
                    ..old(self)@
                }),
                None => !r && final(self)@ == old(self)@,
            },
    {
        self.sessions.unregister(id)
    }

    /// Hands over the updates queued for observer `id`, oldest first, and
    /// empties its queue.
    pub fn take_session_updates(&mut self, id: u64) -> (r: Vec<MessageUpdate>)
        requires
            old(self).wf(),
        ensures
            final(self).wf(),
            match position_of(old(self)@.observers, id) {
                Some(i) => r@ == old(self)@.observers[i].queue && final(self)@ == (CanvasView {
                    observers: old(self)@.observers.update(
                        i,
                        ObserverView { queue: Seq::empty(), ..old(self)@.observers[i] },
                    ),
                    ..old(self)@
                }),
                None => r@ == Seq::<MessageUpdate>::empty() && final(self)@ == old(self)@,
            },
    {
        self.sessions.take_pending(id)
    }

    /// Records whether a delivery to observer `id` succeeded. A success clears
    /// its failure count; the failure that reaches `MAX_FAILURES` evicts it.
    /// Returns whether it was evicted.
    pub fn report_delivery(&mut self, id: u64, delivered: bool) -> (evicted: bool)
        requires
            old(self).wf(),
        ensures
            final(self).wf(),
            final(self)@ == (CanvasView { observers: final(self)@.observers, ..old(self)@ }),
            match position_of(old(self)@.observers, id) {
                Some(i) => {
                    let o = old(self)@.observers[i];
                    if delivered {
                        !evicted && final(self)@.observers == old(self)@.observers.update(
                            i,
                            ObserverView { failures: 0, ..o },
                        )
                    } else if o.failures + 1 >= MAX_FAILURES {
                        evicted && final(self)@.observers == old(self)@.observers.remove(i)
                    } else {
                        !evicted && final(self)@.observers == old(self)@.observers.update(
                            i,
                            ObserverView { failures: (o.failures + 1) as u8, ..o },
                        )
                    }
                },
                None => !evicted && final(self)@ == old(self)@,
            },
    {
        self.sessions.report_delivery(id, delivered)
    }

    pub fn user_length(&self) -> (r: usize)
        ensures
            r == self@.users.len(),
    {
        self.users.len()
    }

    /// The number of live observers.
    pub fn get_users_connected(&self) -> (r: usize)
        ensures
            r == self@.observers.len(),
    {
        self.sessions.len()
    }

    /// Seconds an actor waits after each accepted draw.
    pub fn cooldown(&self) -> (r: u16)
        ensures
            r == self@.cooldown,
    {
        self.cooldown
    }

    pub fn jwt_secret(&self) -> (r: &str)
        ensures
            r@ == self@.jwt_secret,
    {
        self.jwt_secret.as_str()
    }
}

} // verus!
