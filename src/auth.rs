use vstd::prelude::*;

verus! {

/// How long a session token stays valid, in seconds (seven days).
pub const TOKEN_LIFETIME: i64 = 604800;

/// What a session token carries: the actor it was issued to and when it
/// expires (seconds since the Unix epoch).
#[derive(Clone, Copy, Debug, PartialEq, Eq, Structural)]
pub struct Claims {
    pub id: u16,
    pub exp: usize,
}

/// When a token issued at `now` expires; never before the epoch.
pub open spec fn token_expiry(now: i64) -> int {
    if now + TOKEN_LIFETIME < 0 {
        0
    } else if now + TOKEN_LIFETIME > usize::MAX {
        usize::MAX as int
    } else {
        now + TOKEN_LIFETIME
    }
}

impl Claims {
    /// The claims of a token issued to actor `id` at time `now`.
    pub fn new(id: u16, now: i64) -> (r: Self)
        ensures
            r.id == id,
            r.exp == token_expiry(now),
    {
        let t = now as i128 + TOKEN_LIFETIME as i128;
        let exp: usize = if t < 0 {
            0
        } else if t > usize::MAX as i128 {
            usize::MAX
        } else {
            t as usize
        };
        Claims { id, exp }
    }
}

} // verus!
