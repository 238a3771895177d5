use vstd::prelude::*;

verus! {

/// An actor of the canvas, as the registry keeps it in memory.
pub struct User {
    pub username: String,
    /// Absolute time (seconds) before which the actor may not draw again.
    pub cooldown: i64,
    /// Number of accepted draws.
    pub score: u32,
    /// 1-based position in the leaderboard as of the last consolidation.
    pub rank: u32,
    pub verified: bool,
}

impl User {
    /// A fresh actor record: no cooldown pending and no rank yet.
    pub fn new(username: String, score: u32, verified: bool) -> (r: Self)
        ensures
            r.username == username,
            r.cooldown == 0,
            r.score == score,
            r.rank == 0,
            r.verified == verified,
    {
        User { username, cooldown: 0, score, rank: 0, verified }
    }
}

impl Clone for User {
    fn clone(&self) -> (r: Self)
        ensures
            r == *self,
    {
        User {
            username: self.username.clone(),
            cooldown: self.cooldown,
            score: self.score,
            rank: self.rank,
            verified: self.verified,
        }
    }
}

/// A requested change of profile: a new name, an optional new password (blank
/// keeps the old one) and the current password that authorises the change.
pub struct ProfileEdit {
    pub username: String,
    pub password: String,
    pub current_password: String,
}

} // verus!
