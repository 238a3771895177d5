//! Shared-canvas state engine: a grid of colored cells that many actors draw
//! on, with per-actor cooldowns, a log of pending updates, fan-out of accepted
//! draws to live observers and throttled consolidation into a PNG snapshot.
pub mod auth;
pub mod broadcast;
pub mod canvas;
pub mod clock;
pub mod error;
pub mod leaderboard;
pub mod ranking;
pub mod render;
pub mod signup;
pub mod store;
pub mod updates;
pub mod user;
