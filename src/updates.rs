use vstd::prelude::*;

verus! {

/// What live observers are told of one accepted draw.
#[derive(Clone, Copy, Debug, PartialEq, Eq, Structural)]
pub struct MessageUpdate {
    pub x: usize,
    pub y: usize,
    pub color: u8,
}

/// The record of one accepted draw, waiting to be written to durable storage.
#[derive(Clone, Copy, Debug, PartialEq, Eq, Structural)]
pub struct DatabaseUpdate {
    pub x: usize,
    pub y: usize,
    pub color: u8,
    pub user_id: u16,
    pub timestamp: i64,
}

} // verus!
