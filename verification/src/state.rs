//! The state record that peers and server exchange.

use vstd::prelude::*;

verus! {

/// A point in space: three binary64 bit patterns.
#[derive(Clone, Copy, Debug, PartialEq, Eq, Structural)]
pub struct Position {
    pub x: u64,
    pub y: u64,
    pub z: u64,
}

/// One player's state as it travels on the wire.
///
/// `id` is absent in what a peer sends (the server assigns it) and present in
/// what the server sends. `health` is a binary64 bit pattern; the server puts no
/// bound on it.
#[derive(Clone, Copy, Debug, PartialEq, Eq, Structural)]
pub struct PlayerState {
    pub id: Option<usize>,
    pub health: u64,
    pub position: Position,
}

impl PlayerState {
    /// The same record under another id.
    pub open spec fn spec_with_id(self, id: usize) -> PlayerState {
        PlayerState { id: Some(id), health: self.health, position: self.position }
    }

    /// What a session that holds this record holds after its peer replied
    /// `reply`: the reply's health and position under the id it had before.
    pub open spec fn spec_refreshed(self, reply: PlayerState) -> PlayerState {
        PlayerState { id: self.id, health: reply.health, position: reply.position }
    }

    /// The same record under another id.
    pub fn with_id(self, id: usize) -> (r: PlayerState)
        ensures
            r == self.spec_with_id(id),
    {
        PlayerState { id: Some(id), health: self.health, position: self.position }
    }
}

} // verus!
