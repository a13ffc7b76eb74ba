//! What a server is started with where nothing else is asked for.

use vstd::prelude::*;

verus! {

/// The number of players that a server waits for.
pub const DEFAULT_PLAYERS: usize = 1;

/// The port that a server listens on.
pub const DEFAULT_PORT: u16 = 7512;

} // verus!
