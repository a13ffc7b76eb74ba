//! The peer's side of the protocol: what a player's client does with a
//! message that it read from the server.

use crate::frame::is_request;
use crate::frame::request_token_bytes;
use vstd::prelude::*;

verus! {

/// What a peer does after one read from the server.
#[derive(Clone, Copy, Debug, PartialEq, Eq, Structural)]
pub enum Reaction {
    /// Nothing was read: the server has closed the connection, and the peer
    /// stops.
    Disconnect,
    /// The server asked for the peer's state: the peer sends it.
    SendState,
    /// Anything else, such as a snapshot: the peer sends nothing and reads on.
    ReadOn,
}

/// The reaction to `message`.
pub open spec fn reaction_to(message: Seq<u8>) -> Reaction {
    if message.len() == 0 {
        Reaction::Disconnect
    } else if message == request_token_bytes() {
        Reaction::SendState
    } else {
        Reaction::ReadOn
    }
}

/// Decides what a peer does with the bytes of one read.
pub fn react(message: &[u8]) -> (r: Reaction)
    ensures
        r == reaction_to(message@),
{
    if message.len() == 0 {
        Reaction::Disconnect
    } else if is_request(message) {
        Reaction::SendState
    } else {
        Reaction::ReadOn
    }
}

} // verus!
