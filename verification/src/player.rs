//! One session: a peer's socket, and the server's cached copy of the peer's
//! state.

use crate::state::PlayerState;
use crate::state::Position;
use vstd::prelude::*;

verus! {

/// The socket of a peer together with the last state that the peer is known
/// to have had, under the id that the server gave the peer when it was
/// admitted. The id never changes afterwards; health and position are
/// replaced as a whole by every reply.
///
/// The library never reads or writes the socket, whose type `S` is the
/// driver's choice: it only keeps each socket with its session.
#[derive(Debug)]
pub struct Player<S> {
    id: usize,
    socket: S,
    health: u64,
    position: Position,
}

impl<S> View for Player<S> {
    type V = PlayerState;

    /// The session as a state record; its id is always present.
    open spec fn view(&self) -> PlayerState {
        PlayerState {
            id: Some(self.spec_id()),
            health: self.spec_health(),
            position: self.spec_position(),
        }
    }
}

impl<S> Player<S> {
    /// The id that the session was admitted under.
    pub closed spec fn spec_id(&self) -> usize {
        self.id
    }

    /// The peer's socket.
    pub closed spec fn spec_socket(&self) -> S {
        self.socket
    }

    /// The cached health.
    pub closed spec fn spec_health(&self) -> u64 {
        self.health
    }

    /// The cached position.
    pub closed spec fn spec_position(&self) -> Position {
        self.position
    }

    /// Makes the session of the peer behind `socket` from the state that the
    /// peer sent as its handshake. Whatever id the handshake holds is
    /// replaced by `id`.
    pub fn new(id: usize, socket: S, handshake: PlayerState) -> (r: Player<S>)
        ensures
            r@ == handshake.spec_with_id(id),
            r.spec_socket() == socket,
    {
        Player { id, socket, health: handshake.health, position: handshake.position }
    }

    /// The id that the session was admitted under.
    pub fn id(&self) -> (r: usize)
        ensures
            r == self.spec_id(),
    {
        self.id
    }

    /// The peer's socket.
    pub fn socket(&self) -> (r: &S)
        ensures
            *r == self.spec_socket(),
    {
        &self.socket
    }

    /// The peer's socket, to read from or write to. Whatever is done to the
    /// socket, the session's id and cached state stay.
    pub fn socket_mut(&mut self) -> (r: &mut S)
        ensures
            *r == old(self).spec_socket(),
            final(self).spec_socket() == *final(r),
            final(self)@ == old(self)@,
    {
        &mut self.socket
    }

    /// The cached health, as a bit pattern.
    pub fn health(&self) -> (r: u64)
        ensures
            r == self@.health,
    {
        self.health
    }

    /// The cached position.
    pub fn position(&self) -> (r: &Position)
        ensures
            *r == self@.position,
    {
        &self.position
    }

    /// The session's cached state, for a snapshot.
    pub fn state(&self) -> (r: PlayerState)
        ensures
            r == self@,
    {
        PlayerState { id: Some(self.id), health: self.health, position: self.position }
    }

    /// Takes a peer's reply to a request for its state: health and position
    /// become those of the reply; the id and the socket stay, and the reply's
    /// own id is ignored.
    pub fn request(&mut self, reply: PlayerState)
        ensures
            final(self)@ == old(self)@.spec_refreshed(reply),
            final(self).spec_id() == old(self).spec_id(),
            final(self).spec_socket() == old(self).spec_socket(),
    {
        self.health = reply.health;
        self.position = reply.position;
    }
}

} // verus!
