//! Admission: the sessions of a server are made one by one, in the order in
//! which the peers connected, until the configured number is reached. Each
//! session keeps the socket that its peer connected on. A peer
//! whose handshake cannot be read or decoded ends the admission for good:
//! nobody is asked again, and a server is never started with fewer sessions
//! than configured.

use crate::error::AdmissionError;
use crate::error::SyncError;
use crate::player::Player;
use crate::state::PlayerState;
use vstd::prelude::*;

verus! {

/// The sessions accepted so far, how many there are to be, and whether the
/// admission has failed.
#[derive(Debug)]
pub struct Acceptor<S> {
    count: usize,
    players: Vec<Player<S>>,
    failed: bool,
}

/// The sessions that result from accepting `handshakes` one after the other:
/// each peer gets as its id the number of sessions accepted before it, and
/// its session stands last.
pub open spec fn accepted(handshakes: Seq<PlayerState>) -> Seq<PlayerState>
    decreases handshakes.len(),
{
    if handshakes.len() == 0 {
        Seq::empty()
    } else {
        let before = accepted(handshakes.drop_last());
        before.push(handshakes.last().spec_with_id(before.len() as usize))
    }
}

/// Admission ordering: accepting `handshakes` one after the other gives
/// exactly one session for each of them, in their order, and the session at
/// index `i` has the id `i` and the health and position of handshake `i`.
pub proof fn lemma_admission_order(handshakes: Seq<PlayerState>)
    requires
        handshakes.len() <= usize::MAX,
    ensures
        accepted(handshakes).len() == handshakes.len(),
        forall|i: int|
            0 <= i < handshakes.len() ==> #[trigger] accepted(handshakes)[i]
                == handshakes[i].spec_with_id(i as usize),
        forall|i: int|
            0 <= i < handshakes.len() ==> (#[trigger] accepted(handshakes)[i]).id.unwrap() == i,
    decreases handshakes.len(),
{
    if handshakes.len() > 0 {
        let earlier = handshakes.drop_last();
        lemma_admission_order(earlier);
        assert forall|i: int| 0 <= i < handshakes.len() implies #[trigger] accepted(handshakes)[i]
            == handshakes[i].spec_with_id(i as usize) by {
            if i < earlier.len() {
                assert(accepted(handshakes)[i] == accepted(earlier)[i]);
                assert(earlier[i] == handshakes[i]);
            }
        }
    }
}

impl<S> Acceptor<S> {
    /// The number of sessions that the server is to have.
    pub closed spec fn spec_count(&self) -> usize {
        self.count
    }

    /// The sessions accepted so far, in the order of their admission.
    pub closed spec fn spec_players(&self) -> Seq<Player<S>> {
        self.players@
    }

    /// The sockets of the sessions accepted so far, in the same order.
    pub open spec fn spec_sockets(&self) -> Seq<S> {
        self.spec_players().map_values(|p: Player<S>| p.spec_socket())
    }

    /// Whether a handshake has failed.
    pub closed spec fn spec_failed(&self) -> bool {
        self.failed
    }

    /// The states of the sessions accepted so far, each under its id.
    pub open spec fn view(&self) -> Seq<PlayerState> {
        self.spec_players().map_values(|p: Player<S>| p@)
    }

    /// No more sessions than configured were accepted, and each session's id
    /// is its place in the order of admission.
    pub open spec fn wf(&self) -> bool {
        &&& self@.len() <= self.spec_count()
        &&& forall|i: int| 0 <= i < self@.len() ==> (#[trigger] self@[i]).id == Some(i as usize)
    }

    /// The acceptor still waits for a peer: no handshake has failed, and
    /// fewer sessions than configured were accepted.
    pub open spec fn spec_is_open(&self) -> bool {
        !self.spec_failed() && self@.len() < self.spec_count()
    }

    /// All the configured sessions were accepted, and no handshake failed.
    pub open spec fn spec_is_complete(&self) -> bool {
        !self.spec_failed() && self@.len() >= self.spec_count()
    }

    /// An acceptor that waits for `count` peers and has accepted none.
    pub fn new(count: usize) -> (r: Acceptor<S>)
        ensures
            r.wf(),
            r.spec_count() == count,
            !r.spec_failed(),
            r@ == Seq::<PlayerState>::empty(),
            r.spec_sockets() == Seq::<S>::empty(),
    {
        let r = Acceptor { count, players: Vec::new(), failed: false };
        assert(r@ =~= Seq::<PlayerState>::empty());
        assert(r.spec_sockets() =~= Seq::<S>::empty());
        r
    }

    /// The number of sessions that the server is to have.
    pub fn count(&self) -> (r: usize)
        ensures
            r == self.spec_count(),
    {
        self.count
    }

    /// The number of sessions accepted so far.
    pub fn len(&self) -> (r: usize)
        ensures
            r == self@.len(),
    {
        self.players.len()
    }

    /// Tells whether the acceptor still waits for a peer.
    pub fn is_open(&self) -> (r: bool)
        ensures
            r == self.spec_is_open(),
    {
        !self.failed && self.players.len() < self.count
    }

    /// Tells whether all the configured sessions were accepted.
    pub fn is_complete(&self) -> (r: bool)
        ensures
            r == self.spec_is_complete(),
    {
        !self.failed && self.players.len() >= self.count
    }

    /// Accepts the peer that connected on `socket` and sent `handshake`,
    /// where the acceptor is open.
    ///
    /// The new session gets the number of sessions accepted before it as its
    /// id, which is returned; it stands last. An acceptor that is not open
    /// accepts nobody: it returns `None`, stays as it is, and lets go of the
    /// socket.
    pub fn accept(&mut self, socket: S, handshake: PlayerState) -> (r: Option<usize>)
        requires
            old(self).wf(),
        ensures
            final(self).wf(),
            final(self).spec_count() == old(self).spec_count(),
            final(self).spec_failed() == old(self).spec_failed(),
            !old(self).spec_is_open() ==> r is None && final(self)@ == old(self)@,
            !old(self).spec_is_open() ==> final(self).spec_sockets() == old(self).spec_sockets(),
            old(self).spec_is_open() ==> r == Some(old(self)@.len() as usize),
            old(self).spec_is_open() ==> final(self)@ == old(self)@.push(
                handshake.spec_with_id(old(self)@.len() as usize),
            ),
            old(self).spec_is_open() ==> final(self).spec_sockets() == old(self).spec_sockets().push(
                socket,
            ),
    {
        if self.failed || self.players.len() >= self.count {
            return None;
        }
        let id: usize = self.players.len();
        self.players.push(Player::new(id, socket, handshake));
        assert(self@ =~= old(self)@.push(handshake.spec_with_id(id)));
        assert(self.spec_sockets() =~= old(self).spec_sockets().push(socket));
        Some(id)
    }

    /// Records that the handshake of the next peer failed with `cause`, which
    /// ends the admission: from now on the acceptor is neither open nor
    /// complete. The failure is returned with the id that the peer would
    /// have had.
    pub fn reject(&mut self, cause: SyncError) -> (r: AdmissionError)
        requires
            old(self).wf(),
        ensures
            final(self).wf(),
            final(self).spec_count() == old(self).spec_count(),
            final(self).spec_failed(),
            final(self)@ == old(self)@,
            final(self).spec_sockets() == old(self).spec_sockets(),
            r.session == old(self)@.len(),
            r.cause == cause,
    {
        self.failed = true;
        AdmissionError { session: self.players.len(), cause }
    }

    /// Hands over the sessions, in the order of their admission and each with
    /// its socket, where the acceptor is complete; nothing where it is not.
    pub fn into_players(self) -> (r: Option<Vec<Player<S>>>)
        requires
            self.wf(),
        ensures
            r is Some <==> self.spec_is_complete(),
            r is Some ==> {
                &&& r.unwrap()@ == self.spec_players()
                &&& r.unwrap()@.len() == self.spec_count()
                &&& forall|i: int|
                    0 <= i < r.unwrap()@.len() ==> (#[trigger] r.unwrap()@[i]).spec_id() == i
            },
    {
        if self.failed || self.players.len() < self.count {
            return None;
        }
        proof {
            let sessions = self.players@;
            assert forall|i: int| 0 <= i < sessions.len() implies (#[trigger] sessions[i]).spec_id()
                == i by {
                assert(self@[i].id == Some(i as usize));
            }
        }
        Some(self.players)
    }

    /// Accepting one more peer is one more step of [`accepted`]: where the
    /// sessions of an open acceptor are those of `handshakes`, its sessions
    /// after it has accepted a peer with the handshake `next` are those of
    /// `handshakes` followed by `next`.
    pub proof fn lemma_accept_extends(self, handshakes: Seq<PlayerState>, next: PlayerState)
        requires
            self@ == accepted(handshakes),
        ensures
            self@.push(next.spec_with_id(self@.len() as usize)) == accepted(handshakes.push(next)),
    {
        assert(handshakes.push(next).drop_last() =~= handshakes);
    }
}

} // verus!
