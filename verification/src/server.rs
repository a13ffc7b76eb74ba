//! The synchronisation rounds.
//!
//! A round has two phases. In the request phase the server asks every session
//! for its state, one session at a time and in the order of admission, and
//! replaces the session's cached state by the reply. When the last reply has
//! come it captures the states of all sessions in one snapshot. In the inform
//! phase it delivers that snapshot, the states of all sessions in session
//! order, to every session in turn. Then the next round begins.
//!
//! The server does no I/O. It names the next [`Action`], a driver performs it
//! on the session's socket and reports the outcome as an [`Event`] to
//! [`Server::run`], which answers with the action after that. A failure of any
//! session stops the server for good: nothing is pending then, and no event
//! changes it any more.

use crate::error::SyncError;
use crate::player::Player;
use crate::state::PlayerState;
use vstd::prelude::*;

verus! {

/// Where the server stands in its rounds.
#[derive(Clone, Copy, Debug, PartialEq, Eq, Structural)]
pub enum Phase {
    /// Request phase: the reply of the session with this index is awaited.
    Requesting(usize),
    /// Inform phase: the snapshot is being delivered to the session with
    /// this index.
    Informing(usize),
    /// The session with this index failed, and the server has stopped.
    Stopped(usize),
}

/// The state of one session as the rounds pass.
#[derive(Clone, Copy, Debug, PartialEq, Eq, Structural)]
pub enum Status {
    /// Nothing is awaited from the peer.
    Connected,
    /// The peer was asked for its state and has not replied yet.
    AwaitingResponse,
    /// The session failed. It is not removed: the server stops with it.
    Disconnected,
}

/// What the driver is to do next.
#[derive(Clone, Copy, Debug, PartialEq, Eq, Structural)]
pub enum Action {
    /// Send the request token to this session's peer and read its reply.
    Request { session: usize },
    /// Send the server's snapshot to this session's peer.
    Inform { session: usize },
}

/// How the pending action ended.
#[derive(Debug)]
pub enum Event {
    /// The peer replied to a request with this state.
    Replied(PlayerState),
    /// The snapshot was written to the peer.
    Delivered,
    /// The action failed: the socket did, or the reply could not be decoded.
    Failed(SyncError),
}

/// The server as a mathematical value.
#[verifier::ext_equal]
pub struct ServerView {
    /// The cached state of every session, in the order of admission.
    pub players: Seq<PlayerState>,
    /// Where the server stands in its rounds.
    pub phase: Phase,
    /// The states captured at the end of the last request phase.
    pub snapshot: Seq<PlayerState>,
}

impl ServerView {
    /// Every session has an id; the phase points at a session; and during the
    /// inform phase the snapshot is the current state of all sessions.
    pub open spec fn wf(self) -> bool {
        &&& self.players.len() <= usize::MAX
        &&& forall|j: int| 0 <= j < self.players.len() ==> (#[trigger] self.players[j]).id is Some
        &&& match self.phase {
            Phase::Requesting(i) => i < self.players.len() || (i == 0 && self.players.len() == 0),
            Phase::Informing(i) => i < self.players.len() && self.snapshot == self.players,
            Phase::Stopped(i) => i < self.players.len(),
        }
    }

    /// The action that the driver is to perform now; none once the server has
    /// stopped, and none for a server without sessions.
    pub open spec fn pending(self) -> Option<Action> {
        match self.phase {
            Phase::Requesting(i) => if i < self.players.len() {
                Some(Action::Request { session: i })
            } else {
                None
            },
            Phase::Informing(i) => if i < self.players.len() {
                Some(Action::Inform { session: i })
            } else {
                None
            },
            Phase::Stopped(_) => None,
        }
    }

    /// Whether `event` can be the outcome of the pending action: a reply
    /// answers a request, a delivery an inform, and either can fail.
    pub open spec fn accepts(self, event: Event) -> bool {
        match (self.pending(), event) {
            (Some(Action::Request { .. }), Event::Replied(_)) => true,
            (Some(Action::Inform { .. }), Event::Delivered) => true,
            (Some(_), Event::Failed(_)) => true,
            _ => false,
        }
    }

    /// The server after `event`. An event that is not accepted changes
    /// nothing.
    pub open spec fn step(self, event: Event) -> ServerView {
        if !self.accepts(event) {
            self
        } else {
            match (self.phase, event) {
                (Phase::Requesting(i), Event::Replied(reply)) => {
                    let players = self.players.update(
                        i as int,
                        self.players[i as int].spec_refreshed(reply),
                    );
                    if i + 1 < self.players.len() {
                        ServerView {
                            players,
                            phase: Phase::Requesting((i + 1) as usize),
                            snapshot: self.snapshot,
                        }
                    } else {
                        ServerView { players, phase: Phase::Informing(0), snapshot: players }
                    }
                },
                (Phase::Informing(i), Event::Delivered) => {
                    if i + 1 < self.players.len() {
                        ServerView { phase: Phase::Informing((i + 1) as usize), ..self }
                    } else {
                        ServerView { phase: Phase::Requesting(0), ..self }
                    }
                },
                (Phase::Requesting(i), Event::Failed(_)) => ServerView {
                    phase: Phase::Stopped(i),
                    ..self
                },
                (Phase::Informing(i), Event::Failed(_)) => ServerView {
                    phase: Phase::Stopped(i),
                    ..self
                },
                _ => self,
            }
        }
    }

    /// What running the server with `event` returns: the error of a failure,
    /// else the action that is pending afterwards.
    pub open spec fn outcome(self, event: Event) -> Result<Option<Action>, SyncError> {
        match event {
            Event::Failed(error) => Err(error),
            _ => Ok(self.step(event).pending()),
        }
    }

    /// The state of the session with index `session`.
    pub open spec fn status(self, session: int) -> Status {
        match self.phase {
            Phase::Requesting(i) => if i == session && session < self.players.len() {
                Status::AwaitingResponse
            } else {
                Status::Connected
            },
            Phase::Informing(_) => Status::Connected,
            Phase::Stopped(i) => if i == session {
                Status::Disconnected
            } else {
                Status::Connected
            },
        }
    }

    /// The server after the replies `replies` have come, one after the other.
    pub open spec fn after_replies(self, replies: Seq<PlayerState>) -> ServerView
        decreases replies.len(),
    {
        if replies.len() == 0 {
            self
        } else {
            self.step(Event::Replied(replies[0])).after_replies(replies.skip(1))
        }
    }

    /// The server after `count` deliveries of the snapshot.
    pub open spec fn after_deliveries(self, count: nat) -> ServerView
        decreases count,
    {
        if count == 0 {
            self
        } else {
            self.step(Event::Delivered).after_deliveries((count - 1) as nat)
        }
    }

    /// Whatever happens, a well-formed server stays well-formed and keeps its
    /// sessions, each under its id.
    pub proof fn lemma_step_keeps_sessions(self, event: Event)
        requires
            self.wf(),
        ensures
            self.step(event).wf(),
            self.step(event).players.len() == self.players.len(),
            forall|j: int|
                0 <= j < self.players.len() ==> (#[trigger] self.step(event).players[j]).id
                    == self.players[j].id,
    {
    }

    /// The rest of a request phase. Where the reply of session `first` is
    /// awaited and `replies` holds the replies of the sessions from `first`
    /// on, the server has afterwards entered the inform phase; the sessions
    /// before `first` are as they were; every other session holds its reply
    /// under its own id; and the snapshot holds the states of all sessions.
    pub proof fn lemma_request_phase(self, first: int, replies: Seq<PlayerState>)
        requires
            self.wf(),
            0 <= first < self.players.len(),
            self.phase == Phase::Requesting(first as usize),
            replies.len() == self.players.len() - first,
        ensures
            self.after_replies(replies).wf(),
            self.after_replies(replies).phase == Phase::Informing(0),
            self.after_replies(replies).players.len() == self.players.len(),
            forall|j: int|
                0 <= j < first ==> (#[trigger] self.after_replies(replies).players[j])
                    == self.players[j],
            forall|j: int|
                first <= j < self.players.len() ==> (#[trigger] self.after_replies(
                    replies,
                ).players[j]) == self.players[j].spec_refreshed(replies[j - first]),
            self.after_replies(replies).snapshot == self.after_replies(replies).players,
        decreases replies.len(),
    {
        let next = self.step(Event::Replied(replies[0]));
        let rest = replies.skip(1);
        assert(self.accepts(Event::Replied(replies[0])));
        self.lemma_step_keeps_sessions(Event::Replied(replies[0]));
        assert(self.after_replies(replies) == next.after_replies(rest));
        if first + 1 < self.players.len() {
            next.lemma_request_phase(first + 1, rest);
            let after = self.after_replies(replies);
            assert forall|j: int| first <= j < self.players.len() implies #[trigger] after.players[j]
                == self.players[j].spec_refreshed(replies[j - first]) by {
                if j > first {
                    assert(rest[j - (first + 1)] == replies[j - first]);
                }
            }
        } else {
            assert(rest.len() == 0);
            assert(next.after_replies(rest) == next);
        }
    }

    /// State freshness: after the request phase of a round, every session's
    /// cached state is exactly what its peer replied in that round, under the
    /// id that the session had before; and the snapshot for the inform phase
    /// holds these states in session order.
    pub proof fn lemma_state_freshness(self, replies: Seq<PlayerState>)
        requires
            self.wf(),
            self.phase == Phase::Requesting(0),
            self.players.len() > 0,
            replies.len() == self.players.len(),
        ensures
            self.after_replies(replies).phase == Phase::Informing(0),
            self.after_replies(replies).players.len() == self.players.len(),
            forall|j: int|
                0 <= j < self.players.len() ==> {
                    &&& (#[trigger] self.after_replies(replies).players[j]).id
                        == self.players[j].id
                    &&& self.after_replies(replies).players[j].health == replies[j].health
                    &&& self.after_replies(replies).players[j].position == replies[j].position
                },
            self.after_replies(replies).snapshot == self.after_replies(replies).players,
    {
        self.lemma_request_phase(0, replies);
    }

    /// The inform phase changes no session and no snapshot. From the delivery
    /// to session `first` on, after `count` deliveries the server delivers to
    /// session `first + count`, or has begun the next round where there is no
    /// such session.
    pub proof fn lemma_inform_phase(self, first: int, count: nat)
        requires
            self.wf(),
            0 <= first < self.players.len(),
            self.phase == Phase::Informing(first as usize),
            first + count <= self.players.len(),
        ensures
            self.after_deliveries(count).wf(),
            self.after_deliveries(count).players == self.players,
            self.after_deliveries(count).snapshot == self.players,
            first + count < self.players.len() ==> self.after_deliveries(count).phase
                == Phase::Informing((first + count) as usize),
            first + count == self.players.len() ==> self.after_deliveries(count).phase
                == Phase::Requesting(0),
        decreases count,
    {
        if count > 0 {
            let next = self.step(Event::Delivered);
            assert(self.accepts(Event::Delivered));
            if first + 1 < self.players.len() {
                next.lemma_inform_phase(first + 1, (count - 1) as nat);
            } else {
                assert(count == 1);
                assert(next.after_deliveries(0) == next);
            }
        }
    }

    /// Snapshot consistency: in a round, whichever session the snapshot is
    /// being delivered to, the snapshot holds for every session what that
    /// session's peer replied in the request phase of the same round. No
    /// delivery carries a state of an earlier round or of a round half done.
    pub proof fn lemma_snapshot_consistency(self, replies: Seq<PlayerState>, delivered: nat)
        requires
            self.wf(),
            self.phase == Phase::Requesting(0),
            self.players.len() > 0,
            replies.len() == self.players.len(),
            delivered < self.players.len(),
        ensures
            self.after_replies(replies).after_deliveries(delivered).pending() == Some(
                Action::Inform { session: delivered as usize },
            ),
            self.after_replies(replies).after_deliveries(delivered).snapshot.len()
                == self.players.len(),
            forall|j: int|
                0 <= j < self.players.len() ==> (#[trigger] self.after_replies(
                    replies,
                ).after_deliveries(delivered).snapshot[j]) == self.players[j].spec_refreshed(
                    replies[j],
                ),
    {
        self.lemma_request_phase(0, replies);
        self.after_replies(replies).lemma_inform_phase(0, delivered);
    }

    /// A whole round: after the replies of all sessions and the delivery of
    /// the snapshot to all of them, the next round begins with the first
    /// session, and every session holds what its peer replied.
    pub proof fn lemma_round(self, replies: Seq<PlayerState>)
        requires
            self.wf(),
            self.phase == Phase::Requesting(0),
            self.players.len() > 0,
            replies.len() == self.players.len(),
        ensures
            self.after_replies(replies).after_deliveries(self.players.len()).wf(),
            self.after_replies(replies).after_deliveries(self.players.len()).phase
                == Phase::Requesting(0),
            self.after_replies(replies).after_deliveries(self.players.len()).players
                == self.after_replies(replies).players,
    {
        self.lemma_request_phase(0, replies);
        self.after_replies(replies).lemma_inform_phase(0, self.players.len());
    }

    /// The life of a session. A session whose reply is awaited is connected
    /// again once the reply has come; a session fails when the action that is
    /// pending on it does; and a session that has failed stays so whatever
    /// comes.
    pub proof fn lemma_session_status(self, session: int, event: Event)
        requires
            self.wf(),
            0 <= session < self.players.len(),
        ensures
            self.status(session) == Status::AwaitingResponse && event is Replied ==> self.step(
                event,
            ).status(session) == Status::Connected,
            (self.pending() == Some(Action::Request { session: session as usize })
                || self.pending() == Some(Action::Inform { session: session as usize }))
                && event is Failed ==> self.step(event).status(session) == Status::Disconnected,
            self.status(session) == Status::Disconnected ==> self.step(event).status(session)
                == Status::Disconnected,
            self.status(session) == Status::AwaitingResponse <==> self.pending() == Some(
                Action::Request { session: session as usize },
            ),
    {
    }

    /// Fault propagation: where the pending action fails, the server stops at
    /// the session that failed and returns the failure; no session's state has
    /// changed; and the stopped server accepts no further event, so that none
    /// changes afterwards either.
    pub proof fn lemma_failure_stops(self, error: SyncError, later: Event)
        requires
            self.wf(),
            self.pending() is Some,
        ensures
            self.accepts(Event::Failed(error)),
            self.outcome(Event::Failed(error)) == Err::<Option<Action>, SyncError>(error),
            self.step(Event::Failed(error)).phase is Stopped,
            self.step(Event::Failed(error)).players == self.players,
            self.step(Event::Failed(error)).pending() is None,
            !self.step(Event::Failed(error)).accepts(later),
            self.step(Event::Failed(error)).step(later) == self.step(Event::Failed(error)),
    {
    }
}

/// The states of `players`, in their order.
pub open spec fn states<S>(players: Seq<Player<S>>) -> Seq<PlayerState> {
    players.map_values(|p: Player<S>| p@)
}

/// The sockets of `players`, in their order.
pub open spec fn sockets<S>(players: Seq<Player<S>>) -> Seq<S> {
    players.map_values(|p: Player<S>| p.spec_socket())
}

/// The sessions of a running game, and where their rounds stand.
#[derive(Debug)]
pub struct Server<S> {
    players: Vec<Player<S>>,
    phase: Phase,
    snapshot: Vec<PlayerState>,
}

impl<S> View for Server<S> {
    type V = ServerView;

    closed spec fn view(&self) -> ServerView {
        ServerView { players: states(self.players@), phase: self.phase, snapshot: self.snapshot@ }
    }
}

impl<S> Server<S> {
    /// The sockets of the sessions, in session order.
    pub closed spec fn spec_sockets(&self) -> Seq<S> {
        sockets(self.players@)
    }

    /// The invariant of a server: that of its view, with one socket for each
    /// session.
    pub open spec fn wf(&self) -> bool {
        &&& self@.wf()
        &&& self.spec_sockets().len() == self@.players.len()
    }

    /// A server over `players`, in their order, at the start of its first
    /// round: the first session is to be asked for its state.
    pub fn new(players: Vec<Player<S>>) -> (r: Server<S>)
        ensures
            r.wf(),
            r@.players == states(players@),
            r.spec_sockets() == sockets(players@),
            r@.phase == Phase::Requesting(0),
            r@.snapshot == Seq::<PlayerState>::empty(),
    {
        let ghost sessions = players@;
        let count: usize = players.len();
        let r = Server { players, phase: Phase::Requesting(0), snapshot: Vec::new() };
        assert(r@.players.len() == count);
        assert forall|j: int| 0 <= j < count implies (#[trigger] r@.players[j]).id is Some by {
            assert(r@.players[j] == sessions[j]@);
        }
        r
    }

    /// The sessions, in the order of admission.
    pub fn players(&self) -> (r: &Vec<Player<S>>)
        ensures
            states(r@) == self@.players,
            sockets(r@) == self.spec_sockets(),
    {
        &self.players
    }

    /// The socket of the session with index `session`.
    pub fn socket(&self, session: usize) -> (r: &S)
        requires
            session < self@.players.len(),
        ensures
            *r == self.spec_sockets()[session as int],
    {
        self.players[session].socket()
    }

    /// The socket of the session with index `session`, to read from or write
    /// to. Whatever is done to the socket, the sessions and the rounds stay
    /// as they are, and so do the other sockets.
    pub fn socket_mut(&mut self, session: usize) -> (r: &mut S)
        requires
            session < old(self)@.players.len(),
        ensures
            *r == old(self).spec_sockets()[session as int],
            final(self).spec_sockets() == old(self).spec_sockets().update(
                session as int,
                *final(r),
            ),
            final(self)@ == old(self)@,
            old(self).wf() ==> final(self).wf(),
    {
        self.players[session].socket_mut()
    }

    /// The states captured at the end of the last request phase, in session
    /// order: what the inform phase delivers to every session.
    pub fn snapshot(&self) -> (r: &Vec<PlayerState>)
        ensures
            r@ == self@.snapshot,
    {
        &self.snapshot
    }

    /// Where the server stands in its rounds.
    pub fn phase(&self) -> (r: Phase)
        ensures
            r == self@.phase,
    {
        self.phase
    }

    /// The action that the driver is to perform now.
    pub fn pending(&self) -> (r: Option<Action>)
        ensures
            r == self@.pending(),
    {
        match self.phase {
            Phase::Requesting(i) => if i < self.players.len() {
                Some(Action::Request { session: i })
            } else {
                None
            },
            Phase::Informing(i) => if i < self.players.len() {
                Some(Action::Inform { session: i })
            } else {
                None
            },
            Phase::Stopped(_) => None,
        }
    }

    /// Tells whether `event` can be the outcome of the pending action.
    pub fn accepts(&self, event: &Event) -> (r: bool)
        ensures
            r == self@.accepts(*event),
    {
        match self.pending() {
            Some(Action::Request { .. }) => match event {
                Event::Replied(_) => true,
                Event::Delivered => false,
                Event::Failed(_) => true,
            },
            Some(Action::Inform { .. }) => match event {
                Event::Replied(_) => false,
                Event::Delivered => true,
                Event::Failed(_) => true,
            },
            None => false,
        }
    }

    /// The state of the session with index `session`.
    pub fn status(&self, session: usize) -> (r: Status)
        ensures
            r == self@.status(session as int),
    {
        match self.phase {
            Phase::Requesting(i) => if i == session && session < self.players.len() {
                Status::AwaitingResponse
            } else {
                Status::Connected
            },
            Phase::Informing(_) => Status::Connected,
            Phase::Stopped(i) => if i == session {
                Status::Disconnected
            } else {
                Status::Connected
            },
        }
    }

    /// Captures the states of all sessions, in session order.
    fn capture(&self) -> (r: Vec<PlayerState>)
        ensures
            r@ == self@.players,
    {
        let mut snapshot: Vec<PlayerState> = Vec::new();
        let mut i: usize = 0;
        while i < self.players.len()
            invariant
                i <= self.players@.len(),
                snapshot@ == states(self.players@).take(i as int),
            decreases self.players@.len() - i,
        {
            snapshot.push(self.players[i].state());
            assert(snapshot@ =~= states(self.players@).take(i + 1));
            i += 1;
        }
        assert(snapshot@ =~= states(self.players@));
        snapshot
    }

    /// Resumes the rounds with the outcome of the pending action, and runs
    /// them up to the next action, which is returned.
    ///
    /// A reply replaces the cached state of the session that was asked; its
    /// id stays. After the last session's reply the snapshot is captured and
    /// the inform phase begins; after the last delivery the next round does.
    /// A failure stops the server and is returned; no session changes. An
    /// event that does not answer the pending action changes nothing.
    pub fn run(&mut self, event: Event) -> (r: Result<Option<Action>, SyncError>)
        requires
            old(self).wf(),
        ensures
            final(self).wf(),
            final(self)@ == old(self)@.step(event),
            final(self).spec_sockets() == old(self).spec_sockets(),
            r == old(self)@.outcome(event),
    {
        let n: usize = self.players.len();
        let phase = self.phase;
        match event {
            Event::Failed(error) => {
                match phase {
                    Phase::Requesting(i) => {
                        if i < n {
                            self.phase = Phase::Stopped(i);
                        }
                    },
                    Phase::Informing(i) => {
                        self.phase = Phase::Stopped(i);
                    },
                    Phase::Stopped(_) => {},
                }
                Err(error)
            },
            Event::Replied(reply) => {
                match phase {
                    Phase::Requesting(i) => {
                        if i >= n {
                            return Ok(None);
                        }
                        self.players[i].request(reply);
                        assert(sockets(self.players@) =~= old(self).spec_sockets());
                        assert(states(self.players@) =~= old(self)@.players.update(
                            i as int,
                            old(self)@.players[i as int].spec_refreshed(reply),
                        ));
                        if i + 1 < n {
                            self.phase = Phase::Requesting(i + 1);
                            Ok(Some(Action::Request { session: i + 1 }))
                        } else {
                            self.snapshot = self.capture();
                            self.phase = Phase::Informing(0);
                            Ok(Some(Action::Inform { session: 0 }))
                        }
                    },
                    _ => Ok(self.pending()),
                }
            },
            Event::Delivered => {
                match phase {
                    Phase::Informing(i) => {
                        if i + 1 < n {
                            self.phase = Phase::Informing(i + 1);
                            Ok(Some(Action::Inform { session: i + 1 }))
                        } else {
                            self.phase = Phase::Requesting(0);
                            Ok(Some(Action::Request { session: 0 }))
                        }
                    },
                    _ => Ok(self.pending()),
                }
            },
        }
    }
}

} // verus!
