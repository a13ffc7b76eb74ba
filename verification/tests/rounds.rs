use sync_server::acceptor::Acceptor;
use sync_server::error::SyncError;
use sync_server::player::Player;
use sync_server::server::Action;
use sync_server::server::Event;
use sync_server::server::Phase;
use sync_server::server::Server;
use sync_server::server::Status;
use sync_server::state::PlayerState;
use sync_server::state::Position;

fn state(health: f64, x: f64, y: f64, z: f64) -> PlayerState {
    PlayerState {
        id: None,
        health: health.to_bits(),
        position: Position { x: x.to_bits(), y: y.to_bits(), z: z.to_bits() },
    }
}

fn sessions_of(handshakes: Vec<PlayerState>) -> Vec<Player<usize>> {
    let mut acceptor = Acceptor::new(handshakes.len());
    for (i, handshake) in handshakes.into_iter().enumerate() {
        assert_eq!(acceptor.accept(100 + i, handshake), Some(i));
    }
    acceptor.into_players().unwrap()
}

fn server_of(handshakes: Vec<PlayerState>) -> Server<usize> {
    Server::new(sessions_of(handshakes))
}

fn states_of(server: &Server<usize>) -> Vec<PlayerState> {
    server.players().iter().map(Player::state).collect()
}

fn io_failure() -> SyncError {
    SyncError::Io(std::io::Error::new(std::io::ErrorKind::BrokenPipe, "gone"))
}

fn decode_failure() -> SyncError {
    SyncError::Serde(serde_json::from_str::<serde_json::Value>("").unwrap_err())
}

#[test]
fn new_server_asks_first_session() {
    let server = server_of(vec![state(1.0, 0.0, 0.0, 0.0), state(2.0, 0.0, 0.0, 0.0)]);
    assert_eq!(server.phase(), Phase::Requesting(0));
    assert_eq!(server.pending(), Some(Action::Request { session: 0 }));
    assert!(server.snapshot().is_empty());
    assert_eq!(server.players().len(), 2);
}

#[test]
fn server_without_sessions_has_nothing_pending() {
    let server: Server<usize> = Server::new(Vec::new());
    assert_eq!(server.pending(), None);
    assert!(!server.accepts(&Event::Delivered));
    assert!(!server.accepts(&Event::Replied(state(1.0, 0.0, 0.0, 0.0))));
    assert!(!server.accepts(&Event::Failed(io_failure())));
}

#[test]
fn events_must_answer_pending_action() {
    let mut server = server_of(vec![state(1.0, 0.0, 0.0, 0.0)]);
    assert!(server.accepts(&Event::Replied(state(1.0, 0.0, 0.0, 0.0))));
    assert!(!server.accepts(&Event::Delivered));
    assert!(server.accepts(&Event::Failed(io_failure())));
    let action = server.run(Event::Replied(state(1.0, 0.0, 0.0, 0.0))).unwrap();
    assert_eq!(action, Some(Action::Inform { session: 0 }));
    assert!(!server.accepts(&Event::Replied(state(1.0, 0.0, 0.0, 0.0))));
    assert!(server.accepts(&Event::Delivered));
    assert!(server.accepts(&Event::Failed(decode_failure())));
}

#[test]
fn stray_events_change_nothing() {
    let mut server = server_of(vec![state(1.0, 0.0, 0.0, 0.0), state(2.0, 0.0, 0.0, 0.0)]);
    let before = states_of(&server);
    let next = server.run(Event::Delivered).unwrap();
    assert_eq!(next, Some(Action::Request { session: 0 }));
    assert_eq!(server.phase(), Phase::Requesting(0));
    assert_eq!(states_of(&server), before);

    server.run(Event::Replied(state(10.0, 0.0, 0.0, 0.0))).unwrap();
    server.run(Event::Replied(state(20.0, 0.0, 0.0, 0.0))).unwrap();
    let before = states_of(&server);
    let next = server.run(Event::Replied(state(30.0, 0.0, 0.0, 0.0))).unwrap();
    assert_eq!(next, Some(Action::Inform { session: 0 }));
    assert_eq!(server.phase(), Phase::Informing(0));
    assert_eq!(states_of(&server), before);
    assert_eq!(*server.snapshot(), before);
}

#[test]
fn stopped_server_stays_stopped() {
    let mut server = server_of(vec![state(1.0, 0.0, 0.0, 0.0), state(2.0, 0.0, 0.0, 0.0)]);
    assert!(server.run(Event::Failed(io_failure())).is_err());
    let before = states_of(&server);
    assert_eq!(server.run(Event::Replied(state(9.0, 0.0, 0.0, 0.0))).unwrap(), None);
    assert_eq!(server.run(Event::Delivered).unwrap(), None);
    assert!(matches!(server.run(Event::Failed(decode_failure())), Err(SyncError::Serde(_))));
    assert_eq!(server.phase(), Phase::Stopped(0));
    assert_eq!(states_of(&server), before);
}

#[test]
fn server_without_sessions_ignores_events() {
    let mut server: Server<usize> = Server::new(Vec::new());
    assert_eq!(server.run(Event::Replied(state(9.0, 0.0, 0.0, 0.0))).unwrap(), None);
    assert_eq!(server.run(Event::Delivered).unwrap(), None);
    assert!(matches!(server.run(Event::Failed(io_failure())), Err(SyncError::Io(_))));
    assert_eq!(server.phase(), Phase::Requesting(0));
    assert_eq!(server.status(0), Status::Connected);
}

#[test]
fn two_player_round() {
    let a = state(80.0, 1.0, 0.0, 0.0);
    let b = state(100.0, 0.0, 0.0, 0.0);
    let players = sessions_of(vec![a, b]);
    assert_eq!(players[0].id(), 0);
    assert_eq!(players[1].id(), 1);
    let mut server = Server::new(players);

    assert_eq!(server.pending(), Some(Action::Request { session: 0 }));
    let next = server.run(Event::Replied(state(75.0, 1.0, 1.0, 0.0))).unwrap();
    assert_eq!(next, Some(Action::Request { session: 1 }));
    let next = server.run(Event::Replied(b)).unwrap();
    assert_eq!(next, Some(Action::Inform { session: 0 }));

    let session0 = state(75.0, 1.0, 1.0, 0.0).with_id(0);
    let session1 = b.with_id(1);
    assert_eq!(states_of(&server), vec![session0, session1]);
    assert_eq!(*server.snapshot(), vec![session0, session1]);

    let next = server.run(Event::Delivered).unwrap();
    assert_eq!(next, Some(Action::Inform { session: 1 }));
    assert_eq!(*server.snapshot(), vec![session0, session1]);
    let next = server.run(Event::Delivered).unwrap();
    assert_eq!(next, Some(Action::Request { session: 0 }));
    assert_eq!(server.phase(), Phase::Requesting(0));
    assert_eq!(states_of(&server), vec![session0, session1]);
}

#[test]
fn replies_update_sessions_in_order() {
    let mut server = server_of(vec![
        state(1.0, 0.0, 0.0, 0.0),
        state(2.0, 0.0, 0.0, 0.0),
        state(3.0, 0.0, 0.0, 0.0),
    ]);
    let replies = [state(10.0, 1.0, 1.0, 1.0), state(20.0, 2.0, 2.0, 2.0), state(30.0, 3.0, 3.0, 3.0)];
    for (i, reply) in replies.iter().enumerate() {
        assert_eq!(server.phase(), Phase::Requesting(i));
        assert_eq!(server.status(i), Status::AwaitingResponse);
        server.run(Event::Replied(*reply)).unwrap();
        assert_eq!(server.status(i), Status::Connected);
        let now = states_of(&server);
        for j in 0..3 {
            if j <= i {
                assert_eq!(now[j], replies[j].with_id(j));
            } else {
                assert_eq!(f64::from_bits(now[j].health), (j + 1) as f64);
            }
        }
    }
    assert_eq!(server.phase(), Phase::Informing(0));
}

#[test]
fn snapshot_is_taken_after_last_reply_only() {
    let mut server = server_of(vec![state(1.0, 0.0, 0.0, 0.0), state(2.0, 0.0, 0.0, 0.0)]);
    server.run(Event::Replied(state(10.0, 0.0, 0.0, 0.0))).unwrap();
    assert!(server.snapshot().is_empty());
    server.run(Event::Replied(state(20.0, 0.0, 0.0, 0.0))).unwrap();
    let first = vec![state(10.0, 0.0, 0.0, 0.0).with_id(0), state(20.0, 0.0, 0.0, 0.0).with_id(1)];
    assert_eq!(*server.snapshot(), first);
    server.run(Event::Delivered).unwrap();
    server.run(Event::Delivered).unwrap();

    server.run(Event::Replied(state(11.0, 0.0, 0.0, 0.0))).unwrap();
    assert_eq!(*server.snapshot(), first);
    server.run(Event::Replied(state(21.0, 0.0, 0.0, 0.0))).unwrap();
    let second = vec![state(11.0, 0.0, 0.0, 0.0).with_id(0), state(21.0, 0.0, 0.0, 0.0).with_id(1)];
    assert_eq!(*server.snapshot(), second);
    assert_eq!(states_of(&server), second);
}

#[test]
fn ids_survive_replies_that_claim_another() {
    let mut server = server_of(vec![state(1.0, 0.0, 0.0, 0.0), state(2.0, 0.0, 0.0, 0.0)]);
    server.run(Event::Replied(state(5.0, 0.0, 0.0, 0.0).with_id(1))).unwrap();
    server.run(Event::Replied(state(6.0, 0.0, 0.0, 0.0).with_id(0))).unwrap();
    let ids: Vec<usize> = server.players().iter().map(Player::id).collect();
    assert_eq!(ids, vec![0, 1]);
}

#[test]
fn failed_request_stops_server() {
    let mut server = server_of(vec![
        state(1.0, 0.0, 0.0, 0.0),
        state(2.0, 0.0, 0.0, 0.0),
        state(3.0, 0.0, 0.0, 0.0),
    ]);
    server.run(Event::Replied(state(10.0, 0.0, 0.0, 0.0))).unwrap();
    let before = states_of(&server);
    let result = server.run(Event::Failed(decode_failure()));
    assert!(matches!(result, Err(SyncError::Serde(_))));
    assert_eq!(server.phase(), Phase::Stopped(1));
    assert_eq!(server.status(1), Status::Disconnected);
    assert_eq!(server.status(0), Status::Connected);
    assert_eq!(server.status(2), Status::Connected);
    assert_eq!(states_of(&server), before);
    assert_eq!(server.pending(), None);
    assert!(!server.accepts(&Event::Replied(state(3.0, 0.0, 0.0, 0.0))));
    assert!(!server.accepts(&Event::Delivered));
    assert!(!server.accepts(&Event::Failed(io_failure())));
}

#[test]
fn failed_delivery_stops_server() {
    let mut server = server_of(vec![state(1.0, 0.0, 0.0, 0.0), state(2.0, 0.0, 0.0, 0.0)]);
    server.run(Event::Replied(state(10.0, 0.0, 0.0, 0.0))).unwrap();
    server.run(Event::Replied(state(20.0, 0.0, 0.0, 0.0))).unwrap();
    server.run(Event::Delivered).unwrap();
    let before = states_of(&server);
    let result = server.run(Event::Failed(io_failure()));
    assert!(matches!(result, Err(SyncError::Io(_))));
    assert_eq!(server.phase(), Phase::Stopped(1));
    assert_eq!(states_of(&server), before);
    assert_eq!(server.pending(), None);
}

#[test]
fn single_session_round() {
    let mut server = server_of(vec![state(1.0, 0.0, 0.0, 0.0)]);
    assert_eq!(server.status(0), Status::AwaitingResponse);
    let next = server.run(Event::Replied(state(9.0, 1.0, 2.0, 3.0))).unwrap();
    assert_eq!(next, Some(Action::Inform { session: 0 }));
    assert_eq!(*server.snapshot(), vec![state(9.0, 1.0, 2.0, 3.0).with_id(0)]);
    let next = server.run(Event::Delivered).unwrap();
    assert_eq!(next, Some(Action::Request { session: 0 }));
}

#[test]
fn status_of_unknown_session_is_connected() {
    let server = server_of(vec![state(1.0, 0.0, 0.0, 0.0)]);
    assert_eq!(server.status(7), Status::Connected);
}

#[test]
fn sockets_stay_with_their_sessions() {
    let mut server = server_of(vec![state(1.0, 0.0, 0.0, 0.0), state(2.0, 0.0, 0.0, 0.0)]);
    assert_eq!(*server.socket(0), 100);
    assert_eq!(*server.socket(1), 101);
    server.run(Event::Replied(state(10.0, 0.0, 0.0, 0.0))).unwrap();
    server.run(Event::Replied(state(20.0, 0.0, 0.0, 0.0))).unwrap();
    server.run(Event::Delivered).unwrap();
    assert_eq!(*server.socket(0), 100);
    assert_eq!(*server.socket(1), 101);
    assert_eq!(*server.players()[1].socket(), 101);
}

#[test]
fn using_a_socket_changes_no_session() {
    let mut server = server_of(vec![state(1.0, 0.0, 0.0, 0.0), state(2.0, 0.0, 0.0, 0.0)]);
    let before = states_of(&server);
    *server.socket_mut(1) += 5;
    assert_eq!(*server.socket(0), 100);
    assert_eq!(*server.socket(1), 106);
    assert_eq!(states_of(&server), before);
    assert_eq!(server.phase(), Phase::Requesting(0));
    assert_eq!(server.pending(), Some(Action::Request { session: 0 }));
}
