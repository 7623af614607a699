use engine::error::SessionError;
use engine::movement::{MoveModifier, Movement};
use engine::protocol::{ClientMessage, PlayerPosition, ServerMessage};
use engine::server::{Action, ConnectionPhase, SessionServer};

const A: u64 = 1;
const B: u64 = 2;
const C: u64 = 3;
const U1: u128 = 0x1111;
const U2: u128 = 0x2222;
const U3: u128 = 0x3333;

fn bits(x: f32, y: f32, z: f32) -> PlayerPosition {
    PlayerPosition::new(x.to_bits(), y.to_bits(), z.to_bits())
}

fn send(to: &[u64], message: ServerMessage) -> Action {
    Action::Send { to: to.to_vec(), message }
}

fn joined(server: &mut SessionServer, client: u64, user: u128) -> Vec<Action> {
    assert_eq!(server.accept(client), Ok(()));
    server.handle_message(client, ClientMessage::Join { user_id: user })
}

#[test]
fn two_clients_join_move_and_leave() {
    let mut server = SessionServer::new(10_000_000);

    let first = joined(&mut server, A, U1);
    assert_eq!(first, vec![send(&[], ServerMessage::ClientConnected { client_id: A, user_id: U1 })]);
    assert_eq!(server.registry().len(), 1);
    assert_eq!(server.phase(A), ConnectionPhase::Joined);

    let second = joined(&mut server, B, U2);
    assert_eq!(
        second,
        vec![
            send(&[A], ServerMessage::ClientConnected { client_id: B, user_id: U2 }),
            send(&[B], ServerMessage::ClientConnected { client_id: A, user_id: U1 }),
        ]
    );
    for action in &second {
        if let Action::Send { to, message } = action {
            if to.contains(&B) {
                assert_ne!(message, &ServerMessage::ClientConnected { client_id: B, user_id: U2 });
            }
        }
    }

    let position = bits(1.0, 0.0, 0.0);
    let moved = server.handle_message(A, ClientMessage::UpdatePosition { position });
    assert_eq!(moved, vec![send(&[A, B], ServerMessage::UpdatePosition { client_id: A, position })]);
    assert_eq!(server.registry().get(A).unwrap().position, position);

    let periodic = server.tick(10_000_000);
    assert_eq!(
        periodic,
        vec![
            send(&[A, B], ServerMessage::UpdatePosition { client_id: A, position }),
            send(&[A, B], ServerMessage::UpdatePosition { client_id: B, position: bits(0.0, 0.0, 0.0) }),
        ]
    );

    let left = server.handle_message(A, ClientMessage::Disconnect);
    assert_eq!(
        left,
        vec![send(&[B], ServerMessage::ClientDisconnected { client_id: A }), Action::Close { client_id: A }]
    );
    assert_eq!(server.registry().len(), 1);
    assert_eq!(server.registry().client_ids(), vec![B]);
    assert_eq!(server.phase(A), ConnectionPhase::Leaving);
    server.closed(A);
    assert_eq!(server.phase(A), ConnectionPhase::Closed);
    assert_eq!(server.phase(B), ConnectionPhase::Joined);
}

#[test]
fn a_newcomer_learns_of_every_peer_after_the_peers_learn_of_it() {
    let mut server = SessionServer::new(1);
    joined(&mut server, A, U1);
    joined(&mut server, B, U2);
    let third = joined(&mut server, C, U3);
    assert_eq!(
        third,
        vec![
            send(&[A, B], ServerMessage::ClientConnected { client_id: C, user_id: U3 }),
            send(&[C], ServerMessage::ClientConnected { client_id: A, user_id: U1 }),
            send(&[C], ServerMessage::ClientConnected { client_id: B, user_id: U2 }),
        ]
    );
}

#[test]
fn a_connection_is_closed_until_it_is_accepted() {
    let mut server = SessionServer::new(1);
    assert_eq!(server.phase(A), ConnectionPhase::Closed);
    assert_eq!(server.handle_message(A, ClientMessage::Join { user_id: U1 }), vec![]);
    assert_eq!(server.phase(A), ConnectionPhase::Closed);
    assert_eq!(server.registry().len(), 0);
    assert_eq!(server.accept(A), Ok(()));
    assert_eq!(server.phase(A), ConnectionPhase::Connecting);
}

#[test]
fn accept_refuses_an_id_that_is_still_in_use() {
    let mut server = SessionServer::new(1);
    assert_eq!(server.accept(A), Ok(()));
    assert_eq!(server.accept(A), Err(SessionError::DuplicateConnection));
    joined(&mut server, B, U2);
    assert_eq!(server.accept(B), Err(SessionError::DuplicateConnection));
    server.handle_message(B, ClientMessage::Disconnect);
    assert_eq!(server.phase(B), ConnectionPhase::Leaving);
    assert_eq!(server.accept(B), Err(SessionError::DuplicateConnection));
    server.closed(B);
    assert_eq!(server.accept(B), Ok(()));
    assert_eq!(server.phase(B), ConnectionPhase::Connecting);
}

#[test]
fn a_connecting_client_can_only_join() {
    let mut server = SessionServer::new(1);
    joined(&mut server, B, U2);
    assert_eq!(server.accept(A), Ok(()));
    let ignored = [
        ClientMessage::Disconnect,
        ClientMessage::ChatMessage { message: String::from("hello") },
        ClientMessage::UpdatePosition { position: bits(1.0, 1.0, 1.0) },
        ClientMessage::SendModifier(MoveModifier::StartForward),
    ];
    for message in ignored {
        assert_eq!(server.handle_message(A, message), vec![]);
        assert_eq!(server.phase(A), ConnectionPhase::Connecting);
        assert_eq!(server.registry().client_ids(), vec![B]);
    }
}

#[test]
fn a_second_join_of_a_joined_client_is_ignored() {
    let mut server = SessionServer::new(1);
    joined(&mut server, A, U1);
    assert_eq!(server.handle_message(A, ClientMessage::Join { user_id: U2 }), vec![]);
    assert_eq!(server.registry().len(), 1);
    assert_eq!(server.registry().get(A).unwrap().player.user_id, U1);
}

#[test]
fn chat_is_relayed_once_to_every_joined_client() {
    let mut server = SessionServer::new(1);
    joined(&mut server, A, U1);
    joined(&mut server, B, U2);
    assert_eq!(server.accept(C), Ok(()));
    let relayed = server.handle_message(A, ClientMessage::ChatMessage { message: String::from("hi") });
    assert_eq!(
        relayed,
        vec![send(&[A, B], ServerMessage::ChatMessage { client_id: A, message: String::from("hi") })]
    );
}

#[test]
fn a_modifier_changes_the_flags_and_is_relayed() {
    let mut server = SessionServer::new(1);
    joined(&mut server, A, U1);
    joined(&mut server, B, U2);
    let relayed = server.handle_message(B, ClientMessage::SendModifier(MoveModifier::StartLeft));
    assert_eq!(
        relayed,
        vec![send(&[A, B], ServerMessage::SendModifier { client_id: B, key_code: MoveModifier::StartLeft })]
    );
    assert_eq!(server.registry().get(B).unwrap().movement, Movement { left: true, ..Movement::new() });
    assert_eq!(server.registry().get(A).unwrap().movement, Movement::new());
}

#[test]
fn messages_of_a_leaving_or_closed_connection_are_ignored() {
    let mut server = SessionServer::new(1);
    joined(&mut server, A, U1);
    joined(&mut server, B, U2);
    server.handle_message(A, ClientMessage::Disconnect);
    assert_eq!(server.handle_message(A, ClientMessage::ChatMessage { message: String::from("x") }), vec![]);
    assert_eq!(server.handle_message(A, ClientMessage::Join { user_id: U1 }), vec![]);
    server.closed(A);
    assert_eq!(server.handle_message(A, ClientMessage::UpdatePosition { position: bits(1.0, 0.0, 0.0) }), vec![]);
    assert_eq!(server.registry().client_ids(), vec![B]);
}

#[test]
fn a_failed_transport_ends_the_session_once() {
    let mut server = SessionServer::new(1);
    joined(&mut server, A, U1);
    joined(&mut server, B, U2);
    let first = server.connection_failed(A, SessionError::TransportClosed);
    assert_eq!(
        first,
        vec![send(&[B], ServerMessage::ClientDisconnected { client_id: A }), Action::Close { client_id: A }]
    );
    assert_eq!(server.connection_failed(A, SessionError::TransportClosed), vec![]);
    assert_eq!(server.handle_message(A, ClientMessage::Disconnect), vec![]);
    assert_eq!(server.registry().client_ids(), vec![B]);
    server.closed(A);
    assert_eq!(server.connection_failed(A, SessionError::TransportClosed), vec![]);
    assert_eq!(server.phase(A), ConnectionPhase::Closed);
}

#[test]
fn a_disconnect_followed_by_a_transport_error_leaves_once() {
    let mut server = SessionServer::new(1);
    joined(&mut server, A, U1);
    let first = server.handle_message(A, ClientMessage::Disconnect);
    assert_eq!(first.len(), 2);
    assert_eq!(server.connection_failed(A, SessionError::TransportClosed), vec![]);
    assert_eq!(server.registry().len(), 0);
}

#[test]
fn a_failed_connecting_client_is_closed_without_a_word_to_the_others() {
    let mut server = SessionServer::new(1);
    joined(&mut server, B, U2);
    assert_eq!(server.accept(A), Ok(()));
    assert_eq!(server.connection_failed(A, SessionError::TransportClosed), vec![Action::Close { client_id: A }]);
    assert_eq!(server.phase(A), ConnectionPhase::Leaving);
    assert_eq!(server.registry().client_ids(), vec![B]);
}

#[test]
fn every_failure_of_a_connection_ends_it_and_a_directory_failure_ends_none() {
    for error in [
        SessionError::MalformedMessage,
        SessionError::TransportClosed,
        SessionError::DuplicateConnection,
        SessionError::UnknownConnection,
    ] {
        assert!(error.ends_connection());
        let mut server = SessionServer::new(1);
        joined(&mut server, A, U1);
        joined(&mut server, B, U2);
        assert_eq!(
            server.connection_failed(B, error),
            vec![send(&[A], ServerMessage::ClientDisconnected { client_id: B }), Action::Close { client_id: B }]
        );
        assert_eq!(server.phase(B), ConnectionPhase::Leaving);
        assert_eq!(server.phase(A), ConnectionPhase::Joined);
    }
    assert!(!SessionError::UnknownServer.ends_connection());
    let mut server = SessionServer::new(1);
    joined(&mut server, A, U1);
    assert_eq!(server.connection_failed(A, SessionError::UnknownServer), vec![]);
    assert_eq!(server.phase(A), ConnectionPhase::Joined);
}

#[test]
fn closed_concerns_leaving_connections_only() {
    let mut server = SessionServer::new(1);
    joined(&mut server, A, U1);
    server.closed(A);
    assert_eq!(server.phase(A), ConnectionPhase::Joined);
    server.closed(B);
    assert_eq!(server.phase(B), ConnectionPhase::Closed);
}

#[test]
fn kick_evicts_the_first_session_of_the_user() {
    let mut server = SessionServer::new(1);
    joined(&mut server, A, U1);
    joined(&mut server, B, U2);
    assert_eq!(server.kick(U3), vec![]);
    let kicked = server.kick(U1);
    assert_eq!(
        kicked,
        vec![send(&[B], ServerMessage::ClientDisconnected { client_id: A }), Action::Close { client_id: A }]
    );
    assert_eq!(server.phase(A), ConnectionPhase::Leaving);
    assert_eq!(server.kick(U1), vec![]);
    assert_eq!(server.players(), vec![(U2, bits(0.0, 0.0, 0.0))]);
}

#[test]
fn the_periodic_broadcast_fires_when_the_timer_finishes() {
    let mut server = SessionServer::new(10);
    joined(&mut server, A, U1);
    assert_eq!(server.tick(4), vec![]);
    assert_eq!(server.tick(5), vec![]);
    let fired = server.tick(1);
    assert_eq!(
        fired,
        vec![send(&[A], ServerMessage::UpdatePosition { client_id: A, position: bits(0.0, 0.0, 0.0) })]
    );
    assert_eq!(server.tick(9), vec![]);
    assert_eq!(server.tick(25).len(), 1);
    assert_eq!(server.tick(5), vec![]);
    assert_eq!(server.tick(1).len(), 1);
}

#[test]
fn the_periodic_broadcast_of_an_empty_server_is_empty() {
    let mut server = SessionServer::new(10);
    assert_eq!(server.tick(10), vec![]);
    assert_eq!(server.accept(A), Ok(()));
    assert_eq!(server.tick(10), vec![]);
    assert_eq!(server.broadcast_positions(), vec![]);
}

#[test]
fn set_position_is_silent_and_shows_in_the_next_broadcast() {
    let mut server = SessionServer::new(10);
    joined(&mut server, A, U1);
    assert_eq!(server.set_position(A, bits(0.1, 0.0, -0.1)), Ok(()));
    assert_eq!(server.set_position(B, bits(1.0, 1.0, 1.0)), Err(SessionError::UnknownConnection));
    assert_eq!(
        server.broadcast_positions(),
        vec![send(&[A], ServerMessage::UpdatePosition { client_id: A, position: bits(0.1, 0.0, -0.1) })]
    );
}

#[test]
fn players_lists_user_and_position_in_joining_order() {
    let mut server = SessionServer::new(10);
    assert_eq!(server.players(), vec![]);
    joined(&mut server, B, U2);
    joined(&mut server, A, U1);
    server.handle_message(A, ClientMessage::UpdatePosition { position: bits(3.0, 2.0, 1.0) });
    assert_eq!(server.players(), vec![(U2, bits(0.0, 0.0, 0.0)), (U1, bits(3.0, 2.0, 1.0))]);
}
