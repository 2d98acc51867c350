//! End-to-end walks over the protocol core: sessions feeding the room, the
//! room fanning out to every subscriber, as the driving loops would do it.

use chat_server::protocol::user_cmd_message;
use chat_server::room::Room;
use chat_server::room::RoomStep;
use chat_server::session::ReadEvent;
use chat_server::session::Session;
use chat_server::session::SessionStep;

/// Feeds a session one frame and pushes whatever it replies into the room.
fn relay(session: &mut Session, room: &mut Room, frame: &[u8]) {
    match session.on_read(ReadEvent::Data(frame.to_vec())) {
        SessionStep::Continue(Some(m)) => room.submit(m),
        SessionStep::Continue(None) => {},
        SessionStep::Stop(_) => panic!("the session should stay alive"),
    }
}

#[test]
fn a_named_client_joins_and_chats() {
    let mut room = Room::new(4);
    let alice_sub = room.subscribe();
    let other_sub = room.subscribe();
    let mut alice = Session::new();

    // The client introduces itself exactly as the wire protocol says.
    let intro = user_cmd_message(b"Alice");
    relay(&mut alice, &mut room, &intro);
    relay(&mut alice, &mut room, b"hello");
    assert_eq!(room.step(), RoomStep::Delivered);
    assert_eq!(room.step(), RoomStep::Delivered);

    // Every other connected client hears the join, then the chat line.
    assert_eq!(room.poll(other_sub), Some(b"Alice has joined the room.".to_vec()));
    assert_eq!(room.poll(other_sub), Some(b"Alice: hello".to_vec()));
    assert_eq!(room.poll(other_sub), None);
    // Including the sender's own session.
    assert_eq!(room.poll(alice_sub), Some(b"Alice has joined the room.".to_vec()));
    assert_eq!(room.poll(alice_sub), Some(b"Alice: hello".to_vec()));
    assert_eq!(room.poll(alice_sub), None);
}

#[test]
fn an_unnamed_client_leaks_nothing() {
    let mut room = Room::new(4);
    let _nameless_sub = room.subscribe();
    let other_sub = room.subscribe();
    let mut nameless = Session::new();

    relay(&mut nameless, &mut room, b"hi");
    assert_eq!(room.step(), RoomStep::Idle);
    assert_eq!(room.poll(other_sub), None);
}

#[test]
fn only_a_named_session_leaves_a_notice() {
    let mut room = Room::new(4);
    let quiet_sub = room.subscribe();
    let other_sub = room.subscribe();

    // A client that never named itself closes its socket: no notice.
    let mut quiet = Session::new();
    match quiet.on_read(ReadEvent::Closed) {
        SessionStep::Stop(None) => room.unsubscribe(quiet_sub),
        other => panic!("expected a silent stop, got {:?}", other),
    }
    assert_eq!(room.step(), RoomStep::Idle);
    assert_eq!(room.poll(other_sub), None);

    // A named client leaving broadcasts its notice exactly once.
    let bob_sub = room.subscribe();
    let mut bob = Session::new();
    relay(&mut bob, &mut room, b"/user Bob");
    assert_eq!(room.step(), RoomStep::Delivered);
    assert_eq!(room.poll(other_sub), Some(b"Bob has joined the room.".to_vec()));
    match bob.on_read(ReadEvent::Closed) {
        SessionStep::Stop(Some(notice)) => {
            room.submit(notice);
            room.unsubscribe(bob_sub);
        },
        other => panic!("expected a leave notice, got {:?}", other),
    }
    assert_eq!(room.step(), RoomStep::Delivered);
    assert_eq!(room.poll(other_sub), Some(b"Bob has left the room.".to_vec()));
    assert_eq!(room.poll(other_sub), None);
}
