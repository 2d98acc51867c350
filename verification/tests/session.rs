//! The session state machine on concrete read outcomes, including the
//! join/leave notices and the unnamed-session policies.

use chat_server::session::ReadEvent;
use chat_server::session::Session;
use chat_server::session::SessionStep;
use chat_server::session::WriteStep;

#[test]
fn naming_then_chatting() {
    let mut s = Session::new();
    let step = s.on_read(ReadEvent::Data(b"/user Alice\n".to_vec()));
    assert_eq!(step, SessionStep::Continue(Some(b"Alice has joined the room.".to_vec())));
    assert_eq!(s.name(), &b"Alice".to_vec());
    let step = s.on_read(ReadEvent::Data(b"hello\n".to_vec()));
    assert_eq!(step, SessionStep::Continue(Some(b"Alice: hello".to_vec())));
}

#[test]
fn unnamed_chat_is_dropped_silently() {
    let mut s = Session::new();
    let step = s.on_read(ReadEvent::Data(b"hi\n".to_vec()));
    assert_eq!(step, SessionStep::Continue(None));
    assert!(s.name().is_empty());
}

#[test]
fn closed_peer_leaves_with_a_notice_only_when_named() {
    let mut named = Session::new();
    named.on_read(ReadEvent::Data(b"/user Bob".to_vec()));
    let step = named.on_read(ReadEvent::Closed);
    assert_eq!(step, SessionStep::Stop(Some(b"Bob has left the room.".to_vec())));

    let mut unnamed = Session::new();
    let step = unnamed.on_read(ReadEvent::Closed);
    assert_eq!(step, SessionStep::Stop(None));
}

#[test]
fn would_block_is_a_no_op() {
    let mut s = Session::new();
    s.on_read(ReadEvent::Data(b"/user Carol".to_vec()));
    let step = s.on_read(ReadEvent::WouldBlock);
    assert_eq!(step, SessionStep::Continue(None));
    assert_eq!(s.name(), &b"Carol".to_vec());
}

#[test]
fn read_failure_stops_the_session_without_messages() {
    let mut s = Session::new();
    s.on_read(ReadEvent::Data(b"/user Dave".to_vec()));
    let step = s.on_read(ReadEvent::Failed);
    assert_eq!(step, SessionStep::Stop(None));
}

#[test]
fn malformed_frame_keeps_the_session_alive() {
    let mut s = Session::new();
    s.on_read(ReadEvent::Data(b"/user Eve".to_vec()));
    let step = s.on_read(ReadEvent::Data(vec![0xFF, 0xFE]));
    assert_eq!(step, SessionStep::Continue(None));
    assert_eq!(s.name(), &b"Eve".to_vec());
}

#[test]
fn write_ready_writes_a_polled_message_or_idles() {
    let s = Session::new();
    let w = s.on_write_ready(Some(b"Alice: hi".to_vec()));
    assert_eq!(w, WriteStep::Write(b"Alice: hi".to_vec()));
    let w = s.on_write_ready(None);
    assert_eq!(w, WriteStep::Idle);
}
