//! The acceptor's drain decisions and the client's loop decisions.

use chat_server::client::ChatClient;
use chat_server::client::ClientAction;
use chat_server::client::ClientEvent;
use chat_server::server::AcceptEvent;
use chat_server::server::AcceptorAction;
use chat_server::server::ChatServer;

#[test]
fn acceptor_drains_until_it_would_block() {
    let server = ChatServer {};
    assert_eq!(server.on_accept(&AcceptEvent::Accepted), AcceptorAction::Submit);
    assert_eq!(server.on_accept(&AcceptEvent::WouldBlock), AcceptorAction::Wait);
    assert_eq!(server.on_accept(&AcceptEvent::Failed), AcceptorAction::Exit);
}

#[test]
fn client_fails_with_a_notice_on_timeout_or_disconnect() {
    let client = ChatClient {};
    assert_eq!(
        client.on_room_event(ClientEvent::WaitTimedOut),
        ClientAction::Fail(b"Timed out\n".to_vec())
    );
    assert_eq!(
        client.on_room_event(ClientEvent::ServerClosed),
        ClientAction::Fail(b"Server disconnected\n".to_vec())
    );
}

#[test]
fn client_displays_received_messages_with_a_newline() {
    let client = ChatClient {};
    assert_eq!(
        client.on_room_event(ClientEvent::ServerData(b"Alice: hi".to_vec())),
        ClientAction::Display(b"Alice: hi\n".to_vec())
    );
}

#[test]
fn client_sends_trimmed_lines_and_quits_on_the_quit_command() {
    let client = ChatClient {};
    assert_eq!(
        client.on_room_event(ClientEvent::InputLine(b"hello there\n".to_vec())),
        ClientAction::Send(b"hello there".to_vec())
    );
    assert_eq!(
        client.on_room_event(ClientEvent::InputLine(b"/quit\n".to_vec())),
        ClientAction::Quit
    );
    assert_eq!(
        client.on_room_event(ClientEvent::InputLine(b" /quit \n".to_vec())),
        ClientAction::Quit
    );
}

#[test]
fn client_idles_when_nothing_is_ready() {
    let client = ChatClient {};
    assert_eq!(client.on_room_event(ClientEvent::ReadWouldBlock), ClientAction::Idle);
    assert_eq!(client.on_room_event(ClientEvent::NothingPending), ClientAction::Idle);
}

#[test]
fn input_loop_forwards_lines_and_stops_on_quit() {
    let client = ChatClient {};
    let (line, stop) = client.on_input_line(b"hello\n".to_vec());
    assert_eq!(line, b"hello\n".to_vec());
    assert!(!stop);
    let (line, stop) = client.on_input_line(b"/quit\n".to_vec());
    assert_eq!(line, b"/quit\n".to_vec());
    assert!(stop);
}

#[test]
fn connect_failure_uses_the_reported_code_or_one() {
    let client = ChatClient {};
    assert_eq!(client.connect_failure_status(Some(61)), 61);
    assert_eq!(client.connect_failure_status(None), 1);
}
