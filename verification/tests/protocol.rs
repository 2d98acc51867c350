//! The wire protocol on concrete frames: trimming, UTF-8 validation, the
//! naming command, and the rendered message formats.

use chat_server::protocol::chat_message;
use chat_server::protocol::interpret_frame;
use chat_server::protocol::is_user_prefixed;
use chat_server::protocol::joined_message;
use chat_server::protocol::left_message;
use chat_server::protocol::user_cmd_message;
use chat_server::text::trim_bytes;
use chat_server::text::utf8_frame_ok;

#[test]
fn trim_strips_both_ends() {
    assert_eq!(trim_bytes(b"  hello \r\n"), b"hello".to_vec());
    assert_eq!(trim_bytes(b"hello"), b"hello".to_vec());
    assert_eq!(trim_bytes(b"\thi there\t"), b"hi there".to_vec());
}

#[test]
fn trim_of_blank_input_is_empty() {
    assert_eq!(trim_bytes(b""), Vec::<u8>::new());
    assert_eq!(trim_bytes(b" \t\r\n "), Vec::<u8>::new());
}

#[test]
fn utf8_accepts_well_formed_frames() {
    assert!(utf8_frame_ok(b""));
    assert!(utf8_frame_ok(b"plain ascii"));
    assert!(utf8_frame_ok("caf\u{e9}".as_bytes()));
    assert!(utf8_frame_ok("\u{20ac}100".as_bytes()));
    assert!(utf8_frame_ok("\u{1f600}".as_bytes()));
}

#[test]
fn utf8_rejects_malformed_frames() {
    // A continuation byte cannot lead.
    assert!(!utf8_frame_ok(&[0x80]));
    // Truncated two-byte scalar.
    assert!(!utf8_frame_ok(&[0xC3]));
    // Overlong encoding of '/'.
    assert!(!utf8_frame_ok(&[0xC0, 0xAF]));
    // An encoded surrogate.
    assert!(!utf8_frame_ok(&[0xED, 0xA0, 0x80]));
    // Above the last scalar value.
    assert!(!utf8_frame_ok(&[0xF4, 0x90, 0x80, 0x80]));
    // No scalar starts with 0xFF.
    assert!(!utf8_frame_ok(&[0xFF]));
    // Valid prefix, bad tail.
    assert!(!utf8_frame_ok(&[b'h', b'i', 0xC3]));
}

#[test]
fn user_prefix_is_exactly_the_command_token() {
    assert!(is_user_prefixed(b"/user Alice"));
    assert!(is_user_prefixed(b"/user"));
    assert!(!is_user_prefixed(b"/use"));
    assert!(!is_user_prefixed(b"hello"));
    assert!(!is_user_prefixed(b""));
    assert!(!is_user_prefixed(b"/quit"));
}

#[test]
fn rendered_messages_match_the_wire_format() {
    assert_eq!(joined_message(b"Alice"), b"Alice has joined the room.".to_vec());
    assert_eq!(left_message(b"Bob"), b"Bob has left the room.".to_vec());
    assert_eq!(chat_message(b"Alice", b"hello"), b"Alice: hello".to_vec());
    assert_eq!(user_cmd_message(b"Alice"), b"/user Alice".to_vec());
}

#[test]
fn naming_frame_installs_the_trimmed_name() {
    let cur: Vec<u8> = Vec::new();
    let (name, reply) = interpret_frame(&cur, b"/user Alice\n");
    assert_eq!(name, b"Alice".to_vec());
    assert_eq!(reply, Some(b"Alice has joined the room.".to_vec()));
}

#[test]
fn chat_from_a_named_session_is_attributed() {
    let cur = b"Alice".to_vec();
    let (name, reply) = interpret_frame(&cur, b"hello\n");
    assert_eq!(name, b"Alice".to_vec());
    assert_eq!(reply, Some(b"Alice: hello".to_vec()));
}

#[test]
fn chat_from_an_unnamed_session_is_dropped() {
    let cur: Vec<u8> = Vec::new();
    let (name, reply) = interpret_frame(&cur, b"hi\n");
    assert!(name.is_empty());
    assert_eq!(reply, None);
}

#[test]
fn malformed_frame_is_dropped_and_changes_nothing() {
    let cur = b"Alice".to_vec();
    let (name, reply) = interpret_frame(&cur, &[b'h', 0xFF, b'i']);
    assert_eq!(name, b"Alice".to_vec());
    assert_eq!(reply, None);
}

#[test]
fn renaming_overwrites_the_name_and_announces_again() {
    let cur = b"Alice".to_vec();
    let (name, reply) = interpret_frame(&cur, b"/user Alicia");
    assert_eq!(name, b"Alicia".to_vec());
    assert_eq!(reply, Some(b"Alicia has joined the room.".to_vec()));
}

#[test]
fn quit_is_ordinary_chat_text_on_the_server() {
    let cur = b"Alice".to_vec();
    let (name, reply) = interpret_frame(&cur, b"/quit");
    assert_eq!(name, b"Alice".to_vec());
    assert_eq!(reply, Some(b"Alice: /quit".to_vec()));
}

#[test]
fn a_frame_at_the_ceiling_is_one_message() {
    let text = vec![b'a'; chat_server::protocol::FRAME_CEILING];
    let cur = b"Alice".to_vec();
    let (name, reply) = interpret_frame(&cur, &text);
    assert_eq!(name, b"Alice".to_vec());
    let mut expected = b"Alice: ".to_vec();
    expected.extend_from_slice(&text);
    assert_eq!(reply, Some(expected));
}

#[test]
fn naming_with_an_empty_name_announces_but_leaves_the_session_unnamed() {
    let cur: Vec<u8> = Vec::new();
    let (name, reply) = interpret_frame(&cur, b"/user   \n");
    assert!(name.is_empty());
    assert_eq!(reply, Some(b" has joined the room.".to_vec()));
    // Chat text afterwards is still dropped: the session never got a name.
    let (_, reply) = interpret_frame(&name, b"hi");
    assert_eq!(reply, None);
}
