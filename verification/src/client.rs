//! The client role: the decisions of its two loops. The room loop owns the
//! server socket, displays everything the server sends and forwards typed
//! lines; the input loop reads lines and hands them over, stopping on the
//! quit command. Both loops' I/O stays with the driving binary.

use vstd::prelude::*;
use vstd::slice::slice_to_vec;

use crate::protocol::lit_bytes;
use crate::protocol::push_lit;
use crate::text::trim_bytes;
use crate::text::trimmed;

verus! {

/// Seconds the client waits for server activity before giving up.
pub const CLIENT_IDLE_TIMEOUT_SECS: u32 = 5;

/// Milliseconds a loop sleeps when a poll found nothing to do.
pub const IDLE_BACKOFF_MILLIS: u64 = 10;

/// The command a user types to leave: the client disconnects itself.
pub open spec fn quit_cmd() -> Seq<u8> {
    seq!['/' as u8, 'q' as u8, 'u' as u8, 'i' as u8, 't' as u8]
}

/// What the client's room loop observed on one wake.
pub enum ClientEvent {
    /// No server activity within the idle timeout.
    WaitTimedOut,
    /// One frame of bytes from the server.
    ServerData(Vec<u8>),
    /// A zero-length read: the server closed the connection.
    ServerClosed,
    /// The socket was not actually ready after all.
    ReadWouldBlock,
    /// The user typed this line, handed over by the input loop.
    InputLine(Vec<u8>),
    /// Nothing typed and nothing pending this wake.
    NothingPending,
}

/// What the client's room loop must do next.
#[derive(PartialEq, Eq, Debug)]
pub enum ClientAction {
    /// Print these bytes (a received message, newline-terminated).
    Display(Vec<u8>),
    /// Write these bytes to the server socket and flush.
    Send(Vec<u8>),
    /// Print this notice and exit with status 1.
    Fail(Vec<u8>),
    /// Leave the loop normally: the user quit.
    Quit,
    /// Nothing to do: back off briefly.
    Idle,
}

/// Whether the trimmed line is the quit command.
pub fn is_quit(t: &[u8]) -> (r: bool)
    ensures
        r == (t@ == quit_cmd()),
{
    if t.len() != 5 {
        proof {
            assert(t@.len() != 5);
        }
        return false;
    }
    let r = t[0] == '/' as u8 && t[1] == 'q' as u8 && t[2] == 'u' as u8 && t[3] == 'i' as u8
        && t[4] == 't' as u8;
    proof {
        if r {
            assert(t@ =~= quit_cmd());
        } else {
            assert(t@ != quit_cmd());
        }
    }
    r
}

/// The chat client role.
pub struct ChatClient {}

impl ChatClient {
    /// The room loop's decision for one observed event: a timeout or a
    /// closed server ends the client with a notice and status 1; received
    /// bytes are displayed with a trailing newline; a typed line is trimmed
    /// and either quits the client or goes to the server; anything else is a
    /// brief idle.
    pub fn on_room_event(&self, ev: ClientEvent) -> (a: ClientAction)
        ensures
            ev is WaitTimedOut ==> (a matches ClientAction::Fail(n) && n@ == lit_bytes(
                "Timed out\n",
            )),
            ev is ServerClosed ==> (a matches ClientAction::Fail(n) && n@ == lit_bytes(
                "Server disconnected\n",
            )),
            ev matches ClientEvent::ServerData(m) ==> (a matches ClientAction::Display(out) && out@
                == m@ + lit_bytes("\n")),
            ev is ReadWouldBlock ==> a is Idle,
            ev is NothingPending ==> a is Idle,
            ev matches ClientEvent::InputLine(l) ==> {
                if trimmed(l@) == quit_cmd() {
                    a is Quit
                } else {
                    a matches ClientAction::Send(out) && out@ == trimmed(l@)
                }
            },
    {
        match ev {
            ClientEvent::WaitTimedOut => ClientAction::Fail(notice_line("Timed out\n")),
            ClientEvent::ServerClosed => ClientAction::Fail(notice_line("Server disconnected\n")),
            ClientEvent::ServerData(m) => {
                let mut out = slice_to_vec(m.as_slice());
                push_lit(&mut out, "\n");
                ClientAction::Display(out)
            },
            ClientEvent::ReadWouldBlock => ClientAction::Idle,
            ClientEvent::NothingPending => ClientAction::Idle,
            ClientEvent::InputLine(l) => {
                let t = trim_bytes(l.as_slice());
                if is_quit(t.as_slice()) {
                    ClientAction::Quit
                } else {
                    ClientAction::Send(t)
                }
            },
        }
    }

    /// The input loop's decision for one typed line: the line is forwarded
    /// to the room loop as it was typed, and the input loop stops exactly
    /// when its trimmed text is the quit command.
    pub fn on_input_line(&self, line: Vec<u8>) -> (r: (Vec<u8>, bool))
        ensures
            r.0@ == line@,
            r.1 == (trimmed(line@) == quit_cmd()),
    {
        let t = trim_bytes(line.as_slice());
        let stop = is_quit(t.as_slice());
        (line, stop)
    }

    /// The exit status when connecting to the server fails: the reported OS
    /// error code if there is one, 1 otherwise.
    pub fn connect_failure_status(&self, code: Option<i32>) -> (s: i32)
        ensures
            code matches Some(c) ==> s == c,
            code is None ==> s == 1,
    {
        match code {
            Some(c) => c,
            None => 1,
        }
    }
}

/// Builds the bytes of an ASCII notice literal.
fn notice_line(s: &str) -> (v: Vec<u8>)
    ensures
        v@ == lit_bytes(s),
{
    let b = s.as_bytes();
    let v = slice_to_vec(b);
    v
}

} // verus!
