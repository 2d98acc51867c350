//! The wire protocol of the chat room. Frames are newline-free byte strings,
//! one per socket read. A frame whose trimmed text begins with the naming
//! command renames the session; any other frame is chat text. Replies carry
//! rendered room messages: `<name>: <text>` and the join/leave notices.

use vstd::prelude::*;
use vstd::slice::slice_subrange;
use vstd::slice::slice_to_vec;
use vstd::string::StringSliceAdditionalSpecFns;
use vstd::utf8::valid_utf8;

use crate::text::trim_bytes;
use crate::text::trimmed;
use crate::text::utf8_frame_ok;

verus! {

/// Largest frame a session reads in one pass; longer input is truncated by
/// the reader, never rejected.
pub const FRAME_CEILING: usize = 1024;

/// The bytes of an ASCII string literal, as they appear on the wire.
pub open spec fn lit_bytes(s: &str) -> Seq<u8> {
    s.spec_bytes()
}

/// The command token that names a session.
pub open spec fn user_cmd() -> Seq<u8> {
    seq!['/' as u8, 'u' as u8, 's' as u8, 'e' as u8, 'r' as u8]
}

/// Whether a trimmed frame invokes the naming command.
pub open spec fn is_user_frame(t: Seq<u8>) -> bool {
    t.len() >= 5 && t.subrange(0, 5) == user_cmd()
}

/// The name carried by a naming frame: everything after the command token,
/// trimmed. It may be empty, in which case the session stays unnamed.
pub open spec fn user_name_of(t: Seq<u8>) -> Seq<u8>
    recommends
        is_user_frame(t),
{
    trimmed(t.subrange(5, t.len() as int))
}

/// The join notice broadcast when a session names itself.
pub open spec fn fmt_joined(name: Seq<u8>) -> Seq<u8> {
    name + lit_bytes(" has joined the room.")
}

/// The leave notice broadcast when a named session disconnects.
pub open spec fn fmt_left(name: Seq<u8>) -> Seq<u8> {
    name + lit_bytes(" has left the room.")
}

/// A chat line as every subscriber sees it.
pub open spec fn fmt_chat(name: Seq<u8>, text: Seq<u8>) -> Seq<u8> {
    name + lit_bytes(": ") + text
}

/// The frame a client sends first to declare its display name.
pub open spec fn fmt_user_cmd(name: Seq<u8>) -> Seq<u8> {
    lit_bytes("/user ") + name
}

/// What a received frame leaves as the session's name: a well-formed naming
/// frame installs the name it carries, every other frame changes nothing.
pub open spec fn frame_next_name(cur: Seq<u8>, frame: Seq<u8>) -> Seq<u8> {
    if valid_utf8(frame) && is_user_frame(trimmed(frame)) {
        user_name_of(trimmed(frame))
    } else {
        cur
    }
}

/// The message a received frame pushes towards the room, if any: a malformed
/// frame is dropped, a naming frame announces the join, chat text from a
/// named session is rendered as `<name>: <text>`, and chat text from an
/// unnamed session is dropped silently (no recipient name exists for it).
pub open spec fn frame_reply(cur: Seq<u8>, frame: Seq<u8>) -> Option<Seq<u8>> {
    if !valid_utf8(frame) {
        None
    } else if is_user_frame(trimmed(frame)) {
        Some(fmt_joined(user_name_of(trimmed(frame))))
    } else if cur.len() > 0 {
        Some(fmt_chat(cur, trimmed(frame)))
    } else {
        None
    }
}

/// Whether the trimmed frame `t` begins with the naming command.
pub fn is_user_prefixed(t: &[u8]) -> (r: bool)
    ensures
        r == is_user_frame(t@),
{
    if t.len() < 5 {
        return false;
    }
    let r = t[0] == '/' as u8 && t[1] == 'u' as u8 && t[2] == 's' as u8 && t[3] == 'e' as u8
        && t[4] == 'r' as u8;
    proof {
        assert(t@.subrange(0, 5)[0] == t@[0]);
        assert(t@.subrange(0, 5)[1] == t@[1]);
        assert(t@.subrange(0, 5)[2] == t@[2]);
        assert(t@.subrange(0, 5)[3] == t@[3]);
        assert(t@.subrange(0, 5)[4] == t@[4]);
        if r {
            assert(t@.subrange(0, 5) =~= user_cmd());
        }
    }
    r
}

/// Appends the bytes of an ASCII literal to `dst`.
pub(crate) fn push_lit(dst: &mut Vec<u8>, s: &str)
    ensures
        final(dst)@ == old(dst)@ + lit_bytes(s),
{
    let b = s.as_bytes();
    let n = b.len();
    let mut k: usize = 0;
    while k < n
        invariant
            0 <= k <= n,
            n == b@.len(),
            b@ == lit_bytes(s),
            dst@ == old(dst)@ + b@.subrange(0, k as int),
        decreases n - k,
    {
        dst.push(b[k]);
        proof {
            assert(old(dst)@ + b@.subrange(0, k as int + 1) =~= (old(dst)@ + b@.subrange(
                0,
                k as int,
            )).push(b@[k as int]));
        }
        k = k + 1;
    }
    proof {
        assert(b@.subrange(0, n as int) =~= b@);
    }
}

/// Renders the join notice for `name`.
pub fn joined_message(name: &[u8]) -> (m: Vec<u8>)
    ensures
        m@ == fmt_joined(name@),
{
    let mut m = slice_to_vec(name);
    push_lit(&mut m, " has joined the room.");
    m
}

/// Renders the leave notice for `name`.
pub fn left_message(name: &[u8]) -> (m: Vec<u8>)
    ensures
        m@ == fmt_left(name@),
{
    let mut m = slice_to_vec(name);
    push_lit(&mut m, " has left the room.");
    m
}

/// Renders a chat line from `name`.
pub fn chat_message(name: &[u8], text: &[u8]) -> (m: Vec<u8>)
    ensures
        m@ == fmt_chat(name@, text@),
{
    let mut m = slice_to_vec(name);
    push_lit(&mut m, ": ");
    let mut k: usize = 0;
    let n = text.len();
    while k < n
        invariant
            0 <= k <= n,
            n == text@.len(),
            m@ == name@ + lit_bytes(": ") + text@.subrange(0, k as int),
        decreases n - k,
    {
        m.push(text[k]);
        proof {
            assert(name@ + lit_bytes(": ") + text@.subrange(0, k as int + 1) =~= (name@ + lit_bytes(
                ": ",
            ) + text@.subrange(0, k as int)).push(text@[k as int]));
        }
        k = k + 1;
    }
    proof {
        assert(text@.subrange(0, n as int) =~= text@);
        assert(name@ + lit_bytes(": ") =~= name@ + lit_bytes(": ") + text@.subrange(0, 0));
    }
    m
}

/// Renders the naming frame a client sends for `name`.
pub fn user_cmd_message(name: &[u8]) -> (m: Vec<u8>)
    ensures
        m@ == fmt_user_cmd(name@),
{
    let mut m: Vec<u8> = Vec::new();
    push_lit(&mut m, "/user ");
    let mut k: usize = 0;
    let n = name.len();
    while k < n
        invariant
            0 <= k <= n,
            n == name@.len(),
            m@ == lit_bytes("/user ") + name@.subrange(0, k as int),
        decreases n - k,
    {
        m.push(name[k]);
        proof {
            assert(lit_bytes("/user ") + name@.subrange(0, k as int + 1) =~= (lit_bytes("/user ")
                + name@.subrange(0, k as int)).push(name@[k as int]));
        }
        k = k + 1;
    }
    proof {
        assert(name@.subrange(0, n as int) =~= name@);
    }
    m
}

/// Interprets one frame against the current name `cur`: returns the new name
/// and the message to push towards the room, exactly as `frame_next_name`
/// and `frame_reply` state.
pub fn interpret_frame(cur: &Vec<u8>, frame: &[u8]) -> (r: (Vec<u8>, Option<Vec<u8>>))
    ensures
        r.0@ == frame_next_name(cur@, frame@),
        r.1 is Some <==> frame_reply(cur@, frame@) is Some,
        r.1 matches Some(m) ==> frame_reply(cur@, frame@) == Some(m@),
{
    if !utf8_frame_ok(frame) {
        return (slice_to_vec(cur.as_slice()), None);
    }
    let t = trim_bytes(frame);
    if is_user_prefixed(t.as_slice()) {
        let rest = slice_subrange(t.as_slice(), 5, t.len());
        let name = trim_bytes(rest);
        let notice = joined_message(name.as_slice());
        (name, Some(notice))
    } else if cur.len() > 0 {
        let line = chat_message(cur.as_slice(), t.as_slice());
        (slice_to_vec(cur.as_slice()), Some(line))
    } else {
        (slice_to_vec(cur.as_slice()), None)
    }
}

} // verus!
