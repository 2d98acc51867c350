//! Per-connection session state machine. A session starts unnamed, may name
//! itself (or rename) with the naming command, chats while named, and ends
//! when its peer closes the connection or its socket fails. The driving loop
//! owns the socket; it hands every read outcome to `on_read` and performs the
//! returned action.

use vstd::prelude::*;

use crate::protocol::fmt_left;
use crate::protocol::frame_next_name;
use crate::protocol::frame_reply;
use crate::protocol::interpret_frame;
use crate::protocol::left_message;

verus! {

/// The outcome of one non-blocking read on the session's socket, as the
/// driving loop observed it.
pub enum ReadEvent {
    /// One frame of payload bytes.
    Data(Vec<u8>),
    /// A zero-length read: the peer closed the connection.
    Closed,
    /// The socket was not actually ready; nothing to do this wake.
    WouldBlock,
    /// Any other I/O failure: fatal to this session only.
    Failed,
}

/// What the driving loop must do after a read outcome: keep serving the
/// session or terminate it, in either case first pushing the carried message
/// (if any) to the room's inbound queue.
#[derive(PartialEq, Eq, Debug)]
pub enum SessionStep {
    Continue(Option<Vec<u8>>),
    Stop(Option<Vec<u8>>),
}

impl SessionStep {
    /// The message this step pushes towards the room, if any.
    pub open spec fn msg(self) -> Option<Seq<u8>> {
        match self {
            SessionStep::Continue(m) => m.deep_view(),
            SessionStep::Stop(m) => m.deep_view(),
        }
    }
}

/// One connection's protocol state: its display name, empty while the
/// session has not (successfully) named itself.
pub struct Session {
    name: Vec<u8>,
}

impl Session {
    /// The current display name; the session counts as named when this is
    /// non-empty.
    pub closed spec fn name_view(self) -> Seq<u8> {
        self.name@
    }

    /// A fresh, unnamed session.
    pub fn new() -> (s: Session)
        ensures
            s.name_view() == Seq::<u8>::empty(),
    {
        Session { name: Vec::new() }
    }

    /// The current display name, for the driving loop's log lines.
    pub fn name(&self) -> (n: &Vec<u8>)
        ensures
            n@ == self.name_view(),
    {
        &self.name
    }

    /// Applies one read outcome. Payload renames or chats as `frame_reply`
    /// states; a closed peer stops the session, with a leave notice exactly
    /// when it was named; a would-block read is a no-op; any other failure
    /// stops the session with no further message.
    pub fn on_read(&mut self, ev: ReadEvent) -> (step: SessionStep)
        ensures
            ev matches ReadEvent::Data(f) ==> {
                &&& step is Continue
                &&& final(self).name_view() == frame_next_name(old(self).name_view(), f@)
                &&& step.msg() == frame_reply(old(self).name_view(), f@)
            },
            ev is Closed ==> {
                &&& step is Stop
                &&& final(self).name_view() == old(self).name_view()
                &&& step.msg() == (if old(self).name_view().len() > 0 {
                    Some(fmt_left(old(self).name_view()))
                } else {
                    Option::<Seq<u8>>::None
                })
            },
            ev is WouldBlock ==> {
                &&& step is Continue
                &&& final(self).name_view() == old(self).name_view()
                &&& step.msg() is None
            },
            ev is Failed ==> {
                &&& step is Stop
                &&& final(self).name_view() == old(self).name_view()
                &&& step.msg() is None
            },
    {
        match ev {
            ReadEvent::Data(f) => {
                let (next, reply) = interpret_frame(&self.name, f.as_slice());
                self.name = next;
                SessionStep::Continue(reply)
            },
            ReadEvent::Closed => {
                if self.name.len() > 0 {
                    let notice = left_message(self.name.as_slice());
                    SessionStep::Stop(Some(notice))
                } else {
                    SessionStep::Stop(None)
                }
            },
            ReadEvent::WouldBlock => SessionStep::Continue(None),
            ReadEvent::Failed => SessionStep::Stop(None),
        }
    }

    /// Applies one write-readiness wake, given the message just polled from
    /// this session's subscription: a pending message is written to the
    /// socket, an empty poll means a short idle backoff.
    pub fn on_write_ready(&self, polled: Option<Vec<u8>>) -> (w: WriteStep)
        ensures
            polled matches Some(m) ==> w matches WriteStep::Write(out) && out@ == m@,
            polled is None ==> w is Idle,
    {
        match polled {
            Some(m) => WriteStep::Write(m),
            None => WriteStep::Idle,
        }
    }
}

/// What the driving loop does on a write-readiness wake.
#[derive(PartialEq, Eq, Debug)]
pub enum WriteStep {
    /// Write these bytes to the socket and flush.
    Write(Vec<u8>),
    /// Nothing pending: back off briefly instead of spinning.
    Idle,
}

} // verus!
