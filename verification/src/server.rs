//! The server role: the acceptor loop's decisions. The driving loop owns
//! the listening socket and a readiness multiplexer; on every wake it drains
//! all pending connections, submitting one session-handling job per accepted
//! connection to the job pool, and re-checks the running flag once per wake.

use vstd::prelude::*;

verus! {

/// How many workers the server's job pool is created with.
pub const DEFAULT_POOL_SIZE: usize = 10;

/// The capacity of each session's broadcast subscription.
pub const SUBSCRIPTION_CAPACITY: usize = 4;

/// The outcome of one non-blocking accept on the listening socket.
pub enum AcceptEvent {
    /// A connection was accepted.
    Accepted,
    /// The backlog is drained for this wake.
    WouldBlock,
    /// The listening socket failed.
    Failed,
}

/// What the acceptor loop does after one accept outcome.
#[derive(PartialEq, Eq, Debug, Clone, Copy)]
pub enum AcceptorAction {
    /// Submit a session-handling job for the new connection, then keep
    /// draining: the backlog may hold more than one connection per wake.
    Submit,
    /// Stop draining and wait for the next readiness wake.
    Wait,
    /// Leave the acceptor loop: the listening socket is gone.
    Exit,
}

/// The chat server role.
pub struct ChatServer {}

impl ChatServer {
    /// The drain decision of the acceptor loop: accept until it would
    /// block, submit one job per connection, and treat any other failure as
    /// fatal to the acceptor.
    pub fn on_accept(&self, ev: &AcceptEvent) -> (a: AcceptorAction)
        ensures
            ev is Accepted ==> a is Submit,
            ev is WouldBlock ==> a is Wait,
            ev is Failed ==> a is Exit,
    {
        match ev {
            AcceptEvent::Accepted => AcceptorAction::Submit,
            AcceptEvent::WouldBlock => AcceptorAction::Wait,
            AcceptEvent::Failed => AcceptorAction::Exit,
        }
    }
}

} // verus!
