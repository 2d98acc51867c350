//! The shutdown controller: a process-wide running flag, set true at
//! startup and cleared exactly once by an external stop signal. Every long
//! loop (acceptor, session handlers, broadcaster) re-reads it between waits
//! and exits cooperatively when it clears.

use vstd::prelude::*;

verus! {

/// The state of the running flag after a stop signal, whatever it held
/// before: cleared, for good.
pub open spec fn after_signal(running: bool) -> bool {
    false
}

/// The process-wide running flag.
pub struct ShutdownFlag {
    running: bool,
}

impl ShutdownFlag {
    /// Whether the service is still running.
    pub closed spec fn running_view(self) -> bool {
        self.running
    }

    /// The flag starts true.
    pub fn new() -> (f: ShutdownFlag)
        ensures
            f.running_view(),
    {
        ShutdownFlag { running: true }
    }

    /// Delivers the stop signal: the flag clears, whatever it held before,
    /// so delivering it again changes nothing.
    pub fn signal(&mut self)
        ensures
            final(self).running_view() == after_signal(old(self).running_view()),
            !final(self).running_view(),
    {
        self.running = false;
    }

    /// Reads the flag without changing it.
    pub fn is_running(&self) -> (r: bool)
        ensures
            r == self.running_view(),
    {
        self.running
    }
}

/// Shutdown law: a second (or any later) stop signal leaves exactly the
/// state the first one left, and no signal ever turns the flag back on.
pub proof fn lemma_signal_idempotent(running: bool)
    ensures
        after_signal(after_signal(running)) == after_signal(running),
        !after_signal(running),
{
}

} // verus!
