//! Accepting connections.
use vstd::prelude::*;

verus! {

/// How long to sleep after a connection could not be accepted, in milliseconds.
pub const ACCEPT_BACKOFF_MS: u64 = 100;

/// How long a request to another server may take, in seconds.
pub const REQUEST_TIMEOUT_SECS: u64 = 30;

/// What to do once a connection was asked for.
#[derive(Debug, Clone, Copy, PartialEq, Eq, Structural)]
pub enum AcceptAction {
    /// Serve the connection, and accept the next.
    Serve,
    /// Sleep, so that a failure that persists does not keep the processor busy, and try again.
    BackOff { millis: u64 },
}

/// What to do once a connection was accepted, or could not be. Neither ends the server.
pub fn after_accept(accepted: bool) -> (action: AcceptAction)
    ensures
        accepted ==> action is Serve,
        !accepted ==> action == (AcceptAction::BackOff { millis: ACCEPT_BACKOFF_MS }),
        !accepted ==> action == (AcceptAction::BackOff { millis: 100 }),
{
    if accepted {
        AcceptAction::Serve
    } else {
        AcceptAction::BackOff { millis: ACCEPT_BACKOFF_MS }
    }
}

} // verus!
