//! The session's error taxonomy. Every recognized failure is session-fatal:
//! the loop performs no retry and no partial-message recovery.

use vstd::prelude::*;

verus! {

/// Why a session ends abnormally.
///
/// `InputCapture` and `ChannelSend` are produced by the I/O layer that owns
/// the terminal and the backend pipes; the verified core produces the other
/// three. A reply whose `Value` variant is reached has no defined rendering
/// in this design, and a reply whose cursor lies past the end of its text
/// breaks the data-model invariant: both are reported as explicit errors
/// rather than ignored or left as an unreachable branch.
#[derive(Clone, Copy, Debug, PartialEq, Eq, Structural)]
pub enum SessionError {
    /// The terminal event source failed to deliver an event.
    InputCapture,
    /// Writing a request to the backend failed.
    ChannelSend,
    /// The backend pipe closed, broke, or yielded an undecodable reply.
    ChannelReceive,
    /// The reply's `Value` variant has no defined rendering.
    UnhandledUiVariant,
    /// The reply's cursor index lies past the end of its text.
    CursorOutOfRange,
}

} // verus!
