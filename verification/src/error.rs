//! Errors surfaced by the session registry and the upstream connector.

use vstd::prelude::*;

verus! {

/// Why a registry operation or a connection attempt was rejected.
#[derive(Clone, Copy, Debug, PartialEq, Eq, Structural)]
pub enum SessionError {
    /// `create` was called with an identifier that is already active.
    AlreadyActive,
    /// `push_audio` was called with an identifier the registry does not hold.
    InvalidSession,
    /// `stop` was called with an identifier the registry does not hold.
    NotFound,
    /// The session exists but its upstream side has already gone away.
    ChannelClosed,
    /// The upstream handshake failed; no session was registered.
    ConnectionFailed,
}

impl SessionError {
    /// A fixed description of the error, for the caller-facing surface.
    pub fn message(&self) -> (r: &'static str)
        ensures
            *self is AlreadyActive ==> r@ == "Session already active"@,
            *self is InvalidSession ==> r@ == "Invalid session"@,
            *self is NotFound ==> r@ == "Session not found"@,
            *self is ChannelClosed ==> r@ == "Send failed or session closed"@,
            *self is ConnectionFailed ==> r@ == "WebSocket connection failed"@,
    {
        match self {
            SessionError::AlreadyActive => "Session already active",
            SessionError::InvalidSession => "Invalid session",
            SessionError::NotFound => "Session not found",
            SessionError::ChannelClosed => "Send failed or session closed",
            SessionError::ConnectionFailed => "WebSocket connection failed",
        }
    }
}

} // verus!
