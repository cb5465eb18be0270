use vstd::prelude::*;

verus! {

/// Lifecycle of one streaming session.
#[derive(Clone, Copy, Debug, PartialEq, Eq, Structural)]
pub enum SessionState {
    /// The transport is being opened or the peer is being connected.
    Opening,
    /// The transport is up; the header has not yet been exchanged.
    Handshake,
    /// Samples flow.
    Streaming,
    /// An unrecoverable error ended the session; nothing follows.
    Terminated,
}

/// What the I/O side reports back to the session.
#[derive(Clone, Copy, Debug, PartialEq, Eq, Structural)]
pub enum SessionEvent {
    /// The transport was opened or the connection established.
    Opened,
    /// The header was written or read in full.
    HeaderDone,
    /// A batch of samples was written or read.
    Data,
    /// Opening the transport, reading or writing failed.
    Failed,
}

/// The state that follows `s` on event `e`. Any failure terminates; an event
/// that does not fit the current state is a protocol fault and terminates too.
pub open spec fn next_state_spec(s: SessionState, e: SessionEvent) -> SessionState {
    match (s, e) {
        (SessionState::Opening, SessionEvent::Opened) => SessionState::Handshake,
        (SessionState::Handshake, SessionEvent::HeaderDone) => SessionState::Streaming,
        (SessionState::Streaming, SessionEvent::Data) => SessionState::Streaming,
        _ => SessionState::Terminated,
    }
}

/// Advances the session by one event.
pub fn next_state(s: SessionState, e: SessionEvent) -> (r: SessionState)
    ensures
        r == next_state_spec(s, e),
        s == SessionState::Terminated ==> r == SessionState::Terminated,
        e == SessionEvent::Failed ==> r == SessionState::Terminated,
{
    match (s, e) {
        (SessionState::Opening, SessionEvent::Opened) => SessionState::Handshake,
        (SessionState::Handshake, SessionEvent::HeaderDone) => SessionState::Streaming,
        (SessionState::Streaming, SessionEvent::Data) => SessionState::Streaming,
        _ => SessionState::Terminated,
    }
}

/// Whether samples may flow in state `s`.
pub fn is_streaming(s: SessionState) -> (r: bool)
    ensures
        r <==> s == SessionState::Streaming,
{
    match s {
        SessionState::Streaming => true,
        _ => false,
    }
}

} // verus!
