//! Decisions of the upstream relay: connect with bounded retry, send the
//! request, copy the response back, or answer with a fixed error response.
//! The caller performs each action and reports what happened as an event.

use vstd::prelude::*;
use vstd::utf8::*;

verus! {

/// Failed attempts that are retried before the last one.
pub const CONNECT_RETRIES: u32 = 2;

/// Size of the chunks read from upstream.
pub const RELAY_CHUNK_SIZE: usize = 65535;

/// Sent downstream when no upstream connection could be made.
pub const ERROR_RESPONSE: &'static str = "HTTP/1.1 501 Internal Server Error\r\nContent-Length: 6\r\n\r\nSorry\n";

#[derive(Debug, Clone, Copy, PartialEq, Eq, Structural)]
pub enum RelayState {
    /// Waiting for the outcome of connection attempt number `attempt`, from 0.
    Connecting { attempt: u32 },
    Streaming,
    ErrorResponseSent,
    Closed,
}

#[derive(Debug, Clone, Copy, PartialEq, Eq, Structural)]
pub enum RelayEvent {
    Connected,
    ConnectFailed,
    /// The last write finished.
    Written,
    /// A read from upstream gave this many bytes; 0 is end of stream.
    Received { len: usize },
    /// A read or write failed.
    IoError,
}

#[derive(Debug, Clone, Copy, PartialEq, Eq, Structural)]
pub enum RelayAction {
    /// Attempt a connection to upstream.
    Connect,
    /// Write the serialized request, then the body, upstream.
    SendRequest,
    /// Read the next chunk from upstream.
    ReadUpstream,
    /// Write the chunk just read, this many bytes, downstream.
    Forward { len: usize },
    /// Write the fixed error response downstream.
    SendErrorResponse,
    /// Stop: the session is over.
    Finish,
}

/// The relay's transition table. While connecting, any event but
/// `Connected` counts as a failed attempt; while streaming, anything but a
/// finished write or a non-empty read ends the session; the error response
/// and `Closed` both lead to `Closed`.
pub open spec fn relay_next(s: RelayState, e: RelayEvent) -> (RelayState, RelayAction) {
    match s {
        RelayState::Connecting { attempt } => match e {
            RelayEvent::Connected => (RelayState::Streaming, RelayAction::SendRequest),
            _ => if attempt < CONNECT_RETRIES {
                (RelayState::Connecting { attempt: (attempt + 1) as u32 }, RelayAction::Connect)
            } else {
                (RelayState::ErrorResponseSent, RelayAction::SendErrorResponse)
            },
        },
        RelayState::Streaming => match e {
            RelayEvent::Written => (RelayState::Streaming, RelayAction::ReadUpstream),
            RelayEvent::Received { len } => if len > 0 {
                (RelayState::Streaming, RelayAction::Forward { len })
            } else {
                (RelayState::Closed, RelayAction::Finish)
            },
            _ => (RelayState::Closed, RelayAction::Finish),
        },
        _ => (RelayState::Closed, RelayAction::Finish),
    }
}

/// The first state, and the first action: a connection attempt.
pub fn relay_start() -> (r: (RelayState, RelayAction))
    ensures
        r == (RelayState::Connecting { attempt: 0 }, RelayAction::Connect),
{
    (RelayState::Connecting { attempt: 0 }, RelayAction::Connect)
}

/// The next state and action after event `e` in state `s`.
pub fn relay_step(s: RelayState, e: RelayEvent) -> (r: (RelayState, RelayAction))
    ensures
        r == relay_next(s, e),
{
    match s {
        RelayState::Connecting { attempt } => match e {
            RelayEvent::Connected => (RelayState::Streaming, RelayAction::SendRequest),
            _ => if attempt < CONNECT_RETRIES {
                (RelayState::Connecting { attempt: attempt + 1 }, RelayAction::Connect)
            } else {
                (RelayState::ErrorResponseSent, RelayAction::SendErrorResponse)
            },
        },
        RelayState::Streaming => match e {
            RelayEvent::Written => (RelayState::Streaming, RelayAction::ReadUpstream),
            RelayEvent::Received { len } => if len > 0 {
                (RelayState::Streaming, RelayAction::Forward { len })
            } else {
                (RelayState::Closed, RelayAction::Finish)
            },
            _ => (RelayState::Closed, RelayAction::Finish),
        },
        _ => (RelayState::Closed, RelayAction::Finish),
    }
}

/// The fixed response that a client gets when upstream cannot be reached.
pub fn error_response() -> (r: Vec<u8>)
    ensures
        r@ == encode_utf8(ERROR_RESPONSE@),
{
    let b = ERROR_RESPONSE.as_bytes();
    let mut out: Vec<u8> = Vec::with_capacity(b.len());
    let mut i: usize = 0;
    while i < b.len()
        invariant
            i <= b@.len(),
            out@ == b@.take(i as int),
        decreases b@.len() - i,
    {
        out.push(b[i]);
        i = i + 1;
        assert(out@ =~= b@.take(i as int));
    }
    assert(b@.take(i as int) =~= b@);
    out
}

/// Connect exhaustion: when every attempt fails, the relay answers with the
/// error response after exactly `CONNECT_RETRIES + 1` attempts, and only then.
pub proof fn lemma_connect_exhausted()
    ensures
        relay_next(RelayState::Connecting { attempt: 0 }, RelayEvent::ConnectFailed) == (
            RelayState::Connecting { attempt: 1 },
            RelayAction::Connect,
        ),
        relay_next(RelayState::Connecting { attempt: 1 }, RelayEvent::ConnectFailed) == (
            RelayState::Connecting { attempt: 2 },
            RelayAction::Connect,
        ),
        relay_next(RelayState::Connecting { attempt: 2 }, RelayEvent::ConnectFailed) == (
            RelayState::ErrorResponseSent,
            RelayAction::SendErrorResponse,
        ),
        relay_next(RelayState::ErrorResponseSent, RelayEvent::Written) == (
            RelayState::Closed,
            RelayAction::Finish,
        ),
{
}

/// Attempts are bounded: from any connecting state, a failure either retries
/// with the next attempt number, never past `CONNECT_RETRIES`, or gives up.
pub proof fn lemma_attempts_bounded(attempt: u32)
    requires
        attempt <= CONNECT_RETRIES,
    ensures
        match relay_next(RelayState::Connecting { attempt }, RelayEvent::ConnectFailed) {
            (RelayState::Connecting { attempt: a }, RelayAction::Connect) => a == attempt + 1
                && a <= CONNECT_RETRIES,
            (RelayState::ErrorResponseSent, RelayAction::SendErrorResponse) => attempt
                == CONNECT_RETRIES,
            _ => false,
        },
{
}

/// Closed is terminal, and a failed read or write while streaming closes
/// the session at once.
pub proof fn lemma_closed_terminal(e: RelayEvent)
    ensures
        relay_next(RelayState::Closed, e) == (RelayState::Closed, RelayAction::Finish),
        relay_next(RelayState::Streaming, RelayEvent::IoError) == (
            RelayState::Closed,
            RelayAction::Finish,
        ),
{
}

} // verus!
