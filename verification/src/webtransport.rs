//! The life of a transport session and the limits of its datagrams.

use vstd::prelude::*;

verus! {

/// What can go wrong on a session or one of its streams.
#[derive(Debug, Clone, Copy, PartialEq, Eq, Structural)]
pub enum SessionError {
    /// The connection has failed; the session has to be rebuilt.
    Connection,
    Write,
    Read,
    /// The session is closed.
    Closed,
    /// The datagram is too large, or could not be sent.
    Datagram,
}

/// The datagram size that is assumed where the connection names none.
pub const DEFAULT_MAX_DATAGRAM_SIZE: usize = 1200;

/// Code with which a session is closed on shutdown.
pub const CLOSE_CODE_SHUTDOWN: u32 = 0;

/// Code with which a session is closed after repeated protocol errors.
pub const CLOSE_CODE_PROTOCOL: u32 = 1;

/// The largest datagram of a connection that reports `reported`.
pub fn max_datagram_size(reported: Option<usize>) -> (n: usize)
    ensures
        n == match reported {
            Some(size) => size,
            None => DEFAULT_MAX_DATAGRAM_SIZE,
        },
{
    match reported {
        Some(size) => size,
        None => DEFAULT_MAX_DATAGRAM_SIZE,
    }
}

/// Where a session stands in its life.
#[derive(Debug, Clone, Copy, PartialEq, Eq, Structural)]
pub enum SessionState {
    Dialing,
    Open,
    /// Closing was asked for; the peer has not confirmed it yet.
    Draining,
    Closed,
}

/// What happens to a session.
#[derive(Debug, Clone, Copy, PartialEq, Eq, Structural)]
pub enum SessionEvent {
    /// The handshake is done.
    Connected,
    /// This side asks to close.
    CloseRequested,
    /// The connection is gone, by either side or by failure.
    ConnectionLost,
}

/// The state after `event`: a session only moves forward, and a closed
/// session stays closed.
pub open spec fn next_state(state: SessionState, event: SessionEvent) -> SessionState {
    match (state, event) {
        (SessionState::Dialing, SessionEvent::Connected) => SessionState::Open,
        (SessionState::Dialing, SessionEvent::CloseRequested) => SessionState::Closed,
        (SessionState::Open, SessionEvent::CloseRequested) => SessionState::Draining,
        (SessionState::Closed, _) => SessionState::Closed,
        (_, SessionEvent::ConnectionLost) => SessionState::Closed,
        _ => state,
    }
}

/// How far a state is on the way to closed.
pub open spec fn progress(state: SessionState) -> nat {
    match state {
        SessionState::Dialing => 0,
        SessionState::Open => 1,
        SessionState::Draining => 2,
        SessionState::Closed => 3,
    }
}

/// A session never moves back.
pub proof fn lemma_session_moves_forward(state: SessionState, event: SessionEvent)
    ensures
        progress(next_state(state, event)) >= progress(state),
{
}

/// Milliseconds within which the handshake of a session has to be done.
pub const HANDSHAKE_BUDGET_MS: u64 = 30_000;

/// Whether a session in `state`, dialed at `started_ms`, has used up the
/// time of its handshake at `now_ms`.
pub open spec fn handshake_overdue(state: SessionState, started_ms: u64, now_ms: u64) -> bool {
    state == SessionState::Dialing && now_ms - started_ms >= HANDSHAKE_BUDGET_MS
}

/// The life of one session.
#[derive(Debug, Clone, Copy, PartialEq, Eq, Structural)]
pub struct SessionLifecycle {
    pub state: SessionState,
}

impl SessionLifecycle {
    /// A session that is being dialed.
    pub fn new() -> (s: Self)
        ensures
            s.state == SessionState::Dialing,
    {
        Self { state: SessionState::Dialing }
    }

    /// Takes `event` and says whether the session became closed by it:
    /// that happens at most once in the life of a session.
    pub fn on_event(&mut self, event: SessionEvent) -> (closed_now: bool)
        ensures
            final(self).state == next_state(old(self).state, event),
            closed_now == (old(self).state != SessionState::Closed && final(self).state
                == SessionState::Closed),
    {
        let before = self.state;
        self.state = match (before, event) {
            (SessionState::Dialing, SessionEvent::Connected) => SessionState::Open,
            (SessionState::Dialing, SessionEvent::CloseRequested) => SessionState::Closed,
            (SessionState::Open, SessionEvent::CloseRequested) => SessionState::Draining,
            (SessionState::Closed, _) => SessionState::Closed,
            (_, SessionEvent::ConnectionLost) => SessionState::Closed,
            _ => before,
        };
        before != SessionState::Closed && self.state == SessionState::Closed
    }

    /// Takes a reading of the clock: a session that is still dialing when
    /// the time of its handshake is used up is closed. Says whether the
    /// session became closed by it.
    pub fn on_clock(&mut self, started_ms: u64, now_ms: u64) -> (closed_now: bool)
        ensures
            closed_now == handshake_overdue(old(self).state, started_ms, now_ms),
            final(self).state == if closed_now {
                SessionState::Closed
            } else {
                old(self).state
            },
    {
        if self.state == SessionState::Dialing && now_ms >= started_ms && now_ms - started_ms
            >= HANDSHAKE_BUDGET_MS {
            self.state = SessionState::Closed;
            true
        } else {
            false
        }
    }

    /// Whether streams can be opened and datagrams sent.
    pub fn is_open(&self) -> (b: bool)
        ensures
            b == (self.state == SessionState::Open),
    {
        self.state == SessionState::Open
    }

    /// Whether a datagram of `len` bytes may be handed to a connection
    /// whose largest datagram has `max` bytes.
    pub fn check_datagram(&self, len: usize, max: usize) -> (r: Result<(), SessionError>)
        ensures
            r == if self.state != SessionState::Open {
                Err::<(), SessionError>(SessionError::Closed)
            } else if len > max {
                Err::<(), SessionError>(SessionError::Datagram)
            } else {
                Ok::<(), SessionError>(())
            },
    {
        if self.state != SessionState::Open {
            Err(SessionError::Closed)
        } else if len > max {
            Err(SessionError::Datagram)
        } else {
            Ok(())
        }
    }
}

/// Protocol errors that a session forgives its peer before it is closed.
pub const DEFAULT_TOLERATED_ERRORS: u32 = 1;

/// What is done about a protocol error of the peer.
#[derive(Debug, Clone, Copy, PartialEq, Eq, Structural)]
pub enum ErrorAction {
    /// The error is reported to the peer in the error message that matches
    /// its message; the session stays open.
    Report,
    /// The session is closed with the code for protocol errors.
    CloseSession { code: u32 },
}

/// The protocol errors of one session's peer: an invalid encoding, a
/// message that does not fit the session's state, an unknown subscription,
/// a range that ends before it starts.
#[derive(Debug, Clone, Copy, PartialEq, Eq, Structural)]
pub struct ProtocolErrors {
    pub tolerated: u32,
    pub seen: u32,
}

/// What is done about the next error after `seen` errors of which
/// `tolerated` are forgiven: it is reported while errors are forgiven, and
/// closes the session once they are not.
pub open spec fn error_action(tolerated: u32, seen: u32) -> ErrorAction {
    if seen < tolerated {
        ErrorAction::Report
    } else {
        ErrorAction::CloseSession { code: CLOSE_CODE_PROTOCOL }
    }
}

impl ProtocolErrors {
    /// No error seen; `tolerated` errors are forgiven.
    pub fn new(tolerated: u32) -> (e: Self)
        ensures
            e == (ProtocolErrors { tolerated, seen: 0 }),
    {
        ProtocolErrors { tolerated, seen: 0 }
    }

    /// Counts a protocol error of the peer and says what is done about it.
    /// An error that closes the session is not counted: every error after
    /// it closes the session too.
    pub fn on_protocol_error(&mut self) -> (action: ErrorAction)
        ensures
            action == error_action(old(self).tolerated, old(self).seen),
            final(self).tolerated == old(self).tolerated,
            final(self).seen == if old(self).seen < old(self).tolerated {
                (old(self).seen + 1) as u32
            } else {
                old(self).seen
            },
    {
        if self.seen < self.tolerated {
            self.seen = self.seen + 1;
            ErrorAction::Report
        } else {
            ErrorAction::CloseSession { code: CLOSE_CODE_PROTOCOL }
        }
    }
}

impl Default for ProtocolErrors {
    fn default() -> (e: Self)
        ensures
            e == (ProtocolErrors { tolerated: DEFAULT_TOLERATED_ERRORS, seen: 0 }),
    {
        ProtocolErrors::new(DEFAULT_TOLERATED_ERRORS)
    }
}

} // verus!
