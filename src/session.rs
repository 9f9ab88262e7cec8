//! The session machine of one accepted connection: read a request, answer
//! it, and go on until the peer closes, a fault occurs, or the connection
//! stays idle too long. Exactly one response is written per request, and no
//! further request is read before it has been flushed.

use vstd::prelude::*;
use crate::message::Request;

verus! {

/// How long, in seconds, a session waits for the next request, and for its
/// response to be written.
pub const IDLE_TIMEOUT_SECS: u64 = 60;

/// Why a session ended.
#[derive(Debug, Clone, Copy, PartialEq, Eq, Structural)]
pub enum Termination {
    /// The peer closed the connection between two requests.
    ClosedByPeer,
    /// A read or a write failed, or a frame was malformed.
    ProtocolError,
    /// No request came within the idle window.
    IdleTimeout,
}

/// Where a session stands.
#[derive(Debug, Clone, Copy, PartialEq, Eq, Structural)]
pub enum SessionPhase {
    /// Waiting for the next request.
    Reading,
    /// A request was handed out; its response is being written.
    Responding,
    /// The session is over.
    Terminated(Termination),
}

/// What waiting for the next request came to.
#[derive(Debug)]
pub enum ReadEvent {
    /// A whole request arrived.
    Received(Request),
    /// The peer closed before a new frame began.
    Closed,
    /// The read failed, or the frame did not hold a request.
    Failed,
    /// The idle window passed without a request.
    TimedOut,
}

/// What writing a response came to.
#[derive(Debug, Clone, Copy, PartialEq, Eq, Structural)]
pub enum WriteEvent {
    /// The response was written and flushed.
    Flushed,
    /// The write failed.
    Failed,
    /// The write did not finish within the window.
    TimedOut,
}

/// The phase after a read came to `event`.
pub open spec fn read_transition(event: ReadEvent) -> SessionPhase {
    match event {
        ReadEvent::Received(_) => SessionPhase::Responding,
        ReadEvent::Closed => SessionPhase::Terminated(Termination::ClosedByPeer),
        ReadEvent::Failed => SessionPhase::Terminated(Termination::ProtocolError),
        ReadEvent::TimedOut => SessionPhase::Terminated(Termination::IdleTimeout),
    }
}

/// The phase after a write came to `event`.
pub open spec fn write_transition(event: WriteEvent) -> SessionPhase {
    match event {
        WriteEvent::Flushed => SessionPhase::Reading,
        _ => SessionPhase::Terminated(Termination::ProtocolError),
    }
}

/// One connection's session.
pub struct Session {
    phase: SessionPhase,
}

impl Session {
    pub closed spec fn phase_spec(&self) -> SessionPhase {
        self.phase
    }

    /// A session that waits for its first request.
    pub fn new() -> (r: Session)
        ensures
            r.phase_spec() == SessionPhase::Reading,
    {
        Session { phase: SessionPhase::Reading }
    }

    /// Where the session stands.
    pub fn phase(&self) -> (r: SessionPhase)
        ensures
            r == self.phase_spec(),
    {
        self.phase
    }

    /// Whether the session has not ended.
    pub fn is_active(&self) -> (r: bool)
        ensures
            r == !(self.phase_spec() is Terminated),
    {
        match self.phase {
            SessionPhase::Terminated(_) => false,
            _ => true,
        }
    }

    /// Takes in what waiting for the next request came to; hands out the
    /// request to serve, if one arrived.
    pub fn on_read(&mut self, event: ReadEvent) -> (r: Option<Request>)
        requires
            old(self).phase_spec() == SessionPhase::Reading,
        ensures
            final(self).phase_spec() == read_transition(event),
            event is Received ==> r == Some(event->Received_0),
            !(event is Received) ==> r is None,
    {
        match event {
            ReadEvent::Received(request) => {
                self.phase = SessionPhase::Responding;
                Some(request)
            },
            ReadEvent::Closed => {
                self.phase = SessionPhase::Terminated(Termination::ClosedByPeer);
                None
            },
            ReadEvent::Failed => {
                self.phase = SessionPhase::Terminated(Termination::ProtocolError);
                None
            },
            ReadEvent::TimedOut => {
                self.phase = SessionPhase::Terminated(Termination::IdleTimeout);
                None
            },
        }
    }

    /// Takes in what writing the response came to.
    pub fn on_write(&mut self, event: WriteEvent)
        requires
            old(self).phase_spec() == SessionPhase::Responding,
        ensures
            final(self).phase_spec() == write_transition(event),
    {
        match event {
            WriteEvent::Flushed => {
                self.phase = SessionPhase::Reading;
            },
            _ => {
                self.phase = SessionPhase::Terminated(Termination::ProtocolError);
            },
        }
    }
}

} // verus!
