//! Per-subscriber session decisions: the full-content seed sent before any
//! bus event, the answer to each inbound transport frame, the handling of
//! each receive outcome from the bus, and the concurrent-session ceiling.
//!
//! The transport itself (accepting, sending, awaiting) stays outside the
//! library; these functions decide, the surrounding loop performs.

use vstd::prelude::*;
use crate::codec::FileChange;
use crate::codec::spec_is_full_for;
use crate::bus::RecvOutcome;
use crate::bus::spec_recv;
use crate::bus::spec_lagged;

verus! {

/// Concurrent-session ceiling: connections beyond it are refused outright
/// at accept time, not queued.
pub const MAX_SESSIONS: usize = 100;

/// One frame arriving from a subscriber's transport.
pub enum InboundFrame {
    /// A text payload; subscribers are read-only mirrors, so it carries no
    /// meaning for the session.
    Text(String),
    /// A binary payload; ignored likewise.
    Binary(Vec<u8>),
    /// A keepalive probe that must be answered.
    Ping(Vec<u8>),
    /// The answer to a probe of ours.
    Pong(Vec<u8>),
    /// The peer ends the session gracefully.
    Close,
}

/// What the transport hands the session next.
pub enum InboundEvent {
    /// A frame arrived.
    Frame(InboundFrame),
    /// The transport failed.
    TransportError,
    /// The stream ended without a close frame.
    StreamEnd,
}

/// A frame the session puts on the wire.
pub enum OutboundFrame {
    /// One change event, to be serialized as a single text frame.
    Event(FileChange),
    /// The answer to a keepalive probe, echoing its payload.
    Pong(Vec<u8>),
    /// A close frame: the session is over.
    Close,
}

/// What a session decides after consuming one input: what to send, and
/// whether the session goes on.
pub struct SessionStep {
    /// The frame to send, if any.
    pub reply: Option<OutboundFrame>,
    /// Whether the session continues after this step.
    pub continues: bool,
}

/// The decision for one inbound transport event: a ping is answered with a
/// pong echoing its payload; a close is answered with a close and ends the
/// session; other frames are ignored; a transport error or the bare end of
/// the stream ends the session silently.
pub open spec fn spec_incoming_decision(event: InboundEvent) -> SessionStep {
    match event {
        InboundEvent::Frame(InboundFrame::Close) => SessionStep {
            reply: Some(OutboundFrame::Close),
            continues: false,
        },
        InboundEvent::Frame(InboundFrame::Ping(payload)) => SessionStep {
            reply: Some(OutboundFrame::Pong(payload)),
            continues: true,
        },
        InboundEvent::Frame(InboundFrame::Pong(_)) => SessionStep { reply: None, continues: true },
        InboundEvent::Frame(InboundFrame::Text(_)) => SessionStep { reply: None, continues: true },
        InboundEvent::Frame(InboundFrame::Binary(_)) => SessionStep {
            reply: None,
            continues: true,
        },
        InboundEvent::TransportError => SessionStep { reply: None, continues: false },
        InboundEvent::StreamEnd => SessionStep { reply: None, continues: false },
    }
}

/// Decides the session's answer to one inbound transport event, per
/// `spec_incoming_decision`.
pub fn handle_incoming_message(event: InboundEvent) -> (step: SessionStep)
    ensures
        step == spec_incoming_decision(event),
{
    match event {
        InboundEvent::Frame(InboundFrame::Close) => SessionStep {
            reply: Some(OutboundFrame::Close),
            continues: false,
        },
        InboundEvent::Frame(InboundFrame::Ping(payload)) => SessionStep {
            reply: Some(OutboundFrame::Pong(payload)),
            continues: true,
        },
        InboundEvent::Frame(InboundFrame::Pong(_)) => SessionStep { reply: None, continues: true },
        InboundEvent::Frame(InboundFrame::Text(_)) => SessionStep { reply: None, continues: true },
        InboundEvent::Frame(InboundFrame::Binary(_)) => SessionStep {
            reply: None,
            continues: true,
        },
        InboundEvent::TransportError => SessionStep { reply: None, continues: false },
        InboundEvent::StreamEnd => SessionStep { reply: None, continues: false },
    }
}

/// The decision for one receive outcome from the bus: a received event is
/// serialized onto the wire and the session goes on; nothing pending keeps
/// the session waiting; a lagged subscriber — or a closed bus — is sent a
/// close frame and the session ends, so a fallen-behind mirror reconnects
/// and reseeds rather than consuming gapped data.
pub open spec fn spec_broadcast_decision(outcome: RecvOutcome) -> SessionStep {
    match outcome {
        RecvOutcome::Event(event) => SessionStep {
            reply: Some(OutboundFrame::Event(event)),
            continues: true,
        },
        RecvOutcome::Empty => SessionStep { reply: None, continues: true },
        RecvOutcome::Lagged => SessionStep {
            reply: Some(OutboundFrame::Close),
            continues: false,
        },
        RecvOutcome::Closed => SessionStep {
            reply: Some(OutboundFrame::Close),
            continues: false,
        },
    }
}

/// Decides the session's reaction to one receive outcome from the bus, per
/// `spec_broadcast_decision`.
pub fn handle_broadcast(outcome: RecvOutcome) -> (step: SessionStep)
    ensures
        step == spec_broadcast_decision(outcome),
{
    match outcome {
        RecvOutcome::Event(event) => SessionStep {
            reply: Some(OutboundFrame::Event(event)),
            continues: true,
        },
        RecvOutcome::Empty => SessionStep { reply: None, continues: true },
        RecvOutcome::Lagged => SessionStep {
            reply: Some(OutboundFrame::Close),
            continues: false,
        },
        RecvOutcome::Closed => SessionStep {
            reply: Some(OutboundFrame::Close),
            continues: false,
        },
    }
}

/// Backlog law: a subscriber that trails more than the backlog bound behind
/// the head of the log is disconnected — its receive yields `Lagged`, never
/// a stale or gapped event, and the session's decision for `Lagged` is a
/// close frame and the end of the session.
pub proof fn lemma_lagged_subscriber_disconnected(
    log: Seq<FileChange>,
    next: int,
    capacity: int,
)
    requires
        spec_lagged(log.len() as int, next, capacity),
    ensures
        spec_recv(log, next, capacity).0 is Lagged,
        spec_broadcast_decision(spec_recv(log, next, capacity).0).reply == Some(
            OutboundFrame::Close,
        ),
        !spec_broadcast_decision(spec_recv(log, next, capacity).0).continues,
{
}

/// The full-content seed sent to a subscriber at the start of its session,
/// built from the watched target's current content — before any bus event,
/// independent of bus history.
pub fn initial_event(file_id: &str, content: String) -> (seed: FileChange)
    ensures
        spec_is_full_for(seed, file_id@, content@),
{
    FileChange::FullContent { file_id: file_id.to_owned(), content }
}

/// How many sessions are live, held to the concurrent-session ceiling.
pub struct SessionCounter {
    active: usize,
}

impl View for SessionCounter {
    type V = int;

    closed spec fn view(&self) -> int {
        self.active as int
    }
}

impl SessionCounter {
    /// No session yet.
    pub fn new() -> (counter: Self)
        ensures
            counter@ == 0,
    {
        SessionCounter { active: 0 }
    }

    /// Admits one incoming connection unless the ceiling is reached, in
    /// which case it is refused outright.
    pub fn try_accept(&mut self) -> (admitted: bool)
        ensures
            admitted == (old(self)@ < MAX_SESSIONS),
            admitted ==> final(self)@ == old(self)@ + 1,
            !admitted ==> final(self)@ == old(self)@,
    {
        if self.active < MAX_SESSIONS {
            self.active = self.active + 1;
            true
        } else {
            false
        }
    }

    /// Records the end of one admitted session.
    pub fn session_closed(&mut self)
        requires
            old(self)@ > 0,
        ensures
            final(self)@ == old(self)@ - 1,
    {
        self.active = self.active - 1;
    }
}

} // verus!
