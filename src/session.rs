//! One live-update session: the decisions of its snapshot pusher, forwarder,
//! liveness watch and inbound reader, driven by events from the connection.
use vstd::prelude::*;

verus! {

/// Milliseconds between two status pushes.
pub const PUSH_INTERVAL_MS: u64 = 1000;

/// Milliseconds between two liveness pings.
pub const HEARTBEAT_INTERVAL_MS: u64 = 5000;

/// Silence longer than this many milliseconds ends the session.
pub const CLIENT_TIMEOUT_MS: u64 = 10000;

/// The kind of a frame read from the peer.
#[derive(Debug, Clone, Copy, PartialEq, Eq, Structural)]
pub enum InboundFrame {
    Ping,
    Pong,
    Text,
    Binary,
    Close,
    /// A transport error or a frame the session cannot handle.
    Error,
}

#[derive(Debug, Clone, Copy, PartialEq, Eq, Structural)]
pub enum SessionEvent {
    /// The push timer fired.
    PushDue,
    /// The liveness timer fired at this time, in milliseconds.
    HeartbeatDue(u64),
    /// A frame arrived at this time, in milliseconds.
    Frame(InboundFrame, u64),
    /// The outbound queue is gone.
    QueueClosed,
    /// Writing to the connection failed.
    WriteFailed,
}

#[derive(Debug, Clone, Copy, PartialEq, Eq, Structural)]
pub enum SessionAction {
    /// Snapshot the shared state and queue it.
    PushSnapshot,
    SendPing,
    SendPong,
    Nothing,
    /// Stop every task of the session and close the connection.
    Stop,
}

/// The shared cancellation state of a session's tasks.
#[derive(Debug, Clone, Copy, PartialEq, Eq, Structural)]
pub struct Session {
    pub open: bool,
    pub last_heartbeat_ms: u64,
}

/// Whether an event ends an open session.
pub open spec fn ends_session(s: Session, e: SessionEvent) -> bool {
    match e {
        SessionEvent::PushDue => false,
        SessionEvent::HeartbeatDue(now) => now > s.last_heartbeat_ms && now - s.last_heartbeat_ms
            > CLIENT_TIMEOUT_MS,
        SessionEvent::Frame(f, _) => f == InboundFrame::Close || f == InboundFrame::Error,
        SessionEvent::QueueClosed => true,
        SessionEvent::WriteFailed => true,
    }
}

/// The next session state and the action for one event.
pub open spec fn step_spec(s: Session, e: SessionEvent) -> (Session, SessionAction) {
    if !s.open || ends_session(s, e) {
        (Session { open: false, ..s }, SessionAction::Stop)
    } else {
        match e {
            SessionEvent::PushDue => (s, SessionAction::PushSnapshot),
            SessionEvent::HeartbeatDue(_) => (s, SessionAction::SendPing),
            SessionEvent::Frame(f, now) => match f {
                InboundFrame::Ping => (
                    Session { last_heartbeat_ms: now, ..s },
                    SessionAction::SendPong,
                ),
                InboundFrame::Pong => (Session { last_heartbeat_ms: now, ..s }, SessionAction::Nothing),
                _ => (s, SessionAction::Nothing),
            },
            _ => (s, SessionAction::Stop),
        }
    }
}

/// The state after a sequence of events.
pub open spec fn run_spec(s: Session, es: Seq<SessionEvent>) -> Session
    decreases es.len(),
{
    if es.len() == 0 {
        s
    } else {
        step_spec(run_spec(s, es.drop_last()), es.last()).0
    }
}

impl Session {
    /// A fresh session, alive as of `now_ms`.
    pub fn new(now_ms: u64) -> (r: Self)
        ensures
            r.open,
            r.last_heartbeat_ms == now_ms,
    {
        Session { open: true, last_heartbeat_ms: now_ms }
    }

    pub fn is_open(&self) -> (r: bool)
        ensures
            r == self.open,
    {
        self.open
    }

    /// Applies one event and says what the session's tasks do next.
    pub fn step(&mut self, e: SessionEvent) -> (r: SessionAction)
        ensures
            (*final(self), r) == step_spec(*old(self), e),
    {
        let ends = match e {
            SessionEvent::PushDue => false,
            SessionEvent::HeartbeatDue(now) => now > self.last_heartbeat_ms && now
                - self.last_heartbeat_ms > CLIENT_TIMEOUT_MS,
            SessionEvent::Frame(f, _) => f == InboundFrame::Close || f == InboundFrame::Error,
            SessionEvent::QueueClosed => true,
            SessionEvent::WriteFailed => true,
        };
        if !self.open || ends {
            self.open = false;
            return SessionAction::Stop;
        }
        match e {
            SessionEvent::PushDue => SessionAction::PushSnapshot,
            SessionEvent::HeartbeatDue(_) => SessionAction::SendPing,
            SessionEvent::Frame(InboundFrame::Ping, now) => {
                self.last_heartbeat_ms = now;
                SessionAction::SendPong
            },
            SessionEvent::Frame(InboundFrame::Pong, now) => {
                self.last_heartbeat_ms = now;
                SessionAction::Nothing
            },
            SessionEvent::Frame(_, _) => SessionAction::Nothing,
            _ => SessionAction::Stop,
        }
    }
}

/// Any ending event (queue gone, write failure, liveness timeout, peer close
/// or error) closes the session and stops its tasks.
pub proof fn lemma_ending_event_stops(s: Session, e: SessionEvent)
    requires
        ends_session(s, e),
    ensures
        !step_spec(s, e).0.open,
        step_spec(s, e).1 == SessionAction::Stop,
{
}

/// Once closed, a session stays closed whatever happens next, and every
/// later event only tells its tasks to stop: no task runs past its session.
pub proof fn lemma_closed_session_stays_closed(s: Session, es: Seq<SessionEvent>)
    requires
        !s.open,
    ensures
        !run_spec(s, es).open,
        forall|i: int| 0 <= i < es.len() ==> step_spec(run_spec(s, es.subrange(0, i)), #[trigger] es[i]).1
            == SessionAction::Stop,
    decreases es.len(),
{
    if es.len() > 0 {
        let init = es.drop_last();
        lemma_closed_session_stays_closed(s, init);
        assert forall|i: int| 0 <= i < es.len() implies step_spec(run_spec(s, es.subrange(0, i)), #[trigger] es[i]).1
            == SessionAction::Stop by {
            if i < es.len() - 1 {
                assert(es.subrange(0, i) =~= init.subrange(0, i));
                assert(es[i] == init[i]);
            } else {
                assert(es.subrange(0, i) =~= init);
            }
        }
    }
}

} // verus!
