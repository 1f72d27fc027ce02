//! The session lifecycle shared by controller and endpoint.

use crate::error::OaatError;
use vstd::prelude::*;

verus! {

#[derive(Debug, Clone, Copy, PartialEq, Eq, Structural)]
pub enum SessionState {
    Discovery,
    Handshake,
    Idle,
    Negotiation,
    Streaming,
    Paused,
    Stopped,
    Disconnected,
}

/// The edges of the session state machine.
pub open spec fn spec_can_transition(from: SessionState, to: SessionState) -> bool {
    match (from, to) {
        (SessionState::Discovery, SessionState::Handshake) => true,
        (SessionState::Handshake, SessionState::Idle) => true,
        (SessionState::Handshake, SessionState::Disconnected) => true,
        (SessionState::Idle, SessionState::Negotiation) => true,
        (SessionState::Idle, SessionState::Disconnected) => true,
        (SessionState::Negotiation, SessionState::Streaming) => true,
        (SessionState::Negotiation, SessionState::Idle) => true,
        (SessionState::Negotiation, SessionState::Disconnected) => true,
        (SessionState::Streaming, SessionState::Paused) => true,
        (SessionState::Streaming, SessionState::Stopped) => true,
        (SessionState::Streaming, SessionState::Disconnected) => true,
        (SessionState::Paused, SessionState::Streaming) => true,
        (SessionState::Paused, SessionState::Stopped) => true,
        (SessionState::Paused, SessionState::Disconnected) => true,
        (SessionState::Stopped, SessionState::Negotiation) => true,
        (SessionState::Stopped, SessionState::Idle) => true,
        (SessionState::Stopped, SessionState::Disconnected) => true,
        (SessionState::Disconnected, SessionState::Discovery) => true,
        _ => false,
    }
}

pub open spec fn spec_state_name(s: SessionState) -> Seq<char> {
    match s {
        SessionState::Discovery => "Discovery"@,
        SessionState::Handshake => "Handshake"@,
        SessionState::Idle => "Idle"@,
        SessionState::Negotiation => "Negotiation"@,
        SessionState::Streaming => "Streaming"@,
        SessionState::Paused => "Paused"@,
        SessionState::Stopped => "Stopped"@,
        SessionState::Disconnected => "Disconnected"@,
    }
}

impl SessionState {
    pub fn can_transition_to(self, next: Self) -> (b: bool)
        ensures
            b == spec_can_transition(self, next),
    {
        match (self, next) {
            (SessionState::Discovery, SessionState::Handshake)
            | (SessionState::Handshake, SessionState::Idle)
            | (SessionState::Handshake, SessionState::Disconnected)
            | (SessionState::Idle, SessionState::Negotiation)
            | (SessionState::Idle, SessionState::Disconnected)
            | (SessionState::Negotiation, SessionState::Streaming)
            | (SessionState::Negotiation, SessionState::Idle)
            | (SessionState::Negotiation, SessionState::Disconnected)
            | (SessionState::Streaming, SessionState::Paused)
            | (SessionState::Streaming, SessionState::Stopped)
            | (SessionState::Streaming, SessionState::Disconnected)
            | (SessionState::Paused, SessionState::Streaming)
            | (SessionState::Paused, SessionState::Stopped)
            | (SessionState::Paused, SessionState::Disconnected)
            | (SessionState::Stopped, SessionState::Negotiation)
            | (SessionState::Stopped, SessionState::Idle)
            | (SessionState::Stopped, SessionState::Disconnected)
            | (SessionState::Disconnected, SessionState::Discovery) => true,
            _ => false,
        }
    }

    /// Moves to `next` when the state machine has that edge; otherwise reports
    /// the refused edge.
    pub fn transition(self, next: Self) -> (r: Result<Self, OaatError>)
        ensures
            spec_can_transition(self, next) ==> r == Ok::<SessionState, OaatError>(next),
            !spec_can_transition(self, next) ==> (r matches Err(OaatError::InvalidStateTransition {
                from,
                to,
            }) && from == self && to == next),
    {
        if self.can_transition_to(next) {
            Ok(next)
        } else {
            Err(OaatError::InvalidStateTransition { from: self, to: next })
        }
    }

    /// The state's display name.
    pub fn as_str(self) -> (s: &'static str)
        ensures
            s@ == spec_state_name(self),
    {
        match self {
            Self::Discovery => "Discovery",
            Self::Handshake => "Handshake",
            Self::Idle => "Idle",
            Self::Negotiation => "Negotiation",
            Self::Streaming => "Streaming",
            Self::Paused => "Paused",
            Self::Stopped => "Stopped",
            Self::Disconnected => "Disconnected",
        }
    }
}

/// No state is its own successor: every accepted transition changes state.
pub proof fn lemma_transitions_change_state(s: SessionState, n: SessionState)
    ensures
        spec_can_transition(s, n) ==> s != n,
{
}

/// From every state the session can be torn down: `Disconnected` is reachable
/// in at most two steps, and from `Disconnected` discovery starts over.
pub proof fn lemma_disconnect_always_reachable(s: SessionState)
    ensures
        spec_can_transition(s, SessionState::Disconnected) || s == SessionState::Disconnected
            || (s == SessionState::Discovery && spec_can_transition(s, SessionState::Handshake)
            && spec_can_transition(SessionState::Handshake, SessionState::Disconnected)),
        spec_can_transition(SessionState::Disconnected, SessionState::Discovery),
{
}

/// Streaming is entered only through negotiation or by resuming from pause.
pub proof fn lemma_streaming_entry(s: SessionState)
    ensures
        spec_can_transition(s, SessionState::Streaming) <==> (s == SessionState::Negotiation || s
            == SessionState::Paused),
{
}

/// A new stream is negotiated from a session at rest: negotiation starts
/// exactly from `Idle` and from `Stopped` (after a stop, the next stream
/// can be proposed without going back to idle).
pub proof fn lemma_negotiation_entry(s: SessionState)
    ensures
        spec_can_transition(s, SessionState::Negotiation) <==> (s == SessionState::Idle || s
            == SessionState::Stopped),
{
}

/// A stopped session stays alive: from `Stopped` the session can negotiate
/// a new stream, go idle or disconnect, and nothing else.
pub proof fn lemma_stopped_successors(n: SessionState)
    ensures
        spec_can_transition(SessionState::Stopped, n) <==> (n == SessionState::Negotiation || n
            == SessionState::Idle || n == SessionState::Disconnected),
{
}

} // verus!
