//! Endpoint side of the handshake: the session state and the answer to
//! `Hello`.

use crate::error::OaatError;
use crate::message::{EndpointCapabilities, HelloAck, Message};
use crate::session::{spec_can_transition, SessionState};
use crate::PROTOCOL_VERSION;
use vstd::prelude::*;

verus! {

pub struct EndpointSession {
    pub state: SessionState,
    pub endpoint_id: String,
    pub endpoint_name: String,
    pub controller_id: Option<String>,
    pub stream_id: Option<String>,
}

impl EndpointSession {
    pub fn new(endpoint_id: String, endpoint_name: String) -> (s: Self)
        ensures
            s.state == SessionState::Discovery,
            s.endpoint_id == endpoint_id,
            s.endpoint_name == endpoint_name,
            s.controller_id is None,
            s.stream_id is None,
    {
        Self {
            state: SessionState::Discovery,
            endpoint_id,
            endpoint_name,
            controller_id: None,
            stream_id: None,
        }
    }

    /// Follows an edge of the session state machine; a refused edge leaves
    /// the session as it was.
    pub fn transition(&mut self, next: SessionState) -> (r: Result<(), OaatError>)
        ensures
            final(self).endpoint_id == old(self).endpoint_id,
            final(self).endpoint_name == old(self).endpoint_name,
            final(self).controller_id == old(self).controller_id,
            final(self).stream_id == old(self).stream_id,
            spec_can_transition(old(self).state, next) ==> r is Ok && final(self).state == next,
            !spec_can_transition(old(self).state, next) ==> final(self).state == old(self).state
                && (r matches Err(OaatError::InvalidStateTransition { from, to }) && from == old(
                self).state && to == next),
    {
        match self.state.transition(next) {
            Ok(s) => {
                self.state = s;
                Ok(())
            },
            Err(e) => Err(e),
        }
    }

    /// Answers the controller's `Hello`: checks the protocol version, records
    /// the controller, moves Discovery → Handshake → Idle and builds the
    /// `HelloAck`.
    pub fn handle_hello(
        &mut self,
        msg: &Message,
        capabilities: EndpointCapabilities,
        audio_port: u16,
        clock_port: u16,
        buffer_ms: u32,
    ) -> (r: Result<Message, OaatError>)
        ensures
            final(self).endpoint_id == old(self).endpoint_id,
            final(self).endpoint_name == old(self).endpoint_name,
            final(self).stream_id == old(self).stream_id,
            match msg {
                Message::Hello(h) => if h.protocol_version != PROTOCOL_VERSION {
                    &&& r matches Err(OaatError::VersionMismatch { expected, got })
                    &&& expected == PROTOCOL_VERSION && got == h.protocol_version
                    &&& *final(self) == *old(self)
                } else if old(self).state != SessionState::Discovery {
                    &&& r matches Err(OaatError::InvalidStateTransition { from, to })
                    &&& from == old(self).state && to == SessionState::Handshake
                    &&& final(self).state == old(self).state
                    &&& final(self).controller_id == Some(h.controller_id)
                } else {
                    &&& final(self).state == SessionState::Idle
                    &&& final(self).controller_id == Some(h.controller_id)
                    &&& r matches Ok(Message::HelloAck(ack))
                    &&& ack.protocol_version == PROTOCOL_VERSION
                    &&& ack.endpoint_id == old(self).endpoint_id
                    &&& ack.endpoint_name == old(self).endpoint_name
                    &&& ack.capabilities == capabilities
                    &&& ack.audio_port == audio_port
                    &&& ack.clock_port == clock_port
                    &&& ack.buffer_size_ms == buffer_ms
                },
                _ => {
                    &&& r matches Err(OaatError::InvalidStateTransition { from, to })
                    &&& from == old(self).state && to == SessionState::Handshake
                    &&& *final(self) == *old(self)
                },
            },
    {
        match msg {
            Message::Hello(hello) => {
                if hello.protocol_version != PROTOCOL_VERSION {
                    return Err(
                        OaatError::VersionMismatch {
                            expected: PROTOCOL_VERSION,
                            got: hello.protocol_version,
                        },
                    );
                }
                self.controller_id = Some(hello.controller_id.clone());
                match self.transition(SessionState::Handshake) {
                    Ok(()) => {},
                    Err(e) => {
                        return Err(e);
                    },
                }
                let ack = Message::HelloAck(
                    HelloAck {
                        protocol_version: PROTOCOL_VERSION,
                        endpoint_id: self.endpoint_id.clone(),
                        endpoint_name: self.endpoint_name.clone(),
                        capabilities,
                        audio_port,
                        clock_port,
                        buffer_size_ms: buffer_ms,
                    },
                );
                match self.transition(SessionState::Idle) {
                    Ok(()) => {},
                    Err(e) => {
                        return Err(e);
                    },
                }
                Ok(ack)
            },
            _ => Err(
                OaatError::InvalidStateTransition { from: self.state, to: SessionState::Handshake },
            ),
        }
    }
}

} // verus!
