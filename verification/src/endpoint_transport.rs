//! The decisions of an endpoint's control connection: wait for the
//! controller's `Hello`, answer it with `HelloAck` (or end the session on a
//! version mismatch), then turn each control message into an event for the
//! application, answering stream proposals and next-track preparations as
//! the `negotiation` module decides. Reading and writing the socket is done
//! by the caller, which hands every decoded message to
//! [`EndpointTransport::on_message`].

use crate::error::OaatError;
use crate::message::{EndpointCapabilities, HelloAck, Message};
use crate::negotiation::{
    answer_next_track, answer_proposal, answers_next_track, answers_proposal, shape_of_next,
    shape_of_proposal, spec_verdict, FormatLimits, StreamShape, Verdict,
};
use crate::protocol::{endpoint_event_for, spec_endpoint_event, EndpointEvent};
use crate::PROTOCOL_VERSION;
use vstd::prelude::*;

verus! {

/// What to do after one control message: events for the application, in
/// order, and/or a message to send back.
pub struct TransportStep {
    pub events: Vec<EndpointEvent>,
    pub reply: Option<Message>,
}

/// The events of a message the endpoint only passes on.
pub open spec fn passed_on(msg: Message) -> Seq<EndpointEvent> {
    match spec_endpoint_event(msg) {
        Some(e) => seq![e],
        None => Seq::empty(),
    }
}

/// The state of one controller connection on the endpoint side.
pub struct EndpointTransport {
    pub endpoint_id: String,
    pub endpoint_name: String,
    /// What is offered in `HelloAck`; handed over with it.
    pub capabilities: Option<EndpointCapabilities>,
    pub audio_port: u16,
    pub clock_port: u16,
    pub buffer_size_ms: u32,
    /// Whether the handshake is done.
    pub established: bool,
    /// What proposals are judged against.
    pub limits: FormatLimits,
    /// The shape of the stream last accepted or prepared, if any.
    pub current: Option<StreamShape>,
}

impl EndpointTransport {
    pub fn new(
        endpoint_id: String,
        endpoint_name: String,
        capabilities: EndpointCapabilities,
        audio_port: u16,
        clock_port: u16,
        buffer_size_ms: u32,
    ) -> (t: Self)
        ensures
            t.endpoint_id == endpoint_id,
            t.endpoint_name == endpoint_name,
            t.capabilities == Some(capabilities),
            t.audio_port == audio_port,
            t.clock_port == clock_port,
            t.buffer_size_ms == buffer_size_ms,
            !t.established,
            t.limits.pcm_max_rate == capabilities.pcm_max_rate,
            t.limits.pcm_max_bits == capabilities.pcm_max_bits,
            t.limits.dsd_max_rate == capabilities.dsd_max_rate,
            t.limits.channels_max == capabilities.channels_max,
            t.limits.formats@ == capabilities.formats@,
            t.current is None,
    {
        let limits = FormatLimits::of(&capabilities);
        EndpointTransport {
            endpoint_id,
            endpoint_name,
            capabilities: Some(capabilities),
            audio_port,
            clock_port,
            buffer_size_ms,
            established: false,
            limits,
            current: None,
        }
    }

    /// One decoded control message. Before the handshake only `Hello`
    /// counts (anything else is skipped): with another protocol version the
    /// session ends with `VersionMismatch`; otherwise the application hears
    /// `Connected` and the controller gets `HelloAck`. After it, a
    /// `FormatPropose` is answered as `answers_proposal` states (an accepted
    /// shape becomes the current one), a `NextTrackPrepare` as
    /// `answers_next_track` states (its shape becomes the current one), and
    /// other messages become events as `endpoint_event_for` says, with
    /// nothing sent back.
    pub fn on_message(&mut self, msg: Message) -> (r: Result<TransportStep, OaatError>)
        requires
            !old(self).established ==> old(self).capabilities is Some,
        ensures
            final(self).endpoint_id == old(self).endpoint_id,
            final(self).endpoint_name == old(self).endpoint_name,
            final(self).audio_port == old(self).audio_port,
            final(self).clock_port == old(self).clock_port,
            final(self).buffer_size_ms == old(self).buffer_size_ms,
            final(self).limits == old(self).limits,
            !final(self).established ==> final(self).capabilities is Some,
            old(self).established ==> final(self).established && r is Ok,
            old(self).established ==> match msg {
                Message::FormatPropose(fp) => {
                    &&& r matches Ok(step)
                    &&& answers_proposal(old(self).limits, fp, step.events@, step.reply)
                    &&& final(self).current == (if spec_verdict(old(self).limits, fp) is Accept {
                        Some(shape_of_proposal(fp))
                    } else {
                        old(self).current
                    })
                },
                Message::NextTrackPrepare(n) => {
                    &&& r matches Ok(step)
                    &&& answers_next_track(old(self).current, n, step.events@, step.reply)
                    &&& final(self).current == Some(shape_of_next(n))
                },
                _ => {
                    &&& r matches Ok(step)
                    &&& step.reply is None
                    &&& step.events@ == passed_on(msg)
                    &&& final(self).current == old(self).current
                },
            },
            !old(self).established ==> final(self).current == old(self).current,
            !old(self).established ==> match msg {
                Message::Hello(h) => if h.protocol_version != PROTOCOL_VERSION {
                    &&& r matches Err(OaatError::VersionMismatch { expected, got })
                    &&& expected == PROTOCOL_VERSION && got == h.protocol_version
                    &&& !final(self).established
                } else {
                    &&& final(self).established
                    &&& r matches Ok(step)
                    &&& step.events@.len() == 1
                    &&& step.events@[0] matches EndpointEvent::Connected { controller_id, controller_name }
                    &&& controller_id == h.controller_id && controller_name == h.controller_name
                    &&& step.reply matches Some(Message::HelloAck(ack))
                    &&& ack.protocol_version == PROTOCOL_VERSION
                    &&& ack.endpoint_id == old(self).endpoint_id
                    &&& ack.endpoint_name == old(self).endpoint_name
                    &&& Some(ack.capabilities) == old(self).capabilities
                    &&& ack.audio_port == old(self).audio_port
                    &&& ack.clock_port == old(self).clock_port
                    &&& ack.buffer_size_ms == old(self).buffer_size_ms
                },
                _ => {
                    &&& !final(self).established
                    &&& final(self).capabilities == old(self).capabilities
                    &&& r matches Ok(step) && step.events@.len() == 0 && step.reply is None
                },
            },
    {
        if self.established {
            match msg {
                Message::FormatPropose(fp) => {
                    let shape = StreamShape {
                        format: fp.format,
                        sample_rate: fp.sample_rate,
                        channels: fp.channels,
                        channel_layout: fp.channel_layout,
                        bits_per_sample: fp.bits_per_sample,
                    };
                    let (v, events, reply) = answer_proposal(&self.limits, fp);
                    if let Verdict::Accept = v {
                        self.current = Some(shape);
                    }
                    return Ok(TransportStep { events, reply: Some(reply) });
                },
                Message::NextTrackPrepare(n) => {
                    let shape = StreamShape {
                        format: n.format,
                        sample_rate: n.sample_rate,
                        channels: n.channels,
                        channel_layout: n.channel_layout,
                        bits_per_sample: n.bits_per_sample,
                    };
                    let (events, reply) = answer_next_track(self.current, n);
                    self.current = Some(shape);
                    return Ok(TransportStep { events, reply: Some(reply) });
                },
                _ => {
                    let ghost m = msg;
                    let mut events: Vec<EndpointEvent> = Vec::new();
                    match endpoint_event_for(msg) {
                        Some(e) => events.push(e),
                        None => {},
                    }
                    assert(events@ =~= passed_on(m));
                    return Ok(TransportStep { events, reply: None });
                },
            }
        }
        match msg {
            Message::Hello(h) => {
                if h.protocol_version != PROTOCOL_VERSION {
                    return Err(
                        OaatError::VersionMismatch {
                            expected: PROTOCOL_VERSION,
                            got: h.protocol_version,
                        },
                    );
                }
                let capabilities = match self.capabilities.take() {
                    Some(c) => c,
                    None => {
                        proof {
                            assert(false);
                        }
                        return Err(
                            OaatError::VersionMismatch {
                                expected: PROTOCOL_VERSION,
                                got: h.protocol_version,
                            },
                        );
                    },
                };
                self.established = true;
                let ack = HelloAck {
                    protocol_version: PROTOCOL_VERSION,
                    endpoint_id: self.endpoint_id.clone(),
                    endpoint_name: self.endpoint_name.clone(),
                    capabilities,
                    audio_port: self.audio_port,
                    clock_port: self.clock_port,
                    buffer_size_ms: self.buffer_size_ms,
                };
                let mut events: Vec<EndpointEvent> = Vec::new();
                events.push(
                    EndpointEvent::Connected {
                        controller_id: h.controller_id,
                        controller_name: h.controller_name,
                    },
                );
                Ok(TransportStep { events, reply: Some(Message::HelloAck(ack)) })
            },
            _ => Ok(TransportStep { events: Vec::new(), reply: None }),
        }
    }

    /// The event when the controller closes the connection.
    pub fn on_closed(&self) -> (e: EndpointEvent)
        ensures
            e is Disconnected,
    {
        EndpointEvent::Disconnected
    }
}

} // verus!
