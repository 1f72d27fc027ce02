//! The decisions of the transports, apart from their I/O: announcement
//! records, the clock sync exchange, audio datagrams and the dispatch of
//! control messages.

use crate::capability::{spec_caps_string, Capabilities};
use crate::error::OaatError;
use crate::format::{AudioFormat, ChannelLayout};
use crate::message::{
    FormatAccept, FormatCounter, FormatPropose, FormatReject, Hello, HelloAck, Message, Metadata,
    NextTrackPrepare, NextTrackReady, NextTrackReformat, Play, Stop, TrackMetadata,
};
use crate::text::{decimal, decimal_string};
use crate::wire::{
    spec_decode_header, spec_decode_sync, spec_header_bytes, spec_sync_bytes, AudioPacketHeader,
    ClockSyncPacket, ClockSyncType, PacketFlags, AUDIO_HEADER_SIZE, CLOCK_SYNC_PACKET_SIZE,
};
use crate::{CTRL_SERVICE_TYPE, DEFAULT_CONTROL_PORT, PROTOCOL_VERSION, SERVICE_TYPE};
use vstd::prelude::*;

verus! {

pub open spec fn pairs_view(v: Seq<(String, String)>) -> Seq<(Seq<char>, Seq<char>)> {
    v.map_values(|p: (String, String)| (p.0@, p.1@))
}

// ------------------------------------------------------------ announcements

/// A controller's DNS-SD announcement.
#[derive(Debug, Clone)]
pub struct ControllerAnnouncement {
    pub controller_id: String,
    pub controller_name: String,
    pub port: u16,
    pub zone_count: u32,
}

impl ControllerAnnouncement {
    /// TXT records: protocol version, id, name and zone count.
    pub fn txt_records(&self) -> (r: Vec<(String, String)>)
        ensures
            pairs_view(r@) == seq![
                ("v"@, decimal(PROTOCOL_VERSION as nat)),
                ("id"@, self.controller_id@),
                ("name"@, self.controller_name@),
                ("zones"@, decimal(self.zone_count as nat)),
            ],
    {
        let mut r: Vec<(String, String)> = Vec::new();
        r.push(("v".to_owned(), decimal_string(PROTOCOL_VERSION as u64)));
        r.push(("id".to_owned(), self.controller_id.clone()));
        r.push(("name".to_owned(), self.controller_name.clone()));
        r.push(("zones".to_owned(), decimal_string(self.zone_count as u64)));
        assert(pairs_view(r@) =~= seq![
            ("v"@, decimal(PROTOCOL_VERSION as nat)),
            ("id"@, self.controller_id@),
            ("name"@, self.controller_name@),
            ("zones"@, decimal(self.zone_count as nat)),
        ]);
        r
    }

    pub fn service_type() -> (s: &'static str)
        ensures
            s@ == CTRL_SERVICE_TYPE@,
    {
        CTRL_SERVICE_TYPE
    }

    /// The service type controllers browse for: the endpoints'.
    pub fn browse_service_type() -> (s: &'static str)
        ensures
            s@ == SERVICE_TYPE@,
    {
        SERVICE_TYPE
    }
}

/// An endpoint's DNS-SD announcement.
#[derive(Debug, Clone)]
pub struct EndpointAnnouncement {
    pub instance_name: String,
    pub port: u16,
    pub endpoint_id: String,
    pub capabilities: Capabilities,
    pub channels_max: u8,
    pub volume_type: Option<String>,
    pub model: Option<String>,
    pub vendor: Option<String>,
    pub firmware: Option<String>,
}

pub open spec fn opt_record(key: Seq<char>, v: Option<String>) -> Seq<(Seq<char>, Seq<char>)> {
    match v {
        Some(s) => seq![(key, s@)],
        None => Seq::empty(),
    }
}

impl EndpointAnnouncement {
    pub fn service_type() -> (s: &'static str)
        ensures
            s@ == SERVICE_TYPE@,
    {
        SERVICE_TYPE
    }

    pub fn default_port() -> (p: u16)
        ensures
            p == DEFAULT_CONTROL_PORT,
    {
        DEFAULT_CONTROL_PORT
    }

    /// TXT records: version, id, name, capability string and channel count,
    /// then volume type, model, vendor and firmware when known.
    pub fn txt_records(&self) -> (r: Vec<(String, String)>)
        ensures
            pairs_view(r@) == seq![
                ("v"@, decimal(PROTOCOL_VERSION as nat)),
                ("id"@, self.endpoint_id@),
                ("name"@, self.instance_name@),
                ("caps"@, spec_caps_string(self.capabilities)),
                ("ch"@, decimal(self.channels_max as nat)),
            ] + opt_record("vol"@, self.volume_type) + opt_record("model"@, self.model)
                + opt_record("vendor"@, self.vendor) + opt_record("fw"@, self.firmware),
    {
        let mut r: Vec<(String, String)> = Vec::new();
        r.push(("v".to_owned(), decimal_string(PROTOCOL_VERSION as u64)));
        r.push(("id".to_owned(), self.endpoint_id.clone()));
        r.push(("name".to_owned(), self.instance_name.clone()));
        r.push(("caps".to_owned(), self.capabilities.to_string()));
        r.push(("ch".to_owned(), decimal_string(self.channels_max as u64)));
        let ghost base = pairs_view(r@);
        push_opt(&mut r, "vol", &self.volume_type);
        let ghost a = pairs_view(r@);
        push_opt(&mut r, "model", &self.model);
        let ghost b = pairs_view(r@);
        push_opt(&mut r, "vendor", &self.vendor);
        let ghost c = pairs_view(r@);
        push_opt(&mut r, "fw", &self.firmware);
        assert(pairs_view(r@) =~= seq![
            ("v"@, decimal(PROTOCOL_VERSION as nat)),
            ("id"@, self.endpoint_id@),
            ("name"@, self.instance_name@),
            ("caps"@, spec_caps_string(self.capabilities)),
            ("ch"@, decimal(self.channels_max as nat)),
        ] + opt_record("vol"@, self.volume_type) + opt_record("model"@, self.model) + opt_record(
            "vendor"@,
            self.vendor,
        ) + opt_record("fw"@, self.firmware));
        r
    }
}

fn push_opt(r: &mut Vec<(String, String)>, key: &str, v: &Option<String>)
    ensures
        pairs_view(final(r)@) == pairs_view(old(r)@) + opt_record(key@, *v),
{
    match v {
        Some(s) => {
            r.push((key.to_owned(), s.clone()));
        },
        None => {},
    }
    assert(pairs_view(r@) =~= pairs_view(old(r)@) + opt_record(key@, *v));
}

// ---------------------------------------------------------------- clock sync

/// The request a datagram of `n` bytes carries, if it is a well-formed
/// clock sync request; anything else is ignored.
pub fn clock_request_of(buf: &[u8; CLOCK_SYNC_PACKET_SIZE], n: usize) -> (r: Option<ClockSyncPacket>)
    ensures
        n < CLOCK_SYNC_PACKET_SIZE ==> r is None,
        n >= CLOCK_SYNC_PACKET_SIZE ==> match spec_decode_sync(buf@) {
            Ok(p) => if p.kind == ClockSyncType::Request {
                r == Some(p)
            } else {
                r is None
            },
            Err(_) => r is None,
        },
{
    if n < CLOCK_SYNC_PACKET_SIZE {
        return None;
    }
    match ClockSyncPacket::decode(buf) {
        Ok(p) => if p.kind == ClockSyncType::Request {
            Some(p)
        } else {
            None
        },
        Err(_) => None,
    }
}

/// The answer to a request: the request's sequence and `t1`, stamped with
/// the receive time `t2` and send time `t3`.
pub fn clock_response(req: &ClockSyncPacket, t2: u64, t3: u64) -> (b: [u8; CLOCK_SYNC_PACKET_SIZE])
    ensures
        b@ == spec_sync_bytes(
            ClockSyncPacket {
                version: 1,
                kind: ClockSyncType::Response,
                sequence: req.sequence,
                t1: req.t1,
                t2,
                t3,
            },
        ),
{
    let response = ClockSyncPacket {
        version: 1,
        kind: ClockSyncType::Response,
        sequence: req.sequence,
        t1: req.t1,
        t2,
        t3,
    };
    let mut b = [0u8; CLOCK_SYNC_PACKET_SIZE];
    response.encode(&mut b);
    b
}

/// The request a datagram of `n` bytes carries, if any.
pub open spec fn spec_clock_request(buf: Seq<u8>, n: usize) -> Option<ClockSyncPacket> {
    if n < CLOCK_SYNC_PACKET_SIZE {
        None
    } else {
        match spec_decode_sync(buf) {
            Ok(p) => if p.kind == ClockSyncType::Request {
                Some(p)
            } else {
                None
            },
            Err(_) => None,
        }
    }
}

/// The controller's clock sync responder: answers endpoint-initiated
/// requests so endpoints can learn their offset from the controller clock.
pub struct ClockResponder;

impl ClockResponder {
    /// The reply to a datagram of `n` bytes received at `t2` and answered at
    /// `t3`: a response to every well-formed request, nothing otherwise.
    pub fn answer(buf: &[u8; CLOCK_SYNC_PACKET_SIZE], n: usize, t2: u64, t3: u64) -> (r: Option<
        [u8; CLOCK_SYNC_PACKET_SIZE],
    >)
        ensures
            match spec_clock_request(buf@, n) {
                Some(p) => r matches Some(b) && b@ == spec_sync_bytes(
                    ClockSyncPacket {
                        version: 1,
                        kind: ClockSyncType::Response,
                        sequence: p.sequence,
                        t1: p.t1,
                        t2,
                        t3,
                    },
                ),
                None => r is None,
            },
    {
        match clock_request_of(buf, n) {
            Some(req) => Some(clock_response(&req, t2, t3)),
            None => None,
        }
    }
}

/// A request stamped with its send time `t1`.
pub fn clock_request(sequence: u16, t1: u64) -> (b: [u8; CLOCK_SYNC_PACKET_SIZE])
    ensures
        b@ == spec_sync_bytes(
            ClockSyncPacket {
                version: 1,
                kind: ClockSyncType::Request,
                sequence,
                t1,
                t2: 0,
                t3: 0,
            },
        ),
{
    let request = ClockSyncPacket {
        version: 1,
        kind: ClockSyncType::Request,
        sequence,
        t1,
        t2: 0,
        t3: 0,
    };
    let mut b = [0u8; CLOCK_SYNC_PACKET_SIZE];
    request.encode(&mut b);
    b
}

// ------------------------------------------------------------ audio datagrams

/// Sequence numbering of outgoing audio packets.
pub struct AudioSender {
    pub sequence: u16,
}

/// The header a sender stamps on a packet.
pub open spec fn spec_send_header(
    sequence: u16,
    stream_id: u32,
    format: AudioFormat,
    pts_ns: u64,
    sample_offset: u64,
    payload_len: nat,
    flags: PacketFlags,
) -> AudioPacketHeader {
    AudioPacketHeader {
        version: AudioPacketHeader::CURRENT_VERSION,
        flags,
        format,
        sequence,
        stream_id,
        pts_ns,
        sample_offset,
        payload_len: payload_len as u16,
    }
}

/// The packet a stream of `total` units (frames or bytes) cut into packets
/// of at most `max_units` sends from `offset`: how many units it carries
/// and its flags, which mark the first packet of the stream.
pub fn next_packet(offset: u64, total: u64, max_units: u64) -> (r: (u64, PacketFlags))
    requires
        offset < total,
        max_units > 0,
    ensures
        r.0 == (if max_units <= total - offset {
            max_units
        } else {
            (total - offset) as u64
        }),
        0 < r.0 <= max_units,
        offset + r.0 <= total,
        r.1@ == (if offset == 0 {
            0x01u8
        } else {
            0u8
        }),
{
    let rest = total - offset;
    let n = if max_units <= rest {
        max_units
    } else {
        rest
    };
    let flags = if offset == 0 {
        PacketFlags::first_packet()
    } else {
        PacketFlags::empty()
    };
    (n, flags)
}

impl AudioSender {
    pub fn new() -> (s: Self)
        ensures
            s.sequence == 0,
    {
        AudioSender { sequence: 0 }
    }

    /// Builds the next datagram: the header (current version, the next
    /// sequence number, the payload length truncated to 16 bits) followed by
    /// the payload; the sequence then advances modulo 2^16.
    pub fn next_datagram(
        &mut self,
        stream_id: u32,
        format: AudioFormat,
        pts_ns: u64,
        sample_offset: u64,
        payload: &[u8],
        flags: PacketFlags,
    ) -> (d: Vec<u8>)
        ensures
            d@ == spec_header_bytes(
                spec_send_header(
                    old(self).sequence,
                    stream_id,
                    format,
                    pts_ns,
                    sample_offset,
                    payload@.len(),
                    flags,
                ),
            ) + payload@,
            final(self).sequence == (old(self).sequence + 1) % 0x1_0000,
    {
        let header = AudioPacketHeader {
            version: AudioPacketHeader::CURRENT_VERSION,
            flags,
            format,
            sequence: self.sequence,
            stream_id,
            pts_ns,
            sample_offset,
            payload_len: payload.len() as u16,
        };
        self.sequence = self.sequence.wrapping_add(1);
        audio_datagram(&header, payload)
    }
}

/// A header followed by its payload.
pub fn audio_datagram(header: &AudioPacketHeader, payload: &[u8]) -> (d: Vec<u8>)
    ensures
        d@ == spec_header_bytes(*header) + payload@,
{
    let mut hdr = [0u8; AUDIO_HEADER_SIZE];
    header.encode(&mut hdr);
    let mut d: Vec<u8> = Vec::new();
    let mut i: usize = 0;
    while i < AUDIO_HEADER_SIZE
        invariant
            i <= AUDIO_HEADER_SIZE,
            hdr@ == spec_header_bytes(*header),
            d@ =~= hdr@.take(i as int),
        decreases AUDIO_HEADER_SIZE - i,
    {
        d.push(hdr[i]);
        i += 1;
    }
    let mut k: usize = 0;
    while k < payload.len()
        invariant
            k <= payload@.len(),
            hdr@ == spec_header_bytes(*header),
            d@ =~= hdr@ + payload@.take(k as int),
        decreases payload@.len() - k,
    {
        d.push(payload[k]);
        k += 1;
    }
    assert(payload@.take(k as int) =~= payload@);
    d
}

/// What the audio receiver delivers from a datagram of `n` bytes: nothing
/// for a runt, a bad header or an FEC parity packet; otherwise the header
/// and the bytes after it.
pub open spec fn spec_receive(d: Seq<u8>) -> Option<(AudioPacketHeader, Seq<u8>)> {
    if d.len() < AUDIO_HEADER_SIZE {
        None
    } else {
        match spec_decode_header(d.take(AUDIO_HEADER_SIZE as int)) {
            Ok(h) => if h.flags@ & 0x04u8 != 0 {
                None
            } else {
                Some((h, d.skip(AUDIO_HEADER_SIZE as int)))
            },
            Err(_) => None,
        }
    }
}

/// Parses a received datagram (`buf[..n]`); parity packets never reach the
/// audio path.
pub fn receive_audio(buf: &[u8], n: usize) -> (r: Option<(AudioPacketHeader, Vec<u8>)>)
    requires
        n <= buf@.len(),
    ensures
        match spec_receive(buf@.take(n as int)) {
            Some((h, p)) => r matches Some((rh, rp)) && rh == h && rp@ == p,
            None => r is None,
        },
{
    let ghost d = buf@.take(n as int);
    if n < AUDIO_HEADER_SIZE {
        return None;
    }
    let mut hdr = [0u8; AUDIO_HEADER_SIZE];
    let mut i: usize = 0;
    while i < AUDIO_HEADER_SIZE
        invariant
            i <= AUDIO_HEADER_SIZE <= n <= buf@.len(),
            forall|j: int| 0 <= j < i ==> hdr@[j] == buf@[j],
        decreases AUDIO_HEADER_SIZE - i,
    {
        hdr[i] = buf[i];
        i += 1;
    }
    assert(hdr@ =~= d.take(AUDIO_HEADER_SIZE as int));
    let header = match AudioPacketHeader::decode(&hdr) {
        Ok(h) => h,
        Err(_) => {
            return None;
        },
    };
    if header.flags.contains(PacketFlags::fec()) {
        return None;
    }
    let mut payload: Vec<u8> = Vec::new();
    let mut k: usize = AUDIO_HEADER_SIZE;
    while k < n
        invariant
            AUDIO_HEADER_SIZE <= k <= n <= buf@.len(),
            payload@ =~= buf@.subrange(AUDIO_HEADER_SIZE as int, k as int),
        decreases n - k,
    {
        payload.push(buf[k]);
        k += 1;
    }
    assert(payload@ =~= d.skip(AUDIO_HEADER_SIZE as int));
    proof {
        let f = header.flags@;
        assert((f & 0x04u8 == 0x04u8) == (f & 0x04u8 != 0)) by (bit_vector);
    }
    Some((header, payload))
}

/// Audio datagrams read back as sent: a data (non-parity) packet built from
/// an encodable header and a payload that fits the length field is
/// received as that header and payload.
pub proof fn lemma_datagram_roundtrip(h: AudioPacketHeader, payload: Seq<u8>)
    requires
        crate::wire::spec_header_encodable(h),
        h.flags@ & 0x04u8 == 0,
    ensures
        spec_receive(spec_header_bytes(h) + payload) == Some((h, payload)),
{
    crate::wire::lemma_header_roundtrip(h);
    let d = spec_header_bytes(h) + payload;
    assert(d.take(AUDIO_HEADER_SIZE as int) =~= spec_header_bytes(h));
    assert(d.skip(AUDIO_HEADER_SIZE as int) =~= payload);
}

// ---------------------------------------------------------- control dispatch

/// Playback commands delivered to the endpoint application.
#[derive(Debug, Clone)]
pub enum PlaybackCommand {
    Play(String),
    Pause(String),
    Stop(String),
    Seek(String, u64),
}

/// Volume commands delivered to the endpoint application.
#[derive(Debug, Clone)]
pub enum VolumeCommand {
    SetLevel(u8),
    Get,
    Mute(bool),
}

/// Events the endpoint transport delivers to the application.
#[derive(Debug)]
pub enum EndpointEvent {
    Connected { controller_id: String, controller_name: String },
    FormatProposed(FormatPropose),
    /// The endpoint accepted the proposal of this stream.
    FormatAccepted { stream_id: String },
    /// The endpoint rejected the proposal of this stream.
    FormatRejected { stream_id: String, reason: String },
    /// The next track continues in the current format.
    NextTrackReady { stream_id: String },
    /// The next track starts a new format.
    NextTrackReformat { stream_id: String, format: AudioFormat, sample_rate: u32 },
    AudioPacket { header: AudioPacketHeader, payload: Vec<u8> },
    Playback(PlaybackCommand),
    Metadata(Metadata),
    Volume(VolumeCommand),
    Disconnected,
    Error(OaatError),
}

/// What a control message read after the handshake becomes for the
/// endpoint application; messages the endpoint does not act on give nothing.
pub open spec fn spec_endpoint_event(msg: Message) -> Option<EndpointEvent> {
    match msg {
        Message::FormatPropose(fp) => Some(EndpointEvent::FormatProposed(fp)),
        Message::Play(p) => Some(EndpointEvent::Playback(PlaybackCommand::Play(p.stream_id))),
        Message::Pause(p) => Some(EndpointEvent::Playback(PlaybackCommand::Pause(p.stream_id))),
        Message::Stop(p) => Some(EndpointEvent::Playback(PlaybackCommand::Stop(p.stream_id))),
        Message::Seek(p) => Some(
            EndpointEvent::Playback(PlaybackCommand::Seek(p.stream_id, p.position_ms)),
        ),
        Message::Metadata(m) => Some(EndpointEvent::Metadata(m)),
        Message::VolumeSet(v) => Some(EndpointEvent::Volume(VolumeCommand::SetLevel(v.level))),
        Message::VolumeGet(_) => Some(EndpointEvent::Volume(VolumeCommand::Get)),
        Message::Mute(m) => Some(EndpointEvent::Volume(VolumeCommand::Mute(m.muted))),
        _ => None,
    }
}

pub fn endpoint_event_for(msg: Message) -> (e: Option<EndpointEvent>)
    ensures
        e == spec_endpoint_event(msg),
{
    match msg {
        Message::FormatPropose(fp) => Some(EndpointEvent::FormatProposed(fp)),
        Message::Play(p) => Some(EndpointEvent::Playback(PlaybackCommand::Play(p.stream_id))),
        Message::Pause(p) => Some(EndpointEvent::Playback(PlaybackCommand::Pause(p.stream_id))),
        Message::Stop(s) => Some(EndpointEvent::Playback(PlaybackCommand::Stop(s.stream_id))),
        Message::Seek(s) => Some(
            EndpointEvent::Playback(PlaybackCommand::Seek(s.stream_id, s.position_ms)),
        ),
        Message::Metadata(m) => Some(EndpointEvent::Metadata(m)),
        Message::VolumeSet(v) => Some(EndpointEvent::Volume(VolumeCommand::SetLevel(v.level))),
        Message::VolumeGet(_) => Some(EndpointEvent::Volume(VolumeCommand::Get)),
        Message::Mute(m) => Some(EndpointEvent::Volume(VolumeCommand::Mute(m.muted))),
        _ => None,
    }
}

/// A control-plane response received from the endpoint.
#[derive(Debug, Clone)]
pub enum EndpointResponse {
    FormatAccept(FormatAccept),
    FormatCounter(FormatCounter),
    FormatReject(FormatReject),
    NextTrackReady(NextTrackReady),
    NextTrackReformat(NextTrackReformat),
}

/// The responses the controller forwards to its caller; other messages
/// give nothing.
pub fn endpoint_response_for(msg: Message) -> (r: Option<EndpointResponse>)
    ensures
        match msg {
            Message::FormatAccept(x) => r matches Some(EndpointResponse::FormatAccept(y)) && y == x,
            Message::FormatCounter(x) => r matches Some(EndpointResponse::FormatCounter(y)) && y
                == x,
            Message::FormatReject(x) => r matches Some(EndpointResponse::FormatReject(y)) && y == x,
            Message::NextTrackReady(x) => r matches Some(EndpointResponse::NextTrackReady(y)) && y
                == x,
            Message::NextTrackReformat(x) => r matches Some(EndpointResponse::NextTrackReformat(y))
                && y == x,
            _ => r is None,
        },
{
    match msg {
        Message::FormatAccept(fa) => Some(EndpointResponse::FormatAccept(fa)),
        Message::FormatCounter(fc) => Some(EndpointResponse::FormatCounter(fc)),
        Message::FormatReject(fr) => Some(EndpointResponse::FormatReject(fr)),
        Message::NextTrackReady(n) => Some(EndpointResponse::NextTrackReady(n)),
        Message::NextTrackReformat(n) => Some(EndpointResponse::NextTrackReformat(n)),
        _ => None,
    }
}

// ---------------------------------------------------------- controller side

/// Controller identity and the clock port it announces.
#[derive(Debug, Clone)]
pub struct ControllerConfig {
    pub controller_id: String,
    pub controller_name: String,
    pub features: Vec<String>,
    pub clock_port: u16,
    /// Whether the controller asked for TLS on the control connection; the
    /// handshake itself does not depend on it.
    pub tls: bool,
}

/// The `Hello` a controller opens a session with.
pub fn hello_message(config: &ControllerConfig) -> (m: Message)
    ensures
        m matches Message::Hello(h) && h.protocol_version == PROTOCOL_VERSION && h.controller_id
            == config.controller_id && h.controller_name == config.controller_name && h.clock_port
            == config.clock_port && h.features@ == config.features@,
{
    Message::Hello(
        Hello {
            protocol_version: PROTOCOL_VERSION,
            controller_id: config.controller_id.clone(),
            controller_name: config.controller_name.clone(),
            clock_port: config.clock_port,
            features: clone_strings(&config.features),
        },
    )
}

pub(crate) fn clone_strings(v: &Vec<String>) -> (r: Vec<String>)
    ensures
        r@ == v@,
{
    let mut r: Vec<String> = Vec::new();
    let mut i: usize = 0;
    while i < v.len()
        invariant
            i <= v@.len(),
            r@ =~= v@.take(i as int),
        decreases v@.len() - i,
    {
        r.push(v[i].clone());
        i += 1;
    }
    assert(v@.take(i as int) =~= v@);
    r
}

/// Accepts the endpoint's `HelloAck` only at the same protocol version.
pub fn check_hello_ack(ack: &HelloAck) -> (r: Result<(), OaatError>)
    ensures
        ack.protocol_version == PROTOCOL_VERSION ==> r is Ok,
        ack.protocol_version != PROTOCOL_VERSION ==> (r matches Err(
            OaatError::VersionMismatch { expected, got },
        ) && expected == PROTOCOL_VERSION && got == ack.protocol_version),
{
    if ack.protocol_version != PROTOCOL_VERSION {
        Err(OaatError::VersionMismatch { expected: PROTOCOL_VERSION, got: ack.protocol_version })
    } else {
        Ok(())
    }
}

/// A format proposal (no DSD rate).
pub fn format_propose_message(
    stream_id: &str,
    format: AudioFormat,
    sample_rate: u32,
    channels: u8,
    channel_layout: ChannelLayout,
    bits_per_sample: u8,
) -> (m: Message)
    ensures
        m matches Message::FormatPropose(fp) && fp.stream_id@ == stream_id@ && fp.format == format
            && fp.sample_rate == sample_rate && fp.channels == channels && fp.channel_layout
            == channel_layout && fp.bits_per_sample == bits_per_sample && fp.dsd_rate is None,
{
    Message::FormatPropose(
        FormatPropose {
            stream_id: stream_id.to_owned(),
            format,
            sample_rate,
            channels,
            channel_layout,
            bits_per_sample,
            dsd_rate: None,
        },
    )
}

/// The next track's format, for gapless playback.
pub fn next_track_prepare_message(
    stream_id: &str,
    format: AudioFormat,
    sample_rate: u32,
    channels: u8,
    channel_layout: ChannelLayout,
    bits_per_sample: u8,
) -> (m: Message)
    ensures
        m matches Message::NextTrackPrepare(n) && n.stream_id@ == stream_id@ && n.format == format
            && n.sample_rate == sample_rate && n.channels == channels && n.channel_layout
            == channel_layout && n.bits_per_sample == bits_per_sample,
{
    Message::NextTrackPrepare(
        NextTrackPrepare {
            stream_id: stream_id.to_owned(),
            format,
            sample_rate,
            channels,
            channel_layout,
            bits_per_sample,
        },
    )
}

pub fn play_message(stream_id: &str) -> (m: Message)
    ensures
        m matches Message::Play(p) && p.stream_id@ == stream_id@,
{
    Message::Play(Play { stream_id: stream_id.to_owned() })
}

pub fn stop_message(stream_id: &str) -> (m: Message)
    ensures
        m matches Message::Stop(p) && p.stream_id@ == stream_id@,
{
    Message::Stop(Stop { stream_id: stream_id.to_owned() })
}

pub fn metadata_message(track: TrackMetadata) -> (m: Message)
    ensures
        m matches Message::Metadata(md) && md.track == track,
{
    Message::Metadata(Metadata { track })
}

} // verus!
