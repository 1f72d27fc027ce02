//! The plain-value side of the C interface for endpoint firmware: the C
//! enums with their ABI codes, and how an endpoint event becomes a C event
//! (its type, the data it carries, and the status it leaves behind).

use crate::format::{spec_wire_id, AudioFormat};
use crate::message::EndpointCapabilities;
use crate::protocol::{EndpointEvent, PlaybackCommand, VolumeCommand};
use crate::wire::AudioPacketHeader;
use vstd::prelude::*;

verus! {

/// Audio formats as C sees them; the code of each is its wire identifier.
#[derive(Debug, Clone, Copy, PartialEq, Eq, Structural)]
pub enum OaatAudioFormat {
    PcmS16le,
    PcmS24le,
    PcmS24le4,
    PcmS32le,
    PcmF32le,
    DsdU8,
    DsdU16le,
    DsdU32le,
    Flac,
    Opus,
    TrueHd,
    Eac3,
}

pub open spec fn spec_c_format_code(f: OaatAudioFormat) -> u8 {
    match f {
        OaatAudioFormat::PcmS16le => 0x01,
        OaatAudioFormat::PcmS24le => 0x02,
        OaatAudioFormat::PcmS24le4 => 0x03,
        OaatAudioFormat::PcmS32le => 0x04,
        OaatAudioFormat::PcmF32le => 0x05,
        OaatAudioFormat::DsdU8 => 0x10,
        OaatAudioFormat::DsdU16le => 0x11,
        OaatAudioFormat::DsdU32le => 0x12,
        OaatAudioFormat::Flac => 0x20,
        OaatAudioFormat::Opus => 0x21,
        OaatAudioFormat::TrueHd => 0x30,
        OaatAudioFormat::Eac3 => 0x31,
    }
}

pub open spec fn spec_c_format(f: AudioFormat) -> OaatAudioFormat {
    match f {
        AudioFormat::PcmS16le => OaatAudioFormat::PcmS16le,
        AudioFormat::PcmS24le => OaatAudioFormat::PcmS24le,
        AudioFormat::PcmS24le4 => OaatAudioFormat::PcmS24le4,
        AudioFormat::PcmS32le => OaatAudioFormat::PcmS32le,
        AudioFormat::PcmF32le => OaatAudioFormat::PcmF32le,
        AudioFormat::DsdU8 => OaatAudioFormat::DsdU8,
        AudioFormat::DsdU16le => OaatAudioFormat::DsdU16le,
        AudioFormat::DsdU32le => OaatAudioFormat::DsdU32le,
        AudioFormat::Flac => OaatAudioFormat::Flac,
        AudioFormat::Opus => OaatAudioFormat::Opus,
        AudioFormat::TrueHd => OaatAudioFormat::TrueHd,
        AudioFormat::Eac3 => OaatAudioFormat::Eac3,
    }
}

impl OaatAudioFormat {
    /// The value of the C enumerator.
    pub fn code(self) -> (c: u8)
        ensures
            c == spec_c_format_code(self),
    {
        match self {
            OaatAudioFormat::PcmS16le => 0x01,
            OaatAudioFormat::PcmS24le => 0x02,
            OaatAudioFormat::PcmS24le4 => 0x03,
            OaatAudioFormat::PcmS32le => 0x04,
            OaatAudioFormat::PcmF32le => 0x05,
            OaatAudioFormat::DsdU8 => 0x10,
            OaatAudioFormat::DsdU16le => 0x11,
            OaatAudioFormat::DsdU32le => 0x12,
            OaatAudioFormat::Flac => 0x20,
            OaatAudioFormat::Opus => 0x21,
            OaatAudioFormat::TrueHd => 0x30,
            OaatAudioFormat::Eac3 => 0x31,
        }
    }
}

impl From<AudioFormat> for OaatAudioFormat {
    fn from(f: AudioFormat) -> (r: Self) {
        match f {
            AudioFormat::PcmS16le => OaatAudioFormat::PcmS16le,
            AudioFormat::PcmS24le => OaatAudioFormat::PcmS24le,
            AudioFormat::PcmS24le4 => OaatAudioFormat::PcmS24le4,
            AudioFormat::PcmS32le => OaatAudioFormat::PcmS32le,
            AudioFormat::PcmF32le => OaatAudioFormat::PcmF32le,
            AudioFormat::DsdU8 => OaatAudioFormat::DsdU8,
            AudioFormat::DsdU16le => OaatAudioFormat::DsdU16le,
            AudioFormat::DsdU32le => OaatAudioFormat::DsdU32le,
            AudioFormat::Flac => OaatAudioFormat::Flac,
            AudioFormat::Opus => OaatAudioFormat::Opus,
            AudioFormat::TrueHd => OaatAudioFormat::TrueHd,
            AudioFormat::Eac3 => OaatAudioFormat::Eac3,
        }
    }
}

impl vstd::std_specs::convert::FromSpecImpl<AudioFormat> for OaatAudioFormat {
    open spec fn obeys_from_spec() -> bool {
        true
    }

    open spec fn from_spec(f: AudioFormat) -> Self {
        spec_c_format(f)
    }
}

/// The C code of a format is its wire identifier.
pub proof fn lemma_c_code_is_wire_id(f: AudioFormat)
    ensures
        spec_c_format_code(spec_c_format(f)) == spec_wire_id(f),
{
}

/// C event types. `NoEvent` is the value a poll returns when nothing came.
#[derive(Debug, Clone, Copy, PartialEq, Eq, Structural)]
pub enum OaatEventType {
    NoEvent,
    Connected,
    FormatProposed,
    Audio,
    Play,
    Pause,
    Stop,
    Metadata,
    Disconnected,
    VolumeSet,
    VolumeGet,
    VolumeMute,
    FormatAccepted,
    FormatRejected,
    Error,
}

pub open spec fn spec_event_code(t: OaatEventType) -> u32 {
    match t {
        OaatEventType::NoEvent => 0,
        OaatEventType::Connected => 1,
        OaatEventType::FormatProposed => 2,
        OaatEventType::Audio => 3,
        OaatEventType::Play => 4,
        OaatEventType::Pause => 5,
        OaatEventType::Stop => 6,
        OaatEventType::Metadata => 7,
        OaatEventType::Disconnected => 8,
        OaatEventType::VolumeSet => 9,
        OaatEventType::VolumeGet => 10,
        OaatEventType::VolumeMute => 11,
        OaatEventType::FormatAccepted => 12,
        OaatEventType::FormatRejected => 13,
        OaatEventType::Error => 14,
    }
}

impl OaatEventType {
    /// The value of the C enumerator.
    pub fn code(self) -> (c: u32)
        ensures
            c == spec_event_code(self),
    {
        match self {
            OaatEventType::NoEvent => 0,
            OaatEventType::Connected => 1,
            OaatEventType::FormatProposed => 2,
            OaatEventType::Audio => 3,
            OaatEventType::Play => 4,
            OaatEventType::Pause => 5,
            OaatEventType::Stop => 6,
            OaatEventType::Metadata => 7,
            OaatEventType::Disconnected => 8,
            OaatEventType::VolumeSet => 9,
            OaatEventType::VolumeGet => 10,
            OaatEventType::VolumeMute => 11,
            OaatEventType::FormatAccepted => 12,
            OaatEventType::FormatRejected => 13,
            OaatEventType::Error => 14,
        }
    }
}

/// Endpoint status as the C caller reads it.
#[derive(Debug, Clone, Copy, PartialEq, Eq, Structural)]
pub enum OaatStatus {
    Idle,
    Connected,
    Streaming,
    Paused,
    Error,
}

pub open spec fn spec_status_code(s: OaatStatus) -> u8 {
    match s {
        OaatStatus::Idle => 0,
        OaatStatus::Connected => 1,
        OaatStatus::Streaming => 2,
        OaatStatus::Paused => 3,
        OaatStatus::Error => 4,
    }
}

pub open spec fn spec_status_from_code(c: u8) -> OaatStatus {
    if c == 0 {
        OaatStatus::Idle
    } else if c == 1 {
        OaatStatus::Connected
    } else if c == 2 {
        OaatStatus::Streaming
    } else if c == 3 {
        OaatStatus::Paused
    } else {
        OaatStatus::Error
    }
}

impl OaatStatus {
    /// The value of the C enumerator (also how the status is stored).
    pub fn code(self) -> (c: u8)
        ensures
            c == spec_status_code(self),
    {
        match self {
            OaatStatus::Idle => 0,
            OaatStatus::Connected => 1,
            OaatStatus::Streaming => 2,
            OaatStatus::Paused => 3,
            OaatStatus::Error => 4,
        }
    }

    /// Reads a stored status back; any unknown value reads as `Error`.
    pub fn from_code(c: u8) -> (s: Self)
        ensures
            s == spec_status_from_code(c),
    {
        if c == 0 {
            OaatStatus::Idle
        } else if c == 1 {
            OaatStatus::Connected
        } else if c == 2 {
            OaatStatus::Streaming
        } else if c == 3 {
            OaatStatus::Paused
        } else {
            OaatStatus::Error
        }
    }
}

/// A stored status reads back as itself.
pub proof fn lemma_status_code_roundtrip(s: OaatStatus)
    ensures
        spec_status_from_code(spec_status_code(s)) == s,
{
}

/// Volume data of a C event.
#[derive(Debug, Clone, Copy, PartialEq, Eq, Structural)]
pub struct OaatVolumeData {
    pub level: u8,
    pub muted: bool,
}

/// Audio data of a C event (the C side receives a pointer to `data` and
/// its length).
#[derive(Debug, Clone)]
pub struct OaatAudioData {
    pub data: Vec<u8>,
    pub len: usize,
    pub format: OaatAudioFormat,
    pub sequence: u16,
    pub pts_ns: u64,
    pub sample_offset: u64,
}

/// The type of the C event an endpoint event becomes; the gapless answers
/// have no C event and surface as `NoEvent`.
pub open spec fn spec_event_type(e: EndpointEvent) -> OaatEventType {
    match e {
        EndpointEvent::FormatAccepted { .. } => OaatEventType::FormatAccepted,
        EndpointEvent::FormatRejected { .. } => OaatEventType::FormatRejected,
        EndpointEvent::NextTrackReady { .. } => OaatEventType::NoEvent,
        EndpointEvent::NextTrackReformat { .. } => OaatEventType::NoEvent,
        EndpointEvent::Connected { .. } => OaatEventType::Connected,
        EndpointEvent::FormatProposed(_) => OaatEventType::FormatProposed,
        EndpointEvent::AudioPacket { .. } => OaatEventType::Audio,
        EndpointEvent::Playback(cmd) => match cmd {
            PlaybackCommand::Play(_) => OaatEventType::Play,
            PlaybackCommand::Pause(_) => OaatEventType::Pause,
            PlaybackCommand::Stop(_) => OaatEventType::Stop,
            PlaybackCommand::Seek(_, _) => OaatEventType::Play,
        },
        EndpointEvent::Metadata(_) => OaatEventType::Metadata,
        EndpointEvent::Volume(cmd) => match cmd {
            VolumeCommand::SetLevel(_) => OaatEventType::VolumeSet,
            VolumeCommand::Get => OaatEventType::VolumeGet,
            VolumeCommand::Mute(_) => OaatEventType::VolumeMute,
        },
        EndpointEvent::Disconnected => OaatEventType::Disconnected,
        EndpointEvent::Error(_) => OaatEventType::Error,
    }
}

/// The status an endpoint event leaves behind, when it changes it.
pub open spec fn spec_status_after(e: EndpointEvent) -> Option<OaatStatus> {
    match e {
        EndpointEvent::FormatAccepted { .. } => Some(OaatStatus::Streaming),
        EndpointEvent::Connected { .. } => Some(OaatStatus::Connected),
        EndpointEvent::Playback(cmd) => match cmd {
            PlaybackCommand::Play(_) => Some(OaatStatus::Streaming),
            PlaybackCommand::Pause(_) => Some(OaatStatus::Paused),
            PlaybackCommand::Stop(_) => Some(OaatStatus::Connected),
            PlaybackCommand::Seek(_, _) => None,
        },
        EndpointEvent::Disconnected => Some(OaatStatus::Idle),
        EndpointEvent::Error(_) => Some(OaatStatus::Error),
        _ => None,
    }
}

pub fn event_type_of(e: &EndpointEvent) -> (t: OaatEventType)
    ensures
        t == spec_event_type(*e),
{
    match e {
        EndpointEvent::FormatAccepted { .. } => OaatEventType::FormatAccepted,
        EndpointEvent::FormatRejected { .. } => OaatEventType::FormatRejected,
        EndpointEvent::NextTrackReady { .. } => OaatEventType::NoEvent,
        EndpointEvent::NextTrackReformat { .. } => OaatEventType::NoEvent,
        EndpointEvent::Connected { .. } => OaatEventType::Connected,
        EndpointEvent::FormatProposed(_) => OaatEventType::FormatProposed,
        EndpointEvent::AudioPacket { .. } => OaatEventType::Audio,
        EndpointEvent::Playback(cmd) => match cmd {
            PlaybackCommand::Play(_) => OaatEventType::Play,
            PlaybackCommand::Pause(_) => OaatEventType::Pause,
            PlaybackCommand::Stop(_) => OaatEventType::Stop,
            PlaybackCommand::Seek(_, _) => OaatEventType::Play,
        },
        EndpointEvent::Metadata(_) => OaatEventType::Metadata,
        EndpointEvent::Volume(cmd) => match cmd {
            VolumeCommand::SetLevel(_) => OaatEventType::VolumeSet,
            VolumeCommand::Get => OaatEventType::VolumeGet,
            VolumeCommand::Mute(_) => OaatEventType::VolumeMute,
        },
        EndpointEvent::Disconnected => OaatEventType::Disconnected,
        EndpointEvent::Error(_) => OaatEventType::Error,
    }
}

pub fn status_after(e: &EndpointEvent) -> (s: Option<OaatStatus>)
    ensures
        s == spec_status_after(*e),
{
    match e {
        EndpointEvent::FormatAccepted { .. } => Some(OaatStatus::Streaming),
        EndpointEvent::Connected { .. } => Some(OaatStatus::Connected),
        EndpointEvent::Playback(cmd) => match cmd {
            PlaybackCommand::Play(_) => Some(OaatStatus::Streaming),
            PlaybackCommand::Pause(_) => Some(OaatStatus::Paused),
            PlaybackCommand::Stop(_) => Some(OaatStatus::Connected),
            PlaybackCommand::Seek(_, _) => None,
        },
        EndpointEvent::Disconnected => Some(OaatStatus::Idle),
        EndpointEvent::Error(_) => Some(OaatStatus::Error),
        _ => None,
    }
}

/// The data of an empty (no event) C event.
pub fn none_volume_data() -> (d: OaatVolumeData)
    ensures
        d.level == 0 && !d.muted,
{
    OaatVolumeData { level: 0, muted: false }
}

/// The volume data of a volume command: the level for `SetLevel`, the flag
/// for `Mute`, zeros otherwise.
pub fn volume_data_of(cmd: &VolumeCommand) -> (d: OaatVolumeData)
    ensures
        d == (match *cmd {
            VolumeCommand::SetLevel(l) => OaatVolumeData { level: l, muted: false },
            VolumeCommand::Get => OaatVolumeData { level: 0, muted: false },
            VolumeCommand::Mute(m) => OaatVolumeData { level: 0, muted: m },
        }),
{
    match cmd {
        VolumeCommand::SetLevel(l) => OaatVolumeData { level: *l, muted: false },
        VolumeCommand::Get => OaatVolumeData { level: 0, muted: false },
        VolumeCommand::Mute(m) => OaatVolumeData { level: 0, muted: *m },
    }
}

/// The audio data of a received packet.
pub fn audio_data_of(header: &AudioPacketHeader, payload: Vec<u8>) -> (d: OaatAudioData)
    ensures
        d.data@ == payload@,
        d.len == payload@.len(),
        d.format == spec_c_format(header.format),
        d.sequence == header.sequence,
        d.pts_ns == header.pts_ns,
        d.sample_offset == header.sample_offset,
{
    let len = payload.len();
    OaatAudioData {
        data: payload,
        len,
        format: OaatAudioFormat::from(header.format),
        sequence: header.sequence,
        pts_ns: header.pts_ns,
        sample_offset: header.sample_offset,
    }
}

/// The control, audio and clock ports of an endpoint created through the C
/// interface: zero asks the system for all three, otherwise the two after
/// the control port.
pub fn c_endpoint_ports(port: u16) -> (p: (u16, u16, u16))
    requires
        port <= 0xFFFD,
    ensures
        p.0 == port,
        port == 0 ==> p.1 == 0 && p.2 == 0,
        port != 0 ==> p.1 == port + 1 && p.2 == port + 2,
{
    if port == 0 {
        (0, 0, 0)
    } else {
        (port, port + 1, port + 2)
    }
}

/// What an endpoint created through the C interface announces: up to
/// 768 kHz / 32 bit PCM, DSD256, eight channels, gapless and seek.
pub fn c_endpoint_capabilities() -> (c: EndpointCapabilities)
    ensures
        c.pcm_max_rate == 768_000,
        c.pcm_max_bits == 32,
        c.dsd_max_rate == Some(256u16),
        c.channels_max == 8,
        c.formats@ == seq![
            AudioFormat::PcmS16le,
            AudioFormat::PcmS24le,
            AudioFormat::PcmS24le4,
            AudioFormat::PcmS32le,
            AudioFormat::PcmF32le,
            AudioFormat::DsdU8,
            AudioFormat::DsdU16le,
            AudioFormat::DsdU32le,
            AudioFormat::Flac,
        ],
        c.volume is None,
        c.gapless,
        c.seek,
{
    let formats = vec![
        AudioFormat::PcmS16le,
        AudioFormat::PcmS24le,
        AudioFormat::PcmS24le4,
        AudioFormat::PcmS32le,
        AudioFormat::PcmF32le,
        AudioFormat::DsdU8,
        AudioFormat::DsdU16le,
        AudioFormat::DsdU32le,
        AudioFormat::Flac,
    ];
    EndpointCapabilities {
        pcm_max_rate: 768_000,
        pcm_max_bits: 32,
        dsd_max_rate: Some(256),
        channels_max: 8,
        formats,
        volume: None,
        gapless: true,
        seek: true,
    }
}

} // verus!
