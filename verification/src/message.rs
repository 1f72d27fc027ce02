//! Control protocol messages (carried as length-prefixed JSON over TCP).

use crate::format::{AudioFormat, ChannelLayout};
use vstd::prelude::*;

verus! {

/// Every control message.
#[derive(Debug, Clone)]
pub enum Message {
    Hello(Hello),
    HelloAck(HelloAck),
    FormatPropose(FormatPropose),
    FormatAccept(FormatAccept),
    FormatCounter(FormatCounter),
    FormatReject(FormatReject),
    Play(Play),
    Pause(Pause),
    Stop(Stop),
    Seek(Seek),
    VolumeSet(VolumeSet),
    VolumeGet(VolumeGet),
    VolumeReport(VolumeReport),
    Mute(Mute),
    Metadata(Metadata),
    ZoneAssign(ZoneAssign),
    ZoneUpdate(ZoneUpdate),
    ZoneRelease(ZoneRelease),
    ZoneAck(ZoneAck),
    NextTrackPrepare(NextTrackPrepare),
    NextTrackReady(NextTrackReady),
    NextTrackReformat(NextTrackReformat),
    Error(ErrorMsg),
}

/// How the endpoint controls volume.
#[derive(Debug, Clone, Copy, PartialEq, Eq, Structural)]
pub enum VolumeType {
    Hw,
    Sw,
    Fixed,
    Unsupported,
}

/// Controller → endpoint: opens the session.
#[derive(Debug, Clone)]
pub struct Hello {
    pub protocol_version: u32,
    pub controller_id: String,
    pub controller_name: String,
    pub clock_port: u16,
    pub features: Vec<String>,
}

/// Endpoint → controller: answers `Hello` with what the endpoint offers.
#[derive(Debug, Clone)]
pub struct HelloAck {
    pub protocol_version: u32,
    pub endpoint_id: String,
    pub endpoint_name: String,
    pub capabilities: EndpointCapabilities,
    pub audio_port: u16,
    pub clock_port: u16,
    pub buffer_size_ms: u32,
}

/// What the endpoint can render.
#[derive(Debug, Clone)]
pub struct EndpointCapabilities {
    pub pcm_max_rate: u32,
    pub pcm_max_bits: u8,
    pub dsd_max_rate: Option<u16>,
    pub channels_max: u8,
    pub formats: Vec<AudioFormat>,
    pub volume: Option<VolumeCapability>,
    pub gapless: bool,
    pub seek: bool,
}

/// How the endpoint controls volume.
#[derive(Debug, Clone)]
pub struct VolumeCapability {
    pub vol_type: VolumeType,
    pub range: [u8; 2],
    pub step: u8,
}

/// Controller → endpoint: the format of the next stream.
#[derive(Debug, Clone)]
pub struct FormatPropose {
    pub stream_id: String,
    pub format: AudioFormat,
    pub sample_rate: u32,
    pub channels: u8,
    pub channel_layout: ChannelLayout,
    pub bits_per_sample: u8,
    pub dsd_rate: Option<u16>,
}

/// Endpoint → controller: ready to render the proposed format.
#[derive(Debug, Clone)]
pub struct FormatAccept {
    pub stream_id: String,
}

/// Endpoint → controller: an alternative format.
#[derive(Debug, Clone)]
pub struct FormatCounter {
    pub stream_id: String,
    pub format: AudioFormat,
    pub sample_rate: u32,
    pub channels: u8,
    pub channel_layout: ChannelLayout,
    pub bits_per_sample: u8,
    pub dsd_rate: Option<u16>,
}

/// Endpoint → controller: the stream cannot be played.
#[derive(Debug, Clone)]
pub struct FormatReject {
    pub stream_id: String,
    pub reason: String,
}

/// Start or resume playback.
#[derive(Debug, Clone)]
pub struct Play {
    pub stream_id: String,
}

/// Pause playback.
#[derive(Debug, Clone)]
pub struct Pause {
    pub stream_id: String,
}

/// Stop and flush.
#[derive(Debug, Clone)]
pub struct Stop {
    pub stream_id: String,
}

/// Seek to a position.
#[derive(Debug, Clone)]
pub struct Seek {
    pub stream_id: String,
    pub position_ms: u64,
}

/// Set the volume (0-100).
#[derive(Debug, Clone)]
pub struct VolumeSet {
    pub level: u8,
}

/// Ask for the volume.
#[derive(Debug, Clone)]
pub struct VolumeGet {}

/// Report the volume.
#[derive(Debug, Clone)]
pub struct VolumeReport {
    pub level: u8,
    pub muted: bool,
}

/// Mute or unmute.
#[derive(Debug, Clone)]
pub struct Mute {
    pub muted: bool,
}

/// Now-playing information.
#[derive(Debug, Clone)]
pub struct Metadata {
    pub track: TrackMetadata,
}

/// Track details.
#[derive(Debug, Clone)]
pub struct TrackMetadata {
    pub title: String,
    pub artist: String,
    pub album: String,
    pub duration_ms: u64,
    pub artwork_url: Option<String>,
    pub format: Option<String>,
}

/// Assign an endpoint to a zone.
#[derive(Debug, Clone)]
pub struct ZoneAssign {
    pub zone_id: String,
    pub endpoint_id: String,
}

/// Zone membership changed.
#[derive(Debug, Clone)]
pub struct ZoneUpdate {
    pub zone_id: String,
    pub endpoint_ids: Vec<String>,
}

/// Remove an endpoint from a zone.
#[derive(Debug, Clone)]
pub struct ZoneRelease {
    pub zone_id: String,
    pub endpoint_id: String,
}

/// Endpoint acknowledges a zone assignment.
#[derive(Debug, Clone)]
pub struct ZoneAck {
    pub zone_id: String,
    pub endpoint_id: String,
    pub accepted: bool,
    pub reason: Option<String>,
}

/// Gapless: the next track's format.
#[derive(Debug, Clone)]
pub struct NextTrackPrepare {
    pub stream_id: String,
    pub format: AudioFormat,
    pub sample_rate: u32,
    pub channels: u8,
    pub channel_layout: ChannelLayout,
    pub bits_per_sample: u8,
}

/// Gapless: same format, seamless continuation.
#[derive(Debug, Clone)]
pub struct NextTrackReady {
    pub stream_id: String,
}

/// Gapless: the output must be reconfigured.
#[derive(Debug, Clone)]
pub struct NextTrackReformat {
    pub stream_id: String,
    pub format: AudioFormat,
    pub sample_rate: u32,
}

/// A protocol error report.
#[derive(Debug, Clone)]
pub struct ErrorMsg {
    pub code: u32,
    pub message: String,
}

} // verus!
