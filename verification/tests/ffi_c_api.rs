use oaat::c_api::{
    audio_data_of, c_endpoint_capabilities, c_endpoint_ports, event_type_of, none_volume_data,
    status_after, volume_data_of, OaatAudioFormat, OaatEventType, OaatStatus, OaatVolumeData,
};
use oaat::error::OaatError;
use oaat::format::AudioFormat;
use oaat::protocol::{EndpointEvent, PlaybackCommand, VolumeCommand};
use oaat::wire::{AudioPacketHeader, PacketFlags};

#[test]
fn c_format_codes_are_wire_ids() {
    let all = [
        AudioFormat::PcmS16le,
        AudioFormat::PcmS24le,
        AudioFormat::PcmS24le4,
        AudioFormat::PcmS32le,
        AudioFormat::PcmF32le,
        AudioFormat::DsdU8,
        AudioFormat::DsdU16le,
        AudioFormat::DsdU32le,
        AudioFormat::Flac,
        AudioFormat::Opus,
        AudioFormat::TrueHd,
        AudioFormat::Eac3,
    ];
    for f in all {
        assert_eq!(OaatAudioFormat::from(f).code(), f.wire_id());
    }
    assert_eq!(OaatAudioFormat::from(AudioFormat::Eac3), OaatAudioFormat::Eac3);
    assert_eq!(OaatAudioFormat::DsdU8.code(), 0x10);
}

#[test]
fn event_and_status_codes() {
    assert_eq!(OaatEventType::NoEvent.code(), 0);
    assert_eq!(OaatEventType::VolumeMute.code(), 11);
    assert_eq!(OaatEventType::Error.code(), 14);
    for s in [OaatStatus::Idle, OaatStatus::Connected, OaatStatus::Streaming, OaatStatus::Paused, OaatStatus::Error] {
        assert_eq!(OaatStatus::from_code(s.code()), s);
    }
    assert_eq!(OaatStatus::from_code(200), OaatStatus::Error);
}

#[test]
fn events_map_to_c_types_and_statuses() {
    let connected = EndpointEvent::Connected { controller_id: "c".into(), controller_name: "n".into() };
    assert_eq!(event_type_of(&connected), OaatEventType::Connected);
    assert_eq!(status_after(&connected), Some(OaatStatus::Connected));
    let seek = EndpointEvent::Playback(PlaybackCommand::Seek("s".into(), 10));
    assert_eq!(event_type_of(&seek), OaatEventType::Play);
    assert_eq!(status_after(&seek), None);
    let pause = EndpointEvent::Playback(PlaybackCommand::Pause("s".into()));
    assert_eq!(event_type_of(&pause), OaatEventType::Pause);
    assert_eq!(status_after(&pause), Some(OaatStatus::Paused));
    let stop = EndpointEvent::Playback(PlaybackCommand::Stop("s".into()));
    assert_eq!(status_after(&stop), Some(OaatStatus::Connected));
    assert_eq!(event_type_of(&EndpointEvent::Disconnected), OaatEventType::Disconnected);
    assert_eq!(status_after(&EndpointEvent::Disconnected), Some(OaatStatus::Idle));
    let err = EndpointEvent::Error(OaatError::MessageTooLarge(1));
    assert_eq!(event_type_of(&err), OaatEventType::Error);
    assert_eq!(status_after(&err), Some(OaatStatus::Error));
    let vol = EndpointEvent::Volume(VolumeCommand::Get);
    assert_eq!(event_type_of(&vol), OaatEventType::VolumeGet);
    assert_eq!(status_after(&vol), None);
}

#[test]
fn volume_and_audio_data() {
    assert_eq!(volume_data_of(&VolumeCommand::SetLevel(70)), OaatVolumeData { level: 70, muted: false });
    assert_eq!(volume_data_of(&VolumeCommand::Mute(true)), OaatVolumeData { level: 0, muted: true });
    assert_eq!(volume_data_of(&VolumeCommand::Get), none_volume_data());
    let h = AudioPacketHeader {
        version: 1,
        flags: PacketFlags::empty(),
        format: AudioFormat::Flac,
        sequence: 7,
        stream_id: 1,
        pts_ns: 99,
        sample_offset: 480,
        payload_len: 3,
    };
    let d = audio_data_of(&h, vec![1, 2, 3]);
    assert_eq!(d.data, vec![1, 2, 3]);
    assert_eq!(d.len, 3);
    assert_eq!(d.format, OaatAudioFormat::Flac);
    assert_eq!((d.sequence, d.pts_ns, d.sample_offset), (7, 99, 480));
}

#[test]
fn c_endpoint_defaults() {
    assert_eq!(c_endpoint_ports(0), (0, 0, 0));
    assert_eq!(c_endpoint_ports(9740), (9740, 9741, 9742));
    let c = c_endpoint_capabilities();
    assert_eq!(c.pcm_max_rate, 768_000);
    assert_eq!(c.dsd_max_rate, Some(256));
    assert_eq!(c.formats.len(), 9);
    assert_eq!(c.formats[8], AudioFormat::Flac);
}
