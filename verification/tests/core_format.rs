use oaat::format::{AudioFormat, ChannelLayout, DsdRate, SampleRateFamily};
use oaat::session::SessionState;

#[test]
fn wire_id_roundtrip() {
    for fmt in [
        AudioFormat::PcmS16le,
        AudioFormat::PcmS24le,
        AudioFormat::PcmS24le4,
        AudioFormat::PcmS32le,
        AudioFormat::PcmF32le,
        AudioFormat::DsdU8,
        AudioFormat::DsdU16le,
        AudioFormat::DsdU32le,
        AudioFormat::Flac,
        AudioFormat::Opus,
        AudioFormat::TrueHd,
        AudioFormat::Eac3,
    ] {
        assert_eq!(AudioFormat::from_wire_id(fmt.wire_id()), Some(fmt));
    }
}

#[test]
fn sample_rate_family() {
    assert_eq!(SampleRateFamily::of(44100), Some(SampleRateFamily::F44100));
    assert_eq!(SampleRateFamily::of(192000), Some(SampleRateFamily::F48000));
    assert_eq!(SampleRateFamily::of(50000), None);
}

#[test]
fn unknown_wire_ids_decode_to_nothing() {
    assert_eq!(AudioFormat::from_wire_id(0x00), None);
    assert_eq!(AudioFormat::from_wire_id(0x06), None);
    assert_eq!(AudioFormat::from_wire_id(0xFF), None);
    assert_eq!(AudioFormat::Eac3.wire_id(), 0x31);
    assert_eq!(AudioFormat::DsdU8.wire_id(), 0x10);
}

#[test]
fn format_classes_and_sample_width() {
    assert!(AudioFormat::PcmF32le.is_pcm());
    assert!(!AudioFormat::DsdU8.is_pcm());
    assert!(AudioFormat::DsdU32le.is_dsd());
    assert!(AudioFormat::Opus.is_compressed());
    assert!(AudioFormat::TrueHd.is_bitstream());
    assert_eq!(AudioFormat::PcmS16le.bytes_per_sample(), Some(2));
    assert_eq!(AudioFormat::PcmS24le.bytes_per_sample(), Some(3));
    assert_eq!(AudioFormat::PcmS24le4.bytes_per_sample(), Some(4));
    assert_eq!(AudioFormat::Flac.bytes_per_sample(), None);
    assert_eq!(AudioFormat::PcmS24le4.as_str(), "PCM_S24LE4");
    assert_eq!(AudioFormat::TrueHd.as_str(), "TRUEHD");
}

#[test]
fn channel_counts_and_dsd_rates() {
    assert_eq!(ChannelLayout::Mono.channel_count(), 1);
    assert_eq!(ChannelLayout::FivePointOne.channel_count(), 6);
    assert_eq!(ChannelLayout::SevenPointOnePointSix.channel_count(), 14);
    assert_eq!(DsdRate::Dsd64.bitstream_rate_hz(), 2_822_400);
    assert_eq!(DsdRate::Dsd512.bitstream_rate_hz(), 22_579_200);
    assert_eq!(DsdRate::Dsd256.multiplier(), 256);
    assert_eq!(
        SampleRateFamily::F48000.rates(),
        vec![48000, 96000, 192000, 384000, 768000]
    );
    assert_eq!(SampleRateFamily::of(705600), Some(SampleRateFamily::F44100));
}

#[test]
fn valid_transitions() {
    let s = SessionState::Discovery;
    let s = s.transition(SessionState::Handshake).unwrap();
    let s = s.transition(SessionState::Idle).unwrap();
    let s = s.transition(SessionState::Negotiation).unwrap();
    let s = s.transition(SessionState::Streaming).unwrap();
    let s = s.transition(SessionState::Paused).unwrap();
    let s = s.transition(SessionState::Streaming).unwrap();
    let s = s.transition(SessionState::Stopped).unwrap();
    let s = s.transition(SessionState::Disconnected).unwrap();
    assert_eq!(s, SessionState::Disconnected);
}

#[test]
fn invalid_transition() {
    let s = SessionState::Idle;
    assert!(s.transition(SessionState::Streaming).is_err());
}

#[test]
fn refused_transition_reports_both_states() {
    match SessionState::Paused.transition(SessionState::Idle) {
        Err(oaat::error::OaatError::InvalidStateTransition { from, to }) => {
            assert_eq!(from, SessionState::Paused);
            assert_eq!(to, SessionState::Idle);
        }
        other => panic!("unexpected {other:?}"),
    }
    assert!(SessionState::Disconnected.can_transition_to(SessionState::Discovery));
    assert!(!SessionState::Discovery.can_transition_to(SessionState::Discovery));
    assert_eq!(SessionState::Negotiation.as_str(), "Negotiation");
}
