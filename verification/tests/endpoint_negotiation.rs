use oaat::endpoint_transport::EndpointTransport;
use oaat::format::{AudioFormat, ChannelLayout};
use oaat::message::{EndpointCapabilities, FormatPropose, Hello, Message, NextTrackPrepare};
use oaat::negotiation::{verdict, FormatLimits, RejectReason, Verdict};
use oaat::protocol::EndpointEvent;

fn test_capabilities() -> EndpointCapabilities {
    EndpointCapabilities {
        pcm_max_rate: 192000,
        pcm_max_bits: 24,
        dsd_max_rate: None,
        channels_max: 2,
        formats: vec![AudioFormat::PcmS16le, AudioFormat::PcmS24le, AudioFormat::PcmS32le],
        volume: None,
        gapless: true,
        seek: true,
    }
}

fn connected(caps: EndpointCapabilities) -> EndpointTransport {
    let mut t = EndpointTransport::new("ep".into(), "Endpoint".into(), caps, 1, 2, 3);
    t.on_message(Message::Hello(Hello {
        protocol_version: 1,
        controller_id: "ctrl-fmt".into(),
        controller_name: "Format Controller".into(),
        clock_port: 9742,
        features: vec![],
    }))
    .unwrap();
    assert!(t.established);
    t
}

fn propose(id: &str, format: AudioFormat, rate: u32, bits: u8) -> Message {
    Message::FormatPropose(FormatPropose {
        stream_id: id.into(),
        format,
        sample_rate: rate,
        channels: 2,
        channel_layout: ChannelLayout::Stereo,
        bits_per_sample: bits,
        dsd_rate: None,
    })
}

fn next_track(id: &str, format: AudioFormat, rate: u32, bits: u8) -> Message {
    Message::NextTrackPrepare(NextTrackPrepare {
        stream_id: id.into(),
        format,
        sample_rate: rate,
        channels: 2,
        channel_layout: ChannelLayout::Stereo,
        bits_per_sample: bits,
    })
}

#[test]
fn format_accept_when_supported() {
    let mut t = connected(test_capabilities());
    let step = t.on_message(propose("stream-accept", AudioFormat::PcmS24le, 96000, 24)).unwrap();
    match step.reply {
        Some(Message::FormatAccept(fa)) => assert_eq!(fa.stream_id, "stream-accept"),
        _ => panic!("expected FormatAccept"),
    }
    assert_eq!(step.events.len(), 2);
    match &step.events[0] {
        EndpointEvent::FormatAccepted { stream_id } => assert_eq!(stream_id, "stream-accept"),
        _ => panic!("expected FormatAccepted event"),
    }
    match &step.events[1] {
        EndpointEvent::FormatProposed(fp) => assert_eq!(fp.stream_id, "stream-accept"),
        _ => panic!("expected FormatProposed event"),
    }
}

#[test]
fn format_counter_when_rate_too_high() {
    let mut t = connected(test_capabilities());
    let step = t.on_message(propose("stream-counter", AudioFormat::PcmS24le, 384000, 24)).unwrap();
    match step.reply {
        Some(Message::FormatCounter(fc)) => {
            assert_eq!(fc.stream_id, "stream-counter");
            assert_eq!(fc.format, AudioFormat::PcmS24le);
            assert_eq!(fc.sample_rate, 192000);
            assert_eq!(fc.bits_per_sample, 24);
        }
        _ => panic!("expected FormatCounter"),
    }
    assert_eq!(step.events.len(), 1);
    match &step.events[0] {
        EndpointEvent::FormatProposed(fp) => {
            assert_eq!(fp.stream_id, "stream-counter");
            assert_eq!(fp.sample_rate, 384000);
        }
        _ => panic!("expected FormatProposed event"),
    }
    // a counter establishes no format
    assert!(t.current.is_none());
}

#[test]
fn format_reject_when_unsupported() {
    let mut t = connected(test_capabilities());
    let step = t.on_message(propose("stream-reject", AudioFormat::Flac, 44100, 16)).unwrap();
    match step.reply {
        Some(Message::FormatReject(fr)) => {
            assert_eq!(fr.stream_id, "stream-reject");
            assert!(fr.reason.contains("unsupported format"));
        }
        _ => panic!("expected FormatReject"),
    }
    assert_eq!(step.events.len(), 2);
    match &step.events[0] {
        EndpointEvent::FormatRejected { stream_id, reason } => {
            assert_eq!(stream_id, "stream-reject");
            assert!(reason.contains("unsupported format"));
        }
        _ => panic!("expected FormatRejected event"),
    }
    assert!(matches!(&step.events[1], EndpointEvent::FormatProposed(fp) if fp.stream_id == "stream-reject"));
}

#[test]
fn gapless_same_format_returns_next_track_ready() {
    let mut t = connected(test_capabilities());
    let step = t.on_message(propose("stream-gapless", AudioFormat::PcmS16le, 44100, 16)).unwrap();
    assert!(matches!(step.reply, Some(Message::FormatAccept(_))));
    let step = t.on_message(next_track("stream-gapless-next", AudioFormat::PcmS16le, 44100, 16)).unwrap();
    match step.reply {
        Some(Message::NextTrackReady(ntr)) => assert_eq!(ntr.stream_id, "stream-gapless-next"),
        _ => panic!("expected NextTrackReady"),
    }
    match step.events.as_slice() {
        [EndpointEvent::NextTrackReady { stream_id }] => assert_eq!(stream_id, "stream-gapless-next"),
        _ => panic!("expected NextTrackReady event"),
    }
}

#[test]
fn gapless_different_format_returns_next_track_reformat() {
    let mut t = connected(test_capabilities());
    let step = t.on_message(propose("stream-reformat", AudioFormat::PcmS16le, 44100, 16)).unwrap();
    assert!(matches!(step.reply, Some(Message::FormatAccept(_))));
    let step = t.on_message(next_track("stream-reformat-next", AudioFormat::PcmS16le, 96000, 16)).unwrap();
    match step.reply {
        Some(Message::NextTrackReformat(ntf)) => {
            assert_eq!(ntf.stream_id, "stream-reformat-next");
            assert_eq!(ntf.format, AudioFormat::PcmS16le);
            assert_eq!(ntf.sample_rate, 96000);
        }
        _ => panic!("expected NextTrackReformat"),
    }
    match step.events.as_slice() {
        [EndpointEvent::NextTrackReformat { stream_id, format, sample_rate }] => {
            assert_eq!(stream_id, "stream-reformat-next");
            assert_eq!(*format, AudioFormat::PcmS16le);
            assert_eq!(*sample_rate, 96000);
        }
        _ => panic!("expected NextTrackReformat event"),
    }
    // the prepared track is now current: the same shape again is ready
    let step = t.on_message(next_track("third", AudioFormat::PcmS16le, 96000, 16)).unwrap();
    assert!(matches!(step.reply, Some(Message::NextTrackReady(_))));
}

#[test]
fn gapless_without_a_current_format_reformats() {
    let mut t = connected(test_capabilities());
    let step = t.on_message(next_track("first", AudioFormat::PcmS16le, 44100, 16)).unwrap();
    assert!(matches!(step.reply, Some(Message::NextTrackReformat(_))));
}

#[test]
fn dsd_format_accepted_when_supported() {
    let dsd_caps = EndpointCapabilities {
        pcm_max_rate: 192000,
        pcm_max_bits: 24,
        dsd_max_rate: Some(64),
        channels_max: 2,
        formats: vec![AudioFormat::PcmS16le, AudioFormat::PcmS24le, AudioFormat::DsdU8],
        volume: None,
        gapless: true,
        seek: true,
    };
    let mut t = connected(dsd_caps);
    let step = t.on_message(propose("stream-dsd-accept", AudioFormat::DsdU8, 2822400, 1)).unwrap();
    match step.reply {
        Some(Message::FormatAccept(fa)) => assert_eq!(fa.stream_id, "stream-dsd-accept"),
        _ => panic!("expected FormatAccept for DSD"),
    }
    // DSD128 is beyond the DSD64 limit
    let step = t.on_message(propose("dsd128", AudioFormat::DsdU8, 5644800, 1)).unwrap();
    assert!(matches!(step.reply, Some(Message::FormatReject(fr)) if fr.reason == "unsupported sample rate"));
}

#[test]
fn dsd_format_rejected_when_not_supported() {
    let mut t = connected(test_capabilities());
    let step = t.on_message(propose("stream-dsd-reject", AudioFormat::DsdU8, 2822400, 1)).unwrap();
    match step.reply {
        Some(Message::FormatReject(fr)) => {
            assert_eq!(fr.stream_id, "stream-dsd-reject");
            assert!(fr.reason.contains("unsupported format"));
        }
        _ => panic!("expected FormatReject for DSD"),
    }
}

#[test]
fn verdicts_on_limits() {
    let limits = FormatLimits::of(&test_capabilities());
    let p = |format, rate, channels, bits| FormatPropose {
        stream_id: "s".into(),
        format,
        sample_rate: rate,
        channels,
        channel_layout: ChannelLayout::Stereo,
        bits_per_sample: bits,
        dsd_rate: None,
    };
    assert_eq!(verdict(&limits, &p(AudioFormat::PcmS24le, 192000, 2, 24)), Verdict::Accept);
    assert_eq!(verdict(&limits, &p(AudioFormat::PcmS24le, 705600, 2, 24)), Verdict::Counter(176400));
    assert_eq!(verdict(&limits, &p(AudioFormat::PcmS24le, 768000, 2, 24)), Verdict::Counter(192000));
    assert_eq!(
        verdict(&limits, &p(AudioFormat::PcmS24le, 400000, 2, 24)),
        Verdict::Reject(RejectReason::SampleRate)
    );
    assert_eq!(verdict(&limits, &p(AudioFormat::PcmS32le, 48000, 2, 32)), Verdict::Reject(RejectReason::BitDepth));
    assert_eq!(verdict(&limits, &p(AudioFormat::PcmS16le, 48000, 6, 16)), Verdict::Reject(RejectReason::Channels));
    assert_eq!(verdict(&limits, &p(AudioFormat::Opus, 48000, 2, 16)), Verdict::Reject(RejectReason::Format));
}
