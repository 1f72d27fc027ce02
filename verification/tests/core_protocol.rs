use oaat::endpoint_transport::EndpointTransport;
use oaat::error::OaatError;
use oaat::format::AudioFormat;
use oaat::message::{
    EndpointCapabilities, FormatAccept, Hello, HelloAck, Message, Mute, Play, VolumeSet,
    ZoneAssign,
};
use oaat::protocol::{
    next_packet, audio_datagram, check_hello_ack, clock_request, clock_request_of, endpoint_event_for,
    endpoint_response_for, hello_message, receive_audio, AudioSender, ClockResponder,
    ControllerAnnouncement, ControllerConfig, EndpointEvent, EndpointResponse, PlaybackCommand,
    VolumeCommand,
};
use oaat::wire::{AudioPacketHeader, ClockSyncPacket, ClockSyncType, PacketFlags};

fn caps() -> EndpointCapabilities {
    EndpointCapabilities {
        pcm_max_rate: 96000,
        pcm_max_bits: 24,
        dsd_max_rate: None,
        channels_max: 2,
        formats: vec![AudioFormat::PcmS24le],
        volume: None,
        gapless: true,
        seek: false,
    }
}

fn hello(version: u32) -> Message {
    Message::Hello(Hello {
        protocol_version: version,
        controller_id: "ctrl-1".into(),
        controller_name: "Phone".into(),
        clock_port: 9742,
        features: vec![],
    })
}

#[test]
fn clock_responder_answers_requests_only() {
    let req = clock_request(7, 1000);
    let resp = ClockResponder::answer(&req, 28, 2000, 2005).unwrap();
    let p = ClockSyncPacket::decode(&resp).unwrap();
    assert_eq!(p.kind, ClockSyncType::Response);
    assert_eq!((p.sequence, p.t1, p.t2, p.t3), (7, 1000, 2000, 2005));
    // a short datagram or a response is ignored
    assert!(ClockResponder::answer(&req, 20, 1, 2).is_none());
    assert!(ClockResponder::answer(&resp, 28, 1, 2).is_none());
    assert!(clock_request_of(&resp, 28).is_none());
    assert_eq!(clock_request_of(&req, 28).unwrap().t1, 1000);
}

#[test]
fn fec_parity_never_reaches_the_audio_path() {
    let mut h = AudioPacketHeader {
        version: 1,
        flags: PacketFlags::first_packet(),
        format: AudioFormat::PcmS16le,
        sequence: 3,
        stream_id: 1,
        pts_ns: 5,
        sample_offset: 6,
        payload_len: 2,
    };
    let d = audio_datagram(&h, &[9, 8]);
    let (got, payload) = receive_audio(&d, d.len()).unwrap();
    assert_eq!(got.sequence, 3);
    assert_eq!(payload, vec![9, 8]);
    h.flags = PacketFlags::fec();
    let d = audio_datagram(&h, &[9, 8]);
    assert!(receive_audio(&d, d.len()).is_none());
    assert!(receive_audio(&d, 10).is_none());
}

#[test]
fn sender_numbers_packets_and_wraps() {
    let mut s = AudioSender { sequence: 0xFFFF };
    let d = s.next_datagram(1, AudioFormat::PcmS16le, 0, 0, &[], PacketFlags::empty());
    assert_eq!(&d[2..4], &[0xFF, 0xFF]);
    assert_eq!(s.sequence, 0);
    assert_eq!(AudioSender::new().sequence, 0);
}

#[test]
fn endpoint_handshake_then_events() {
    let mut t = EndpointTransport::new("ep-1".into(), "Den".into(), caps(), 40000, 40001, 1000);
    // anything before Hello is skipped
    let step = t.on_message(Message::Play(Play { stream_id: "s".into() })).unwrap();
    assert!(step.events.is_empty() && step.reply.is_none());
    let step = t.on_message(hello(1)).unwrap();
    assert_eq!(step.events.len(), 1);
    match step.events.into_iter().next() {
        Some(EndpointEvent::Connected { controller_id, controller_name }) => {
            assert_eq!((controller_id.as_str(), controller_name.as_str()), ("ctrl-1", "Phone"))
        }
        _ => panic!("expected Connected"),
    }
    match step.reply {
        Some(Message::HelloAck(ack)) => {
            assert_eq!(ack.endpoint_id, "ep-1");
            assert_eq!((ack.audio_port, ack.clock_port, ack.buffer_size_ms), (40000, 40001, 1000));
            assert_eq!(ack.capabilities.pcm_max_rate, 96000);
        }
        _ => panic!("expected HelloAck"),
    }
    let step = t.on_message(Message::VolumeSet(VolumeSet { level: 33 })).unwrap();
    assert!(step.reply.is_none());
    assert!(matches!(step.events.as_slice(), [EndpointEvent::Volume(VolumeCommand::SetLevel(33))]));
    let step = t.on_message(Message::Mute(Mute { muted: true })).unwrap();
    assert!(matches!(step.events.as_slice(), [EndpointEvent::Volume(VolumeCommand::Mute(true))]));
    let step = t.on_message(Message::ZoneAssign(ZoneAssign { zone_id: "z".into(), endpoint_id: "e".into() })).unwrap();
    assert!(step.events.is_empty());
    assert!(matches!(t.on_closed(), EndpointEvent::Disconnected));
}

#[test]
fn endpoint_refuses_other_protocol_versions() {
    let mut t = EndpointTransport::new("ep-1".into(), "Den".into(), caps(), 1, 2, 3);
    match t.on_message(hello(2)) {
        Err(OaatError::VersionMismatch { expected, got }) => assert_eq!((expected, got), (1, 2)),
        _ => panic!("expected a version mismatch"),
    }
}

#[test]
fn control_messages_become_events() {
    match endpoint_event_for(Message::Play(Play { stream_id: "abc".into() })) {
        Some(EndpointEvent::Playback(PlaybackCommand::Play(s))) => assert_eq!(s, "abc"),
        _ => panic!("expected Play"),
    }
    assert!(endpoint_event_for(hello(1)).is_none());
    match endpoint_response_for(Message::FormatAccept(FormatAccept { stream_id: "s".into() })) {
        Some(EndpointResponse::FormatAccept(fa)) => assert_eq!(fa.stream_id, "s"),
        _ => panic!("expected FormatAccept"),
    }
    assert!(endpoint_response_for(Message::Play(Play { stream_id: "s".into() })).is_none());
}

#[test]
fn controller_hello_and_ack_check() {
    let cfg = ControllerConfig {
        controller_id: "c".into(),
        controller_name: "Ctl".into(),
        features: vec!["gapless".into()],
        clock_port: 9999,
        tls: true,
    };
    match hello_message(&cfg) {
        Message::Hello(h) => {
            assert_eq!(h.protocol_version, 1);
            assert_eq!(h.clock_port, 9999);
            assert_eq!(h.features, vec!["gapless".to_string()]);
        }
        _ => panic!("expected Hello"),
    }
    let mut ack = HelloAck {
        protocol_version: 1,
        endpoint_id: "e".into(),
        endpoint_name: "E".into(),
        capabilities: caps(),
        audio_port: 1,
        clock_port: 2,
        buffer_size_ms: 3,
    };
    assert!(check_hello_ack(&ack).is_ok());
    ack.protocol_version = 7;
    assert!(matches!(check_hello_ack(&ack), Err(OaatError::VersionMismatch { expected: 1, got: 7 })));
}

#[test]
fn controller_txt_records() {
    let a = ControllerAnnouncement {
        controller_id: "c1".into(),
        controller_name: "Phone".into(),
        port: 9740,
        zone_count: 3,
    };
    let r = a.txt_records();
    assert_eq!(
        r,
        vec![
            ("v".to_string(), "1".to_string()),
            ("id".to_string(), "c1".to_string()),
            ("name".to_string(), "Phone".to_string()),
            ("zones".to_string(), "3".to_string())
        ]
    );
    assert_eq!(ControllerAnnouncement::service_type(), "_oaat-ctrl._tcp");
}

#[test]
fn packet_schedule_cuts_and_flags() {
    let (n, f) = next_packet(0, 1000, 480);
    assert_eq!((n, f.bits()), (480, 0x01));
    let (n, f) = next_packet(480, 1000, 480);
    assert_eq!((n, f.bits()), (480, 0x00));
    let (n, f) = next_packet(960, 1000, 480);
    assert_eq!((n, f.bits()), (40, 0x00));
}
