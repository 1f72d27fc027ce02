use oaat::codec::FrameCodec;
use oaat::endpoint_session::EndpointSession;
use oaat::message::{EndpointCapabilities, Hello, Message};
use oaat::session::SessionState;

#[test]
fn frames_are_cut_after_split_feeds() {
    let payload = br#"{"type":"hello"}"#;
    let frame = FrameCodec::frame(payload);
    assert_eq!(&frame[..4], &[0, 0, 0, payload.len() as u8]);
    let mut codec = FrameCodec::new();
    let mid = frame.len() / 2;
    codec.feed(&frame[..mid]);
    assert!(codec.decode_next().unwrap().is_none());
    codec.feed(&frame[mid..]);
    assert_eq!(codec.decode_next().unwrap().unwrap(), payload.to_vec());
    assert!(codec.decode_next().unwrap().is_none());
}

#[test]
fn several_frames_come_out_in_order() {
    let mut codec = FrameCodec::new();
    for i in 0..5u8 {
        codec.feed(&FrameCodec::frame(&vec![i; i as usize + 1]));
    }
    for i in 0..5u8 {
        assert_eq!(codec.decode_next().unwrap().unwrap(), vec![i; i as usize + 1]);
    }
    assert!(codec.decode_next().unwrap().is_none());
}

#[test]
fn oversized_frame_is_refused_and_kept() {
    let mut codec = FrameCodec::new();
    codec.feed(&[0x01, 0x00, 0x00, 0x01, 0xAA]);
    for _ in 0..2 {
        match codec.decode_next() {
            Err(oaat::error::OaatError::MessageTooLarge(n)) => assert_eq!(n, 0x0100_0001),
            other => panic!("unexpected {other:?}"),
        }
    }
}

fn caps() -> EndpointCapabilities {
    EndpointCapabilities {
        pcm_max_rate: 192000,
        pcm_max_bits: 24,
        dsd_max_rate: None,
        channels_max: 2,
        formats: vec![],
        volume: None,
        gapless: true,
        seek: true,
    }
}

fn hello(version: u32) -> Message {
    Message::Hello(Hello {
        protocol_version: version,
        controller_id: "ctrl-1".into(),
        controller_name: "Test".into(),
        clock_port: 9742,
        features: vec![],
    })
}

#[test]
fn hello_is_acknowledged() {
    let mut s = EndpointSession::new("ep".into(), "Living Room".into());
    match s.handle_hello(&hello(1), caps(), 9741, 9742, 1000).unwrap() {
        Message::HelloAck(ack) => {
            assert_eq!(ack.endpoint_id, "ep");
            assert_eq!(ack.endpoint_name, "Living Room");
            assert_eq!(ack.audio_port, 9741);
            assert_eq!(ack.buffer_size_ms, 1000);
        }
        other => panic!("unexpected {other:?}"),
    }
    assert_eq!(s.state, SessionState::Idle);
    assert_eq!(s.controller_id.as_deref(), Some("ctrl-1"));
    // a second hello is out of sequence
    assert!(s.handle_hello(&hello(1), caps(), 1, 2, 3).is_err());
}

#[test]
fn hello_with_other_version_is_refused() {
    let mut s = EndpointSession::new("ep".into(), "n".into());
    match s.handle_hello(&hello(2), caps(), 1, 2, 3) {
        Err(oaat::error::OaatError::VersionMismatch { expected, got }) => {
            assert_eq!((expected, got), (1, 2));
        }
        other => panic!("unexpected {other:?}"),
    }
    assert_eq!(s.state, SessionState::Discovery);
    assert!(s.controller_id.is_none());
    assert!(s.transition(SessionState::Idle).is_err());
    assert!(s.transition(SessionState::Handshake).is_ok());
}
