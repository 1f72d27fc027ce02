use oaat::conformance::{counter_probe_rate, handshake_verdicts, reject_probe_format, ConformanceTally};
use oaat::format::AudioFormat;
use oaat::message::{EndpointCapabilities, HelloAck};

fn ack(formats: Vec<AudioFormat>, rate: u32) -> HelloAck {
    HelloAck {
        protocol_version: 1,
        endpoint_id: "ep".into(),
        endpoint_name: "".into(),
        capabilities: EndpointCapabilities {
            pcm_max_rate: rate,
            pcm_max_bits: 24,
            dsd_max_rate: None,
            channels_max: 1,
            formats,
            volume: None,
            gapless: false,
            seek: false,
        },
        audio_port: 1,
        clock_port: 2,
        buffer_size_ms: 3,
    }
}

#[test]
fn handshake_checks() {
    let v = handshake_verdicts(&ack(vec![AudioFormat::PcmS16le], 48000));
    assert_eq!(v, vec![true, true, false, true, true, false, true]);
    let v = handshake_verdicts(&ack(vec![AudioFormat::Flac], 22050));
    assert_eq!(v, vec![true, true, false, false, true, false, false]);
}

#[test]
fn probes() {
    assert_eq!(counter_probe_rate(192000), 768000);
    assert_eq!(counter_probe_rate(768000), 1536000);
    assert_eq!(reject_probe_format(&vec![AudioFormat::Opus]), AudioFormat::DsdU32le);
    assert_eq!(reject_probe_format(&vec![AudioFormat::Flac]), AudioFormat::Opus);
}

#[test]
fn tally() {
    let mut t = ConformanceTally::new();
    t.pass();
    t.pass();
    t.skip();
    assert!(t.is_conformant());
    t.fail();
    assert!(!t.is_conformant());
    assert_eq!(t.total(), 4);
    assert_eq!((t.passed, t.failed, t.skipped), (2, 1, 1));
}
