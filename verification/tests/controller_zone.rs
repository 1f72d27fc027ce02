use oaat::fec::FecEncoder;
use oaat::manager::ZoneManager;
use oaat::message::{Message, TrackMetadata};
use oaat::protocol::ControllerConfig;
use oaat::format::{AudioFormat, ChannelLayout};
use oaat::wire::{AudioPacketHeader, PacketFlags};
use oaat::zone::{EndpointState, VolumeMap, Zone, ZoneEvent};

fn config() -> ControllerConfig {
    ControllerConfig {
        controller_id: "ctrl".into(),
        controller_name: "Controller".into(),
        features: vec![],
        clock_port: 9742,
        tls: false,
    }
}

fn zone_with(ids: &[&str]) -> Zone {
    let mut z = Zone::new("zone-1".into(), "Demo Zone".into(), config());
    for (i, id) in ids.iter().enumerate() {
        z.add_endpoint(id.to_string(), format!("Speaker {i}"), format!("10.0.0.{i}:9740"));
    }
    z
}

#[test]
fn volume_map_clamps_master_plus_offset() {
    let mut v = VolumeMap::new();
    assert_eq!(v.master, 100);
    assert_eq!(v.effective_volume("a"), 100);
    v.set_offset("a", -30);
    assert_eq!(v.offset("a"), -30);
    assert_eq!(v.effective_volume("a"), 70);
    v.set_offset("a", 20);
    assert_eq!(v.effective_volume("a"), 100);
    v.master = 10;
    v.set_offset("b", -50);
    assert_eq!(v.effective_volume("b"), 0);
    v.remove_offset("b");
    assert_eq!(v.offset("b"), 0);
    assert_eq!(v.effective_volume("b"), 10);
}

#[test]
fn membership_and_play_delay() {
    let mut z = zone_with(&["a"]);
    assert_eq!(z.endpoint_count(), 1);
    assert!(!z.is_multiroom());
    assert_eq!(z.play_delay_ms(), 200);
    z.add_endpoint("b".into(), "Kitchen".into(), "10.0.0.9:9740".into());
    assert!(z.is_multiroom());
    assert_eq!(z.play_delay_ms(), 500);
    assert_eq!(z.endpoint_ids(), vec!["a".to_string(), "b".to_string()]);
    assert_eq!(z.endpoint_name("b").as_deref(), Some("Kitchen"));
    assert_eq!(z.endpoint_addr("b").as_deref(), Some("10.0.0.9:9740"));
    assert_eq!(z.endpoint_state("b"), Some(EndpointState::Ready));
    assert_eq!(z.endpoint_name("zz"), None);
    // same id again replaces the entry
    z.add_endpoint("b".into(), "Den".into(), "10.0.0.10:9740".into());
    assert_eq!(z.endpoint_count(), 2);
    assert_eq!(z.endpoint_name("b").as_deref(), Some("Den"));
}

#[test]
fn removing_a_member_forgets_its_offset() {
    let mut z = zone_with(&["a", "b"]);
    assert_eq!(z.set_volume_offset("a", -10), Some(90));
    assert!(z.remove_endpoint("a"));
    assert!(!z.remove_endpoint("a"));
    assert_eq!(z.volume_map().offset("a"), 0);
    assert_eq!(z.endpoint_ids(), vec!["b".to_string()]);
}

#[test]
fn health_and_pruning() {
    let mut z = zone_with(&["a", "b", "c"]);
    z.mark_disconnected("b");
    z.mark_degraded("c");
    assert_eq!(z.endpoint_state("c"), Some(EndpointState::Degraded));
    // b is already disconnected and is not reported again
    assert_eq!(z.check_health(&vec![true, false, false]), vec!["c".to_string()]);
    z.set_volume_offset("b", 5);
    let dead = z.prune_disconnected();
    assert_eq!(dead, vec!["b".to_string()]);
    assert_eq!(z.endpoint_ids(), vec!["a".to_string(), "c".to_string()]);
    assert_eq!(z.volume_map().offset("b"), 0);
    assert!(z.prune_disconnected().is_empty());
}

#[test]
fn per_device_volume() {
    let mut z = zone_with(&["a", "b"]);
    let all = z.set_volume_all(60);
    assert_eq!(all, vec![("a".to_string(), 60), ("b".to_string(), 60)]);
    assert_eq!(z.set_volume_endpoint("a", 45), Some(45));
    assert_eq!(z.volume_map().offset("a"), -15);
    assert_eq!(z.set_volume_endpoint("nobody", 45), None);
    let all = z.set_volume_all(100);
    assert_eq!(all, vec![("a".to_string(), 85), ("b".to_string(), 100)]);
}

#[test]
fn late_join_replays_the_active_stream() {
    let mut z = zone_with(&["a"]);
    assert!(z.late_join_messages("b").is_empty());
    z.begin_stream("s1", AudioFormat::PcmS16le, 44100, 2, ChannelLayout::Stereo, 16);
    assert!(!z.is_streaming());
    let ms = z.late_join_messages("b");
    assert_eq!(ms.len(), 2);
    z.set_metadata(TrackMetadata {
        title: "T".into(),
        artist: "A".into(),
        album: "B".into(),
        duration_ms: 1000,
        artwork_url: None,
        format: None,
    });
    z.set_playing();
    assert!(z.is_streaming());
    z.set_volume_offset("b", -20);
    let ms = z.late_join_messages("b");
    assert_eq!(ms.len(), 4);
    match &ms[0] {
        Message::FormatPropose(fp) => {
            assert_eq!(fp.stream_id, "s1");
            assert_eq!(fp.sample_rate, 44100);
        }
        other => panic!("unexpected {other:?}"),
    }
    match &ms[1] {
        Message::Metadata(m) => assert_eq!(m.track.title, "T"),
        other => panic!("unexpected {other:?}"),
    }
    match &ms[2] {
        Message::VolumeSet(v) => assert_eq!(v.level, 80),
        other => panic!("unexpected {other:?}"),
    }
    match &ms[3] {
        Message::Play(p) => assert_eq!(p.stream_id, "s1"),
        other => panic!("unexpected {other:?}"),
    }
    z.end_stream();
    assert!(z.late_join_messages("b").is_empty());
}

#[test]
fn datagrams_share_one_sequence() {
    let mut z = zone_with(&["a"]);
    let b0 = z.send_audio(1, AudioFormat::PcmS16le, 0, 0, &[1, 2], PacketFlags::first_packet());
    let d0 = b0.datagram;
    assert_eq!(d0.len(), 34);
    assert_eq!(&d0[2..4], &[0, 0]);
    assert!(b0.parity.is_none());
    assert_eq!(z.next_sequence(), 1);
    let d2 = z.send_audio(1, AudioFormat::PcmS16le, 0, 0, &[], PacketFlags::last_packet()).datagram;
    assert_eq!(d2.len(), 32);
    assert_eq!(&d2[2..4], &[0, 2]);
    assert!(!z.fec_enabled());
    z.enable_fec(4);
    assert_eq!(z.fec_group_size(), Some(4));
    z.disable_fec();
    assert!(!z.fec_enabled());
}

#[test]
fn audio_skips_disconnected_members() {
    let mut z = zone_with(&["a", "b", "c"]);
    z.mark_disconnected("b");
    let batch = z.send_audio(7, AudioFormat::PcmS16le, 10, 0, &[9], PacketFlags::empty());
    assert_eq!(batch.recipients, vec!["a".to_string(), "c".to_string()]);
}

#[test]
fn fec_parity_follows_each_group() {
    let mut z = zone_with(&["a"]);
    z.enable_fec(2);
    let b0 = z.send_audio(5, AudioFormat::PcmS16le, 100, 0, &[0x0F, 0xF0, 0xAA], PacketFlags::empty());
    assert!(b0.parity.is_none());
    assert_eq!(&b0.datagram[2..4], &[0, 0]);
    let b1 = z.send_audio(5, AudioFormat::PcmS16le, 200, 480, &[0xFF, 0x0F], PacketFlags::empty());
    assert_eq!(&b1.datagram[2..4], &[0, 1]);
    let parity = b1.parity.expect("second payload completes the group");
    // header: FEC flag, sequence 2, payload the XOR zero-extended to 3 bytes
    let head: [u8; 32] = parity[..32].try_into().unwrap();
    let header = AudioPacketHeader::decode(&head).unwrap();
    assert_eq!(header.flags.bits(), 0x04);
    assert_eq!(header.sequence, 2);
    assert_eq!((header.pts_ns, header.sample_offset), (200, 480));
    assert_eq!(header.payload_len, 3);
    assert_eq!(&parity[32..], &[0xF0, 0xFF, 0xAA]);
    // the parity consumed a sequence number; a new group starts
    let b2 = z.send_audio(5, AudioFormat::PcmS16le, 300, 960, &[1], PacketFlags::empty());
    assert_eq!(&b2.datagram[2..4], &[0, 3]);
    assert!(b2.parity.is_none());
    // the lost first payload comes back from the parity and the second
    let recovered: Vec<u8> = parity[32..]
        .iter()
        .zip([0xFFu8, 0x0F, 0x00].iter())
        .map(|(p, q)| p ^ q)
        .collect();
    assert_eq!(recovered, vec![0x0F, 0xF0, 0xAA]);
}

#[test]
fn zone_messages() {
    let z = zone_with(&["a", "b"]);
    match z.zone_update_message() {
        Message::ZoneUpdate(u) => {
            assert_eq!(u.zone_id, "zone-1");
            assert_eq!(u.endpoint_ids, vec!["a".to_string(), "b".to_string()]);
        }
        other => panic!("unexpected {other:?}"),
    }
    match z.zone_release_message("a") {
        Message::ZoneRelease(r) => assert_eq!((r.zone_id.as_str(), r.endpoint_id.as_str()), ("zone-1", "a")),
        other => panic!("unexpected {other:?}"),
    }
    let snaps = z.endpoint_snapshots();
    assert_eq!(snaps.len(), 2);
    assert_eq!(snaps[1].endpoint_name, "Speaker 1");
    assert_eq!(snaps[1].addr, "10.0.0.1:9740");
}

#[test]
fn manager_creates_moves_and_dissolves_zones() {
    let mut m = ZoneManager::new(config());
    match m.create_zone("z1".into(), "Living".into()) {
        ZoneEvent::ZoneCreated { zone_id, name } => assert_eq!((zone_id.as_str(), name.as_str()), ("z1", "Living")),
        other => panic!("unexpected {other:?}"),
    }
    m.create_zone("z2".into(), "Kitchen".into());
    assert_eq!(m.zone_ids(), vec!["z1".to_string(), "z2".to_string()]);
    match m.record_endpoint_joined("z1", "e1".into(), "Speaker".into(), "10.0.0.5:9740".into()) {
        Ok(ZoneEvent::EndpointJoined { endpoint_id, endpoint_name, .. }) => {
            assert_eq!((endpoint_id.as_str(), endpoint_name.as_str()), ("e1", "Speaker"))
        }
        other => panic!("unexpected {other:?}"),
    }
    match m.record_endpoint_joined("nope", "e1".into(), "Speaker".into(), "x".into()) {
        Err(oaat::error::OaatError::Protocol(msg)) => assert_eq!(msg, "zone not found: nope"),
        other => panic!("unexpected {other:?}"),
    }
    match m.begin_move("e9", "z1") {
        Err(oaat::error::OaatError::Protocol(msg)) => assert_eq!(msg, "endpoint not found: e9"),
        other => panic!("unexpected {other:?}"),
    }
    match m.begin_move("e1", "z1") {
        Ok((addr, ZoneEvent::EndpointLeft { zone_id, endpoint_id })) => {
            assert_eq!(addr, "10.0.0.5:9740");
            assert_eq!((zone_id.as_str(), endpoint_id.as_str()), ("z1", "e1"));
        }
        other => panic!("unexpected {other:?}"),
    }
    assert_eq!(m.zone("z1").unwrap().endpoint_count(), 0);
    assert!(m.remove_endpoint_from_zone("z1", "e1").is_none());
    let snap = m.snapshot();
    assert_eq!(snap.len(), 2);
    assert_eq!(snap[1].name, "Kitchen");
    assert_eq!(snap[1].volume, 100);
    assert!(m.dissolve_zone("z1").is_some());
    assert!(m.dissolve_zone("z1").is_none());
    assert_eq!(m.zone_ids(), vec!["z2".to_string()]);
    match ZoneManager::endpoint_failed_event("z2", "e2", "timeout".into()) {
        ZoneEvent::EndpointFailed { error, .. } => assert_eq!(error, "timeout"),
        other => panic!("unexpected {other:?}"),
    }
}

#[test]
fn fec_encoder_parity_of_uneven_payloads() {
    let mut e = FecEncoder::new(3);
    assert_eq!(e.group_size(), 3);
    assert!(e.feed(&[1, 2, 3, 4]).is_none());
    assert_eq!(e.len_xor(), 4);
    assert!(e.feed(&[0xFF]).is_none());
    assert_eq!(e.len_xor(), 4 ^ 1);
    let done = e.feed(&[0x10, 0x20]).expect("third payload completes the group");
    let parity = done.payload;
    assert_eq!(parity, vec![1 ^ 0xFF ^ 0x10, 2 ^ 0x20, 3, 4]);
    assert_eq!(done.len_xor, 4 ^ 1 ^ 2);
    // the lost second payload's exact length: the length XOR with the others'
    assert_eq!(done.len_xor ^ 4 ^ 2, 1);
    assert_eq!(e.len_xor(), 0);
    // recovering the lost second payload from the parity and the others
    let others = [vec![1u8, 2, 3, 4], vec![0x10, 0x20]];
    let mut rec = parity.clone();
    for o in &others {
        for (i, b) in o.iter().enumerate() {
            rec[i] ^= b;
        }
    }
    assert_eq!(rec[0], 0xFF);
    assert!(rec[1..].iter().all(|&b| b == 0));
    // a new group starts
    assert!(e.feed(&[9]).is_none());
}
