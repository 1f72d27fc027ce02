use oaat::format::AudioFormat;
use oaat::wire::{
    AudioPacketHeader, ClockSyncPacket, ClockSyncType, PacketFlags, AUDIO_HEADER_SIZE,
};

#[test]
fn audio_header_roundtrip() {
    let hdr = AudioPacketHeader {
        version: 1,
        flags: PacketFlags::first_packet().union(PacketFlags::fec()),
        format: AudioFormat::PcmS24le,
        sequence: 42,
        stream_id: 0xDEADBEEF,
        pts_ns: 1_000_000_000,
        sample_offset: 192000,
        payload_len: 1440,
    };
    let mut buf = [0u8; AUDIO_HEADER_SIZE];
    hdr.encode(&mut buf);
    let decoded = AudioPacketHeader::decode(&buf).unwrap();
    assert_eq!(hdr, decoded);
}

#[test]
fn clock_sync_roundtrip() {
    let pkt = ClockSyncPacket {
        version: 1,
        kind: ClockSyncType::Response,
        sequence: 7,
        t1: 100_000,
        t2: 100_050,
        t3: 100_060,
    };
    let mut buf = [0u8; ClockSyncPacket::SIZE];
    pkt.encode(&mut buf);
    let decoded = ClockSyncPacket::decode(&buf).unwrap();
    assert_eq!(pkt, decoded);
}

#[test]
fn clock_offset_calculation() {
    let offset = ClockSyncPacket::compute_offset(100, 200, 210, 310);
    assert_eq!(offset, 0);

    let rtt = ClockSyncPacket::compute_rtt(100, 200, 210, 310);
    assert_eq!(rtt, 200);
}

#[test]
fn header_bytes_are_big_endian() {
    let hdr = AudioPacketHeader {
        version: 1,
        flags: PacketFlags::last_packet(),
        format: AudioFormat::Flac,
        sequence: 0x0102,
        stream_id: 0x03040506,
        pts_ns: 0x0708090A0B0C0D0E,
        sample_offset: 0x1112131415161718,
        payload_len: 0x191A,
    };
    let mut buf = [0xAAu8; AUDIO_HEADER_SIZE];
    hdr.encode(&mut buf);
    assert_eq!(
        buf,
        [
            0x12, 0x20, 0x01, 0x02, 0x03, 0x04, 0x05, 0x06, 0x07, 0x08, 0x09, 0x0A, 0x0B, 0x0C,
            0x0D, 0x0E, 0x11, 0x12, 0x13, 0x14, 0x15, 0x16, 0x17, 0x18, 0x19, 0x1A, 0, 0, 0, 0,
            0, 0
        ]
    );
}

#[test]
fn unknown_format_byte_is_refused() {
    let mut buf = [0u8; AUDIO_HEADER_SIZE];
    buf[0] = 0x10;
    buf[1] = 0x77;
    match AudioPacketHeader::decode(&buf) {
        Err(oaat::error::OaatError::UnknownFormat(b)) => assert_eq!(b, 0x77),
        other => panic!("unexpected {other:?}"),
    }
}

#[test]
fn unknown_clock_sync_type_is_refused() {
    let mut buf = [0u8; ClockSyncPacket::SIZE];
    buf[0] = 0x13;
    match ClockSyncPacket::decode(&buf) {
        Err(oaat::error::OaatError::InvalidClockSyncType(t)) => assert_eq!(t, 3),
        other => panic!("unexpected {other:?}"),
    }
}

#[test]
fn offset_rounds_toward_zero_and_rtt_clamps() {
    // controller 100 ns ahead, 10 ns each way
    assert_eq!(ClockSyncPacket::compute_offset(1000, 1110, 1115, 1025), 100);
    // odd sum: -3 / 2 rounds toward zero
    assert_eq!(ClockSyncPacket::compute_offset(10, 9, 10, 12), -1);
    // responder holding time larger than total: clamped to zero
    assert_eq!(ClockSyncPacket::compute_rtt(0, 0, 10, 5), 0);
    assert_eq!(ClockSyncPacket::compute_rtt(100, 200, 410, 300), 0);
    // exact when non-negative
    assert_eq!(ClockSyncPacket::compute_rtt(1000, 1010, 1015, 1025), 20);
}

#[test]
fn packet_flags_bits() {
    let f = PacketFlags::first_packet().union(PacketFlags::format_change());
    assert_eq!(f.bits(), 0x09);
    assert!(f.contains(PacketFlags::first_packet()));
    assert!(!f.contains(PacketFlags::fec()));
    assert_eq!(PacketFlags::from_bits(0x10), None);
    assert_eq!(PacketFlags::from_bits(0x0F).map(|f| f.bits()), Some(0x0F));
    assert_eq!(PacketFlags::empty().bits(), 0);
}
