//! UDP wire format: the 32-byte audio packet header and the 28-byte clock
//! sync packet (all integers big-endian).

use crate::bytes_be::{
    be16, be32, be64, lemma_be16_roundtrip, lemma_be32_roundtrip, lemma_be64_roundtrip,
    lemma_from_be16_bytes, lemma_from_be32_bytes, lemma_from_be64_bytes, read_be16, read_be32,
    read_be64,
};
use crate::error::OaatError;
use crate::format::{AudioFormat, lemma_from_wire_id_inverse, lemma_wire_id_roundtrip, spec_from_wire_id, spec_wire_id};
use vstd::prelude::*;

verus! {

pub const AUDIO_HEADER_SIZE: usize = 32;

pub const CLOCK_SYNC_PACKET_SIZE: usize = 28;

/// The four-bit flag field of an audio packet header.
#[derive(Debug, Clone, Copy, PartialEq, Eq, Structural)]
pub struct PacketFlags {
    pub bits: u8,
}

impl View for PacketFlags {
    type V = u8;

    open spec fn view(&self) -> u8 {
        self.bits
    }
}

/// The bits that name a flag: first packet, last packet, FEC parity, format change.
pub open spec fn spec_known_flag_bits() -> u8 {
    0x0Fu8
}

impl PacketFlags {
    pub fn empty() -> (f: Self)
        ensures
            f@ == 0,
    {
        PacketFlags { bits: 0 }
    }

    pub fn first_packet() -> (f: Self)
        ensures
            f@ == 0x01,
    {
        PacketFlags { bits: 0x01 }
    }

    pub fn last_packet() -> (f: Self)
        ensures
            f@ == 0x02,
    {
        PacketFlags { bits: 0x02 }
    }

    pub fn fec() -> (f: Self)
        ensures
            f@ == 0x04,
    {
        PacketFlags { bits: 0x04 }
    }

    pub fn format_change() -> (f: Self)
        ensures
            f@ == 0x08,
    {
        PacketFlags { bits: 0x08 }
    }

    pub fn bits(self) -> (b: u8)
        ensures
            b == self@,
    {
        self.bits
    }

    /// The flags whose bits are `bits`, or `None` when a bit names no flag.
    pub fn from_bits(bits: u8) -> (f: Option<Self>)
        ensures
            (bits & !spec_known_flag_bits()) == 0 ==> f == Some(PacketFlags { bits }),
            (bits & !spec_known_flag_bits()) != 0 ==> f is None,
    {
        if bits & !0x0Fu8 == 0 {
            Some(PacketFlags { bits })
        } else {
            None
        }
    }

    /// The flags set in either operand.
    pub fn union(self, other: Self) -> (f: Self)
        ensures
            f@ == self@ | other@,
    {
        PacketFlags { bits: self.bits | other.bits }
    }

    /// True when every flag of `other` is set in `self`.
    pub fn contains(self, other: Self) -> (b: bool)
        ensures
            b == (self@ & other@ == other@),
    {
        self.bits & other.bits == other.bits
    }
}

/// Audio packet header (32 bytes, network byte order).
///
/// byte 0: version (high nibble) and flags (low nibble); byte 1: format;
/// bytes 2-3: sequence; 4-7: stream id; 8-15: presentation timestamp (ns);
/// 16-23: sample offset; 24-25: payload length; 26-31: reserved (zero).
#[derive(Debug, Clone, Copy, PartialEq, Eq, Structural)]
pub struct AudioPacketHeader {
    pub version: u8,
    pub flags: PacketFlags,
    pub format: AudioFormat,
    pub sequence: u16,
    pub stream_id: u32,
    pub pts_ns: u64,
    pub sample_offset: u64,
    pub payload_len: u16,
}

/// The bytes an audio header is written as.
pub open spec fn spec_header_bytes(h: AudioPacketHeader) -> Seq<u8> {
    seq![((h.version << 4u8) | h.flags@) as u8, spec_wire_id(h.format)] + be16(h.sequence) + be32(
        h.stream_id,
    ) + be64(h.pts_ns) + be64(h.sample_offset) + be16(h.payload_len) + seq![
        0u8,
        0u8,
        0u8,
        0u8,
        0u8,
        0u8,
    ]
}

/// What 32 header bytes decode to: an unknown format byte is the only
/// error, since every value of the four flag bits names a set of flags.
pub open spec fn spec_decode_header(b: Seq<u8>) -> Result<AudioPacketHeader, OaatError> {
    match spec_from_wire_id(b[1]) {
        Some(format) => Ok(
            AudioPacketHeader {
                version: b[0] >> 4u8,
                flags: PacketFlags { bits: b[0] & 0x0Fu8 },
                format,
                sequence: read_be16(b, 2),
                stream_id: read_be32(b, 4),
                pts_ns: read_be64(b, 8),
                sample_offset: read_be64(b, 16),
                payload_len: read_be16(b, 24),
            },
        ),
        None => Err(OaatError::UnknownFormat(b[1])),
    }
}

/// A header that survives the trip through its bytes: the version fits its
/// nibble and only known flags are set.
pub open spec fn spec_header_encodable(h: AudioPacketHeader) -> bool {
    h.version < 16 && h.flags@ & !spec_known_flag_bits() == 0
}

fn u16_be(v: u16) -> (r: (u8, u8))
    ensures
        seq![r.0, r.1] == be16(v),
{
    ((v >> 8u16) as u8, (v & 0xff) as u8)
}

fn u32_be(v: u32) -> (r: (u8, u8, u8, u8))
    ensures
        seq![r.0, r.1, r.2, r.3] == be32(v),
{
    ((v >> 24u32) as u8, ((v >> 16u32) & 0xff) as u8, ((v >> 8u32) & 0xff) as u8, (v & 0xff) as u8)
}

fn u64_be(v: u64) -> (r: [u8; 8])
    ensures
        r@ == be64(v),
{
    let r = [
        (v >> 56u64) as u8,
        ((v >> 48u64) & 0xff) as u8,
        ((v >> 40u64) & 0xff) as u8,
        ((v >> 32u64) & 0xff) as u8,
        ((v >> 24u64) & 0xff) as u8,
        ((v >> 16u64) & 0xff) as u8,
        ((v >> 8u64) & 0xff) as u8,
        (v & 0xff) as u8,
    ];
    assert(r@ =~= be64(v));
    r
}

fn read_u16_at(b: &[u8], i: usize) -> (v: u16)
    requires
        i + 2 <= b@.len(),
    ensures
        v == read_be16(b@, i as int),
{
    ((b[i] as u16) << 8u16) | (b[i + 1] as u16)
}

fn read_u32_at(b: &[u8], i: usize) -> (v: u32)
    requires
        i + 4 <= b@.len(),
    ensures
        v == read_be32(b@, i as int),
{
    ((b[i] as u32) << 24u32) | ((b[i + 1] as u32) << 16u32) | ((b[i + 2] as u32) << 8u32) | (b[i
        + 3] as u32)
}

fn read_u64_at(b: &[u8], i: usize) -> (v: u64)
    requires
        i + 8 <= b@.len(),
    ensures
        v == read_be64(b@, i as int),
{
    ((b[i] as u64) << 56u64) | ((b[i + 1] as u64) << 48u64) | ((b[i + 2] as u64) << 40u64) | ((b[i
        + 3] as u64) << 32u64) | ((b[i + 4] as u64) << 24u64) | ((b[i + 5] as u64) << 16u64) | ((b[i
        + 6] as u64) << 8u64) | (b[i + 7] as u64)
}

impl AudioPacketHeader {
    pub const CURRENT_VERSION: u8 = 1;

    /// Writes the header into `buf`.
    pub fn encode(&self, buf: &mut [u8; AUDIO_HEADER_SIZE])
        ensures
            final(buf)@ == spec_header_bytes(*self),
    {
        let ver_flags = (self.version << 4u8) | self.flags.bits();
        let (s0, s1) = u16_be(self.sequence);
        let (i0, i1, i2, i3) = u32_be(self.stream_id);
        let p = u64_be(self.pts_ns);
        let o = u64_be(self.sample_offset);
        let (l0, l1) = u16_be(self.payload_len);
        *buf = [
            ver_flags,
            self.format.wire_id(),
            s0,
            s1,
            i0,
            i1,
            i2,
            i3,
            p[0],
            p[1],
            p[2],
            p[3],
            p[4],
            p[5],
            p[6],
            p[7],
            o[0],
            o[1],
            o[2],
            o[3],
            o[4],
            o[5],
            o[6],
            o[7],
            l0,
            l1,
            0,
            0,
            0,
            0,
            0,
            0,
        ];
        assert(buf@ =~= spec_header_bytes(*self));
    }

    /// Reads a header from its 32 bytes.
    pub fn decode(buf: &[u8; AUDIO_HEADER_SIZE]) -> (r: Result<Self, OaatError>)
        ensures
            r == spec_decode_header(buf@),
    {
        let version = buf[0] >> 4u8;
        proof {
            let b0 = buf@[0];
            assert((b0 & 0x0Fu8) & !0x0Fu8 == 0) by (bit_vector);
        }
        let flags = match PacketFlags::from_bits(buf[0] & 0x0F) {
            Some(f) => f,
            None => {
                return Err(OaatError::InvalidPacketFlags(buf[0] & 0x0F));
            },
        };
        let format = match AudioFormat::from_wire_id(buf[1]) {
            Some(f) => f,
            None => {
                return Err(OaatError::UnknownFormat(buf[1]));
            },
        };
        let s: &[u8] = buf.as_slice();
        let sequence = read_u16_at(s, 2);
        let stream_id = read_u32_at(s, 4);
        let pts_ns = read_u64_at(s, 8);
        let sample_offset = read_u64_at(s, 16);
        let payload_len = read_u16_at(s, 24);
        Ok(
            Self {
                version,
                flags,
                format,
                sequence,
                stream_id,
                pts_ns,
                sample_offset,
                payload_len,
            },
        )
    }
}

/// Decoding the bytes of an encodable header gives the header back.
pub proof fn lemma_header_roundtrip(h: AudioPacketHeader)
    requires
        spec_header_encodable(h),
    ensures
        spec_header_bytes(h).len() == AUDIO_HEADER_SIZE,
        spec_decode_header(spec_header_bytes(h)) == Ok::<AudioPacketHeader, OaatError>(h),
{
    let b = spec_header_bytes(h);
    let v = h.version;
    let f = h.flags@;
    assert(((((v << 4u8) | f) as u8) >> 4u8) == v && ((((v << 4u8) | f) as u8) & 0x0Fu8) == f)
        by (bit_vector)
        requires
            v < 16,
            f & !0x0Fu8 == 0,
    ;
    lemma_wire_id_roundtrip(h.format);
    lemma_be16_roundtrip(h.sequence);
    lemma_be32_roundtrip(h.stream_id);
    lemma_be64_roundtrip(h.pts_ns);
    lemma_be64_roundtrip(h.sample_offset);
    lemma_be16_roundtrip(h.payload_len);
    assert(b[1] == spec_wire_id(h.format));
    assert(read_be16(b, 2) == h.sequence);
    assert(read_be32(b, 4) == h.stream_id);
    assert(read_be64(b, 8) == h.pts_ns);
    assert(read_be64(b, 16) == h.sample_offset);
    assert(read_be16(b, 24) == h.payload_len);
}

/// Bytes that decode re-encode to themselves, except that the six reserved
/// bytes come out zero.
pub proof fn lemma_header_bytes_roundtrip(b: Seq<u8>)
    requires
        b.len() == AUDIO_HEADER_SIZE,
        spec_decode_header(b) is Ok,
    ensures
        spec_header_bytes(spec_decode_header(b)->Ok_0) == b.take(26) + seq![
            0u8,
            0u8,
            0u8,
            0u8,
            0u8,
            0u8,
        ],
{
    let h = spec_decode_header(b)->Ok_0;
    let b0 = b[0];
    assert((((b0 >> 4u8) << 4u8) | (b0 & 0x0Fu8)) as u8 == b0) by (bit_vector);
    lemma_from_wire_id_inverse(b[1], h.format);
    lemma_from_be16_bytes(b[2], b[3]);
    lemma_from_be32_bytes(b[4], b[5], b[6], b[7]);
    lemma_from_be64_bytes(b[8], b[9], b[10], b[11], b[12], b[13], b[14], b[15]);
    lemma_from_be64_bytes(b[16], b[17], b[18], b[19], b[20], b[21], b[22], b[23]);
    lemma_from_be16_bytes(b[24], b[25]);
    assert(spec_header_bytes(h) =~= b.take(26) + seq![0u8, 0u8, 0u8, 0u8, 0u8, 0u8]);
}


/// Direction of a clock sync packet.
#[derive(Debug, Clone, Copy, PartialEq, Eq, Structural)]
pub enum ClockSyncType {
    Request,
    Response,
}

pub open spec fn spec_sync_type_code(k: ClockSyncType) -> u8 {
    match k {
        ClockSyncType::Request => 0x01,
        ClockSyncType::Response => 0x02,
    }
}

impl ClockSyncType {
    /// The four-bit code of the type on the wire.
    pub fn code(self) -> (c: u8)
        ensures
            c == spec_sync_type_code(self),
    {
        match self {
            ClockSyncType::Request => 0x01,
            ClockSyncType::Response => 0x02,
        }
    }
}

/// Clock sync packet (28 bytes): version (high nibble) and type (low
/// nibble), a reserved byte, the sequence and the three timestamps.
#[derive(Debug, Clone, Copy, PartialEq, Eq, Structural)]
pub struct ClockSyncPacket {
    pub version: u8,
    pub kind: ClockSyncType,
    pub sequence: u16,
    pub t1: u64,
    pub t2: u64,
    pub t3: u64,
}

pub open spec fn spec_sync_bytes(p: ClockSyncPacket) -> Seq<u8> {
    seq![((p.version << 4u8) | spec_sync_type_code(p.kind)) as u8, 0u8] + be16(p.sequence) + be64(
        p.t1,
    ) + be64(p.t2) + be64(p.t3)
}

pub open spec fn spec_decode_sync(b: Seq<u8>) -> Result<ClockSyncPacket, OaatError> {
    let code = b[0] & 0x0Fu8;
    if code == 0x01 || code == 0x02 {
        Ok(
            ClockSyncPacket {
                version: b[0] >> 4u8,
                kind: if code == 0x01 {
                    ClockSyncType::Request
                } else {
                    ClockSyncType::Response
                },
                sequence: read_be16(b, 2),
                t1: read_be64(b, 4),
                t2: read_be64(b, 12),
                t3: read_be64(b, 20),
            },
        )
    } else {
        Err(OaatError::InvalidClockSyncType(code))
    }
}

/// The value of a `u64` reinterpreted as a two's-complement `i64`.
pub open spec fn as_i64_int(t: u64) -> int {
    if t <= 0x7fff_ffff_ffff_ffff {
        t as int
    } else {
        t - 0x1_0000_0000_0000_0000
    }
}

/// Integer division rounding toward zero.
pub open spec fn div_toward_zero(x: int, d: int) -> int {
    if x >= 0 {
        x / d
    } else {
        -((-x) / d)
    }
}

/// Offset of the controller clock over the local clock, from the four
/// timestamps read as two's-complement values.
pub open spec fn spec_offset(t1: u64, t2: u64, t3: u64, t4: u64) -> int {
    div_toward_zero((as_i64_int(t2) - as_i64_int(t1)) + (as_i64_int(t3) - as_i64_int(t4)), 2)
}

/// The inputs on which the offset computation stays within `i64`.
pub open spec fn spec_offset_in_range(t1: u64, t2: u64, t3: u64, t4: u64) -> bool {
    let a = as_i64_int(t2) - as_i64_int(t1);
    let b = as_i64_int(t3) - as_i64_int(t4);
    &&& i64::MIN <= a <= i64::MAX
    &&& i64::MIN <= b <= i64::MAX
    &&& i64::MIN <= a + b <= i64::MAX
}

/// Round trip time: total elapsed minus the responder's holding time, modulo 2^64.
/// Round-trip delay `(t4 - t1) - (t3 - t2)`, clamped to 0 when measurement
/// noise makes it negative, and to `u64::MAX` above.
pub open spec fn spec_rtt(t1: u64, t2: u64, t3: u64, t4: u64) -> int {
    let d = (t4 - t1) - (t3 - t2);
    if d < 0 {
        0
    } else if d > u64::MAX {
        u64::MAX as int
    } else {
        d
    }
}

proof fn lemma_cast_i64(t: u64)
    ensures
        (t as i64) as int == as_i64_int(t),
{
    if t > 0x7fff_ffff_ffff_ffff {
        assert((t as i64) as int == t - 0x1_0000_0000_0000_0000) by (bit_vector)
            requires
                t > 0x7fff_ffff_ffff_ffff,
        ;
    }
}

impl ClockSyncPacket {
    pub const SIZE: usize = 28;

    pub fn encode(&self, buf: &mut [u8; CLOCK_SYNC_PACKET_SIZE])
        ensures
            final(buf)@ == spec_sync_bytes(*self),
    {
        let ver_type = (self.version << 4u8) | self.kind.code();
        let (s0, s1) = u16_be(self.sequence);
        let a = u64_be(self.t1);
        let b = u64_be(self.t2);
        let c = u64_be(self.t3);
        *buf = [
            ver_type,
            0,
            s0,
            s1,
            a[0],
            a[1],
            a[2],
            a[3],
            a[4],
            a[5],
            a[6],
            a[7],
            b[0],
            b[1],
            b[2],
            b[3],
            b[4],
            b[5],
            b[6],
            b[7],
            c[0],
            c[1],
            c[2],
            c[3],
            c[4],
            c[5],
            c[6],
            c[7],
        ];
        assert(buf@ =~= spec_sync_bytes(*self));
    }

    pub fn decode(buf: &[u8; CLOCK_SYNC_PACKET_SIZE]) -> (r: Result<Self, OaatError>)
        ensures
            r == spec_decode_sync(buf@),
    {
        let version = buf[0] >> 4u8;
        let kind = match buf[0] & 0x0F {
            0x01 => ClockSyncType::Request,
            0x02 => ClockSyncType::Response,
            other => {
                return Err(OaatError::InvalidClockSyncType(other));
            },
        };
        let s: &[u8] = buf.as_slice();
        let sequence = read_u16_at(s, 2);
        let t1 = read_u64_at(s, 4);
        let t2 = read_u64_at(s, 12);
        let t3 = read_u64_at(s, 20);
        Ok(Self { version, kind, sequence, t1, t2, t3 })
    }

    /// `((t2 - t1) + (t3 - t4)) / 2` on the timestamps read as `i64`,
    /// rounded toward zero.
    pub fn compute_offset(t1: u64, t2: u64, t3: u64, t4: u64) -> (off: i64)
        requires
            spec_offset_in_range(t1, t2, t3, t4),
        ensures
            off == spec_offset(t1, t2, t3, t4),
    {
        proof {
            lemma_cast_i64(t1);
            lemma_cast_i64(t2);
            lemma_cast_i64(t3);
            lemma_cast_i64(t4);
        }
        let a = t2 as i64 - t1 as i64;
        let b = t3 as i64 - t4 as i64;
        (a + b) / 2
    }

    /// Round-trip delay `(t4 - t1) - (t3 - t2)`, clamped to 0: measurement
    /// noise on a near-zero round trip can make it transiently negative.
    pub fn compute_rtt(t1: u64, t2: u64, t3: u64, t4: u64) -> (rtt: u64)
        ensures
            rtt == spec_rtt(t1, t2, t3, t4),
    {
        let d: i128 = (t4 as i128 - t1 as i128) - (t3 as i128 - t2 as i128);
        if d < 0 {
            0
        } else if d > u64::MAX as i128 {
            u64::MAX
        } else {
            d as u64
        }
    }
}

/// Decoding the bytes of a packet whose version fits its nibble gives the
/// packet back.
pub proof fn lemma_sync_roundtrip(p: ClockSyncPacket)
    requires
        p.version < 16,
    ensures
        spec_sync_bytes(p).len() == CLOCK_SYNC_PACKET_SIZE,
        spec_decode_sync(spec_sync_bytes(p)) == Ok::<ClockSyncPacket, OaatError>(p),
{
    let b = spec_sync_bytes(p);
    let v = p.version;
    let c = spec_sync_type_code(p.kind);
    assert(((((v << 4u8) | c) as u8) >> 4u8) == v && ((((v << 4u8) | c) as u8) & 0x0Fu8) == c)
        by (bit_vector)
        requires
            v < 16,
            c < 16,
    ;
    lemma_be16_roundtrip(p.sequence);
    lemma_be64_roundtrip(p.t1);
    lemma_be64_roundtrip(p.t2);
    lemma_be64_roundtrip(p.t3);
    assert(read_be16(b, 2) == p.sequence);
    assert(read_be64(b, 4) == p.t1);
    assert(read_be64(b, 12) == p.t2);
    assert(read_be64(b, 20) == p.t3);
}

/// With symmetric path delays the measured offset is the true clock
/// difference: if the controller clock reads `d` more than the local clock
/// and the request and response take the same time `delay`, with the
/// controller holding the request for `hold`, the offset is `d`. This holds
/// for every set of stamps that are non-negative `i64` values, Unix-epoch
/// nanoseconds included, and, for any clock difference whose double fits
/// in an `i64`, those stamps are in range for `compute_offset`.
pub proof fn lemma_offset_symmetric_delay(t1: u64, d: int, delay: int, hold: int)
    requires
        t1 <= i64::MAX,
        i64::MIN <= 2 * d <= i64::MAX,
        delay >= 0,
        hold >= 0,
        0 <= t1 + d + delay,
        t1 + d + delay + hold <= i64::MAX,
        t1 + delay + hold + delay <= i64::MAX,
    ensures
        spec_offset_in_range(
            t1,
            (t1 + d + delay) as u64,
            (t1 + d + delay + hold) as u64,
            (t1 + delay + hold + delay) as u64,
        ),
        spec_offset(
            t1,
            (t1 + d + delay) as u64,
            (t1 + d + delay + hold) as u64,
            (t1 + delay + hold + delay) as u64,
        ) == d,
{
    let s = (d + delay) + (d - delay);
    assert(s == 2 * d);
    if s >= 0 {
        assert((2 * d) / 2 == d);
    } else {
        assert((-(2 * d)) / 2 == -d);
    }
}

/// The offset is half the sum of the two one-way differences, rounded
/// toward zero, for all stamps that are non-negative `i64` values: twice
/// the offset is the sum itself or one closer to zero.
pub proof fn lemma_offset_halves_the_legs(t1: u64, t2: u64, t3: u64, t4: u64)
    requires
        t1 <= i64::MAX,
        t2 <= i64::MAX,
        t3 <= i64::MAX,
        t4 <= i64::MAX,
    ensures
        ({
            let s = (t2 - t1) + (t3 - t4);
            let off = spec_offset(t1, t2, t3, t4);
            &&& s >= 0 ==> 2 * off == s || 2 * off == s - 1
            &&& s < 0 ==> 2 * off == s || 2 * off == s + 1
        }),
{
}

} // verus!
