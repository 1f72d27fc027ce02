//! Output-path decisions of the endpoint: sample layouts in the ring
//! buffer, exact sample-width adaptation, software volume, drift
//! correction by dropping or duplicating whole frames, and the choice of
//! the device sample type.

use crate::format::AudioFormat;
use vstd::arithmetic::power2::pow2;
use vstd::prelude::*;

verus! {

// ------------------------------------------------------------ ring layout

/// Sample layout of the bytes stored in the ring buffer.
#[derive(Debug, Clone, Copy, PartialEq, Eq, Structural)]
pub enum RingFormat {
    S16,
    S24,
    S24In32,
    S32,
    F32,
}

pub open spec fn spec_ring_bytes_per_sample(r: RingFormat) -> usize {
    match r {
        RingFormat::S16 => 2,
        RingFormat::S24 => 3,
        _ => 4,
    }
}

pub open spec fn spec_ring_of(f: AudioFormat) -> RingFormat {
    match f {
        AudioFormat::PcmS16le => RingFormat::S16,
        AudioFormat::PcmS24le => RingFormat::S24,
        AudioFormat::PcmS24le4 => RingFormat::S24In32,
        AudioFormat::PcmS32le => RingFormat::S32,
        _ => RingFormat::F32,
    }
}

/// Two's-complement value of little-endian bytes.
pub open spec fn le_signed16(b0: u8, b1: u8) -> int {
    let u = b0 + 256 * b1;
    if u >= 0x8000 {
        u - 0x1_0000
    } else {
        u
    }
}

pub open spec fn le_signed24(b0: u8, b1: u8, b2: u8) -> int {
    let u = b0 + 256 * b1 + 65536 * b2;
    if u >= 0x80_0000 {
        u - 0x100_0000
    } else {
        u
    }
}

pub open spec fn le_signed32(b0: u8, b1: u8, b2: u8, b3: u8) -> int {
    let u = b0 + 256 * b1 + 65536 * b2 + 16777216 * b3;
    if u >= 0x8000_0000 {
        u - 0x1_0000_0000
    } else {
        u
    }
}

/// `x` reduced into the `i32` range modulo 2^32.
pub open spec fn wrap_i32(x: int) -> int {
    let m = x % 0x1_0000_0000;
    if m >= 0x8000_0000 {
        m - 0x1_0000_0000
    } else {
        m
    }
}

pub open spec fn le_unsigned32(b0: u8, b1: u8, b2: u8, b3: u8) -> int {
    b0 + 256 * b1 + 65536 * b2 + 16777216 * b3
}

/// `floor(|x| * 2^31)` for a finite single-precision `x` with `|x| < 1`,
/// given its biased exponent (below 127) and its 23 fraction bits. A
/// normal value is `(2^23 + fraction) * 2^(exponent - 150)`; a subnormal
/// (exponent 0) is below 2^-126 and scales to less than one.
pub open spec fn f32_scaled_magnitude(exponent: int, fraction: int) -> int {
    if exponent == 0 {
        0
    } else if exponent >= 119 {
        (fraction + 0x80_0000) * pow2((exponent - 119) as nat)
    } else {
        (fraction + 0x80_0000) / (pow2((119 - exponent) as nat) as int)
    }
}

/// A float sample, given by its IEEE 754 single-precision bit pattern,
/// clamped to [-1, 1], scaled by 2^31, truncated toward zero and saturated
/// to the `i32` range: -1 gives `i32::MIN`, +1 gives `i32::MAX`, and
/// not-a-number gives 0.
pub open spec fn spec_f32_sample_to_i32(bits: int) -> int {
    let exponent = (bits / 0x80_0000) % 256;
    let fraction = bits % 0x80_0000;
    let negative = bits >= 0x8000_0000;
    if exponent == 255 && fraction != 0 {
        0
    } else if exponent >= 127 {
        if negative {
            i32::MIN as int
        } else {
            i32::MAX as int
        }
    } else if negative {
        -f32_scaled_magnitude(exponent, fraction)
    } else {
        f32_scaled_magnitude(exponent, fraction)
    }
}

/// One ring sample, left-justified to 32 bits.
pub open spec fn spec_to_i32(r: RingFormat, b: Seq<u8>) -> int {
    match r {
        RingFormat::S16 => le_signed16(b[0], b[1]) * 65536,
        RingFormat::S24 => le_signed24(b[0], b[1], b[2]) * 256,
        RingFormat::S24In32 => wrap_i32(le_signed32(b[0], b[1], b[2], b[3]) * 256),
        RingFormat::S32 => le_signed32(b[0], b[1], b[2], b[3]),
        RingFormat::F32 => spec_f32_sample_to_i32(le_unsigned32(b[0], b[1], b[2], b[3])),
    }
}

fn le_u32(b0: u8, b1: u8, b2: u8, b3: u8) -> (v: u32)
    ensures
        v == b0 + 256 * b1 + 65536 * b2 + 16777216 * b3,
{
    let v = (b0 as u32) | ((b1 as u32) << 8u32) | ((b2 as u32) << 16u32) | ((b3 as u32) << 24u32);
    assert(v == b0 + 256 * b1 + 65536 * b2 + 16777216 * b3) by (bit_vector)
        requires
            v == (b0 as u32) | ((b1 as u32) << 8u32) | ((b2 as u32) << 16u32) | ((b3 as u32)
                << 24u32),
    ;
    v
}

proof fn lemma_u32_as_i32(u: u32)
    ensures
        (u as i32) as int == (if u >= 0x8000_0000 {
            u - 0x1_0000_0000
        } else {
            u as int
        }),
{
    if u >= 0x8000_0000 {
        assert((u as i32) as int == u - 0x1_0000_0000) by (bit_vector)
            requires
                u >= 0x8000_0000,
        ;
    }
}

proof fn lemma_u32_as_i32_wrap(x: int, u: u32)
    requires
        u == x % 0x1_0000_0000,
    ensures
        (u as i32) as int == wrap_i32(x),
{
    lemma_u32_as_i32(u);
}

impl RingFormat {
    pub fn bytes_per_sample(self) -> (n: usize)
        ensures
            n == spec_ring_bytes_per_sample(self),
    {
        match self {
            RingFormat::S16 => 2,
            RingFormat::S24 => 3,
            RingFormat::S24In32 | RingFormat::S32 | RingFormat::F32 => 4,
        }
    }

    /// Ring layout of a wire format: PCM stays native, everything else
    /// (FLAC, DSD) is decoded to normalized 32-bit float.
    pub fn of(format: AudioFormat) -> (r: Self)
        ensures
            r == spec_ring_of(format),
    {
        match format {
            AudioFormat::PcmS16le => RingFormat::S16,
            AudioFormat::PcmS24le => RingFormat::S24,
            AudioFormat::PcmS24le4 => RingFormat::S24In32,
            AudioFormat::PcmS32le => RingFormat::S32,
            _ => RingFormat::F32,
        }
    }

    /// Decodes one sample to `i32`, left-justified to 32 bits: 16-bit
    /// samples are multiplied by 2^16, 24-bit ones by 2^8 (exact), 32-bit
    /// samples pass through, and a float sample in [-1, 1] is scaled by
    /// 2^31, which is exact for power-of-two normalized sources.
    pub fn to_i32(self, b: &[u8]) -> (v: i32)
        requires
            b@.len() >= spec_ring_bytes_per_sample(self),
        ensures
            v == spec_to_i32(self, b@),
    {
        match self {
            RingFormat::S16 => {
                let sign: u8 = if b[1] & 0x80 != 0 {
                    0xFF
                } else {
                    0
                };
                let u = le_u32(b[0], b[1], sign, sign);
                proof {
                    let b1 = b@[1];
                    assert((b1 & 0x80u8 != 0) == (b1 >= 0x80)) by (bit_vector);
                    lemma_u32_as_i32(u);
                }
                let s = u as i32;
                proof {
                    assert(s == le_signed16(b@[0], b@[1]));
                    let ss = s;
                    assert(ss * 65536 <= i32::MAX && ss * 65536 >= i32::MIN) by (nonlinear_arith)
                        requires
                            -32768 <= ss <= 32767,
                    ;
                }
                s * 65536
            },
            RingFormat::S24 => {
                let sign: u8 = if b[2] & 0x80 != 0 {
                    0xFF
                } else {
                    0
                };
                let u = le_u32(b[0], b[1], b[2], sign);
                proof {
                    let b2 = b@[2];
                    assert((b2 & 0x80u8 != 0) == (b2 >= 0x80)) by (bit_vector);
                    lemma_u32_as_i32(u);
                }
                let s = u as i32;
                proof {
                    assert(s == le_signed24(b@[0], b@[1], b@[2]));
                }
                s * 256
            },
            RingFormat::S24In32 => {
                let u = le_u32(b[0], b[1], b[2], b[3]);
                let shifted = u << 8u32;
                proof {
                    assert(shifted == (u as int * 256) % 0x1_0000_0000) by (bit_vector)
                        requires
                            shifted == u << 8u32,
                    ;
                    lemma_u32_as_i32(u);
                    let s = le_signed32(b@[0], b@[1], b@[2], b@[3]);
                    assert((u as int * 256) % 0x1_0000_0000 == (s * 256) % 0x1_0000_0000) by {
                        if u >= 0x8000_0000 {
                            vstd::arithmetic::div_mod::lemma_mod_multiples_vanish(
                                -256,
                                u as int * 256,
                                0x1_0000_0000,
                            );
                            assert(s * 256 == u as int * 256 + (-256) * 0x1_0000_0000);
                        }
                    }
                    lemma_u32_as_i32_wrap(s * 256, shifted);
                }
                shifted as i32
            },
            RingFormat::S32 => {
                let u = le_u32(b[0], b[1], b[2], b[3]);
                proof {
                    lemma_u32_as_i32(u);
                }
                u as i32
            },
            RingFormat::F32 => f32_bits_to_i32(le_u32(b[0], b[1], b[2], b[3])),
        }
    }
}

/// The float sample with bit pattern `bits`, scaled as `RingFormat::to_i32`
/// describes, computed on the bits alone.
fn f32_bits_to_i32(bits: u32) -> (v: i32)
    ensures
        v == spec_f32_sample_to_i32(bits as int),
{
    let exponent: u32 = (bits >> 23u32) & 0xFFu32;
    let fraction: u32 = bits & 0x7F_FFFFu32;
    proof {
        assert(exponent == (bits / 0x80_0000) % 256) by (bit_vector)
            requires
                exponent == (bits >> 23u32) & 0xFFu32,
        ;
        assert(fraction == bits % 0x80_0000) by (bit_vector)
            requires
                fraction == bits & 0x7F_FFFFu32,
        ;
    }
    let negative = bits >= 0x8000_0000u32;
    if exponent == 255 && fraction != 0 {
        0
    } else if exponent >= 127 {
        if negative {
            i32::MIN
        } else {
            i32::MAX
        }
    } else if exponent == 0 {
        0
    } else {
        let mantissa: u32 = fraction | 0x80_0000u32;
        proof {
            assert(mantissa == fraction + 0x80_0000) by (bit_vector)
                requires
                    mantissa == fraction | 0x80_0000u32,
                    fraction < 0x80_0000,
            ;
            vstd::arithmetic::power2::lemma2_to64();
        }
        let magnitude: u32 = if exponent >= 119 {
            let k: u32 = exponent - 119;
            proof {
                let p = pow2(k as nat);
                assert(p <= 128) by {
                    if k < 7 {
                        vstd::arithmetic::power2::lemma_pow2_strictly_increases(k as nat, 7);
                    }
                }
                assert(mantissa * p < 0x8000_0000) by (nonlinear_arith)
                    requires
                        mantissa < 0x100_0000,
                        p <= 128,
                ;
                vstd::bits::lemma_u32_shl_is_mul(mantissa, k);
            }
            mantissa << k
        } else {
            let k: u32 = 119 - exponent;
            if k >= 32 {
                proof {
                    vstd::arithmetic::power2::lemma_pow2_strictly_increases(24, k as nat);
                    let p = pow2(k as nat) as int;
                    vstd::arithmetic::div_mod::lemma_basic_div(mantissa as int, p);
                }
                0
            } else {
                proof {
                    vstd::bits::lemma_u32_shr_is_div(mantissa, k);
                }
                let m = mantissa >> k;
                assert(m <= mantissa) by (bit_vector)
                    requires
                        m == mantissa >> k,
                ;
                m
            }
        };
        assert(magnitude == f32_scaled_magnitude(exponent as int, fraction as int));
        if negative {
            -(magnitude as i32)
        } else {
            magnitude as i32
        }
    }
}

// --------------------------------------------------- sample-width adaptation

/// Packed 24-bit samples widened to 32-bit words with the 24 significant
/// bits in the high bytes: each complete 3-byte sample `a b c` becomes
/// `0 a b c`; a trailing partial sample is dropped.
pub open spec fn spec_pad_s24(data: Seq<u8>) -> Seq<u8> {
    Seq::new(
        ((data.len() / 3) * 4) as nat,
        |j: int|
            if j % 4 == 0 {
                0u8
            } else {
                data[(j / 4) * 3 + j % 4 - 1]
            },
    )
}

/// Expands packed S24_LE into left-justified S32_LE (value × 256), which
/// hardware that refuses S24_LE accepts; bit-perfect, since the low byte is
/// zero-filled.
pub fn pad_s24_to_s32(data: &[u8]) -> (out: Vec<u8>)
    ensures
        out@ == spec_pad_s24(data@),
{
    let n = data.len() / 3;
    let mut out: Vec<u8> = Vec::new();
    let mut i: usize = 0;
    let mut j: usize = 0;
    proof {
        vstd::arithmetic::div_mod::lemma_fundamental_div_mod(data@.len() as int, 3);
        vstd::arithmetic::div_mod::lemma_mod_bound(data@.len() as int, 3);
    }
    while i < n
        invariant
            n == data@.len() / 3,
            n * 3 <= data@.len(),
            i <= n,
            j == 3 * i,
            out@ =~= spec_pad_s24(data@).take((i * 4) as int),
        decreases n - i,
    {
        out.push(0);
        out.push(data[j]);
        out.push(data[j + 1]);
        out.push(data[j + 2]);
        proof {
            let t = spec_pad_s24(data@);
            assert forall|k: int| 0 <= k < (i + 1) * 4 implies out@[k] == t[k] by {
                if k >= i * 4 {
                    assert(k / 4 == i);
                }
            }
            assert(out@ =~= t.take(((i + 1) * 4) as int));
        }
        i += 1;
        j += 3;
    }
    assert(spec_pad_s24(data@).take((n * 4) as int) =~= spec_pad_s24(data@));
    out
}

/// Bit-perfect widening: a 24-bit sample padded to 32 bits reads back, as
/// an `i32`, as the sign-extended 24-bit value times 256.
pub proof fn lemma_pad_is_shift(a: u8, b: u8, c: u8)
    ensures
        le_signed32(0u8, a, b, c) == le_signed24(a, b, c) * 256,
{
}

// ------------------------------------------------------------- ALSA formats

pub open spec fn spec_format_to_alsa(f: AudioFormat) -> Option<Seq<char>> {
    match f {
        AudioFormat::PcmS16le => Some("S16_LE"@),
        AudioFormat::PcmS24le => Some("S32_LE"@),
        AudioFormat::PcmS24le4 => Some("S24_LE"@),
        AudioFormat::PcmS32le => Some("S32_LE"@),
        AudioFormat::PcmF32le => Some("FLOAT_LE"@),
        _ => None,
    }
}

/// The ALSA sample format the player is opened with. Packed S24 is widened
/// to S32_LE before writing, so it maps to S32_LE.
pub fn format_to_alsa(format: AudioFormat) -> (r: Option<&'static str>)
    ensures
        match spec_format_to_alsa(format) {
            Some(n) => r is Some && r->0@ == n,
            None => r is None,
        },
{
    match format {
        AudioFormat::PcmS16le => Some("S16_LE"),
        AudioFormat::PcmS24le => Some("S32_LE"),
        AudioFormat::PcmS24le4 => Some("S24_LE"),
        AudioFormat::PcmS32le => Some("S32_LE"),
        AudioFormat::PcmF32le => Some("FLOAT_LE"),
        _ => None,
    }
}

pub open spec fn spec_bytes_per_frame(format: AudioFormat, channels: u8) -> int {
    let bps: int = match format {
        AudioFormat::PcmS16le => 2,
        AudioFormat::PcmS24le => 3,
        AudioFormat::PcmS24le4 | AudioFormat::PcmS32le | AudioFormat::PcmF32le => 4,
        _ => 2,
    };
    bps * (if channels == 0 {
        1
    } else {
        channels as int
    })
}

/// Frames an output reports for `len` bytes it accepted: FLAC counts four
/// bytes a frame, PCM whole frames.
pub fn frames_written(format: AudioFormat, channels: u8, len: usize) -> (n: usize)
    ensures
        format == AudioFormat::Flac ==> n == len / 4,
        format != AudioFormat::Flac ==> n as int == len as int / spec_bytes_per_frame(format, channels),
{
    if format == AudioFormat::Flac {
        len / 4
    } else {
        let bpf = bytes_per_frame(format, channels);
        assert(bpf > 0) by (nonlinear_arith)
            requires
                bpf == spec_bytes_per_frame(format, channels),
                spec_bytes_per_frame(format, channels) >= 2 * 1,
        {
        }
        len / bpf
    }
}

/// Bytes of one frame on the wire (non-PCM formats count 2 bytes a sample;
/// zero channels count as one).
pub fn bytes_per_frame(format: AudioFormat, channels: u8) -> (n: usize)
    ensures
        n == spec_bytes_per_frame(format, channels),
{
    let bps: usize = match format {
        AudioFormat::PcmS16le => 2,
        AudioFormat::PcmS24le => 3,
        AudioFormat::PcmS24le4 | AudioFormat::PcmS32le | AudioFormat::PcmF32le => 4,
        _ => 2,
    };
    let ch: usize = if channels == 0 {
        1
    } else {
        channels as usize
    };
    bps * ch
}

/// Container width, in DSD multiples, assumed for each DSD format.
pub fn dsd_rate_multiplier(format: AudioFormat) -> (m: u32)
    ensures
        m == (match format {
            AudioFormat::DsdU16le => 128u32,
            AudioFormat::DsdU32le => 256u32,
            _ => 64u32,
        }),
{
    match format {
        AudioFormat::DsdU8 => 64,
        AudioFormat::DsdU16le => 128,
        AudioFormat::DsdU32le => 256,
        _ => 64,
    }
}

// ------------------------------------------------------------------ volume

/// Volume level (0-100) as permille, capped at 1000.
pub fn volume_permille(level: u8) -> (v: u32)
    ensures
        v == (if level >= 100 {
            1000
        } else {
            (level as int * 1000) / 100
        }),
{
    let scaled = (level as u32 * 1000) / 100;
    if scaled > 1000 {
        1000
    } else {
        scaled
    }
}

/// Division rounding toward zero.
pub open spec fn div_trunc(x: int, d: int) -> int {
    if x >= 0 {
        x / d
    } else {
        -((-x) / d)
    }
}

/// Software volume on a 16-bit sample: passthrough at unity (1000),
/// otherwise sample × volume / 1000 rounded toward zero.
pub fn scale_i16(s: i16, vol: u32) -> (r: i16)
    requires
        vol <= 1000,
    ensures
        vol == 1000 ==> r == s,
        r == div_trunc(s * vol, 1000),
{
    if vol == 1000 {
        return s;
    }
    proof {
        assert(-32768 * 1000 <= s * vol <= 32767 * 1000) by (nonlinear_arith)
            requires
                -32768 <= s <= 32767,
                0 <= vol <= 1000,
        ;
    }
    let p = s as i64 * vol as i64;
    proof {
        assert(-32768 <= div_trunc(p as int, 1000) <= 32767);
    }
    (p / 1000) as i16
}

/// Software volume on a 32-bit sample, as for 16-bit samples.
pub fn scale_i32(s: i32, vol: u32) -> (r: i32)
    requires
        vol <= 1000,
    ensures
        vol == 1000 ==> r == s,
        r == div_trunc(s * vol, 1000),
{
    if vol == 1000 {
        return s;
    }
    proof {
        assert(-2147483648 * 1000 <= s * vol <= 2147483647 * 1000) by (nonlinear_arith)
            requires
                -2147483648 <= s <= 2147483647,
                0 <= vol <= 1000,
        ;
    }
    let p = s as i64 * vol as i64;
    proof {
        assert(-2147483648 <= div_trunc(p as int, 1000) <= 2147483647);
    }
    (p / 1000) as i32
}

/// Software volume never raises a sample's magnitude.
pub proof fn lemma_volume_attenuates(s: int, vol: int)
    requires
        0 <= vol <= 1000,
    ensures
        div_trunc(s * vol, 1000) <= if s >= 0 {
            s
        } else {
            -s
        },
        -div_trunc(s * vol, 1000) <= if s >= 0 {
            s
        } else {
            -s
        },
{
    if s >= 0 {
        assert(s * vol <= s * 1000) by (nonlinear_arith)
            requires
                s >= 0,
                vol <= 1000,
        ;
        assert(s * vol >= 0) by (nonlinear_arith)
            requires
                s >= 0,
                vol >= 0,
        ;
    } else {
        assert((-s) * vol <= (-s) * 1000) by (nonlinear_arith)
            requires
                s < 0,
                vol <= 1000,
        ;
        assert((-s) * vol >= 0) by (nonlinear_arith)
            requires
                s < 0,
                vol >= 0,
        ;
        assert(-(s * vol) == (-s) * vol) by (nonlinear_arith);
    }
}

// ------------------------------------------------------- output sample type

/// Which sample types the device advertises.
#[derive(Debug, Clone, Copy, Default)]
pub struct DeviceSampleSupport {
    pub float: bool,
    pub int16: bool,
    pub int32: bool,
}

/// The sample type the output stream is opened with.
#[derive(Debug, Clone, Copy, PartialEq, Eq, Structural)]
pub enum OutKind {
    I16,
    I32,
    F32,
}

pub open spec fn spec_out_kind(ring: RingFormat, support: DeviceSampleSupport) -> OutKind {
    if ring == RingFormat::S16 && support.int16 {
        OutKind::I16
    } else if ring != RingFormat::F32 && support.int32 {
        OutKind::I32
    } else if support.float {
        OutKind::F32
    } else if support.int32 {
        OutKind::I32
    } else {
        OutKind::I16
    }
}

/// Picks the output sample type that preserves the negotiated samples: the
/// matching integer type when the device offers it, else float (exact for
/// up to 24 significant bits), else what is left. The flag tells whether
/// the path is bit-exact: an integer stream, or a float ring played as float.
pub fn select_output_kind(ring: RingFormat, support: DeviceSampleSupport) -> (r: (OutKind, bool))
    ensures
        r.0 == spec_out_kind(ring, support),
        r.1 == (r.0 != OutKind::F32 || ring == RingFormat::F32),
{
    let kind = if ring == RingFormat::S16 && support.int16 {
        OutKind::I16
    } else if ring != RingFormat::F32 && support.int32 {
        OutKind::I32
    } else if support.float {
        OutKind::F32
    } else if support.int32 {
        OutKind::I32
    } else {
        OutKind::I16
    };
    let integer_out = kind != OutKind::F32 || ring == RingFormat::F32;
    (kind, integer_out)
}

/// Whether the device offers a sample type.
pub open spec fn offers(support: DeviceSampleSupport, k: OutKind) -> bool {
    match k {
        OutKind::I16 => support.int16,
        OutKind::I32 => support.int32,
        OutKind::F32 => support.float,
    }
}

/// The output type keeps the samples whenever the device allows it:
/// - 16-bit samples go out as 16-bit when the device takes them;
/// - any other integer samples (and 16-bit ones without a 16-bit output)
///   go out as 32-bit when the device takes that, so every integer stream
///   on a 32-bit device is bit-exact;
/// - float samples go out as float when the device takes float;
/// - in every case the type chosen is one the device offers, when it
///   offers any.
pub proof fn lemma_output_kind_keeps_samples(ring: RingFormat, support: DeviceSampleSupport)
    ensures
        ring == RingFormat::S16 && support.int16 ==> spec_out_kind(ring, support) == OutKind::I16,
        ring != RingFormat::F32 && !(ring == RingFormat::S16 && support.int16) && support.int32
            ==> spec_out_kind(ring, support) == OutKind::I32,
        ring != RingFormat::F32 && support.int32 ==> spec_out_kind(ring, support)
            != OutKind::F32,
        ring == RingFormat::F32 && support.float ==> spec_out_kind(ring, support)
            == OutKind::F32,
        (support.int16 || support.int32 || support.float) ==> offers(
            support,
            spec_out_kind(ring, support),
        ),
{
}

// --------------------------------------------------------- drift correction

/// Above this pending deficit the whole deficit is dropped at once (~25 ms
/// at 48 kHz).
pub const JUMP_THRESHOLD_FRAMES: i64 = 1200;

/// At most this many frames are dropped or duplicated per write otherwise.
pub const MAX_CORRECTION_FRAMES_PER_WRITE: i64 = 2;

pub open spec fn min_i(a: int, b: int) -> int {
    if a <= b {
        a
    } else {
        b
    }
}

/// Frames to adjust on a write of `frames_in` frames with `pending` frames
/// of correction queued: positive drops frames, negative duplicates the
/// first frame.
pub open spec fn spec_adjustment(pending: int, frames_in: int) -> int {
    if pending > JUMP_THRESHOLD_FRAMES && frames_in > 0 {
        min_i(pending, frames_in)
    } else if pending > 0 && frames_in > 1 {
        min_i(min_i(pending, MAX_CORRECTION_FRAMES_PER_WRITE as int), frames_in - 1)
    } else if pending < 0 && frames_in >= 1 {
        -min_i(-pending, MAX_CORRECTION_FRAMES_PER_WRITE as int)
    } else {
        0
    }
}

/// Queued drift correction and the net frames adjusted so far.
pub struct DriftCorrector {
    /// Pending correction in frames: positive means playback is behind and
    /// frames will be dropped; negative, ahead and frames will be duplicated.
    pub correction: i64,
    /// Frames dropped minus frames duplicated since the stream started.
    pub net_adjust: i64,
}

impl DriftCorrector {
    pub fn new() -> (d: Self)
        ensures
            d.correction == 0,
            d.net_adjust == 0,
    {
        DriftCorrector { correction: 0, net_adjust: 0 }
    }

    /// Replaces (never accumulates) the pending correction.
    pub fn set_correction(&mut self, frames: i64)
        ensures
            final(self).correction == frames,
            final(self).net_adjust == old(self).net_adjust,
    {
        self.correction = frames;
    }

    /// Decides the adjustment for a write of `frames_in` frames and books it:
    /// the pending correction moves toward zero by the adjustment and the
    /// net adjustment records it (wrapping, as a running counter).
    pub fn take(&mut self, frames_in: i64) -> (adj: i64)
        requires
            frames_in >= 0,
            old(self).correction != i64::MIN,
        ensures
            adj == spec_adjustment(old(self).correction as int, frames_in as int),
            final(self).correction == old(self).correction - adj,
            final(self).net_adjust == old(self).net_adjust.wrapping_add(adj),
    {
        let pending = self.correction;
        let adj: i64 = if pending > JUMP_THRESHOLD_FRAMES && frames_in > 0 {
            if pending < frames_in {
                pending
            } else {
                frames_in
            }
        } else if pending > 0 && frames_in > 1 {
            let a = if pending < MAX_CORRECTION_FRAMES_PER_WRITE {
                pending
            } else {
                MAX_CORRECTION_FRAMES_PER_WRITE
            };
            if a < frames_in - 1 {
                a
            } else {
                frames_in - 1
            }
        } else if pending < 0 && frames_in >= 1 {
            let a = if -pending < MAX_CORRECTION_FRAMES_PER_WRITE {
                -pending
            } else {
                MAX_CORRECTION_FRAMES_PER_WRITE
            };
            -a
        } else {
            0
        };
        self.correction = pending - adj;
        self.net_adjust = self.net_adjust.wrapping_add(adj);
        adj
    }

    /// Drift correction of one write of whole frames of `frame_bytes`
    /// bytes: books the adjustment `take` decides for its frames and returns
    /// the bytes to write, as `apply_adjustment` makes them, or `None` when
    /// a jump resync drops the whole write.
    pub fn correct_write(&mut self, data: &[u8], frame_bytes: usize) -> (r: Option<Vec<u8>>)
        requires
            frame_bytes > 0,
            old(self).correction != i64::MIN,
            data@.len() <= i64::MAX,
            data@.len() + 2 * frame_bytes <= usize::MAX,
        ensures
            ({
                let frames_in = data@.len() as int / frame_bytes as int;
                let adj = spec_adjustment(old(self).correction as int, frames_in);
                &&& final(self).correction == old(self).correction - adj
                &&& final(self).net_adjust == old(self).net_adjust.wrapping_add(adj as i64)
                &&& (adj > 0 && adj == frames_in) ==> r is None
                &&& !(adj > 0 && adj == frames_in) ==> (r matches Some(v) && v@
                    == spec_apply_adjustment(data@, frame_bytes as int, adj))
            }),
    {
        let frames = data.len() / frame_bytes;
        proof {
            vstd::arithmetic::div_mod::lemma_fundamental_div_mod(data@.len() as int, frame_bytes as int);
            vstd::arithmetic::div_mod::lemma_mod_bound(data@.len() as int, frame_bytes as int);
            assert(frames <= data@.len()) by (nonlinear_arith)
                requires
                    frames == data@.len() as int / frame_bytes as int,
                    frame_bytes > 0,
            ;
        }
        let frames_in = frames as i64;
        let adj = self.take(frames_in);
        if adj > 0 && adj == frames_in {
            return None;
        }
        proof {
            vstd::arithmetic::mul::lemma_mul_is_commutative(frames as int, frame_bytes as int);
            assert(frames * frame_bytes <= data@.len());
            if adj > 0 {
                assert(adj * frame_bytes <= frames * frame_bytes) by (nonlinear_arith)
                    requires
                        0 < adj <= frames,
                        frame_bytes > 0,
                ;
            }
            if adj < 0 {
                assert(frames >= 1);
                assert(frame_bytes <= frames * frame_bytes) by (nonlinear_arith)
                    requires
                        frames >= 1,
                        frame_bytes > 0,
                ;
                assert((-adj) * frame_bytes <= 2 * frame_bytes) by (nonlinear_arith)
                    requires
                        -adj <= 2,
                        frame_bytes > 0,
                ;
            }
        }
        Some(apply_adjustment(data, frame_bytes, adj))
    }
}

/// A correction is booked, never lost: the pending correction plus the net
/// adjustment is the same before and after every write.
pub proof fn lemma_correction_conserved(pending: int, net: int, frames_in: int)
    ensures
        (pending - spec_adjustment(pending, frames_in)) + (net + spec_adjustment(pending, frames_in))
            == pending + net,
{
}

/// The pending correction only shrinks toward zero and never changes sign;
/// outside a jump resync at most two frames are adjusted, and a write is
/// never trimmed to nothing except by a jump.
pub proof fn lemma_correction_converges(pending: int, frames_in: int)
    requires
        frames_in >= 0,
    ensures
        ({
            let adj = spec_adjustment(pending, frames_in);
            let rest = pending - adj;
            &&& pending >= 0 ==> 0 <= rest <= pending
            &&& pending <= 0 ==> pending <= rest <= 0
            &&& pending <= JUMP_THRESHOLD_FRAMES ==> -2 <= adj <= 2
            &&& adj <= frames_in
            &&& (adj == frames_in && frames_in > 0) ==> pending > JUMP_THRESHOLD_FRAMES
        }),
{
}

/// The bytes written after applying an adjustment to `data`, with frames
/// of `fb` bytes: a positive adjustment drops that many leading frames, a
/// negative one repeats the first frame that many times in front.
pub open spec fn spec_apply_adjustment(data: Seq<u8>, fb: int, adj: int) -> Seq<u8> {
    if adj > 0 {
        data.skip(adj * fb)
    } else if adj < 0 {
        Seq::new(((-adj) * fb) as nat, |j: int| data[j % fb]) + data
    } else {
        data
    }
}

/// Applies an adjustment decided by `DriftCorrector::take`.
pub fn apply_adjustment(data: &[u8], frame_bytes: usize, adj: i64) -> (out: Vec<u8>)
    requires
        frame_bytes > 0,
        adj >= 0 ==> adj * frame_bytes <= data@.len(),
        adj < 0 ==> data@.len() >= frame_bytes && -adj <= 2 && (-adj) * frame_bytes
            + data@.len() <= usize::MAX,
    ensures
        out@ == spec_apply_adjustment(data@, frame_bytes as int, adj as int),
{
    if adj > 0 {
        let len = data.len();
        assert(adj <= adj * frame_bytes) by (nonlinear_arith)
            requires
                adj > 0,
                frame_bytes > 0,
        ;
        assert(adj <= len);
        let a = adj as usize;
        assert(a == adj);
        let start = a * frame_bytes;
        let mut out: Vec<u8> = Vec::new();
        let mut i = start;
        while i < data.len()
            invariant
                start <= i <= data@.len(),
                start == adj * frame_bytes,
                out@ =~= data@.subrange(start as int, i as int),
            decreases data@.len() - i,
        {
            out.push(data[i]);
            i += 1;
        }
        assert(data@.subrange(start as int, data@.len() as int) =~= data@.skip(
            adj * frame_bytes,
        ));
        out
    } else if adj < 0 {
        let dup = (-adj) as usize;
        let total = dup * frame_bytes;
        let ghost prefix = Seq::new(total as nat, |j: int| data@[j % (frame_bytes as int)]);
        let mut out: Vec<u8> = Vec::new();
        let mut i: usize = 0;
        while i < total
            invariant
                total == dup * frame_bytes,
                dup <= 2,
                frame_bytes > 0,
                data@.len() >= frame_bytes,
                i <= total,
                prefix == Seq::new(total as nat, |j: int| data@[j % (frame_bytes as int)]),
                out@ =~= prefix.take(i as int),
            decreases total - i,
        {
            proof {
                vstd::arithmetic::div_mod::lemma_mod_bound(i as int, frame_bytes as int);
            }
            out.push(data[i % frame_bytes]);
            i += 1;
        }
        let mut k: usize = 0;
        while k < data.len()
            invariant
                k <= data@.len(),
                out@ =~= prefix + data@.take(k as int),
            decreases data@.len() - k,
        {
            out.push(data[k]);
            k += 1;
        }
        assert(data@.take(k as int) =~= data@);
        out
    } else {
        let mut out: Vec<u8> = Vec::new();
        let mut k: usize = 0;
        while k < data.len()
            invariant
                k <= data@.len(),
                out@ =~= data@.take(k as int),
            decreases data@.len() - k,
        {
            out.push(data[k]);
            k += 1;
        }
        assert(data@.take(k as int) =~= data@);
        out
    }
}

/// Whole frames that can be pushed: no more than the free space and the
/// data allow, so channels never lose their alignment.
pub fn frames_to_push(vacant_bytes: usize, data_len: usize, frame_bytes: usize) -> (n: usize)
    requires
        frame_bytes > 0,
    ensures
        n == min_i(vacant_bytes as int / frame_bytes as int, data_len as int / frame_bytes as int),
        n * frame_bytes <= vacant_bytes,
        n * frame_bytes <= data_len,
{
    let a = vacant_bytes / frame_bytes;
    let b = data_len / frame_bytes;
    proof {
        vstd::arithmetic::div_mod::lemma_fundamental_div_mod(vacant_bytes as int, frame_bytes as int);
        vstd::arithmetic::div_mod::lemma_fundamental_div_mod(data_len as int, frame_bytes as int);
        vstd::arithmetic::div_mod::lemma_mod_bound(vacant_bytes as int, frame_bytes as int);
        vstd::arithmetic::div_mod::lemma_mod_bound(data_len as int, frame_bytes as int);
    }
    let n = if a < b {
        a
    } else {
        b
    };
    proof {
        assert(n * frame_bytes <= a * frame_bytes) by (nonlinear_arith)
            requires
                n <= a,
                frame_bytes > 0,
        ;
        assert(n * frame_bytes <= b * frame_bytes) by (nonlinear_arith)
            requires
                n <= b,
                frame_bytes > 0,
        ;
        vstd::arithmetic::mul::lemma_mul_is_commutative(a as int, frame_bytes as int);
        vstd::arithmetic::mul::lemma_mul_is_commutative(b as int, frame_bytes as int);
        assert(a * frame_bytes <= vacant_bytes);
        assert(b * frame_bytes <= data_len);
    }
    n
}

/// Content position on the stream timeline: frames consumed plus the net
/// frames skipped by drift correction, never below zero.
pub fn content_position(frames_played: u64, net_adjust: i64) -> (p: u64)
    requires
        frames_played <= i64::MAX,
        frames_played + net_adjust <= i64::MAX,
    ensures
        p == (if frames_played + net_adjust < 0 {
            0
        } else {
            frames_played + net_adjust
        }),
{
    let v = frames_played as i64 + net_adjust;
    if v < 0 {
        0
    } else {
        v as u64
    }
}

/// Whether buffered FLAC data can start a decoder: at least the `fLaC`
/// marker and the STREAMINFO block (42 bytes).
pub fn flac_stream_ready(buf: &[u8]) -> (b: bool)
    ensures
        b == (buf@.len() >= 42 && buf@.take(4) == seq![0x66u8, 0x4C, 0x61, 0x43]),
{
    if buf.len() < 42 {
        return false;
    }
    let r = buf[0] == 0x66 && buf[1] == 0x4C && buf[2] == 0x61 && buf[3] == 0x43;
    proof {
        if r {
            assert(buf@.take(4) =~= seq![0x66u8, 0x4C, 0x61, 0x43]);
        } else {
            if buf@.take(4) == seq![0x66u8, 0x4C, 0x61, 0x43] {
                assert(buf@.take(4)[0] == buf@[0] && buf@.take(4)[1] == buf@[1]);
                assert(buf@.take(4)[2] == buf@[2] && buf@.take(4)[3] == buf@[3]);
            }
        }
    }
    r
}

} // verus!
