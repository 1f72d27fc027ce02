//! Audio formats, channel layouts, DSD rates and sample-rate families.

use vstd::prelude::*;

verus! {

/// Sample encodings carried on the wire.
#[derive(Debug, Clone, Copy, PartialEq, Eq, Hash, Structural)]
pub enum AudioFormat {
    PcmS16le,
    PcmS24le,
    PcmS24le4,
    PcmS32le,
    PcmF32le,
    DsdU8,
    DsdU16le,
    DsdU32le,
    Flac,
    Opus,
    TrueHd,
    Eac3,
}

/// The one-byte wire identifier of each format.
pub open spec fn spec_wire_id(f: AudioFormat) -> u8 {
    match f {
        AudioFormat::PcmS16le => 0x01,
        AudioFormat::PcmS24le => 0x02,
        AudioFormat::PcmS24le4 => 0x03,
        AudioFormat::PcmS32le => 0x04,
        AudioFormat::PcmF32le => 0x05,
        AudioFormat::DsdU8 => 0x10,
        AudioFormat::DsdU16le => 0x11,
        AudioFormat::DsdU32le => 0x12,
        AudioFormat::Flac => 0x20,
        AudioFormat::Opus => 0x21,
        AudioFormat::TrueHd => 0x30,
        AudioFormat::Eac3 => 0x31,
    }
}

/// The format a wire identifier names, if any: the inverse of `spec_wire_id`.
pub open spec fn spec_from_wire_id(id: u8) -> Option<AudioFormat> {
    if id == 0x01 { Some(AudioFormat::PcmS16le) }
    else if id == 0x02 { Some(AudioFormat::PcmS24le) }
    else if id == 0x03 { Some(AudioFormat::PcmS24le4) }
    else if id == 0x04 { Some(AudioFormat::PcmS32le) }
    else if id == 0x05 { Some(AudioFormat::PcmF32le) }
    else if id == 0x10 { Some(AudioFormat::DsdU8) }
    else if id == 0x11 { Some(AudioFormat::DsdU16le) }
    else if id == 0x12 { Some(AudioFormat::DsdU32le) }
    else if id == 0x20 { Some(AudioFormat::Flac) }
    else if id == 0x21 { Some(AudioFormat::Opus) }
    else if id == 0x30 { Some(AudioFormat::TrueHd) }
    else if id == 0x31 { Some(AudioFormat::Eac3) }
    else { None }
}

pub open spec fn spec_bytes_per_sample(f: AudioFormat) -> Option<usize> {
    match f {
        AudioFormat::PcmS16le => Some(2usize),
        AudioFormat::PcmS24le => Some(3usize),
        AudioFormat::PcmS24le4 | AudioFormat::PcmS32le | AudioFormat::PcmF32le => Some(4usize),
        _ => None,
    }
}

impl AudioFormat {
    pub fn wire_id(self) -> (id: u8)
        ensures
            id == spec_wire_id(self),
    {
        match self {
            Self::PcmS16le => 0x01,
            Self::PcmS24le => 0x02,
            Self::PcmS24le4 => 0x03,
            Self::PcmS32le => 0x04,
            Self::PcmF32le => 0x05,
            Self::DsdU8 => 0x10,
            Self::DsdU16le => 0x11,
            Self::DsdU32le => 0x12,
            Self::Flac => 0x20,
            Self::Opus => 0x21,
            Self::TrueHd => 0x30,
            Self::Eac3 => 0x31,
        }
    }

    pub fn from_wire_id(id: u8) -> (f: Option<Self>)
        ensures
            f == spec_from_wire_id(id),
    {
        match id {
            0x01 => Some(Self::PcmS16le),
            0x02 => Some(Self::PcmS24le),
            0x03 => Some(Self::PcmS24le4),
            0x04 => Some(Self::PcmS32le),
            0x05 => Some(Self::PcmF32le),
            0x10 => Some(Self::DsdU8),
            0x11 => Some(Self::DsdU16le),
            0x12 => Some(Self::DsdU32le),
            0x20 => Some(Self::Flac),
            0x21 => Some(Self::Opus),
            0x30 => Some(Self::TrueHd),
            0x31 => Some(Self::Eac3),
            _ => None,
        }
    }

    pub fn is_pcm(self) -> (b: bool)
        ensures
            b <==> (self is PcmS16le || self is PcmS24le || self is PcmS24le4 || self is PcmS32le
                || self is PcmF32le),
    {
        matches!(
            self,
            Self::PcmS16le | Self::PcmS24le | Self::PcmS24le4 | Self::PcmS32le | Self::PcmF32le
        )
    }

    pub fn is_dsd(self) -> (b: bool)
        ensures
            b <==> (self is DsdU8 || self is DsdU16le || self is DsdU32le),
    {
        matches!(self, Self::DsdU8 | Self::DsdU16le | Self::DsdU32le)
    }

    pub fn is_compressed(self) -> (b: bool)
        ensures
            b <==> (self is Flac || self is Opus),
    {
        matches!(self, Self::Flac | Self::Opus)
    }

    pub fn is_bitstream(self) -> (b: bool)
        ensures
            b <==> (self is TrueHd || self is Eac3),
    {
        matches!(self, Self::TrueHd | Self::Eac3)
    }

    pub fn bytes_per_sample(self) -> (n: Option<usize>)
        ensures
            n == spec_bytes_per_sample(self),
    {
        match self {
            Self::PcmS16le => Some(2),
            Self::PcmS24le => Some(3),
            Self::PcmS24le4 | Self::PcmS32le | Self::PcmF32le => Some(4),
            _ => None,
        }
    }
}

/// Every wire identifier decodes back to the format that produced it.
pub proof fn lemma_wire_id_roundtrip(f: AudioFormat)
    ensures
        spec_from_wire_id(spec_wire_id(f)) == Some(f),
{
}

/// A byte decodes to a format exactly when it is that format's identifier,
/// so two formats never share a wire identifier.
pub proof fn lemma_from_wire_id_inverse(id: u8, f: AudioFormat)
    ensures
        spec_from_wire_id(id) == Some(f) <==> spec_wire_id(f) == id,
{
}

/// Each format belongs to exactly one of the four format classes.
pub proof fn lemma_format_classes_partition(f: AudioFormat)
    ensures
        (f is PcmS16le || f is PcmS24le || f is PcmS24le4 || f is PcmS32le || f is PcmF32le)
            || (f is DsdU8 || f is DsdU16le || f is DsdU32le) || (f is Flac || f is Opus) || (
        f is TrueHd || f is Eac3),
        spec_bytes_per_sample(f) is Some <==> (f is PcmS16le || f is PcmS24le || f is PcmS24le4
            || f is PcmS32le || f is PcmF32le),
{
}


pub open spec fn spec_format_name(f: AudioFormat) -> Seq<char> {
    match f {
        AudioFormat::PcmS16le => "PCM_S16LE"@,
        AudioFormat::PcmS24le => "PCM_S24LE"@,
        AudioFormat::PcmS24le4 => "PCM_S24LE4"@,
        AudioFormat::PcmS32le => "PCM_S32LE"@,
        AudioFormat::PcmF32le => "PCM_F32LE"@,
        AudioFormat::DsdU8 => "DSD_U8"@,
        AudioFormat::DsdU16le => "DSD_U16LE"@,
        AudioFormat::DsdU32le => "DSD_U32LE"@,
        AudioFormat::Flac => "FLAC"@,
        AudioFormat::Opus => "OPUS"@,
        AudioFormat::TrueHd => "TRUEHD"@,
        AudioFormat::Eac3 => "EAC3"@,
    }
}

impl AudioFormat {
    /// The canonical upper-case name of the format (as written in the
    /// control protocol and in logs).
    pub fn as_str(self) -> (s: &'static str)
        ensures
            s@ == spec_format_name(self),
    {
        match self {
            Self::PcmS16le => "PCM_S16LE",
            Self::PcmS24le => "PCM_S24LE",
            Self::PcmS24le4 => "PCM_S24LE4",
            Self::PcmS32le => "PCM_S32LE",
            Self::PcmF32le => "PCM_F32LE",
            Self::DsdU8 => "DSD_U8",
            Self::DsdU16le => "DSD_U16LE",
            Self::DsdU32le => "DSD_U32LE",
            Self::Flac => "FLAC",
            Self::Opus => "OPUS",
            Self::TrueHd => "TRUEHD",
            Self::Eac3 => "EAC3",
        }
    }
}

/// Speaker layouts.
#[derive(Debug, Clone, Copy, PartialEq, Eq, Hash, Structural)]
pub enum ChannelLayout {
    Mono,
    Stereo,
    TwoPointOne,
    Quad,
    FivePointOne,
    SevenPointOne,
    FivePointOnePointTwo,
    FivePointOnePointFour,
    SevenPointOnePointTwo,
    SevenPointOnePointFour,
    SevenPointOnePointSix,
}

pub open spec fn spec_channel_count(l: ChannelLayout) -> u8 {
    match l {
        ChannelLayout::Mono => 1,
        ChannelLayout::Stereo => 2,
        ChannelLayout::TwoPointOne => 3,
        ChannelLayout::Quad => 4,
        ChannelLayout::FivePointOne => 6,
        ChannelLayout::SevenPointOne => 8,
        ChannelLayout::FivePointOnePointTwo => 8,
        ChannelLayout::FivePointOnePointFour => 10,
        ChannelLayout::SevenPointOnePointTwo => 10,
        ChannelLayout::SevenPointOnePointFour => 12,
        ChannelLayout::SevenPointOnePointSix => 14,
    }
}

impl ChannelLayout {
    pub fn channel_count(self) -> (n: u8)
        ensures
            n == spec_channel_count(self),
    {
        match self {
            Self::Mono => 1,
            Self::Stereo => 2,
            Self::TwoPointOne => 3,
            Self::Quad => 4,
            Self::FivePointOne => 6,
            Self::SevenPointOne => 8,
            Self::FivePointOnePointTwo => 8,
            Self::FivePointOnePointFour => 10,
            Self::SevenPointOnePointTwo => 10,
            Self::SevenPointOnePointFour => 12,
            Self::SevenPointOnePointSix => 14,
        }
    }
}

/// DSD oversampling multipliers (of 44.1 kHz).
#[derive(Debug, Clone, Copy, PartialEq, Eq, Hash, Structural)]
pub enum DsdRate {
    Dsd64,
    Dsd128,
    Dsd256,
    Dsd512,
}

pub open spec fn spec_dsd_multiplier(r: DsdRate) -> u64 {
    match r {
        DsdRate::Dsd64 => 64,
        DsdRate::Dsd128 => 128,
        DsdRate::Dsd256 => 256,
        DsdRate::Dsd512 => 512,
    }
}

impl DsdRate {
    /// The multiplier the rate is named after (64, 128, 256 or 512).
    pub fn multiplier(self) -> (m: u64)
        ensures
            m == spec_dsd_multiplier(self),
    {
        match self {
            Self::Dsd64 => 64,
            Self::Dsd128 => 128,
            Self::Dsd256 => 256,
            Self::Dsd512 => 512,
        }
    }

    /// One-bit sample rate: the multiplier times 44 100 Hz.
    pub fn bitstream_rate_hz(self) -> (hz: u64)
        ensures
            hz == spec_dsd_multiplier(self) * 44100,
    {
        match self {
            Self::Dsd64 => 2_822_400,
            Self::Dsd128 => 5_644_800,
            Self::Dsd256 => 11_289_600,
            Self::Dsd512 => 22_579_200,
        }
    }
}

/// The two families of PCM sample rates.
#[derive(Debug, Clone, Copy, PartialEq, Eq, Structural)]
pub enum SampleRateFamily {
    F44100,
    F48000,
}

/// The rates of a family: its base rate times 1, 2, 4, 8 and 16.
pub open spec fn spec_family_rates(f: SampleRateFamily) -> Seq<u32> {
    match f {
        SampleRateFamily::F44100 => seq![44100u32, 88200, 176400, 352800, 705600],
        SampleRateFamily::F48000 => seq![48000u32, 96000, 192000, 384000, 768000],
    }
}

pub open spec fn spec_family_of(rate: u32) -> Option<SampleRateFamily> {
    if spec_family_rates(SampleRateFamily::F44100).contains(rate) {
        Some(SampleRateFamily::F44100)
    } else if spec_family_rates(SampleRateFamily::F48000).contains(rate) {
        Some(SampleRateFamily::F48000)
    } else {
        None
    }
}

impl SampleRateFamily {
    pub fn of(rate: u32) -> (f: Option<Self>)
        ensures
            f == spec_family_of(rate),
    {
        let f441 = Self::F44100.rates();
        let f480 = Self::F48000.rates();
        if contains_u32(&f441, rate) {
            Some(Self::F44100)
        } else if contains_u32(&f480, rate) {
            Some(Self::F48000)
        } else {
            None
        }
    }

    pub fn rates(self) -> (r: Vec<u32>)
        ensures
            r@ == spec_family_rates(self),
    {
        match self {
            Self::F44100 => vec![44100, 88200, 176400, 352800, 705600],
            Self::F48000 => vec![48000, 96000, 192000, 384000, 768000],
        }
    }
}

fn contains_u32(v: &Vec<u32>, x: u32) -> (b: bool)
    ensures
        b == v@.contains(x),
{
    let mut i: usize = 0;
    while i < v.len()
        invariant
            i <= v.len(),
            forall|j: int| 0 <= j < i ==> v@[j] != x,
        decreases v.len() - i,
    {
        if v[i] == x {
            assert(v@[i as int] == x);
            return true;
        }
        i += 1;
    }
    false
}

/// Every rate belongs to at most one family, and `of` finds exactly the
/// family whose list holds the rate.
pub proof fn lemma_family_partition(rate: u32, f: SampleRateFamily)
    ensures
        spec_family_of(rate) == Some(f) <==> spec_family_rates(f).contains(rate),
{
    let a = spec_family_rates(SampleRateFamily::F44100);
    let b = spec_family_rates(SampleRateFamily::F48000);
    if a.contains(rate) {
        let i = choose|i: int| 0 <= i < a.len() && a[i] == rate;
        assert(!b.contains(rate)) by {
            if b.contains(rate) {
                let j = choose|j: int| 0 <= j < b.len() && b[j] == rate;
                assert(false);
            }
        }
    }
}

} // verus!
