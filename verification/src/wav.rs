//! Reading the header of a RIFF/WAVE file that a controller streams: the
//! fields of the `fmt ` chunk at their canonical offsets, and the `data`
//! chunk found by walking the chunk list.

use crate::format::AudioFormat;
use vstd::prelude::*;

verus! {

/// What a WAV file holds, as the streamer reads it.
#[derive(Debug, Clone, Copy, PartialEq, Eq, Structural)]
pub struct WavInfo {
    pub channels: u8,
    pub sample_rate: u32,
    pub bits_per_sample: u8,
    /// Where the samples start.
    pub data_offset: usize,
    /// How many bytes of samples there are (never past the end of the file).
    pub data_len: usize,
}

#[derive(Debug, Clone, Copy, PartialEq, Eq, Structural)]
pub enum WavError {
    /// Not a RIFF/WAVE file (or too short to hold a header).
    NotWav,
    /// No `data` chunk, or an empty one.
    NoDataChunk,
    /// A sample width other than 16, 24 or 32 bits.
    UnsupportedBitDepth(u8),
}

pub open spec fn le16(d: Seq<u8>, i: int) -> int {
    d[i] + d[i + 1] * 256
}

pub open spec fn le32(d: Seq<u8>, i: int) -> int {
    d[i] + d[i + 1] * 256 + d[i + 2] * 65536 + d[i + 3] * 16777216
}

pub open spec fn is_wav_file(d: Seq<u8>) -> bool {
    &&& d.len() > 44
    &&& d.subrange(0, 4) == seq![0x52u8, 0x49, 0x46, 0x46]
    &&& d.subrange(8, 12) == seq![0x57u8, 0x41, 0x56, 0x45]
}

pub open spec fn is_data_id(d: Seq<u8>, i: int) -> bool {
    d.subrange(i, i + 4) == seq![0x64u8, 0x61, 0x74, 0x61]
}

/// The `data` chunk met walking the chunks from `off`: where its samples
/// start and how many bytes of them the file holds. Chunks are padded to an
/// even size.
pub open spec fn find_data_chunk(d: Seq<u8>, off: int) -> Option<(int, int)>
    decreases d.len() - off,
{
    if 0 <= off && off + 8 < d.len() {
        let size = le32(d, off + 4);
        if is_data_id(d, off) {
            let start = off + 8;
            Some((start, if size < d.len() - start { size } else { d.len() - start }))
        } else {
            let next = off + 8 + size + (size % 2);
            if next < d.len() {
                find_data_chunk(d, next)
            } else {
                None
            }
        }
    } else {
        None
    }
}

proof fn lemma_find_data_bounds(d: Seq<u8>, off: int)
    ensures
        find_data_chunk(d, off) matches Some((s, l)) ==> 0 <= s && 0 <= l && s + l <= d.len(),
    decreases d.len() - off,
{
    if 0 <= off && off + 8 < d.len() && !is_data_id(d, off) {
        let size = le32(d, off + 4);
        let next = off + 8 + size + (size % 2);
        if next < d.len() {
            lemma_find_data_bounds(d, next);
        }
    }
}

/// The header of a WAV file, or why it cannot be streamed. Channel count and
/// sample width are read as 16-bit fields and kept to their low byte.
pub open spec fn spec_parse_wav(d: Seq<u8>) -> Result<WavInfo, WavError> {
    if !is_wav_file(d) {
        Err(WavError::NotWav)
    } else {
        match find_data_chunk(d, 12) {
            Some((start, len)) if len > 0 => Ok(
                WavInfo {
                    channels: (le16(d, 22) % 256) as u8,
                    sample_rate: le32(d, 24) as u32,
                    bits_per_sample: (le16(d, 34) % 256) as u8,
                    data_offset: start as usize,
                    data_len: len as usize,
                },
            ),
            _ => Err(WavError::NoDataChunk),
        }
    }
}

fn read_le32(d: &[u8], i: usize) -> (v: u32)
    requires
        i + 4 <= d@.len(),
    ensures
        v == le32(d@, i as int),
{
    let a = d[i] as u32;
    let b = d[i + 1] as u32;
    let c = d[i + 2] as u32;
    let e = d[i + 3] as u32;
    a + b * 256 + c * 65536 + e * 16777216
}

fn read_le16_low(d: &[u8], i: usize) -> (v: u8)
    requires
        i + 2 <= d@.len(),
    ensures
        v == le16(d@, i as int) % 256,
{
    let a = d[i];
    let b = d[i + 1];
    assert((a + b * 256) % 256 == a) by (nonlinear_arith)
        requires
            a < 256,
            b < 256,
    ;
    a
}

/// Finds the `data` chunk from offset 12 on.
fn locate_data(d: &[u8]) -> (r: Option<(usize, usize)>)
    ensures
        match find_data_chunk(d@, 12) {
            Some((s, l)) => r == Some((s as usize, l as usize)),
            None => r is None,
        },
        r matches Some((s, l)) ==> s + l <= d@.len(),
{
    let n = d.len();
    let mut off: usize = 12;
    while off < n && n - off > 8
        invariant
            n == d@.len(),
            find_data_chunk(d@, 12) == find_data_chunk(d@, off as int),
        decreases n - off,
    {
        let size = read_le32(d, off + 4);
        if d[off] == 0x64 && d[off + 1] == 0x61 && d[off + 2] == 0x74 && d[off + 3] == 0x61 {
            assert(is_data_id(d@, off as int)) by {
                assert(d@.subrange(off as int, off + 4) =~= seq![0x64u8, 0x61, 0x74, 0x61]);
            }
            let start = off + 8;
            let len = if (size as usize) < n - start {
                size as usize
            } else {
                n - start
            };
            return Some((start, len));
        }
        assert(!is_data_id(d@, off as int)) by {
            if is_data_id(d@, off as int) {
                assert(d@.subrange(off as int, off + 4)[0] == d@[off as int]);
                assert(d@.subrange(off as int, off + 4)[1] == d@[off + 1]);
                assert(d@.subrange(off as int, off + 4)[2] == d@[off + 2]);
                assert(d@.subrange(off as int, off + 4)[3] == d@[off + 3]);
            }
        }
        let rest = n - off - 8;
        if (size as usize) >= rest {
            // the next chunk would start at or past the end
            proof {
                let next = off + 8 + size + (size % 2);
                assert(next + 8 >= d@.len());
                assert(find_data_chunk(d@, next) is None);
            }
            return None;
        }
        let pad: usize = if size % 2 == 1 {
            1
        } else {
            0
        };
        off = off + 8 + size as usize + pad;
    }
    None
}

/// Reads a WAV header (see `spec_parse_wav`).
pub fn parse_wav(d: &[u8]) -> (r: Result<WavInfo, WavError>)
    ensures
        r == spec_parse_wav(d@),
        r matches Ok(w) ==> w.data_len > 0 && w.data_offset + w.data_len <= d@.len(),
{
    if !(d.len() > 44 && d[0] == 0x52 && d[1] == 0x49 && d[2] == 0x46 && d[3] == 0x46 && d[8]
        == 0x57 && d[9] == 0x41 && d[10] == 0x56 && d[11] == 0x45) {
        proof {
            if is_wav_file(d@) {
                assert(d@.subrange(0, 4)[0] == d@[0] && d@.subrange(0, 4)[1] == d@[1]);
                assert(d@.subrange(0, 4)[2] == d@[2] && d@.subrange(0, 4)[3] == d@[3]);
                assert(d@.subrange(8, 12)[0] == d@[8] && d@.subrange(8, 12)[1] == d@[9]);
                assert(d@.subrange(8, 12)[2] == d@[10] && d@.subrange(8, 12)[3] == d@[11]);
            }
        }
        return Err(WavError::NotWav);
    }
    assert(is_wav_file(d@)) by {
        assert(d@.subrange(0, 4) =~= seq![0x52u8, 0x49, 0x46, 0x46]);
        assert(d@.subrange(8, 12) =~= seq![0x57u8, 0x41, 0x56, 0x45]);
    }
    proof {
        lemma_find_data_bounds(d@, 12);
    }
    let channels = read_le16_low(d, 22);
    let sample_rate = read_le32(d, 24);
    let bits_per_sample = read_le16_low(d, 34);
    match locate_data(d) {
        Some((start, len)) => {
            if len == 0 {
                Err(WavError::NoDataChunk)
            } else {
                Ok(
                    WavInfo {
                        channels,
                        sample_rate,
                        bits_per_sample,
                        data_offset: start,
                        data_len: len,
                    },
                )
            }
        },
        None => Err(WavError::NoDataChunk),
    }
}

pub open spec fn spec_wav_format(bits: u8) -> Result<AudioFormat, WavError> {
    if bits == 16 {
        Ok(AudioFormat::PcmS16le)
    } else if bits == 24 {
        Ok(AudioFormat::PcmS24le)
    } else if bits == 32 {
        Ok(AudioFormat::PcmS32le)
    } else {
        Err(WavError::UnsupportedBitDepth(bits))
    }
}

/// The stream format for a sample width.
pub fn wav_format(bits: u8) -> (r: Result<AudioFormat, WavError>)
    ensures
        r == spec_wav_format(bits),
{
    if bits == 16 {
        Ok(AudioFormat::PcmS16le)
    } else if bits == 24 {
        Ok(AudioFormat::PcmS24le)
    } else if bits == 32 {
        Ok(AudioFormat::PcmS32le)
    } else {
        Err(WavError::UnsupportedBitDepth(bits))
    }
}

/// Bytes per frame: whole bytes per sample times channels.
pub fn wav_frame_bytes(w: &WavInfo) -> (n: usize)
    ensures
        n == (w.bits_per_sample / 8) * w.channels,
{
    let per = (w.bits_per_sample / 8) as usize;
    assert(per <= 31);
    assert(per * (w.channels as usize) <= 31 * 255) by (nonlinear_arith)
        requires
            per <= 31,
            w.channels <= 255,
    ;
    per * (w.channels as usize)
}

/// Whole frames in the data chunk.
pub fn wav_total_frames(w: &WavInfo) -> (n: usize)
    requires
        (w.bits_per_sample / 8) * w.channels > 0,
    ensures
        n == (w.data_len as int) / ((w.bits_per_sample / 8) * w.channels),
{
    let fb = wav_frame_bytes(w);
    w.data_len / fb
}

} // verus!
