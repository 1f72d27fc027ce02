use oaat::format::AudioFormat;
use oaat::wav::{parse_wav, wav_format, wav_frame_bytes, wav_total_frames, WavError};

fn header(channels: u16, rate: u32, bits: u16) -> Vec<u8> {
    let mut d = Vec::new();
    d.extend_from_slice(b"RIFF");
    d.extend_from_slice(&0u32.to_le_bytes());
    d.extend_from_slice(b"WAVE");
    d.extend_from_slice(b"fmt ");
    d.extend_from_slice(&16u32.to_le_bytes());
    d.extend_from_slice(&1u16.to_le_bytes());
    d.extend_from_slice(&channels.to_le_bytes());
    d.extend_from_slice(&rate.to_le_bytes());
    d.extend_from_slice(&0u32.to_le_bytes());
    d.extend_from_slice(&0u16.to_le_bytes());
    d.extend_from_slice(&bits.to_le_bytes());
    d
}

#[test]
fn canonical_header_is_read() {
    let mut d = header(2, 44100, 16);
    d.extend_from_slice(b"data");
    d.extend_from_slice(&8u32.to_le_bytes());
    d.extend_from_slice(&[1, 2, 3, 4, 5, 6, 7, 8]);
    let w = parse_wav(&d).unwrap();
    assert_eq!(w.channels, 2);
    assert_eq!(w.sample_rate, 44100);
    assert_eq!(w.bits_per_sample, 16);
    assert_eq!(w.data_offset, 44);
    assert_eq!(w.data_len, 8);
    assert_eq!(wav_frame_bytes(&w), 4);
    assert_eq!(wav_total_frames(&w), 2);
    assert_eq!(wav_format(w.bits_per_sample), Ok(AudioFormat::PcmS16le));
}

#[test]
fn odd_chunks_are_padded_and_data_is_clipped_to_the_file() {
    let mut d = header(1, 48000, 24);
    d.extend_from_slice(b"LIST");
    d.extend_from_slice(&3u32.to_le_bytes());
    d.extend_from_slice(&[9, 9, 9, 0]);
    d.extend_from_slice(b"data");
    d.extend_from_slice(&1000u32.to_le_bytes());
    d.extend_from_slice(&[0; 6]);
    let w = parse_wav(&d).unwrap();
    assert_eq!(w.data_offset, 56);
    assert_eq!(w.data_len, 6);
    assert_eq!(wav_format(w.bits_per_sample), Ok(AudioFormat::PcmS24le));
}

#[test]
fn not_a_wav_file() {
    assert_eq!(parse_wav(b"hello"), Err(WavError::NotWav));
    let mut d = header(2, 44100, 16);
    d[8] = b'X';
    d.extend_from_slice(&[0; 16]);
    assert_eq!(parse_wav(&d), Err(WavError::NotWav));
}

#[test]
fn missing_or_empty_data_chunk() {
    let mut d = header(2, 44100, 16);
    d.extend_from_slice(b"junk");
    d.extend_from_slice(&4u32.to_le_bytes());
    d.extend_from_slice(&[0; 4]);
    assert_eq!(parse_wav(&d), Err(WavError::NoDataChunk));
    let mut d = header(2, 44100, 16);
    d.extend_from_slice(b"data");
    d.extend_from_slice(&0u32.to_le_bytes());
    d.extend_from_slice(&[0; 4]);
    assert_eq!(parse_wav(&d), Err(WavError::NoDataChunk));
}

#[test]
fn only_16_24_32_bit_samples_stream() {
    assert_eq!(wav_format(32), Ok(AudioFormat::PcmS32le));
    assert_eq!(wav_format(8), Err(WavError::UnsupportedBitDepth(8)));
}
