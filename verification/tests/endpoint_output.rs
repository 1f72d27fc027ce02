use oaat::output::{flac_stream_ready, frames_written};
use oaat::format::AudioFormat;
use oaat::output::{
    apply_adjustment, bytes_per_frame, content_position, dsd_rate_multiplier, format_to_alsa,
    frames_to_push, pad_s24_to_s32, scale_i16, scale_i32, select_output_kind,
    volume_permille, DeviceSampleSupport, DriftCorrector, OutKind, RingFormat,
};

#[test]
fn s24_maps_to_s32le_for_hardware_compat() {
    assert_eq!(format_to_alsa(AudioFormat::PcmS24le), Some("S32_LE"));
    assert_eq!(format_to_alsa(AudioFormat::PcmS32le), Some("S32_LE"));
    assert_eq!(format_to_alsa(AudioFormat::PcmS16le), Some("S16_LE"));
}

#[test]
fn pad_s24_is_left_justified_full_scale() {
    let out = pad_s24_to_s32(&[0x34, 0x12, 0x7F]);
    assert_eq!(out, vec![0x00, 0x34, 0x12, 0x7F]);
    assert_eq!(i32::from_le_bytes([out[0], out[1], out[2], out[3]]), 0x7F123400);

    let out = pad_s24_to_s32(&[0x00, 0x00, 0x80]);
    assert_eq!(i32::from_le_bytes([out[0], out[1], out[2], out[3]]), i32::MIN);

    let out = pad_s24_to_s32(&[0x00, 0x00, 0x00, 0x00, 0x00, 0x00]);
    assert_eq!(out, vec![0u8; 8]);
}

#[test]
fn s24_value_is_source_shifted_left_8() {
    for &(b, expect_v24) in &[
        ([0x01u8, 0x00, 0x00], 1i32),
        ([0xFF, 0xFF, 0xFF], -1i32),
        ([0x00, 0x00, 0x40], 0x400000i32),
    ] {
        let out = pad_s24_to_s32(&b);
        let got = i32::from_le_bytes([out[0], out[1], out[2], out[3]]);
        assert_eq!(got, expect_v24 << 8, "src {b:?}");
    }
}

#[test]
fn ring_format_s32_is_passthrough() {
    for v in [i32::MIN, -1, 0, 1, 123_456_789, i32::MAX] {
        let b = v.to_le_bytes();
        assert_eq!(RingFormat::S32.to_i32(&b), v);
    }
}

#[test]
fn ring_format_integer_layouts_left_justify() {
    for v in [i16::MIN, -1, 0, 1, 12345, i16::MAX] {
        let b = v.to_le_bytes();
        assert_eq!(RingFormat::S16.to_i32(&b) >> 16, v as i32);
    }
    for v in [-8_388_608i32, -1, 0, 1, 4_194_304, 8_388_607] {
        let full = v.to_le_bytes();
        let b = [full[0], full[1], full[2]];
        assert_eq!(RingFormat::S24.to_i32(&b) >> 8, v);
        assert_eq!(RingFormat::S24In32.to_i32(&full), v << 8);
    }
    assert_eq!(RingFormat::of(AudioFormat::Flac), RingFormat::F32);
    assert_eq!(RingFormat::of(AudioFormat::PcmS24le4), RingFormat::S24In32);
    assert_eq!(RingFormat::S24.bytes_per_sample(), 3);
}

#[test]
fn pad_drops_trailing_partial_sample() {
    assert_eq!(pad_s24_to_s32(&[1, 2, 3, 4, 5]), vec![0, 1, 2, 3]);
    assert_eq!(pad_s24_to_s32(&[]), Vec::<u8>::new());
}

#[test]
fn frame_sizes_and_dsd_multipliers() {
    assert_eq!(bytes_per_frame(AudioFormat::PcmS24le, 2), 6);
    assert_eq!(bytes_per_frame(AudioFormat::PcmS32le, 0), 4);
    assert_eq!(bytes_per_frame(AudioFormat::Flac, 2), 4);
    assert_eq!(dsd_rate_multiplier(AudioFormat::DsdU16le), 128);
    assert_eq!(dsd_rate_multiplier(AudioFormat::PcmS16le), 64);
    assert_eq!(format_to_alsa(AudioFormat::DsdU8), None);
}

#[test]
fn software_volume() {
    assert_eq!(volume_permille(50), 500);
    assert_eq!(volume_permille(250), 1000);
    assert_eq!(scale_i16(1000, 1000), 1000);
    assert_eq!(scale_i16(-999, 500), -499);
    assert_eq!(scale_i32(i32::MIN, 999), -2_145_336_164);
    assert_eq!(scale_i32(7, 0), 0);
}

#[test]
fn output_kind_prefers_matching_integer_type() {
    let all = DeviceSampleSupport { float: true, int16: true, int32: true };
    assert_eq!(select_output_kind(RingFormat::S16, all), (OutKind::I16, true));
    assert_eq!(select_output_kind(RingFormat::S24, all), (OutKind::I32, true));
    assert_eq!(select_output_kind(RingFormat::F32, all), (OutKind::F32, true));
    let float_only = DeviceSampleSupport { float: true, int16: false, int32: false };
    assert_eq!(select_output_kind(RingFormat::S32, float_only), (OutKind::F32, false));
    let none = DeviceSampleSupport::default();
    assert_eq!(select_output_kind(RingFormat::F32, none), (OutKind::I16, true));
}

#[test]
fn drift_correction_jump_fine_and_duplicate() {
    let mut d = DriftCorrector::new();
    d.set_correction(5000);
    // jump: drop everything available
    assert_eq!(d.take(480), 480);
    assert_eq!((d.correction, d.net_adjust), (4520, 480));
    d.set_correction(5);
    // fine: at most two frames, never the whole packet
    assert_eq!(d.take(480), 2);
    assert_eq!((d.correction, d.net_adjust), (3, 482));
    assert_eq!(d.take(1), 0);
    d.set_correction(-7);
    assert_eq!(d.take(10), -2);
    assert_eq!((d.correction, d.net_adjust), (-5, 480));
    assert_eq!(d.take(0), 0);
}

#[test]
fn adjustment_bytes() {
    let data = [1u8, 2, 3, 4, 5, 6];
    assert_eq!(apply_adjustment(&data, 2, 1), vec![3, 4, 5, 6]);
    assert_eq!(apply_adjustment(&data, 2, -2), vec![1, 2, 1, 2, 1, 2, 3, 4, 5, 6]);
    assert_eq!(apply_adjustment(&data, 2, 0), data.to_vec());
    assert_eq!(frames_to_push(7, 100, 2), 3);
    assert_eq!(frames_to_push(100, 7, 2), 3);
    assert_eq!(content_position(100, -20), 80);
    assert_eq!(content_position(10, -20), 0);
}

#[test]
fn frames_reported_and_flac_readiness() {
    assert_eq!(frames_written(AudioFormat::Flac, 2, 1000), 250);
    assert_eq!(frames_written(AudioFormat::PcmS24le, 2, 1000), 166);
    assert_eq!(frames_written(AudioFormat::PcmS16le, 0, 7), 3);
    let mut buf = b"fLaC".to_vec();
    buf.extend_from_slice(&[0; 38]);
    assert!(flac_stream_ready(&buf));
    assert!(!flac_stream_ready(&buf[..41]));
    buf[0] = b'F';
    assert!(!flac_stream_ready(&buf));
}

#[test]
fn ring_format_f32_normalized_to_i32_exact_for_24bit() {
    // A 24-bit sample normalized by 2^23 must come back exact at 2^31.
    for v in [-8_388_608i32, -1, 0, 1, 8_388_607] {
        let f = v as f32 / 8_388_608.0;
        let b = f.to_le_bytes();
        assert_eq!(RingFormat::F32.to_i32(&b) >> 8, v);
    }
}

fn float_reference(f: f32) -> i32 {
    let c = f.clamp(-1.0, 1.0);
    (c as f64 * 2_147_483_648.0).clamp(i32::MIN as f64, i32::MAX as f64) as i32
}

#[test]
fn ring_format_f32_saturates_and_ignores_nan() {
    let cases: [(f32, i32); 8] = [
        (1.0, i32::MAX),
        (-1.0, i32::MIN),
        (3.5, i32::MAX),
        (-7.25, i32::MIN),
        (f32::INFINITY, i32::MAX),
        (f32::NEG_INFINITY, i32::MIN),
        (f32::NAN, 0),
        (-0.0, 0),
    ];
    for (f, expect) in cases {
        assert_eq!(RingFormat::F32.to_i32(&f.to_le_bytes()), expect, "{f}");
    }
    assert_eq!(RingFormat::F32.to_i32(&0.5f32.to_le_bytes()), 1 << 30);
    assert_eq!(RingFormat::F32.to_i32(&(-0.25f32).to_le_bytes()), -(1 << 29));
    assert_eq!(RingFormat::F32.to_i32(&f32::MIN_POSITIVE.to_le_bytes()), 0);
}

#[test]
fn ring_format_f32_matches_float_scaling_over_bit_patterns() {
    // Every exponent, with fractions spread over the 23 fraction bits.
    for sign in [0u32, 1] {
        for exponent in 0u32..256 {
            for fraction in [0u32, 1, 2, 0x40_0000, 0x55_5555, 0x7F_FFFE, 0x7F_FFFF] {
                let bits = (sign << 31) | (exponent << 23) | fraction;
                let f = f32::from_bits(bits);
                assert_eq!(
                    RingFormat::F32.to_i32(&bits.to_le_bytes()),
                    float_reference(f),
                    "bits {bits:#010x}"
                );
            }
        }
    }
}

#[test]
fn drift_correction_of_whole_writes() {
    let mut d = DriftCorrector::new();
    // jump resync covering the whole write drops it
    d.set_correction(5000);
    assert_eq!(d.correct_write(&[0u8; 16], 4), None);
    assert_eq!((d.correction, d.net_adjust), (4996, 4));
    // fine: two leading frames dropped
    d.set_correction(2);
    assert_eq!(d.correct_write(&[1, 1, 2, 2, 3, 3, 4, 4], 2), Some(vec![3, 3, 4, 4]));
    assert_eq!(d.correction, 0);
    // ahead: the first frame is repeated twice in front
    d.set_correction(-3);
    assert_eq!(d.correct_write(&[7, 8, 9, 10], 2), Some(vec![7, 8, 7, 8, 7, 8, 9, 10]));
    assert_eq!((d.correction, d.net_adjust), (-1, 4));
    // nothing pending: unchanged
    d.set_correction(0);
    assert_eq!(d.correct_write(&[5, 6], 2), Some(vec![5, 6]));
}

#[test]
fn net_adjustment_wraps_as_a_counter() {
    let mut d = DriftCorrector::new();
    d.net_adjust = i64::MAX;
    d.set_correction(1);
    assert_eq!(d.take(4), 1);
    assert_eq!(d.net_adjust, i64::MIN);
}
