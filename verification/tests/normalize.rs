use phantom_core::normalize::{
    normalize_block, normalize_f32, normalize_i16, normalize_u16, NativeBlock,
};
use phantom_core::sample::Sample;

fn value(sample: Sample) -> f32 {
    f32::from_bits(sample.to_bits())
}

#[test]
fn every_signed_sample_matches_float_division() {
    for n in (i16::MIN + 1)..=i16::MAX {
        let expected = n as f32 / i16::MAX as f32;
        assert_eq!(normalize_i16(n).to_bits(), expected.to_bits(), "n = {}", n);
    }
}

#[test]
fn lowest_signed_sample_is_clamped_to_minus_one() {
    assert_eq!(value(normalize_i16(i16::MIN)), -1.0);
    assert_eq!(normalize_i16(i16::MIN).to_bits(), 0xBF80_0000);
}

#[test]
fn every_unsigned_sample_matches_float_expression() {
    for s in 0..=u16::MAX {
        let expected = (s as f32 / u16::MAX as f32) * 2.0 - 1.0;
        assert_eq!(normalize_u16(s).to_bits(), expected.to_bits(), "s = {}", s);
    }
}

#[test]
fn every_normalized_sample_lies_in_unit_range() {
    for n in i16::MIN..=i16::MAX {
        let v = value(normalize_i16(n));
        assert!(-1.0 <= v && v <= 1.0, "n = {}", n);
    }
    for s in 0..=u16::MAX {
        let v = value(normalize_u16(s));
        assert!(-1.0 <= v && v <= 1.0, "s = {}", s);
    }
}

#[test]
fn zero_points_and_full_scale() {
    assert_eq!(normalize_i16(0).to_bits(), 0);
    assert_eq!(normalize_f32(0.0f32.to_bits()).to_bits(), 0);
    assert_eq!(value(normalize_u16(0)), -1.0);
    assert_eq!(value(normalize_i16(i16::MAX)), 1.0);
    assert_eq!(value(normalize_i16(-i16::MAX)), -1.0);
    assert_eq!(value(normalize_u16(u16::MAX)), 1.0);
}

#[test]
fn smallest_signed_step_has_its_exact_pattern() {
    assert_eq!(normalize_i16(1).to_bits(), 0x3800_0100);
    assert_eq!(normalize_i16(-1).to_bits(), 0xB800_0100);
    assert_eq!(normalize_i16(16384).to_bits(), 0x3F00_0100);
}

#[test]
fn unsigned_midpoints_have_their_exact_patterns() {
    // The quotient is rounded before it is doubled, which leaves exactly 2^-16.
    assert_eq!(normalize_u16(32768).to_bits(), 0x3780_0000);
    assert_eq!(normalize_u16(32767).to_bits(), 0xB780_0000);
    assert_eq!(value(normalize_u16(32768)), 1.5258789e-5);
    assert_eq!(value(normalize_u16(49151)), 0.49999237);
}

#[test]
fn signed_samples_keep_their_sign_and_order() {
    let mut previous = value(normalize_i16(i16::MIN + 1));
    for n in (i16::MIN + 2)..=i16::MAX {
        let v = value(normalize_i16(n));
        assert!(previous < v, "n = {}", n);
        assert_eq!(v < 0.0, n < 0);
        previous = v;
    }
}

#[test]
fn unsigned_samples_keep_the_side_of_their_midpoint() {
    for s in 0..=u16::MAX {
        let bits = normalize_u16(s).to_bits();
        assert_eq!(bits < 0x8000_0000, s >= 32768, "s = {}", s);
    }
}

#[test]
fn float_samples_in_range_pass_unchanged() {
    for v in [0.0f32, -0.0, 0.1, -0.2, 0.3, 1.0, -1.0, 1.0e-40, f32::MIN_POSITIVE] {
        assert_eq!(normalize_f32(v.to_bits()).to_bits(), v.to_bits());
    }
}

#[test]
fn float_samples_out_of_range_are_clamped() {
    assert_eq!(value(normalize_f32(1.5f32.to_bits())), 1.0);
    assert_eq!(value(normalize_f32((-2.0f32).to_bits())), -1.0);
    assert_eq!(value(normalize_f32(f32::INFINITY.to_bits())), 1.0);
    assert_eq!(value(normalize_f32(f32::NEG_INFINITY.to_bits())), -1.0);
    assert_eq!(value(normalize_f32(f32::MAX.to_bits())), 1.0);
    assert_eq!(normalize_f32(f32::NAN.to_bits()).to_bits(), 0);
    assert_eq!(normalize_f32(0xFFC0_0001).to_bits(), 0);
    assert_eq!(value(normalize_f32(0x3F80_0001)), 1.0);
}

#[test]
fn sample_from_bits_accepts_exactly_the_unit_range() {
    assert!(Sample::from_bits(0x3F80_0000).is_some());
    assert!(Sample::from_bits(0xBF80_0000).is_some());
    assert!(Sample::from_bits(0x8000_0000).is_some());
    assert!(Sample::from_bits(0).is_some());
    assert!(Sample::from_bits(0x3F80_0001).is_none());
    assert!(Sample::from_bits(0xBF80_0001).is_none());
    assert!(Sample::from_bits(0x7F80_0000).is_none());
    assert!(Sample::from_bits(0x7FC0_0000).is_none());
    assert_eq!(Sample::from_bits(0x3E00_0000).unwrap().to_bits(), 0x3E00_0000);
    assert_eq!(Sample::zero().to_bits(), 0);
    assert_eq!(Sample::clamped(0x4000_0000).to_bits(), 0x3F80_0000);
}

#[test]
fn blocks_are_normalized_in_order() {
    let signed = normalize_block(&NativeBlock::Signed(vec![0, 32767, -32767, 1]));
    let got: Vec<f32> = signed.iter().map(|s| value(*s)).collect();
    assert_eq!(got, vec![0.0, 1.0, -1.0, 1.0 / 32767.0]);

    let unsigned = normalize_block(&NativeBlock::Unsigned(vec![0, 65535]));
    let got: Vec<f32> = unsigned.iter().map(|s| value(*s)).collect();
    assert_eq!(got, vec![-1.0, 1.0]);

    let float = normalize_block(&NativeBlock::Float(vec![
        0.1f32.to_bits(),
        (-0.2f32).to_bits(),
        7.0f32.to_bits(),
    ]));
    let got: Vec<f32> = float.iter().map(|s| value(*s)).collect();
    assert_eq!(got, vec![0.1, -0.2, 1.0]);

    assert!(normalize_block(&NativeBlock::Signed(Vec::new())).is_empty());
}
