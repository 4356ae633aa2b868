use invsqrt_solver::bits::{decode_le, encode_le, initial_guess_bits, initial_guess_le, SUBTRACTANT_SCALE};

const CLASSIC_SUBTRACTANT: u32 = 0x5f3759df;

#[test]
fn encode_le_gives_little_endian_bytes() {
    assert_eq!(encode_le(0x12345678), [0x78, 0x56, 0x34, 0x12]);
    assert_eq!(encode_le(0), [0, 0, 0, 0]);
    assert_eq!(encode_le(u32::MAX), [0xff, 0xff, 0xff, 0xff]);
}

#[test]
fn decode_le_reads_little_endian_bytes() {
    assert_eq!(decode_le(&[0x78, 0x56, 0x34, 0x12]), 0x12345678);
    assert_eq!(decode_le(&[0xdf, 0x59, 0x37, 0x5f]), CLASSIC_SUBTRACTANT);
}

#[test]
fn u32_round_trip_is_lossless() {
    for &x in &[0u32, 1, 0x3f800000, CLASSIC_SUBTRACTANT, 0x80000000, u32::MAX] {
        assert_eq!(decode_le(&encode_le(x)), x);
    }
}

#[test]
fn float_bit_pattern_round_trip_is_lossless() {
    // Any 32-bit float pattern, reinterpreted to an integer and back,
    // keeps its bits exactly, NaN payloads included.
    let patterns: Vec<f32> = vec![1.0, 4.0, 0.15625, -2.5, 0.0, -0.0, f32::INFINITY, f32::NEG_INFINITY];
    for x in patterns {
        let bytes = x.to_le_bytes();
        let as_int = decode_le(&bytes);
        assert_eq!(as_int, x.to_bits());
        let back = encode_le(as_int);
        assert_eq!(back, bytes);
        assert_eq!(f32::from_le_bytes(back).to_bits(), x.to_bits());
    }
    // A NaN pattern survives bit-for-bit even though the value compares
    // unequal to itself.
    let nan_bits: u32 = 0x7fc0_1234;
    assert_eq!(decode_le(&encode_le(nan_bits)), nan_bits);
}

#[test]
fn initial_guess_matches_the_bit_hack() {
    let one_bits = 1.0f32.to_bits();
    assert_eq!(one_bits, 0x3f800000);
    let guess = initial_guess_bits(one_bits, CLASSIC_SUBTRACTANT);
    assert_eq!(guess, CLASSIC_SUBTRACTANT - (one_bits >> 1));
    assert_eq!(guess, 0x3f7759df);
}

#[test]
fn initial_guess_wraps_on_underflow() {
    // A subtractant smaller than the shifted input wraps around, exactly
    // as 32-bit unsigned arithmetic does.
    assert_eq!(initial_guess_bits(2, 0), u32::MAX);
    assert_eq!(initial_guess_bits(0x3f800000, 0), 0u32.wrapping_sub(0x3f800000 >> 1));
}

#[test]
fn initial_guess_le_runs_the_whole_bit_step() {
    let input = 1.0f32;
    let out = initial_guess_le(&input.to_le_bytes(), CLASSIC_SUBTRACTANT);
    let guess = f32::from_le_bytes(out);
    // The bit-hack guess of 1/sqrt(1.0) with the classic constant is a
    // little under 1.
    assert!(guess > 0.9 && guess < 1.1);
    assert_eq!(guess.to_bits(), 0x3f7759df);
}

#[test]
fn subtractant_scale_is_two_to_the_23() {
    assert_eq!(SUBTRACTANT_SCALE, 1u32 << 23);
    // The classic constant in the search's scaled units is near 190.3.
    let scaled = CLASSIC_SUBTRACTANT as f64 / SUBTRACTANT_SCALE as f64;
    assert!(scaled > 190.0 && scaled < 191.0);
}
