use invsqrt_solver::bits::SUBTRACTANT_SCALE;
use invsqrt_solver::hex::{parse_hex, to_hex};

#[test]
fn to_hex_renders_lower_case_without_leading_zeroes() {
    assert_eq!(to_hex(0x5f3759df), b"5f3759df".to_vec());
    assert_eq!(to_hex(0), b"0".to_vec());
    assert_eq!(to_hex(9), b"9".to_vec());
    assert_eq!(to_hex(10), b"a".to_vec());
    assert_eq!(to_hex(16), b"10".to_vec());
    assert_eq!(to_hex(255), b"ff".to_vec());
    assert_eq!(to_hex(u32::MAX), b"ffffffff".to_vec());
}

#[test]
fn parse_hex_reads_digits_back() {
    assert_eq!(parse_hex(b"5f3759df"), Some(0x5f3759df));
    assert_eq!(parse_hex(b"0"), Some(0));
    assert_eq!(parse_hex(b"ffffffff"), Some(u32::MAX));
    // Upper case and leading zeroes are accepted on input.
    assert_eq!(parse_hex(b"5F3759DF"), Some(0x5f3759df));
    assert_eq!(parse_hex(b"00ff"), Some(255));
}

#[test]
fn parse_hex_rejects_bad_input() {
    assert_eq!(parse_hex(b""), None);
    assert_eq!(parse_hex(b"0x5f"), None);
    assert_eq!(parse_hex(b"g"), None);
    assert_eq!(parse_hex(b"12 34"), None);
    // One past u32::MAX, and anything wider, overflows.
    assert_eq!(parse_hex(b"100000000"), None);
    assert_eq!(parse_hex(b"ffffffffff"), None);
    // Leading zeroes do not make a small value overflow.
    assert_eq!(parse_hex(b"000000001"), Some(1));
}

#[test]
fn hex_round_trip_is_exact() {
    for &x in &[0u32, 1, 15, 16, 0x5f3759df, 0x5f375a86, u32::MAX] {
        assert_eq!(parse_hex(&to_hex(x)), Some(x));
    }
}

#[test]
fn reported_subtractant_round_trips_within_float_tolerance() {
    // The report prints the scaled subtractant as hexadecimal; parsing it
    // back and dividing by 2^23 must reproduce the search's value to
    // within one unit in the last place of a 32-bit float.
    let best_param: f64 = 190.29629516601562;
    let scaled = (best_param * SUBTRACTANT_SCALE as f64) as u32;
    let digits = to_hex(scaled);
    let reparsed = parse_hex(&digits).unwrap();
    assert_eq!(reparsed, scaled);
    let recovered = reparsed as f64 / SUBTRACTANT_SCALE as f64;
    let a = (best_param as f32).to_bits() as i64;
    let b = (recovered as f32).to_bits() as i64;
    assert!((a - b).abs() <= 1);
}
