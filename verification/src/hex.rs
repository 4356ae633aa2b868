//! Hexadecimal reporting of the magic subtractant.
//!
//! The winning subtractant is reported as a hexadecimal 32-bit literal.
//! `to_hex` renders a value as lower-case ASCII digits without leading
//! zeroes, and `parse_hex` reads any string of hex digits (either case)
//! back, so the reported constant round-trips exactly.

use vstd::prelude::*;

verus! {

/// ASCII bytes that count as hexadecimal digits (both cases accepted).
pub open spec fn is_hex_digit(c: u8) -> bool {
    (0x30 <= c <= 0x39) || (0x61 <= c <= 0x66) || (0x41 <= c <= 0x46)
}

/// Numeric value of an ASCII hex digit (0 for anything else).
pub open spec fn hex_digit_value(c: u8) -> u8 {
    if 0x30 <= c <= 0x39 {
        (c - 0x30) as u8
    } else if 0x61 <= c <= 0x66 {
        (c - 0x61 + 10) as u8
    } else if 0x41 <= c <= 0x46 {
        (c - 0x41 + 10) as u8
    } else {
        0
    }
}

/// The lower-case ASCII digit for a value below 16.
pub open spec fn hex_digit_of(d: u8) -> u8
    recommends
        d < 16,
{
    if d < 10 {
        (0x30 + d) as u8
    } else {
        (0x61 + d - 10) as u8
    }
}

/// The number denoted by a big-endian string of hex digits.
pub open spec fn hex_value(s: Seq<u8>) -> int
    decreases s.len(),
{
    if s.len() == 0 {
        0
    } else {
        hex_value(s.drop_last()) * 16 + hex_digit_value(s.last())
    }
}

/// The canonical rendering of `x`: lower case, no leading zeroes.
pub open spec fn hex_digits_of(x: u32) -> Seq<u8>
    decreases x,
{
    if x < 16 {
        seq![hex_digit_of(x as u8)]
    } else {
        hex_digits_of(x / 16).push(hex_digit_of((x % 16) as u8))
    }
}

/// 16 raised to `n`.
pub open spec fn pow16(n: nat) -> int
    decreases n,
{
    if n == 0 {
        1
    } else {
        16 * pow16((n - 1) as nat)
    }
}

pub proof fn lemma_pow16_pos(n: nat)
    ensures
        pow16(n) >= 1,
    decreases n,
{
    if n > 0 {
        lemma_pow16_pos((n - 1) as nat);
    }
}

/// A digit string denotes a value between 0 (inclusive) and 16 to its
/// length (exclusive).
pub proof fn lemma_hex_value_bounds(s: Seq<u8>)
    ensures
        0 <= hex_value(s) < pow16(s.len()),
    decreases s.len(),
{
    if s.len() > 0 {
        lemma_hex_value_bounds(s.drop_last());
    }
}

/// Splitting a digit string: the prefix's value weighted by the length of
/// the suffix, plus the suffix's value.
pub proof fn lemma_hex_value_split(s: Seq<u8>, i: int)
    requires
        0 <= i <= s.len(),
    ensures
        hex_value(s) == hex_value(s.take(i)) * pow16((s.len() - i) as nat) + hex_value(
            s.skip(i),
        ),
    decreases s.len(),
{
    if i == s.len() {
        assert(s.take(i) =~= s);
        assert(s.skip(i) =~= Seq::<u8>::empty());
        assert(hex_value(s.skip(i)) == 0);
        assert(pow16(0) == 1);
    } else {
        let t = s.drop_last();
        lemma_hex_value_split(t, i);
        assert(t.take(i) =~= s.take(i));
        assert(s.skip(i).drop_last() =~= t.skip(i));
        assert(s.skip(i).last() == s.last());
        let a = hex_value(s.take(i));
        let p = pow16((t.len() - i) as nat);
        let rest = hex_value(t.skip(i));
        let d = hex_digit_value(s.last());
        assert(hex_value(t) == a * p + rest);
        assert(hex_value(s) == hex_value(t) * 16 + d);
        assert(s.skip(i).len() > 0);
        assert(hex_value(s.skip(i)) == rest * 16 + d);
        assert((a * p + rest) * 16 == a * (p * 16) + rest * 16) by (nonlinear_arith);
        assert(pow16((s.len() - i) as nat) == 16 * p);
        assert(a * (p * 16) == a * (16 * p)) by (nonlinear_arith);
    }
}

/// The canonical rendering of `x` denotes `x` again.
pub proof fn lemma_hex_digits_value(x: u32)
    ensures
        hex_value(hex_digits_of(x)) == x,
    decreases x,
{
    if x < 16 {
        let d = hex_digit_of(x as u8);
        assert(hex_digit_value(d) == x);
        assert(seq![d].drop_last() =~= Seq::<u8>::empty());
        assert(hex_value(Seq::<u8>::empty()) == 0);
        assert(hex_value(seq![d]) == hex_value(seq![d].drop_last()) * 16 + hex_digit_value(
            seq![d].last(),
        ));
    } else {
        lemma_hex_digits_value(x / 16);
        let pre = hex_digits_of(x / 16);
        let d = hex_digit_of((x % 16) as u8);
        assert(hex_digit_value(d) == x % 16);
        assert(pre.push(d).drop_last() =~= pre);
        assert(pre.push(d).last() == d);
        assert(hex_value(pre.push(d)) == hex_value(pre) * 16 + hex_digit_value(d));
        assert(x / 16 * 16 + x % 16 == x) by (nonlinear_arith);
    }
}

/// The canonical rendering is nonempty, made of lower-case digits, and
/// free of leading zeroes.
pub proof fn lemma_hex_digits_valid(x: u32)
    ensures
        hex_digits_of(x).len() >= 1,
        forall|i: int|
            0 <= i < hex_digits_of(x).len() ==> is_hex_digit(#[trigger] hex_digits_of(x)[i]),
        x > 0 ==> hex_digit_value(hex_digits_of(x)[0]) != 0,
        x < 16 ==> hex_digits_of(x).len() == 1,
    decreases x,
{
    if x >= 16 {
        lemma_hex_digits_valid(x / 16);
        let pre = hex_digits_of(x / 16);
        let d = hex_digit_of((x % 16) as u8);
        assert(hex_digits_of(x) == pre.push(d));
        assert(forall|i: int|
            0 <= i < pre.len() ==> #[trigger] pre.push(d)[i] == pre[i]);
        assert(pre.push(d)[pre.len() as int] == d);
    }
}

/// Exec rendering of one digit.
fn hex_digit_ascii(d: u8) -> (r: u8)
    requires
        d < 16,
    ensures
        r == hex_digit_of(d),
{
    if d < 10 {
        0x30 + d
    } else {
        0x61 + (d - 10)
    }
}

/// Render `x` as lower-case hexadecimal ASCII without leading zeroes,
/// exactly as the final report prints it.
pub fn to_hex(x: u32) -> (r: Vec<u8>)
    ensures
        r@ == hex_digits_of(x),
        hex_value(r@) == x,
    decreases x,
{
    proof {
        lemma_hex_digits_value(x);
    }
    if x < 16 {
        let mut v: Vec<u8> = Vec::new();
        v.push(hex_digit_ascii(x as u8));
        proof {
            assert(v@ =~= hex_digits_of(x));
        }
        v
    } else {
        let mut v = to_hex(x / 16);
        v.push(hex_digit_ascii((x % 16) as u8));
        proof {
            assert(v@ =~= hex_digits_of(x));
        }
        v
    }
}

/// Exec value of one ASCII digit.
fn hex_digit_value_ascii(c: u8) -> (r: Option<u8>)
    ensures
        r is Some <==> is_hex_digit(c),
        r is Some ==> r == Some(hex_digit_value(c)),
{
    if 0x30 <= c && c <= 0x39 {
        Some(c - 0x30)
    } else if 0x61 <= c && c <= 0x66 {
        Some(c - 0x61 + 10)
    } else if 0x41 <= c && c <= 0x46 {
        Some(c - 0x41 + 10)
    } else {
        None
    }
}

/// Parse a big-endian string of hex digits back to a 32-bit value.
/// Succeeds exactly on nonempty all-digit strings whose value fits.
pub fn parse_hex(s: &[u8]) -> (r: Option<u32>)
    ensures
        r is Some <==> (s@.len() > 0 && (forall|i: int|
            0 <= i < s@.len() ==> is_hex_digit(#[trigger] s@[i])) && hex_value(s@) <= u32::MAX),
        r is Some ==> r == Some(hex_value(s@) as u32),
{
    if s.len() == 0 {
        return None;
    }
    let mut acc: u64 = 0;
    let mut i: usize = 0;
    proof {
        assert(s@.take(0) =~= Seq::<u8>::empty());
    }
    while i < s.len()
        invariant
            0 <= i <= s@.len(),
            acc == hex_value(s@.take(i as int)),
            acc <= u32::MAX,
            forall|j: int| 0 <= j < i ==> is_hex_digit(#[trigger] s@[j]),
        decreases s@.len() - i,
    {
        let c = s[i];
        proof {
            assert(s@.take(i as int + 1).drop_last() =~= s@.take(i as int));
            assert(s@.take(i as int + 1).last() == s@[i as int]);
        }
        match hex_digit_value_ascii(c) {
            None => {
                return None;
            },
            Some(d) => {
                acc = acc * 16 + d as u64;
                i = i + 1;
                if acc > u32::MAX as u64 {
                    proof {
                        lemma_hex_value_split(s@, i as int);
                        lemma_hex_value_bounds(s@.skip(i as int));
                        let a = hex_value(s@.take(i as int));
                        let p = pow16((s@.len() - i) as nat);
                        lemma_pow16_pos((s@.len() - i) as nat);
                        assert(a * p >= a) by (nonlinear_arith)
                            requires
                                a > u32::MAX,
                                p >= 1,
                        ;
                    }
                    return None;
                }
            },
        }
    }
    proof {
        assert(s@.take(s@.len() as int) =~= s@);
    }
    Some(acc as u32)
}

} // verus!
