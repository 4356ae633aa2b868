//! Bit-level primitives of the fast inverse-square-root approximation.
//!
//! A 32-bit float is carried here as its raw little-endian bit pattern: a
//! `u32`, or the four bytes that encode it.  The initial guess of the
//! approximation is pure integer arithmetic on that pattern: shift the bits
//! right by one and subtract them from the magic constant, wrapping on
//! underflow.

use vstd::prelude::*;

verus! {

/// Scale between the subtractant as the search carries it (a real number
/// near 190.3) and the 32-bit magic constant: one unit of the search value
/// is `2^23`, the width of a float's mantissa field.
pub const SUBTRACTANT_SCALE: u32 = 0x80_0000;

/// The little-endian byte sequence of a 32-bit pattern.
pub open spec fn le_bytes_of(x: u32) -> Seq<u8> {
    seq![
        (x & 0xff) as u8,
        ((x >> 8) & 0xff) as u8,
        ((x >> 16) & 0xff) as u8,
        ((x >> 24) & 0xff) as u8,
    ]
}

/// The 32-bit pattern denoted by four little-endian bytes.
pub open spec fn u32_of_le_bytes(b: Seq<u8>) -> u32
    recommends
        b.len() == 4,
{
    (b[0] + b[1] * 0x100 + b[2] * 0x1_0000 + b[3] * 0x100_0000) as u32
}

/// Serialize a 32-bit pattern into its four little-endian bytes.
pub fn encode_le(x: u32) -> (r: [u8; 4])
    ensures
        r@ == le_bytes_of(x),
{
    let r: [u8; 4] = [
        (x & 0xff) as u8,
        ((x >> 8) & 0xff) as u8,
        ((x >> 16) & 0xff) as u8,
        ((x >> 24) & 0xff) as u8,
    ];
    proof {
        assert(r@ =~= le_bytes_of(x));
    }
    r
}

/// Read a 32-bit pattern back out of four little-endian bytes.
pub fn decode_le(b: &[u8; 4]) -> (r: u32)
    ensures
        r == u32_of_le_bytes(b@),
{
    let b0 = b[0] as u32;
    let b1 = b[1] as u32;
    let b2 = b[2] as u32;
    let b3 = b[3] as u32;
    b0 + b1 * 0x100 + b2 * 0x1_0000 + b3 * 0x100_0000
}

/// Decoding the little-endian bytes of a pattern gives the pattern back.
pub proof fn lemma_le_round_trip(x: u32)
    ensures
        u32_of_le_bytes(le_bytes_of(x)) == x,
{
    assert(((x & 0xff) as u8) + (((x >> 8) & 0xff) as u8) * 0x100 + (((x >> 16) & 0xff) as u8)
        * 0x1_0000 + (((x >> 24) & 0xff) as u8) * 0x100_0000 == x) by (bit_vector);
}

/// Re-encoding the pattern denoted by four bytes gives the bytes back.
pub proof fn lemma_bytes_round_trip(b: Seq<u8>)
    requires
        b.len() == 4,
    ensures
        le_bytes_of(u32_of_le_bytes(b)) == b,
{
    let b0 = b[0];
    let b1 = b[1];
    let b2 = b[2];
    let b3 = b[3];
    let x = u32_of_le_bytes(b);
    assert(((b0 + b1 * 0x100 + b2 * 0x1_0000 + b3 * 0x100_0000) as u32) & 0xff == b0)
        by (bit_vector);
    assert((((b0 + b1 * 0x100 + b2 * 0x1_0000 + b3 * 0x100_0000) as u32) >> 8) & 0xff == b1)
        by (bit_vector);
    assert((((b0 + b1 * 0x100 + b2 * 0x1_0000 + b3 * 0x100_0000) as u32) >> 16) & 0xff == b2)
        by (bit_vector);
    assert((((b0 + b1 * 0x100 + b2 * 0x1_0000 + b3 * 0x100_0000) as u32) >> 24) & 0xff == b3)
        by (bit_vector);
    assert(le_bytes_of(x) =~= b);
}

/// The bit-hack initial guess on raw bit patterns: the input bits shifted
/// right by one, subtracted from the magic subtractant with 32-bit
/// wraparound.
pub open spec fn guess_bits(input_bits: u32, subtractant: u32) -> u32 {
    if input_bits >> 1 <= subtractant {
        (subtractant - (input_bits >> 1)) as u32
    } else {
        (subtractant - (input_bits >> 1) + 0x1_0000_0000) as u32
    }
}

/// Compute the initial guess from the input's bit pattern.  Ill-chosen
/// inputs may yield a pattern denoting NaN, infinity or a negative float;
/// that is the caller's concern, the bit arithmetic itself is total.
pub fn initial_guess_bits(input_bits: u32, subtractant: u32) -> (r: u32)
    ensures
        r == guess_bits(input_bits, subtractant),
        input_bits >> 1 <= subtractant ==> r == subtractant - (input_bits >> 1),
        input_bits >> 1 > subtractant ==> r == subtractant - (input_bits >> 1) + 0x1_0000_0000,
{
    subtractant.wrapping_sub(input_bits >> 1)
}

/// The whole bit-level approximation step, from the input float's
/// little-endian bytes to the guess's: reinterpret the bytes as an
/// integer, perform the magic subtraction, reinterpret the result as
/// float bytes again.
pub fn initial_guess_le(input: &[u8; 4], subtractant: u32) -> (r: [u8; 4])
    ensures
        r@ == le_bytes_of(guess_bits(u32_of_le_bytes(input@), subtractant)),
{
    let input_bits = decode_le(input);
    let output_bits = initial_guess_bits(input_bits, subtractant);
    encode_le(output_bits)
}

} // verus!
