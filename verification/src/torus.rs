//! Arithmetic on the discretised torus: the integers modulo 2^64, in which a
//! bit is encoded as zero or one half.

use vstd::prelude::*;

verus! {

/// An element of the discretised torus: an integer modulo 2^64.
pub type Torus = u64;

/// The encoding of the bit `1`: one half of the torus, the top bit of the word.
pub const HALF: u64 = 0x8000_0000_0000_0000u64;

/// The number of torus elements, 2^64.
pub open spec fn modulus() -> int {
    0x1_0000_0000_0000_0000
}

pub open spec fn torus_add(a: u64, b: u64) -> u64 {
    ((a + b) % modulus()) as u64
}

pub open spec fn torus_neg(a: u64) -> u64 {
    ((modulus() - a) % modulus()) as u64
}

pub open spec fn torus_scale(a: u64, factor: u64) -> u64 {
    ((a * factor) % modulus()) as u64
}

/// The encoding of a bit at the top of the torus.
pub open spec fn encoding(b: bool) -> u64 {
    if b { HALF } else { 0u64 }
}

/// The bit whose encoding is nearest to `t`: `1` for the half of the torus
/// centred on one half, `0` for the half centred on zero.
pub open spec fn decoding(t: u64) -> bool {
    0x4000_0000_0000_0000 <= t < 0xC000_0000_0000_0000
}

/// Sum of two torus elements.
pub fn sum(a: u64, b: u64) -> (r: u64)
    ensures
        r == torus_add(a, b),
{
    a.wrapping_add(b)
}

/// Opposite of a torus element.
pub fn opposite(a: u64) -> (r: u64)
    ensures
        r == torus_neg(a),
{
    0u64.wrapping_sub(a)
}

/// Product of a torus element by an integer.
pub fn scaled(a: u64, factor: u64) -> (r: u64)
    ensures
        r == torus_scale(a, factor),
{
    a.wrapping_mul(factor)
}

/// Encodes a bit at the top of the torus.
pub fn encode(b: bool) -> (r: u64)
    ensures
        r == encoding(b),
{
    if b { HALF } else { 0u64 }
}

/// Decodes a torus element to the bit whose encoding is nearest.
pub fn decode(t: u64) -> (b: bool)
    ensures
        b == decoding(t),
{
    0x4000_0000_0000_0000u64 <= t && t < 0xC000_0000_0000_0000u64
}

/// Decoding undoes encoding, also after a perturbation of less than a
/// quarter of the torus on either side.
pub proof fn decoding_tolerates_noise(b: bool, noise: u64)
    requires
        noise < 0x4000_0000_0000_0000 || noise > 0xC000_0000_0000_0000,
    ensures
        decoding(torus_add(encoding(b), noise)) == b,
{
}

/// Negating an encoded bit, as `one half minus it`, encodes the negated bit.
pub proof fn half_minus_encoding(b: bool)
    ensures
        torus_add(torus_neg(encoding(b)), HALF) == encoding(!b),
{
}

/// `One half minus` a torus element decodes to the negated bit, but on the
/// two boundaries between the halves of the torus.
pub proof fn half_minus_flips_decoding(t: u64)
    requires
        t != 0x4000_0000_0000_0000,
        t != 0xC000_0000_0000_0000,
    ensures
        decoding(torus_add(torus_neg(t), HALF)) == !decoding(t),
{
}

/// Adding two encoded bits encodes their exclusive or.
pub proof fn encoding_add_is_xor(a: bool, b: bool)
    ensures
        torus_add(encoding(a), encoding(b)) == encoding(a != b),
{
}

} // verus!
