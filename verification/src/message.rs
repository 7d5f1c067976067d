//! Integers of a few bits: how they come apart into the bits that the
//! cipher handles, the most significant first, and how they are read again
//! from a torus element that holds them below its top bit.

use vstd::prelude::*;
use vstd::arithmetic::div_mod::{lemma_fundamental_div_mod_converse, lemma_small_mod};
use vstd::arithmetic::power2::{lemma2_to64, lemma2_to64_rest, lemma_pow2_adds, lemma_pow2_pos, pow2};
use vstd::bits::{lemma_u64_pow2_no_overflow, lemma_u64_shl_is_mul};

verus! {

/// The bit of weight `2^i` of `message`.
pub open spec fn bit_at(message: u8, i: nat) -> bool {
    (message as nat / pow2(i)) % 2 == 1
}

/// The `nb_bits` low bits of `message`, the most significant first.
pub open spec fn bits_of(message: u8, nb_bits: nat) -> Seq<bool> {
    Seq::new(nb_bits, |j: int| bit_at(message, (nb_bits - 1 - j) as nat))
}

/// The torus element that holds the integer `message` of `nb_bits` bits
/// below the top bit of the torus: its most significant bit has half the
/// weight of the top bit.
pub open spec fn message_encoding(message: nat, nb_bits: nat) -> int {
    (message * pow2((63 - nb_bits) as nat)) as int
}

/// The integer of `nb_bits` bits nearest to what `t` holds below its top
/// bit: `t` is read to one bit more than `nb_bits`, rounded, and the bits
/// above are dropped.
pub open spec fn message_decoding(t: u64, nb_bits: nat) -> nat {
    ((t as nat / pow2((62 - nb_bits) as nat) + 1) / 2) % pow2(nb_bits)
}

/// `2^e` as a machine word.
pub fn power_of_two(e: usize) -> (r: u64)
    requires
        e < 64,
    ensures
        r == pow2(e as nat),
        r >= 1,
{
    proof {
        lemma_u64_pow2_no_overflow(e as nat);
        lemma_u64_shl_is_mul(1u64, e as u64);
    }
    1u64 << (e as u64)
}

/// The `nb_bits` low bits of `message`, the most significant first.
pub fn message_bits(message: u8, nb_bits: usize) -> (r: Vec<bool>)
    requires
        nb_bits <= 8,
    ensures
        r@ == bits_of(message, nb_bits as nat),
{
    let mut bits: Vec<bool> = Vec::with_capacity(nb_bits);
    let mut j: usize = 0;
    while j < nb_bits
        invariant
            j <= nb_bits <= 8,
            bits@.len() == j,
            forall|l: int| 0 <= l < j ==> bits@[l] == bit_at(message, (nb_bits - 1 - l) as nat),
        decreases nb_bits - j,
    {
        let weight = power_of_two(nb_bits - 1 - j);
        bits.push((message as u64 / weight) % 2 == 1);
        j = j + 1;
    }
    assert(bits@ =~= bits_of(message, nb_bits as nat));
    bits
}

/// The weight with which the bit of index `p`, counted from the most
/// significant, enters the torus element of its integer, halved: `2^(61 - p)`.
pub fn half_weight(p: usize) -> (r: u64)
    requires
        p <= 61,
    ensures
        r == pow2((61 - p) as nat),
{
    power_of_two(61 - p)
}

/// Reads the integer of `nb_bits` bits that `t` holds below its top bit.
pub fn decode_message(t: u64, nb_bits: usize) -> (r: u64)
    requires
        nb_bits <= 61,
    ensures
        r == message_decoding(t, nb_bits as nat),
{
    let step = power_of_two(62 - nb_bits);
    proof {
        lemma2_to64();
        lemma_pow2_adds(1, (61 - nb_bits) as nat);
        assert(step >= 2);
        vstd::arithmetic::div_mod::lemma_div_is_ordered_by_denominator(t as int, 2, step as int);
    }
    let rounded = (t / step + 1) / 2;
    rounded % power_of_two(nb_bits)
}

/// Reading undoes encoding, also after a perturbation of less than half
/// the weight of the least significant bit on either side.
pub proof fn message_decoding_tolerates_noise(message: nat, nb_bits: nat, noise: int, t: u64)
    requires
        nb_bits <= 61,
        message < pow2(nb_bits),
        -(pow2((62 - nb_bits) as nat) as int) <= noise < pow2((62 - nb_bits) as nat),
        t as int == (message_encoding(message, nb_bits) + noise) % 0x1_0000_0000_0000_0000,
    ensures
        message_decoding(t, nb_bits) == message,
{
    let step = pow2((62 - nb_bits) as nat) as int;
    let range = pow2(nb_bits) as int;
    let m = message as int;
    lemma_pow2_pos((62 - nb_bits) as nat);
    lemma_pow2_pos(nb_bits);
    lemma_pow2_adds(1, (62 - nb_bits) as nat);
    lemma_pow2_adds(nb_bits, (62 - nb_bits) as nat);
    lemma_pow2_adds(2, 62);
    lemma2_to64();
    lemma2_to64_rest();
    assert(pow2((63 - nb_bits) as nat) == 2 * step);
    assert(range * step == pow2(62));
    assert(4 * (range * step) == 0x1_0000_0000_0000_0000);
    let whole = m * (2 * step) + noise;
    assert(message_encoding(message, nb_bits) == m * (2 * step));
    assert(m * (2 * step) == (2 * m) * step) by (nonlinear_arith);
    assert((2 * m) * step + 2 * step <= 2 * (range * step)) by (nonlinear_arith)
        requires
            m < range,
            step > 0,
    ;
    assert(whole == (2 * m) * step + noise);
    assert(0 <= (2 * m) * step) by (nonlinear_arith)
        requires
            m >= 0,
            step > 0,
    ;
    assert(whole < 0x1_0000_0000_0000_0000);
    if noise >= 0 {
        lemma_small_mod(whole as nat, 0x1_0000_0000_0000_0000);
        lemma_fundamental_div_mod_converse(whole, step, 2 * m, noise);
        lemma_small_mod(message, range as nat);
    } else if m >= 1 {
        assert((2 * m) * step >= 2 * step) by (nonlinear_arith)
            requires
                m >= 1,
                step > 0,
        ;
        lemma_small_mod(whole as nat, 0x1_0000_0000_0000_0000);
        assert(whole == (2 * m - 1) * step + (step + noise)) by (nonlinear_arith)
            requires
                whole == (2 * m) * step + noise,
        ;
        lemma_fundamental_div_mod_converse(whole, step, 2 * m - 1, step + noise);
        lemma_small_mod(message, range as nat);
    } else {
        assert(whole == noise);
        assert(4 * (range * step) == (4 * range) * step) by (nonlinear_arith);
        assert(step <= range * step) by (nonlinear_arith)
            requires
                range >= 1,
                step >= 1,
        ;
        lemma_fundamental_div_mod_converse(
            whole,
            0x1_0000_0000_0000_0000,
            -1,
            0x1_0000_0000_0000_0000 + noise,
        );
        assert(t as int == (4 * range) * step + noise);
        assert(t as int == (4 * range - 1) * step + (step + noise)) by (nonlinear_arith)
            requires
                t as int == (4 * range) * step + noise,
        ;
        lemma_fundamental_div_mod_converse(t as int, step, 4 * range - 1, step + noise);
        assert((4 * range - 1 + 1) / 2 == 2 * range);
        lemma_fundamental_div_mod_converse(2 * range, range, 2, 0);
    }
}

} // verus!
