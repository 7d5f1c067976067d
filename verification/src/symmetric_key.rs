//! The symmetric key and the stream of whitened subsets drawn from it: at
//! each step a fresh selection of key bits, without repetition, each of them
//! negated or not by a fresh mask.

use vstd::prelude::*;
use concrete_csprng::RandomGenerator;
use crate::bit::Bit;
use crate::filter::meaning::{homomorphic, readings};
use crate::multiplexer::{models, uniform, Multiplexer};

verus! {

/// The first `count` bytes that the generator of `concrete_csprng` yields
/// when it is seeded with `seed`: the blocks of AES-128 under the key `seed`
/// of the counters from zero on.
pub uninterp spec fn csprng_bytes(seed: u128, count: nat) -> Seq<u8>;

/// Calls `concrete_csprng::RandomGenerator::new` with the seed `seed` and
/// then `RandomGenerator::generate_next` `count` times.
///
/// Believed, not proved: a seeded generator is deterministic, so that its
/// bytes are a function of the seed and of how many were asked for, the same
/// whether the generator runs on the processor's AES instructions or in
/// software. A seeded generator reads nothing from the machine: the
/// generator is never made without a seed here.
#[verifier::external_body]
pub(crate) fn generator_bytes(seed: u128, count: usize) -> (bytes: Vec<u8>)
    ensures
        bytes@.len() == count,
        bytes@ == csprng_bytes(seed, count as nat),
{
    let mut generator = RandomGenerator::new(Some(seed));
    let mut bytes = Vec::with_capacity(count);
    for _ in 0..count {
        bytes.push(generator.generate_next());
    }
    bytes
}

/// The number of the round that comes `steps` rounds after the round
/// `round`. Rounds are numbered modulo 2^64.
pub open spec fn round_after(round: u64, steps: nat) -> u64 {
    ((round + steps) % 0x1_0000_0000_0000_0000) as u64
}

/// Rounds follow one another: one round after `steps` rounds is `steps + 1`
/// rounds after.
pub proof fn round_after_next(round: u64, steps: nat)
    ensures
        round_after(round_after(round, steps), 1) == round_after(round, steps + 1),
        round_after(round, 0) == round,
{
    vstd::arithmetic::div_mod::lemma_add_mod_noop(
        round + steps,
        1,
        0x1_0000_0000_0000_0000,
    );
    vstd::arithmetic::div_mod::lemma_small_mod(1, 0x1_0000_0000_0000_0000);
    vstd::arithmetic::div_mod::lemma_small_mod(round as nat, 0x1_0000_0000_0000_0000);
}

/// The seed of the generator of a round: the seed of the key in the low
/// half, the number of the round in the high half.
pub open spec fn round_seed(seed: u64, round: u64) -> u128 {
    (round as int * 0x1_0000_0000_0000_0000 + seed as int) as u128
}

/// The randomness of the round of that number, for `n` key bits.
pub open spec fn round_bytes(seed: u64, round: u64, n: nat) -> Seq<u8> {
    csprng_bytes(round_seed(seed, round), 9 * n)
}

/// The `t`-th word of the randomness: eight bytes, the lowest first.
pub open spec fn word_at(bytes: Seq<u8>, t: int) -> u64 {
    (bytes[8 * t] as int + bytes[8 * t + 1] as int * 0x100 + bytes[8 * t + 2] as int * 0x1_0000
        + bytes[8 * t + 3] as int * 0x100_0000 + bytes[8 * t + 4] as int * 0x1_0000_0000
        + bytes[8 * t + 5] as int * 0x100_0000_0000 + bytes[8 * t + 6] as int
        * 0x1_0000_0000_0000 + bytes[8 * t + 7] as int * 0x100_0000_0000_0000) as u64
}

/// The randomness of a round of `n` key bits is `9 n` bytes: `n` words, from
/// which the indices are drawn, and `n` bytes, whose lowest bits are the
/// mask.
pub open spec fn mask_at(bytes: Seq<u8>, n: nat, t: int) -> bool {
    bytes[8 * n + t] % 2 == 1
}

/// The whitening mask of a round of `n` key bits.
pub open spec fn mask_of(bytes: Seq<u8>, n: nat) -> Seq<bool> {
    Seq::new(n, |t: int| mask_at(bytes, n, t))
}

/// The place, from `t` on, with which the `t`-th draw exchanges place `t`.
pub open spec fn draw_at(bytes: Seq<u8>, kappa: nat, t: int) -> int {
    t + word_at(bytes, t) as int % (kappa - t)
}

/// The arrangement of the indices `0` to `kappa - 1` after `t` draws: the
/// `t`-th draw exchanges the index at place `t` with the one at a place
/// drawn from `t` on.
pub open spec fn arrangement(bytes: Seq<u8>, kappa: nat, t: nat) -> Seq<int>
    decreases t,
{
    if t == 0 {
        Seq::new(kappa, |i: int| i)
    } else {
        let before = arrangement(bytes, kappa, (t - 1) as nat);
        let r = draw_at(bytes, kappa, t - 1);
        before.update(t - 1, before[r]).update(r, before[t - 1])
    }
}

/// The indices of the key bits of a round: the `t`-th is what the `t`-th
/// draw brings to place `t`.
pub open spec fn selection(bytes: Seq<u8>, kappa: nat, n: nat) -> Seq<int> {
    Seq::new(n, |t: int| arrangement(bytes, kappa, (t + 1) as nat)[t])
}

/// The whitened subset: the key bits at `indices`, each negated where the
/// mask is set.
pub open spec fn whitened_model<M: Multiplexer>(
    key: Seq<M::Model>,
    indices: Seq<int>,
    mask: Seq<bool>,
) -> Seq<M::Model> {
    Seq::new(
        indices.len(),
        |t: int|
            if mask[t] {
                M::not_model(key[indices[t]])
            } else {
                key[indices[t]]
            },
    )
}

/// The whitened subset that the randomness `bytes` draws from `key`.
pub open spec fn subset_model<M: Multiplexer>(key: Seq<M::Model>, n: nat, bytes: Seq<u8>) -> Seq<
    M::Model,
> {
    whitened_model::<M>(key, selection(bytes, key.len(), n), mask_of(bytes, n))
}

/// Whether `p` holds each of the indices `0` to `kappa - 1` once.
pub open spec fn is_arrangement(p: Seq<int>, kappa: nat) -> bool {
    &&& p.len() == kappa
    &&& forall|i: int| 0 <= i < kappa ==> 0 <= #[trigger] p[i] < kappa
    &&& forall|i: int, j: int| 0 <= i < j < kappa ==> #[trigger] p[i] != #[trigger] p[j]
}

/// Every arrangement holds each index once.
pub proof fn arrangement_is_arrangement(bytes: Seq<u8>, kappa: nat, t: nat)
    requires
        t <= kappa,
    ensures
        is_arrangement(arrangement(bytes, kappa, t), kappa),
    decreases t,
{
    if t > 0 {
        arrangement_is_arrangement(bytes, kappa, (t - 1) as nat);
        let r = draw_at(bytes, kappa, t - 1);
        assert(t - 1 <= r < kappa) by {
            vstd::arithmetic::div_mod::lemma_mod_bound(
                word_at(bytes, t - 1) as int,
                kappa - (t - 1),
            );
        }
    }
}

/// Later draws leave the places before them as they are.
pub proof fn arrangement_settles(bytes: Seq<u8>, kappa: nat, t: nat, later: nat, place: int)
    requires
        0 <= place < t <= later <= kappa,
    ensures
        arrangement(bytes, kappa, later)[place] == arrangement(bytes, kappa, t)[place],
    decreases later,
{
    if later > t {
        arrangement_settles(bytes, kappa, t, (later - 1) as nat, place);
        arrangement_is_arrangement(bytes, kappa, (later - 1) as nat);
        let r = draw_at(bytes, kappa, later - 1);
        assert(later - 1 <= r < kappa) by {
            vstd::arithmetic::div_mod::lemma_mod_bound(
                word_at(bytes, later - 1) as int,
                kappa - (later - 1),
            );
        }
    }
}

/// The selection is an injection into the indices of the key: no key bit
/// is drawn twice in a round.
pub proof fn selection_is_injective(bytes: Seq<u8>, kappa: nat, n: nat)
    requires
        n <= kappa,
    ensures
        selection(bytes, kappa, n).len() == n,
        forall|t: int| 0 <= t < n ==> 0 <= #[trigger] selection(bytes, kappa, n)[t] < kappa,
        forall|s: int, t: int|
            0 <= s < t < n ==> #[trigger] selection(bytes, kappa, n)[s] != #[trigger] selection(
                bytes,
                kappa,
                n,
            )[t],
{
    let sel = selection(bytes, kappa, n);
    assert forall|t: int| 0 <= t < n implies 0 <= #[trigger] sel[t] < kappa by {
        arrangement_is_arrangement(bytes, kappa, (t + 1) as nat);
    }
    assert forall|s: int, t: int| 0 <= s < t < n implies #[trigger] sel[s] != #[trigger] sel[t] by {
        arrangement_settles(bytes, kappa, (s + 1) as nat, (t + 1) as nat, s);
        arrangement_is_arrangement(bytes, kappa, (t + 1) as nat);
    }
}

/// Reads the `t`-th word of the randomness.
pub(crate) fn word(bytes: &[u8], t: usize) -> (r: u64)
    requires
        8 * t + 8 <= bytes@.len(),
    ensures
        r == word_at(bytes@, t as int),
{
    let total = bytes.len();
    assert(8 * t + 8 <= total);
    let base = 8 * t;
    (bytes[base] as u64) + (bytes[base + 1] as u64) * 0x100 + (bytes[base + 2] as u64) * 0x1_0000
        + (bytes[base + 3] as u64) * 0x100_0000 + (bytes[base + 4] as u64) * 0x1_0000_0000 + (
    bytes[base + 5] as u64) * 0x100_0000_0000 + (bytes[base + 6] as u64) * 0x1_0000_0000_0000 + (
    bytes[base + 7] as u64) * 0x100_0000_0000_0000
}

/// Draws the whitened subset of `n` key bits from `key` with the randomness
/// `bytes`: `n` words for the indices, then `n` bytes for the mask.
pub fn whitened_subset<M: Multiplexer>(key: &[M], n: usize, bytes: &[u8]) -> (r: Vec<M>)
    requires
        n <= key@.len(),
        bytes@.len() == 9 * n,
        uniform(key@),
    ensures
        r@.len() == n,
        models(r@) == subset_model::<M>(models(key@), n as nat, bytes@),
        uniform(r@),
        n > 0 ==> r@[0].shape() == key@[0].shape(),
{
    let kappa = key.len();
    let total = bytes.len();
    let mut places: Vec<usize> = Vec::with_capacity(kappa);
    let mut i: usize = 0;
    while i < kappa
        invariant
            i <= kappa,
            places@.len() == i,
            forall|l: int| 0 <= l < i ==> places@[l] == l,
        decreases kappa - i,
    {
        places.push(i);
        i = i + 1;
    }
    let ghost keys = models(key@);
    let mut round: Vec<M> = Vec::with_capacity(n);
    let mut t: usize = 0;
    assert(places@.map_values(|p: usize| p as int) =~= arrangement(bytes@, kappa as nat, 0));
    while t < n
        invariant
            t <= n <= kappa,
            kappa == key@.len(),
            bytes@.len() == 9 * n,
            total == bytes@.len(),
            uniform(key@),
            keys == models(key@),
            places@.map_values(|p: usize| p as int) == arrangement(bytes@, kappa as nat, t as nat),
            round@.len() == t,
            forall|l: int| 0 <= l < t ==> (#[trigger] round@[l]).shape() == key@[0].shape(),
            forall|l: int|
                0 <= l < t ==> (#[trigger] round@[l]).model() == subset_model::<M>(
                    keys,
                    n as nat,
                    bytes@,
                )[l],
        decreases n - t,
    {
        proof {
            arrangement_is_arrangement(bytes@, kappa as nat, t as nat);
            vstd::arithmetic::div_mod::lemma_mod_bound(
                word_at(bytes@, t as int) as int,
                kappa - t,
            );
        }
        let ghost before = places@.map_values(|p: usize| p as int);
        let span = (kappa - t) as u64;
        let r = t + (word(bytes, t) % span) as usize;
        assert(r == draw_at(bytes@, kappa as nat, t as int));
        let here = places[t];
        let there = places[r];
        assert(here == before[t as int]);
        assert(there == before[r as int]);
        places.set(t, there);
        places.set(r, here);
        assert(places@.map_values(|p: usize| p as int) =~= arrangement(
            bytes@,
            kappa as nat,
            (t + 1) as nat,
        ));
        proof {
            arrangement_is_arrangement(bytes@, kappa as nat, (t + 1) as nat);
        }
        let index = places[t];
        assert(index == selection(bytes@, kappa as nat, n as nat)[t as int]);
        let masked = bytes[8 * n + t] % 2 == 1;
        let bit = if masked {
            key[index].not()
        } else {
            key[index].duplicate()
        };
        assert(keys[index as int] == key@[index as int].model());
        round.push(bit);
        t = t + 1;
    }
    assert(models(round@) =~= subset_model::<M>(keys, n as nat, bytes@));
    round
}

/// A symmetric key: the key bits, of which each round draws `n`, and the
/// seed from which the draws of every round derive.
pub struct SymmetricKey<M: Multiplexer> {
    key: Vec<M>,
    n: usize,
    seed: u64,
    round: u64,
}

impl<M: Multiplexer> SymmetricKey<M> {
    /// The key bits.
    pub closed spec fn key(&self) -> Seq<M> {
        self.key@
    }

    /// The number of key bits of a round.
    pub closed spec fn n(&self) -> nat {
        self.n as nat
    }

    /// The seed shared with the paired key.
    pub closed spec fn seed(&self) -> u64 {
        self.seed
    }

    /// The number of rounds drawn so far.
    pub closed spec fn round(&self) -> u64 {
        self.round
    }

    /// Whether rounds can be drawn: the key has a bit for each bit of a
    /// round, the randomness of a round can be held in memory, and the key
    /// bits were all made for the same dimensions.
    pub open spec fn well_formed(&self) -> bool {
        &&& self.n() <= self.key().len()
        &&& 9 * self.n() <= usize::MAX
        &&& uniform(self.key())
    }

    /// The whitened subset of the round of that number.
    pub open spec fn subset(&self, round: u64) -> Seq<M::Model> {
        subset_model::<M>(models(self.key()), self.n(), round_bytes(self.seed(), round, self.n()))
    }

    /// The key of the bits `key`, at its first round.
    pub fn new(key: Vec<M>, n: usize, seed: u64) -> (r: SymmetricKey<M>)
        ensures
            r.key() == key@,
            r.n() == n,
            r.seed() == seed,
            r.round() == 0,
    {
        SymmetricKey { key, n, seed, round: 0 }
    }

    /// Draws the whitened subset of the next round.
    pub fn random_whitened_subset(&mut self) -> (r: Vec<M>)
        requires
            old(self).well_formed(),
        ensures
            r@.len() == old(self).n(),
            models(r@) == old(self).subset(old(self).round()),
            uniform(r@),
            old(self).n() > 0 ==> r@[0].shape() == old(self).key()[0].shape(),
            final(self).key() == old(self).key(),
            final(self).n() == old(self).n(),
            final(self).seed() == old(self).seed(),
            final(self).round() == round_after(old(self).round(), 1),
    {
        let seed: u128 = (self.round as u128) * 0x1_0000_0000_0000_0000u128 + (self.seed as u128);
        let bytes = generator_bytes(seed, 9 * self.n);
        let round = whitened_subset(self.key.as_slice(), self.n, bytes.as_slice());
        self.round = self.round.wrapping_add(1);
        round
    }
}

/// A whitened key bit reads as the key bit it was drawn from, negated where
/// the mask is set.
pub proof fn whitened_meaning<M: Multiplexer>(
    key: Seq<M::Model>,
    indices: Seq<int>,
    mask: Seq<bool>,
    key_of: spec_fn(M::Model) -> bool,
    bit_of: spec_fn(<M::Bit as Bit>::Model) -> bool,
)
    requires
        homomorphic::<M>(key_of, bit_of),
        forall|t: int| 0 <= t < indices.len() ==> 0 <= #[trigger] indices[t] < key.len(),
    ensures
        readings(whitened_model::<M>(key, indices, mask), key_of) == whitened_model::<bool>(
            readings(key, key_of),
            indices,
            mask,
        ),
{
    assert(readings(whitened_model::<M>(key, indices, mask), key_of) =~= whitened_model::<bool>(
        readings(key, key_of),
        indices,
        mask,
    ));
}

} // verus!
