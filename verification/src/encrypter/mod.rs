//! The cipher: a symmetric key and a filter, which together yield one
//! keystream bit per message bit.

use vstd::prelude::*;
use crate::bit::Bit;
use crate::fhe::{GlweSecretKey, StandardDev};
use crate::filter::Filter;
use crate::multiplexer::{uniform, Multiplexer};
use crate::symmetric_key::{round_after, round_after_next, word, word_at, SymmetricKey};

pub mod parameters;
pub mod pairing;
pub mod storage;

pub use parameters::{Parameters, SystemParameters};

verus! {

/// The value of the `i`-th key bit that the randomness `bytes` decides: the
/// lowest bit of the byte after the eight bytes of the seed and `i` more.
pub open spec fn decision_at(bytes: Seq<u8>, i: int) -> bool {
    bytes[8 + i] % 2 == 1
}

/// The values of the `kappa` key bits that the randomness decides.
pub open spec fn decisions_of(bytes: Seq<u8>, kappa: nat) -> Seq<bool> {
    Seq::new(kappa, |i: int| decision_at(bytes, i))
}

/// Whether the key bits of `key` have the values `values`, one by one.
pub open spec fn key_holds<M: Multiplexer>(key: Seq<M>, values: Seq<bool>) -> bool {
    &&& key.len() == values.len()
    &&& forall|i: int| 0 <= i < key.len() ==> M::holds((#[trigger] key[i]).model(), values[i])
}

/// One end of the cipher, in the world of `M`.
pub struct Encrypter<M: Multiplexer> {
    key: SymmetricKey<M>,
    filter: Filter,
}

/// Whether two ends of the cipher were made together: they hold the same
/// seed, stand at the same round, have the same round size and filter, and
/// their key bits have the same values, each in its world.
pub open spec fn paired<M: Multiplexer, U: Multiplexer>(a: &Encrypter<M>, b: &Encrypter<U>) -> bool {
    &&& a.key().seed() == b.key().seed()
    &&& a.key().round() == b.key().round()
    &&& a.key().n() == b.key().n()
    &&& a.filter().category() == b.filter().category()
    &&& a.filter().parameters() == b.filter().parameters()
    &&& exists|values: Seq<bool>|
        #![trigger key_holds(a.key().key(), values)]
        key_holds(a.key().key(), values) && key_holds(b.key().key(), values)
}

impl<M: Multiplexer> Encrypter<M> {
    /// The symmetric key.
    pub closed spec fn key(&self) -> SymmetricKey<M> {
        self.key
    }

    /// The filter.
    pub closed spec fn filter(&self) -> Filter {
        self.filter
    }

    /// Whether keystream can be drawn: rounds can be drawn from the key,
    /// and the filter can be evaluated on them.
    pub open spec fn well_formed(&self) -> bool {
        &&& self.key().well_formed()
        &&& self.filter().admits(self.key().n())
    }

    /// The keystream bit of the round of that number: the filter on the
    /// whitened subset of the round.
    pub open spec fn keystream(&self, round: u64) -> <M::Bit as Bit>::Model {
        self.filter().model::<M>(self.key().subset(round))
    }

    /// The keystream bit of the round of that number, negated where `flip`
    /// is set.
    pub open spec fn cipher(&self, round: u64, flip: bool) -> <M::Bit as Bit>::Model {
        if flip {
            <M::Bit as Bit>::not_model(self.keystream(round))
        } else {
            self.keystream(round)
        }
    }

    /// Whether `other` is this end of the cipher, at whatever round.
    pub open spec fn same_cipher(&self, other: &Encrypter<M>) -> bool {
        &&& self.key().key() == other.key().key()
        &&& self.key().n() == other.key().n()
        &&& self.key().seed() == other.key().seed()
        &&& self.filter() == other.filter()
    }

    /// The number of bits that a call handles: as many as there are both
    /// input bits and places for the output.
    pub open spec fn handled(places: nat, input: nat) -> nat {
        if places <= input { places } else { input }
    }

    /// Whether `after` is what a call on this end leaves in the places
    /// `before`, given the `input` bits: bit by bit the keystream from the
    /// round the end stands at, negated where the input bit is set, in as
    /// many places as are handled, and the other places as they were.
    pub open spec fn handles(
        &self,
        before: Seq<M::Bit>,
        input: Seq<bool>,
        after: Seq<M::Bit>,
    ) -> bool {
        let count = Self::handled(before.len(), input.len());
        &&& after.len() == before.len()
        &&& forall|i: int|
            0 <= i < count ==> (#[trigger] after[i]).model() == self.cipher(
                round_after(self.key().round(), i as nat),
                input[i],
            )
        &&& forall|i: int|
            0 <= i < count ==> (#[trigger] after[i]).shape() == self.key().key()[0].shape()
        &&& forall|i: int| count <= i < before.len() ==> #[trigger] after[i] == before[i]
    }

    /// The end of the cipher that holds the key `key` and the filter of the
    /// parameters, at its first round.
    pub fn from_key(params: &SystemParameters, key: Vec<M>, seed: u64) -> (r: Encrypter<M>)
        requires
            key@.len() == params.key_size(),
            uniform(key@),
        ensures
            r.well_formed(),
            r.key().key() == key@,
            r.key().seed() == seed,
            r.key().round() == 0,
            r.key().n() == params.round_size(),
            r.filter().category() == params.filter_type(),
            r.filter().parameters() == params.filter_parameters(),
    {
        let Parameters { n, key_size: _, filter } = params.parameters();
        Encrypter { key: SymmetricKey::new(key, n, seed), filter }
    }

    /// Makes the key bits that the randomness `bytes` decides, once in the
    /// world of `M` and once in the world of `U`.
    pub fn key_gen<U: Multiplexer>(
        bytes: &[u8],
        key_size: usize,
        sk: Option<&GlweSecretKey>,
        decomp_level: Option<usize>,
        decomp_base_log: Option<usize>,
        noise_parameters: Option<StandardDev>,
    ) -> (r: (Vec<M>, Vec<U>))
        requires
            bytes@.len() == 8 + key_size,
            M::admits(sk, decomp_level, decomp_base_log, noise_parameters),
            U::admits(sk, decomp_level, decomp_base_log, noise_parameters),
        ensures
            key_holds(r.0@, decisions_of(bytes@, key_size as nat)),
            key_holds(r.1@, decisions_of(bytes@, key_size as nat)),
            forall|i: int| 0 <= i < key_size ==> (#[trigger] r.0@[i]).shape() == M::fresh_shape(sk),
            forall|i: int| 0 <= i < key_size ==> (#[trigger] r.1@[i]).shape() == U::fresh_shape(sk),
    {
        let total = bytes.len();
        let mut key1: Vec<M> = Vec::with_capacity(key_size);
        let mut key2: Vec<U> = Vec::with_capacity(key_size);
        let mut i: usize = 0;
        while i < key_size
            invariant
                i <= key_size,
                total == bytes@.len(),
                bytes@.len() == 8 + key_size,
                M::admits(sk, decomp_level, decomp_base_log, noise_parameters),
                U::admits(sk, decomp_level, decomp_base_log, noise_parameters),
                key1@.len() == i,
                key2@.len() == i,
                forall|l: int|
                    0 <= l < i ==> M::holds((#[trigger] key1@[l]).model(), decision_at(bytes@, l)),
                forall|l: int|
                    0 <= l < i ==> U::holds((#[trigger] key2@[l]).model(), decision_at(bytes@, l)),
                forall|l: int| 0 <= l < i ==> (#[trigger] key1@[l]).shape() == M::fresh_shape(sk),
                forall|l: int| 0 <= l < i ==> (#[trigger] key2@[l]).shape() == U::fresh_shape(sk),
            decreases key_size - i,
        {
            if bytes[8 + i] % 2 == 1 {
                key1.push(M::one(sk, decomp_level, decomp_base_log, noise_parameters));
                key2.push(U::one(sk, decomp_level, decomp_base_log, noise_parameters));
            } else {
                key1.push(M::zero(sk, decomp_level, decomp_base_log, noise_parameters));
                key2.push(U::zero(sk, decomp_level, decomp_base_log, noise_parameters));
            }
            i = i + 1;
        }
        (key1, key2)
    }

    /// Two ends of the cipher, made together: the first in the world of `M`,
    /// the second in the world of `U`. The fresh randomness `randomness`
    /// decides the seed and the values of the key bits: eight bytes for the
    /// seed, the lowest first, and one byte for each key bit.
    pub fn new<U: Multiplexer>(
        params: &SystemParameters,
        sk: Option<&GlweSecretKey>,
        decomp_level: Option<usize>,
        decomp_base_log: Option<usize>,
        noise_parameters: Option<StandardDev>,
        randomness: &[u8],
    ) -> (r: (Encrypter<M>, Encrypter<U>))
        requires
            randomness@.len() == 8 + params.key_size(),
            M::admits(sk, decomp_level, decomp_base_log, noise_parameters),
            U::admits(sk, decomp_level, decomp_base_log, noise_parameters),
        ensures
            r.0.well_formed(),
            r.1.well_formed(),
            paired(&r.0, &r.1),
            r.0.key().seed() == word_at(randomness@, 0),
            r.0.key().round() == 0,
            r.0.key().n() == params.round_size(),
            r.0.filter().category() == params.filter_type(),
            r.0.filter().parameters() == params.filter_parameters(),
            key_holds(r.0.key().key(), decisions_of(randomness@, params.key_size())),
            key_holds(r.1.key().key(), decisions_of(randomness@, params.key_size())),
    {
        let seed = word(randomness, 0);
        let key_size = params.parameters().key_size;
        let (key1, key2) = Self::key_gen::<U>(
            randomness,
            key_size,
            sk,
            decomp_level,
            decomp_base_log,
            noise_parameters,
        );
        let first = Encrypter::<M>::from_key(params, key1, seed);
        let second = Encrypter::<U>::from_key(params, key2, seed);
        (first, second)
    }

    /// The next keystream bit.
    pub fn stream(&mut self) -> (r: M::Bit)
        requires
            old(self).well_formed(),
        ensures
            r.model() == old(self).keystream(old(self).key().round()),
            r.shape() == old(self).key().key()[0].shape(),
            final(self).same_cipher(old(self)),
            final(self).key().round() == round_after(old(self).key().round(), 1),
            final(self).well_formed(),
    {
        proof {
            self.filter.admits_no_empty_round(self.key.n());
        }
        let key_round = self.key.random_whitened_subset();
        self.filter.call(key_round.as_slice())
    }

    /// Encrypts the message bits into `res`, one keystream bit for each: the
    /// keystream bit, negated where the message bit is set. Handles as many
    /// bits as there are both message bits and places in `res`.
    pub fn encrypt(&mut self, res: &mut [M::Bit], message: &[bool])
        requires
            old(self).well_formed(),
        ensures
            old(self).handles(old(res)@, message@, final(res)@),
            final(self).same_cipher(old(self)),
            final(self).key().round() == round_after(
                old(self).key().round(),
                Self::handled(old(res)@.len(), message@.len()),
            ),
            final(self).well_formed(),
    {
        self.run(res, message)
    }

    /// Decrypts the ciphertext bits into `res`, as `encrypt` encrypts: the
    /// keystream bit, negated where the ciphertext bit is set.
    pub fn decrypt(&mut self, res: &mut [M::Bit], ciphertext: &[bool])
        requires
            old(self).well_formed(),
        ensures
            old(self).handles(old(res)@, ciphertext@, final(res)@),
            final(self).same_cipher(old(self)),
            final(self).key().round() == round_after(
                old(self).key().round(),
                Self::handled(old(res)@.len(), ciphertext@.len()),
            ),
            final(self).well_formed(),
    {
        self.run(res, ciphertext)
    }

    /// What `encrypt` and `decrypt` both do.
    fn run(&mut self, res: &mut [M::Bit], input: &[bool])
        requires
            old(self).well_formed(),
        ensures
            old(self).handles(old(res)@, input@, final(res)@),
            final(self).same_cipher(old(self)),
            final(self).key().round() == round_after(
                old(self).key().round(),
                Self::handled(old(res)@.len(), input@.len()),
            ),
            final(self).well_formed(),
    {
        let count = if res.len() <= input.len() {
            res.len()
        } else {
            input.len()
        };
        let ghost start = *self;
        let ghost before = res@;
        proof {
            round_after_next(start.key().round(), 0);
        }
        let mut i: usize = 0;
        while i < count
            invariant
                i <= count,
                count == Self::handled(before.len(), input@.len()),
                start.well_formed(),
                self.well_formed(),
                self.same_cipher(&start),
                self.key().round() == round_after(start.key().round(), i as nat),
                res@.len() == before.len(),
                forall|l: int|
                    0 <= l < i ==> (#[trigger] res@[l]).model() == start.cipher(
                        round_after(start.key().round(), l as nat),
                        input@[l],
                    ),
                forall|l: int|
                    0 <= l < i ==> (#[trigger] res@[l]).shape() == start.key().key()[0].shape(),
                forall|l: int| i <= l < before.len() ==> #[trigger] res@[l] == before[l],
            decreases count - i,
        {
            proof {
                round_after_next(start.key().round(), i as nat);
            }
            let mut c = self.stream();
            if input[i] {
                c.not_inplace();
            }
            res[i] = c;
            i = i + 1;
        }
    }
}

} // verus!
