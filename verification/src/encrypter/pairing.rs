//! What holds of two ends of the cipher that were made together: they draw
//! the same rounds and compute the same keystream, each in its world, so
//! that one end undoes what the other did.

use vstd::prelude::*;
use crate::bit::Bit;
use crate::encrypter::{key_holds, paired, Encrypter};
use crate::filter::meaning::{clear, clear_is_homomorphic, homomorphic, readings};
use crate::multiplexer::{models, Multiplexer};
use crate::symmetric_key::{
    mask_of, round_after, round_bytes, selection, selection_is_injective, whitened_meaning,
    whitened_model,
};

verus! {

/// Whether `key_of` and `bit_of` read the world of `M` soundly: reading
/// commutes with the operations of the world, and a key bit made for a
/// value reads as that value.
pub open spec fn sound<M: Multiplexer>(
    key_of: spec_fn(M::Model) -> bool,
    bit_of: spec_fn(<M::Bit as Bit>::Model) -> bool,
) -> bool {
    &&& homomorphic::<M>(key_of, bit_of)
    &&& forall|sel: M::Model, b: bool| #[trigger] M::holds(sel, b) ==> key_of(sel) == b
}

/// The identity reads the clear world soundly.
pub proof fn clear_is_sound()
    ensures
        sound::<bool>(clear(), clear()),
{
    clear_is_homomorphic();
}

/// In a world that is read soundly, a key bit made for a value reads, as a
/// bit, as that value.
pub proof fn key_bit_reads_as_its_value<M: Multiplexer>(
    sel: M::Model,
    b: bool,
    key_of: spec_fn(M::Model) -> bool,
    bit_of: spec_fn(<M::Bit as Bit>::Model) -> bool,
)
    requires
        sound::<M>(key_of, bit_of),
        M::holds(sel, b),
    ensures
        bit_of(M::as_bit_model(sel)) == b,
{
}

/// In a world that is read soundly, the negation of a key bit reads, as a
/// bit, as the negation of what the key bit reads as.
pub proof fn negated_key_bit_reads_negated<M: Multiplexer>(
    sel: M::Model,
    key_of: spec_fn(M::Model) -> bool,
    bit_of: spec_fn(<M::Bit as Bit>::Model) -> bool,
)
    requires
        sound::<M>(key_of, bit_of),
    ensures
        bit_of(M::as_bit_model(M::not_model(sel))) == !bit_of(M::as_bit_model(sel)),
{
}

/// The keystream bit of a round as a Boolean function of the values of the
/// key bits: the filter on the key bits that the round selects, each
/// negated where the mask of the round is set.
pub open spec fn keystream_value<M: Multiplexer>(
    e: &Encrypter<M>,
    values: Seq<bool>,
    round: u64,
) -> bool {
    let bytes = round_bytes(e.key().seed(), round, e.key().n());
    e.filter().value(
        whitened_model::<bool>(
            values,
            selection(bytes, values.len(), e.key().n()),
            mask_of(bytes, e.key().n()),
        ),
    )
}

/// In a world that is read soundly, the keystream bit of every round reads
/// as the Boolean keystream of the values of the key bits.
pub proof fn keystream_meaning<M: Multiplexer>(
    e: &Encrypter<M>,
    values: Seq<bool>,
    round: u64,
    key_of: spec_fn(M::Model) -> bool,
    bit_of: spec_fn(<M::Bit as Bit>::Model) -> bool,
)
    requires
        e.well_formed(),
        key_holds(e.key().key(), values),
        sound::<M>(key_of, bit_of),
    ensures
        bit_of(e.keystream(round)) == keystream_value(e, values, round),
{
    let key = models(e.key().key());
    let n = e.key().n();
    let bytes = round_bytes(e.key().seed(), round, n);
    let indices = selection(bytes, key.len(), n);
    let mask = mask_of(bytes, n);
    selection_is_injective(bytes, key.len(), n);
    assert(readings(key, key_of) =~= values) by {
        assert forall|i: int| 0 <= i < key.len() implies key_of(key[i]) == values[i] by {
            assert(M::holds(e.key().key()[i].model(), values[i]));
        }
    }
    whitened_meaning::<M>(key, indices, mask, key_of, bit_of);
    e.filter().meaning::<M>(e.key().subset(round), key_of, bit_of);
}

/// Two ends that were made together yield keystreams that read alike:
/// whatever the round, the keystream bit of the one reads as that of the
/// other does.
pub proof fn paired_keystreams_read_alike<M: Multiplexer, U: Multiplexer>(
    a: &Encrypter<M>,
    b: &Encrypter<U>,
    round: u64,
    key_of_a: spec_fn(M::Model) -> bool,
    bit_of_a: spec_fn(<M::Bit as Bit>::Model) -> bool,
    key_of_b: spec_fn(U::Model) -> bool,
    bit_of_b: spec_fn(<U::Bit as Bit>::Model) -> bool,
)
    requires
        a.well_formed(),
        b.well_formed(),
        paired(a, b),
        sound::<M>(key_of_a, bit_of_a),
        sound::<U>(key_of_b, bit_of_b),
    ensures
        bit_of_a(a.keystream(round)) == bit_of_b(b.keystream(round)),
{
    let values = choose|values: Seq<bool>|
        #![trigger key_holds(a.key().key(), values)]
        key_holds(a.key().key(), values) && key_holds(b.key().key(), values);
    keystream_meaning::<M>(a, values, round, key_of_a, bit_of_a);
    keystream_meaning::<U>(b, values, round, key_of_b, bit_of_b);
}

/// Two clear ends that were made together yield the same keystream.
pub proof fn paired_clear_keystreams_are_equal(a: &Encrypter<bool>, b: &Encrypter<bool>, round: u64)
    requires
        a.well_formed(),
        b.well_formed(),
        paired(a, b),
    ensures
        a.keystream(round) == b.keystream(round),
{
    clear_is_sound();
    paired_keystreams_read_alike::<bool, bool>(a, b, round, clear(), clear(), clear(), clear());
}

/// Two ends that were made together stay so when both have handled as many
/// bits.
pub proof fn pairing_is_kept<M: Multiplexer, U: Multiplexer>(
    a: &Encrypter<M>,
    b: &Encrypter<U>,
    later_a: &Encrypter<M>,
    later_b: &Encrypter<U>,
)
    requires
        paired(a, b),
        later_a.same_cipher(a),
        later_b.same_cipher(b),
        later_a.key().round() == later_b.key().round(),
    ensures
        paired(later_a, later_b),
{
    let values = choose|values: Seq<bool>|
        #![trigger key_holds(a.key().key(), values)]
        key_holds(a.key().key(), values) && key_holds(b.key().key(), values);
    assert(key_holds(later_a.key().key(), values) && key_holds(later_b.key().key(), values));
}

/// Two clear ends that were made together yield the same next keystream
/// bit, and are as made together after it: so they yield the same keystream
/// bit after bit, however many are drawn from both.
pub proof fn paired_clear_streams_agree(
    a: &Encrypter<bool>,
    b: &Encrypter<bool>,
    later_a: &Encrypter<bool>,
    later_b: &Encrypter<bool>,
)
    requires
        a.well_formed(),
        b.well_formed(),
        paired(a, b),
        later_a.same_cipher(a),
        later_b.same_cipher(b),
        later_a.key().round() == round_after(a.key().round(), 1),
        later_b.key().round() == round_after(b.key().round(), 1),
    ensures
        a.keystream(a.key().round()) == b.keystream(b.key().round()),
        paired(later_a, later_b),
{
    paired_clear_keystreams_are_equal(a, b, a.key().round());
    pairing_is_kept(a, b, later_a, later_b);
}

/// What a clear end encrypts, the end made together with it decrypts to
/// bits that read as the message: in a world that is read soundly, every bit
/// that `decrypt` leaves reads as the message bit that `encrypt` was given.
pub proof fn transciphering_reads_as_the_message<U: Multiplexer>(
    encrypter: &Encrypter<bool>,
    decrypter: &Encrypter<U>,
    message: Seq<bool>,
    places: Seq<bool>,
    ciphertext: Seq<bool>,
    transciphered_places: Seq<U::Bit>,
    transciphered: Seq<U::Bit>,
    key_of: spec_fn(U::Model) -> bool,
    bit_of: spec_fn(<U::Bit as Bit>::Model) -> bool,
)
    requires
        encrypter.well_formed(),
        decrypter.well_formed(),
        paired(encrypter, decrypter),
        sound::<U>(key_of, bit_of),
        places.len() == message.len(),
        transciphered_places.len() == message.len(),
        encrypter.handles(places, message, ciphertext),
        decrypter.handles(transciphered_places, ciphertext, transciphered),
    ensures
        transciphered.len() == message.len(),
        forall|i: int|
            0 <= i < message.len() ==> bit_of((#[trigger] transciphered[i]).model()) == message[i],
{
    clear_is_sound();
    assert forall|i: int| 0 <= i < message.len() implies bit_of(
        (#[trigger] transciphered[i]).model(),
    ) == message[i] by {
        let round = round_after(encrypter.key().round(), i as nat);
        paired_keystreams_read_alike::<bool, U>(
            encrypter,
            decrypter,
            round,
            clear(),
            clear(),
            key_of,
            bit_of,
        );
        assert(Bit::model(&ciphertext[i]) == encrypter.cipher(round, message[i]));
        assert(transciphered[i].model() == decrypter.cipher(round, ciphertext[i]));
    }
}

/// What a clear end encrypts, the clear end made together with it decrypts
/// to the message.
pub proof fn clear_round_trip(
    encrypter: &Encrypter<bool>,
    decrypter: &Encrypter<bool>,
    message: Seq<bool>,
    places: Seq<bool>,
    ciphertext: Seq<bool>,
    decryption_places: Seq<bool>,
    decryption: Seq<bool>,
)
    requires
        encrypter.well_formed(),
        decrypter.well_formed(),
        paired(encrypter, decrypter),
        places.len() == message.len(),
        decryption_places.len() == message.len(),
        encrypter.handles(places, message, ciphertext),
        decrypter.handles(decryption_places, ciphertext, decryption),
    ensures
        decryption == message,
{
    clear_is_sound();
    transciphering_reads_as_the_message::<bool>(
        encrypter,
        decrypter,
        message,
        places,
        ciphertext,
        decryption_places,
        decryption,
        clear(),
        clear(),
    );
    assert(decryption =~= message);
}

} // verus!
