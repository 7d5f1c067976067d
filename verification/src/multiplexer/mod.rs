//! The secret key bit, acting as a selector on two bits.

use vstd::prelude::*;
use crate::bit::{Bit, Shape};
use crate::fhe::{GlweSecretKey, StandardDev};

pub mod bit_bool;

verus! {

/// A key bit of one of the worlds the cipher runs in.
///
/// As for `Bit`, every operation but the making of a fresh key bit is a
/// function of the models of its operands. What the models and the
/// operations are is for each world to state, through the functions of the
/// first half of the trait. The bodies they have here state nothing: they
/// are there so that a world whose code is not verified can leave them out.
/// The contracts bind the worlds that are verified, as the clear world is;
/// of any other world nothing is proved.
pub trait Multiplexer: Sized {
    /// The bits this key bit selects between.
    type Bit: Bit;

    /// What a value is, mathematically.
    type Model;

    /// What the value is.
    open spec fn model(&self) -> Self::Model {
        arbitrary()
    }

    /// The dimensions the value was made for; the bits it acts on have the
    /// same shape.
    open spec fn shape(&self) -> Shape {
        arbitrary()
    }

    /// What the negation of `sel` is.
    open spec fn not_model(sel: Self::Model) -> Self::Model {
        arbitrary()
    }

    /// What the conjunction of `sel` and `bit` is.
    open spec fn and_model(sel: Self::Model, bit: <Self::Bit as Bit>::Model) -> <Self::Bit as Bit>::Model {
        arbitrary()
    }

    /// What `sel` selects among `o1` and `o0`.
    open spec fn mux_model(
        sel: Self::Model,
        o1: <Self::Bit as Bit>::Model,
        o0: <Self::Bit as Bit>::Model,
    ) -> <Self::Bit as Bit>::Model {
        arbitrary()
    }

    /// What `sel` is as a bit.
    open spec fn as_bit_model(sel: Self::Model) -> <Self::Bit as Bit>::Model {
        arbitrary()
    }

    /// Whether `sel` is a key bit of the value `b`, as `zero` and `one` make
    /// them. A world may make a different one each time.
    open spec fn holds(sel: Self::Model, b: bool) -> bool {
        arbitrary()
    }

    /// Whether the world can make a key bit under this secret key, for this
    /// decomposition and with this noise.
    open spec fn admits(
        sk: Option<&GlweSecretKey>,
        decomp_level: Option<usize>,
        decomp_base_log: Option<usize>,
        noise_parameters: Option<StandardDev>,
    ) -> bool {
        arbitrary()
    }

    /// The shape of a key bit made under this secret key.
    open spec fn fresh_shape(sk: Option<&GlweSecretKey>) -> Shape {
        arbitrary()
    }

    /// Whether the world can make a constant key bit for these dimensions
    /// and this decomposition.
    open spec fn admits_parameters(
        poly_size: Option<usize>,
        size: Option<usize>,
        decomp_level: Option<usize>,
        decomp_base_log: Option<usize>,
    ) -> bool {
        arbitrary()
    }

    /// The constant key bit of the value `b`: it depends on nothing but its
    /// value, the dimensions and the decomposition.
    open spec fn constant_model(
        b: bool,
        poly_size: Option<usize>,
        size: Option<usize>,
        decomp_level: Option<usize>,
        decomp_base_log: Option<usize>,
    ) -> Self::Model {
        arbitrary()
    }

    /// A key bit of the value `0`.
    fn zero(
        sk: Option<&GlweSecretKey>,
        decomp_level: Option<usize>,
        decomp_base_log: Option<usize>,
        noise_parameters: Option<StandardDev>,
    ) -> (r: Self)
        requires
            Self::admits(sk, decomp_level, decomp_base_log, noise_parameters),
        ensures
            Self::holds(r.model(), false),
            r.shape() == Self::fresh_shape(sk),
    ;

    /// A key bit of the value `1`.
    fn one(
        sk: Option<&GlweSecretKey>,
        decomp_level: Option<usize>,
        decomp_base_log: Option<usize>,
        noise_parameters: Option<StandardDev>,
    ) -> (r: Self)
        requires
            Self::admits(sk, decomp_level, decomp_base_log, noise_parameters),
        ensures
            Self::holds(r.model(), true),
            r.shape() == Self::fresh_shape(sk),
    ;

    /// The constant key bit of the value `0`.
    fn zero_with_fhe_parameters(
        poly_size: Option<usize>,
        size: Option<usize>,
        decomp_level: Option<usize>,
        decomp_base_log: Option<usize>,
    ) -> (r: Self)
        requires
            Self::admits_parameters(poly_size, size, decomp_level, decomp_base_log),
        ensures
            r.model() == Self::constant_model(
                false,
                poly_size,
                size,
                decomp_level,
                decomp_base_log,
            ),
            r.shape() == <Self::Bit as Bit>::constant_shape(poly_size, size),
    ;

    /// The constant key bit of the value `1`.
    fn one_with_fhe_parameters(
        poly_size: Option<usize>,
        size: Option<usize>,
        decomp_level: Option<usize>,
        decomp_base_log: Option<usize>,
    ) -> (r: Self)
        requires
            Self::admits_parameters(poly_size, size, decomp_level, decomp_base_log),
        ensures
            r.model() == Self::constant_model(
                true,
                poly_size,
                size,
                decomp_level,
                decomp_base_log,
            ),
            r.shape() == <Self::Bit as Bit>::constant_shape(poly_size, size),
    ;

    /// `o1` where the key bit is set, `o0` where it is not.
    fn mux(&self, o1: &Self::Bit, o0: &Self::Bit) -> (r: Self::Bit)
        requires
            o1.shape() == self.shape(),
            o0.shape() == self.shape(),
        ensures
            r.model() == Self::mux_model(self.model(), o1.model(), o0.model()),
            r.shape() == self.shape(),
    ;

    /// The conjunction of the key bit and `bit`.
    fn and(&self, bit: &Self::Bit) -> (r: Self::Bit)
        requires
            bit.shape() == self.shape(),
        ensures
            r.model() == Self::and_model(self.model(), bit.model()),
            r.shape() == self.shape(),
    ;

    /// The negated key bit.
    fn not(&self) -> (r: Self)
        ensures
            r.model() == Self::not_model(self.model()),
            r.shape() == self.shape(),
    ;

    /// Replaces the key bit by its negation.
    fn not_inplace(&mut self)
        ensures
            final(self).model() == Self::not_model(old(self).model()),
            final(self).shape() == old(self).shape(),
    ;

    /// The key bit as a bit of its world.
    fn as_bit(&self) -> (r: Self::Bit)
        ensures
            r.model() == Self::as_bit_model(self.model()),
            r.shape() == self.shape(),
    ;

    /// A copy of the key bit.
    fn duplicate(&self) -> (r: Self)
        ensures
            r.model() == self.model(),
            r.shape() == self.shape(),
    ;

    /// Whether the key bit and `other` were made for the same dimensions.
    fn same_shape(&self, other: &Self) -> (r: bool)
        ensures
            r == (self.shape() == other.shape()),
    ;

    /// The name of the world, by which its stored keys are told apart.
    fn descriptor() -> (r: String);
}

/// What the key bits of a round are, one by one.
pub open spec fn models<M: Multiplexer>(x: Seq<M>) -> Seq<M::Model> {
    Seq::new(x.len(), |i: int| x[i].model())
}

/// Whether the key bits of a round were all made for the same dimensions.
pub open spec fn uniform<M: Multiplexer>(x: Seq<M>) -> bool {
    forall|i: int| 0 <= i < x.len() ==> (#[trigger] x[i]).shape() == x[0].shape()
}

/// Tells whether the key bits of a round were all made for the same
/// dimensions.
pub fn is_uniform<M: Multiplexer>(x: &[M]) -> (r: bool)
    ensures
        r == uniform(x@),
{
    let mut i: usize = 1;
    while i < x.len()
        invariant
            1 <= i,
            forall|l: int| 0 <= l < i && l < x@.len() ==> (#[trigger] x@[l]).shape() == x@[0].shape(),
        decreases x@.len() - i,
    {
        if !x[i].same_shape(&x[0]) {
            return false;
        }
        i = i + 1;
    }
    true
}

} // verus!
