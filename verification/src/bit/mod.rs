//! The two-valued datum that the cipher computes on.

use vstd::prelude::*;

pub mod bit_bool;
pub mod encrypted_bit;

verus! {

/// The dimensions that a ciphertext was made for. Clear values have the
/// shape `(0, 0)`.
pub struct Shape {
    /// Number of coefficients of each polynomial.
    pub polynomial_size: nat,
    /// Number of polynomials: the mask polynomials and the body.
    pub glwe_size: nat,
}

/// A bit of one of the worlds the cipher runs in.
///
/// Every operation is a function of the models of its operands: two runs on
/// equal models give equal models. What the models and the operations are
/// is for each world to state, through the functions of the first half of
/// the trait. The bodies they have here state nothing: they are there so
/// that a world whose code is not verified can leave them out. The
/// contracts bind the worlds that are verified, as the two of this library
/// are; of any other world nothing is proved.
pub trait Bit: Sized {
    /// What a value is, mathematically.
    type Model;

    /// What the value is.
    open spec fn model(&self) -> Self::Model {
        arbitrary()
    }

    /// The dimensions the value was made for. Two bits can be combined when
    /// their shapes agree.
    open spec fn shape(&self) -> Shape {
        arbitrary()
    }

    /// Whether the world can build a constant from these dimensions.
    open spec fn accepts(poly_size: Option<usize>, size: Option<usize>) -> bool {
        arbitrary()
    }

    /// The shape of a constant built from these dimensions.
    open spec fn constant_shape(poly_size: Option<usize>, size: Option<usize>) -> Shape {
        arbitrary()
    }

    /// What the constant `0` is.
    open spec fn zero_model(poly_size: Option<usize>, size: Option<usize>) -> Self::Model {
        arbitrary()
    }

    /// What the constant `1` is.
    open spec fn one_model(poly_size: Option<usize>, size: Option<usize>) -> Self::Model {
        arbitrary()
    }

    /// What the negation of `a` is.
    open spec fn not_model(a: Self::Model) -> Self::Model {
        arbitrary()
    }

    /// What the exclusive or of `a` and `b` is.
    open spec fn xor_model(a: Self::Model, b: Self::Model) -> Self::Model {
        arbitrary()
    }

    /// The constant `0`.
    fn zero(poly_size: Option<usize>, size: Option<usize>) -> (r: Self)
        requires
            Self::accepts(poly_size, size),
        ensures
            r.model() == Self::zero_model(poly_size, size),
            r.shape() == Self::constant_shape(poly_size, size),
    ;

    /// The constant `1`.
    fn one(poly_size: Option<usize>, size: Option<usize>) -> (r: Self)
        requires
            Self::accepts(poly_size, size),
        ensures
            r.model() == Self::one_model(poly_size, size),
            r.shape() == Self::constant_shape(poly_size, size),
    ;

    /// Replaces the bit by its negation.
    fn not_inplace(&mut self)
        ensures
            final(self).model() == Self::not_model(old(self).model()),
            final(self).shape() == old(self).shape(),
    ;

    /// Replaces the bit by its exclusive or with `rhs`.
    fn xor_assign(&mut self, rhs: &Self)
        requires
            old(self).shape() == rhs.shape(),
        ensures
            final(self).model() == Self::xor_model(old(self).model(), rhs.model()),
            final(self).shape() == old(self).shape(),
    ;

    /// A copy of the bit.
    fn duplicate(&self) -> (r: Self)
        ensures
            r.model() == self.model(),
            r.shape() == self.shape(),
    ;

    /// The negation of the bit.
    fn not(&self) -> (r: Self)
        ensures
            r.model() == Self::not_model(self.model()),
            r.shape() == self.shape(),
    {
        let mut r = self.duplicate();
        r.not_inplace();
        r
    }

    /// The exclusive or of the bit and `rhs`.
    fn xor(&self, rhs: &Self) -> (r: Self)
        requires
            self.shape() == rhs.shape(),
        ensures
            r.model() == Self::xor_model(self.model(), rhs.model()),
            r.shape() == self.shape(),
    {
        let mut r = self.duplicate();
        r.xor_assign(rhs);
        r
    }
}

} // verus!
