//! What the cipher hands to the homomorphic world: the secret key under
//! which key bits are encrypted, and the noise of fresh encryptions.

use vstd::prelude::*;

verus! {

/// The standard deviation of the noise of fresh encryptions, as a fraction
/// of the torus: `base` to the power `-exponent`.
#[derive(Clone, Copy, Debug, PartialEq, Eq)]
pub struct StandardDev {
    pub base: u32,
    pub exponent: u32,
}

/// What a GLWE secret key is: the coefficients of its polynomials, and the
/// size of each polynomial.
pub struct SecretKeyModel {
    pub coefficients: Seq<u64>,
    pub polynomial_size: nat,
}

impl SecretKeyModel {
    /// Whether the key is binary and made of at least one whole polynomial
    /// and of whole polynomials only.
    pub open spec fn well_formed(self) -> bool {
        &&& self.polynomial_size >= 1
        &&& self.coefficients.len() >= self.polynomial_size
        &&& self.coefficients.len() % self.polynomial_size == 0
        &&& forall|i: int| 0 <= i < self.coefficients.len() ==> #[trigger] self.coefficients[i] <= 1
    }

    /// Number of polynomials of the key.
    pub open spec fn dimension(self) -> nat {
        self.coefficients.len() / self.polynomial_size
    }
}

/// The binary key that the bytes `bytes` draw: the lowest bit of each.
pub open spec fn binary_of(bytes: Seq<u8>) -> Seq<u64> {
    Seq::new(bytes.len(), |i: int| (bytes[i] % 2) as u64)
}

/// A binary GLWE secret key.
pub struct GlweSecretKey {
    coefficients: Vec<u64>,
    polynomial_size: usize,
}

impl View for GlweSecretKey {
    type V = SecretKeyModel;

    closed spec fn view(&self) -> SecretKeyModel {
        SecretKeyModel {
            coefficients: self.coefficients@,
            polynomial_size: self.polynomial_size as nat,
        }
    }
}

impl GlweSecretKey {
    /// The key whose coefficients are the lowest bits of `bytes`, in
    /// polynomials of `polynomial_size` coefficients.
    pub fn binary_from_bytes(bytes: &[u8], polynomial_size: usize) -> (r: GlweSecretKey)
        requires
            polynomial_size >= 1,
            bytes@.len() >= polynomial_size,
            bytes@.len() % polynomial_size as nat == 0,
        ensures
            r@.coefficients == binary_of(bytes@),
            r@.polynomial_size == polynomial_size,
            r@.well_formed(),
    {
        let len = bytes.len();
        let mut coefficients: Vec<u64> = Vec::with_capacity(len);
        let mut i: usize = 0;
        while i < len
            invariant
                i <= len,
                len == bytes@.len(),
                coefficients@.len() == i,
                forall|l: int| 0 <= l < i ==> coefficients@[l] == binary_of(bytes@)[l],
            decreases len - i,
        {
            coefficients.push((bytes[i] % 2) as u64);
            i = i + 1;
        }
        assert(coefficients@ =~= binary_of(bytes@));
        GlweSecretKey { coefficients, polynomial_size }
    }

    /// The key of `dimension` polynomials of `polynomial_size` coefficients
    /// that the fresh randomness `randomness` draws: one byte for each
    /// coefficient, of which the lowest bit is the coefficient.
    pub fn generate_binary(dimension: usize, polynomial_size: usize, randomness: &[u8]) -> (r:
        GlweSecretKey)
        requires
            dimension >= 1,
            polynomial_size >= 1,
            randomness@.len() == dimension * polynomial_size,
        ensures
            r@.coefficients == binary_of(randomness@),
            r@.polynomial_size == polynomial_size,
            r@.dimension() == dimension,
            r@.well_formed(),
    {
        proof {
            crate::bit::encrypted_bit::shape_of_whole_polynomials(
                polynomial_size as nat,
                dimension as nat,
            );
            assert(dimension * polynomial_size == polynomial_size * dimension)
                by (nonlinear_arith);
        }
        GlweSecretKey::binary_from_bytes(randomness, polynomial_size)
    }

    /// The coefficients of the key, polynomial after polynomial.
    pub fn as_coefficients(&self) -> (r: &Vec<u64>)
        ensures
            r@ == self@.coefficients,
    {
        &self.coefficients
    }

    /// Number of coefficients of each polynomial.
    pub fn polynomial_size(&self) -> (r: usize)
        ensures
            r == self@.polynomial_size,
    {
        self.polynomial_size
    }
}

} // verus!
