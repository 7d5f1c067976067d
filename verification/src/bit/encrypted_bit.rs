//! The encrypted world: a bit is a GLWE ciphertext that holds it in the
//! constant term of its body, at the top of the torus.

use vstd::prelude::*;
use vstd::arithmetic::power2::pow2;
use crate::bit::{Bit, Shape};
use crate::torus::{HALF, opposite, sum, scaled, torus_add, torus_neg, torus_scale};

verus! {

/// What a GLWE ciphertext is: its polynomials' coefficients, the mask
/// polynomials first and the body last, and the size of each polynomial.
pub struct GlweModel {
    pub coefficients: Seq<u64>,
    pub polynomial_size: nat,
}

impl GlweModel {
    /// Whether the coefficients make up at least one whole polynomial and
    /// nothing but whole polynomials.
    pub open spec fn well_formed(self) -> bool {
        &&& self.polynomial_size >= 1
        &&& self.coefficients.len() >= self.polynomial_size
        &&& self.coefficients.len() % self.polynomial_size == 0
    }

    /// Number of polynomials: the mask polynomials and the body.
    pub open spec fn glwe_size(self) -> nat {
        self.coefficients.len() / self.polynomial_size
    }

    /// Where the body's constant term lies among the coefficients.
    pub open spec fn body_index(self) -> int {
        self.coefficients.len() - self.polynomial_size
    }

    pub open spec fn shape(self) -> Shape {
        Shape { polynomial_size: self.polynomial_size, glwe_size: self.glwe_size() }
    }

    /// The ciphertext with all coefficients zero: an encryption of `0`
    /// without noise, under every key.
    pub open spec fn zero(polynomial_size: nat, glwe_size: nat) -> GlweModel {
        GlweModel {
            coefficients: Seq::new(polynomial_size * glwe_size, |i: int| 0u64),
            polynomial_size,
        }
    }

    /// `one half minus self`: every coefficient is replaced by its opposite,
    /// and one half is added to the body's constant term.
    pub open spec fn negated(self) -> GlweModel {
        GlweModel {
            coefficients: Seq::new(
                self.coefficients.len(),
                |i: int|
                    if i == self.body_index() {
                        torus_add(torus_neg(self.coefficients[i]), HALF)
                    } else {
                        torus_neg(self.coefficients[i])
                    },
            ),
            polynomial_size: self.polynomial_size,
        }
    }

    /// The coefficient-wise sum.
    pub open spec fn plus(self, other: GlweModel) -> GlweModel {
        GlweModel {
            coefficients: Seq::new(
                self.coefficients.len(),
                |i: int| torus_add(self.coefficients[i], other.coefficients[i]),
            ),
            polynomial_size: self.polynomial_size,
        }
    }

    /// Every coefficient multiplied by `factor`.
    pub open spec fn times(self, factor: u64) -> GlweModel {
        GlweModel {
            coefficients: Seq::new(
                self.coefficients.len(),
                |i: int| torus_scale(self.coefficients[i], factor),
            ),
            polynomial_size: self.polynomial_size,
        }
    }
}

/// A GLWE ciphertext of one bit.
pub struct EncryptedBit {
    coefficients: Vec<u64>,
    polynomial_size: usize,
}

impl View for EncryptedBit {
    type V = GlweModel;

    closed spec fn view(&self) -> GlweModel {
        GlweModel {
            coefficients: self.coefficients@,
            polynomial_size: self.polynomial_size as nat,
        }
    }
}

impl EncryptedBit {
    #[verifier::type_invariant]
    spec fn inv(self) -> bool {
        self@.well_formed()
    }

    /// Wraps the coefficients of a ciphertext.
    pub fn new(coefficients: Vec<u64>, polynomial_size: usize) -> (r: EncryptedBit)
        requires
            (GlweModel { coefficients: coefficients@, polynomial_size: polynomial_size as nat })
                .well_formed(),
        ensures
            r@ == (GlweModel {
                coefficients: coefficients@,
                polynomial_size: polynomial_size as nat,
            }),
    {
        EncryptedBit { coefficients, polynomial_size }
    }

    /// The ciphertext with all coefficients zero.
    pub fn allocate(polynomial_size: usize, glwe_size: usize) -> (r: EncryptedBit)
        requires
            polynomial_size >= 1,
            glwe_size >= 1,
            polynomial_size * glwe_size <= usize::MAX,
        ensures
            r@ == GlweModel::zero(polynomial_size as nat, glwe_size as nat),
            r@.shape() == (Shape {
                polynomial_size: polynomial_size as nat,
                glwe_size: glwe_size as nat,
            }),
    {
        let len = polynomial_size * glwe_size;
        let mut coefficients: Vec<u64> = Vec::new();
        let mut i: usize = 0;
        while i < len
            invariant
                i <= len,
                coefficients@ == Seq::new(i as nat, |k: int| 0u64),
            decreases len - i,
        {
            coefficients.push(0u64);
            i = i + 1;
            assert(coefficients@ =~= Seq::new(i as nat, |k: int| 0u64));
        }
        proof {
            shape_of_whole_polynomials(polynomial_size as nat, glwe_size as nat);
        }
        EncryptedBit { coefficients, polynomial_size }
    }

    /// The coefficients, the mask polynomials first and the body last.
    pub fn as_glwe(&self) -> (r: &Vec<u64>)
        ensures
            r@ == self@.coefficients,
            self@.well_formed(),
    {
        proof {
            use_type_invariant(self);
        }
        &self.coefficients
    }

    /// Number of coefficients of each polynomial.
    pub fn polynomial_size(&self) -> (r: usize)
        ensures
            r == self@.polynomial_size,
    {
        self.polynomial_size
    }

    /// Number of polynomials: the mask polynomials and the body.
    pub fn size(&self) -> (r: usize)
        ensures
            r == self@.glwe_size(),
    {
        proof {
            use_type_invariant(self);
        }
        self.coefficients.len() / self.polynomial_size
    }
}

impl EncryptedBit {
    /// Multiplies every coefficient by `2^(base_log - 1)`. On a ciphertext
    /// that holds a bit at `2^(64 - base_log)`, the place of the first level
    /// of a decomposition in base `2^base_log`, this moves the bit to the top
    /// of the torus.
    pub fn lift_to_top(&mut self, base_log: usize)
        requires
            1 <= base_log <= 64,
        ensures
            final(self)@ == old(self)@.times(pow2((base_log - 1) as nat) as u64),
            pow2((base_log - 1) as nat) <= u64::MAX,
    {
        proof {
            use_type_invariant(&*self);
        }
        let shift: u64 = (base_log - 1) as u64;
        proof {
            vstd::bits::lemma_u64_pow2_no_overflow(shift as nat);
            vstd::bits::lemma_u64_shl_is_mul(1u64, shift);
        }
        let factor: u64 = 1u64 << shift;
        let ghost before = self@;
        let len = self.coefficients.len();
        let mut lifted: Vec<u64> = Vec::with_capacity(len);
        let mut i: usize = 0;
        while i < len
            invariant
                i <= len,
                len == before.coefficients.len(),
                self@ == before,
                lifted@.len() == i,
                forall|k: int| 0 <= k < i ==> lifted@[k] == torus_scale(before.coefficients[k], factor),
            decreases len - i,
        {
            lifted.push(scaled(self.coefficients[i], factor));
            i = i + 1;
        }
        assert(lifted@ =~= before.times(factor).coefficients);
        self.coefficients = lifted;
    }
}

impl Bit for EncryptedBit {
    type Model = GlweModel;

    open spec fn model(&self) -> GlweModel {
        self@
    }

    open spec fn shape(&self) -> Shape {
        self@.shape()
    }

    open spec fn accepts(poly_size: Option<usize>, size: Option<usize>) -> bool {
        &&& poly_size is Some
        &&& size is Some
        &&& poly_size->0 >= 1
        &&& size->0 >= 1
        &&& poly_size->0 * size->0 <= usize::MAX
    }

    open spec fn constant_shape(poly_size: Option<usize>, size: Option<usize>) -> Shape {
        Shape { polynomial_size: poly_size->0 as nat, glwe_size: size->0 as nat }
    }

    open spec fn zero_model(poly_size: Option<usize>, size: Option<usize>) -> GlweModel {
        GlweModel::zero(poly_size->0 as nat, size->0 as nat)
    }

    open spec fn one_model(poly_size: Option<usize>, size: Option<usize>) -> GlweModel {
        GlweModel::zero(poly_size->0 as nat, size->0 as nat).negated()
    }

    open spec fn not_model(a: GlweModel) -> GlweModel {
        a.negated()
    }

    open spec fn xor_model(a: GlweModel, b: GlweModel) -> GlweModel {
        a.plus(b)
    }

    fn zero(poly_size: Option<usize>, size: Option<usize>) -> (r: EncryptedBit) {
        EncryptedBit::allocate(poly_size.unwrap(), size.unwrap())
    }

    fn one(poly_size: Option<usize>, size: Option<usize>) -> (r: EncryptedBit) {
        let mut r = EncryptedBit::allocate(poly_size.unwrap(), size.unwrap());
        r.not_inplace();
        r
    }

    fn not_inplace(&mut self) {
        proof {
            use_type_invariant(&*self);
        }
        let ghost before = self@;
        let len = self.coefficients.len();
        let body = len - self.polynomial_size;
        let mut negated: Vec<u64> = Vec::with_capacity(len);
        let mut i: usize = 0;
        while i < len
            invariant
                i <= len,
                len == before.coefficients.len(),
                body == before.body_index(),
                self@ == before,
                negated@.len() == i,
                forall|k: int| 0 <= k < i ==> negated@[k] == before.negated().coefficients[k],
            decreases len - i,
        {
            let c = opposite(self.coefficients[i]);
            let v = if i == body { sum(c, HALF) } else { c };
            negated.push(v);
            i = i + 1;
        }
        assert(negated@ =~= before.negated().coefficients);
        self.coefficients = negated;
    }

    fn xor_assign(&mut self, rhs: &EncryptedBit) {
        proof {
            use_type_invariant(&*self);
            use_type_invariant(rhs);
            same_shape_same_length(self@, rhs@);
        }
        let ghost before = self@;
        let len = self.coefficients.len();
        let mut added: Vec<u64> = Vec::with_capacity(len);
        let mut i: usize = 0;
        while i < len
            invariant
                i <= len,
                len == before.coefficients.len(),
                len == rhs.coefficients@.len(),
                self@ == before,
                added@.len() == i,
                forall|k: int| 0 <= k < i ==> added@[k] == before.plus(rhs@).coefficients[k],
            decreases len - i,
        {
            added.push(sum(self.coefficients[i], rhs.coefficients[i]));
            i = i + 1;
        }
        assert(added@ =~= before.plus(rhs@).coefficients);
        self.coefficients = added;
    }

    fn duplicate(&self) -> (r: EncryptedBit) {
        proof {
            use_type_invariant(self);
        }
        let len = self.coefficients.len();
        let mut coefficients: Vec<u64> = Vec::with_capacity(len);
        let mut i: usize = 0;
        while i < len
            invariant
                i <= len,
                len == self.coefficients@.len(),
                coefficients@ == self.coefficients@.take(i as int),
            decreases len - i,
        {
            coefficients.push(self.coefficients[i]);
            i = i + 1;
            assert(coefficients@ =~= self.coefficients@.take(i as int));
        }
        assert(coefficients@ =~= self.coefficients@);
        EncryptedBit { coefficients, polynomial_size: self.polynomial_size }
    }
}

/// The constant `1` holds one half in the constant term of its body and
/// zero everywhere else: it encodes `1` without noise, under every key.
pub proof fn one_is_one_half_in_the_body(polynomial_size: nat, glwe_size: nat)
    requires
        polynomial_size >= 1,
        glwe_size >= 1,
    ensures
        GlweModel::zero(polynomial_size, glwe_size).negated().coefficients == Seq::new(
            polynomial_size * glwe_size,
            |i: int|
                if i == polynomial_size * glwe_size - polynomial_size {
                    HALF
                } else {
                    0u64
                },
        ),
{
    assert(GlweModel::zero(polynomial_size, glwe_size).negated().coefficients =~= Seq::new(
        polynomial_size * glwe_size,
        |i: int|
            if i == polynomial_size * glwe_size - polynomial_size {
                HALF
            } else {
                0u64
            },
    ));
}

/// Negating twice gives the ciphertext back.
pub proof fn negation_is_an_involution(c: GlweModel)
    ensures
        c.negated().negated() == c,
{
    assert(c.negated().negated().coefficients =~= c.coefficients);
}

/// Two well-formed ciphertexts of one shape have as many coefficients.
pub proof fn same_shape_same_length(a: GlweModel, b: GlweModel)
    requires
        a.well_formed(),
        b.well_formed(),
        a.shape() == b.shape(),
    ensures
        a.coefficients.len() == b.coefficients.len(),
{
    vstd::arithmetic::div_mod::lemma_fundamental_div_mod(a.coefficients.len() as int, a.polynomial_size as int);
    vstd::arithmetic::div_mod::lemma_fundamental_div_mod(b.coefficients.len() as int, b.polynomial_size as int);
}

/// `n` polynomials of `p` coefficients are `p * n` coefficients, of which
/// `n` polynomials can be made again.
pub proof fn shape_of_whole_polynomials(p: nat, n: nat)
    requires
        p >= 1,
        n >= 1,
    ensures
        p * n >= p,
        (p * n) % p == 0,
        (p * n) / p == n,
{
    assert(p * n == n * p) by (nonlinear_arith);
    vstd::arithmetic::div_mod::lemma_fundamental_div_mod_converse((p * n) as int, p as int, n as int, 0);
    assert(p * n >= p) by (nonlinear_arith)
        requires
            p >= 1,
            n >= 1,
    ;
}

} // verus!
