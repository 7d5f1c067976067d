//! The clear world: a bit is a Boolean.

use vstd::prelude::*;
use crate::bit::{Bit, Shape};

verus! {

/// The shape of every clear value.
pub open spec fn clear_shape() -> Shape {
    Shape { polynomial_size: 0, glwe_size: 0 }
}

impl Bit for bool {
    type Model = bool;

    open spec fn model(&self) -> bool {
        *self
    }

    open spec fn shape(&self) -> Shape {
        clear_shape()
    }

    open spec fn accepts(poly_size: Option<usize>, size: Option<usize>) -> bool {
        true
    }

    open spec fn constant_shape(poly_size: Option<usize>, size: Option<usize>) -> Shape {
        clear_shape()
    }

    open spec fn zero_model(poly_size: Option<usize>, size: Option<usize>) -> bool {
        false
    }

    open spec fn one_model(poly_size: Option<usize>, size: Option<usize>) -> bool {
        true
    }

    open spec fn not_model(a: bool) -> bool {
        !a
    }

    open spec fn xor_model(a: bool, b: bool) -> bool {
        a != b
    }

    fn zero(_poly_size: Option<usize>, _size: Option<usize>) -> (r: bool) {
        false
    }

    fn one(_poly_size: Option<usize>, _size: Option<usize>) -> (r: bool) {
        true
    }

    fn not_inplace(&mut self) {
        *self = !*self;
    }

    fn xor_assign(&mut self, rhs: &bool) {
        *self = *self != *rhs;
    }

    fn duplicate(&self) -> (r: bool) {
        *self
    }
}

} // verus!
