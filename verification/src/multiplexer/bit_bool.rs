//! The clear world: a key bit is a Boolean and selects as `if` does.

use vstd::prelude::*;
use crate::bit::Shape;
use crate::fhe::{GlweSecretKey, StandardDev};
use crate::bit::bit_bool::clear_shape;
use crate::multiplexer::Multiplexer;

verus! {

impl Multiplexer for bool {
    type Bit = bool;

    type Model = bool;

    open spec fn model(&self) -> bool {
        *self
    }

    open spec fn shape(&self) -> Shape {
        clear_shape()
    }

    open spec fn not_model(sel: bool) -> bool {
        !sel
    }

    open spec fn and_model(sel: bool, bit: bool) -> bool {
        sel && bit
    }

    open spec fn mux_model(sel: bool, o1: bool, o0: bool) -> bool {
        if sel { o1 } else { o0 }
    }

    open spec fn as_bit_model(sel: bool) -> bool {
        sel
    }

    open spec fn holds(sel: bool, b: bool) -> bool {
        sel == b
    }

    open spec fn admits(
        sk: Option<&GlweSecretKey>,
        decomp_level: Option<usize>,
        decomp_base_log: Option<usize>,
        noise_parameters: Option<StandardDev>,
    ) -> bool {
        true
    }

    open spec fn fresh_shape(sk: Option<&GlweSecretKey>) -> Shape {
        clear_shape()
    }

    open spec fn admits_parameters(
        poly_size: Option<usize>,
        size: Option<usize>,
        decomp_level: Option<usize>,
        decomp_base_log: Option<usize>,
    ) -> bool {
        true
    }

    open spec fn constant_model(
        b: bool,
        poly_size: Option<usize>,
        size: Option<usize>,
        decomp_level: Option<usize>,
        decomp_base_log: Option<usize>,
    ) -> bool {
        b
    }

    fn zero(
        _sk: Option<&GlweSecretKey>,
        _decomp_level: Option<usize>,
        _decomp_base_log: Option<usize>,
        _noise_parameters: Option<StandardDev>,
    ) -> (r: bool) {
        false
    }

    fn one(
        _sk: Option<&GlweSecretKey>,
        _decomp_level: Option<usize>,
        _decomp_base_log: Option<usize>,
        _noise_parameters: Option<StandardDev>,
    ) -> (r: bool) {
        true
    }

    fn zero_with_fhe_parameters(
        _poly_size: Option<usize>,
        _size: Option<usize>,
        _decomp_level: Option<usize>,
        _decomp_base_log: Option<usize>,
    ) -> (r: bool) {
        false
    }

    fn one_with_fhe_parameters(
        _poly_size: Option<usize>,
        _size: Option<usize>,
        _decomp_level: Option<usize>,
        _decomp_base_log: Option<usize>,
    ) -> (r: bool) {
        true
    }

    fn mux(&self, o1: &bool, o0: &bool) -> (r: bool) {
        if *self { *o1 } else { *o0 }
    }

    fn and(&self, bit: &bool) -> (r: bool) {
        *self && *bit
    }

    fn not(&self) -> (r: bool) {
        !*self
    }

    fn not_inplace(&mut self) {
        *self = !*self;
    }

    fn as_bit(&self) -> (r: bool) {
        *self
    }

    fn duplicate(&self) -> (r: bool) {
        *self
    }

    fn same_shape(&self, _other: &bool) -> (r: bool) {
        true
    }

    fn descriptor() -> (r: String)
        ensures
            r@ == "clear"@,
    {
        "clear".to_owned()
    }
}

} // verus!
