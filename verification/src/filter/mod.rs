//! The nonlinear Boolean function applied to each key round.

use vstd::prelude::*;
use vstd::slice::slice_to_vec;
use crate::bit::Bit;
use crate::multiplexer::{models, uniform, Multiplexer};
use crate::filter::dsm::{dsm, dsm_model, monomials, variables};
use crate::filter::xor_thr::{threshold_admits, xor_thr, xor_thr_model};

pub mod dsm;
pub mod xor_thr;
pub mod meaning;

verus! {

/// The families of filters.
#[derive(Clone, Copy, Debug, PartialEq, Eq)]
pub enum FilterType {
    /// Direct sum of monomials; the parameters are the number of monomials
    /// of each degree, from degree 1 on.
    DSM,
    /// Exclusive or of linear terms and of a threshold function; the
    /// parameters are the number of linear terms and the threshold.
    XorThr,
}

/// A filter: a family and its parameters.
pub struct Filter {
    category: FilterType,
    parameters: Vec<usize>,
}

impl Filter {
    /// The family of the filter.
    pub closed spec fn category(&self) -> FilterType {
        self.category
    }

    /// The parameters of the filter.
    pub closed spec fn parameters(&self) -> Seq<usize> {
        self.parameters@
    }

    /// Whether the filter can be evaluated on rounds of `n` key bits.
    ///
    /// A direct sum of monomials needs a monomial, and a key bit for each of
    /// its variables. An exclusive or with threshold needs its two
    /// parameters, a key bit for each linear term, and a threshold that can
    /// be evaluated on the others.
    pub open spec fn admits(&self, n: nat) -> bool {
        match self.category() {
            FilterType::DSM => monomials(self.parameters()) >= 1 && variables(self.parameters())
                <= n,
            FilterType::XorThr => {
                &&& self.parameters().len() >= 2
                &&& self.parameters()[0] <= n
                &&& threshold_admits((n - self.parameters()[0]) as nat, self.parameters()[1] as nat)
            },
        }
    }

    /// What the filter is on the key round `x`, in the world of `M`.
    pub open spec fn model<M: Multiplexer>(&self, x: Seq<M::Model>) -> <M::Bit as Bit>::Model {
        match self.category() {
            FilterType::DSM => dsm_model::<M>(x, self.parameters())->0,
            FilterType::XorThr => xor_thr_model::<M>(
                x,
                self.parameters()[0] as nat,
                self.parameters()[1] as nat,
            ),
        }
    }

    /// A filter can only be evaluated on rounds that hold a key bit.
    pub proof fn admits_no_empty_round(&self, n: nat)
        requires
            self.admits(n),
        ensures
            n >= 1,
    {
        crate::filter::dsm::variables_at_least_monomials(self.parameters());
    }

    /// The filter of the family `filter` with the given parameters.
    pub fn new(filter: FilterType, parameters: &[usize]) -> (r: Filter)
        ensures
            r.category() == filter,
            r.parameters() == parameters@,
    {
        Filter { category: filter, parameters: slice_to_vec(parameters) }
    }

    /// Evaluates the filter on the key round `x`.
    pub fn call<M: Multiplexer>(&self, x: &[M]) -> (r: M::Bit)
        requires
            self.admits(x@.len()),
            uniform(x@),
        ensures
            r.model() == self.model::<M>(models(x@)),
            r.shape() == x@[0].shape(),
    {
        match self.category {
            FilterType::DSM => dsm(x, self.parameters.as_slice()),
            FilterType::XorThr => xor_thr(x, self.parameters[0], self.parameters[1]),
        }
    }
}

impl Clone for Filter {
    fn clone(&self) -> (r: Filter)
        ensures
            r.category() == self.category(),
            r.parameters() == self.parameters(),
    {
        Filter { category: self.category, parameters: slice_to_vec(self.parameters.as_slice()) }
    }
}

} // verus!
