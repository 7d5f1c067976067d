//! The named parameter sets of the cipher.

use vstd::prelude::*;
use crate::fhe::{binary_of, GlweSecretKey, StandardDev};
use crate::filter::{Filter, FilterType};
use crate::filter::dsm::{monomials, one_more_degree, variables};
use crate::filter::xor_thr::threshold_admits;

verus! {

/// The parameters of the symmetric cipher: the size of a round, the size of
/// the key, and the filter.
pub struct Parameters {
    pub n: usize,
    pub key_size: usize,
    pub filter: Filter,
}

/// The parameter sets.
#[allow(non_camel_case_types)]
#[derive(Debug, Clone, Copy, PartialEq, Eq)]
pub enum SystemParameters {
    /// FiLIP-1216: a direct sum of monomials on rounds of 1216 key bits.
    n1216,
    /// FiLIP-1280: a direct sum of monomials on rounds of 1280 key bits.
    n1280,
    /// FiLIP-144: linear terms and a threshold on rounds of 144 key bits.
    n144,
}

impl SystemParameters {
    /// The number of key bits of a round.
    pub open spec fn round_size(&self) -> nat {
        match self {
            SystemParameters::n1216 => 1216,
            SystemParameters::n1280 => 1280,
            SystemParameters::n144 => 144,
        }
    }

    /// The number of key bits.
    pub open spec fn key_size(&self) -> nat {
        match self {
            SystemParameters::n1216 => 16384,
            SystemParameters::n1280 => 4096,
            SystemParameters::n144 => 16384,
        }
    }

    /// The family of the filter.
    pub open spec fn filter_type(&self) -> FilterType {
        match self {
            SystemParameters::n1216 => FilterType::DSM,
            SystemParameters::n1280 => FilterType::DSM,
            SystemParameters::n144 => FilterType::XorThr,
        }
    }

    /// The parameters of the filter.
    pub open spec fn filter_parameters(&self) -> Seq<usize> {
        match self {
            SystemParameters::n1216 => seq![128usize, 64, 0, 80, 0, 0, 0, 80],
            SystemParameters::n1280 => seq![128usize, 64, 0, 0, 0, 0, 0, 0, 0, 0, 0, 0, 0, 0, 0, 64],
            SystemParameters::n144 => seq![81usize, 32],
        }
    }

    /// The name of the parameter set.
    pub open spec fn name_text(&self) -> Seq<char> {
        match self {
            SystemParameters::n1216 => "FiLIP-1216"@,
            SystemParameters::n1280 => "FiLIP-1280"@,
            SystemParameters::n144 => "FiLIP-144"@,
        }
    }

    /// The word by which the parameter set is chosen on a command line.
    pub open spec fn flag_text(&self) -> Seq<char> {
        match self {
            SystemParameters::n1216 => "FiLIP_1216"@,
            SystemParameters::n1280 => "FiLIP_1280"@,
            SystemParameters::n144 => "FiLIP_144"@,
        }
    }

    /// No two parameter sets are chosen by the same word.
    pub proof fn flags_differ(&self, other: &SystemParameters)
        requires
            self.flag_text() == other.flag_text(),
        ensures
            self == other,
    {
        reveal_strlit("FiLIP_1216");
        reveal_strlit("FiLIP_1280");
        reveal_strlit("FiLIP_144");
        let a = self.flag_text();
        let b = other.flag_text();
        assert(a.len() == b.len());
        assert(a[8] == b[8]);
    }

    /// The parameter set that `flag` chooses, if it chooses one.
    pub fn from_flag(flag: &str) -> (r: Option<SystemParameters>)
        ensures
            match r {
                Some(parameters) => flag@ == parameters.flag_text(),
                None => forall|parameters: SystemParameters| flag@ != parameters.flag_text(),
            },
    {
        let flag = flag.to_owned();
        if flag == "FiLIP_1216".to_owned() {
            Some(SystemParameters::n1216)
        } else if flag == "FiLIP_1280".to_owned() {
            Some(SystemParameters::n1280)
        } else if flag == "FiLIP_144".to_owned() {
            Some(SystemParameters::n144)
        } else {
            None
        }
    }

    /// The filter of every parameter set consumes exactly the key bits of a
    /// round.
    pub proof fn filter_fits(&self)
        ensures
            match self.filter_type() {
                FilterType::DSM => monomials(self.filter_parameters()) >= 1 && variables(
                    self.filter_parameters(),
                ) == self.round_size(),
                FilterType::XorThr => self.filter_parameters()[0] + 2
                    * self.filter_parameters()[1] - 1 == self.round_size() && threshold_admits(
                    (self.round_size() - self.filter_parameters()[0]) as nat,
                    self.filter_parameters()[1] as nat,
                ),
            },
    {
        let empty = Seq::<usize>::empty();
        match self {
            SystemParameters::n1216 => {
                let m1 = empty.push(128);
                let m2 = m1.push(64);
                let m3 = m2.push(0);
                let m4 = m3.push(80);
                let m5 = m4.push(0);
                let m6 = m5.push(0);
                let m7 = m6.push(0);
                let m8 = m7.push(80);
                one_more_degree(empty, 128);
                one_more_degree(m1, 64);
                one_more_degree(m2, 0);
                one_more_degree(m3, 80);
                one_more_degree(m4, 0);
                one_more_degree(m5, 0);
                one_more_degree(m6, 0);
                one_more_degree(m7, 80);
                assert(self.filter_parameters() =~= m8);
            },
            SystemParameters::n1280 => {
                let m1 = empty.push(128);
                let m2 = m1.push(64);
                let m3 = m2.push(0);
                let m4 = m3.push(0);
                let m5 = m4.push(0);
                let m6 = m5.push(0);
                let m7 = m6.push(0);
                let m8 = m7.push(0);
                let m9 = m8.push(0);
                let m10 = m9.push(0);
                let m11 = m10.push(0);
                let m12 = m11.push(0);
                let m13 = m12.push(0);
                let m14 = m13.push(0);
                let m15 = m14.push(0);
                let m16 = m15.push(64);
                one_more_degree(empty, 128);
                one_more_degree(m1, 64);
                one_more_degree(m2, 0);
                one_more_degree(m3, 0);
                one_more_degree(m4, 0);
                one_more_degree(m5, 0);
                one_more_degree(m6, 0);
                one_more_degree(m7, 0);
                one_more_degree(m8, 0);
                one_more_degree(m9, 0);
                one_more_degree(m10, 0);
                one_more_degree(m11, 0);
                one_more_degree(m12, 0);
                one_more_degree(m13, 0);
                one_more_degree(m14, 0);
                one_more_degree(m15, 64);
                assert(self.filter_parameters() =~= m16);
            },
            SystemParameters::n144 => {},
        }
    }

    /// The parameters of the symmetric cipher.
    pub fn parameters(&self) -> (r: Parameters)
        ensures
            r.n == self.round_size(),
            r.key_size == self.key_size(),
            r.filter.category() == self.filter_type(),
            r.filter.parameters() == self.filter_parameters(),
            r.filter.admits(r.n as nat),
            r.n <= r.key_size,
    {
        proof {
            self.filter_fits();
        }
        match self {
            SystemParameters::n1216 => {
                let m: Vec<usize> = vec![128, 64, 0, 80, 0, 0, 0, 80];
                assert(m@ =~= self.filter_parameters());
                Parameters {
                    key_size: 16384,
                    n: 1216,
                    filter: Filter::new(FilterType::DSM, m.as_slice()),
                }
            },
            SystemParameters::n1280 => {
                let m: Vec<usize> = vec![128, 64, 0, 0, 0, 0, 0, 0, 0, 0, 0, 0, 0, 0, 0, 64];
                assert(m@ =~= self.filter_parameters());
                Parameters {
                    key_size: 4096,
                    n: 1280,
                    filter: Filter::new(FilterType::DSM, m.as_slice()),
                }
            },
            SystemParameters::n144 => {
                let m: Vec<usize> = vec![81, 32];
                assert(m@ =~= self.filter_parameters());
                Parameters {
                    key_size: 16384,
                    n: 144,
                    filter: Filter::new(FilterType::XorThr, m.as_slice()),
                }
            },
        }
    }

    /// The name of the parameter set.
    pub fn name(&self) -> (r: String)
        ensures
            r@ == self.name_text(),
    {
        match self {
            SystemParameters::n1216 => "FiLIP-1216".to_owned(),
            SystemParameters::n1280 => "FiLIP-1280".to_owned(),
            SystemParameters::n144 => "FiLIP-144".to_owned(),
        }
    }

    /// The parameters of the homomorphic scheme that the cipher is
    /// evaluated in: the number of mask polynomials, the size of the
    /// polynomials, the logarithm of the decomposition base, the number of
    /// decomposition levels, and the noise of fresh encryptions.
    pub fn fhe_parameters(&self) -> (r: (usize, usize, usize, usize, StandardDev))
        ensures
            r.0 == 1,
            r.1 == 1024,
            r.2 == 5,
            r.3 == 6,
            r.4 == (StandardDev { base: 10, exponent: 9 }),
    {
        (1, 1024, 5, 6, StandardDev { base: 10, exponent: 9 })
    }

    /// The secret key of the homomorphic scheme, for the dimensions of the
    /// parameter set, that the fresh randomness `randomness` draws: one byte
    /// for each coefficient of the key.
    pub fn generate_fhe_key(&self, randomness: &[u8]) -> (r: GlweSecretKey)
        requires
            randomness@.len() == 1024,
        ensures
            r@.coefficients == binary_of(randomness@),
            r@.polynomial_size == 1024,
            r@.dimension() == 1,
            r@.well_formed(),
    {
        let (glwe_dimension, poly_size, _base_log, _level, _std_dev) = self.fhe_parameters();
        GlweSecretKey::generate_binary(glwe_dimension, poly_size, randomness)
    }
}

} // verus!
