//! What the filters compute, as Boolean functions.
//!
//! In the clear world a filter's model is a Boolean function of the key
//! round. In another world it is that same function of what the key bits
//! stand for, provided that reading a bit commutes with the operations of
//! the world.

use vstd::prelude::*;
use crate::bit::Bit;
use crate::multiplexer::Multiplexer;
use crate::filter::{Filter, FilterType};
use crate::filter::dsm::{dsm_model, monomial, variables};
use crate::filter::xor_thr::{
    linear_model, lowest, threshold_admits, threshold_model, top, window, window_has_len,
    window_len, xor_thr_model,
};

verus! {

/// Whether reading the key bits of a world by `key_of`, and its bits by
/// `bit_of`, commutes with the operations of the world: the reading of a
/// result is the Boolean operation on the readings of the operands.
pub open spec fn homomorphic<M: Multiplexer>(
    key_of: spec_fn(M::Model) -> bool,
    bit_of: spec_fn(<M::Bit as Bit>::Model) -> bool,
) -> bool {
    &&& forall|s: M::Model| #![trigger M::as_bit_model(s)] bit_of(M::as_bit_model(s)) == key_of(s)
    &&& forall|s: M::Model| #![trigger M::not_model(s)] key_of(M::not_model(s)) == !key_of(s)
    &&& forall|a: <M::Bit as Bit>::Model|
        #![trigger <M::Bit as Bit>::not_model(a)]
        bit_of(<M::Bit as Bit>::not_model(a)) == !bit_of(a)
    &&& forall|a: <M::Bit as Bit>::Model, b: <M::Bit as Bit>::Model|
        #![trigger <M::Bit as Bit>::xor_model(a, b)]
        bit_of(<M::Bit as Bit>::xor_model(a, b)) == (bit_of(a) != bit_of(b))
    &&& forall|s: M::Model, a: <M::Bit as Bit>::Model|
        #![trigger M::and_model(s, a)]
        bit_of(M::and_model(s, a)) == (key_of(s) && bit_of(a))
    &&& forall|s: M::Model, o1: <M::Bit as Bit>::Model, o0: <M::Bit as Bit>::Model|
        #![trigger M::mux_model(s, o1, o0)]
        bit_of(M::mux_model(s, o1, o0)) == (if key_of(s) {
            bit_of(o1)
        } else {
            bit_of(o0)
        })
}

/// The key bits of a round as `key_of` reads them.
pub open spec fn readings<K>(x: Seq<K>, key_of: spec_fn(K) -> bool) -> Seq<bool> {
    Seq::new(x.len(), |i: int| key_of(x[i]))
}

/// Reading a clear value: the value itself.
pub open spec fn clear() -> spec_fn(bool) -> bool {
    |b: bool| b
}

/// The clear world is read by the identity.
pub proof fn clear_is_homomorphic()
    ensures
        homomorphic::<bool>(clear(), clear()),
{
}

/// The identity reads a clear round as itself.
pub proof fn clear_readings(x: Seq<bool>)
    ensures
        readings(x, clear()) == x,
{
    assert(readings(x, clear()) =~= x);
}

/// Whether the `degree` variables from `start` on are all set.
pub open spec fn all_set(v: Seq<bool>, start: int, degree: nat) -> bool {
    forall|t: int| start <= t < start + degree ==> v[t]
}

/// Number of monomials, among those that `m` asks for, whose variables are
/// all set.
pub open spec fn satisfied(v: Seq<bool>, m: Seq<usize>) -> nat
    decreases m.len(), (if m.len() > 0 { m.last() as int } else { 0 }),
{
    if m.len() == 0 {
        0
    } else if m.last() == 0 {
        satisfied(v, m.drop_last())
    } else {
        let before = m.update(m.len() - 1, (m.last() - 1) as usize);
        satisfied(v, before) + if all_set(v, variables(before) as int, m.len()) {
            1nat
        } else {
            0nat
        }
    }
}

/// The direct sum of monomials as a Boolean function: whether an odd number
/// of the monomials are satisfied.
pub open spec fn dsm_value(v: Seq<bool>, m: Seq<usize>) -> bool {
    satisfied(v, m) % 2 == 1
}

/// Number of variables that are set.
pub open spec fn count_true(v: Seq<bool>) -> nat
    decreases v.len(),
{
    if v.len() == 0 {
        0
    } else {
        count_true(v.drop_last()) + if v.last() { 1nat } else { 0nat }
    }
}

/// The threshold function: whether at least `d` of the variables are set.
pub open spec fn at_least(v: Seq<bool>, d: nat) -> bool {
    count_true(v) >= d
}

/// The exclusive or of the first `k` variables.
pub open spec fn parity(v: Seq<bool>, k: nat) -> bool {
    count_true(v.take(k as int)) % 2 == 1
}

/// The filter on linear terms and threshold as a Boolean function.
pub open spec fn xor_thr_value(v: Seq<bool>, k: nat, d: nat) -> bool {
    parity(v, k) != at_least(v.skip(k as int), d)
}

impl Filter {
    /// The filter as a Boolean function of the key round.
    pub open spec fn value(&self, v: Seq<bool>) -> bool {
        match self.category() {
            FilterType::DSM => dsm_value(v, self.parameters()),
            FilterType::XorThr => xor_thr_value(
                v,
                self.parameters()[0] as nat,
                self.parameters()[1] as nat,
            ),
        }
    }
}

/// No more variables are set than there are.
pub proof fn count_true_bounded(v: Seq<bool>)
    ensures
        count_true(v) <= v.len(),
    decreases v.len(),
{
    if v.len() > 0 {
        count_true_bounded(v.drop_last());
    }
}

/// One more variable adds one to the tally where it is set.
pub proof fn count_true_next(v: Seq<bool>, i: int)
    requires
        0 <= i < v.len(),
    ensures
        count_true(v.take(i + 1)) == count_true(v.take(i)) + if v[i] { 1nat } else { 0nat },
{
    assert(v.take(i + 1).drop_last() =~= v.take(i));
}

/// A monomial reads as the conjunction of its variables.
pub proof fn monomial_meaning<M: Multiplexer>(
    x: Seq<M::Model>,
    start: int,
    degree: nat,
    key_of: spec_fn(M::Model) -> bool,
    bit_of: spec_fn(<M::Bit as Bit>::Model) -> bool,
)
    requires
        homomorphic::<M>(key_of, bit_of),
        0 <= start,
        degree >= 1,
        start + degree <= x.len(),
    ensures
        bit_of(monomial::<M>(x, start, degree)) == all_set(readings(x, key_of), start, degree),
    decreases degree,
{
    let v = readings(x, key_of);
    if degree <= 1 {
        assert(v[start] == key_of(x[start]));
    } else {
        monomial_meaning::<M>(x, start, (degree - 1) as nat, key_of, bit_of);
        assert(v[start + degree - 1] == key_of(x[start + degree - 1]));
        assert(all_set(v, start, degree) == (all_set(v, start, (degree - 1) as nat) && v[start
            + degree - 1]));
    }
}

/// A direct sum of monomials reads as the parity of the number of
/// satisfied monomials.
pub proof fn dsm_meaning<M: Multiplexer>(
    x: Seq<M::Model>,
    m: Seq<usize>,
    key_of: spec_fn(M::Model) -> bool,
    bit_of: spec_fn(<M::Bit as Bit>::Model) -> bool,
)
    requires
        homomorphic::<M>(key_of, bit_of),
        variables(m) <= x.len(),
    ensures
        dsm_model::<M>(x, m) is Some ==> bit_of(dsm_model::<M>(x, m)->0) == dsm_value(
            readings(x, key_of),
            m,
        ),
        dsm_model::<M>(x, m) is None ==> satisfied(readings(x, key_of), m) == 0,
    decreases m.len(), (if m.len() > 0 { m.last() as int } else { 0 }),
{
    if m.len() == 0 {
    } else if m.last() == 0 {
        assert(m.len() * m.last() as nat == 0) by (nonlinear_arith)
            requires
                m.last() == 0,
        ;
        dsm_meaning::<M>(x, m.drop_last(), key_of, bit_of);
    } else {
        let before = m.update(m.len() - 1, (m.last() - 1) as usize);
        assert(before.drop_last() =~= m.drop_last());
        assert(m.len() * before.last() as nat + m.len() == m.len() * m.last() as nat)
            by (nonlinear_arith)
            requires
                before.last() + 1 == m.last(),
        ;
        dsm_meaning::<M>(x, before, key_of, bit_of);
        monomial_meaning::<M>(x, variables(before) as int, m.len(), key_of, bit_of);
    }
}

/// Number of the first `i + 1` key bits of `y` that read as set.
pub open spec fn tally<K>(y: Seq<K>, key_of: spec_fn(K) -> bool, i: nat) -> nat {
    count_true(readings(y, key_of).take(i as int + 1))
}

/// What the window tells after the variable of index `i`: each entry but the
/// last tells whether the tally equals one value, upwards from the lowest
/// tally that the window holds, and the last whether the tally has reached
/// `top(i + 1, d)`.
pub open spec fn window_tells<M: Multiplexer>(
    y: Seq<M::Model>,
    d: nat,
    i: nat,
    key_of: spec_fn(M::Model) -> bool,
    bit_of: spec_fn(<M::Bit as Bit>::Model) -> bool,
) -> bool {
    let w = window::<M>(y, d, i);
    let c = tally(y, key_of, i);
    let last = w.len() - 1;
    &&& w.len() == window_len(y.len(), d, i)
    &&& forall|j: int|
        0 <= j < last ==> bit_of(#[trigger] w[j]) == (c == lowest(y.len(), d, i) + j)
    &&& bit_of(w[last]) == (c >= top(i + 1, d))
}

/// The window tells the tallies as `window_tells` says.
pub proof fn window_meaning<M: Multiplexer>(
    y: Seq<M::Model>,
    d: nat,
    i: nat,
    key_of: spec_fn(M::Model) -> bool,
    bit_of: spec_fn(<M::Bit as Bit>::Model) -> bool,
)
    requires
        homomorphic::<M>(key_of, bit_of),
        1 <= d <= y.len(),
        i < y.len(),
    ensures
        window_tells::<M>(y, d, i, key_of, bit_of),
    decreases i,
{
    let n = y.len();
    let v = readings(y, key_of);
    let w = window::<M>(y, d, i);
    let c = tally(y, key_of, i);
    window_has_len::<M>(y, d, i);
    count_true_bounded(v.take(i as int + 1));
    if i == 0 {
        assert(v.take(1).drop_last() =~= Seq::<bool>::empty());
        assert(v.take(1).last() == key_of(y[0]));
        assert(count_true(v.take(1).drop_last()) == 0);
    } else {
        let before = window::<M>(y, d, (i - 1) as nat);
        let c0 = tally(y, key_of, (i - 1) as nat);
        let b = key_of(y[i as int]);
        window_meaning::<M>(y, d, (i - 1) as nat, key_of, bit_of);
        window_has_len::<M>(y, d, (i - 1) as nat);
        count_true_next(v, i as int);
        count_true_bounded(v.take(i as int));
        assert(c == c0 + if b { 1nat } else { 0nat });
        let len0 = before.len() as int;
        let lo0 = lowest(n, d, (i - 1) as nat) as int;
        let lo = lowest(n, d, i) as int;
        let grown = Seq::new(
            before.len() + 1,
            |j: int|
                if j == 0 {
                    before[0]
                } else if j < before.len() {
                    M::mux_model(y[i as int], before[j - 1], before[j])
                } else {
                    M::and_model(y[i as int], before[before.len() - 1])
                },
        );
        assert forall|j: int| 1 <= j < len0 implies bit_of(#[trigger] grown[j]) == (if b {
            bit_of(before[j - 1])
        } else {
            bit_of(before[j])
        }) by {}
        assert(bit_of(grown[len0]) == (b && bit_of(before[len0 - 1])));
        // Between head and tail, the entries tell the tallies upwards from
        // the old lowest; the two at the tail tell of the highest.
        assert forall|j: int| 1 <= j < len0 - 1 implies bit_of(#[trigger] grown[j]) == (c == lo0
            + j) by {}
        let headed = if i + d < n {
            grown.update(0, M::and_model(M::not_model(y[i as int]), before[0]))
        } else {
            grown.skip(1)
        };
        let shift = if i + d < n { 0int } else { 1int };
        assert(lo == lo0 + shift);
        assert(headed.len() == len0 + 1 - shift);
        assert forall|j: int| 0 <= j < headed.len() implies #[trigger] headed[j] == (if j + shift
            == 0 {
            M::and_model(M::not_model(y[i as int]), before[0])
        } else {
            grown[j + shift]
        }) by {}
        if i + d < n {
            assert(len0 >= 2);
            assert(bit_of(headed[0]) == (c == 0));
        }
        let last = w.len() - 1;
        if i >= d {
            let kept = headed.drop_last();
            assert(w == kept.update(
                kept.len() - 1,
                <M::Bit as Bit>::xor_model(kept.last(), headed.last()),
            ));
            assert(len0 >= 2);
            assert(kept.last() == grown[len0 - 1]);
            assert(headed.last() == grown[len0]);
            assert(bit_of(w[last]) == (bit_of(grown[len0 - 1]) != bit_of(grown[len0])));
            assert forall|j: int| 0 <= j < last implies bit_of(#[trigger] w[j]) == (c == lo + j) by {
                assert(w[j] == headed[j]);
            }
        } else {
            assert(w == headed);
            assert(w[last] == grown[len0]);
            assert forall|j: int| 0 <= j < last implies bit_of(#[trigger] w[j]) == (c == lo + j) by {
                assert(w[j] == headed[j]);
            }
        }
    }
}

/// The threshold function reads as whether at least `d` of the readings are
/// set.
pub proof fn threshold_meaning<M: Multiplexer>(
    y: Seq<M::Model>,
    d: nat,
    key_of: spec_fn(M::Model) -> bool,
    bit_of: spec_fn(<M::Bit as Bit>::Model) -> bool,
)
    requires
        homomorphic::<M>(key_of, bit_of),
        threshold_admits(y.len(), d),
    ensures
        bit_of(threshold_model::<M>(y, d)) == at_least(readings(y, key_of), d),
{
    let v = readings(y, key_of);
    count_true_bounded(v);
    if d <= y.len() {
        let i = (y.len() - 1) as nat;
        window_meaning::<M>(y, d, i, key_of, bit_of);
        assert(v.take(i as int + 1) =~= v);
    }
}

/// The linear part reads as the parity of its variables.
pub proof fn linear_meaning<M: Multiplexer>(
    x: Seq<M::Model>,
    k: nat,
    key_of: spec_fn(M::Model) -> bool,
    bit_of: spec_fn(<M::Bit as Bit>::Model) -> bool,
)
    requires
        homomorphic::<M>(key_of, bit_of),
        1 <= k <= x.len(),
    ensures
        bit_of(linear_model::<M>(x, k)) == parity(readings(x, key_of), k),
    decreases k,
{
    let v = readings(x, key_of);
    if k <= 1 {
        assert(v.take(1).drop_last() =~= Seq::<bool>::empty());
        assert(count_true(v.take(1).drop_last()) == 0);
        assert(v.take(1).last() == key_of(x[0]));
    } else {
        linear_meaning::<M>(x, (k - 1) as nat, key_of, bit_of);
        count_true_next(v, k - 1);
        assert(v[k - 1] == key_of(x[k - 1]));
    }
}

/// The filter on linear terms and threshold reads as `xor_thr_value` of the
/// readings.
pub proof fn xor_thr_meaning<M: Multiplexer>(
    x: Seq<M::Model>,
    k: nat,
    d: nat,
    key_of: spec_fn(M::Model) -> bool,
    bit_of: spec_fn(<M::Bit as Bit>::Model) -> bool,
)
    requires
        homomorphic::<M>(key_of, bit_of),
        k <= x.len(),
        threshold_admits((x.len() - k) as nat, d),
    ensures
        bit_of(xor_thr_model::<M>(x, k, d)) == xor_thr_value(readings(x, key_of), k, d),
{
    let v = readings(x, key_of);
    threshold_meaning::<M>(x.skip(k as int), d, key_of, bit_of);
    assert(readings(x.skip(k as int), key_of) =~= v.skip(k as int));
    if k == 0 {
        assert(x.skip(0) =~= x);
        assert(v.take(0) =~= Seq::<bool>::empty());
    } else {
        linear_meaning::<M>(x, k, key_of, bit_of);
    }
}

impl Filter {
    /// In a world whose reading commutes with its operations, the filter
    /// reads as its Boolean function of the readings of the key round.
    pub proof fn meaning<M: Multiplexer>(
        &self,
        x: Seq<M::Model>,
        key_of: spec_fn(M::Model) -> bool,
        bit_of: spec_fn(<M::Bit as Bit>::Model) -> bool,
    )
        requires
            homomorphic::<M>(key_of, bit_of),
            self.admits(x.len()),
        ensures
            bit_of(self.model::<M>(x)) == self.value(readings(x, key_of)),
    {
        match self.category() {
            FilterType::DSM => {
                crate::filter::dsm::dsm_model_is_some::<M>(x, self.parameters());
                dsm_meaning::<M>(x, self.parameters(), key_of, bit_of);
            },
            FilterType::XorThr => {
                xor_thr_meaning::<M>(
                    x,
                    self.parameters()[0] as nat,
                    self.parameters()[1] as nat,
                    key_of,
                    bit_of,
                );
            },
        }
    }

    /// In the clear world the filter is its Boolean function.
    pub proof fn clear_meaning(&self, x: Seq<bool>)
        requires
            self.admits(x.len()),
        ensures
            self.model::<bool>(x) == self.value(x),
    {
        clear_is_homomorphic();
        clear_readings(x);
        self.meaning::<bool>(x, clear(), clear());
    }
}

} // verus!
