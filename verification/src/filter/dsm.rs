//! The direct sum of monomials: the exclusive or of conjunctions of
//! distinct variables, `m[i]` of them of degree `i + 1`, taken from the key
//! round in order.

use vstd::prelude::*;
use crate::bit::Bit;
use crate::multiplexer::{models, uniform, Multiplexer};

verus! {

/// Number of monomials that the multiplicities `m` ask for.
pub open spec fn monomials(m: Seq<usize>) -> nat
    decreases m.len(),
{
    if m.len() == 0 {
        0
    } else {
        monomials(m.drop_last()) + m.last() as nat
    }
}

/// Number of variables that the multiplicities `m` consume: `m[i]`
/// monomials of `i + 1` variables each.
pub open spec fn variables(m: Seq<usize>) -> nat
    decreases m.len(),
{
    if m.len() == 0 {
        0
    } else {
        variables(m.drop_last()) + m.len() * m.last() as nat
    }
}

/// The conjunction of the `degree` variables from `start` on: the first as a
/// bit, on which the others act in turn. (`degree` is at least 1.)
pub open spec fn monomial<M: Multiplexer>(x: Seq<M::Model>, start: int, degree: nat) -> <M::Bit as Bit>::Model
    decreases degree,
{
    if degree <= 1 {
        M::as_bit_model(x[start])
    } else {
        M::and_model(x[start + degree - 1], monomial::<M>(x, start, (degree - 1) as nat))
    }
}

/// The exclusive or, from left to right, of the monomials that `m` asks
/// for, each on the variables that follow those of the monomial before it;
/// `None` where `m` asks for no monomial.
pub open spec fn dsm_model<M: Multiplexer>(x: Seq<M::Model>, m: Seq<usize>) -> Option<<M::Bit as Bit>::Model>
    decreases m.len(), (if m.len() > 0 { m.last() as int } else { 0 }),
{
    if m.len() == 0 {
        None
    } else if m.last() == 0 {
        dsm_model::<M>(x, m.drop_last())
    } else {
        let before = m.update(m.len() - 1, (m.last() - 1) as usize);
        let last = monomial::<M>(x, variables(before) as int, m.len());
        match dsm_model::<M>(x, before) {
            None => Some(last),
            Some(sum) => Some(<M::Bit as Bit>::xor_model(sum, last)),
        }
    }
}

/// The multiplicities of the first `i` degrees, and `c` monomials of the
/// next degree.
pub open spec fn progress(m: Seq<usize>, i: int, c: usize) -> Seq<usize> {
    m.take(i).push(c)
}

/// One more degree, with `c` monomials, adds `c` monomials of as many
/// variables as there are degrees.
pub proof fn one_more_degree(m: Seq<usize>, c: usize)
    ensures
        variables(m.push(c)) == variables(m) + (m.len() + 1) * c,
        monomials(m.push(c)) == monomials(m) + c,
{
    assert(m.push(c).drop_last() =~= m);
}

/// What the multiplicities consume and ask for after `c` monomials of the
/// degree `i + 1`.
pub proof fn variables_of_progress(m: Seq<usize>, i: int, c: usize)
    requires
        0 <= i <= m.len(),
    ensures
        variables(progress(m, i, c)) == variables(m.take(i)) + (i + 1) * c,
        monomials(progress(m, i, c)) == monomials(m.take(i)) + c,
{
    one_more_degree(m.take(i), c);
}

/// A prefix of the multiplicities consumes no more variables, and asks for
/// no more monomials, than the whole.
pub proof fn variables_of_prefix(m: Seq<usize>, i: int)
    requires
        0 <= i <= m.len(),
    ensures
        variables(m.take(i)) <= variables(m),
        monomials(m.take(i)) <= monomials(m),
    decreases m.len() - i,
{
    if i == m.len() {
        assert(m.take(i) =~= m);
    } else {
        variables_of_prefix(m, i + 1);
        assert(m.take(i + 1).drop_last() =~= m.take(i));
        assert((i + 1) * m[i] as nat >= 0) by (nonlinear_arith)
            requires
                0 <= i,
        ;
    }
}

/// While monomials of degree `i + 1` are left, the next one lies within the
/// variables that `m` consumes.
pub proof fn next_monomial_fits(m: Seq<usize>, i: int, c: usize)
    requires
        0 <= i < m.len(),
        c < m[i],
    ensures
        variables(progress(m, i, c)) + (i + 1) <= variables(m),
{
    variables_of_progress(m, i, c);
    variables_of_prefix(m, i + 1);
    assert(m.take(i + 1).drop_last() =~= m.take(i));
    assert((i + 1) * c + (i + 1) <= (i + 1) * m[i]) by (nonlinear_arith)
        requires
            c < m[i],
            0 <= i,
    ;
}

/// Every monomial consumes at least one variable.
pub proof fn variables_at_least_monomials(m: Seq<usize>)
    ensures
        variables(m) >= monomials(m),
    decreases m.len(),
{
    if m.len() > 0 {
        variables_at_least_monomials(m.drop_last());
        assert(m.len() * m.last() as nat >= m.last() as nat) by (nonlinear_arith)
            requires
                m.len() >= 1,
        ;
    }
}

/// The sum has a value exactly where `m` asks for a monomial.
pub proof fn dsm_model_is_some<M: Multiplexer>(x: Seq<M::Model>, m: Seq<usize>)
    ensures
        dsm_model::<M>(x, m) is Some <==> monomials(m) >= 1,
    decreases m.len(), (if m.len() > 0 { m.last() as int } else { 0 }),
{
    if m.len() == 0 {
    } else if m.last() == 0 {
        dsm_model_is_some::<M>(x, m.drop_last());
    } else {
        let before = m.update(m.len() - 1, (m.last() - 1) as usize);
        dsm_model_is_some::<M>(x, before);
        assert(before.drop_last() =~= m.drop_last());
    }
}

/// Evaluates the direct sum of monomials with multiplicities `m` on the
/// key round `x`.
pub fn dsm<M: Multiplexer>(x: &[M], m: &[usize]) -> (r: M::Bit)
    requires
        monomials(m@) >= 1,
        variables(m@) <= x@.len(),
        uniform(x@),
    ensures
        dsm_model::<M>(models(x@), m@) == Some(r.model()),
        r.shape() == x@[0].shape(),
{
    let ghost xs = models(x@);
    let ghost shape = x@[0].shape();
    let mut sum: Option<M::Bit> = None;
    let mut j: usize = 0;
    let mut i: usize = 0;
    while i < m.len()
        invariant
            i <= m@.len(),
            xs == models(x@),
            uniform(x@),
            x@.len() > 0 ==> shape == x@[0].shape(),
            variables(m@) <= x@.len(),
            j == variables(m@.take(i as int)),
            sum is None ==> dsm_model::<M>(xs, m@.take(i as int)) is None,
            sum is Some ==> dsm_model::<M>(xs, m@.take(i as int)) == Some(sum->0.model())
                && sum->0.shape() == shape,
        decreases m@.len() - i,
    {
        let count = m[i];
        let mut c: usize = 0;
        proof {
            variables_of_progress(m@, i as int, 0);
            assert(progress(m@, i as int, 0).drop_last() =~= m@.take(i as int));
        }
        while c < count
            invariant
                i < m@.len(),
                count == m@[i as int],
                c <= count,
                xs == models(x@),
                uniform(x@),
                x@.len() > 0 ==> shape == x@[0].shape(),
                variables(m@) <= x@.len(),
                j == variables(progress(m@, i as int, c)),
                sum is None ==> dsm_model::<M>(xs, progress(m@, i as int, c)) is None,
                sum is Some ==> dsm_model::<M>(xs, progress(m@, i as int, c)) == Some(
                    sum->0.model(),
                ) && sum->0.shape() == shape,
            decreases count - c,
        {
            proof {
                next_monomial_fits(m@, i as int, c);
            }
            let ghost start = j as int;
            let mut term = x[j].as_bit();
            j = j + 1;
            let mut t: usize = 0;
            while t < i
                invariant
                    t <= i,
                    j == start + 1 + t,
                    start + (i + 1) <= x@.len(),
                    0 <= start,
                    xs == models(x@),
                    uniform(x@),
                    shape == x@[0].shape(),
                    term.model() == monomial::<M>(xs, start, (t + 1) as nat),
                    term.shape() == shape,
                decreases i - t,
            {
                term = x[j].and(&term);
                j = j + 1;
                t = t + 1;
            }
            proof {
                let now = progress(m@, i as int, (c + 1) as usize);
                assert(now.update(now.len() - 1, (now.last() - 1) as usize) =~= progress(
                    m@,
                    i as int,
                    c,
                ));
                variables_of_progress(m@, i as int, (c + 1) as usize);
                variables_of_progress(m@, i as int, c);
                assert((i + 1) * (c + 1) == (i + 1) * c + (i + 1)) by (nonlinear_arith);
            }
            sum = match sum {
                None => Some(term),
                Some(mut s) => {
                    s.xor_assign(&term);
                    Some(s)
                },
            };
            c = c + 1;
        }
        proof {
            assert(progress(m@, i as int, count) =~= m@.take(i + 1));
        }
        i = i + 1;
    }
    proof {
        assert(m@.take(m@.len() as int) =~= m@);
        dsm_model_is_some::<M>(xs, m@);
    }
    sum.unwrap()
}

} // verus!
