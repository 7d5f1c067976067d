//! The exclusive or of `k` variables and of a threshold function of the
//! others: whether at least `d` of them are set, which is evaluated by a
//! rolling window of running tallies.

use vstd::prelude::*;
use vstd::slice::slice_subrange;
use crate::bit::Bit;
use crate::multiplexer::{models, uniform, Multiplexer};

verus! {

/// What the bits of a window are, one by one.
pub open spec fn bit_models<B: Bit>(w: Seq<B>) -> Seq<B::Model> {
    Seq::new(w.len(), |j: int| w[j].model())
}

/// The highest tally that the window tells apart after `seen` variables:
/// the threshold, once as many variables were seen.
pub open spec fn top(seen: nat, d: nat) -> nat {
    if seen <= d {
        seen
    } else {
        d
    }
}

/// The lowest tally that the window still holds after the variable of index
/// `i` among `n`: a tally from which the variables that are left cannot
/// reach the threshold `d` is dropped.
pub open spec fn lowest(n: nat, d: nat, i: nat) -> nat {
    if d + i + 1 >= n {
        (d + i + 1 - n) as nat
    } else {
        0
    }
}

/// The number of entries of the window after the variable of index `i`
/// among `n`: one for each tally from the lowest to the highest.
pub open spec fn window_len(n: nat, d: nat, i: nat) -> int {
    top(i + 1, d) - lowest(n, d, i) + 1
}

/// The window after the first of `n` variables: its negation, and itself;
/// itself alone where all `n` variables must be set to reach the threshold.
pub open spec fn window_start<M: Multiplexer>(first: M::Model, n: nat, d: nat) -> Seq<
    <M::Bit as Bit>::Model,
> {
    if d < n {
        seq![<M::Bit as Bit>::not_model(M::as_bit_model(first)), M::as_bit_model(first)]
    } else {
        seq![M::as_bit_model(first)]
    }
}

/// The window `w` after the variable `sel`, which is the one of index `i`
/// among `n`, for the threshold `d`.
///
/// A new tail is the conjunction of `sel` and the old tail, and every entry
/// between head and tail is chosen by `sel` between its left neighbour and
/// itself. While the lowest tally can still reach the threshold, which is
/// while `i < n - d`, the head becomes its conjunction with the negation of
/// `sel`; from then on the head is dropped. Once `d` variables were seen,
/// which is from `i = d` on, the tail is folded into the entry before it.
/// On `2 d - 1` variables the head is dropped from `i = d - 1` on.
pub open spec fn window_step<M: Multiplexer>(
    w: Seq<<M::Bit as Bit>::Model>,
    sel: M::Model,
    n: nat,
    d: nat,
    i: nat,
) -> Seq<<M::Bit as Bit>::Model> {
    let grown = Seq::new(
        w.len() + 1,
        |j: int|
            if j == 0 {
                w[0]
            } else if j < w.len() {
                M::mux_model(sel, w[j - 1], w[j])
            } else {
                M::and_model(sel, w[w.len() - 1])
            },
    );
    let headed = if i + d < n {
        grown.update(0, M::and_model(M::not_model(sel), w[0]))
    } else {
        grown.skip(1)
    };
    if i >= d {
        let kept = headed.drop_last();
        kept.update(kept.len() - 1, <M::Bit as Bit>::xor_model(kept.last(), headed.last()))
    } else {
        headed
    }
}

/// The window after the variables `y[0]` to `y[i]`.
pub open spec fn window<M: Multiplexer>(y: Seq<M::Model>, d: nat, i: nat) -> Seq<<M::Bit as Bit>::Model>
    decreases i,
{
    if i == 0 {
        window_start::<M>(y[0], y.len(), d)
    } else {
        window_step::<M>(window::<M>(y, d, (i - 1) as nat), y[i as int], y.len(), d, i)
    }
}

/// Whether the threshold `d` can be evaluated on `n` variables: there is a
/// variable, and the threshold is at least one and at most one more than
/// there are variables.
pub open spec fn threshold_admits(n: nat, d: nat) -> bool {
    &&& n >= 1
    &&& 1 <= d <= n + 1
}

/// What the threshold function for `d` is on the variables `y`: the one
/// entry of the window after the last of them. Where the threshold is more
/// than there are variables, it is the exclusive or of the first variable
/// with itself, which is never set.
pub open spec fn threshold_model<M: Multiplexer>(y: Seq<M::Model>, d: nat) -> <M::Bit as Bit>::Model {
    if d > y.len() {
        <M::Bit as Bit>::xor_model(M::as_bit_model(y[0]), M::as_bit_model(y[0]))
    } else {
        window::<M>(y, d, (y.len() - 1) as nat)[0]
    }
}

/// The exclusive or, from left to right, of the first `k` variables as
/// bits. (`k` is at least 1.)
pub open spec fn linear_model<M: Multiplexer>(x: Seq<M::Model>, k: nat) -> <M::Bit as Bit>::Model
    decreases k,
{
    if k <= 1 {
        M::as_bit_model(x[0])
    } else {
        <M::Bit as Bit>::xor_model(linear_model::<M>(x, (k - 1) as nat), M::as_bit_model(x[k - 1]))
    }
}

/// What the filter is on the variables `x`: the exclusive or of the first
/// `k` of them and of the threshold function for `d` of the others; the
/// threshold function alone where `k` is zero.
pub open spec fn xor_thr_model<M: Multiplexer>(x: Seq<M::Model>, k: nat, d: nat) -> <M::Bit as Bit>::Model {
    if k == 0 {
        threshold_model::<M>(x, d)
    } else {
        <M::Bit as Bit>::xor_model(linear_model::<M>(x, k), threshold_model::<M>(x.skip(k as int), d))
    }
}

/// The window has as many entries as `window_len` says, and at least one.
pub proof fn window_has_len<M: Multiplexer>(y: Seq<M::Model>, d: nat, i: nat)
    requires
        1 <= d <= y.len(),
        i < y.len(),
    ensures
        window::<M>(y, d, i).len() == window_len(y.len(), d, i),
        window_len(y.len(), d, i) >= 1,
    decreases i,
{
    if i > 0 {
        window_has_len::<M>(y, d, (i - 1) as nat);
    }
}

/// Evaluates the threshold function for `d` on the key bits `x`: whether at
/// least `d` of them are set.
pub fn threshold<M: Multiplexer>(x: &[M], d: usize) -> (r: M::Bit)
    requires
        threshold_admits(x@.len(), d as nat),
        uniform(x@),
    ensures
        r.model() == threshold_model::<M>(models(x@), d as nat),
        r.shape() == x@[0].shape(),
{
    let ghost xs = models(x@);
    let ghost shape = x@[0].shape();
    let n = x.len();
    let first = x[0].as_bit();
    if d > n {
        return first.xor(&first);
    }
    let mut acc: Vec<M::Bit> = Vec::new();
    if d < n {
        acc.push(first.not());
    }
    acc.push(first);
    assert(bit_models(acc@) =~= window::<M>(xs, d as nat, 0));
    let mut i: usize = 1;
    while i < n
        invariant
            1 <= i <= n,
            n == x@.len(),
            1 <= d <= n,
            xs == models(x@),
            shape == x@[0].shape(),
            uniform(x@),
            bit_models(acc@) == window::<M>(xs, d as nat, (i - 1) as nat),
            forall|j: int| 0 <= j < acc@.len() ==> (#[trigger] acc@[j]).shape() == shape,
        decreases n - i,
    {
        proof {
            window_has_len::<M>(xs, d as nat, (i - 1) as nat);
            window_has_len::<M>(xs, d as nat, i as nat);
        }
        let ghost before = bit_models(acc@);
        let sel = &x[i];
        let len = acc.len();
        assert(len == before.len());
        let tail = sel.and(&acc[len - 1]);
        acc.push(tail);
        let mut j: usize = len - 1;
        while j >= 1
            invariant
                j <= len - 1,
                len == before.len(),
                acc@.len() == len + 1,
                sel.shape() == shape,
                forall|l: int| 0 <= l < acc@.len() ==> (#[trigger] acc@[l]).shape() == shape,
                forall|l: int| 0 <= l <= j ==> (#[trigger] acc@[l]).model() == before[l],
                forall|l: int|
                    j < l < len ==> (#[trigger] acc@[l]).model() == M::mux_model(
                        sel.model(),
                        before[l - 1],
                        before[l],
                    ),
                acc@[len as int].model() == M::and_model(sel.model(), before[len - 1]),
            decreases j,
        {
            let chosen = sel.mux(&acc[j - 1], &acc[j]);
            acc.set(j, chosen);
            j = j - 1;
        }
        if i < n - d {
            let head = sel.not().and(&acc[0]);
            acc.set(0, head);
        } else {
            let _ = acc.remove(0);
        }
        if i >= d {
            let last = acc.pop().unwrap();
            let mut folded = acc.pop().unwrap();
            folded.xor_assign(&last);
            acc.push(folded);
        }
        assert(bit_models(acc@) =~= window_step::<M>(
            before,
            sel.model(),
            n as nat,
            d as nat,
            i as nat,
        ));
        i = i + 1;
    }
    proof {
        window_has_len::<M>(xs, d as nat, (n - 1) as nat);
    }
    acc.remove(0)
}

/// Evaluates the filter on the key round `x`: the exclusive or of the first
/// `k` key bits and of the threshold function for `d` of the others.
pub fn xor_thr<M: Multiplexer>(x: &[M], k: usize, d: usize) -> (r: M::Bit)
    requires
        k <= x@.len(),
        threshold_admits((x@.len() - k) as nat, d as nat),
        uniform(x@),
    ensures
        r.model() == xor_thr_model::<M>(models(x@), k as nat, d as nat),
        r.shape() == x@[0].shape(),
{
    let ghost xs = models(x@);
    let rest = slice_subrange(x, k, x.len());
    assert(models(rest@) =~= xs.skip(k as int));
    assert(rest@[0] == x@[k as int]);
    let over = threshold(rest, d);
    if k == 0 {
        assert(rest@ =~= x@);
        over
    } else {
        let mut sum = x[0].as_bit();
        let mut i: usize = 1;
        while i < k
            invariant
                1 <= i <= k,
                k <= x@.len(),
                xs == models(x@),
                uniform(x@),
                sum.model() == linear_model::<M>(xs, i as nat),
                sum.shape() == x@[0].shape(),
            decreases k - i,
        {
            let next = x[i].as_bit();
            sum.xor_assign(&next);
            i = i + 1;
        }
        sum.xor_assign(&over);
        sum
    }
}

} // verus!
