use vstd::prelude::*;

use crate::arith::Arith;

verus! {

/// The steps of a running maximum: a later value takes over if it is greater.
pub open spec fn max_steps<T, A: Arith<T>>(ar: &A, x: Seq<T>) -> spec_fn(int, T, T) -> bool {
    |i: int, a: T, b: T|
        exists|c: bool| #[trigger]
            crate::arith::compares(ar, a, x[i + 1], c) && b == (if c {
                x[i + 1]
            } else {
                a
            })
}

/// The steps of a sum.
pub open spec fn sum_steps<T, A: Arith<T>>(ar: &A, x: Seq<T>) -> spec_fn(int, T, T) -> bool {
    |i: int, a: T, b: T| crate::arith::adds(ar, a, x[i], b)
}

/// `e` may be what the exponential of `x - max` gives.
pub open spec fn shifted_exp<T, A: Arith<T>>(ar: &A, x: T, max: T, e: T) -> bool {
    exists|d: T| #[trigger] crate::arith::subs(ar, x, max, d) && crate::arith::exps(ar, d, e)
}

/// The intermediate values of a softmax.
pub struct SoftmaxSteps<T> {
    pub zero: T,
    pub one: T,
    pub max: T,
    pub exps: Seq<T>,
    pub sum: T,
    pub inverse: T,
}

/// `p` may be the softmax of `x`, by these intermediate values: the maximum is
/// subtracted, the exponentials are added up from the left, and each is
/// multiplied by the inverse of the sum.
pub open spec fn softmax_by<T, A: Arith<T>>(ar: &A, x: Seq<T>, s: SoftmaxSteps<T>, p: Seq<T>) -> bool {
    &&& crate::arith::converts(ar, 0, s.zero)
    &&& crate::arith::converts(ar, 1, s.one)
    &&& crate::arith::folds(max_steps(ar, x), (x.len() - 1) as nat, x[0], s.max)
    &&& s.exps.len() == x.len()
    &&& forall|i: int| 0 <= i < x.len() ==> shifted_exp(ar, x[i], s.max, #[trigger] s.exps[i])
    &&& crate::arith::folds(sum_steps(ar, s.exps), x.len(), s.zero, s.sum)
    &&& crate::arith::divs(ar, s.one, s.sum, s.inverse)
    &&& p.len() == x.len()
    &&& forall|i: int|
        0 <= i < x.len() ==> crate::arith::muls(ar, s.exps[i], s.inverse, #[trigger] p[i])
}

/// `p` may be the softmax of `x`; nothing happens to an empty row.
pub open spec fn is_softmax<T, A: Arith<T>>(ar: &A, x: Seq<T>, p: Seq<T>) -> bool {
    if x.len() == 0 {
        p == x
    } else {
        exists|s: SoftmaxSteps<T>| #[trigger] softmax_by(ar, x, s, p)
    }
}

/// Turns a row into its softmax, in place.
pub fn softmax<T: Copy, A: Arith<T>>(ar: &A, x: &mut [T])
    ensures
        final(x)@.len() == old(x)@.len(),
        is_softmax(ar, old(x)@, final(x)@),
{
    let n: usize = x.len();
    if n == 0 {
        return;
    }
    let ghost given = x@;
    let mut max: T = x[0];
    let mut i: usize = 1;
    while i < n
        invariant
            x@ == given,
            n == given.len(),
            1 <= i <= n,
            crate::arith::folds(max_steps(ar, given), (i - 1) as nat, given[0], max),
        decreases n - i,
    {
        let v: T = x[i];
        let greater: bool = ar.less(max, v);
        let next: T = if greater {
            v
        } else {
            max
        };
        proof {
            assert(crate::arith::compares(ar, max, given[(i - 1) + 1], greater));
            crate::arith::fold_step(max_steps(ar, given), (i - 1) as nat, given[0], max, next);
        }
        max = next;
        i = i + 1;
    }
    let zero: T = ar.from_int(0);
    let one: T = ar.from_int(1);
    let mut sum: T = zero;
    let ghost mut exps: Seq<T> = Seq::empty();
    let mut j: usize = 0;
    while j < n
        invariant
            n == given.len() == x@.len(),
            j <= n,
            exps.len() == j,
            forall|k: int| j <= k < n ==> #[trigger] x@[k] == given[k],
            forall|k: int| 0 <= k < j ==> #[trigger] exps[k] == x@[k],
            forall|k: int| 0 <= k < j ==> shifted_exp(ar, given[k], max, #[trigger] exps[k]),
            crate::arith::folds(sum_steps(ar, exps), j as nat, zero, sum),
        decreases n - j,
    {
        let v: T = x[j];
        let d: T = ar.sub(v, max);
        let e: T = ar.exp(d);
        x[j] = e;
        let next: T = ar.add(sum, e);
        proof {
            assert(crate::arith::subs(ar, given[j as int], max, d));
            let more = exps.push(e);
            let s1 = sum_steps(ar, exps);
            let s2 = sum_steps(ar, more);
            assert forall|k: int, a: T, b: T| 0 <= k < j && #[trigger] s1(k, a, b) implies s2(
                k,
                a,
                b,
            ) by {
                assert(more[k] == exps[k]);
            }
            crate::arith::folds_weaken(s1, s2, j as nat, zero, sum);
            crate::arith::fold_step(s2, j as nat, zero, sum, next);
            exps = more;
        }
        sum = next;
        j = j + 1;
    }
    let inverse: T = ar.div(one, sum);
    let mut l: usize = 0;
    while l < n
        invariant
            n == given.len() == x@.len(),
            exps.len() == n,
            l <= n,
            forall|k: int| l <= k < n ==> #[trigger] x@[k] == exps[k],
            forall|k: int|
                0 <= k < l ==> crate::arith::muls(ar, exps[k], inverse, #[trigger] x@[k]),
        decreases n - l,
    {
        let p: T = ar.mul(x[l], inverse);
        x[l] = p;
        l = l + 1;
    }
    proof {
        let s = SoftmaxSteps { zero, one, max, exps, sum, inverse };
        assert(softmax_by(ar, given, s, x@));
    }
}

/// A row has one softmax, if the arithmetic always gives the same result.
pub proof fn softmax_is_unique<T, A: Arith<T>>(ar: &A, x: Seq<T>, p1: Seq<T>, p2: Seq<T>)
    requires
        crate::arith::deterministic(ar),
        is_softmax(ar, x, p1),
        is_softmax(ar, x, p2),
    ensures
        p1 == p2,
{
    if x.len() > 0 {
        let s1 = choose|s: SoftmaxSteps<T>| #[trigger] softmax_by(ar, x, s, p1);
        let s2 = choose|s: SoftmaxSteps<T>| #[trigger] softmax_by(ar, x, s, p2);
        crate::arith::fold_unique(
            max_steps(ar, x),
            (x.len() - 1) as nat,
            x[0],
            s1.max,
            s2.max,
        );
        assert forall|i: int| 0 <= i < x.len() implies s1.exps[i] == s2.exps[i] by {
            assert(shifted_exp(ar, x[i], s1.max, s1.exps[i]));
            assert(shifted_exp(ar, x[i], s1.max, s2.exps[i]));
            let d1 = choose|d: T| #[trigger]
                crate::arith::subs(ar, x[i], s1.max, d) && crate::arith::exps(ar, d, s1.exps[i]);
            let d2 = choose|d: T| #[trigger]
                crate::arith::subs(ar, x[i], s1.max, d) && crate::arith::exps(ar, d, s2.exps[i]);
            assert(d1 == d2);
        }
        assert(s1.exps =~= s2.exps);
        crate::arith::fold_unique(sum_steps(ar, s1.exps), x.len(), s1.zero, s1.sum, s2.sum);
        assert(s1.inverse == s2.inverse);
        assert forall|i: int| 0 <= i < x.len() implies p1[i] == p2[i] by {
            assert(crate::arith::muls(ar, s1.exps[i], s1.inverse, p1[i]));
            assert(crate::arith::muls(ar, s1.exps[i], s1.inverse, p2[i]));
        }
        assert(p1 =~= p2);
    }
}

} // verus!
