use vstd::prelude::*;

verus! {

/// The scalar operations that kernels are built from. An implementation says
/// what a scalar is: single-precision floats in production. Nothing is demanded
/// of the operations; the contracts of the kernels say which operation was
/// applied to what, and in which order.
pub trait Arith<T> {
    /// The scalar with the given IEEE 754 single bit pattern.
    fn from_bits(&self, bits: u32) -> T;

    /// The scalar nearest to an integer.
    fn from_int(&self, n: i64) -> T;

    /// The scalar nearest to a size.
    fn from_size(&self, n: usize) -> T;

    /// `a + b`
    fn add(&self, a: T, b: T) -> T;

    /// `a - b`
    fn sub(&self, a: T, b: T) -> T;

    /// `a * b`
    fn mul(&self, a: T, b: T) -> T;

    /// `a / b`
    fn div(&self, a: T, b: T) -> T;

    /// `-a`
    fn neg(&self, a: T) -> T;

    /// `e` to the power of `a`
    fn exp(&self, a: T) -> T;

    /// The square root of `a`
    fn sqrt(&self, a: T) -> T;

    /// The hyperbolic tangent of `a`
    fn tanh(&self, a: T) -> T;

    /// `a * b + c`, rounded once
    fn fused(&self, a: T, b: T, c: T) -> T;

    /// The magnitude of `a`
    fn abs(&self, a: T) -> T;

    /// `a` to the power of `b`
    fn powf(&self, a: T, b: T) -> T;

    /// The sine of `a`
    fn sin(&self, a: T) -> T;

    /// The cosine of `a`
    fn cos(&self, a: T) -> T;

    /// `a < b`
    fn less(&self, a: T, b: T) -> bool;

    /// `a <= b`
    fn at_most(&self, a: T, b: T) -> bool;

    /// Whether the sign of `a` is set; zero has a sign too.
    fn is_negative(&self, a: T) -> bool;

    /// Whether `a` is neither infinite nor undefined.
    fn is_finite(&self, a: T) -> bool;

    /// The IEEE 754 single bit pattern of `a`.
    fn to_bits(&self, a: T) -> u32;

    /// `a` in decimals, as it is shown in a message.
    fn show(&self, a: T) -> String;
}

/// Conversion between scalars and wider ones.
pub trait Widen<T, W> {
    /// The wide scalar of the same value.
    fn widen(&self, a: T) -> W;

    /// The scalar nearest to a wide one.
    fn narrow(&self, a: W) -> T;
}

/// `r` may be the wide scalar of `a`.
pub open spec fn widens<T, W, C: Widen<T, W>>(cv: &C, a: T, r: W) -> bool {
    call_ensures(C::widen, (cv, a), r)
}

/// `r` may be the scalar nearest to `a`.
pub open spec fn narrows<T, W, C: Widen<T, W>>(cv: &C, a: W, r: T) -> bool {
    call_ensures(C::narrow, (cv, a), r)
}

/// `r` may be what `a + b` gives.
pub open spec fn adds<T, A: Arith<T>>(ar: &A, a: T, b: T, r: T) -> bool {
    call_ensures(A::add, (ar, a, b), r)
}

/// `r` may be what `a - b` gives.
pub open spec fn subs<T, A: Arith<T>>(ar: &A, a: T, b: T, r: T) -> bool {
    call_ensures(A::sub, (ar, a, b), r)
}

/// `r` may be what `a * b` gives.
pub open spec fn muls<T, A: Arith<T>>(ar: &A, a: T, b: T, r: T) -> bool {
    call_ensures(A::mul, (ar, a, b), r)
}

/// `r` may be what `a / b` gives.
pub open spec fn divs<T, A: Arith<T>>(ar: &A, a: T, b: T, r: T) -> bool {
    call_ensures(A::div, (ar, a, b), r)
}

/// `r` may be what `-a` gives.
pub open spec fn negs<T, A: Arith<T>>(ar: &A, a: T, r: T) -> bool {
    call_ensures(A::neg, (ar, a), r)
}

/// `r` may be what the exponential of `a` gives.
pub open spec fn exps<T, A: Arith<T>>(ar: &A, a: T, r: T) -> bool {
    call_ensures(A::exp, (ar, a), r)
}

/// `r` may be what the square root of `a` gives.
pub open spec fn sqrts<T, A: Arith<T>>(ar: &A, a: T, r: T) -> bool {
    call_ensures(A::sqrt, (ar, a), r)
}

/// `r` may be what the hyperbolic tangent of `a` gives.
pub open spec fn tanhs<T, A: Arith<T>>(ar: &A, a: T, r: T) -> bool {
    call_ensures(A::tanh, (ar, a), r)
}

/// `r` may be what `a * b + c`, rounded once, gives.
pub open spec fn fuses<T, A: Arith<T>>(ar: &A, a: T, b: T, c: T, r: T) -> bool {
    call_ensures(A::fused, (ar, a, b, c), r)
}

/// `r` may be what the magnitude of `a` gives.
pub open spec fn magnitudes<T, A: Arith<T>>(ar: &A, a: T, r: T) -> bool {
    call_ensures(A::abs, (ar, a), r)
}

/// `r` may be what `a` to the power of `b` gives.
pub open spec fn powers<T, A: Arith<T>>(ar: &A, a: T, b: T, r: T) -> bool {
    call_ensures(A::powf, (ar, a, b), r)
}

/// `r` may be what the sine of `a` gives.
pub open spec fn sines<T, A: Arith<T>>(ar: &A, a: T, r: T) -> bool {
    call_ensures(A::sin, (ar, a), r)
}

/// `r` may be what the cosine of `a` gives.
pub open spec fn cosines<T, A: Arith<T>>(ar: &A, a: T, r: T) -> bool {
    call_ensures(A::cos, (ar, a), r)
}

/// `r` may be what `a <= b` gives.
pub open spec fn bounds<T, A: Arith<T>>(ar: &A, a: T, b: T, r: bool) -> bool {
    call_ensures(A::at_most, (ar, a, b), r)
}

/// `r` may be whether the sign of `a` is set.
pub open spec fn signs<T, A: Arith<T>>(ar: &A, a: T, r: bool) -> bool {
    call_ensures(A::is_negative, (ar, a), r)
}

/// `r` may be whether `a` is finite.
pub open spec fn finites<T, A: Arith<T>>(ar: &A, a: T, r: bool) -> bool {
    call_ensures(A::is_finite, (ar, a), r)
}

/// `r` may be the bit pattern of `a`.
pub open spec fn encodes<T, A: Arith<T>>(ar: &A, a: T, r: u32) -> bool {
    call_ensures(A::to_bits, (ar, a), r)
}

/// `r` may be the decimals of `a`.
pub open spec fn shows<T, A: Arith<T>>(ar: &A, a: T, r: String) -> bool {
    call_ensures(A::show, (ar, a), r)
}

/// `r` may be what `a < b` gives.
pub open spec fn compares<T, A: Arith<T>>(ar: &A, a: T, b: T, r: bool) -> bool {
    call_ensures(A::less, (ar, a, b), r)
}

/// `r` may be the scalar with the given bit pattern.
pub open spec fn decodes<T, A: Arith<T>>(ar: &A, bits: u32, r: T) -> bool {
    call_ensures(A::from_bits, (ar, bits), r)
}

/// `r` may be the scalar of the integer `n`.
pub open spec fn converts<T, A: Arith<T>>(ar: &A, n: i64, r: T) -> bool {
    call_ensures(A::from_int, (ar, n), r)
}

/// `r` may be the scalar of the size `n`.
pub open spec fn sizes<T, A: Arith<T>>(ar: &A, n: usize, r: T) -> bool {
    call_ensures(A::from_size, (ar, n), r)
}

/// `r` may be what `acc + a * b` gives.
pub open spec fn accumulates<T, A: Arith<T>>(ar: &A, acc: T, a: T, b: T, r: T) -> bool {
    exists|p: T| #[trigger] muls(ar, a, b, p) && adds(ar, acc, p, r)
}

/// Every operation always gives the same result for the same operands.
pub open spec fn deterministic<T, A: Arith<T>>(ar: &A) -> bool {
    &&& forall|n: i64, r1: T, r2: T|
        #[trigger] converts(ar, n, r1) && #[trigger] converts(ar, n, r2) ==> r1 == r2
    &&& forall|n: usize, r1: T, r2: T|
        #[trigger] sizes(ar, n, r1) && #[trigger] sizes(ar, n, r2) ==> r1 == r2
    &&& forall|bits: u32, r1: T, r2: T|
        #[trigger] decodes(ar, bits, r1) && #[trigger] decodes(ar, bits, r2) ==> r1 == r2
    &&& forall|a: T, b: T, r1: T, r2: T|
        #[trigger] adds(ar, a, b, r1) && #[trigger] adds(ar, a, b, r2) ==> r1 == r2
    &&& forall|a: T, b: T, r1: T, r2: T|
        #[trigger] subs(ar, a, b, r1) && #[trigger] subs(ar, a, b, r2) ==> r1 == r2
    &&& forall|a: T, b: T, r1: T, r2: T|
        #[trigger] muls(ar, a, b, r1) && #[trigger] muls(ar, a, b, r2) ==> r1 == r2
    &&& forall|a: T, b: T, r1: T, r2: T|
        #[trigger] divs(ar, a, b, r1) && #[trigger] divs(ar, a, b, r2) ==> r1 == r2
    &&& forall|a: T, r1: T, r2: T|
        #[trigger] negs(ar, a, r1) && #[trigger] negs(ar, a, r2) ==> r1 == r2
    &&& forall|a: T, r1: T, r2: T|
        #[trigger] exps(ar, a, r1) && #[trigger] exps(ar, a, r2) ==> r1 == r2
    &&& forall|a: T, r1: T, r2: T|
        #[trigger] sqrts(ar, a, r1) && #[trigger] sqrts(ar, a, r2) ==> r1 == r2
    &&& forall|a: T, r1: T, r2: T|
        #[trigger] tanhs(ar, a, r1) && #[trigger] tanhs(ar, a, r2) ==> r1 == r2
    &&& forall|a: T, b: T, c: T, r1: T, r2: T|
        #[trigger] fuses(ar, a, b, c, r1) && #[trigger] fuses(ar, a, b, c, r2) ==> r1 == r2
    &&& forall|a: T, r1: T, r2: T|
        #[trigger] magnitudes(ar, a, r1) && #[trigger] magnitudes(ar, a, r2) ==> r1 == r2
    &&& forall|a: T, b: T, r1: T, r2: T|
        #[trigger] powers(ar, a, b, r1) && #[trigger] powers(ar, a, b, r2) ==> r1 == r2
    &&& forall|a: T, r1: T, r2: T|
        #[trigger] sines(ar, a, r1) && #[trigger] sines(ar, a, r2) ==> r1 == r2
    &&& forall|a: T, r1: T, r2: T|
        #[trigger] cosines(ar, a, r1) && #[trigger] cosines(ar, a, r2) ==> r1 == r2
    &&& forall|a: T, b: T, r1: bool, r2: bool|
        #[trigger] compares(ar, a, b, r1) && #[trigger] compares(ar, a, b, r2) ==> r1 == r2
    &&& forall|a: T, b: T, r1: bool, r2: bool|
        #[trigger] bounds(ar, a, b, r1) && #[trigger] bounds(ar, a, b, r2) ==> r1 == r2
    &&& forall|a: T, r1: bool, r2: bool|
        #[trigger] signs(ar, a, r1) && #[trigger] signs(ar, a, r2) ==> r1 == r2
    &&& forall|a: T, r1: bool, r2: bool|
        #[trigger] finites(ar, a, r1) && #[trigger] finites(ar, a, r2) ==> r1 == r2
    &&& forall|a: T, r1: u32, r2: u32|
        #[trigger] encodes(ar, a, r1) && #[trigger] encodes(ar, a, r2) ==> r1 == r2
}

/// Multiplying and adding gives one result, if each of the two does.
pub proof fn accumulates_unique<T, A: Arith<T>>(ar: &A)
    requires
        deterministic(ar),
    ensures
        forall|acc: T, a: T, b: T, r1: T, r2: T|
            #[trigger] accumulates(ar, acc, a, b, r1) && #[trigger] accumulates(ar, acc, a, b, r2)
                ==> r1 == r2,
{
    assert forall|acc: T, a: T, b: T, r1: T, r2: T|
        #[trigger] accumulates(ar, acc, a, b, r1) && #[trigger] accumulates(
            ar,
            acc,
            a,
            b,
            r2,
        ) implies r1 == r2 by {
        let p1 = choose|p: T| #[trigger] muls(ar, a, b, p) && adds(ar, acc, p, r1);
        let p2 = choose|p: T| #[trigger] muls(ar, a, b, p) && adds(ar, acc, p, r2);
        assert(p1 == p2);
    }
}

/// `acc + a * b`
pub fn mul_add<T: Copy, A: Arith<T>>(ar: &A, acc: T, a: T, b: T) -> (r: T)
    ensures
        accumulates(ar, acc, a, b, r),
{
    let p: T = ar.mul(a, b);
    let r: T = ar.add(acc, p);
    proof {
        assert(muls(ar, a, b, p));
    }
    r
}

/// Step `i` takes `a` to `b`.
pub open spec fn takes<T>(step: spec_fn(int, T, T) -> bool, i: int, a: T, b: T) -> bool {
    step(i, a, b)
}

/// The steps `0` to `n - 1` take `init` to `r`, one after the other.
pub open spec fn folds<T>(step: spec_fn(int, T, T) -> bool, n: nat, init: T, r: T) -> bool
    decreases n,
{
    if n == 0 {
        r == init
    } else {
        exists|m: T|
            #[trigger] takes(step, n - 1, m, r) && folds(step, (n - 1) as nat, init, m)
    }
}

/// One step more.
pub proof fn fold_step<T>(step: spec_fn(int, T, T) -> bool, n: nat, init: T, m: T, r: T)
    requires
        folds(step, n, init, m),
        step(n as int, m, r),
    ensures
        folds(step, n + 1, init, r),
{
    let k = n + 1;
    assert(takes(step, k - 1, m, r));
    assert(folds(step, (k - 1) as nat, init, m));
    assert(folds(step, k, init, r));
}

/// A chain of steps is a chain of any steps that allow as much.
pub proof fn folds_weaken<T>(
    s1: spec_fn(int, T, T) -> bool,
    s2: spec_fn(int, T, T) -> bool,
    n: nat,
    init: T,
    r: T,
)
    requires
        folds(s1, n, init, r),
        forall|i: int, a: T, b: T| 0 <= i < n && #[trigger] s1(i, a, b) ==> s2(i, a, b),
    ensures
        folds(s2, n, init, r),
    decreases n,
{
    if n > 0 {
        let m = choose|m: T|
            #[trigger] takes(s1, n - 1, m, r) && folds(s1, (n - 1) as nat, init, m);
        assert(s1(n - 1, m, r));
        folds_weaken(s1, s2, (n - 1) as nat, init, m);
        assert(takes(s2, n - 1, m, r));
    }
}

/// Two chains of the same steps from the same start end in the same value, if
/// no step can go two ways.
pub proof fn fold_unique<T>(step: spec_fn(int, T, T) -> bool, n: nat, init: T, r1: T, r2: T)
    requires
        folds(step, n, init, r1),
        folds(step, n, init, r2),
        forall|i: int, a: T, b1: T, b2: T|
            0 <= i < n && #[trigger] step(i, a, b1) && #[trigger] step(i, a, b2) ==> b1 == b2,
    ensures
        r1 == r2,
    decreases n,
{
    if n > 0 {
        let m1 = choose|m: T|
            #[trigger] takes(step, n - 1, m, r1) && folds(step, (n - 1) as nat, init, m);
        let m2 = choose|m: T|
            #[trigger] takes(step, n - 1, m, r2) && folds(step, (n - 1) as nat, init, m);
        fold_unique(step, (n - 1) as nat, init, m1, m2);
        assert(step(n - 1, m1, r1));
        assert(step(n - 1, m2, r2));
    }
}

/// The steps of a dot product.
pub open spec fn dot_steps<T, A: Arith<T>>(ar: &A, x: Seq<T>, w: Seq<T>) -> spec_fn(
    int,
    T,
    T,
) -> bool {
    |i: int, a: T, b: T| accumulates(ar, a, x[i], w[i], b)
}

/// `r` may be `init + x[0] * w[0] + x[1] * w[1] + ...`, added from the left.
pub open spec fn dots<T, A: Arith<T>>(ar: &A, init: T, x: Seq<T>, w: Seq<T>, r: T) -> bool {
    folds(dot_steps(ar, x, w), x.len(), init, r)
}

/// The dot product of `n` scalars of `x` and of `w`, added to `init` from the left.
pub fn dot<T: Copy, A: Arith<T>>(
    ar: &A,
    init: T,
    x: &[T],
    x_start: usize,
    w: &[T],
    w_start: usize,
    n: usize,
) -> (r: T)
    requires
        x_start + n <= x@.len(),
        w_start + n <= w@.len(),
    ensures
        dots(
            ar,
            init,
            x@.subrange(x_start as int, x_start + n),
            w@.subrange(w_start as int, w_start + n),
            r,
        ),
{
    let ghost xs = x@.subrange(x_start as int, x_start + n);
    let ghost ws = w@.subrange(w_start as int, w_start + n);
    let x_total: usize = x.len();
    let w_total: usize = w.len();
    let mut acc: T = init;
    let mut i: usize = 0;
    while i < n
        invariant
            i <= n,
            x_start + n <= x@.len() == x_total,
            w_start + n <= w@.len() == w_total,
            xs == x@.subrange(x_start as int, x_start + n),
            ws == w@.subrange(w_start as int, w_start + n),
            folds(dot_steps(ar, xs, ws), i as nat, init, acc),
        decreases n - i,
    {
        let next: T = mul_add(ar, acc, x[x_start + i], w[w_start + i]);
        proof {
            assert(xs[i as int] == x@[x_start + i]);
            assert(ws[i as int] == w@[w_start + i]);
            fold_step(dot_steps(ar, xs, ws), i as nat, init, acc, next);
        }
        acc = next;
        i = i + 1;
    }
    acc
}

/// `n` times the same scalar.
pub fn filled<T: Copy>(v: T, n: usize) -> (r: Vec<T>)
    ensures
        r@.len() == n,
        forall|i: int| 0 <= i < n ==> #[trigger] r@[i] == v,
{
    let mut r: Vec<T> = Vec::with_capacity(n);
    let mut i: usize = 0;
    while i < n
        invariant
            i <= n,
            r@.len() == i,
            forall|k: int| 0 <= k < i ==> #[trigger] r@[k] == v,
        decreases n - i,
    {
        r.push(v);
        i = i + 1;
    }
    r
}

} // verus!
