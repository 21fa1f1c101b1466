use vstd::prelude::*;

use crate::arith::Arith;
use crate::expr::{Expr, Fun, Op};

verus! {

/// Scalars as real numbers: the number that each scalar is, and the functions
/// that the operations compute. Kernels are compared with what they are for
/// where nothing is rounded.
#[verifier::reject_recursive_types(T)]
pub struct Reals<T> {
    pub value: spec_fn(T) -> real,
    pub bits: spec_fn(u32) -> real,
    pub exp: spec_fn(real) -> real,
    pub tanh: spec_fn(real) -> real,
    pub sin: spec_fn(real) -> real,
    pub cos: spec_fn(real) -> real,
    pub root: spec_fn(real) -> real,
    pub pow: spec_fn(real, real) -> real,
}

/// `|x|`
pub open spec fn magnitude(x: real) -> real {
    if x < 0real {
        -x
    } else {
        x
    }
}

/// `f(0) + f(1) + ... + f(n - 1)`
pub open spec fn sum(f: spec_fn(int) -> real, n: nat) -> real
    decreases n,
{
    if n == 0 {
        0real
    } else {
        sum(f, (n - 1) as nat) + f(n - 1)
    }
}

impl<T> Reals<T> {
    /// No operation rounds.
    pub open spec fn exact<A: Arith<T>>(self, ar: &A) -> bool {
        &&& forall|n: i64, r: T| #[trigger] crate::arith::converts(ar, n, r) ==> (self.value)(r) == (
        n as int) as real
        &&& forall|n: usize, r: T| #[trigger] crate::arith::sizes(ar, n, r) ==> (self.value)(r) == (
        n as int) as real
        &&& forall|b: u32, r: T| #[trigger] crate::arith::decodes(ar, b, r) ==> (self.value)(r) == (
        self.bits)(b)
        &&& forall|a: T, b: T, r: T| #[trigger]
            crate::arith::adds(ar, a, b, r) ==> (self.value)(r) == (self.value)(a) + (self.value)(b)
        &&& forall|a: T, b: T, r: T| #[trigger]
            crate::arith::subs(ar, a, b, r) ==> (self.value)(r) == (self.value)(a) - (self.value)(b)
        &&& forall|a: T, b: T, r: T| #[trigger]
            crate::arith::muls(ar, a, b, r) ==> (self.value)(r) == (self.value)(a) * (self.value)(b)
        &&& forall|a: T, b: T, r: T| #[trigger]
            crate::arith::divs(ar, a, b, r) ==> (self.value)(r) == (self.value)(a) / (self.value)(b)
        &&& forall|a: T, b: T, r: T| #[trigger]
            crate::arith::powers(ar, a, b, r) ==> (self.value)(r) == (self.pow)(
                (self.value)(a),
                (self.value)(b),
            )
        &&& forall|a: T, r: T| #[trigger]
            crate::arith::negs(ar, a, r) ==> (self.value)(r) == -(self.value)(a)
        &&& forall|a: T, r: T| #[trigger]
            crate::arith::exps(ar, a, r) ==> (self.value)(r) == (self.exp)((self.value)(a))
        &&& forall|a: T, r: T| #[trigger]
            crate::arith::sqrts(ar, a, r) ==> (self.value)(r) == (self.root)((self.value)(a))
        &&& forall|a: T, r: T| #[trigger]
            crate::arith::tanhs(ar, a, r) ==> (self.value)(r) == (self.tanh)((self.value)(a))
        &&& forall|a: T, r: T| #[trigger]
            crate::arith::magnitudes(ar, a, r) ==> (self.value)(r) == magnitude((self.value)(a))
        &&& forall|a: T, r: T| #[trigger]
            crate::arith::sines(ar, a, r) ==> (self.value)(r) == (self.sin)((self.value)(a))
        &&& forall|a: T, r: T| #[trigger]
            crate::arith::cosines(ar, a, r) ==> (self.value)(r) == (self.cos)((self.value)(a))
        &&& forall|a: T, b: T, c: bool| #[trigger]
            crate::arith::compares(ar, a, b, c) ==> c == ((self.value)(a) < (self.value)(b))
        &&& forall|a: T, b: T, c: bool| #[trigger]
            crate::arith::bounds(ar, a, b, c) ==> c == ((self.value)(a) <= (self.value)(b))
        &&& forall|a: T, c: bool| #[trigger]
            crate::arith::signs(ar, a, c) ==> ((self.value)(a) < 0real ==> c) && ((self.value)(a)
                > 0real ==> !c)
    }

    /// The square root of what is not negative is not negative, and its square is
    /// that.
    pub open spec fn roots(self) -> bool {
        forall|x: real| #![trigger (self.root)(x)] x >= 0real ==> (self.root)(x) >= 0real && (
        self.root)(x) * (self.root)(x) == x
    }

    /// Exponentials are positive, and turn sums into products.
    #[verifier::opaque]
    pub open spec fn exponentials(self) -> bool {
        &&& forall|x: real| #[trigger] (self.exp)(x) > 0real
        &&& forall|x: real, y: real|
            #![trigger (self.exp)(x), (self.exp)(y)]
            (self.exp)(x + y) == (self.exp)(x) * (self.exp)(y)
        &&& (self.exp)(0real) == 1real
    }

    /// The exponential of a sum.
    pub proof fn exp_of_sum(self, x: real, y: real)
        requires
            self.exponentials(),
        ensures
            (self.exp)(x + y) == (self.exp)(x) * (self.exp)(y),
            (self.exp)(x) > 0real,
            (self.exp)(y) > 0real,
            (self.exp)(0real) == 1real,
    {
        reveal(Reals::exponentials);
    }

    /// The number that a formula is.
    pub open spec fn eval(self, e: Expr<T>) -> real
        decreases e,
    {
        match e {
            Expr::Value(v) => (self.value)(v),
            Expr::Int(n) => (n as int) as real,
            Expr::Size(n) => (n as int) as real,
            Expr::Bits(b) => (self.bits)(b),
            Expr::Unary(f, x) => {
                let a = self.eval(*x);
                match f {
                    Fun::Neg => -a,
                    Fun::Exp => (self.exp)(a),
                    Fun::Sqrt => (self.root)(a),
                    Fun::Tanh => (self.tanh)(a),
                    Fun::Abs => magnitude(a),
                    Fun::Sin => (self.sin)(a),
                    Fun::Cos => (self.cos)(a),
                }
            },
            Expr::Binary(op, x, y) => {
                let (a, b) = (self.eval(*x), self.eval(*y));
                match op {
                    Op::Add => a + b,
                    Op::Sub => a - b,
                    Op::Mul => a * b,
                    Op::Div => a / b,
                    Op::Pow => (self.pow)(a, b),
                }
            },
        }
    }

    /// A value of a formula is the number that the formula is.
    pub proof fn evals_value<A: Arith<T>>(self, ar: &A, e: Expr<T>, r: T)
        requires
            self.exact(ar),
            crate::expr::evals(ar, e, r),
        ensures
            (self.value)(r) == self.eval(e),
        decreases e,
    {
        match e {
            Expr::Unary(f, x) => {
                let a = choose|a: T|
                    crate::expr::evals(ar, *x, a) && #[trigger] crate::expr::maps(ar, f, a, r);
                self.evals_value(ar, *x, a);
            },
            Expr::Binary(op, x, y) => {
                let (a, b) = choose|a: T, b: T|
                    crate::expr::evals(ar, *x, a) && crate::expr::evals(ar, *y, b)
                        && #[trigger] crate::expr::combines(ar, op, a, b, r);
                self.evals_value(ar, *x, a);
                self.evals_value(ar, *y, b);
            },
            _ => {},
        }
    }

    /// Steps that each add a number add up to the sum of the numbers.
    pub proof fn fold_value(
        self,
        step: spec_fn(int, T, T) -> bool,
        f: spec_fn(int) -> real,
        n: nat,
        init: T,
        r: T,
    )
        requires
            crate::arith::folds(step, n, init, r),
            forall|i: int, a: T, b: T|
                0 <= i < n && #[trigger] step(i, a, b) ==> (self.value)(b) == (self.value)(a) + f(i),
        ensures
            (self.value)(r) == (self.value)(init) + sum(f, n),
        decreases n,
    {
        if n > 0 {
            let m = choose|m: T|
                #[trigger] crate::arith::takes(step, n - 1, m, r) && crate::arith::folds(
                    step,
                    (n - 1) as nat,
                    init,
                    m,
                );
            assert(step(n - 1, m, r));
            self.fold_value(step, f, (n - 1) as nat, init, m);
        }
    }

    /// Multiplying and adding, in numbers.
    pub proof fn accumulates_value<A: Arith<T>>(self, ar: &A)
        requires
            self.exact(ar),
        ensures
            forall|acc: T, a: T, b: T, r: T| #[trigger]
                crate::arith::accumulates(ar, acc, a, b, r) ==> (self.value)(r) == (self.value)(acc)
                    + (self.value)(a) * (self.value)(b),
    {
    }

    /// A dot product, in numbers.
    pub proof fn dots_value<A: Arith<T>>(self, ar: &A, init: T, x: Seq<T>, w: Seq<T>, r: T)
        requires
            self.exact(ar),
            crate::arith::dots(ar, init, x, w, r),
        ensures
            (self.value)(r) == (self.value)(init) + sum(
                |i: int| (self.value)(x[i]) * (self.value)(w[i]),
                x.len(),
            ),
    {
        self.accumulates_value(ar);
        self.fold_value(
            crate::arith::dot_steps(ar, x, w),
            |i: int| (self.value)(x[i]) * (self.value)(w[i]),
            x.len(),
            init,
            r,
        );
    }
}

/// Equal terms have equal sums.
pub proof fn equal_sums(f: spec_fn(int) -> real, g: spec_fn(int) -> real, n: nat)
    requires
        forall|i: int| 0 <= i < n ==> #[trigger] f(i) == g(i),
    ensures
        sum(f, n) == sum(g, n),
    decreases n,
{
    if n > 0 {
        equal_sums(f, g, (n - 1) as nat);
    }
}

/// A sum of zeros is zero.
pub proof fn zero_sum(f: spec_fn(int) -> real, n: nat)
    requires
        forall|i: int| 0 <= i < n ==> #[trigger] f(i) == 0real,
    ensures
        sum(f, n) == 0real,
    decreases n,
{
    if n > 0 {
        zero_sum(f, (n - 1) as nat);
    }
}

/// A sum of zeros and one other term is that term.
pub proof fn single_sum(f: spec_fn(int) -> real, n: nat, k: int)
    requires
        0 <= k < n,
        forall|i: int| 0 <= i < n && i != k ==> #[trigger] f(i) == 0real,
    ensures
        sum(f, n) == f(k),
    decreases n,
{
    if k == n - 1 {
        zero_sum(f, (n - 1) as nat);
    } else {
        single_sum(f, (n - 1) as nat, k);
    }
}

/// A factor goes into a sum.
pub proof fn scaled_sum(f: spec_fn(int) -> real, c: real, n: nat)
    ensures
        sum(|i: int| c * f(i), n) == c * sum(f, n),
    decreases n,
{
    if n > 0 {
        scaled_sum(f, c, (n - 1) as nat);
        let (a, b) = (sum(f, (n - 1) as nat), f(n - 1));
        assert(c * (a + b) == c * a + c * b) by (nonlinear_arith);
    } else {
        assert(c * 0real == 0real) by (nonlinear_arith);
    }
}

/// Two sums, term by term.
pub proof fn added_sums(f: spec_fn(int) -> real, g: spec_fn(int) -> real, n: nat)
    ensures
        sum(|i: int| f(i) + g(i), n) == sum(f, n) + sum(g, n),
    decreases n,
{
    if n > 0 {
        added_sums(f, g, (n - 1) as nat);
    }
}

/// A sum of terms that are not negative is not negative.
pub proof fn sum_not_negative(f: spec_fn(int) -> real, n: nat)
    requires
        forall|i: int| 0 <= i < n ==> #[trigger] f(i) >= 0real,
    ensures
        sum(f, n) >= 0real,
    decreases n,
{
    if n > 0 {
        sum_not_negative(f, (n - 1) as nat);
    }
}

/// Rows of terms may be added up column by column.
pub proof fn swapped_sums(f: spec_fn(int, int) -> real, m: nat, n: nat)
    ensures
        sum(|i: int| sum(|j: int| f(i, j), n), m) == sum(|j: int| sum(|i: int| f(i, j), m), n),
    decreases m,
{
    let columns = |j: int| sum(|i: int| f(i, j), m);
    if m == 0 {
        assert forall|j: int| 0 <= j < n implies #[trigger] columns(j) == 0real by {}
        zero_sum(columns, n);
    } else {
        let k = (m - 1) as nat;
        swapped_sums(f, k, n);
        let before = |j: int| sum(|i: int| f(i, j), k);
        let last = |j: int| f(m - 1, j);
        added_sums(before, last, n);
        let both = |j: int| before(j) + last(j);
        assert forall|j: int| 0 <= j < n implies #[trigger] columns(j) == both(j) by {
            let column = |i: int| f(i, j);
            assert(sum(column, m) == sum(column, k) + column(m - 1));
        }
        equal_sums(columns, both, n);
        let rows = |i: int| sum(|j: int| f(i, j), n);
        assert(sum(rows, m) == sum(rows, k) + rows(m - 1));
        assert(rows(m - 1) == sum(last, n)) by {
            equal_sums(|j: int| f(m - 1, j), last, n);
        }
    }
}

/// The terms of a grid, added up row by row.
pub proof fn split_sum(f: spec_fn(int) -> real, rows: nat, n: nat)
    ensures
        sum(f, rows * n) == sum(|r: int| sum(|c: int| f(r * n + c), n), rows),
    decreases rows,
{
    if rows == 0 {
        assert(rows * n == 0) by (nonlinear_arith)
            requires
                rows == 0,
        ;
    } else {
        let k = (rows - 1) as nat;
        split_sum(f, k, n);
        assert(rows * n == k * n + n) by (nonlinear_arith)
            requires
                rows == k + 1,
        ;
        assert(k * n >= 0) by (nonlinear_arith);
        let base = (k * n) as nat;
        joined_sum(f, base, n);
        let parts = |r: int| sum(|c: int| f(r * n + c), n);
        assert(sum(parts, rows) == sum(parts, k) + parts(rows - 1));
        equal_sums(|c: int| f(base + c), |c: int| f((rows - 1) * n + c), n);
    }
}

/// A sum goes on where another ends.
pub proof fn joined_sum(f: spec_fn(int) -> real, m: nat, n: nat)
    ensures
        sum(f, m + n) == sum(f, m) + sum(|c: int| f(m + c), n),
    decreases n,
{
    if n > 0 {
        joined_sum(f, m, (n - 1) as nat);
        let tail = |c: int| f(m + c);
        assert(sum(tail, n) == sum(tail, (n - 1) as nat) + tail(n - 1));
        assert((m + n) as nat - 1 == m + (n - 1));
    }
}

} // verus!
