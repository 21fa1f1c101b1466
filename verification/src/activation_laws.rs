use vstd::prelude::*;

use crate::arith::Arith;
use crate::reals::Reals;

verus! {

/// What a softmax is for: the weights add up to one, and relate to each other as
/// the exponentials of what they are the weights of. Without rounding.
pub proof fn softmax_weights_are_exponential<T, A: Arith<T>>(
    ar: &A,
    re: Reals<T>,
    x: Seq<T>,
    p: Seq<T>,
    i: int,
    j: int,
)
    requires
        re.exact(ar),
        re.exponentials(),
        0 <= i < x.len(),
        0 <= j < x.len(),
        crate::softmax::is_softmax(ar, x, p),
    ensures
        p.len() == x.len(),
        crate::reals::sum(|k: int| (re.value)(p[k]), x.len()) == 1real,
        (re.value)(p[i]) * (re.exp)((re.value)(x[j])) == (re.value)(p[j]) * (re.exp)(
            (re.value)(x[i]),
        ),
        (re.value)(p[i]) > 0real,
{
    let val = re.value;
    let n = x.len();
    let s = choose|s: crate::softmax::SoftmaxSteps<T>| #[trigger]
        crate::softmax::softmax_by(ar, x, s, p);
    let m = val(s.max);
    let e = |k: int| (re.exp)(val(x[k]) - m);
    assert forall|k: int| 0 <= k < n implies val(#[trigger] s.exps[k]) == e(k) && e(k)
        > 0real by {
        assert(crate::softmax::shifted_exp(ar, x[k], s.max, s.exps[k]));
        re.exp_of_sum(val(x[k]) - m, m);
    }
    let f = |k: int| val(s.exps[k]);
    re.fold_value(crate::softmax::sum_steps(ar, s.exps), f, n, s.zero, s.sum);
    let total = crate::reals::sum(f, n);
    assert forall|k: int| 0 <= k < n implies #[trigger] f(k) >= 0real by {
        assert(val(s.exps[k]) == e(k));
    }
    crate::norm_laws::part_of_sum(f, n, i);
    assert(val(s.exps[i]) == e(i));
    assert(total > 0real);
    let inv = val(s.inverse);
    assert(inv * total == 1real) by (nonlinear_arith)
        requires
            inv == 1real / total,
            total > 0real,
    ;
    let q = |k: int| val(p[k]);
    let scaled = |k: int| inv * f(k);
    assert forall|k: int| 0 <= k < n implies #[trigger] q(k) == scaled(k) by {
        assert(crate::arith::muls(ar, s.exps[k], s.inverse, p[k]));
        let (a, b) = (val(s.exps[k]), inv);
        assert(a * b == b * a) by (nonlinear_arith);
    }
    crate::reals::equal_sums(q, scaled, n);
    crate::reals::scaled_sum(f, inv, n);
    assert(q(i) == scaled(i) && q(j) == scaled(j));
    assert(val(s.exps[i]) == e(i) && val(s.exps[j]) == e(j));
    re.exp_of_sum(val(x[i]) - m, m);
    re.exp_of_sum(val(x[j]) - m, m);
    assert(val(x[i]) - m + m == val(x[i]));
    assert(val(x[j]) - m + m == val(x[j]));
    let (a, b, c) = (e(i), e(j), (re.exp)(m));
    assert((inv * a) * (b * c) == (inv * b) * (a * c)) by (nonlinear_arith);
    assert(inv > 0real) by (nonlinear_arith)
        requires
            inv * total == 1real,
            total > 0real,
    ;
    assert(inv * a > 0real) by (nonlinear_arith)
        requires
            inv > 0real,
            a > 0real,
    ;
}

/// A running maximum is the greatest of what it ran over.
proof fn running_maximum<T, A: Arith<T>>(ar: &A, re: Reals<T>, x: Seq<T>, n: nat, max: T)
    requires
        re.exact(ar),
        n < x.len(),
        crate::arith::folds(crate::softmax::max_steps(ar, x), n, x[0], max),
    ensures
        forall|i: int| 0 <= i <= n ==> (re.value)(#[trigger] x[i]) <= (re.value)(max),
        exists|i: int| 0 <= i <= n && #[trigger] x[i] == max,
    decreases n,
{
    let steps = crate::softmax::max_steps(ar, x);
    if n > 0 {
        let m = choose|m: T| #[trigger]
            crate::arith::takes(steps, n - 1, m, max) && crate::arith::folds(
                steps,
                (n - 1) as nat,
                x[0],
                m,
            );
        assert(steps(n - 1, m, max));
        running_maximum(ar, re, x, (n - 1) as nat, m);
        let c = choose|c: bool| #[trigger]
            crate::arith::compares(ar, m, x[n - 1 + 1], c) && max == (if c {
                x[n - 1 + 1]
            } else {
                m
            });
        assert(x[n as int] == x[n - 1 + 1]);
    } else {
        assert(x[0] == max);
    }
}

/// No exponential of a softmax overflows: what is subtracted is the greatest
/// value, so that no exponent is positive, and one is zero.
pub proof fn softmax_exponents_are_not_positive<T, A: Arith<T>>(
    ar: &A,
    re: Reals<T>,
    x: Seq<T>,
    s: crate::softmax::SoftmaxSteps<T>,
    p: Seq<T>,
)
    requires
        re.exact(ar),
        x.len() > 0,
        crate::softmax::softmax_by(ar, x, s, p),
    ensures
        forall|i: int| 0 <= i < x.len() ==> (re.value)(#[trigger] x[i]) <= (re.value)(s.max),
        exists|i: int| 0 <= i < x.len() && #[trigger] x[i] == s.max,
{
    running_maximum(ar, re, x, (x.len() - 1) as nat, s.max);
}

/// What a sigmoid is: times one plus the exponential of `-z`, it is one.
pub proof fn sigmoid_value<T, A: Arith<T>>(ar: &A, re: Reals<T>, z: T, r: T)
    requires
        re.exact(ar),
        re.exponentials(),
        crate::activation::is_sigmoid(ar, z, r),
    ensures
        (re.value)(r) * (1real + (re.exp)(-(re.value)(z))) == 1real,
        0real < (re.value)(r) < 1real,
{
    let val = re.value;
    let x = val(z);
    let (up, down) = ((re.exp)(-x), (re.exp)(x));
    re.exp_of_sum(-x, x);
    assert(-x + x == 0real);
    let (zero, c) = choose|zero: T, c: bool| #[trigger]
        crate::arith::converts(ar, 0, zero) && #[trigger] crate::arith::bounds(ar, zero, z, c)
            && if c {
            crate::expr::evals(ar, crate::activation::upper_sigmoid(z), r)
        } else {
            exists|e: T| #[trigger]
                crate::arith::exps(ar, z, e) && crate::expr::evals(
                    ar,
                    crate::activation::lower_sigmoid(e),
                    r,
                )
        };
    reveal_with_fuel(Reals::eval, 9);
    let v = val(r);
    if c {
        re.evals_value(ar, crate::activation::upper_sigmoid(z), r);
        assert(v * (1real + up) == 1real) by (nonlinear_arith)
            requires
                v == 1real / (1real + up),
                up > 0real,
        ;
    } else {
        let e = choose|e: T| #[trigger]
            crate::arith::exps(ar, z, e) && crate::expr::evals(
                ar,
                crate::activation::lower_sigmoid(e),
                r,
            );
        re.evals_value(ar, crate::activation::lower_sigmoid(e), r);
        assert(v * (1real + down) == down) by (nonlinear_arith)
            requires
                v == down / (1real + down),
                down > 0real,
        ;
        assert(v * (1real + up) == 1real) by (nonlinear_arith)
            requires
                v * (1real + down) == down,
                up * down == 1real,
                down > 0real,
        ;
    }
    assert(0real < v < 1real) by (nonlinear_arith)
        requires
            v * (1real + up) == 1real,
            up > 0real,
    ;
}

/// Two sigmoids of the same number are the same number.
pub proof fn sigmoid_values_agree<T, A: Arith<T>>(ar: &A, re: Reals<T>, z1: T, z2: T, r1: T, r2: T)
    requires
        re.exact(ar),
        re.exponentials(),
        (re.value)(z1) == (re.value)(z2),
        crate::activation::is_sigmoid(ar, z1, r1),
        crate::activation::is_sigmoid(ar, z2, r2),
    ensures
        (re.value)(r1) == (re.value)(r2),
{
    sigmoid_value(ar, re, z1, r1);
    sigmoid_value(ar, re, z2, r2);
    let up = (re.exp)(-(re.value)(z1));
    let (a, b) = ((re.value)(r1), (re.value)(r2));
    re.exp_of_sum(-(re.value)(z1), 0real);
    assert(a == b) by (nonlinear_arith)
        requires
            a * (1real + up) == 1real,
            b * (1real + up) == 1real,
            up > 0real,
    ;
}

/// What a SiLU is: the number times its sigmoid.
pub proof fn silu_value<T, A: Arith<T>>(ar: &A, re: Reals<T>, z: T, r: T)
    requires
        re.exact(ar),
        re.exponentials(),
        crate::expr::evals(ar, crate::activation::silu(z), r),
    ensures
        (re.value)(r) * (1real + (re.exp)(-(re.value)(z))) == (re.value)(z),
{
    let x = (re.value)(z);
    let up = (re.exp)(-x);
    re.exp_of_sum(-x, x);
    re.evals_value(ar, crate::activation::silu(z), r);
    reveal_with_fuel(Reals::eval, 9);
    let v = (re.value)(r);
    assert(v * (1real + up) == x) by (nonlinear_arith)
        requires
            v == x * (1real / (1real + up)),
            up > 0real,
    ;
}

/// What a rectifier is: the greater of the number and zero.
pub proof fn relu_value<T, A: Arith<T>>(ar: &A, re: Reals<T>, z: T, r: T)
    requires
        re.exact(ar),
        crate::activation::is_relu(ar, z, r),
    ensures
        (re.value)(r) >= 0real,
        (re.value)(r) >= (re.value)(z),
        (re.value)(r) == 0real || (re.value)(r) == (re.value)(z),
{
}

/// What the halves of a gated linear unit are for: a value of the first half,
/// over one plus the exponential of minus the value of the second half at the
/// same place. Without rounding.
pub proof fn second_half_gates_the_first<T, A: Arith<T>>(
    ar: &A,
    re: Reals<T>,
    x: Seq<T>,
    rows: int,
    half: int,
    out: Seq<T>,
    r: int,
    c: int,
)
    requires
        re.exact(ar),
        re.exponentials(),
        0 <= r < rows,
        0 <= c < half,
        x.len() == rows * (2 * half),
        out.len() == rows * half,
        crate::activation::is_glu(ar, x, half, out),
    ensures
        (re.value)(out[r * half + c]) * (1real + (re.exp)(
            -(re.value)(x[r * (2 * half) + half + c]),
        )) == (re.value)(x[r * (2 * half) + c]),
{
    let i = r * half + c;
    crate::grid::cell(r, c, half);
    crate::grid::row_bound(r, rows, half);
    assert(r * (half * 2) == r * (2 * half)) by (nonlinear_arith);
    assert(crate::activation::glu_cell(ar, x, half, r, c, out[i]));
    let (a, b) = (x[r * (half * 2) + c], x[r * (half * 2) + half + c]);
    let gate = choose|gate: T| #[trigger]
        crate::activation::is_sigmoid(ar, b, gate) && crate::arith::muls(ar, a, gate, out[i]);
    sigmoid_value(ar, re, b, gate);
    let (v, g, y, u) = (
        (re.value)(out[i]),
        (re.value)(gate),
        (re.value)(a),
        (re.exp)(-(re.value)(b)),
    );
    assert(v * (1real + u) == y) by (nonlinear_arith)
        requires
            v == y * g,
            g * (1real + u) == 1real,
    ;
}

proof fn erf_of_magnitude<T>(re: Reals<T>, a: T, b: T, na: bool, nb: bool)
    requires
        (re.value)(a) == -(re.value)(b),
        na == !nb,
    ensures
        re.eval(crate::activation::erf(a, na)) == -re.eval(crate::activation::erf(b, nb)),
{
    reveal_with_fuel(Reals::eval, 2);
    let ma = crate::expr::Expr::Value(a).magnitude();
    let mb = crate::expr::Expr::Value(b).magnitude();
    assert(re.eval(ma) == re.eval(mb));
    same_erf(re, ma, mb);
    let m = re.eval(crate::activation::erf_magnitude(ma));
    assert(-1real * m == -(1real * m)) by (nonlinear_arith);
}

proof fn same_erf<T>(re: Reals<T>, x: crate::expr::Expr<T>, y: crate::expr::Expr<T>)
    requires
        re.eval(x) == re.eval(y),
    ensures
        re.eval(crate::activation::erf_magnitude(x)) == re.eval(
            crate::activation::erf_magnitude(y),
        ),
{
    reveal_with_fuel(Reals::eval, 14);
}

/// The exact GELU of a number less that of its negative is the number: the error
/// function is odd. Without rounding.
pub proof fn gelu_differs_by_its_argument<T, A: Arith<T>>(
    ar: &A,
    re: Reals<T>,
    x: T,
    y: T,
    gx: T,
    gy: T,
)
    requires
        re.exact(ar),
        (re.bits)(crate::activation::HALF_BITS) == 1real / 2real,
        (re.bits)(crate::activation::SQRT_2_BITS) > 0real,
        (re.value)(x) == -(re.value)(y),
        (re.value)(x) != 0real,
        crate::activation::is_gelu(ar, x, gx),
        crate::activation::is_gelu(ar, y, gy),
    ensures
        (re.value)(gx) - (re.value)(gy) == (re.value)(x),
{
    let val = re.value;
    let root = (re.bits)(crate::activation::SQRT_2_BITS);
    let arg = |x: T|
        crate::expr::Expr::Value(x).over(crate::expr::Expr::Bits(crate::activation::SQRT_2_BITS));
    let formula = |x: T, e: T|
        crate::expr::Expr::<T>::Bits(crate::activation::HALF_BITS).times(
            crate::expr::Expr::Value(x),
        ).times(crate::expr::Expr::<T>::Int(1).plus(crate::expr::Expr::Value(e)));
    let (ux, ex) = choose|u: T, e: T| #[trigger]
        crate::expr::evals(ar, arg(x), u) && #[trigger] crate::activation::is_erf(ar, u, e)
            && crate::expr::evals(ar, formula(x, e), gx);
    let (uy, ey) = choose|u: T, e: T| #[trigger]
        crate::expr::evals(ar, arg(y), u) && #[trigger] crate::activation::is_erf(ar, u, e)
            && crate::expr::evals(ar, formula(y, e), gy);
    re.evals_value(ar, arg(x), ux);
    re.evals_value(ar, arg(y), uy);
    re.evals_value(ar, formula(x, ex), gx);
    re.evals_value(ar, formula(y, ey), gy);
    let nx = choose|negative: bool| #[trigger]
        crate::arith::signs(ar, ux, negative) && crate::expr::evals(
            ar,
            crate::activation::erf(ux, negative),
            ex,
        );
    let ny = choose|negative: bool| #[trigger]
        crate::arith::signs(ar, uy, negative) && crate::expr::evals(
            ar,
            crate::activation::erf(uy, negative),
            ey,
        );
    re.evals_value(ar, crate::activation::erf(ux, nx), ex);
    re.evals_value(ar, crate::activation::erf(uy, ny), ey);
    let (a, b) = (val(x), val(y));
    assert(re.eval(arg(x)) == a / root && re.eval(arg(y)) == b / root) by {
        reveal_with_fuel(Reals::eval, 3);
    }
    assert(a / root == -(b / root) && (a > 0real ==> a / root > 0real) && (a < 0real ==> a / root
        < 0real)) by (nonlinear_arith)
        requires
            a == -b,
            root > 0real,
    ;
    erf_of_magnitude(re, ux, uy, nx, ny);
    let e = val(ex);
    assert(val(gx) == (1real / 2real) * a * (1real + e) && val(gy) == (1real / 2real) * b * (1real
        + val(ey))) by {
        reveal_with_fuel(Reals::eval, 5);
    }
    let (p, q, f) = (val(gx), val(gy), val(ey));
    assert(p - q == a) by (nonlinear_arith)
        requires
            p == (1real / 2real) * a * (1real + e),
            q == (1real / 2real) * b * (1real + f),
            f == -e,
            a == -b,
    ;
}

} // verus!
