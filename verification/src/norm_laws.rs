use vstd::prelude::*;

use crate::arith::Arith;
use crate::reals::Reals;

verus! {

/// A quotient times its divisor.
proof fn quotient(a: real, q: real)
    by (nonlinear_arith)
    requires
        q != 0real,
    ensures
        (a / q) * q == a,
{
}

/// With `v = a / q * w` and `q` the root of `m`: `v^2 * m = (a * w)^2`, and `v` has
/// the sign of `a * w`.
proof fn over_root(a: real, q: real, m: real, w: real, v: real)
    requires
        q >= 0real,
        q * q == m,
        m > 0real,
        v == a * (1real / q) * w,
    ensures
        v * v * m == (a * w) * (a * w),
        v * (a * w) >= 0real,
{
    assert(q != 0real) by (nonlinear_arith)
        requires
            q * q == m,
            m > 0real,
    ;
    quotient(1real, q);
    let i = 1real / q;
    assert(v * q == a * w) by (nonlinear_arith)
        requires
            v == a * i * w,
            i * q == 1real,
    ;
    assert(v * v * m == (a * w) * (a * w)) by (nonlinear_arith)
        requires
            v * q == a * w,
            q * q == m,
    ;
    assert(v * (a * w) >= 0real) by (nonlinear_arith)
        requires
            v * q == a * w,
            q >= 0real,
    ;
}

/// Multiplying the columns by other weights multiplies the outputs: the output
/// for some weights is the output for unit weights, times the weight of its
/// column.
pub proof fn rms_weights_multiply<T, A: Arith<T>>(
    ar: &A,
    x: Seq<T>,
    hidden: usize,
    weight: Seq<T>,
    unit: Seq<T>,
    one: T,
    eps: T,
    out: Seq<T>,
    plain: Seq<T>,
    i: int,
)
    requires
        crate::arith::deterministic(ar),
        forall|a: T, r: T| #[trigger] crate::arith::muls(ar, a, one, r) ==> r == a,
        hidden > 0,
        unit.len() == hidden,
        forall|c: int| 0 <= c < hidden ==> #[trigger] unit[c] == one,
        crate::norms::is_rmsnorm(ar, x, hidden, weight, eps, out),
        crate::norms::is_rmsnorm(ar, x, hidden, unit, eps, plain),
        0 <= i < out.len(),
        out.len() == plain.len(),
    ensures
        crate::arith::muls(ar, plain[i], weight[i % hidden as int], out[i]),
{
    crate::grid::index(i, hidden as int);
    let (r, c) = (i / hidden as int, i % hidden as int);
    assert(crate::norms::rmsnorm_cell(ar, x, hidden, weight, eps, r, c, out[i]));
    assert(crate::norms::rmsnorm_cell(ar, x, hidden, unit, eps, r, c, plain[i]));
    let row = crate::linear::row(x, hidden as int, r);
    let body = |s: T|
        crate::expr::Expr::Value(row[c]).times(
            crate::expr::Expr::<T>::Int(1).over(
                crate::expr::Expr::Value(s).over(crate::expr::Expr::Size(hidden)).plus(
                    crate::expr::Expr::Value(eps),
                ).root(),
            ),
        );
    let (z1, s1) = choose|zero: T, squares: T| #[trigger]
        crate::arith::converts(ar, 0, zero) && #[trigger] crate::arith::dots(
            ar,
            zero,
            row,
            row,
            squares,
        ) && crate::expr::evals(
            ar,
            body(squares).times(crate::expr::Expr::Value(weight[c])),
            out[i],
        );
    let (z2, s2) = choose|zero: T, squares: T| #[trigger]
        crate::arith::converts(ar, 0, zero) && #[trigger] crate::arith::dots(
            ar,
            zero,
            row,
            row,
            squares,
        ) && crate::expr::evals(
            ar,
            body(squares).times(crate::expr::Expr::Value(unit[c])),
            plain[i],
        );
    assert(z1 == z2);
    crate::arith::accumulates_unique(ar);
    crate::arith::fold_unique(crate::arith::dot_steps(ar, row, row), row.len(), z1, s1, s2);
    let (a1, b1) = choose|a: T, b: T|
        crate::expr::evals(ar, body(s1), a) && crate::expr::evals(
            ar,
            crate::expr::Expr::Value(weight[c]),
            b,
        ) && #[trigger] crate::expr::combines(ar, crate::expr::Op::Mul, a, b, out[i]);
    let (a2, b2) = choose|a: T, b: T|
        crate::expr::evals(ar, body(s2), a) && crate::expr::evals(
            ar,
            crate::expr::Expr::Value(unit[c]),
            b,
        ) && #[trigger] crate::expr::combines(ar, crate::expr::Op::Mul, a, b, plain[i]);
    crate::expr::evals_unique(ar, body(s1), a1, a2);
    assert(b2 == one);
}

/// What root-mean-square normalisation is for: the square of an output, times
/// the mean square of its row plus epsilon, is the square of the input times the
/// weight of its column, and the output has the sign of that product. Without
/// rounding.
pub proof fn rms_scales_to_the_mean_square<T, A: Arith<T>>(
    ar: &A,
    re: Reals<T>,
    x: Seq<T>,
    rows: int,
    hidden: usize,
    weight: Seq<T>,
    eps: T,
    out: Seq<T>,
    r: int,
    c: int,
)
    requires
        re.exact(ar),
        re.roots(),
        0 <= r < rows,
        0 <= c < hidden,
        x.len() == rows * hidden,
        weight.len() == hidden,
        out.len() == x.len(),
        (re.value)(eps) > 0real,
        crate::norms::is_rmsnorm(ar, x, hidden, weight, eps, out),
    ensures
        ({
            let squares = crate::reals::sum(
                |k: int| (re.value)(x[r * hidden + k]) * (re.value)(x[r * hidden + k]),
                hidden as nat,
            );
            let h = (hidden as int) as real;
            let v = (re.value)(out[r * hidden + c]);
            let p = (re.value)(x[r * hidden + c]) * (re.value)(weight[c]);
            v * v * (squares / h + (re.value)(eps)) == p * p && v * p >= 0real
        }),
{
    let i = r * hidden + c;
    let val = re.value;
    crate::grid::cell(r, c, hidden as int);
    crate::grid::row_bound(r, rows, hidden as int);
    assert(crate::norms::rmsnorm_cell(ar, x, hidden, weight, eps, r, c, out[i]));
    let row = crate::linear::row(x, hidden as int, r);
    let formula = |s: T|
        crate::expr::Expr::Value(row[c]).times(
            crate::expr::Expr::<T>::Int(1).over(
                crate::expr::Expr::Value(s).over(crate::expr::Expr::Size(hidden)).plus(
                    crate::expr::Expr::Value(eps),
                ).root(),
            ),
        ).times(crate::expr::Expr::Value(weight[c]));
    let (zero, squares) = choose|zero: T, squares: T| #[trigger]
        crate::arith::converts(ar, 0, zero) && #[trigger] crate::arith::dots(
            ar,
            zero,
            row,
            row,
            squares,
        ) && crate::expr::evals(ar, formula(squares), out[i]);
    re.dots_value(ar, zero, row, row, squares);
    re.evals_value(ar, formula(squares), out[i]);
    let f = |k: int| val(row[k]) * val(row[k]);
    let g = |k: int| val(x[r * hidden + k]) * val(x[r * hidden + k]);
    assert forall|k: int| 0 <= k < hidden implies #[trigger] f(k) == g(k) && g(k) >= 0real by {
        assert(row[k] == x[r * hidden + k]);
        let y = val(row[k]);
        assert(y * y >= 0real) by (nonlinear_arith);
    }
    crate::reals::equal_sums(f, g, hidden as nat);
    assert forall|k: int| 0 <= k < hidden implies #[trigger] g(k) >= 0real by {
        assert(f(k) == g(k));
    }
    crate::reals::sum_not_negative(g, hidden as nat);
    let h = (hidden as int) as real;
    let s = crate::reals::sum(g, hidden as nat);
    let m = s / h + val(eps);
    assert(s / h >= 0real) by (nonlinear_arith)
        requires
            s >= 0real,
            h > 0real,
    ;
    reveal_with_fuel(Reals::eval, 9);
    assert(val(out[i]) == val(x[i]) * (1real / (re.root)(m)) * val(weight[c]));
    over_root(val(x[i]), (re.root)(m), m, val(weight[c]), val(out[i]));
}

/// The distance of value `k` of row `r` to the mean of its row, times the length
/// of the row.
pub open spec fn distance<T>(re: Reals<T>, x: Seq<T>, hidden: int, r: int, k: int) -> real {
    (hidden as real) * (re.value)(x[r * hidden + k]) - crate::reals::sum(
        |j: int| (re.value)(x[r * hidden + j]),
        hidden as nat,
    )
}

/// What layer normalisation is for: an output less the bias of its column,
/// squared, times the variance of its row plus epsilon, is the square of the
/// input's distance to the mean times the weight of its column; and it has the
/// sign of that product. Without rounding.
pub proof fn layer_norm_centres_and_scales<T, A: Arith<T>>(
    ar: &A,
    re: Reals<T>,
    x: Seq<T>,
    rows: int,
    hidden: usize,
    weight: Seq<T>,
    bias: Seq<T>,
    eps: T,
    out: Seq<T>,
    r: int,
    c: int,
)
    requires
        re.exact(ar),
        re.roots(),
        0 <= r < rows,
        0 <= c < hidden,
        x.len() == rows * hidden,
        weight.len() == hidden,
        bias.len() == hidden,
        out.len() == x.len(),
        (re.value)(eps) > 0real,
        crate::norms::is_layer_norm(ar, x, hidden, weight, bias, eps, out),
    ensures
        ({
            let h = (hidden as int) as real;
            let variance = crate::reals::sum(
                |k: int|
                    (distance(re, x, hidden as int, r, k) / h) * (distance(
                        re,
                        x,
                        hidden as int,
                        r,
                        k,
                    ) / h),
                hidden as nat,
            ) / h;
            let v = (re.value)(out[r * hidden + c]) - (re.value)(bias[c]);
            let p = distance(re, x, hidden as int, r, c) / h * (re.value)(weight[c]);
            v * v * (variance + (re.value)(eps)) == p * p && v * p >= 0real
        }),
{
    let n = hidden as int;
    let i = r * n + c;
    let val = re.value;
    crate::grid::cell(r, c, n);
    crate::grid::row_bound(r, rows, n);
    assert(crate::norms::layer_norm_cell(ar, x, hidden, weight, bias, eps, r, c, out[i]));
    let row = crate::linear::row(x, n, r);
    let formula = |s: crate::norms::LayerNormSteps<T>|
        crate::expr::Expr::Value(row[c]).minus(crate::expr::Expr::Value(s.mean)).times(
            crate::expr::Expr::Value(s.inverse),
        ).times(crate::expr::Expr::Value(weight[c])).plus(crate::expr::Expr::Value(bias[c]));
    let s = choose|s: crate::norms::LayerNormSteps<T>| #[trigger]
        crate::norms::layer_norm_row(ar, row, hidden, eps, s) && crate::expr::evals(
            ar,
            formula(s),
            out[i],
        );
    let h = n as real;
    re.evals_value(ar, formula(s), out[i]);
    let each = |j: int| val(row[j]);
    re.fold_value(crate::softmax::sum_steps(ar, row), each, row.len(), s.zero, s.sum);
    let given = |j: int| val(x[r * hidden + j]);
    assert forall|j: int| 0 <= j < n implies #[trigger] each(j) == given(j) by {
        assert(row[j] == x[r * n + j]);
    }
    crate::reals::equal_sums(each, given, n as nat);
    let total = crate::reals::sum(given, n as nat);
    re.evals_value(
        ar,
        crate::expr::Expr::Value(s.sum).over(crate::expr::Expr::Size(hidden)),
        s.mean,
    );
    reveal_with_fuel(Reals::eval, 9);
    assert(val(s.mean) == total / h);
    let off = |k: int| distance(re, x, n, r, k) / h;
    let squared = |k: int|
        (distance(re, x, hidden as int, r, k) / h) * (distance(re, x, hidden as int, r, k) / h);
    assert forall|k: int| 0 <= k < n implies val(row[k]) - val(s.mean) == #[trigger] off(k) by {
        assert(row[k] == x[r * n + k]);
        assert(each(k) == given(k));
        let (a, b) = (val(row[k]), total);
        assert(a - b / h == (h * a - b) / h) by (nonlinear_arith)
            requires
                h > 0real,
        ;
    }
    re.accumulates_value(ar);
    let steps = crate::norms::spread_steps(ar, row, s.mean);
    assert forall|k: int, a: T, b: T| 0 <= k < n && #[trigger] steps(k, a, b) implies val(b)
        == val(a) + squared(k) by {
        let d = choose|d: T| #[trigger]
            crate::arith::subs(ar, row[k], s.mean, d) && crate::arith::accumulates(ar, a, d, d, b);
        assert(val(d) == off(k));
    }
    re.fold_value(steps, squared, row.len(), s.zero, s.spread);
    let spread = crate::reals::sum(squared, n as nat);
    assert forall|k: int| 0 <= k < n implies #[trigger] squared(k) >= 0real by {
        let y = off(k);
        assert(y * y >= 0real) by (nonlinear_arith);
    }
    crate::reals::sum_not_negative(squared, n as nat);
    let m = spread / h + val(eps);
    assert(spread / h >= 0real) by (nonlinear_arith)
        requires
            spread >= 0real,
            h > 0real,
    ;
    re.evals_value(
        ar,
        crate::expr::Expr::<T>::Int(1).over(
            crate::expr::Expr::Value(s.spread).over(crate::expr::Expr::Size(hidden)).plus(
                crate::expr::Expr::Value(eps),
            ).root(),
        ),
        s.inverse,
    );
    assert(val(s.inverse) == 1real / (re.root)(m));
    assert(val(row[c]) - val(s.mean) == off(c));
    over_root(off(c), (re.root)(m), m, val(weight[c]), val(out[i]) - val(bias[c]));
}

/// What batch normalisation is for: an output less the shift of its channel,
/// squared, times the variance of the channel plus epsilon, is the square of the
/// input's distance to the channel's mean times the channel's factor; and it has
/// the sign of that product. Channel `ch` has the values from `ch * spatial` on.
/// Without rounding.
pub proof fn batch_norm_uses_the_statistics_of_its_channel<T, A: Arith<T>>(
    ar: &A,
    re: Reals<T>,
    x: Seq<T>,
    channels: int,
    spatial: int,
    mean: Seq<T>,
    var: Seq<T>,
    gamma: Seq<T>,
    beta: Seq<T>,
    eps: T,
    out: Seq<T>,
    ch: int,
    s: int,
)
    requires
        re.exact(ar),
        re.roots(),
        0 <= ch < channels,
        0 <= s < spatial,
        x.len() == channels * spatial,
        out.len() == x.len(),
        (re.value)(var[ch]) + (re.value)(eps) > 0real,
        crate::conv::is_batch_norm(ar, x, spatial, mean, var, gamma, beta, eps, out),
    ensures
        ({
            let v = (re.value)(out[ch * spatial + s]) - (re.value)(beta[ch]);
            let p = ((re.value)(x[ch * spatial + s]) - (re.value)(mean[ch])) * (re.value)(
                gamma[ch],
            );
            v * v * ((re.value)(var[ch]) + (re.value)(eps)) == p * p && v * p >= 0real
        }),
{
    let val = re.value;
    let i = ch * spatial + s;
    crate::grid::cell(ch, s, spatial);
    crate::grid::row_bound(ch, channels, spatial);
    assert(crate::conv::batch_norm_cell(
        ar,
        x[i],
        mean[ch],
        var[ch],
        gamma[ch],
        beta[ch],
        eps,
        out[i],
    ));
    let factor = crate::expr::Expr::Value(gamma[ch]).over(
        crate::expr::Expr::Value(var[ch]).plus(crate::expr::Expr::Value(eps)).root(),
    );
    let formula = |k: T|
        crate::expr::Expr::Value(x[i]).times(crate::expr::Expr::Value(k)).plus(
            crate::expr::Expr::Value(beta[ch]).minus(
                crate::expr::Expr::Value(mean[ch]).times(crate::expr::Expr::Value(k)),
            ),
        );
    let scale = choose|scale: T| #[trigger]
        crate::expr::evals(ar, factor, scale) && crate::expr::evals(ar, formula(scale), out[i]);
    re.evals_value(ar, factor, scale);
    re.evals_value(ar, formula(scale), out[i]);
    reveal_with_fuel(Reals::eval, 9);
    let m = val(var[ch]) + val(eps);
    let q = (re.root)(m);
    let (a, b, g, k, e) = (val(x[i]), val(mean[ch]), val(gamma[ch]), val(scale), val(beta[ch]));
    let v = val(out[i]) - e;
    assert(q != 0real) by (nonlinear_arith)
        requires
            q * q == m,
            m > 0real,
    ;
    assert(k == g * (1real / q)) by (nonlinear_arith)
        requires
            k == g / q,
            q != 0real,
    ;
    let inv = 1real / q;
    assert(v == (a - b) * inv * g) by (nonlinear_arith)
        requires
            v == a * k - b * k,
            k == g * inv,
    ;
    over_root(a - b, q, m, g, v);
}

/// What scaling to length one is for: the squares of the result add up to one,
/// and the result points where the vector does: `out_i * v_j = out_j * v_i`, with
/// the sign of `v`. Without rounding, for a vector that is not zero.
pub proof fn normalized_vectors_have_length_one<T, A: Arith<T>>(
    ar: &A,
    re: Reals<T>,
    v: Seq<T>,
    out: Seq<T>,
    i: int,
    j: int,
)
    requires
        re.exact(ar),
        re.roots(),
        0 <= i < v.len(),
        0 <= j < v.len(),
        (re.value)(v[i]) != 0real,
        crate::pooling::is_normalized(ar, v, out),
    ensures
        out.len() == v.len(),
        crate::reals::sum(|k: int| (re.value)(out[k]) * (re.value)(out[k]), v.len()) == 1real,
        (re.value)(out[i]) * (re.value)(v[j]) == (re.value)(out[j]) * (re.value)(v[i]),
        (re.value)(out[i]) * (re.value)(v[i]) > 0real,
{
    let val = re.value;
    let (zero, squares, positive) = choose|zero: T, squares: T, positive: bool| #[trigger]
        crate::arith::converts(ar, 0, zero) && #[trigger] crate::arith::dots(
            ar,
            zero,
            v,
            v,
            squares,
        ) && #[trigger] crate::arith::compares(ar, zero, squares, positive) && if positive {
            &&& out.len() == v.len()
            &&& forall|i: int|
                0 <= i < v.len() ==> crate::expr::evals(
                    ar,
                    crate::expr::Expr::Value(v[i]).times(
                        crate::expr::Expr::<T>::Int(1).over(
                            crate::expr::Expr::Value(squares).root(),
                        ),
                    ),
                    #[trigger] out[i],
                )
        } else {
            out == v
        };
    let f = |k: int| val(v[k]) * val(v[k]);
    re.dots_value(ar, zero, v, v, squares);
    let s = crate::reals::sum(f, v.len());
    assert forall|k: int| 0 <= k < v.len() implies #[trigger] f(k) >= 0real by {
        let y = val(v[k]);
        assert(y * y >= 0real) by (nonlinear_arith);
    }
    part_of_sum(f, v.len(), i);
    let y = val(v[i]);
    assert(y * y > 0real) by (nonlinear_arith)
        requires
            y != 0real,
    ;
    assert(s > 0real);
    assert(positive);
    let q = (re.root)(s);
    assert(q != 0real) by (nonlinear_arith)
        requires
            q * q == s,
            s > 0real,
    ;
    quotient(1real, q);
    let inv = 1real / q;
    reveal_with_fuel(Reals::eval, 9);
    assert forall|k: int| 0 <= k < v.len() implies #[trigger] val(out[k]) == val(v[k]) * inv by {
        re.evals_value(
            ar,
            crate::expr::Expr::Value(v[k]).times(
                crate::expr::Expr::<T>::Int(1).over(crate::expr::Expr::Value(squares).root()),
            ),
            out[k],
        );
    }
    let g = |k: int| val(out[k]) * val(out[k]);
    let c = inv * inv;
    let scaled = |k: int| c * f(k);
    assert forall|k: int| 0 <= k < v.len() implies #[trigger] g(k) == scaled(k) by {
        let (a, b) = (val(out[k]), val(v[k]));
        assert(a * a == c * (b * b)) by (nonlinear_arith)
            requires
                a == b * inv,
                c == inv * inv,
        ;
    }
    crate::reals::equal_sums(g, scaled, v.len());
    crate::reals::scaled_sum(f, c, v.len());
    assert(c * s == 1real) by (nonlinear_arith)
        requires
            c == inv * inv,
            inv * q == 1real,
            q * q == s,
    ;
    let (a, b, d, e) = (val(out[i]), val(v[i]), val(out[j]), val(v[j]));
    assert(a * e == d * b) by (nonlinear_arith)
        requires
            a == b * inv,
            d == e * inv,
    ;
    assert(inv > 0real) by (nonlinear_arith)
        requires
            inv * q == 1real,
            q >= 0real,
    ;
    assert(a * b > 0real) by (nonlinear_arith)
        requires
            a == b * inv,
            b * b > 0real,
            inv > 0real,
    ;
}

/// A term that is not negative, among such, is part of the sum.
pub proof fn part_of_sum(f: spec_fn(int) -> real, n: nat, i: int)
    requires
        0 <= i < n,
        forall|k: int| 0 <= k < n ==> #[trigger] f(k) >= 0real,
    ensures
        crate::reals::sum(f, n) >= f(i),
    decreases n,
{
    if i == n - 1 {
        crate::reals::sum_not_negative(f, (n - 1) as nat);
    } else {
        part_of_sum(f, (n - 1) as nat, i);
    }
}

/// What mean pooling is for: the number of rows times a pooled value is the sum
/// of its column. Without rounding.
pub proof fn pooling_takes_the_mean<T, A: Arith<T>>(
    ar: &A,
    re: Reals<T>,
    m: Seq<T>,
    rows: usize,
    dim: int,
    out: Seq<T>,
    d: int,
)
    requires
        re.exact(ar),
        rows > 0,
        0 <= d < dim,
        out.len() == dim,
        crate::pooling::is_mean_pool(ar, m, rows, out),
    ensures
        ((rows as int) as real) * (re.value)(out[d]) == crate::reals::sum(
            |i: int| (re.value)(m[i * dim + d]),
            rows as nat,
        ),
{
    let val = re.value;
    assert(crate::pooling::column_mean(ar, m, rows, dim, d, out[d]));
    let formula = |sum: T|
        crate::expr::Expr::Value(sum).times(
            crate::expr::Expr::<T>::Int(1).over(crate::expr::Expr::Size(rows)),
        );
    let (zero, sum) = choose|zero: T, sum: T| #[trigger]
        crate::arith::converts(ar, 0, zero) && #[trigger] crate::arith::folds(
            crate::pooling::column_steps(ar, m, dim, d),
            rows as nat,
            zero,
            sum,
        ) && crate::expr::evals(ar, formula(sum), out[d]);
    let f = |i: int| val(m[i * dim + d]);
    re.fold_value(crate::pooling::column_steps(ar, m, dim, d), f, rows as nat, zero, sum);
    re.evals_value(ar, formula(sum), out[d]);
    reveal_with_fuel(Reals::eval, 9);
    let n = (rows as int) as real;
    let s = crate::reals::sum(f, rows as nat);
    quotient(1real, n);
    let inv = 1real / n;
    let o = val(out[d]);
    assert(n * o == s) by (nonlinear_arith)
        requires
            o == s * inv,
            inv * n == 1real,
    ;
}

} // verus!
