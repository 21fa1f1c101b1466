use vstd::prelude::*;

use crate::arith::Arith;
use crate::reals::Reals;

verus! {

/// What a projection computes: output `o` of row `r` is the bias of `o` and the
/// sum of the products of the row's inputs with the weights of `o`. Without
/// rounding.
pub proof fn projections_sum_products<T, A: Arith<T>>(
    ar: &A,
    re: Reals<T>,
    x: Seq<T>,
    w: Seq<T>,
    bias: Option<Seq<T>>,
    rows: int,
    n: int,
    outs: int,
    out: Seq<T>,
    r: int,
    o: int,
)
    requires
        re.exact(ar),
        crate::linear::is_linear(ar, x, w, bias, n, outs, out),
        n >= 0,
        0 <= r < rows,
        0 <= o < outs,
        x.len() == rows * n,
        w.len() == outs * n,
        out.len() == rows * outs,
    ensures
        (re.value)(out[r * outs + o]) == (match bias {
            Some(b) => (re.value)(b[o]),
            None => 0real,
        }) + crate::reals::sum(
            |k: int| (re.value)(x[r * n + k]) * (re.value)(w[o * n + k]),
            n as nat,
        ),
{
    let val = re.value;
    let i = r * outs + o;
    crate::grid::cell(r, o, outs);
    crate::grid::row_bound(r, rows, outs);
    crate::grid::row_bound(r, rows, n);
    crate::grid::row_bound(o, outs, n);
    let zero = choose|zero: T| #[trigger]
        crate::arith::converts(ar, 0, zero) && forall|i: int|
            0 <= i < out.len() ==> crate::linear::linear_cell(
                ar,
                zero,
                x,
                w,
                bias,
                n,
                i / outs,
                i % outs,
                #[trigger] out[i],
            );
    assert(crate::linear::linear_cell(ar, zero, x, w, bias, n, r, o, out[i]));
    let xs = crate::linear::row(x, n, r);
    let ws = crate::linear::row(w, n, o);
    re.dots_value(ar, crate::linear::start(zero, bias, o), xs, ws, out[i]);
    let f = |k: int| val(xs[k]) * val(ws[k]);
    let g = |k: int| val(x[r * n + k]) * val(w[o * n + k]);
    assert forall|k: int| 0 <= k < n implies #[trigger] f(k) == g(k) by {
        assert(xs[k] == x[r * n + k]);
        assert(ws[k] == w[o * n + k]);
    }
    crate::reals::equal_sums(f, g, n as nat);
}

/// A weight row with one number other than zero hands one input on: output `o` of
/// row `r` is the bias of `o` and that weight times the row's input at the same
/// place. Without rounding.
pub proof fn single_weight<T, A: Arith<T>>(
    ar: &A,
    re: Reals<T>,
    x: Seq<T>,
    w: Seq<T>,
    bias: Option<Seq<T>>,
    rows: int,
    n: int,
    outs: int,
    out: Seq<T>,
    r: int,
    o: int,
    k: int,
)
    requires
        re.exact(ar),
        crate::linear::is_linear(ar, x, w, bias, n, outs, out),
        0 <= r < rows,
        0 <= o < outs,
        0 <= k < n,
        x.len() == rows * n,
        w.len() == outs * n,
        out.len() == rows * outs,
        forall|q: int|
            0 <= q < w.len() && q / n == o && q != o * n + k ==> (re.value)(#[trigger] w[q])
                == 0real,
    ensures
        (re.value)(out[r * outs + o]) == (match bias {
            Some(b) => (re.value)(b[o]),
            None => 0real,
        }) + (re.value)(x[r * n + k]) * (re.value)(w[o * n + k]),
{
    projections_sum_products(ar, re, x, w, bias, rows, n, outs, out, r, o);
    let f = |k: int| (re.value)(x[r * n + k]) * (re.value)(w[o * n + k]);
    crate::grid::row_bound(o, outs, n);
    assert forall|j: int| 0 <= j < n && j != k implies #[trigger] f(j) == 0real by {
        crate::grid::cell(o, j, n);
        let q = o * n + j;
        assert((re.value)(w[q]) == 0real);
        let a = (re.value)(x[r * n + j]);
        assert(a * 0real == 0real) by (nonlinear_arith);
    }
    crate::reals::single_sum(f, n as nat, k);
}

/// What a matrix product computes: cell `(i, j)` is the sum of the products of row
/// `i` of the first with column `j` of the second. Without rounding.
pub proof fn products_sum_rows_by_columns<T, A: Arith<T>>(
    ar: &A,
    re: Reals<T>,
    a: Seq<T>,
    b: Seq<T>,
    m: int,
    k: int,
    n: int,
    out: Seq<T>,
    i: int,
    j: int,
)
    requires
        re.exact(ar),
        crate::dense::is_product(ar, a, b, k, n, out),
        k >= 0,
        0 <= i < m,
        0 <= j < n,
        out.len() == m * n,
    ensures
        (re.value)(out[i * n + j]) == crate::reals::sum(
            |t: int| (re.value)(a[i * k + t]) * (re.value)(b[t * n + j]),
            k as nat,
        ),
{
    crate::grid::cell(i, j, n);
    crate::grid::row_bound(i, m, n);
    let at = i * n + j;
    let zero = choose|zero: T| #[trigger]
        crate::arith::converts(ar, 0, zero) && crate::dense::matmul_cells(
            ar,
            zero,
            a,
            b,
            k,
            n,
            out,
            out.len() as int,
        );
    assert(crate::dense::matmul_cell(ar, zero, a, b, k, n, i, j, out[at]));
    re.accumulates_value(ar);
    re.fold_value(
        crate::dense::matmul_steps(ar, a, b, k, n, i, j),
        |t: int| (re.value)(a[i * k + t]) * (re.value)(b[t * n + j]),
        k as nat,
        zero,
        out[at],
    );
}

/// A row that holds one number other than zero picks a row: times the first's
/// number at `(i, t)`, the cells of row `i` are those of row `t` of the second.
/// Without rounding.
pub proof fn single_entry_picks_a_row<T, A: Arith<T>>(
    ar: &A,
    re: Reals<T>,
    a: Seq<T>,
    b: Seq<T>,
    m: int,
    k: int,
    n: int,
    out: Seq<T>,
    i: int,
    j: int,
    t: int,
)
    requires
        re.exact(ar),
        crate::dense::is_product(ar, a, b, k, n, out),
        0 <= i < m,
        0 <= j < n,
        0 <= t < k,
        out.len() == m * n,
        forall|q: int| i * k <= q < i * k + k && q != i * k + t ==> (re.value)(#[trigger] a[q]) == 0real,
    ensures
        (re.value)(out[i * n + j]) == (re.value)(a[i * k + t]) * (re.value)(b[t * n + j]),
{
    products_sum_rows_by_columns(ar, re, a, b, m, k, n, out, i, j);
    let f = |t: int| (re.value)(a[i * k + t]) * (re.value)(b[t * n + j]);
    assert forall|s: int| 0 <= s < k && s != t implies #[trigger] f(s) == 0real by {
        let q = i * k + s;
        assert((re.value)(a[q]) == 0real);
        let c = (re.value)(b[s * n + j]);
        assert(0real * c == 0real) by (nonlinear_arith);
    }
    crate::reals::single_sum(f, k as nat, t);
}

/// What a gated MLP computes: the second projection is in `up_buf`; the first,
/// times the second, over one plus the exponential of minus the first, is in
/// `gate_buf`; and the output is the third projection, of `gate_buf`. Without
/// rounding.
pub proof fn gated_mlps_gate_and_project<T, A: Arith<T>>(
    ar: &A,
    re: Reals<T>,
    x: Seq<T>,
    rows: int,
    hidden: int,
    intermediate: int,
    gate_w: Seq<T>,
    up_w: Seq<T>,
    down_w: Seq<T>,
    gate: Seq<T>,
    gate_buf: Seq<T>,
    up_buf: Seq<T>,
    out: Seq<T>,
    r: int,
    m: int,
    o: int,
)
    requires
        re.exact(ar),
        re.exponentials(),
        crate::mlp::mlp_by(
            ar,
            x,
            hidden,
            intermediate,
            gate_w,
            up_w,
            down_w,
            gate,
            gate_buf,
            up_buf,
            out,
        ),
        0 <= r < rows,
        0 <= m < intermediate,
        0 <= o < hidden,
        gate_buf.len() == rows * intermediate,
        up_buf.len() == rows * intermediate,
        out.len() == rows * hidden,
    ensures
        ({
            let first = crate::reals::sum(
                |k: int|
                    (re.value)(x[r * hidden + k]) * (re.value)(gate_w[k * intermediate + m]),
                hidden as nat,
            );
            let second = crate::reals::sum(
                |k: int| (re.value)(x[r * hidden + k]) * (re.value)(up_w[k * intermediate + m]),
                hidden as nat,
            );
            &&& (re.value)(up_buf[r * intermediate + m]) == second
            &&& (re.value)(gate_buf[r * intermediate + m]) * (1real + (re.exp)(-first)) == first
                * second
        }),
        (re.value)(out[r * hidden + o]) == crate::reals::sum(
            |k: int|
                (re.value)(gate_buf[r * intermediate + k]) * (re.value)(down_w[k * hidden + o]),
            intermediate as nat,
        ),
{
    products_sum_rows_by_columns(ar, re, x, gate_w, rows, hidden, intermediate, gate, r, m);
    products_sum_rows_by_columns(ar, re, x, up_w, rows, hidden, intermediate, up_buf, r, m);
    products_sum_rows_by_columns(ar, re, gate_buf, down_w, rows, intermediate, hidden, out, r, o);
    crate::grid::row_bound(r, rows, intermediate);
    let i = r * intermediate + m;
    assert(crate::mlp::gated(ar, gate[i], up_buf[i], gate_buf[i]));
    let s = choose|s: T| #[trigger]
        crate::expr::evals(ar, crate::activation::silu(gate[i]), s) && crate::arith::muls(
            ar,
            s,
            up_buf[i],
            gate_buf[i],
        );
    crate::activation_laws::silu_value(ar, re, gate[i], s);
    let (a, b, c, d, e) = (
        (re.value)(s),
        (re.value)(up_buf[i]),
        (re.value)(gate_buf[i]),
        (re.value)(gate[i]),
        (re.exp)(-(re.value)(gate[i])),
    );
    assert(c * (1real + e) == d * b) by (nonlinear_arith)
        requires
            c == a * b,
            a * (1real + e) == d,
    ;
}

} // verus!
