use vstd::prelude::*;

use crate::arith::{dot, mul_add, Arith};
use crate::error::OcelotlError;
use crate::shapes::validate_linear_out_by_in;

verus! {

/// Row `r` of a matrix with rows of `n` values.
pub open spec fn row<T>(m: Seq<T>, n: int, r: int) -> Seq<T> {
    m.subrange(r * n, r * n + n)
}

/// What the sum of output `o` starts from: its bias, or zero.
pub open spec fn start<T>(zero: T, bias: Option<Seq<T>>, o: int) -> T {
    match bias {
        Some(b) => b[o],
        None => zero,
    }
}

/// `v` may be output `o` of row `r`: the bias plus the products of the input
/// row and the weight row of the output, added up from the left.
pub open spec fn linear_cell<T, A: Arith<T>>(
    ar: &A,
    zero: T,
    x: Seq<T>,
    w: Seq<T>,
    bias: Option<Seq<T>>,
    n: int,
    r: int,
    o: int,
    v: T,
) -> bool {
    crate::arith::dots(ar, start(zero, bias, o), row(x, n, r), row(w, n, o), v)
}

/// The view of an optional bias.
pub open spec fn bias_view<T>(bias: Option<&[T]>) -> Option<Seq<T>> {
    match bias {
        Some(b) => Some(b@),
        None => None,
    }
}

/// The outputs of all rows before `r`, and those before `upto` of the `height`
/// rows from `r` on.
pub open spec fn linear_region<T, A: Arith<T>>(
    ar: &A,
    zero: T,
    x: Seq<T>,
    w: Seq<T>,
    bias: Option<Seq<T>>,
    n: int,
    outs: int,
    out: Seq<T>,
    r: int,
    height: int,
    upto: int,
) -> bool {
    forall|i: int|
        0 <= i < out.len() && (i / outs < r || (i / outs < r + height && i % outs < upto))
            ==> linear_cell(ar, zero, x, w, bias, n, i / outs, i % outs, #[trigger] out[i])
}

/// The output is the projection of every row.
pub open spec fn is_linear<T, A: Arith<T>>(
    ar: &A,
    x: Seq<T>,
    w: Seq<T>,
    bias: Option<Seq<T>>,
    n: int,
    outs: int,
    out: Seq<T>,
) -> bool {
    exists|zero: T| #[trigger]
        crate::arith::converts(ar, 0, zero) && forall|i: int|
            0 <= i < out.len() ==> linear_cell(
                ar,
                zero,
                x,
                w,
                bias,
                n,
                i / outs,
                i % outs,
                #[trigger] out[i],
            )
}

fn start_of<T: Copy>(zero: T, bias: Option<&[T]>, o: usize) -> (r: T)
    requires
        bias matches Some(b) ==> o < b@.len(),
    ensures
        r == start(zero, bias_view(bias), o as int),
{
    match bias {
        Some(b) => b[o],
        None => zero,
    }
}

/// Four sums, one for each of four rows, after `i` steps.
spec fn folds4<T, A: Arith<T>>(
    ar: &A,
    init: T,
    x: Seq<T>,
    w: Seq<T>,
    n: int,
    r: int,
    o: int,
    i: nat,
    acc: (T, T, T, T),
) -> bool {
    let ws = row(w, n, o);
    &&& crate::arith::folds(crate::arith::dot_steps(ar, row(x, n, r), ws), i, init, acc.0)
    &&& crate::arith::folds(crate::arith::dot_steps(ar, row(x, n, r + 1), ws), i, init, acc.1)
    &&& crate::arith::folds(crate::arith::dot_steps(ar, row(x, n, r + 2), ws), i, init, acc.2)
    &&& crate::arith::folds(crate::arith::dot_steps(ar, row(x, n, r + 3), ws), i, init, acc.3)
}

/// One step of four sums that share a weight.
fn step4<T: Copy, A: Arith<T>>(
    ar: &A,
    Ghost(init): Ghost<T>,
    Ghost(x): Ghost<Seq<T>>,
    Ghost(w): Ghost<Seq<T>>,
    Ghost(n): Ghost<int>,
    Ghost(r): Ghost<int>,
    Ghost(o): Ghost<int>,
    Ghost(i): Ghost<int>,
    acc: (T, T, T, T),
    xs: (T, T, T, T),
    weight: T,
) -> (next: (T, T, T, T))
    requires
        0 <= i < n,
        0 <= r,
        0 <= o,
        (r + 4) * n <= x.len(),
        (o + 1) * n <= w.len(),
        folds4(ar, init, x, w, n, r, o, i as nat, acc),
        xs.0 == row(x, n, r)[i],
        xs.1 == row(x, n, r + 1)[i],
        xs.2 == row(x, n, r + 2)[i],
        xs.3 == row(x, n, r + 3)[i],
        weight == row(w, n, o)[i],
    ensures
        folds4(ar, init, x, w, n, r, o, (i + 1) as nat, next),
{
    let next: (T, T, T, T) = (
        mul_add(ar, acc.0, xs.0, weight),
        mul_add(ar, acc.1, xs.1, weight),
        mul_add(ar, acc.2, xs.2, weight),
        mul_add(ar, acc.3, xs.3, weight),
    );
    proof {
        let ws = row(w, n, o);
        let k = i as nat;
        crate::arith::fold_step(
            crate::arith::dot_steps(ar, row(x, n, r), ws),
            k,
            init,
            acc.0,
            next.0,
        );
        crate::arith::fold_step(
            crate::arith::dot_steps(ar, row(x, n, r + 1), ws),
            k,
            init,
            acc.1,
            next.1,
        );
        crate::arith::fold_step(
            crate::arith::dot_steps(ar, row(x, n, r + 2), ws),
            k,
            init,
            acc.2,
            next.2,
        );
        crate::arith::fold_step(
            crate::arith::dot_steps(ar, row(x, n, r + 3), ws),
            k,
            init,
            acc.3,
            next.3,
        );
    }
    next
}

proof fn four_rows(r: int, rows: int, n: int)
    requires
        0 <= r,
        r + 4 <= rows,
        0 <= n,
    ensures
        0 <= r * n,
        (r + 1) * n == r * n + n,
        (r + 2) * n == r * n + 2 * n,
        (r + 3) * n == r * n + 3 * n,
        (r + 4) * n == r * n + 4 * n,
        r * n + 4 * n <= rows * n,
{
    assert(0 <= r * n) by (nonlinear_arith)
        requires
            0 <= r,
            0 <= n,
    ;
    assert((r + 1) * n == r * n + n) by (nonlinear_arith);
    assert((r + 2) * n == r * n + 2 * n) by (nonlinear_arith);
    assert((r + 3) * n == r * n + 3 * n) by (nonlinear_arith);
    assert((r + 4) * n == r * n + 4 * n) by (nonlinear_arith);
    assert((r + 4) * n <= rows * n) by (nonlinear_arith)
        requires
            r + 4 <= rows,
            0 <= n,
    ;
}

/// Writes output `o` of four rows.
fn put4<T: Copy, A: Arith<T>>(
    ar: &A,
    Ghost(zero): Ghost<T>,
    x: &[T],
    w: &[T],
    bias: Option<&[T]>,
    n: usize,
    outs: usize,
    out: &mut [T],
    r: usize,
    o: usize,
    acc: (T, T, T, T),
)
    requires
        o < outs,
        (r + 4) * outs <= old(out)@.len(),
        linear_region(
            ar,
            zero,
            x@,
            w@,
            bias_view(bias),
            n as int,
            outs as int,
            old(out)@,
            r as int,
            4,
            o as int,
        ),
        folds4(
            ar,
            start(zero, bias_view(bias), o as int),
            x@,
            w@,
            n as int,
            r as int,
            o as int,
            n as nat,
            acc,
        ),
        (r + 4) * n <= x@.len(),
    ensures
        final(out)@.len() == old(out)@.len(),
        linear_region(
            ar,
            zero,
            x@,
            w@,
            bias_view(bias),
            n as int,
            outs as int,
            final(out)@,
            r as int,
            4,
            o + 1,
        ),
{
    let total: usize = out.len();
    let ghost before = out@;
    proof {
        four_rows(r as int, r + 4, outs as int);
        four_rows(r as int, r + 4, n as int);
        crate::grid::cell(r as int, o as int, outs as int);
        crate::grid::cell(r + 1, o as int, outs as int);
        crate::grid::cell(r + 2, o as int, outs as int);
        crate::grid::cell(r + 3, o as int, outs as int);
    }
    assert((r + 4) * outs <= total);
    let at: usize = r * outs + o;
    out[at] = acc.0;
    out[at + outs] = acc.1;
    out[at + outs + outs] = acc.2;
    out[at + outs + outs + outs] = acc.3;
    proof {
        let b = bias_view(bias);
        assert forall|i: int|
            0 <= i < out@.len() && (i / outs as int) < r + 4 && ((i / outs as int) < r || (i % outs as int) < o + 1) implies linear_cell(
            ar,
            zero,
            x@,
            w@,
            b,
            n as int,
            i / outs as int,
            i % outs as int,
            #[trigger] out@[i],
        ) by {
            crate::grid::index(i, outs as int);
            if (i / outs as int) < r || (i % outs as int) < o {
                assert(out@[i] == before[i]);
            } else {
                let t = i / outs as int;
                assert(t == r || t == r + 1 || t == r + 2 || t == r + 3);
            }
        }
    }
}

/// The projection of every row, in tiles of four rows by four outputs.
pub fn linear_out_by_in_compute<T: Copy, A: Arith<T>>(
    ar: &A,
    x: &[T],
    rows: usize,
    in_features: usize,
    weight_out_by_in: &[T],
    out_features: usize,
    bias: Option<&[T]>,
    out: &mut [T],
)
    requires
        x@.len() == rows * in_features,
        weight_out_by_in@.len() == out_features * in_features,
        old(out)@.len() == rows * out_features,
        bias matches Some(b) ==> b@.len() == out_features,
    ensures
        final(out)@.len() == old(out)@.len(),
        is_linear(
            ar,
            x@,
            weight_out_by_in@,
            bias_view(bias),
            in_features as int,
            out_features as int,
            final(out)@,
        ),
{
    let n: usize = in_features;
    let outs: usize = out_features;
    let w: &[T] = weight_out_by_in;
    let x_total: usize = x.len();
    let w_total: usize = w.len();
    let out_total: usize = out.len();
    let zero: T = ar.from_int(0);
    proof {
        assert(crate::arith::converts(ar, 0, zero));
    }
    if outs == 0 {
        assert(rows * 0 == 0) by (nonlinear_arith);
        return;
    }
    let tiled_rows: usize = rows - rows % 4;
    let tiled_out: usize = outs - outs % 4;
    let ghost b = bias_view(bias);
    let mut r: usize = 0;
    proof {
        assert forall|i: int|
            0 <= i < out@.len() && ((i / outs as int) < 0 || ((i / outs as int) < 4 && (i
                % outs as int) < 0)) implies linear_cell(
            ar,
            zero,
            x@,
            w@,
            b,
            n as int,
            i / outs as int,
            i % outs as int,
            #[trigger] out@[i],
        ) by {
            crate::grid::index(i, outs as int);
        }
    }
    while r < tiled_rows
        invariant
            r % 4 == 0,
            tiled_rows % 4 == 0,
            tiled_out % 4 == 0,
            r <= tiled_rows <= rows,
            tiled_out <= outs,
            outs > 0,
            x@.len() == rows * n == x_total,
            w@.len() == outs * n == w_total,
            out@.len() == rows * outs == out_total,
            b == bias_view(bias),
            bias matches Some(bs) ==> bs@.len() == outs,
            linear_region(
                ar,
                zero,
                x@,
                w@,
                b,
                n as int,
                outs as int,
                out@,
                r as int,
                4,
                0,
            ),
        decreases tiled_rows - r,
    {
        proof {
            four_rows(r as int, rows as int, n as int);
            four_rows(r as int, rows as int, outs as int);
        }
        let x0: usize = r * n;
        let mut o: usize = 0;
        while o < tiled_out
            invariant
                o % 4 == 0,
                tiled_out % 4 == 0,
                o <= tiled_out <= outs,
                outs > 0,
                r + 4 <= rows,
                x0 == r * n,
                x@.len() == rows * n == x_total,
                w@.len() == outs * n == w_total,
                out@.len() == rows * outs == out_total,
                b == bias_view(bias),
                bias matches Some(bs) ==> bs@.len() == outs,
                linear_region(
                    ar,
                    zero,
                    x@,
                    w@,
                    b,
                    n as int,
                    outs as int,
                    out@,
                    r as int,
                    4,
                    o as int,
                ),
            decreases tiled_out - o,
        {
            proof {
                four_rows(r as int, rows as int, n as int);
                four_rows(r as int, rows as int, outs as int);
                four_rows(o as int, outs as int, n as int);
            }
            let s0: T = start_of(zero, bias, o);
            let s1: T = start_of(zero, bias, o + 1);
            let s2: T = start_of(zero, bias, o + 2);
            let s3: T = start_of(zero, bias, o + 3);
            let mut acc0: (T, T, T, T) = (s0, s0, s0, s0);
            let mut acc1: (T, T, T, T) = (s1, s1, s1, s1);
            let mut acc2: (T, T, T, T) = (s2, s2, s2, s2);
            let mut acc3: (T, T, T, T) = (s3, s3, s3, s3);
            let w0: usize = o * n;
            let mut i: usize = 0;
            while i < n
                invariant
                    i <= n,
                    r + 4 <= rows,
                    o + 4 <= outs,
                    x0 == r * n,
                    w0 == o * n,
                    x@.len() == rows * n == x_total,
                    w@.len() == outs * n == w_total,
                    x0 + 4 * n <= x_total,
                    w0 + 4 * n <= w_total,
                    (r + 1) * n == r * n + n,
                    (r + 2) * n == r * n + 2 * n,
                    (r + 3) * n == r * n + 3 * n,
                    (r + 4) * n == r * n + 4 * n,
                    (o + 1) * n == o * n + n,
                    (o + 2) * n == o * n + 2 * n,
                    (o + 3) * n == o * n + 3 * n,
                    (o + 4) * n == o * n + 4 * n,
                    folds4(ar, s0, x@, w@, n as int, r as int, o as int, i as nat, acc0),
                    folds4(ar, s1, x@, w@, n as int, r as int, o + 1, i as nat, acc1),
                    folds4(ar, s2, x@, w@, n as int, r as int, o + 2, i as nat, acc2),
                    folds4(ar, s3, x@, w@, n as int, r as int, o + 3, i as nat, acc3),
                decreases n - i,
            {
                let xs: (T, T, T, T) = (
                    x[x0 + i],
                    x[x0 + n + i],
                    x[x0 + n + n + i],
                    x[x0 + n + n + n + i],
                );
                acc0 = step4(
                    ar,
                    Ghost(s0),
                    Ghost(x@),
                    Ghost(w@),
                    Ghost(n as int),
                    Ghost(r as int),
                    Ghost(o as int),
                    Ghost(i as int),
                    acc0,
                    xs,
                    w[w0 + i],
                );
                acc1 = step4(
                    ar,
                    Ghost(s1),
                    Ghost(x@),
                    Ghost(w@),
                    Ghost(n as int),
                    Ghost(r as int),
                    Ghost(o + 1),
                    Ghost(i as int),
                    acc1,
                    xs,
                    w[w0 + n + i],
                );
                acc2 = step4(
                    ar,
                    Ghost(s2),
                    Ghost(x@),
                    Ghost(w@),
                    Ghost(n as int),
                    Ghost(r as int),
                    Ghost(o + 2),
                    Ghost(i as int),
                    acc2,
                    xs,
                    w[w0 + n + n + i],
                );
                acc3 = step4(
                    ar,
                    Ghost(s3),
                    Ghost(x@),
                    Ghost(w@),
                    Ghost(n as int),
                    Ghost(r as int),
                    Ghost(o + 3),
                    Ghost(i as int),
                    acc3,
                    xs,
                    w[w0 + n + n + n + i],
                );
                i = i + 1;
            }
            put4(ar, Ghost(zero), x, w, bias, n, outs, out, r, o, acc0);
            put4(ar, Ghost(zero), x, w, bias, n, outs, out, r, o + 1, acc1);
            put4(ar, Ghost(zero), x, w, bias, n, outs, out, r, o + 2, acc2);
            put4(ar, Ghost(zero), x, w, bias, n, outs, out, r, o + 3, acc3);
            o = o + 4;
        }
        while o < outs
            invariant
                o <= outs,
                outs > 0,
                r + 4 <= rows,
                x0 == r * n,
                x@.len() == rows * n == x_total,
                w@.len() == outs * n == w_total,
                out@.len() == rows * outs == out_total,
                b == bias_view(bias),
                bias matches Some(bs) ==> bs@.len() == outs,
                linear_region(
                    ar,
                    zero,
                    x@,
                    w@,
                    b,
                    n as int,
                    outs as int,
                    out@,
                    r as int,
                    4,
                    o as int,
                ),
            decreases outs - o,
        {
            proof {
                four_rows(r as int, rows as int, n as int);
                four_rows(r as int, rows as int, outs as int);
                crate::grid::row_bound(o as int, outs as int, n as int);
            }
            let s: T = start_of(zero, bias, o);
            let w_at: usize = o * n;
            let acc: (T, T, T, T) = (
                dot(ar, s, x, x0, w, w_at, n),
                dot(ar, s, x, x0 + n, w, w_at, n),
                dot(ar, s, x, x0 + n + n, w, w_at, n),
                dot(ar, s, x, x0 + n + n + n, w, w_at, n),
            );
            put4(ar, Ghost(zero), x, w, bias, n, outs, out, r, o, acc);
            o = o + 1;
        }
        proof {
            assert forall|i: int|
                0 <= i < out@.len() && (i / outs as int) < r + 4 implies linear_cell(
                ar,
                zero,
                x@,
                w@,
                b,
                n as int,
                i / outs as int,
                i % outs as int,
                #[trigger] out@[i],
            ) by {
                crate::grid::index(i, outs as int);
            }
            assert forall|i: int|
                0 <= i < out@.len() && ((i / outs as int) < r + 4 || ((i / outs as int) < r + 8 && (i % outs as int) < 0)) implies linear_cell(
                ar,
                zero,
                x@,
                w@,
                b,
                n as int,
                i / outs as int,
                i % outs as int,
                #[trigger] out@[i],
            ) by {
                crate::grid::index(i, outs as int);
            }
        }
        r = r + 4;
    }
    proof {
        assert forall|i: int|
            0 <= i < out@.len() && ((i / outs as int) < r || ((i / outs as int) < r + 1 && (i % outs as int) < 0)) implies linear_cell(
            ar,
            zero,
            x@,
            w@,
            b,
            n as int,
            i / outs as int,
            i % outs as int,
            #[trigger] out@[i],
        ) by {
            crate::grid::index(i, outs as int);
        }
    }
    linear_rows(ar, zero, x, r, rows, n, w, outs, bias, out);
    proof {
        assert forall|i: int| 0 <= i < out@.len() implies linear_cell(
            ar,
            zero,
            x@,
            w@,
            b,
            n as int,
            i / outs as int,
            i % outs as int,
            #[trigger] out@[i],
        ) by {
            crate::grid::index_row(i, rows as int, outs as int);
        }
    }
}

/// The rows from `from` on, one output after the other.
fn linear_rows<T: Copy, A: Arith<T>>(
    ar: &A,
    zero: T,
    x: &[T],
    from: usize,
    rows: usize,
    n: usize,
    w: &[T],
    outs: usize,
    bias: Option<&[T]>,
    out: &mut [T],
)
    requires
        outs > 0,
        from <= rows,
        x@.len() == rows * n,
        w@.len() == outs * n,
        old(out)@.len() == rows * outs,
        bias matches Some(b) ==> b@.len() == outs,
        linear_region(
            ar,
            zero,
            x@,
            w@,
            bias_view(bias),
            n as int,
            outs as int,
            old(out)@,
            from as int,
            1,
            0,
        ),
    ensures
        final(out)@.len() == old(out)@.len(),
        linear_region(
            ar,
            zero,
            x@,
            w@,
            bias_view(bias),
            n as int,
            outs as int,
            final(out)@,
            rows as int,
            1,
            0,
        ),
{
    let x_total: usize = x.len();
    let w_total: usize = w.len();
    let out_total: usize = out.len();
    let ghost b = bias_view(bias);
    let mut r: usize = from;
    while r < rows
        invariant
            r <= rows,
            outs > 0,
            x@.len() == rows * n == x_total,
            w@.len() == outs * n == w_total,
            out@.len() == rows * outs == out_total,
            b == bias_view(bias),
            bias matches Some(bs) ==> bs@.len() == outs,
            linear_region(ar, zero, x@, w@, b, n as int, outs as int, out@, r as int, 1, 0),
        decreases rows - r,
    {
        proof {
            crate::grid::row_bound(r as int, rows as int, n as int);
            crate::grid::row_bound(r as int, rows as int, outs as int);
        }
        let x_at: usize = r * n;
        let out_at: usize = r * outs;
        let mut o: usize = 0;
        while o < outs
            invariant
                r < rows,
                o <= outs,
                outs > 0,
                x_at == r * n,
                out_at == r * outs,
                x_at + n <= x_total,
                out_at + outs <= out_total,
                x@.len() == rows * n == x_total,
                w@.len() == outs * n == w_total,
                out@.len() == rows * outs == out_total,
                b == bias_view(bias),
                bias matches Some(bs) ==> bs@.len() == outs,
                linear_region(
                    ar,
                    zero,
                    x@,
                    w@,
                    b,
                    n as int,
                    outs as int,
                    out@,
                    r as int,
                    1,
                    o as int,
                ),
            decreases outs - o,
        {
            proof {
                crate::grid::row_bound(o as int, outs as int, n as int);
                crate::grid::cell(r as int, o as int, outs as int);
            }
            let s: T = start_of(zero, bias, o);
            let v: T = dot(ar, s, x, x_at, w, o * n, n);
            let ghost before = out@;
            out[out_at + o] = v;
            proof {
                assert forall|i: int|
                    0 <= i < out@.len() && ((i / outs as int) < r || ((i / outs as int) < r + 1 && (i % outs as int) < o + 1)) implies linear_cell(
                    ar,
                    zero,
                    x@,
                    w@,
                    b,
                    n as int,
                    i / outs as int,
                    i % outs as int,
                    #[trigger] out@[i],
                ) by {
                    crate::grid::index(i, outs as int);
                    if i != out_at + o {
                        assert(out@[i] == before[i]);
                    }
                }
            }
            o = o + 1;
        }
        proof {
            assert forall|i: int|
                0 <= i < out@.len() && ((i / outs as int) < r + 1 || ((i / outs as int) < r + 2 && (i % outs as int) < 0)) implies linear_cell(
                ar,
                zero,
                x@,
                w@,
                b,
                n as int,
                i / outs as int,
                i % outs as int,
                #[trigger] out@[i],
            ) by {
                crate::grid::index(i, outs as int);
            }
        }
        r = r + 1;
    }
}

/// The length of an optional bias.
pub open spec fn bias_len<T>(bias: Option<&[T]>) -> Option<nat> {
    match bias {
        Some(b) => Some(b@.len()),
        None => None,
    }
}

/// The length of an optional bias.
pub fn bias_len_of<T>(bias: Option<&[T]>) -> (r: Option<usize>)
    ensures
        bias_len(bias) == (match r {
            Some(n) => Some(n as nat),
            None => None,
        }),
{
    match bias {
        Some(b) => Some(b.len()),
        None => None,
    }
}

/// Linear projection with a weight of one row per output.
pub fn linear_out_by_in<T: Copy, A: Arith<T>>(
    ar: &A,
    x: &[T],
    rows: usize,
    in_features: usize,
    weight_out_by_in: &[T],
    out_features: usize,
    bias: Option<&[T]>,
    out: &mut [T],
) -> (r: Result<(), OcelotlError>)
    ensures
        final(out)@.len() == old(out)@.len(),
        crate::shapes::refused(r) == crate::shapes::linear_refusal(
            x@.len(),
            rows,
            in_features,
            weight_out_by_in@.len(),
            out_features,
            bias_len(bias),
            old(out)@.len(),
        ),
        r is Err ==> final(out)@ == old(out)@,
        r is Ok ==> is_linear(
            ar,
            x@,
            weight_out_by_in@,
            bias_view(bias),
            in_features as int,
            out_features as int,
            final(out)@,
        ),
{
    match validate_linear_out_by_in(
        x.len(),
        rows,
        in_features,
        weight_out_by_in.len(),
        out_features,
        bias_len_of(bias),
        out.len(),
    ) {
        Ok(_) => {
            linear_out_by_in_compute(
                ar,
                x,
                rows,
                in_features,
                weight_out_by_in,
                out_features,
                bias,
                out,
            );
            Ok(())
        },
        Err(e) => Err(e),
    }
}

/// The sums of row `r` after `i` steps; those before `upto` are one step further.
spec fn linear_partial<T, A: Arith<T>>(
    ar: &A,
    zero: T,
    x: Seq<T>,
    w: Seq<T>,
    bias: Option<Seq<T>>,
    n: int,
    outs: int,
    r: int,
    out: Seq<T>,
    i: int,
    upto: int,
) -> bool {
    forall|y: int|
        r * outs <= y < r * outs + outs ==> crate::arith::folds(
            crate::arith::dot_steps(ar, row(x, n, r), row(w, n, y - r * outs)),
            (if y - r * outs < upto {
                i + 1
            } else {
                i
            }) as nat,
            start(zero, bias, y - r * outs),
            #[trigger] out[y],
        )
}

/// The projection of every row, one input after the other: each input is added,
/// scaled by its weights, to all outputs of the row.
pub fn linear_out_by_in_optimized_compute<T: Copy, A: Arith<T>>(
    ar: &A,
    x: &[T],
    rows: usize,
    in_features: usize,
    weight_out_by_in: &[T],
    out_features: usize,
    bias: Option<&[T]>,
    out: &mut [T],
)
    requires
        x@.len() == rows * in_features,
        weight_out_by_in@.len() == out_features * in_features,
        old(out)@.len() == rows * out_features,
        bias matches Some(b) ==> b@.len() == out_features,
    ensures
        final(out)@.len() == old(out)@.len(),
        is_linear(
            ar,
            x@,
            weight_out_by_in@,
            bias_view(bias),
            in_features as int,
            out_features as int,
            final(out)@,
        ),
{
    let n: usize = in_features;
    let outs: usize = out_features;
    let w: &[T] = weight_out_by_in;
    let x_total: usize = x.len();
    let w_total: usize = w.len();
    let out_total: usize = out.len();
    let zero: T = ar.from_int(0);
    let ghost b = bias_view(bias);
    proof {
        assert(crate::arith::converts(ar, 0, zero));
    }
    let mut r: usize = 0;
    while r < rows
        invariant
            r <= rows,
            x@.len() == rows * n == x_total,
            w@.len() == outs * n == w_total,
            out@.len() == rows * outs == out_total,
            b == bias_view(bias),
            bias matches Some(bs) ==> bs@.len() == outs,
            forall|y: int|
                0 <= y < r * outs ==> linear_cell(
                    ar,
                    zero,
                    x@,
                    w@,
                    b,
                    n as int,
                    y / outs as int,
                    y % outs as int,
                    #[trigger] out@[y],
                ),
        decreases rows - r,
    {
        proof {
            crate::grid::row_bound(r as int, rows as int, n as int);
            crate::grid::row_bound(r as int, rows as int, outs as int);
        }
        let x_at: usize = r * n;
        let out_at: usize = r * outs;
        let mut o: usize = 0;
        while o < outs
            invariant
                r < rows,
                o <= outs,
                out_at == r * outs,
                out_at + outs <= out_total,
                out@.len() == out_total,
                b == bias_view(bias),
                bias matches Some(bs) ==> bs@.len() == outs,
                forall|y: int|
                    0 <= y < r * outs ==> linear_cell(
                        ar,
                        zero,
                        x@,
                        w@,
                        b,
                        n as int,
                        y / outs as int,
                        y % outs as int,
                        #[trigger] out@[y],
                    ),
                forall|y: int|
                    r * outs <= y < r * outs + o ==> #[trigger] out@[y] == start(
                        zero,
                        b,
                        y - r * outs,
                    ),
            decreases outs - o,
        {
            out[out_at + o] = start_of(zero, bias, o);
            o = o + 1;
        }
        let mut i: usize = 0;
        while i < n
            invariant
                r < rows,
                i <= n,
                x_at == r * n,
                out_at == r * outs,
                x_at + n <= x_total,
                out_at + outs <= out_total,
                x@.len() == rows * n == x_total,
                w@.len() == outs * n == w_total,
                out@.len() == rows * outs == out_total,
                forall|y: int|
                    0 <= y < r * outs ==> linear_cell(
                        ar,
                        zero,
                        x@,
                        w@,
                        b,
                        n as int,
                        y / outs as int,
                        y % outs as int,
                        #[trigger] out@[y],
                    ),
                linear_partial(
                    ar,
                    zero,
                    x@,
                    w@,
                    b,
                    n as int,
                    outs as int,
                    r as int,
                    out@,
                    i as int,
                    0,
                ),
            decreases n - i,
        {
            let x_value: T = x[x_at + i];
            let mut o2: usize = 0;
            while o2 < outs
                invariant
                    r < rows,
                    i < n,
                    o2 <= outs,
                    x_at == r * n,
                    out_at == r * outs,
                    x_at + n <= x_total,
                    out_at + outs <= out_total,
                    x_value == x@[x_at + i],
                    x@.len() == rows * n == x_total,
                    w@.len() == outs * n == w_total,
                    out@.len() == rows * outs == out_total,
                    forall|y: int|
                        0 <= y < r * outs ==> linear_cell(
                            ar,
                            zero,
                            x@,
                            w@,
                            b,
                            n as int,
                            y / outs as int,
                            y % outs as int,
                            #[trigger] out@[y],
                        ),
                    linear_partial(
                        ar,
                        zero,
                        x@,
                        w@,
                        b,
                        n as int,
                        outs as int,
                        r as int,
                        out@,
                        i as int,
                        o2 as int,
                    ),
                decreases outs - o2,
            {
                proof {
                    crate::grid::row_bound(o2 as int, outs as int, n as int);
                }
                let ghost before = out@;
                let acc: T = out[out_at + o2];
                let next: T = mul_add(ar, acc, x_value, w[o2 * n + i]);
                out[out_at + o2] = next;
                proof {
                    let here = out_at + o2;
                    let steps = crate::arith::dot_steps(
                        ar,
                        row(x@, n as int, r as int),
                        row(w@, n as int, here - r * outs),
                    );
                    assert(crate::arith::folds(
                        steps,
                        i as nat,
                        start(zero, b, here - r * outs),
                        before[here],
                    ));
                    crate::arith::fold_step(
                        steps,
                        i as nat,
                        start(zero, b, here - r * outs),
                        acc,
                        next,
                    );
                    assert forall|y: int| r * outs <= y < r * outs + outs implies
                        crate::arith::folds(
                        crate::arith::dot_steps(
                            ar,
                            row(x@, n as int, r as int),
                            row(w@, n as int, y - r * outs),
                        ),
                        (if y - r * outs < o2 + 1 {
                            i + 1
                        } else {
                            i as int
                        }) as nat,
                        start(zero, b, y - r * outs),
                        #[trigger] out@[y],
                    ) by {
                        if y != here {
                            assert(out@[y] == before[y]);
                        }
                    }
                    assert forall|y: int| 0 <= y < r * outs implies linear_cell(
                        ar,
                        zero,
                        x@,
                        w@,
                        b,
                        n as int,
                        y / outs as int,
                        y % outs as int,
                        #[trigger] out@[y],
                    ) by {
                        assert(out@[y] == before[y]);
                    }
                }
                o2 = o2 + 1;
            }
            i = i + 1;
        }
        proof {
            assert forall|y: int| 0 <= y < (r + 1) * outs implies linear_cell(
                ar,
                zero,
                x@,
                w@,
                b,
                n as int,
                y / outs as int,
                y % outs as int,
                #[trigger] out@[y],
            ) by {
                if y >= r * outs {
                    crate::grid::cell(r as int, y - r * outs, outs as int);
                }
            }
        }
        r = r + 1;
    }
}

/// Linear projection, one input after the other.
pub fn linear_out_by_in_optimized<T: Copy, A: Arith<T>>(
    ar: &A,
    x: &[T],
    rows: usize,
    in_features: usize,
    weight_out_by_in: &[T],
    out_features: usize,
    bias: Option<&[T]>,
    out: &mut [T],
) -> (r: Result<(), OcelotlError>)
    ensures
        final(out)@.len() == old(out)@.len(),
        crate::shapes::refused(r) == crate::shapes::linear_refusal(
            x@.len(),
            rows,
            in_features,
            weight_out_by_in@.len(),
            out_features,
            bias_len(bias),
            old(out)@.len(),
        ),
        r is Err ==> final(out)@ == old(out)@,
        r is Ok ==> is_linear(
            ar,
            x@,
            weight_out_by_in@,
            bias_view(bias),
            in_features as int,
            out_features as int,
            final(out)@,
        ),
{
    match validate_linear_out_by_in(
        x.len(),
        rows,
        in_features,
        weight_out_by_in.len(),
        out_features,
        bias_len_of(bias),
        out.len(),
    ) {
        Ok(_) => {
            linear_out_by_in_optimized_compute(
                ar,
                x,
                rows,
                in_features,
                weight_out_by_in,
                out_features,
                bias,
                out,
            );
            Ok(())
        },
        Err(e) => Err(e),
    }
}

/// Two projections of the same operands are the same, whichever way they were
/// computed, if the arithmetic always gives the same result.
pub proof fn projections_agree<T, A: Arith<T>>(
    ar: &A,
    x: Seq<T>,
    w: Seq<T>,
    bias: Option<Seq<T>>,
    n: int,
    outs: int,
    out1: Seq<T>,
    out2: Seq<T>,
)
    requires
        0 <= n,
        0 < outs,
        out1.len() == out2.len(),
        crate::arith::deterministic(ar),
        is_linear(ar, x, w, bias, n, outs, out1),
        is_linear(ar, x, w, bias, n, outs, out2),
    ensures
        out1 == out2,
{
    let z1 = choose|zero: T| #[trigger]
        crate::arith::converts(ar, 0, zero) && forall|i: int|
            0 <= i < out1.len() ==> linear_cell(
                ar,
                zero,
                x,
                w,
                bias,
                n,
                i / outs,
                i % outs,
                #[trigger] out1[i],
            );
    let z2 = choose|zero: T| #[trigger]
        crate::arith::converts(ar, 0, zero) && forall|i: int|
            0 <= i < out2.len() ==> linear_cell(
                ar,
                zero,
                x,
                w,
                bias,
                n,
                i / outs,
                i % outs,
                #[trigger] out2[i],
            );
    assert(z1 == z2);
    crate::arith::accumulates_unique(ar);
    assert forall|i: int| 0 <= i < out1.len() implies out1[i] == out2[i] by {
        let (r, o) = (i / outs, i % outs);
        assert(linear_cell(ar, z1, x, w, bias, n, r, o, out1[i]));
        assert(linear_cell(ar, z1, x, w, bias, n, r, o, out2[i]));
        crate::arith::fold_unique(
            crate::arith::dot_steps(ar, row(x, n, r), row(w, n, o)),
            row(x, n, r).len(),
            start(z1, bias, o),
            out1[i],
            out2[i],
        );
    }
    assert(out1 =~= out2);
}

/// A projection without a bias is the product with the transposed weight, so a
/// weight of one row per output needs no transposition.
pub proof fn projection_is_product_with_transpose<T, A: Arith<T>>(
    ar: &A,
    x: Seq<T>,
    w: Seq<T>,
    rows: int,
    n: int,
    outs: int,
    out: Seq<T>,
)
    requires
        0 <= rows,
        0 <= n,
        0 < outs,
        x.len() == rows * n,
        w.len() == outs * n,
        out.len() == rows * outs,
    ensures
        is_linear(ar, x, w, None, n, outs, out) <==> crate::dense::is_product(
            ar,
            x,
            crate::layout::transposed(w, outs, n),
            n,
            outs,
            out,
        ),
{
    let wt = crate::layout::transposed(w, outs, n);
    assert forall|zero: T, i: int| 0 <= i < out.len() implies (#[trigger] linear_cell(
        ar,
        zero,
        x,
        w,
        None,
        n,
        i / outs,
        i % outs,
        out[i],
    ) <==> crate::dense::matmul_cell(ar, zero, x, wt, n, outs, i / outs, i % outs, out[i])) by {
        crate::grid::index_row(i, rows, outs);
        let (r, o) = (i / outs, i % outs);
        crate::grid::row_bound(r, rows, n);
        crate::grid::row_bound(o, outs, n);
        let s1 = crate::arith::dot_steps(ar, row(x, n, r), row(w, n, o));
        let s2 = crate::dense::matmul_steps(ar, x, wt, n, outs, r, o);
        assert forall|p: int, s: T, t: T| 0 <= p < n implies #[trigger] s1(p, s, t) == s2(
            p,
            s,
            t,
        ) by {
            crate::grid::cell(p, o, outs);
            crate::grid::row_bound(p, n, outs);
            assert(n * outs == outs * n) by (nonlinear_arith);
            assert(wt[p * outs + o] == w[o * n + p]);
            assert(row(w, n, o)[p] == w[o * n + p]);
            assert(row(x, n, r)[p] == x[r * n + p]);
        }
        if crate::arith::folds(s1, n as nat, zero, out[i]) {
            crate::arith::folds_weaken(s1, s2, n as nat, zero, out[i]);
        }
        if crate::arith::folds(s2, n as nat, zero, out[i]) {
            assert forall|p: int, s: T, t: T| 0 <= p < n && #[trigger] s2(p, s, t) implies s1(
                p,
                s,
                t,
            ) by {}
            crate::arith::folds_weaken(s2, s1, n as nat, zero, out[i]);
        }
    }
    if is_linear(ar, x, w, None, n, outs, out) {
        let zero = choose|zero: T| #[trigger]
            crate::arith::converts(ar, 0, zero) && forall|i: int|
                0 <= i < out.len() ==> linear_cell(
                    ar,
                    zero,
                    x,
                    w,
                    None,
                    n,
                    i / outs,
                    i % outs,
                    #[trigger] out[i],
                );
        assert(crate::dense::matmul_cells(ar, zero, x, wt, n, outs, out, out.len() as int));
    }
    if crate::dense::is_product(ar, x, wt, n, outs, out) {
        let zero = choose|zero: T| #[trigger]
            crate::arith::converts(ar, 0, zero) && crate::dense::matmul_cells(
                ar,
                zero,
                x,
                wt,
                n,
                outs,
                out,
                out.len() as int,
            );
        assert forall|i: int| 0 <= i < out.len() implies linear_cell(
            ar,
            zero,
            x,
            w,
            None,
            n,
            i / outs,
            i % outs,
            #[trigger] out[i],
        ) by {}
    }
}

} // verus!
