use vstd::prelude::*;

use crate::arith::Arith;
use crate::dense::{matmul_compute, matmul_optimized_compute};
use crate::lanes::linear_out_by_in_compute_avx2;
use crate::linear::{linear_out_by_in_compute, linear_out_by_in_optimized_compute};
use crate::modes::CpuKernelMode;

verus! {

/// `a / b`, rounded up.
pub open spec fn ceil(a: nat, b: nat) -> nat {
    if a % b == 0 {
        a / b
    } else {
        a / b + 1
    }
}

/// The larger of `n` and one.
pub open spec fn at_least_one(n: nat) -> nat {
    if n == 0 {
        1
    } else {
        n
    }
}

fn div_ceil(a: usize, b: usize) -> (r: usize)
    requires
        b > 0,
    ensures
        r == ceil(a as nat, b as nat),
        r <= a,
{
    proof {
        ceil_bound(a as nat, b as nat);
    }
    if a % b == 0 {
        a / b
    } else {
        a / b + 1
    }
}

/// `ceil(a, b)` is the least number of `b`s that make up `a`.
pub proof fn ceil_bound(a: nat, b: nat)
    requires
        b > 0,
    ensures
        a <= ceil(a, b) * b,
        a > 0 ==> ceil(a, b) * b < a + b,
        ceil(a, b) <= a,
        a > 0 ==> ceil(a, b) > 0,
{
    crate::grid::index(a as int, b as int);
    let (q, c) = (a / b, ceil(a, b));
    assert(a <= c * b && (a > 0 ==> c * b < a + b)) by (nonlinear_arith)
        requires
            a == q * b + a % b,
            0 <= a % b < b,
            c == if a % b == 0 {
                q
            } else {
                q + 1
            },
    ;
    assert(c <= a) by (nonlinear_arith)
        requires
            a == q * b + a % b,
            0 <= a % b < b,
            b > 0,
            c == if a % b == 0 {
                q
            } else {
                q + 1
            },
    ;
    if a > 0 && c == 0 {
        assert(0 * b == 0) by (nonlinear_arith);
    }
}

/// The rows that each thread gets.
pub open spec fn chunk_rows(rows: nat, threads: nat) -> nat {
    at_least_one(ceil(rows, at_least_one(threads)))
}

/// The rows that each thread gets, in whole tiles of four.
pub open spec fn tiled_chunk_rows(rows: nat, threads: nat) -> nat {
    at_least_one(ceil(ceil(rows, 4), at_least_one(threads))) * 4
}

/// The rows that each of `threads` threads gets; zero threads count as one.
pub fn rows_per_chunk(rows: usize, threads: usize) -> (r: usize)
    ensures
        r == chunk_rows(rows as nat, threads as nat),
        r > 0,
{
    let t: usize = if threads == 0 {
        1
    } else {
        threads
    };
    let c: usize = div_ceil(rows, t);
    if c == 0 {
        1
    } else {
        c
    }
}

/// The rows that each of `threads` threads gets, in whole tiles of four.
pub fn tiled_rows_per_chunk(rows: usize, threads: usize) -> (r: usize)
    requires
        tiled_chunk_rows(rows as nat, threads as nat) <= usize::MAX,
    ensures
        r == tiled_chunk_rows(rows as nat, threads as nat),
        r > 0,
{
    let t: usize = if threads == 0 {
        1
    } else {
        threads
    };
    let c: usize = div_ceil(div_ceil(rows, 4), t);
    let tiles: usize = if c == 0 {
        1
    } else {
        c
    };
    tiles * 4
}

/// There are never more chunks than threads.
pub proof fn chunks_fit_threads(rows: nat, threads: nat)
    ensures
        ceil(rows, chunk_rows(rows, threads)) <= at_least_one(threads),
        ceil(rows, tiled_chunk_rows(rows, threads)) <= at_least_one(threads),
{
    let t = at_least_one(threads);
    let c = chunk_rows(rows, threads);
    ceil_bound(rows, t);
    ceil_bound(rows, c);
    if rows > 0 {
        assert(rows <= t * c) by (nonlinear_arith)
            requires
                rows <= ceil(rows, t) * t,
                c == ceil(rows, t),
        ;
        quotient_bound(rows, c, t);
    }
    let tiles = ceil(rows, 4);
    ceil_bound(rows, 4);
    ceil_bound(tiles, t);
    let d = at_least_one(ceil(tiles, t));
    ceil_bound(rows, d * 4);
    if rows > 0 {
        assert(rows <= t * (d * 4)) by (nonlinear_arith)
            requires
                rows <= tiles * 4,
                tiles <= d * t,
        ;
        quotient_bound(rows, d * 4, t);
    }
}

proof fn quotient_bound(a: nat, b: nat, q: nat)
    requires
        b > 0,
        a <= q * b,
    ensures
        ceil(a, b) <= q,
{
    ceil_bound(a, b);
    let c = ceil(a, b);
    if a > 0 && c > q {
        assert(c * b >= q * b + b) by (nonlinear_arith)
            requires
                c >= q + 1,
        ;
    }
    if a == 0 {
        assert(0nat % b == 0);
        vstd::arithmetic::div_mod::lemma_div_basics(b as int);
    }
}

/// Rows `first` to `first + count - 1` of a matrix with rows of `n` values.
pub open spec fn rows_of<T>(m: Seq<T>, n: int, first: int, count: int) -> Seq<T> {
    m.subrange(first * n, first * n + count * n)
}

/// The rows of chunk `c` where each chunk has `size` rows and there are `rows`.
pub open spec fn chunk_count(rows: int, size: int, c: int) -> int {
    if c * size + size <= rows {
        size
    } else {
        rows - c * size
    }
}

/// The chunk of a row, and its place in it.
pub proof fn chunk_row(rows: int, size: int, n: int, r: int)
    requires
        0 <= r < rows,
        0 < size,
        0 <= n,
    ensures
        0 <= r / size,
        0 <= r % size < chunk_count(rows, size, r / size),
        r == r / size * size + r % size,
        0 <= r / size * size,
        r / size * size + chunk_count(rows, size, r / size) <= rows,
{
    crate::grid::index(r, size);
    let c = r / size;
    assert(0 <= c * size) by (nonlinear_arith)
        requires
            0 <= c,
            0 < size,
    ;
}

/// The rows of a chunk lie inside the matrix.
pub proof fn chunk_cells(first: int, count: int, rows: int, n: int, r: int)
    requires
        0 <= first,
        0 <= r < count,
        first + count <= rows,
        0 <= n,
    ensures
        0 <= first * n,
        0 <= r * n,
        r * n + n <= count * n,
        first * n + count * n <= rows * n,
        first * n + r * n == (first + r) * n,
{
    crate::grid::row_bound(r, count, n);
    assert(0 <= first * n) by (nonlinear_arith)
        requires
            0 <= first,
            0 <= n,
    ;
    assert(first * n + count * n <= rows * n) by (nonlinear_arith)
        requires
            first + count <= rows,
            0 <= n,
    ;
    assert(first * n + r * n == (first + r) * n) by (nonlinear_arith);
}

/// If every chunk of the output is the projection of the same chunk of the
/// input, then the whole output is the projection of the whole input, in
/// whatever order the chunks were computed.
pub proof fn chunked_projection<T, A: Arith<T>>(
    ar: &A,
    x: Seq<T>,
    w: Seq<T>,
    bias: Option<Seq<T>>,
    rows: int,
    n: int,
    outs: int,
    size: int,
    out: Seq<T>,
)
    requires
        crate::arith::deterministic(ar),
        0 <= rows,
        0 <= n,
        0 < outs,
        0 < size,
        x.len() == rows * n,
        out.len() == rows * outs,
        exists|zero: T| #[trigger] crate::arith::converts(ar, 0, zero),
        forall|c: int|
            0 <= c && c * size < rows ==> #[trigger] crate::linear::is_linear(
                ar,
                rows_of(x, n, c * size, chunk_count(rows, size, c)),
                w,
                bias,
                n,
                outs,
                rows_of(out, outs, c * size, chunk_count(rows, size, c)),
            ),
    ensures
        crate::linear::is_linear(ar, x, w, bias, n, outs, out),
{
    let zero = choose|zero: T| #[trigger] crate::arith::converts(ar, 0, zero);
    assert forall|i: int| 0 <= i < out.len() implies crate::linear::linear_cell(
        ar,
        zero,
        x,
        w,
        bias,
        n,
        i / outs,
        i % outs,
        #[trigger] out[i],
    ) by {
        crate::grid::index_row(i, rows, outs);
        let (r, o) = (i / outs, i % outs);
        let c = r / size;
        let count = chunk_count(rows, size, c);
        chunk_row(rows, size, n, r);
        let first = c * size;
        let t = r % size;
        chunk_cells(first, count, rows, n, t);
        chunk_cells(first, count, rows, outs, t);
        let xc = rows_of(x, n, first, count);
        let oc = rows_of(out, outs, first, count);
        assert(crate::linear::is_linear(ar, xc, w, bias, n, outs, oc));
        let z = choose|zero: T| #[trigger]
            crate::arith::converts(ar, 0, zero) && forall|i: int|
                0 <= i < oc.len() ==> crate::linear::linear_cell(
                    ar,
                    zero,
                    xc,
                    w,
                    bias,
                    n,
                    i / outs,
                    i % outs,
                    #[trigger] oc[i],
                );
        assert(z == zero);
        let local = t * outs + o;
        crate::grid::cell(t, o, outs);
        assert(oc[local] == out[i]);
        assert(crate::linear::row(xc, n, t) =~= crate::linear::row(x, n, r));
        assert(crate::linear::linear_cell(ar, z, xc, w, bias, n, t, o, oc[local]));
    }
}

/// Projecting the rows in chunks of any size gives, value for value, what
/// projecting all of them at once gives, if the arithmetic always gives the same
/// result.
pub proof fn split_projections_agree<T, A: Arith<T>>(
    ar: &A,
    x: Seq<T>,
    w: Seq<T>,
    bias: Option<Seq<T>>,
    rows: int,
    n: int,
    outs: int,
    size: int,
    split: Seq<T>,
    whole: Seq<T>,
)
    requires
        crate::arith::deterministic(ar),
        0 <= rows,
        0 <= n,
        0 < outs,
        0 < size,
        x.len() == rows * n,
        split.len() == rows * outs,
        whole.len() == split.len(),
        forall|c: int|
            0 <= c && c * size < rows ==> #[trigger] crate::linear::is_linear(
                ar,
                rows_of(x, n, c * size, chunk_count(rows, size, c)),
                w,
                bias,
                n,
                outs,
                rows_of(split, outs, c * size, chunk_count(rows, size, c)),
            ),
        crate::linear::is_linear(ar, x, w, bias, n, outs, whole),
    ensures
        split == whole,
{
    chunked_projection(ar, x, w, bias, rows, n, outs, size, split);
    crate::linear::projections_agree(ar, x, w, bias, n, outs, split, whole);
}

/// If every chunk of the output is the product of the same chunk of the left
/// matrix, then the whole output is the whole product.
pub proof fn chunked_product<T, A: Arith<T>>(
    ar: &A,
    a: Seq<T>,
    b: Seq<T>,
    rows: int,
    k: int,
    n: int,
    size: int,
    out: Seq<T>,
)
    requires
        crate::arith::deterministic(ar),
        0 <= rows,
        0 <= k,
        0 < n,
        0 < size,
        a.len() == rows * k,
        out.len() == rows * n,
        exists|zero: T| #[trigger] crate::arith::converts(ar, 0, zero),
        forall|c: int|
            0 <= c && c * size < rows ==> #[trigger] crate::dense::is_product(
                ar,
                rows_of(a, k, c * size, chunk_count(rows, size, c)),
                b,
                k,
                n,
                rows_of(out, n, c * size, chunk_count(rows, size, c)),
            ),
    ensures
        crate::dense::is_product(ar, a, b, k, n, out),
{
    let zero = choose|zero: T| #[trigger] crate::arith::converts(ar, 0, zero);
    assert forall|i: int| 0 <= i < out.len() implies crate::dense::matmul_cell(
        ar,
        zero,
        a,
        b,
        k,
        n,
        i / n,
        i % n,
        #[trigger] out[i],
    ) by {
        crate::grid::index_row(i, rows, n);
        let (r, o) = (i / n, i % n);
        let c = r / size;
        let count = chunk_count(rows, size, c);
        chunk_row(rows, size, n, r);
        let first = c * size;
        let t = r % size;
        chunk_cells(first, count, rows, k, t);
        chunk_cells(first, count, rows, n, t);
        let ac = rows_of(a, k, first, count);
        let oc = rows_of(out, n, first, count);
        assert(crate::dense::is_product(ar, ac, b, k, n, oc));
        let z = choose|zero: T| #[trigger]
            crate::arith::converts(ar, 0, zero) && crate::dense::matmul_cells(
                ar,
                zero,
                ac,
                b,
                k,
                n,
                oc,
                oc.len() as int,
            );
        assert(z == zero);
        let local = t * n + o;
        crate::grid::cell(t, o, n);
        assert(oc[local] == out[i]);
        assert(crate::dense::matmul_cell(ar, z, ac, b, k, n, t, o, oc[local]));
        let s1 = crate::dense::matmul_steps(ar, ac, b, k, n, t, o);
        let s2 = crate::dense::matmul_steps(ar, a, b, k, n, r, o);
        assert forall|p: int, u: T, v: T| 0 <= p < k && #[trigger] s1(p, u, v) implies s2(
            p,
            u,
            v,
        ) by {
            assert(ac[t * k + p] == a[r * k + p]);
        }
        crate::arith::folds_weaken(s1, s2, k as nat, z, oc[local]);
    }
    assert(crate::dense::matmul_cells(ar, zero, a, b, k, n, out, out.len() as int));
}

/// The output is the projection of every row, as a mode computes it.
pub open spec fn is_projection<T, A: Arith<T>>(
    ar: &A,
    mode: CpuKernelMode,
    x: Seq<T>,
    w: Seq<T>,
    bias: Option<Seq<T>>,
    n: int,
    rows: int,
    outs: int,
    out: Seq<T>,
) -> bool {
    match mode {
        CpuKernelMode::Scalar | CpuKernelMode::Optimized => crate::linear::is_linear(
            ar,
            x,
            w,
            bias,
            n,
            outs,
            out,
        ),
        CpuKernelMode::Avx2 => crate::lanes::is_lane_linear(ar, x, w, bias, n, rows, outs, out),
    }
}

/// Projects every row, as a mode computes it.
pub fn project<T: Copy, A: Arith<T>>(
    ar: &A,
    mode: CpuKernelMode,
    x: &[T],
    rows: usize,
    in_features: usize,
    weight_out_by_in: &[T],
    out_features: usize,
    bias: Option<&[T]>,
    out: &mut [T],
)
    requires
        x@.len() == rows * in_features,
        weight_out_by_in@.len() == out_features * in_features,
        old(out)@.len() == rows * out_features,
        bias matches Some(b) ==> b@.len() == out_features,
    ensures
        final(out)@.len() == old(out)@.len(),
        is_projection(
            ar,
            mode,
            x@,
            weight_out_by_in@,
            crate::linear::bias_view(bias),
            in_features as int,
            rows as int,
            out_features as int,
            final(out)@,
        ),
{
    match mode {
        CpuKernelMode::Scalar => linear_out_by_in_compute(
            ar,
            x,
            rows,
            in_features,
            weight_out_by_in,
            out_features,
            bias,
            out,
        ),
        CpuKernelMode::Optimized => linear_out_by_in_optimized_compute(
            ar,
            x,
            rows,
            in_features,
            weight_out_by_in,
            out_features,
            bias,
            out,
        ),
        CpuKernelMode::Avx2 => linear_out_by_in_compute_avx2(
            ar,
            x,
            rows,
            in_features,
            weight_out_by_in,
            out_features,
            bias,
            out,
        ),
    }
}

/// If every chunk of whole tiles is projected in eight lanes, then the whole is:
/// the chunks have their rows in the same tiles as the whole.
pub proof fn chunked_lane_projection<T, A: Arith<T>>(
    ar: &A,
    x: Seq<T>,
    w: Seq<T>,
    bias: Option<Seq<T>>,
    rows: int,
    n: int,
    outs: int,
    size: int,
    out: Seq<T>,
)
    requires
        crate::arith::deterministic(ar),
        0 <= rows,
        0 <= n,
        0 < outs,
        0 < size,
        size % 4 == 0,
        x.len() == rows * n,
        out.len() == rows * outs,
        exists|zero: T| #[trigger] crate::arith::converts(ar, 0, zero),
        forall|c: int|
            0 <= c && c * size < rows ==> #[trigger] crate::lanes::is_lane_linear(
                ar,
                rows_of(x, n, c * size, chunk_count(rows, size, c)),
                w,
                bias,
                n,
                chunk_count(rows, size, c),
                outs,
                rows_of(out, outs, c * size, chunk_count(rows, size, c)),
            ),
    ensures
        crate::lanes::is_lane_linear(ar, x, w, bias, n, rows, outs, out),
{
    let zero = choose|zero: T| #[trigger] crate::arith::converts(ar, 0, zero);
    assert forall|i: int| 0 <= i < out.len() implies crate::lanes::lane_linear_cell(
        ar,
        zero,
        x,
        w,
        bias,
        n,
        rows,
        outs,
        i / outs,
        i % outs,
        #[trigger] out[i],
    ) by {
        crate::grid::index_row(i, rows, outs);
        let (r, o) = (i / outs, i % outs);
        let c = r / size;
        let count = chunk_count(rows, size, c);
        chunk_row(rows, size, n, r);
        let first = c * size;
        let t = r % size;
        chunk_cells(first, count, rows, n, t);
        chunk_cells(first, count, rows, outs, t);
        let xc = rows_of(x, n, first, count);
        let oc = rows_of(out, outs, first, count);
        assert(crate::lanes::is_lane_linear(ar, xc, w, bias, n, count, outs, oc));
        let z = choose|zero: T| #[trigger]
            crate::arith::converts(ar, 0, zero) && forall|i: int|
                0 <= i < oc.len() ==> crate::lanes::lane_linear_cell(
                    ar,
                    zero,
                    xc,
                    w,
                    bias,
                    n,
                    count,
                    outs,
                    i / outs,
                    i % outs,
                    #[trigger] oc[i],
                );
        assert(z == zero);
        let local = t * outs + o;
        crate::grid::cell(t, o, outs);
        assert(oc[local] == out[i]);
        assert(crate::linear::row(xc, n, t) =~= crate::linear::row(x, n, r));
        assert(first % 4 == 0) by {
            let q = size / 4;
            assert(size == 4 * q);
            assert(c * size == 4 * (c * q)) by (nonlinear_arith)
                requires
                    size == 4 * q,
            ;
        }
        assert(crate::lanes::in_tiles(count, outs, t, o) == crate::lanes::in_tiles(
            rows,
            outs,
            r,
            o,
        ));
        assert(crate::lanes::lane_linear_cell(
            ar,
            z,
            xc,
            w,
            bias,
            n,
            count,
            outs,
            t,
            o,
            oc[local],
        ));
    }
}

/// The outputs `first` to `first + count - 1` of an optional bias.
pub open spec fn bias_of<T>(bias: Option<Seq<T>>, first: int, count: int) -> Option<Seq<T>> {
    match bias {
        Some(b) => Some(b.subrange(first, first + count)),
        None => None,
    }
}

/// If every chunk of the outputs of one row is projected with its own weights,
/// then the whole row is.
pub proof fn chunked_outputs<T, A: Arith<T>>(
    ar: &A,
    x: Seq<T>,
    w: Seq<T>,
    bias: Option<Seq<T>>,
    n: int,
    outs: int,
    size: int,
    out: Seq<T>,
)
    requires
        crate::arith::deterministic(ar),
        0 <= n,
        0 < size,
        x.len() == n,
        w.len() == outs * n,
        out.len() == outs,
        bias matches Some(b) ==> b.len() == outs,
        exists|zero: T| #[trigger] crate::arith::converts(ar, 0, zero),
        forall|c: int|
            0 <= c && c * size < outs ==> #[trigger] crate::linear::is_linear(
                ar,
                x,
                rows_of(w, n, c * size, chunk_count(outs, size, c)),
                bias_of(bias, c * size, chunk_count(outs, size, c)),
                n,
                chunk_count(outs, size, c),
                out.subrange(c * size, c * size + chunk_count(outs, size, c)),
            ),
    ensures
        crate::linear::is_linear(ar, x, w, bias, n, outs, out),
{
    let zero = choose|zero: T| #[trigger] crate::arith::converts(ar, 0, zero);
    assert forall|i: int| 0 <= i < out.len() implies crate::linear::linear_cell(
        ar,
        zero,
        x,
        w,
        bias,
        n,
        i / outs,
        i % outs,
        #[trigger] out[i],
    ) by {
        crate::grid::cell(0, i, outs);
        let c = i / size;
        let count = chunk_count(outs, size, c);
        chunk_row(outs, size, n, i);
        let first = c * size;
        let t = i % size;
        chunk_cells(first, count, outs, n, t);
        let wc = rows_of(w, n, first, count);
        let bc = bias_of(bias, first, count);
        let oc = out.subrange(first, first + count);
        assert(crate::linear::is_linear(ar, x, wc, bc, n, count, oc));
        let z = choose|zero: T| #[trigger]
            crate::arith::converts(ar, 0, zero) && forall|i: int|
                0 <= i < oc.len() ==> crate::linear::linear_cell(
                    ar,
                    zero,
                    x,
                    wc,
                    bc,
                    n,
                    i / count,
                    i % count,
                    #[trigger] oc[i],
                );
        assert(z == zero);
        crate::grid::cell(0, t, count);
        assert(oc[t] == out[i]);
        assert(crate::linear::row(wc, n, t) =~= crate::linear::row(w, n, i));
        assert(crate::linear::linear_cell(ar, z, x, wc, bc, n, 0, t, oc[t]));
    }
}

/// Computes one chunk of a projection of one row: the outputs from `first` on, as
/// many as `out_chunk` has room for.
pub fn linear_output_chunk<T: Copy, A: Arith<T>>(
    ar: &A,
    mode: CpuKernelMode,
    x: &[T],
    first: usize,
    weight_out_by_in: &[T],
    bias: Option<&[T]>,
    out_chunk: &mut [T],
)
    requires
        old(out_chunk)@.len() > 0,
        (first + old(out_chunk)@.len()) * x@.len() <= weight_out_by_in@.len(),
        bias matches Some(b) ==> first + old(out_chunk)@.len() <= b@.len(),
    ensures
        final(out_chunk)@.len() == old(out_chunk)@.len(),
        crate::linear::is_linear(
            ar,
            x@,
            rows_of(
                weight_out_by_in@,
                x@.len() as int,
                first as int,
                old(out_chunk)@.len() as int,
            ),
            bias_of(
                crate::linear::bias_view(bias),
                first as int,
                old(out_chunk)@.len() as int,
            ),
            x@.len() as int,
            old(out_chunk)@.len() as int,
            final(out_chunk)@,
        ),
{
    let n: usize = x.len();
    let count: usize = out_chunk.len();
    let w_total: usize = weight_out_by_in.len();
    proof {
        let (f, c, m) = (first as int, count as int, n as int);
        assert((f + c) * m == f * m + c * m) by (nonlinear_arith);
        assert(0 <= f * m && 0 <= c * m) by (nonlinear_arith)
            requires
                0 <= f,
                0 <= c,
                0 <= m,
        ;
    }
    let from: usize = first * n;
    let len: usize = count * n;
    let weights: &[T] = vstd::slice::slice_subrange(weight_out_by_in, from, from + len);
    let ghost bv = bias_of(crate::linear::bias_view(bias), first as int, count as int);
    match bias {
        Some(b) => {
            let total: usize = b.len();
            assert(first + count <= total);
            let part: &[T] = vstd::slice::slice_subrange(b, first, first + count);
            project(ar, mode, x, 1, n, weights, count, Some(part), out_chunk);
        },
        None => {
            project(ar, mode, x, 1, n, weights, count, None, out_chunk);
        },
    }
    proof {
        crate::lanes::few_rows_are_plain(
            ar,
            x@,
            weights@,
            bv,
            n as int,
            1,
            count as int,
            out_chunk@,
        );
    }
}

/// Computes one chunk of a projection: the rows from `first` on, as many as
/// `out_chunk` has room for.
pub fn linear_chunk<T: Copy, A: Arith<T>>(
    ar: &A,
    mode: CpuKernelMode,
    x: &[T],
    first: usize,
    in_features: usize,
    weight_out_by_in: &[T],
    out_features: usize,
    bias: Option<&[T]>,
    out_chunk: &mut [T],
)
    requires
        out_features > 0,
        old(out_chunk)@.len() % out_features as nat == 0,
        (first + old(out_chunk)@.len() / out_features as nat) * in_features <= x@.len(),
        weight_out_by_in@.len() == out_features * in_features,
        bias matches Some(b) ==> b@.len() == out_features,
    ensures
        final(out_chunk)@.len() == old(out_chunk)@.len(),
        is_projection(
            ar,
            mode,
            rows_of(
                x@,
                in_features as int,
                first as int,
                (old(out_chunk)@.len() / out_features as nat) as int,
            ),
            weight_out_by_in@,
            crate::linear::bias_view(bias),
            in_features as int,
            (old(out_chunk)@.len() / out_features as nat) as int,
            out_features as int,
            final(out_chunk)@,
        ),
{
    let x_total: usize = x.len();
    let count: usize = out_chunk.len() / out_features;
    proof {
        crate::grid::index(out_chunk@.len() as int, out_features as int);
        let (f, c, n) = (first as int, count as int, in_features as int);
        assert((f + c) * n == f * n + c * n) by (nonlinear_arith);
        assert(0 <= f * n && 0 <= c * n) by (nonlinear_arith)
            requires
                0 <= f,
                0 <= c,
                0 <= n,
        ;
    }
    let from: usize = first * in_features;
    let len: usize = count * in_features;
    let x_chunk: &[T] = vstd::slice::slice_subrange(x, from, from + len);
    project(
        ar,
        mode,
        x_chunk,
        count,
        in_features,
        weight_out_by_in,
        out_features,
        bias,
        out_chunk,
    );
}

/// Computes one chunk of a matrix product: the rows from `first` on, as many as
/// `out_chunk` has room for.
pub fn matmul_chunk<T: Copy, A: Arith<T>>(
    ar: &A,
    mode: CpuKernelMode,
    a: &[T],
    first: usize,
    k: usize,
    b: &[T],
    n: usize,
    out_chunk: &mut [T],
)
    requires
        n > 0,
        old(out_chunk)@.len() % n as nat == 0,
        (first + old(out_chunk)@.len() / n as nat) * k <= a@.len(),
        b@.len() == k * n,
    ensures
        final(out_chunk)@.len() == old(out_chunk)@.len(),
        crate::dense::is_product(
            ar,
            rows_of(a@, k as int, first as int, (old(out_chunk)@.len() / n as nat) as int),
            b@,
            k as int,
            n as int,
            final(out_chunk)@,
        ),
{
    let a_total: usize = a.len();
    let count: usize = out_chunk.len() / n;
    proof {
        crate::grid::index(out_chunk@.len() as int, n as int);
        let (f, c, m) = (first as int, count as int, k as int);
        assert((f + c) * m == f * m + c * m) by (nonlinear_arith);
        assert(0 <= f * m && 0 <= c * m) by (nonlinear_arith)
            requires
                0 <= f,
                0 <= c,
                0 <= m,
        ;
    }
    let from: usize = first * k;
    let len: usize = count * k;
    let a_chunk: &[T] = vstd::slice::slice_subrange(a, from, from + len);
    match mode {
        CpuKernelMode::Scalar => matmul_compute(ar, a_chunk, count, k, b, n, out_chunk),
        CpuKernelMode::Optimized | CpuKernelMode::Avx2 => matmul_optimized_compute(
            ar,
            a_chunk,
            count,
            k,
            b,
            n,
            out_chunk,
        ),
    }
}

} // verus!
