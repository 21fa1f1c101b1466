use vstd::prelude::*;

use crate::arith::{dot, filled, mul_add, Arith};
use crate::error::OcelotlError;
use crate::expr::Term;
use crate::shapes::validate_linear_out_by_in;

verus! {

/// The steps of lane `l` of a dot product in eight lanes: every eighth product,
/// multiplied and added in one rounding.
pub open spec fn lane_steps<T, A: Arith<T>>(ar: &A, x: Seq<T>, w: Seq<T>, l: int) -> spec_fn(
    int,
    T,
    T,
) -> bool {
    |c: int, a: T, b: T| crate::arith::fuses(ar, x[c * 8 + l], w[c * 8 + l], a, b)
}

/// The steps of the products that do not fill all lanes.
pub open spec fn tail_steps<T, A: Arith<T>>(ar: &A, x: Seq<T>, w: Seq<T>, base: int) -> spec_fn(
    int,
    T,
    T,
) -> bool {
    |i: int, a: T, b: T| crate::arith::accumulates(ar, a, x[base + i], w[base + i], b)
}

/// The sum of eight lanes: the upper four are added to the lower four, and
/// neighbours are added twice.
pub open spec fn lane_sum<T>(v: Seq<T>) -> crate::expr::Expr<T> {
    let pair = |i: int| crate::expr::Expr::Value(v[i + 4]).plus(crate::expr::Expr::Value(v[i]));
    pair(0).plus(pair(1)).plus(pair(2).plus(pair(3)))
}

/// The intermediate values of a dot product in eight lanes.
pub struct LaneSteps<T> {
    pub zero: T,
    pub lanes: Seq<T>,
    pub sum: T,
}

/// `v` may be the dot product of `x` and `w` in eight lanes, by these values.
pub open spec fn lane_dot_by<T, A: Arith<T>>(
    ar: &A,
    x: Seq<T>,
    w: Seq<T>,
    s: LaneSteps<T>,
    v: T,
) -> bool {
    let n = x.len() as int;
    &&& crate::arith::converts(ar, 0, s.zero)
    &&& s.lanes.len() == 8
    &&& forall|l: int|
        0 <= l < 8 ==> crate::arith::folds(
            lane_steps(ar, x, w, l),
            (n / 8) as nat,
            s.zero,
            #[trigger] s.lanes[l],
        )
    &&& crate::expr::evals(ar, lane_sum(s.lanes), s.sum)
    &&& crate::arith::folds(tail_steps(ar, x, w, n / 8 * 8), (n % 8) as nat, s.sum, v)
}

/// `v` may be the dot product of `x` and `w` in eight lanes: the lanes are added
/// up, and the products that do not fill all lanes are added to that.
pub open spec fn is_lane_dot<T, A: Arith<T>>(ar: &A, x: Seq<T>, w: Seq<T>, v: T) -> bool {
    exists|s: LaneSteps<T>| #[trigger] lane_dot_by(ar, x, w, s, v)
}

/// The dot product of `n` values of `x` and of `w` in eight lanes.
pub fn dot_f32_avx2<T: Copy, A: Arith<T>>(
    ar: &A,
    x: &[T],
    x_start: usize,
    w: &[T],
    w_start: usize,
    n: usize,
) -> (v: T)
    requires
        x_start + n <= x@.len(),
        w_start + n <= w@.len(),
    ensures
        is_lane_dot(
            ar,
            x@.subrange(x_start as int, x_start + n),
            w@.subrange(w_start as int, w_start + n),
            v,
        ),
{
    let ghost xs = x@.subrange(x_start as int, x_start + n);
    let ghost ws = w@.subrange(w_start as int, w_start + n);
    let x_total: usize = x.len();
    let w_total: usize = w.len();
    let zero: T = ar.from_int(0);
    let mut lanes: Vec<T> = filled(zero, 8);
    let chunks: usize = n / 8;
    let mut c: usize = 0;
    while c < chunks
        invariant
            x_start + n <= x@.len() == x_total,
            w_start + n <= w@.len() == w_total,
            xs == x@.subrange(x_start as int, x_start + n),
            ws == w@.subrange(w_start as int, w_start + n),
            chunks == n / 8,
            c <= chunks,
            lanes@.len() == 8,
            forall|l: int|
                0 <= l < 8 ==> crate::arith::folds(
                    lane_steps(ar, xs, ws, l),
                    c as nat,
                    zero,
                    #[trigger] lanes@[l],
                ),
        decreases chunks - c,
    {
        let mut l: usize = 0;
        while l < 8
            invariant
                x_start + n <= x@.len() == x_total,
                w_start + n <= w@.len() == w_total,
                xs == x@.subrange(x_start as int, x_start + n),
                ws == w@.subrange(w_start as int, w_start + n),
                chunks == n / 8,
                c < chunks,
                l <= 8,
                lanes@.len() == 8,
                forall|k: int|
                    0 <= k < 8 ==> crate::arith::folds(
                        lane_steps(ar, xs, ws, k),
                        (if k < l {
                            c + 1
                        } else {
                            c as int
                        }) as nat,
                        zero,
                        #[trigger] lanes@[k],
                    ),
            decreases 8 - l,
        {
            let k: usize = c * 8 + l;
            let acc: T = lanes[l];
            let next: T = ar.fused(x[x_start + k], w[w_start + k], acc);
            proof {
                assert(xs[c * 8 + l] == x@[x_start + k]);
                assert(ws[c * 8 + l] == w@[w_start + k]);
                crate::arith::fold_step(lane_steps(ar, xs, ws, l as int), c as nat, zero, acc, next);
            }
            lanes.set(l, next);
            l = l + 1;
        }
        c = c + 1;
    }
    let p0 = Term::of(ar, lanes[4]).plus(ar, &Term::of(ar, lanes[0]));
    let p1 = Term::of(ar, lanes[5]).plus(ar, &Term::of(ar, lanes[1]));
    let p2 = Term::of(ar, lanes[6]).plus(ar, &Term::of(ar, lanes[2]));
    let p3 = Term::of(ar, lanes[7]).plus(ar, &Term::of(ar, lanes[3]));
    let sum = p0.plus(ar, &p1).plus(ar, &p2.plus(ar, &p3));
    assert(sum.expr@ == lane_sum(lanes@));
    let base: usize = chunks * 8;
    let tail: usize = n % 8;
    let ghost steps = tail_steps(ar, xs, ws, base as int);
    let mut v: T = sum.value;
    let mut i: usize = 0;
    while i < tail
        invariant
            x_start + n <= x@.len() == x_total,
            w_start + n <= w@.len() == w_total,
            xs == x@.subrange(x_start as int, x_start + n),
            ws == w@.subrange(w_start as int, w_start + n),
            base + tail == n,
            steps == tail_steps(ar, xs, ws, base as int),
            i <= tail,
            crate::arith::folds(steps, i as nat, sum.value, v),
        decreases tail - i,
    {
        let next: T = mul_add(ar, v, x[x_start + base + i], w[w_start + base + i]);
        proof {
            crate::arith::fold_step(steps, i as nat, sum.value, v, next);
        }
        v = next;
        i = i + 1;
    }
    proof {
        let s = LaneSteps { zero, lanes: lanes@, sum: sum.value };
        assert(lane_dot_by(ar, xs, ws, s, v));
    }
    v
}

/// Row `r` and output `o` lie in whole tiles of four by four.
pub open spec fn in_tiles(rows: int, outs: int, r: int, o: int) -> bool {
    r < rows - rows % 4 && o < outs - outs % 4
}

/// `v` may be output `o` of row `r`: inside whole tiles, the dot product in eight
/// lanes plus the bias; outside, the bias plus the products from the left.
pub open spec fn lane_linear_cell<T, A: Arith<T>>(
    ar: &A,
    zero: T,
    x: Seq<T>,
    w: Seq<T>,
    bias: Option<Seq<T>>,
    n: int,
    rows: int,
    outs: int,
    r: int,
    o: int,
    v: T,
) -> bool {
    if in_tiles(rows, outs, r, o) {
        exists|d: T| #[trigger]
            is_lane_dot(ar, crate::linear::row(x, n, r), crate::linear::row(w, n, o), d)
                && crate::arith::adds(ar, d, crate::linear::start(zero, bias, o), v)
    } else {
        crate::linear::linear_cell(ar, zero, x, w, bias, n, r, o, v)
    }
}

/// The output is the projection of every row, in eight lanes.
pub open spec fn is_lane_linear<T, A: Arith<T>>(
    ar: &A,
    x: Seq<T>,
    w: Seq<T>,
    bias: Option<Seq<T>>,
    n: int,
    rows: int,
    outs: int,
    out: Seq<T>,
) -> bool {
    exists|zero: T| #[trigger]
        crate::arith::converts(ar, 0, zero) && forall|i: int|
            0 <= i < out.len() ==> lane_linear_cell(
                ar,
                zero,
                x,
                w,
                bias,
                n,
                rows,
                outs,
                i / outs,
                i % outs,
                #[trigger] out[i],
            )
}

/// Linear projection in eight lanes.
pub fn linear_out_by_in_compute_avx2<T: Copy, A: Arith<T>>(
    ar: &A,
    x: &[T],
    rows: usize,
    in_features: usize,
    weight_out_by_in: &[T],
    out_features: usize,
    bias: Option<&[T]>,
    out: &mut [T],
)
    requires
        x@.len() == rows * in_features,
        weight_out_by_in@.len() == out_features * in_features,
        old(out)@.len() == rows * out_features,
        bias matches Some(b) ==> b@.len() == out_features,
    ensures
        final(out)@.len() == old(out)@.len(),
        is_lane_linear(
            ar,
            x@,
            weight_out_by_in@,
            crate::linear::bias_view(bias),
            in_features as int,
            rows as int,
            out_features as int,
            final(out)@,
        ),
{
    let n: usize = in_features;
    let outs: usize = out_features;
    let w: &[T] = weight_out_by_in;
    let x_total: usize = x.len();
    let w_total: usize = w.len();
    let out_total: usize = out.len();
    let tiled_rows: usize = rows - rows % 4;
    let tiled_outs: usize = outs - outs % 4;
    let ghost bv = crate::linear::bias_view(bias);
    let zero: T = ar.from_int(0);
    assert(crate::arith::converts(ar, 0, zero));
    proof {
        assert(0 * outs == 0) by (nonlinear_arith);
    }
    let mut row: usize = 0;
    while row < rows
        invariant
            n == in_features,
            outs == out_features,
            w == weight_out_by_in,
            x_total == x@.len() == rows * n,
            w_total == w@.len() == outs * n,
            out_total == out@.len() == rows * outs,
            bias matches Some(b) ==> b@.len() == outs,
            bv == crate::linear::bias_view(bias),
            tiled_rows == rows - rows % 4,
            tiled_outs == outs - outs % 4,
            row <= rows,
            forall|i: int|
                0 <= i < row * outs ==> lane_linear_cell(
                    ar,
                    zero,
                    x@,
                    w@,
                    bv,
                    n as int,
                    rows as int,
                    outs as int,
                    i / outs as int,
                    i % outs as int,
                    #[trigger] out@[i],
                ),
        decreases rows - row,
    {
        proof {
            crate::grid::row_bound(row as int, rows as int, n as int);
            crate::grid::row_bound(row as int, rows as int, outs as int);
        }
        let x_at: usize = row * n;
        let out_at: usize = row * outs;
        let mut o: usize = 0;
        while o < outs
            invariant
                n == in_features,
                outs == out_features,
                w == weight_out_by_in,
                x_total == x@.len() == rows * n,
                w_total == w@.len() == outs * n,
                out_total == out@.len() == rows * outs,
                bias matches Some(b) ==> b@.len() == outs,
                bv == crate::linear::bias_view(bias),
                tiled_rows == rows - rows % 4,
                tiled_outs == outs - outs % 4,
                row < rows,
                x_at == row * n,
                x_at + n <= x_total,
                out_at == row * outs,
                out_at + outs <= out_total,
                o <= outs,
                forall|i: int|
                    0 <= i < out_at + o ==> lane_linear_cell(
                        ar,
                        zero,
                        x@,
                        w@,
                        bv,
                        n as int,
                        rows as int,
                        outs as int,
                        i / outs as int,
                        i % outs as int,
                        #[trigger] out@[i],
                    ),
            decreases outs - o,
        {
            proof {
                crate::grid::row_bound(o as int, outs as int, n as int);
                crate::grid::cell(row as int, o as int, outs as int);
            }
            let w_at: usize = o * n;
            let init: T = match bias {
                Some(b) => b[o],
                None => zero,
            };
            let v: T = if row < tiled_rows && o < tiled_outs {
                let d: T = dot_f32_avx2(ar, x, x_at, w, w_at, n);
                let v: T = ar.add(d, init);
                proof {
                    assert(is_lane_dot(
                        ar,
                        crate::linear::row(x@, n as int, row as int),
                        crate::linear::row(w@, n as int, o as int),
                        d,
                    ));
                    assert(crate::arith::adds(
                        ar,
                        d,
                        crate::linear::start(zero, bv, o as int),
                        v,
                    ));
                }
                v
            } else {
                dot(ar, init, x, x_at, w, w_at, n)
            };
            assert(lane_linear_cell(
                ar,
                zero,
                x@,
                w@,
                bv,
                n as int,
                rows as int,
                outs as int,
                row as int,
                o as int,
                v,
            ));
            out[out_at + o] = v;
            o = o + 1;
        }
        row = row + 1;
    }
}

/// Linear projection in eight lanes, after its operands were checked.
pub fn linear_out_by_in_avx2<T: Copy, A: Arith<T>>(
    ar: &A,
    x: &[T],
    rows: usize,
    in_features: usize,
    weight_out_by_in: &[T],
    out_features: usize,
    bias: Option<&[T]>,
    out: &mut [T],
) -> (r: Result<(), OcelotlError>)
    ensures
        final(out)@.len() == old(out)@.len(),
        crate::shapes::refused(r) == crate::shapes::linear_refusal(
            x@.len(),
            rows,
            in_features,
            weight_out_by_in@.len(),
            out_features,
            crate::linear::bias_len(bias),
            old(out)@.len(),
        ),
        r is Err ==> final(out)@ == old(out)@,
        r is Ok ==> is_lane_linear(
            ar,
            x@,
            weight_out_by_in@,
            crate::linear::bias_view(bias),
            in_features as int,
            rows as int,
            out_features as int,
            final(out)@,
        ),
{
    match validate_linear_out_by_in(
        x.len(),
        rows,
        in_features,
        weight_out_by_in.len(),
        out_features,
        crate::linear::bias_len_of(bias),
        out.len(),
    ) {
        Ok(_) => {
            linear_out_by_in_compute_avx2(
                ar,
                x,
                rows,
                in_features,
                weight_out_by_in,
                out_features,
                bias,
                out,
            );
            Ok(())
        },
        Err(e) => Err(e),
    }
}

/// With fewer than four rows, nothing lies in whole tiles: the projection is the
/// plain one.
pub proof fn few_rows_are_plain<T, A: Arith<T>>(
    ar: &A,
    x: Seq<T>,
    w: Seq<T>,
    bias: Option<Seq<T>>,
    n: int,
    rows: int,
    outs: int,
    out: Seq<T>,
)
    requires
        0 <= rows < 4,
        0 < outs,
        out.len() == rows * outs,
    ensures
        is_lane_linear(ar, x, w, bias, n, rows, outs, out) <==> crate::linear::is_linear(
            ar,
            x,
            w,
            bias,
            n,
            outs,
            out,
        ),
{
    assert forall|i: int, zero: T| 0 <= i < out.len() implies (#[trigger] lane_linear_cell(
        ar,
        zero,
        x,
        w,
        bias,
        n,
        rows,
        outs,
        i / outs,
        i % outs,
        out[i],
    ) == crate::linear::linear_cell(ar, zero, x, w, bias, n, i / outs, i % outs, out[i])) by {
        crate::grid::index_row(i, rows, outs);
    }
    if is_lane_linear(ar, x, w, bias, n, rows, outs, out) {
        let zero = choose|zero: T| #[trigger]
            crate::arith::converts(ar, 0, zero) && forall|i: int|
                0 <= i < out.len() ==> lane_linear_cell(
                    ar,
                    zero,
                    x,
                    w,
                    bias,
                    n,
                    rows,
                    outs,
                    i / outs,
                    i % outs,
                    #[trigger] out[i],
                );
        assert(crate::arith::converts(ar, 0, zero));
    }
    if crate::linear::is_linear(ar, x, w, bias, n, outs, out) {
        let zero = choose|zero: T| #[trigger]
            crate::arith::converts(ar, 0, zero) && forall|i: int|
                0 <= i < out.len() ==> crate::linear::linear_cell(
                    ar,
                    zero,
                    x,
                    w,
                    bias,
                    n,
                    i / outs,
                    i % outs,
                    #[trigger] out[i],
                );
        assert(crate::arith::converts(ar, 0, zero));
    }
}

} // verus!
