use vstd::prelude::*;

use crate::arith::{mul_add, Arith};
use crate::attention::{attend_head, Heads};
use crate::lanes::dot_f32_avx2;
use crate::modes::CpuKernelMode;
use crate::softmax::softmax;

verus! {

/// `s` may be the score of a key, by a dot product in eight lanes.
pub open spec fn lane_scored<T, A: Arith<T>>(
    ar: &A,
    q: Seq<T>,
    k: Seq<T>,
    scale: T,
    s: T,
) -> bool {
    exists|acc: T| #[trigger]
        crate::lanes::is_lane_dot(ar, q, k, acc) && crate::arith::muls(ar, acc, scale, s)
}

/// The steps of value `d` of the output: in whole groups of eight values, each
/// weighted value is multiplied and added in one rounding.
pub open spec fn lane_value_steps<T, A: Arith<T>>(
    ar: &A,
    p: Seq<T>,
    values: Seq<Seq<T>>,
    dim: int,
    d: int,
) -> spec_fn(int, T, T) -> bool {
    |j: int, a: T, b: T|
        if d < dim - dim % 8 {
            crate::arith::fuses(ar, p[j], values[j][d], a, b)
        } else {
            crate::arith::accumulates(ar, a, p[j], values[j][d], b)
        }
}

/// `out` may be the values, weighted and added up.
pub open spec fn is_weighted_sum<T, A: Arith<T>>(
    ar: &A,
    zero: T,
    p: Seq<T>,
    values: Seq<Seq<T>>,
    out: Seq<T>,
) -> bool {
    forall|d: int|
        0 <= d < out.len() ==> crate::arith::folds(
            lane_value_steps(ar, p, values, out.len() as int, d),
            values.len(),
            zero,
            #[trigger] out[d],
        )
}

/// `out` may be what the query attends to, by these intermediate values.
pub open spec fn lane_attends_by<T, A: Arith<T>>(
    ar: &A,
    q: Seq<T>,
    keys: Seq<Seq<T>>,
    values: Seq<Seq<T>>,
    scale: T,
    s: crate::attention::AttentionSteps<T>,
    out: Seq<T>,
) -> bool {
    &&& crate::arith::converts(ar, 0, s.zero)
    &&& s.scores.len() == keys.len()
    &&& forall|j: int|
        0 <= j < keys.len() ==> lane_scored(ar, q, keys[j], scale, #[trigger] s.scores[j])
    &&& crate::softmax::is_softmax(ar, s.scores, s.weights)
    &&& out.len() == q.len()
    &&& is_weighted_sum(ar, s.zero, s.weights, values, out)
}

/// `out` may be what the query attends to, as a mode computes it.
pub open spec fn attends_in<T, A: Arith<T>>(
    ar: &A,
    mode: CpuKernelMode,
    q: Seq<T>,
    keys: Seq<Seq<T>>,
    values: Seq<Seq<T>>,
    scale: T,
    out: Seq<T>,
) -> bool {
    match mode {
        CpuKernelMode::Scalar | CpuKernelMode::Optimized => crate::attention::attends(
            ar,
            q,
            keys,
            values,
            scale,
            out,
        ),
        CpuKernelMode::Avx2 => exists|s: crate::attention::AttentionSteps<T>| #[trigger]
            lane_attends_by(ar, q, keys, values, scale, s, out),
    }
}

/// Adds up the values of one head over `rows` rows, each weighted by its score.
pub fn attention_value_weighted_sum_avx2<T: Copy, A: Arith<T>>(
    ar: &A,
    scores: &[T],
    v: &[T],
    rows: usize,
    state: usize,
    head_offset: usize,
    head_dim: usize,
    out: &mut [T],
    out_at: usize,
)
    requires
        scores@.len() >= rows,
        crate::attention::heads_fit(
            v@.len(),
            state as int,
            head_offset as int,
            head_dim as int,
            rows as int,
        ),
        out_at + head_dim <= old(out)@.len(),
    ensures
        final(out)@.len() == old(out)@.len(),
        forall|i: int|
            0 <= i < out_at || out_at + head_dim <= i < final(out)@.len() ==> #[trigger] final(out)@[i]
                == old(out)@[i],
        exists|zero: T| #[trigger]
            crate::arith::converts(ar, 0, zero) && is_weighted_sum(
                ar,
                zero,
                scores@,
                crate::attention::heads(
                    v@,
                    state as int,
                    head_offset as int,
                    head_dim as int,
                    rows as int,
                ),
                crate::attention::head(final(out)@, out_at as int, head_dim as int),
            ),
{
    let v_total: usize = v.len();
    let out_total: usize = out.len();
    let ghost before = out@;
    let ghost values = crate::attention::heads(
        v@,
        state as int,
        head_offset as int,
        head_dim as int,
        rows as int,
    );
    let zero: T = ar.from_int(0);
    assert(crate::arith::converts(ar, 0, zero));
    let whole: usize = head_dim - head_dim % 8;
    let mut d: usize = 0;
    while d < head_dim
        invariant
            scores@.len() >= rows,
            v_total == v@.len(),
            out_total == out@.len() == before.len(),
            out_at + head_dim <= out_total,
            whole == head_dim - head_dim % 8,
            crate::attention::heads_fit(
                v@.len(),
                state as int,
                head_offset as int,
                head_dim as int,
                rows as int,
            ),
            values == crate::attention::heads(
                v@,
                state as int,
                head_offset as int,
                head_dim as int,
                rows as int,
            ),
            d <= head_dim,
            forall|i: int|
                0 <= i < out_at || out_at + head_dim <= i < out_total ==> #[trigger] out@[i]
                    == before[i],
            forall|i: int|
                out_at <= i < out_at + d ==> crate::arith::folds(
                    lane_value_steps(ar, scores@, values, head_dim as int, i - out_at),
                    rows as nat,
                    zero,
                    #[trigger] out@[i],
                ),
        decreases head_dim - d,
    {
        let ghost steps = lane_value_steps(ar, scores@, values, head_dim as int, d as int);
        let mut acc: T = zero;
        let mut j: usize = 0;
        while j < rows
            invariant
                scores@.len() >= rows,
                v_total == v@.len(),
                whole == head_dim - head_dim % 8,
                d < head_dim,
                crate::attention::heads_fit(
                    v@.len(),
                    state as int,
                    head_offset as int,
                    head_dim as int,
                    rows as int,
                ),
                values == crate::attention::heads(
                    v@,
                    state as int,
                    head_offset as int,
                    head_dim as int,
                    rows as int,
                ),
                steps == lane_value_steps(ar, scores@, values, head_dim as int, d as int),
                j <= rows,
                crate::arith::folds(steps, j as nat, zero, acc),
            decreases rows - j,
        {
            proof {
                crate::attention::head_fits(
                    v@.len(),
                    state as int,
                    head_offset as int,
                    head_dim as int,
                    rows as int,
                    j as int,
                );
            }
            let value: T = v[j * state + head_offset + d];
            assert(value == values[j as int][d as int]);
            let next: T = if d < whole {
                ar.fused(scores[j], value, acc)
            } else {
                mul_add(ar, acc, scores[j], value)
            };
            proof {
                crate::arith::fold_step(steps, j as nat, zero, acc, next);
            }
            acc = next;
            j = j + 1;
        }
        out[out_at + d] = acc;
        d = d + 1;
    }
    proof {
        let oh = crate::attention::head(out@, out_at as int, head_dim as int);
        assert forall|i: int| 0 <= i < oh.len() implies crate::arith::folds(
            lane_value_steps(ar, scores@, values, oh.len() as int, i),
            values.len(),
            zero,
            #[trigger] oh[i],
        ) by {
            assert(oh[i] == out@[out_at + i]);
            assert(crate::arith::folds(
                lane_value_steps(ar, scores@, values, head_dim as int, (out_at + i) - out_at),
                rows as nat,
                zero,
                out@[out_at + i],
            ));
        }
        assert(is_weighted_sum(ar, zero, scores@, values, oh));
    }
}

/// Attention of one query head over the same head of `count` rows, in eight
/// lanes.
fn attend_head_lanes<T: Copy, A: Arith<T>>(
    ar: &A,
    scale: T,
    q: &[T],
    q_at: usize,
    k: &[T],
    v: &[T],
    stride: usize,
    off: usize,
    dim: usize,
    count: usize,
    out: &mut [T],
    out_at: usize,
)
    requires
        q_at + dim <= q@.len(),
        out_at + dim <= old(out)@.len(),
        crate::attention::heads_fit(k@.len(), stride as int, off as int, dim as int, count as int),
        crate::attention::heads_fit(v@.len(), stride as int, off as int, dim as int, count as int),
    ensures
        final(out)@.len() == old(out)@.len(),
        forall|i: int|
            0 <= i < out_at || out_at + dim <= i < final(out)@.len() ==> #[trigger] final(out)@[i]
                == old(out)@[i],
        attends_in(
            ar,
            CpuKernelMode::Avx2,
            crate::attention::head(q@, q_at as int, dim as int),
            crate::attention::heads(k@, stride as int, off as int, dim as int, count as int),
            crate::attention::heads(v@, stride as int, off as int, dim as int, count as int),
            scale,
            crate::attention::head(final(out)@, out_at as int, dim as int),
        ),
{
    let k_total: usize = k.len();
    let ghost qh = crate::attention::head(q@, q_at as int, dim as int);
    let ghost keys = crate::attention::heads(
        k@,
        stride as int,
        off as int,
        dim as int,
        count as int,
    );
    let ghost values = crate::attention::heads(
        v@,
        stride as int,
        off as int,
        dim as int,
        count as int,
    );
    let mut scores: Vec<T> = Vec::with_capacity(count);
    let mut j: usize = 0;
    while j < count
        invariant
            q_at + dim <= q@.len(),
            k_total == k@.len(),
            crate::attention::heads_fit(
                k@.len(),
                stride as int,
                off as int,
                dim as int,
                count as int,
            ),
            qh == crate::attention::head(q@, q_at as int, dim as int),
            keys == crate::attention::heads(
                k@,
                stride as int,
                off as int,
                dim as int,
                count as int,
            ),
            j <= count,
            scores@.len() == j,
            forall|i: int|
                0 <= i < j ==> lane_scored(ar, qh, keys[i], scale, #[trigger] scores@[i]),
        decreases count - j,
    {
        proof {
            crate::attention::head_fits(
                k@.len(),
                stride as int,
                off as int,
                dim as int,
                count as int,
                j as int,
            );
        }
        let acc: T = dot_f32_avx2(ar, q, q_at, k, j * stride + off, dim);
        assert(crate::lanes::is_lane_dot(ar, qh, keys[j as int], acc));
        let s: T = ar.mul(acc, scale);
        scores.push(s);
        j = j + 1;
    }
    let ghost raw = scores@;
    softmax(ar, scores.as_mut_slice());
    let ghost weights = scores@;
    attention_value_weighted_sum_avx2(
        ar,
        scores.as_slice(),
        v,
        count,
        stride,
        off,
        dim,
        out,
        out_at,
    );
    proof {
        let oh = crate::attention::head(out@, out_at as int, dim as int);
        let zero = choose|zero: T| #[trigger]
            crate::arith::converts(ar, 0, zero) && is_weighted_sum(ar, zero, weights, values, oh);
        let s = crate::attention::AttentionSteps { zero, scores: raw, weights };
        assert(lane_attends_by(ar, qh, keys, values, scale, s, oh));
    }
}

/// `o` may be what query `c`, counted over rows and heads, attends to.
pub open spec fn cell_in<T, A: Arith<T>>(
    ar: &A,
    mode: CpuKernelMode,
    g: Heads,
    scale: T,
    q: Seq<T>,
    k: Seq<T>,
    v: Seq<T>,
    c: int,
    o: Seq<T>,
) -> bool {
    let dim = g.dim as int;
    let off = g.key_head(c % g.queries as int) * dim;
    let count = g.visible(c / g.queries as int);
    attends_in(
        ar,
        mode,
        crate::attention::head(q, c * dim, dim),
        crate::attention::heads(k, g.stride(), off, dim, count),
        crate::attention::heads(v, g.stride(), off, dim, count),
        scale,
        o,
    )
}

/// The heads of `out` are what the queries from `first` on attend to.
pub open spec fn cells_in<T, A: Arith<T>>(
    ar: &A,
    mode: CpuKernelMode,
    g: Heads,
    scale: T,
    q: Seq<T>,
    k: Seq<T>,
    v: Seq<T>,
    first: int,
    count: int,
    out: Seq<T>,
) -> bool {
    forall|c: int|
        0 <= c < count ==> #[trigger] cell_in(
            ar,
            mode,
            g,
            scale,
            q,
            k,
            v,
            first + c,
            crate::attention::head(out, c * g.dim, g.dim as int),
        )
}

/// Computes one chunk of attention: the queries from `first` on, counted over
/// rows and heads, as many as `out` has room for.
pub fn attend_chunk<T: Copy, A: Arith<T>>(
    ar: &A,
    mode: CpuKernelMode,
    g: Heads,
    scale: T,
    q: &[T],
    k: &[T],
    v: &[T],
    first: usize,
    out: &mut [T],
)
    requires
        g.wf(),
        k@.len() == g.rows * g.stride(),
        v@.len() == k@.len(),
        old(out)@.len() % g.dim as nat == 0,
        (first + old(out)@.len() / g.dim as nat) * g.dim <= q@.len(),
        g.causal ==> first + old(out)@.len() / g.dim as nat <= g.rows * g.queries,
    ensures
        final(out)@.len() == old(out)@.len(),
        cells_in(
            ar,
            mode,
            g,
            scale,
            q@,
            k@,
            v@,
            first as int,
            (old(out)@.len() / g.dim as nat) as int,
            final(out)@,
        ),
{
    let q_total: usize = q.len();
    let k_total: usize = k.len();
    let total: usize = out.len();
    let nq: usize = g.queries;
    let dim: usize = g.dim;
    let cells: usize = total / dim;
    let group: usize = g.queries / g.keys;
    proof {
        crate::grid::index(total as int, dim as int);
        crate::attention::key_head_bound(g, 0);
        let end = first + cells;
        assert(end <= q_total) by (nonlinear_arith)
            requires
                end * dim <= q_total,
                dim >= 1,
                end >= 0,
        ;
    }
    let mut c: usize = 0;
    while c < cells
        invariant
            g.wf(),
            nq == g.queries,
            dim == g.dim,
            group == g.group(),
            group > 0,
            k_total == k@.len() == g.rows * g.stride(),
            v@.len() == k@.len(),
            q_total == q@.len(),
            (first + cells) * dim <= q_total,
            first + cells <= q_total,
            g.causal ==> first + cells <= g.rows * g.queries,
            total == out@.len() == cells * dim,
            c <= cells,
            cells_in(ar, mode, g, scale, q@, k@, v@, first as int, c as int, out@),
        decreases cells - c,
    {
        let at: usize = first + c;
        let i: usize = at / nq;
        let h: usize = at % nq;
        let kh: usize = h / group;
        proof {
            crate::grid::index(at as int, nq as int);
            crate::attention::key_head_bound(g, h as int);
            crate::grid::row_bound(c as int, cells as int, dim as int);
            crate::grid::row_bound(at as int, first + cells, dim as int);
            if g.causal {
                crate::grid::index_row(at as int, g.rows as int, nq as int);
            }
        }
        let count: usize = if g.causal {
            i + 1
        } else {
            g.rows
        };
        proof {
            crate::attention::key_heads_fit(g, k@.len(), kh as int, count as int);
            if count > 0 {
                assert(g.stride() <= k_total) by (nonlinear_arith)
                    requires
                        k_total == g.rows * g.stride(),
                        g.rows >= 1,
                        g.stride() >= 0,
                ;
            }
        }
        let ghost before = out@;
        let (stride, off): (usize, usize) = if count > 0 {
            (g.keys * dim, kh * dim)
        } else {
            (0, 0)
        };
        proof {
            if count == 0 {
                let full = kh * dim;
                assert(crate::attention::heads(k@, 0, 0, dim as int, 0)
                    =~= crate::attention::heads(k@, g.stride(), full, dim as int, 0));
                assert(crate::attention::heads(v@, 0, 0, dim as int, 0)
                    =~= crate::attention::heads(v@, g.stride(), full, dim as int, 0));
            }
        }
        match mode {
            CpuKernelMode::Scalar | CpuKernelMode::Optimized => attend_head(
                ar,
                scale,
                q,
                at * dim,
                k,
                v,
                stride,
                off,
                dim,
                count,
                None,
                out,
                c * dim,
            ),
            CpuKernelMode::Avx2 => attend_head_lanes(
                ar,
                scale,
                q,
                at * dim,
                k,
                v,
                stride,
                off,
                dim,
                count,
                out,
                c * dim,
            ),
        }
        proof {
            assert(cell_in(
                ar,
                mode,
                g,
                scale,
                q@,
                k@,
                v@,
                first + c,
                crate::attention::head(out@, c * g.dim, g.dim as int),
            ));
            assert forall|x: int| 0 <= x < c + 1 implies #[trigger] cell_in(
                ar,
                mode,
                g,
                scale,
                q@,
                k@,
                v@,
                first + x,
                crate::attention::head(out@, x * g.dim, g.dim as int),
            ) by {
                if x < c {
                    crate::grid::row_bound(x, c as int, dim as int);
                    assert(crate::attention::head(out@, x * dim, dim as int)
                        =~= crate::attention::head(before, x * dim, dim as int));
                    assert(cell_in(
                        ar,
                        mode,
                        g,
                        scale,
                        q@,
                        k@,
                        v@,
                        first + x,
                        crate::attention::head(before, x * g.dim, g.dim as int),
                    ));
                }
            }
        }
        c = c + 1;
    }
}

/// If every chunk of the output is what its queries attend to, then the whole
/// output is, in whatever order the chunks were computed.
pub proof fn chunked_attention<T, A: Arith<T>>(
    ar: &A,
    mode: CpuKernelMode,
    g: Heads,
    scale: T,
    q: Seq<T>,
    k: Seq<T>,
    v: Seq<T>,
    cells: int,
    size: int,
    out: Seq<T>,
)
    requires
        g.dim > 0,
        0 < size,
        out.len() == cells * g.dim,
        forall|i: int|
            0 <= i && i * size < cells ==> #[trigger] cells_in(
                ar,
                mode,
                g,
                scale,
                q,
                k,
                v,
                i * size,
                crate::partition::chunk_count(cells, size, i),
                crate::partition::rows_of(
                    out,
                    g.dim as int,
                    i * size,
                    crate::partition::chunk_count(cells, size, i),
                ),
            ),
    ensures
        cells_in(ar, mode, g, scale, q, k, v, 0, cells, out),
{
    let dim = g.dim as int;
    assert forall|c: int| 0 <= c < cells implies #[trigger] cell_in(
        ar,
        mode,
        g,
        scale,
        q,
        k,
        v,
        0 + c,
        crate::attention::head(out, c * g.dim, g.dim as int),
    ) by {
        let i = c / size;
        let t = c % size;
        let count = crate::partition::chunk_count(cells, size, i);
        crate::partition::chunk_row(cells, size, dim, c);
        crate::partition::chunk_cells(i * size, count, cells, dim, t);
        let chunk = crate::partition::rows_of(out, dim, i * size, count);
        assert(cells_in(ar, mode, g, scale, q, k, v, i * size, count, chunk));
        assert(cell_in(
            ar,
            mode,
            g,
            scale,
            q,
            k,
            v,
            i * size + t,
            crate::attention::head(chunk, t * dim, dim),
        ));
        assert(crate::attention::head(chunk, t * dim, dim) =~= crate::attention::head(
            out,
            c * dim,
            dim,
        ));
    }
}

} // verus!
