use vstd::prelude::*;

use crate::arith::{dot, mul_add, Arith};
use crate::error::{kernel_err, OcelotlError};
use crate::shapes::checked_len_product;
use crate::softmax::softmax;
use crate::text::Text;

verus! {

/// The `dim` values from `at` on.
pub open spec fn head<T>(m: Seq<T>, at: int, dim: int) -> Seq<T> {
    m.subrange(at, at + dim)
}

/// One head of each of the first `count` rows; rows are `stride` apart, and the
/// head lies `off` into its row.
pub open spec fn heads<T>(m: Seq<T>, stride: int, off: int, dim: int, count: int) -> Seq<Seq<T>> {
    Seq::new(count as nat, |j: int| head(m, j * stride + off, dim))
}

/// `s` may be the score of a key: the dot product with the query, scaled.
pub open spec fn scored<T, A: Arith<T>>(
    ar: &A,
    zero: T,
    q: Seq<T>,
    k: Seq<T>,
    scale: T,
    s: T,
) -> bool {
    exists|acc: T| #[trigger]
        crate::arith::dots(ar, zero, q, k, acc) && crate::arith::muls(ar, acc, scale, s)
}

/// The steps of value `d` of the output: the values, weighted, added up.
pub open spec fn value_steps<T, A: Arith<T>>(ar: &A, p: Seq<T>, values: Seq<Seq<T>>, d: int) -> spec_fn(
    int,
    T,
    T,
) -> bool {
    |j: int, a: T, b: T| crate::arith::accumulates(ar, a, p[j], values[j][d], b)
}

/// The intermediate values of attention of one query.
pub struct AttentionSteps<T> {
    pub zero: T,
    pub scores: Seq<T>,
    pub weights: Seq<T>,
}

/// `out` may be what the query attends to, by these intermediate values.
pub open spec fn attends_by<T, A: Arith<T>>(
    ar: &A,
    q: Seq<T>,
    keys: Seq<Seq<T>>,
    values: Seq<Seq<T>>,
    scale: T,
    s: AttentionSteps<T>,
    out: Seq<T>,
) -> bool {
    &&& crate::arith::converts(ar, 0, s.zero)
    &&& s.scores.len() == keys.len()
    &&& forall|j: int|
        0 <= j < keys.len() ==> scored(ar, s.zero, q, keys[j], scale, #[trigger] s.scores[j])
    &&& crate::softmax::is_softmax(ar, s.scores, s.weights)
    &&& out.len() == q.len()
    &&& forall|d: int|
        0 <= d < out.len() ==> crate::arith::folds(
            value_steps(ar, s.weights, values, d),
            keys.len(),
            s.zero,
            #[trigger] out[d],
        )
}

/// `out` may be what the query attends to: the values, weighted by the softmax
/// of the scores of their keys.
pub open spec fn attends<T, A: Arith<T>>(
    ar: &A,
    q: Seq<T>,
    keys: Seq<Seq<T>>,
    values: Seq<Seq<T>>,
    scale: T,
    out: Seq<T>,
) -> bool {
    exists|s: AttentionSteps<T>| #[trigger] attends_by(ar, q, keys, values, scale, s, out)
}

/// A query attends to one thing, if the arithmetic always gives the same result.
pub proof fn attention_is_unique<T, A: Arith<T>>(
    ar: &A,
    q: Seq<T>,
    keys: Seq<Seq<T>>,
    values: Seq<Seq<T>>,
    scale: T,
    out1: Seq<T>,
    out2: Seq<T>,
)
    requires
        crate::arith::deterministic(ar),
        attends(ar, q, keys, values, scale, out1),
        attends(ar, q, keys, values, scale, out2),
    ensures
        out1 == out2,
{
    let s1 = choose|s: AttentionSteps<T>| #[trigger]
        attends_by(ar, q, keys, values, scale, s, out1);
    let s2 = choose|s: AttentionSteps<T>| #[trigger]
        attends_by(ar, q, keys, values, scale, s, out2);
    crate::arith::accumulates_unique(ar);
    assert forall|j: int| 0 <= j < keys.len() implies s1.scores[j] == s2.scores[j] by {
        assert(scored(ar, s1.zero, q, keys[j], scale, s1.scores[j]));
        assert(scored(ar, s1.zero, q, keys[j], scale, s2.scores[j]));
        let a1 = choose|acc: T| #[trigger]
            crate::arith::dots(ar, s1.zero, q, keys[j], acc) && crate::arith::muls(
                ar,
                acc,
                scale,
                s1.scores[j],
            );
        let a2 = choose|acc: T| #[trigger]
            crate::arith::dots(ar, s1.zero, q, keys[j], acc) && crate::arith::muls(
                ar,
                acc,
                scale,
                s2.scores[j],
            );
        crate::arith::fold_unique(
            crate::arith::dot_steps(ar, q, keys[j]),
            q.len(),
            s1.zero,
            a1,
            a2,
        );
    }
    assert(s1.scores =~= s2.scores);
    crate::softmax::softmax_is_unique(ar, s1.scores, s1.weights, s2.weights);
    assert forall|d: int| 0 <= d < out1.len() implies out1[d] == out2[d] by {
        assert(crate::arith::folds(
            value_steps(ar, s1.weights, values, d),
            keys.len(),
            s1.zero,
            out1[d],
        ));
        assert(crate::arith::folds(
            value_steps(ar, s1.weights, values, d),
            keys.len(),
            s1.zero,
            out2[d],
        ));
        crate::arith::fold_unique(
            value_steps(ar, s1.weights, values, d),
            keys.len(),
            s1.zero,
            out1[d],
            out2[d],
        );
    }
    assert(out1 =~= out2);
}

/// The rows of one head of a matrix, and one row more where there is a new one.
pub open spec fn heads_and<T>(
    m: Seq<T>,
    stride: int,
    off: int,
    dim: int,
    count: int,
    new: Option<Seq<T>>,
) -> Seq<Seq<T>> {
    match new {
        Some(n) => heads(m, stride, off, dim, count).push(head(n, off, dim)),
        None => heads(m, stride, off, dim, count),
    }
}

/// The views of an optional pair of new rows.
pub open spec fn new_key<T>(new: Option<(&[T], &[T])>) -> Option<Seq<T>> {
    match new {
        Some((k, v)) => Some(k@),
        None => None,
    }
}

pub open spec fn new_value<T>(new: Option<(&[T], &[T])>) -> Option<Seq<T>> {
    match new {
        Some((k, v)) => Some(v@),
        None => None,
    }
}

/// Every head lies inside the matrix.
pub open spec fn heads_fit(len: nat, stride: int, off: int, dim: int, count: int) -> bool {
    &&& 0 <= stride
    &&& 0 <= off
    &&& 0 <= dim
    &&& 0 <= count
    &&& count > 0 ==> (count - 1) * stride + off + dim <= len
}

/// A head of a row inside the matrix lies inside the matrix.
pub proof fn head_fits(len: nat, stride: int, off: int, dim: int, count: int, j: int)
    requires
        heads_fit(len, stride, off, dim, count),
        0 <= j < count,
    ensures
        0 <= j * stride,
        j * stride + off + dim <= len,
{
    assert(0 <= j * stride && j * stride <= (count - 1) * stride) by (nonlinear_arith)
        requires
            0 <= j <= count - 1,
            0 <= stride,
    ;
}

/// Attention of one query head over the same head of the first `count` rows of
/// `k` and `v`, and over a new row where there is one.
pub fn attend_head<T: Copy, A: Arith<T>>(
    ar: &A,
    scale: T,
    q: &[T],
    q_at: usize,
    k: &[T],
    v: &[T],
    stride: usize,
    off: usize,
    dim: usize,
    count: usize,
    new: Option<(&[T], &[T])>,
    out: &mut [T],
    out_at: usize,
)
    requires
        new is Some ==> count < usize::MAX,
        q_at + dim <= q@.len(),
        out_at + dim <= old(out)@.len(),
        heads_fit(k@.len(), stride as int, off as int, dim as int, count as int),
        heads_fit(v@.len(), stride as int, off as int, dim as int, count as int),
        new matches Some((nk, nv)) ==> off + dim <= nk@.len() && off + dim <= nv@.len(),
    ensures
        final(out)@.len() == old(out)@.len(),
        forall|i: int|
            0 <= i < out_at || out_at + dim <= i < final(out)@.len() ==> #[trigger] final(out)@[i]
                == old(out)@[i],
        attends(
            ar,
            head(q@, q_at as int, dim as int),
            heads_and(
                k@,
                stride as int,
                off as int,
                dim as int,
                count as int,
                new_key(new),
            ),
            heads_and(
                v@,
                stride as int,
                off as int,
                dim as int,
                count as int,
                new_value(new),
            ),
            scale,
            head(final(out)@, out_at as int, dim as int),
        ),
{
    let ghost before = out@;
    let ghost qh = head(q@, q_at as int, dim as int);
    let ghost keys = heads_and(
        k@,
        stride as int,
        off as int,
        dim as int,
        count as int,
        new_key(new),
    );
    let ghost values = heads_and(
        v@,
        stride as int,
        off as int,
        dim as int,
        count as int,
        new_value(new),
    );
    let k_total: usize = k.len();
    let v_total: usize = v.len();
    let out_total: usize = out.len();
    let total: usize = match new {
        Some(_) => count + 1,
        None => count,
    };
    let zero: T = ar.from_int(0);
    let mut scores: Vec<T> = Vec::with_capacity(total);
    let mut j: usize = 0;
    while j < total
        invariant
            total == keys.len(),
            j <= total,
            total == count || (total == count + 1 && new is Some),
            q_at + dim <= q@.len(),
            k_total == k@.len(),
            heads_fit(k@.len(), stride as int, off as int, dim as int, count as int),
            new matches Some((nk, nv)) ==> off + dim <= nk@.len() && off + dim <= nv@.len(),
            qh == head(q@, q_at as int, dim as int),
            keys == heads_and(
                k@,
                stride as int,
                off as int,
                dim as int,
                count as int,
                new_key(new),
            ),
            scores@.len() == j,
            forall|i: int|
                0 <= i < j ==> scored(ar, zero, qh, keys[i], scale, #[trigger] scores@[i]),
        decreases total - j,
    {
        let acc: T = if j < count {
            proof {
                head_fits(
                    k@.len(),
                    stride as int,
                    off as int,
                    dim as int,
                    count as int,
                    j as int,
                );
            }
            dot(ar, zero, q, q_at, k, j * stride + off, dim)
        } else {
            match new {
                Some((nk, _)) => dot(ar, zero, q, q_at, nk, off, dim),
                None => zero,
            }
        };
        proof {
            assert(crate::arith::dots(ar, zero, qh, keys[j as int], acc));
        }
        let s: T = ar.mul(acc, scale);
        scores.push(s);
        j = j + 1;
    }
    let ghost raw = scores@;
    softmax(ar, scores.as_mut_slice());
    let ghost weights = scores@;
    let mut d: usize = 0;
    while d < dim
        invariant
            total == keys.len() == values.len(),
            total == count || (total == count + 1 && new is Some),
            d <= dim,
            out_at + dim <= out@.len(),
            out@.len() == before.len() == out_total,
            v_total == v@.len(),
            heads_fit(v@.len(), stride as int, off as int, dim as int, count as int),
            new matches Some((nk, nv)) ==> off + dim <= nk@.len() && off + dim <= nv@.len(),
            values == heads_and(
                v@,
                stride as int,
                off as int,
                dim as int,
                count as int,
                new_value(new),
            ),
            scores@ == weights,
            weights.len() == total,
            forall|i: int|
                0 <= i < out_at || out_at + dim <= i < out@.len() ==> #[trigger] out@[i]
                    == before[i],
            forall|i: int|
                out_at <= i < out_at + d ==> crate::arith::folds(
                    value_steps(ar, weights, values, i - out_at),
                    total as nat,
                    zero,
                    #[trigger] out@[i],
                ),
        decreases dim - d,
    {
        let mut acc: T = zero;
        let ghost steps = value_steps(ar, weights, values, d as int);
        let mut l: usize = 0;
        while l < total
            invariant
                total == values.len(),
                total == count || (total == count + 1 && new is Some),
                d < dim,
                l <= total,
                v_total == v@.len(),
                heads_fit(v@.len(), stride as int, off as int, dim as int, count as int),
                new matches Some((nk, nv)) ==> off + dim <= nk@.len() && off + dim <= nv@.len(),
                values == heads_and(
                    v@,
                    stride as int,
                    off as int,
                    dim as int,
                    count as int,
                    new_value(new),
                ),
                scores@ == weights,
                weights.len() == total,
                steps == value_steps(ar, weights, values, d as int),
                crate::arith::folds(steps, l as nat, zero, acc),
            decreases total - l,
        {
            let value: T = if l < count {
                proof {
                    head_fits(
                        v@.len(),
                        stride as int,
                        off as int,
                        dim as int,
                        count as int,
                        l as int,
                    );
                }
                v[l * stride + off + d]
            } else {
                match new {
                    Some((_, nv)) => {
                        let nv_total: usize = nv.len();
                        assert(off + d < nv_total);
                        nv[off + d]
                    },
                    None => zero,
                }
            };
            assert(value == values[l as int][d as int]);
            let next: T = mul_add(ar, acc, scores[l], value);
            proof {
                crate::arith::fold_step(steps, l as nat, zero, acc, next);
            }
            acc = next;
            l = l + 1;
        }
        out[out_at + d] = acc;
        d = d + 1;
    }
    proof {
        let oh = head(out@, out_at as int, dim as int);
        let s = AttentionSteps { zero, scores: raw, weights };
        assert forall|i: int| 0 <= i < oh.len() implies crate::arith::folds(
            value_steps(ar, s.weights, values, i),
            keys.len(),
            s.zero,
            #[trigger] oh[i],
        ) by {
            assert(oh[i] == out@[out_at + i]);
            assert(crate::arith::folds(
                value_steps(ar, weights, values, (out_at + i) - out_at),
                total as nat,
                zero,
                out@[out_at + i],
            ));
        }
        assert(attends_by(ar, qh, keys, values, scale, s, oh));
    }
}

/// How the heads of queries and of keys and values are laid out, and which rows
/// a query sees.
#[derive(Debug, Clone, Copy, PartialEq, Eq, Structural)]
pub struct Heads {
    /// Query heads per row.
    pub queries: usize,
    /// Key and value heads per row.
    pub keys: usize,
    /// Values per head.
    pub dim: usize,
    /// Rows of keys and values.
    pub rows: usize,
    /// Whether a query sees only the rows up to its own.
    pub causal: bool,
}

impl Heads {
    /// There are heads and values, and every key head serves as many query heads.
    pub open spec fn wf(self) -> bool {
        &&& self.queries > 0
        &&& self.keys > 0
        &&& self.dim > 0
        &&& self.queries % self.keys == 0
    }

    /// The query heads that share a key head.
    pub open spec fn group(self) -> int {
        self.queries as int / self.keys as int
    }

    /// The key head of query head `h`.
    pub open spec fn key_head(self, h: int) -> int {
        h / self.group()
    }

    /// The rows that the query of row `i` sees.
    pub open spec fn visible(self, i: int) -> int {
        if self.causal {
            i + 1
        } else {
            self.rows as int
        }
    }

    /// The distance of two rows of keys.
    pub open spec fn stride(self) -> int {
        self.keys as int * self.dim as int
    }
}

/// Query `c`, counted over rows and heads, attends to what it sees.
pub open spec fn attention_cell<T, A: Arith<T>>(
    ar: &A,
    g: Heads,
    scale: T,
    q: Seq<T>,
    k: Seq<T>,
    v: Seq<T>,
    out: Seq<T>,
    c: int,
) -> bool {
    let dim = g.dim as int;
    let off = g.key_head(c % g.queries as int) * dim;
    let count = g.visible(c / g.queries as int);
    attends(
        ar,
        head(q, c * dim, dim),
        heads(k, g.stride(), off, dim, count),
        heads(v, g.stride(), off, dim, count),
        scale,
        head(out, c * dim, dim),
    )
}

/// Every query of `q_rows` rows attends to what it sees.
pub open spec fn is_attention<T, A: Arith<T>>(
    ar: &A,
    g: Heads,
    scale: T,
    q: Seq<T>,
    k: Seq<T>,
    v: Seq<T>,
    q_rows: int,
    out: Seq<T>,
) -> bool {
    forall|c: int|
        0 <= c < q_rows * g.queries ==> #[trigger] attention_cell(ar, g, scale, q, k, v, out, c)
}

/// The key head of a query head is one of the key heads.
pub proof fn key_head_bound(g: Heads, h: int)
    requires
        g.wf(),
        0 <= h < g.queries,
    ensures
        g.group() > 0,
        0 <= g.key_head(h) < g.keys,
{
    let (n, m) = (g.queries as int, g.keys as int);
    vstd::arithmetic::div_mod::lemma_fundamental_div_mod(n, m);
    let group = g.group();
    assert(n == m * group);
    assert(group > 0) by (nonlinear_arith)
        requires
            n == m * group,
            n > 0,
            m > 0,
    ;
    crate::grid::index(h, group);
    let kh = h / group;
    assert(kh < m) by (nonlinear_arith)
        requires
            h < n,
            n == m * group,
            kh * group <= h,
            group > 0,
    ;
}

/// The rows of a key head lie inside the matrix.
pub proof fn key_heads_fit(g: Heads, len: nat, kh: int, count: int)
    requires
        g.wf(),
        len == g.rows * g.stride(),
        0 <= kh < g.keys,
        0 <= count <= g.rows,
    ensures
        heads_fit(len, g.stride(), kh * g.dim, g.dim as int, count),
        kh * g.dim + g.dim <= g.stride(),
{
    crate::grid::row_bound(kh, g.keys as int, g.dim as int);
    let s = g.stride();
    assert(s >= 0);
    if count > 0 {
        assert((count - 1) * s + s <= g.rows * s) by (nonlinear_arith)
            requires
                count <= g.rows,
                s >= 0,
        ;
    }
}

/// Attention of every query row and head.
pub fn attend_all<T: Copy, A: Arith<T>>(
    ar: &A,
    g: Heads,
    scale: T,
    q: &[T],
    k: &[T],
    v: &[T],
    q_rows: usize,
    out: &mut [T],
)
    requires
        g.wf(),
        g.causal ==> q_rows <= g.rows,
        q@.len() == q_rows * g.queries * g.dim,
        k@.len() == g.rows * g.stride(),
        v@.len() == g.rows * g.stride(),
        old(out)@.len() == q@.len(),
    ensures
        final(out)@.len() == old(out)@.len(),
        is_attention(ar, g, scale, q@, k@, v@, q_rows as int, final(out)@),
{
    let total: usize = q.len();
    let k_total: usize = k.len();
    let out_total: usize = out.len();
    let nq: usize = g.queries;
    let dim: usize = g.dim;
    let ghost cells = q_rows * g.queries;
    proof {
        if g.rows > 0 {
            assert(g.stride() <= k_total) by (nonlinear_arith)
                requires
                    k_total == g.rows * g.stride(),
                    g.rows >= 1,
                    g.stride() >= 0,
            ;
        }
        if q_rows > 0 {
            assert(g.queries <= cells) by (nonlinear_arith)
                requires
                    cells == q_rows * g.queries,
                    q_rows >= 1,
            ;
            assert(cells <= total) by (nonlinear_arith)
                requires
                    total == cells * g.dim,
                    g.dim >= 1,
                    cells >= 0,
            ;
        } else {
            assert(0 * g.queries == 0) by (nonlinear_arith);
        }
        key_head_bound(g, 0);
    }
    let group: usize = g.queries / g.keys;
    let mut c: usize = 0;
    let mut i: usize = 0;
    while i < q_rows
        invariant
            g.wf(),
            g.causal ==> q_rows <= g.rows,
            total == q@.len() == cells * g.dim,
            cells == q_rows * g.queries,
            cells <= total,
            k@.len() == g.rows * g.stride() == k_total,
            v@.len() == g.rows * g.stride(),
            out@.len() == total == out_total,
            nq == g.queries,
            dim == g.dim,
            group == g.group(),
            group > 0,
            i <= q_rows,
            c == i * nq,
            forall|x: int|
                0 <= x < c ==> #[trigger] attention_cell(
                    ar,
                    g,
                    scale,
                    q@,
                    k@,
                    v@,
                    out@,
                    x,
                ),
        decreases q_rows - i,
    {
        proof {
            crate::grid::row_bound(i as int, q_rows as int, nq as int);
        }
        let count: usize = if g.causal {
            i + 1
        } else {
            g.rows
        };
        let mut h: usize = 0;
        while h < nq
            invariant
                g.wf(),
                total == q@.len() == cells * g.dim,
                cells == q_rows * g.queries,
                cells <= total,
                k@.len() == g.rows * g.stride() == k_total,
                v@.len() == g.rows * g.stride(),
                out@.len() == total == out_total,
                nq == g.queries,
                dim == g.dim,
                group == g.group(),
                group > 0,
                i < q_rows,
                h <= nq,
                c == i * nq + h,
                i * nq + nq <= cells,
                0 <= i * nq,
                count == g.visible(i as int),
                count <= g.rows,
                forall|x: int|
                    0 <= x < c ==> #[trigger] attention_cell(
                        ar,
                        g,
                        scale,
                        q@,
                        k@,
                        v@,
                        out@,
                        x,
                    ),
            decreases nq - h,
        {
            let kh: usize = h / group;
            proof {
                key_head_bound(g, h as int);
                key_heads_fit(g, k@.len(), kh as int, count as int);
                crate::grid::row_bound(c as int, cells, dim as int);
                crate::grid::cell(i as int, h as int, nq as int);
                if count > 0 {
                    assert(g.stride() <= k_total) by (nonlinear_arith)
                        requires
                            k_total == g.rows * g.stride(),
                            g.rows >= 1,
                            g.stride() >= 0,
                    ;
                }
            }
            let ghost before = out@;
            if count > 0 {
                let stride: usize = g.keys * dim;
                attend_head(
                    ar,
                    scale,
                    q,
                    c * dim,
                    k,
                    v,
                    stride,
                    kh * dim,
                    dim,
                    count,
                    None,
                    out,
                    c * dim,
                );
            } else {
                attend_head(
                    ar,
                    scale,
                    q,
                    c * dim,
                    k,
                    v,
                    0,
                    0,
                    dim,
                    0,
                    None,
                    out,
                    c * dim,
                );
                proof {
                    let off = kh * dim;
                    assert(heads(k@, 0, 0, dim as int, 0) =~= heads(
                        k@,
                        g.stride(),
                        off as int,
                        dim as int,
                        0,
                    ));
                    assert(heads(v@, 0, 0, dim as int, 0) =~= heads(
                        v@,
                        g.stride(),
                        off as int,
                        dim as int,
                        0,
                    ));
                }
            }
            proof {
                assert(attention_cell(ar, g, scale, q@, k@, v@, out@, c as int));
                assert forall|x: int| 0 <= x < c + 1 implies #[trigger] attention_cell(
                    ar,
                    g,
                    scale,
                    q@,
                    k@,
                    v@,
                    out@,
                    x,
                ) by {
                    if x < c {
                        assert(attention_cell(ar, g, scale, q@, k@, v@, before, x));
                        crate::grid::row_bound(x, c as int, dim as int);
                        assert(head(out@, x * dim, dim as int) =~= head(
                            before,
                            x * dim,
                            dim as int,
                        ));
                    }
                }
            }
            c = c + 1;
            h = h + 1;
        }
        i = i + 1;
    }
}

/// `scale` may be one divided by the square root of the head width.
pub open spec fn is_scale<T, A: Arith<T>>(ar: &A, dim: usize, scale: T) -> bool {
    exists|one: T, size: T, root: T|
        crate::arith::converts(ar, 1, one) && crate::arith::sizes(ar, dim, size)
            && #[trigger] crate::arith::sqrts(ar, size, root) && #[trigger] crate::arith::divs(
            ar,
            one,
            root,
            scale,
        )
}

/// The refusal of an operand of attention.
pub open spec fn sdpa_len_refusal(label: Seq<char>, len: nat, what: Seq<char>, a: usize, b: usize, c: usize) -> crate::shapes::Refusal {
    crate::shapes::refuse_if(
        len != a * b * c,
        "scaled_dot_product_attention "@ + label + ".len()="@ + crate::text::dec(len)
            + " does not match "@ + what + "="@ + crate::text::dec(a as nat) + "*"@
            + crate::text::dec(b as nat) + "*"@ + crate::text::dec(c as nat) + "="@
            + crate::text::dec((a * b * c) as nat),
    )
}

/// When attention is refused, and how.
pub open spec fn sdpa_refusal(
    q_len: nat,
    k_len: nat,
    v_len: nat,
    seq_len: usize,
    num_q_heads: usize,
    num_kv_heads: usize,
    head_dim: usize,
    out_len: nat,
) -> crate::shapes::Refusal {
    let name = "scaled_dot_product_attention"@;
    crate::shapes::first(
        crate::shapes::first(
            crate::shapes::refuse_if(head_dim == 0, name + " head_dim must be non-zero"@),
            crate::shapes::first(
                crate::shapes::refuse_if(seq_len == 0, name + " seq_len must be non-zero"@),
                crate::shapes::first(
                    crate::shapes::refuse_if(
                        num_q_heads == 0,
                        name + " num_q_heads must be non-zero"@,
                    ),
                    crate::shapes::first(
                        crate::shapes::refuse_if(
                            num_kv_heads == 0,
                            name + " num_kv_heads must be non-zero"@,
                        ),
                        crate::shapes::refuse_if(
                            num_q_heads % num_kv_heads != 0,
                            name + " num_q_heads ("@ + crate::text::dec(num_q_heads as nat)
                                + ") must be a positive multiple of num_kv_heads ("@
                                + crate::text::dec(num_kv_heads as nat) + ")"@,
                        ),
                    ),
                ),
            ),
        ),
        crate::shapes::first(
            crate::shapes::first(
                crate::shapes::product_refusal(
                    name,
                    "q/out"@,
                    seq![seq_len, num_q_heads, head_dim],
                ),
                crate::shapes::product_refusal(
                    name,
                    "k/v"@,
                    seq![seq_len, num_kv_heads, head_dim],
                ),
            ),
            crate::shapes::first(
                sdpa_len_refusal(
                    "q"@,
                    q_len,
                    "seq_len*num_q_heads*head_dim"@,
                    seq_len,
                    num_q_heads,
                    head_dim,
                ),
                crate::shapes::first(
                    sdpa_len_refusal(
                        "k"@,
                        k_len,
                        "seq_len*num_kv_heads*head_dim"@,
                        seq_len,
                        num_kv_heads,
                        head_dim,
                    ),
                    crate::shapes::first(
                        sdpa_len_refusal(
                            "v"@,
                            v_len,
                            "seq_len*num_kv_heads*head_dim"@,
                            seq_len,
                            num_kv_heads,
                            head_dim,
                        ),
                        sdpa_len_refusal(
                            "out"@,
                            out_len,
                            "seq_len*num_q_heads*head_dim"@,
                            seq_len,
                            num_q_heads,
                            head_dim,
                        ),
                    ),
                ),
            ),
        ),
    )
}

fn sdpa_zero(name: &str) -> (e: OcelotlError)
    ensures
        e@ == crate::error::cpu_error("scaled_dot_product_attention"@ + name@),
{
    kernel_err(Text::new("scaled_dot_product_attention").s(name).done())
}

fn sdpa_len_error(
    label: &str,
    len: usize,
    what: &str,
    a: usize,
    b: usize,
    c: usize,
    p: usize,
) -> (e: OcelotlError)
    requires
        p == a * b * c,
        len != p,
    ensures
        Some(e@) == sdpa_len_refusal(label@, len as nat, what@, a, b, c),
{
    kernel_err(
        Text::new("scaled_dot_product_attention ").s(label).s(".len()=").n(len).s(
            " does not match ",
        ).s(what).s("=").n(a).s("*").n(b).s("*").n(c).s("=").n(p).done(),
    )
}

/// Checks the operands of attention with shared key heads.
pub fn validate_scaled_dot_product_attention(
    q_len: usize,
    k_len: usize,
    v_len: usize,
    seq_len: usize,
    num_q_heads: usize,
    num_kv_heads: usize,
    head_dim: usize,
    out_len: usize,
) -> (r: Result<(), OcelotlError>)
    ensures
        crate::shapes::refused(r) == sdpa_refusal(
            q_len as nat,
            k_len as nat,
            v_len as nat,
            seq_len,
            num_q_heads,
            num_kv_heads,
            head_dim,
            out_len as nat,
        ),
        r is Ok ==> {
            &&& head_dim > 0
            &&& seq_len > 0
            &&& num_q_heads > 0
            &&& num_kv_heads > 0
            &&& num_q_heads % num_kv_heads == 0
            &&& q_len == seq_len * num_q_heads * head_dim
            &&& k_len == seq_len * num_kv_heads * head_dim
            &&& v_len == k_len
            &&& out_len == q_len
        },
{
    if head_dim == 0 {
        return Err(sdpa_zero(" head_dim must be non-zero"));
    }
    if seq_len == 0 {
        return Err(sdpa_zero(" seq_len must be non-zero"));
    }
    if num_q_heads == 0 {
        return Err(sdpa_zero(" num_q_heads must be non-zero"));
    }
    if num_kv_heads == 0 {
        return Err(sdpa_zero(" num_kv_heads must be non-zero"));
    }
    if num_q_heads % num_kv_heads != 0 {
        return Err(
            kernel_err(
                Text::new("scaled_dot_product_attention").s(" num_q_heads (").n(num_q_heads).s(
                    ") must be a positive multiple of num_kv_heads (",
                ).n(num_kv_heads).s(")").done(),
            ),
        );
    }
    let q_dims: [usize; 3] = [seq_len, num_q_heads, head_dim];
    let kv_dims: [usize; 3] = [seq_len, num_kv_heads, head_dim];
    proof {
        crate::kv_cache::product_of_three(seq_len, num_q_heads, head_dim);
        crate::kv_cache::product_of_three(seq_len, num_kv_heads, head_dim);
        assert(q_dims@ =~= seq![seq_len, num_q_heads, head_dim]);
        assert(kv_dims@ =~= seq![seq_len, num_kv_heads, head_dim]);
    }
    let q_total: usize = match checked_len_product(
        "scaled_dot_product_attention",
        "q/out",
        &q_dims,
    ) {
        Ok(n) => n,
        Err(e) => return Err(e),
    };
    let kv_total: usize = match checked_len_product(
        "scaled_dot_product_attention",
        "k/v",
        &kv_dims,
    ) {
        Ok(n) => n,
        Err(e) => return Err(e),
    };
    if q_len != q_total {
        return Err(
            sdpa_len_error(
                "q",
                q_len,
                "seq_len*num_q_heads*head_dim",
                seq_len,
                num_q_heads,
                head_dim,
                q_total,
            ),
        );
    }
    if k_len != kv_total {
        return Err(
            sdpa_len_error(
                "k",
                k_len,
                "seq_len*num_kv_heads*head_dim",
                seq_len,
                num_kv_heads,
                head_dim,
                kv_total,
            ),
        );
    }
    if v_len != kv_total {
        return Err(
            sdpa_len_error(
                "v",
                v_len,
                "seq_len*num_kv_heads*head_dim",
                seq_len,
                num_kv_heads,
                head_dim,
                kv_total,
            ),
        );
    }
    if out_len != q_total {
        return Err(
            sdpa_len_error(
                "out",
                out_len,
                "seq_len*num_q_heads*head_dim",
                seq_len,
                num_q_heads,
                head_dim,
                q_total,
            ),
        );
    }
    Ok(())
}

/// The heads of causal attention over a sequence.
pub open spec fn causal_heads(seq_len: usize, queries: usize, keys: usize, dim: usize) -> Heads {
    Heads { queries, keys, dim, rows: seq_len, causal: true }
}

/// Causal attention with shared key heads: each row attends to itself and to
/// the rows before it, and the query heads of a group share a key head.
pub fn scaled_dot_product_attention<T: Copy, A: Arith<T>>(
    ar: &A,
    q: &[T],
    k: &[T],
    v: &[T],
    seq_len: usize,
    num_q_heads: usize,
    num_kv_heads: usize,
    head_dim: usize,
    out: &mut [T],
) -> (r: Result<(), OcelotlError>)
    ensures
        final(out)@.len() == old(out)@.len(),
        crate::shapes::refused(r) == sdpa_refusal(
            q@.len(),
            k@.len(),
            v@.len(),
            seq_len,
            num_q_heads,
            num_kv_heads,
            head_dim,
            old(out)@.len(),
        ),
        r is Err ==> final(out)@ == old(out)@,
        r is Ok ==> exists|scale: T| #[trigger]
            is_scale(ar, head_dim, scale) && is_attention(
                ar,
                causal_heads(seq_len, num_q_heads, num_kv_heads, head_dim),
                scale,
                q@,
                k@,
                v@,
                seq_len as int,
                final(out)@,
            ),
{
    match validate_scaled_dot_product_attention(
        q.len(),
        k.len(),
        v.len(),
        seq_len,
        num_q_heads,
        num_kv_heads,
        head_dim,
        out.len(),
    ) {
        Ok(_) => {},
        Err(e) => return Err(e),
    }
    let one: T = ar.from_int(1);
    let size: T = ar.from_size(head_dim);
    let root: T = ar.sqrt(size);
    let scale: T = ar.div(one, root);
    proof {
        assert(crate::arith::converts(ar, 1, one));
        assert(crate::arith::sizes(ar, head_dim, size));
        assert(crate::arith::sqrts(ar, size, root));
        assert(crate::arith::divs(ar, one, root, scale));
        assert(is_scale(ar, head_dim, scale));
    }
    scaled_dot_product_attention_with_scale(
        ar,
        q,
        k,
        v,
        seq_len,
        num_q_heads,
        num_kv_heads,
        head_dim,
        scale,
        out,
    )
}

/// Causal attention with shared key heads and a given scale.
pub fn scaled_dot_product_attention_with_scale<T: Copy, A: Arith<T>>(
    ar: &A,
    q: &[T],
    k: &[T],
    v: &[T],
    seq_len: usize,
    num_q_heads: usize,
    num_kv_heads: usize,
    head_dim: usize,
    scale: T,
    out: &mut [T],
) -> (r: Result<(), OcelotlError>)
    ensures
        final(out)@.len() == old(out)@.len(),
        crate::shapes::refused(r) == sdpa_refusal(
            q@.len(),
            k@.len(),
            v@.len(),
            seq_len,
            num_q_heads,
            num_kv_heads,
            head_dim,
            old(out)@.len(),
        ),
        r is Err ==> final(out)@ == old(out)@,
        r is Ok ==> is_attention(
            ar,
            causal_heads(seq_len, num_q_heads, num_kv_heads, head_dim),
            scale,
            q@,
            k@,
            v@,
            seq_len as int,
            final(out)@,
        ),
{
    match validate_scaled_dot_product_attention(
        q.len(),
        k.len(),
        v.len(),
        seq_len,
        num_q_heads,
        num_kv_heads,
        head_dim,
        out.len(),
    ) {
        Ok(_) => {},
        Err(e) => return Err(e),
    }
    let g = Heads {
        queries: num_q_heads,
        keys: num_kv_heads,
        dim: head_dim,
        rows: seq_len,
        causal: true,
    };
    proof {
        assert(seq_len * g.stride() == seq_len * num_kv_heads * head_dim) by (nonlinear_arith)
            requires
                g.stride() == num_kv_heads * head_dim,
        ;
    }
    attend_all(ar, g, scale, q, k, v, seq_len, out);
    Ok(())
}

/// The query heads of a group, and no others, share a key head: key head `k`
/// serves the query heads from `k * group` up to `(k + 1) * group`.
pub proof fn group_shares_key_head(g: Heads, h: int)
    requires
        g.wf(),
        0 <= h < g.queries,
    ensures
        0 <= g.key_head(h) < g.keys,
        g.keys * g.group() == g.queries,
        g.key_head(h) * g.group() <= h < (g.key_head(h) + 1) * g.group(),
{
    key_head_bound(g, h);
    crate::grid::index(h, g.group());
    let (k, n) = (g.key_head(h), g.group());
    assert((k + 1) * n == k * n + n) by (nonlinear_arith);
    vstd::arithmetic::div_mod::lemma_fundamental_div_mod(g.queries as int, g.keys as int);
}

/// Later rows do not matter: causal attention of the first rows is the same over
/// any keys and values that agree up to there.
pub proof fn causal_attention_ignores_later_rows<T, A: Arith<T>>(
    ar: &A,
    g: Heads,
    scale: T,
    q: Seq<T>,
    k1: Seq<T>,
    v1: Seq<T>,
    k2: Seq<T>,
    v2: Seq<T>,
    out: Seq<T>,
    rows: int,
)
    requires
        g.wf(),
        g.causal,
        0 <= rows <= g.rows,
        k1.len() == g.rows * g.stride(),
        v1.len() == k1.len(),
        k2.len() == k1.len(),
        v2.len() == k1.len(),
        k1.take(rows * g.stride()) == k2.take(rows * g.stride()),
        v1.take(rows * g.stride()) == v2.take(rows * g.stride()),
        is_attention(ar, g, scale, q, k1, v1, rows, out),
    ensures
        is_attention(ar, g, scale, q, k2, v2, rows, out),
{
    let s = g.stride();
    assert(rows * s <= g.rows * s) by (nonlinear_arith)
        requires
            rows <= g.rows,
            s >= 0,
    ;
    assert forall|c: int| 0 <= c < rows * g.queries implies #[trigger] attention_cell(
        ar,
        g,
        scale,
        q,
        k2,
        v2,
        out,
        c,
    ) by {
        assert(attention_cell(ar, g, scale, q, k1, v1, out, c));
        crate::grid::index_row(c, rows, g.queries as int);
        let h = c % g.queries as int;
        let count = g.visible(c / g.queries as int);
        key_head_bound(g, h);
        let kh = g.key_head(h);
        let off = kh * g.dim;
        let dim = g.dim as int;
        crate::grid::row_bound(kh, g.keys as int, dim);
        let (hk1, hk2) = (heads(k1, s, off, dim, count), heads(k2, s, off, dim, count));
        let (hv1, hv2) = (heads(v1, s, off, dim, count), heads(v2, s, off, dim, count));
        assert forall|j: int| 0 <= j < count implies #[trigger] hk1[j] == hk2[j] && hv1[j]
            == hv2[j] by {
            crate::grid::row_bound(j, rows, s);
            let at = j * s + off;
            let n = rows * s;
            assert(head(k1, at, dim) =~= k1.take(n).subrange(at, at + dim));
            assert(head(k2, at, dim) =~= k2.take(n).subrange(at, at + dim));
            assert(head(v1, at, dim) =~= v1.take(n).subrange(at, at + dim));
            assert(head(v2, at, dim) =~= v2.take(n).subrange(at, at + dim));
        }
        assert(hk1 =~= hk2);
        assert forall|j: int| 0 <= j < count implies hv1[j] == hv2[j] by {
            assert(hk1[j] == hk2[j]);
        }
        assert(hv1 =~= hv2);
    }
}

} // verus!
