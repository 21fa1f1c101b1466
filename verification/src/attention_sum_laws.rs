use vstd::prelude::*;

use crate::arith::Arith;
use crate::attention::Heads;
use crate::reals::Reals;

verus! {

/// `p` weighs `n` things by their scores: the weights are positive, add up to one,
/// and relate to each other as the exponentials of the scores.
pub open spec fn weighs<T>(re: Reals<T>, p: Seq<real>, score: spec_fn(int) -> real) -> bool {
    &&& crate::reals::sum(|j: int| p[j], p.len()) == 1real
    &&& forall|j: int| 0 <= j < p.len() ==> #[trigger] p[j] > 0real
    &&& forall|i: int, j: int|
        0 <= i < p.len() && 0 <= j < p.len() ==> #[trigger] p[i] * (re.exp)(score(j))
            == #[trigger] p[j] * (re.exp)(score(i))
}

/// What one query attends to.
proof fn attends_value<T, A: Arith<T>>(
    ar: &A,
    re: Reals<T>,
    q: Seq<T>,
    keys: Seq<Seq<T>>,
    values: Seq<Seq<T>>,
    scale: T,
    out: Seq<T>,
) -> (p: Seq<real>)
    requires
        re.exact(ar),
        re.exponentials(),
        keys.len() > 0,
        crate::attention::attends(ar, q, keys, values, scale, out),
    ensures
        p.len() == keys.len(),
        out.len() == q.len(),
        weighs(
            re,
            p,
            |j: int|
                crate::reals::sum(|e: int| (re.value)(q[e]) * (re.value)(keys[j][e]), q.len()) * (
                re.value)(scale),
        ),
        forall|d: int|
            0 <= d < out.len() ==> (re.value)(#[trigger] out[d]) == crate::reals::sum(
                |j: int| p[j] * (re.value)(values[j][d]),
                keys.len(),
            ),
{
    let val = re.value;
    let n = keys.len();
    let s = choose|s: crate::attention::AttentionSteps<T>| #[trigger]
        crate::attention::attends_by(ar, q, keys, values, scale, s, out);
    let score = |j: int|
        crate::reals::sum(|e: int| val(q[e]) * val(keys[j][e]), q.len()) * val(scale);
    assert forall|j: int| 0 <= j < n implies val(#[trigger] s.scores[j]) == score(j) by {
        assert(crate::attention::scored(ar, s.zero, q, keys[j], scale, s.scores[j]));
        let acc = choose|acc: T| #[trigger]
            crate::arith::dots(ar, s.zero, q, keys[j], acc) && crate::arith::muls(
                ar,
                acc,
                scale,
                s.scores[j],
            );
        re.dots_value(ar, s.zero, q, keys[j], acc);
    }
    crate::activation_laws::softmax_weights_are_exponential(ar, re, s.scores, s.weights, 0, 0);
    let p = Seq::new(n, |j: int| val(s.weights[j]));
    crate::reals::equal_sums(|j: int| p[j], |k: int| val(s.weights[k]), n);
    assert forall|j: int| 0 <= j < p.len() implies #[trigger] p[j] > 0real by {
        crate::activation_laws::softmax_weights_are_exponential(ar, re, s.scores, s.weights, j, j);
    }
    assert forall|i: int, j: int| 0 <= i < p.len() && 0 <= j < p.len() implies #[trigger] p[i] * (
    re.exp)(score(j)) == #[trigger] p[j] * (re.exp)(score(i)) by {
        crate::activation_laws::softmax_weights_are_exponential(ar, re, s.scores, s.weights, i, j);
        assert(val(s.scores[i]) == score(i) && val(s.scores[j]) == score(j));
    }
    re.accumulates_value(ar);
    assert forall|d: int| 0 <= d < out.len() implies val(#[trigger] out[d]) == crate::reals::sum(
        |j: int| p[j] * val(values[j][d]),
        n,
    ) by {
        re.fold_value(
            crate::attention::value_steps(ar, s.weights, values, d),
            |j: int| p[j] * val(values[j][d]),
            n,
            s.zero,
            out[d],
        );
    }
    p
}

/// The product of query head `h` of row `r` with its key in row `j`, scaled.
pub open spec fn score<T>(
    re: Reals<T>,
    q: Seq<T>,
    k: Seq<T>,
    queries: int,
    keys: int,
    dim: int,
    scale: T,
    r: int,
    h: int,
    j: int,
) -> real {
    crate::reals::sum(
        |e: int|
            (re.value)(q[(r * queries + h) * dim + e]) * (re.value)(
                k[(j * keys + h / (queries / keys)) * dim + e],
            ),
        dim as nat,
    ) * (re.value)(scale)
}

/// What attention gives: there are weights of the rows that row `r` sees (itself
/// and those before it, where attention is causal, else all), by their scores,
/// such that head `h` of the output is the sum of the values of its key head in
/// those rows, weighted. Key head `kh` serves the query heads whose number divided
/// by the size of a group is `kh`. Without rounding.
pub proof fn attention_weighs_what_it_sees<T, A: Arith<T>>(
    ar: &A,
    re: Reals<T>,
    g: Heads,
    scale: T,
    q: Seq<T>,
    k: Seq<T>,
    v: Seq<T>,
    q_rows: int,
    out: Seq<T>,
    r: int,
    h: int,
) -> (p: Seq<real>)
    requires
        re.exact(ar),
        re.exponentials(),
        g.wf(),
        crate::attention::is_attention(ar, g, scale, q, k, v, q_rows, out),
        0 <= r < q_rows,
        g.causal ==> r < g.rows,
        g.rows > 0,
        0 <= h < g.queries,
        q.len() == q_rows * g.queries * g.dim,
        k.len() == g.rows * g.keys * g.dim,
        v.len() == k.len(),
        out.len() == q.len(),
    ensures
        p.len() == (if g.causal {
            r + 1
        } else {
            g.rows as int
        }),
        weighs(
            re,
            p,
            |j: int|
                score(
                    re,
                    q,
                    k,
                    g.queries as int,
                    g.keys as int,
                    g.dim as int,
                    scale,
                    r,
                    h,
                    j,
                ),
        ),
        forall|d: int|
            0 <= d < g.dim ==> (re.value)(#[trigger] out[(r * g.queries + h) * g.dim + d])
                == crate::reals::sum(
                |j: int|
                    p[j] * (re.value)(
                        v[(j * g.keys + h / (g.queries as int / g.keys as int)) * g.dim + d],
                    ),
                p.len(),
            ),
{
    let val = re.value;
    let (nq, nk, dim) = (g.queries as int, g.keys as int, g.dim as int);
    let c = r * nq + h;
    crate::grid::cell(r, h, nq);
    crate::grid::row_bound(r, q_rows, nq);
    crate::grid::row_bound(c, q_rows * nq, dim);
    assert(crate::attention::attention_cell(ar, g, scale, q, k, v, out, c));
    let kh = h / (nq / nk);
    crate::attention::key_head_bound(g, h);
    let n = if g.causal {
        r + 1
    } else {
        g.rows as int
    };
    assert(g.rows * g.stride() == g.rows * g.keys * g.dim) by (nonlinear_arith)
        requires
            g.stride() == g.keys * g.dim,
    ;
    crate::attention::key_heads_fit(g, k.len(), kh, n);
    let off = kh * dim;
    let qs = crate::attention::head(q, c * dim, dim);
    let ks = crate::attention::heads(k, g.stride(), off, dim, n);
    let vs = crate::attention::heads(v, g.stride(), off, dim, n);
    let os = crate::attention::head(out, c * dim, dim);
    let p = attends_value(ar, re, qs, ks, vs, scale, os);
    assert forall|j: int, e: int| 0 <= j < n && 0 <= e < dim implies #[trigger] ks[j][e] == k[(j * nk
        + kh) * dim + e] && vs[j][e] == v[(j * nk + kh) * dim + e] by {
        crate::attention::head_fits(k.len(), g.stride(), off, dim, n, j);
        assert((j * nk + kh) * dim + e == j * (nk * dim) + kh * dim + e) by (nonlinear_arith);
    }
    let raw = |j: int|
        crate::reals::sum(|e: int| val(qs[e]) * val(ks[j][e]), qs.len()) * val(scale);
    let named = |j: int| score(re, q, k, nq, nk, dim, scale, r, h, j);
    assert forall|j: int| 0 <= j < n implies #[trigger] raw(j) == named(j) by {
        let f = |e: int| val(qs[e]) * val(ks[j][e]);
        let f2 = |e: int| val(q[(r * nq + h) * dim + e]) * val(k[(j * nk + h / (nq / nk)) * dim + e]);
        assert forall|e: int| 0 <= e < dim implies #[trigger] f(e) == f2(e) by {
            assert(qs[e] == q[c * dim + e]);
            assert(ks[j][e] == k[(j * nk + kh) * dim + e]);
        }
        crate::reals::equal_sums(f, f2, dim as nat);
    }
    assert forall|i: int, j: int| 0 <= i < p.len() && 0 <= j < p.len() implies #[trigger] p[i] * (
    re.exp)(named(j)) == #[trigger] p[j] * (re.exp)(named(i)) by {
        assert(raw(i) == named(i) && raw(j) == named(j));
    }
    assert forall|d: int| 0 <= d < dim implies val(#[trigger] out[(r * nq + h) * dim + d])
        == crate::reals::sum(
        |j: int| p[j] * val(v[(j * nk + h / (nq / nk)) * dim + d]),
        p.len(),
    ) by {
        assert(os[d] == out[c * dim + d]);
        let f = |j: int| p[j] * val(vs[j][d]);
        let f2 = |j: int| p[j] * val(v[(j * nk + h / (nq / nk)) * dim + d]);
        assert forall|j: int| 0 <= j < n implies #[trigger] f(j) == f2(j) by {
            assert(ks[j][d] == k[(j * nk + kh) * dim + d]);
        }
        crate::reals::equal_sums(f, f2, p.len());
    }
    p
}

/// The scale of attention: its square times the size of a head is one, and it is
/// positive. Without rounding.
pub proof fn scale_is_over_the_root<T, A: Arith<T>>(
    ar: &A,
    re: Reals<T>,
    head_dim: usize,
    scale: T,
)
    requires
        re.exact(ar),
        re.roots(),
        head_dim > 0,
        crate::attention::is_scale(ar, head_dim, scale),
    ensures
        (re.value)(scale) * (re.value)(scale) * ((head_dim as int) as real) == 1real,
        (re.value)(scale) > 0real,
{
    let (one, size, root) = choose|one: T, size: T, root: T| #[trigger]
        crate::arith::converts(ar, 1, one) && #[trigger] crate::arith::sizes(ar, head_dim, size)
            && #[trigger] crate::arith::sqrts(ar, size, root) && crate::arith::divs(
            ar,
            one,
            root,
            scale,
        );
    let (s, d, t) = ((re.value)(scale), (head_dim as int) as real, (re.root)((head_dim as int) as real));
    assert(t >= 0real && t * t == d && d > 0real);
    assert(t > 0real) by (nonlinear_arith)
        requires
            t >= 0real,
            t * t == d,
            d > 0real,
    ;
    assert(s * t == 1real) by (nonlinear_arith)
        requires
            s == 1real / t,
            t > 0real,
    ;
    assert(s * s * d == 1real && s > 0real) by (nonlinear_arith)
        requires
            s * t == 1real,
            t * t == d,
            t > 0real,
    ;
}

} // verus!
