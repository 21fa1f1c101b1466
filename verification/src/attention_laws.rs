use vstd::prelude::*;

use crate::arith::Arith;
use crate::attention::Heads;
use crate::modes::CpuKernelMode;

verus! {

/// The modes without lanes compute attention as the reference does: what they
/// give for all queries of some rows is attention of those rows.
pub proof fn plain_modes_are_the_reference<T, A: Arith<T>>(
    ar: &A,
    mode: CpuKernelMode,
    g: Heads,
    scale: T,
    q: Seq<T>,
    k: Seq<T>,
    v: Seq<T>,
    rows: int,
    out: Seq<T>,
)
    requires
        mode != CpuKernelMode::Avx2,
    ensures
        crate::attention_modes::cells_in(ar, mode, g, scale, q, k, v, 0, rows * g.queries, out)
            <==> crate::attention::is_attention(ar, g, scale, q, k, v, rows, out),
{
    let dim = g.dim as int;
    if crate::attention_modes::cells_in(ar, mode, g, scale, q, k, v, 0, rows * g.queries, out) {
        assert forall|c: int| 0 <= c < rows * g.queries implies #[trigger] crate::attention::attention_cell(
            ar,
            g,
            scale,
            q,
            k,
            v,
            out,
            c,
        ) by {
            assert(crate::attention_modes::cell_in(
                ar,
                mode,
                g,
                scale,
                q,
                k,
                v,
                0 + c,
                crate::attention::head(out, c * g.dim, g.dim as int),
            ));
        }
    }
    if crate::attention::is_attention(ar, g, scale, q, k, v, rows, out) {
        assert forall|c: int| 0 <= c < rows * g.queries implies #[trigger] crate::attention_modes::cell_in(
            ar,
            mode,
            g,
            scale,
            q,
            k,
            v,
            0 + c,
            crate::attention::head(out, c * g.dim, g.dim as int),
        ) by {
            assert(crate::attention::attention_cell(ar, g, scale, q, k, v, out, c));
        }
    }
}

/// The first rows of one head, whatever follows them.
proof fn heads_of_take<T>(m: Seq<T>, count: int, n_head: int, dim: int, h: int)
    requires
        0 <= h < n_head,
        dim > 0,
        0 <= count,
        count * (n_head * dim) <= m.len(),
    ensures
        crate::attention::heads(m.take(count * (n_head * dim)), n_head * dim, h * dim, dim, count)
            == crate::attention::heads(m, n_head * dim, h * dim, dim, count),
{
    let s = n_head * dim;
    crate::grid::row_bound(h, n_head, dim);
    let a = crate::attention::heads(m.take(count * s), s, h * dim, dim, count);
    let b = crate::attention::heads(m, s, h * dim, dim, count);
    assert forall|j: int| 0 <= j < count implies a[j] == b[j] by {
        crate::grid::row_bound(j, count, s);
        let at = j * s + h * dim;
        assert(crate::attention::head(m.take(count * s), at, dim) =~= crate::attention::head(
            m,
            at,
            dim,
        ));
    }
    assert(a =~= b);
}

proof fn cache_cell<T, A: Arith<T>>(
    ar: &A,
    mode: CpuKernelMode,
    q: Seq<T>,
    keys: Seq<T>,
    values: Seq<T>,
    visible: usize,
    n_head: usize,
    dim: usize,
    scale: T,
    out: Seq<T>,
    h: int,
)
    requires
        mode != CpuKernelMode::Avx2,
        0 <= h < n_head,
        dim > 0,
        visible * (n_head * dim) <= keys.len(),
        values.len() == keys.len(),
    ensures
        crate::attention_modes::cell_in(
            ar,
            mode,
            crate::decoder::own_heads(n_head, dim, visible, false),
            scale,
            q,
            keys.take(visible * (n_head * dim)),
            values.take(visible * (n_head * dim)),
            h,
            crate::attention::head(out, h * dim, dim as int),
        ) <==> crate::decoder::incremental_cell(
            ar,
            q,
            keys,
            values,
            None,
            None,
            visible as int,
            n_head as int,
            dim as int,
            scale,
            out,
            h,
        ),
{
    let g = crate::decoder::own_heads(n_head, dim, visible, false);
    let n = n_head as int;
    assert(n / n == 1) by (nonlinear_arith)
        requires
            n > 0,
    ;
    assert(g.group() == 1);
    assert(h / 1 == h) by (nonlinear_arith);
    crate::grid::cell(0, h, n);
    heads_of_take(keys, visible as int, n, dim as int, h);
    heads_of_take(values, visible as int, n, dim as int, h);
}

/// Attention of one row over the visible rows of a cache, in a mode without
/// lanes, is the reference over these rows.
pub proof fn cache_attention_is_the_reference<T, A: Arith<T>>(
    ar: &A,
    mode: CpuKernelMode,
    q: Seq<T>,
    keys: Seq<T>,
    values: Seq<T>,
    visible: usize,
    n_head: usize,
    dim: usize,
    scale: T,
    out: Seq<T>,
)
    requires
        mode != CpuKernelMode::Avx2,
        n_head > 0,
        dim > 0,
        visible * (n_head * dim) <= keys.len(),
        values.len() == keys.len(),
    ensures
        crate::attention_modes::cells_in(
            ar,
            mode,
            crate::decoder::own_heads(n_head, dim, visible, false),
            scale,
            q,
            keys.take(visible * (n_head * dim)),
            values.take(visible * (n_head * dim)),
            0,
            n_head as int,
            out,
        ) <==> crate::decoder::is_incremental(
            ar,
            q,
            keys,
            values,
            None,
            None,
            visible as int,
            n_head as int,
            dim as int,
            scale,
            out,
        ),
{
    let g = crate::decoder::own_heads(n_head, dim, visible, false);
    let k = keys.take(visible * (n_head * dim));
    let v = values.take(visible * (n_head * dim));
    let (n, d) = (n_head as int, dim as int);
    if crate::attention_modes::cells_in(ar, mode, g, scale, q, k, v, 0, n, out) {
        assert forall|h: int| 0 <= h < n implies #[trigger] crate::decoder::incremental_cell(
            ar,
            q,
            keys,
            values,
            None,
            None,
            visible as int,
            n,
            d,
            scale,
            out,
            h,
        ) by {
            cache_cell(ar, mode, q, keys, values, visible, n_head, dim, scale, out, h);
            assert(crate::attention_modes::cell_in(
                ar,
                mode,
                g,
                scale,
                q,
                k,
                v,
                0 + h,
                crate::attention::head(out, h * g.dim, g.dim as int),
            ));
        }
    }
    if crate::decoder::is_incremental(
        ar,
        q,
        keys,
        values,
        None,
        None,
        visible as int,
        n,
        d,
        scale,
        out,
    ) {
        assert forall|h: int| 0 <= h < n implies #[trigger] crate::attention_modes::cell_in(
            ar,
            mode,
            g,
            scale,
            q,
            k,
            v,
            0 + h,
            crate::attention::head(out, h * g.dim, g.dim as int),
        ) by {
            cache_cell(ar, mode, q, keys, values, visible, n_head, dim, scale, out, h);
            assert(crate::decoder::incremental_cell(
                ar,
                q,
                keys,
                values,
                None,
                None,
                visible as int,
                n,
                d,
                scale,
                out,
                h,
            ));
        }
    }
}

/// Attention over the visible rows of a cache is attention over all of them but
/// the last, with the last as the new row.
pub proof fn last_row_is_the_new_row<T, A: Arith<T>>(
    ar: &A,
    q: Seq<T>,
    keys: Seq<T>,
    values: Seq<T>,
    visible: int,
    n_head: int,
    dim: int,
    scale: T,
    out: Seq<T>,
)
    requires
        n_head > 0,
        dim > 0,
        visible >= 1,
        visible * (n_head * dim) <= keys.len(),
        values.len() == keys.len(),
    ensures
        crate::decoder::is_incremental(
            ar,
            q,
            keys,
            values,
            None,
            None,
            visible,
            n_head,
            dim,
            scale,
            out,
        ) <==> crate::decoder::is_incremental(
            ar,
            q,
            keys.take((visible - 1) * (n_head * dim)),
            values.take((visible - 1) * (n_head * dim)),
            Some(crate::linear::row(keys, n_head * dim, visible - 1)),
            Some(crate::linear::row(values, n_head * dim, visible - 1)),
            visible - 1,
            n_head,
            dim,
            scale,
            out,
        ),
{
    let s = n_head * dim;
    crate::grid::row_bound(0, n_head, dim);
    crate::grid::row_bound(visible - 1, visible, s);
    let at = (visible - 1) * s;
    let new_k = crate::linear::row(keys, s, visible - 1);
    let new_v = crate::linear::row(values, s, visible - 1);
    assert(crate::decoder::written(keys, new_k, at) =~= keys);
    assert(crate::decoder::written(values, new_v, at) =~= values);
    crate::decoder::append_is_incremental(
        ar,
        q,
        keys,
        values,
        new_k,
        new_v,
        visible - 1,
        n_head,
        dim,
        scale,
        out,
    );
}

/// Two results whose heads are equal are equal.
proof fn equal_heads<T>(a: Seq<T>, b: Seq<T>, count: int, dim: int)
    requires
        dim > 0,
        a.len() == count * dim,
        b.len() == count * dim,
        forall|c: int|
            0 <= c < count ==> #[trigger] crate::attention::head(a, c * dim, dim)
                == crate::attention::head(b, c * dim, dim),
    ensures
        a == b,
{
    assert forall|i: int| 0 <= i < a.len() implies a[i] == b[i] by {
        crate::grid::index_row(i, count, dim);
        let c = i / dim;
        crate::grid::row_bound(c, count, dim);
        let (x, y) = (crate::attention::head(a, c * dim, dim), crate::attention::head(b, c * dim, dim));
        assert(x == y);
        assert(x[i % dim] == a[i]);
        assert(y[i % dim] == b[i]);
    }
    assert(a =~= b);
}

/// Attention of the same rows over the same rows is the same, if the arithmetic
/// always gives the same result.
pub proof fn attentions_agree<T, A: Arith<T>>(
    ar: &A,
    g: Heads,
    scale: T,
    q: Seq<T>,
    k: Seq<T>,
    v: Seq<T>,
    rows: int,
    out1: Seq<T>,
    out2: Seq<T>,
)
    requires
        crate::arith::deterministic(ar),
        g.dim > 0,
        out1.len() == rows * g.queries * g.dim,
        out2.len() == out1.len(),
        crate::attention::is_attention(ar, g, scale, q, k, v, rows, out1),
        crate::attention::is_attention(ar, g, scale, q, k, v, rows, out2),
    ensures
        out1 == out2,
{
    let dim = g.dim as int;
    let n = rows * g.queries;
    assert forall|c: int| 0 <= c < n implies #[trigger] crate::attention::head(out1, c * dim, dim)
        == crate::attention::head(out2, c * dim, dim) by {
        assert(crate::attention::attention_cell(ar, g, scale, q, k, v, out1, c));
        assert(crate::attention::attention_cell(ar, g, scale, q, k, v, out2, c));
        let off = g.key_head(c % g.queries as int) * dim;
        let count = g.visible(c / g.queries as int);
        crate::attention::attention_is_unique(
            ar,
            crate::attention::head(q, c * dim, dim),
            crate::attention::heads(k, g.stride(), off, dim, count),
            crate::attention::heads(v, g.stride(), off, dim, count),
            scale,
            crate::attention::head(out1, c * dim, dim),
            crate::attention::head(out2, c * dim, dim),
        );
    }
    equal_heads(out1, out2, n, dim);
}

/// Attention that was computed in chunks, by any number of threads and in a mode
/// without lanes, is the reference, value for value, if the arithmetic always
/// gives the same result.
pub proof fn chunks_make_the_reference<T, A: Arith<T>>(
    ar: &A,
    mode: CpuKernelMode,
    g: Heads,
    scale: T,
    q: Seq<T>,
    k: Seq<T>,
    v: Seq<T>,
    rows: int,
    size: int,
    chunked: Seq<T>,
    reference: Seq<T>,
)
    requires
        crate::arith::deterministic(ar),
        mode != CpuKernelMode::Avx2,
        g.dim > 0,
        0 < size,
        chunked.len() == rows * g.queries * g.dim,
        reference.len() == chunked.len(),
        forall|i: int|
            0 <= i && i * size < rows * g.queries ==> #[trigger] crate::attention_modes::cells_in(
                ar,
                mode,
                g,
                scale,
                q,
                k,
                v,
                i * size,
                crate::partition::chunk_count(rows * g.queries, size, i),
                crate::partition::rows_of(
                    chunked,
                    g.dim as int,
                    i * size,
                    crate::partition::chunk_count(rows * g.queries, size, i),
                ),
            ),
        crate::attention::is_attention(ar, g, scale, q, k, v, rows, reference),
    ensures
        chunked == reference,
{
    crate::attention_modes::chunked_attention(
        ar,
        mode,
        g,
        scale,
        q,
        k,
        v,
        rows * g.queries,
        size,
        chunked,
    );
    plain_modes_are_the_reference(ar, mode, g, scale, q, k, v, rows, chunked);
    attentions_agree(ar, g, scale, q, k, v, rows, chunked, reference);
}

/// Attention of one row over the same rows is the same, if the arithmetic always
/// gives the same result.
pub proof fn incrementals_agree<T, A: Arith<T>>(
    ar: &A,
    q: Seq<T>,
    past_k: Seq<T>,
    past_v: Seq<T>,
    new_k: Option<Seq<T>>,
    new_v: Option<Seq<T>>,
    past_seq: int,
    n_head: int,
    dim: int,
    scale: T,
    out1: Seq<T>,
    out2: Seq<T>,
)
    requires
        crate::arith::deterministic(ar),
        dim > 0,
        out1.len() == n_head * dim,
        out2.len() == out1.len(),
        crate::decoder::is_incremental(
            ar,
            q,
            past_k,
            past_v,
            new_k,
            new_v,
            past_seq,
            n_head,
            dim,
            scale,
            out1,
        ),
        crate::decoder::is_incremental(
            ar,
            q,
            past_k,
            past_v,
            new_k,
            new_v,
            past_seq,
            n_head,
            dim,
            scale,
            out2,
        ),
    ensures
        out1 == out2,
{
    assert forall|h: int| 0 <= h < n_head implies #[trigger] crate::attention::head(
        out1,
        h * dim,
        dim,
    ) == crate::attention::head(out2, h * dim, dim) by {
        assert(crate::decoder::incremental_cell(
            ar,
            q,
            past_k,
            past_v,
            new_k,
            new_v,
            past_seq,
            n_head,
            dim,
            scale,
            out1,
            h,
        ));
        assert(crate::decoder::incremental_cell(
            ar,
            q,
            past_k,
            past_v,
            new_k,
            new_v,
            past_seq,
            n_head,
            dim,
            scale,
            out2,
            h,
        ));
        crate::attention::attention_is_unique(
            ar,
            crate::attention::head(q, h * dim, dim),
            crate::attention::heads_and(past_k, n_head * dim, h * dim, dim, past_seq, new_k),
            crate::attention::heads_and(past_v, n_head * dim, h * dim, dim, past_seq, new_v),
            scale,
            crate::attention::head(out1, h * dim, dim),
            crate::attention::head(out2, h * dim, dim),
        );
    }
    equal_heads(out1, out2, n_head, dim);
}

/// Attention over a cache, in a mode without lanes, gives value for value what
/// attention over the rows before the last visible one and that one as the new
/// row gives, if the arithmetic always gives the same result. Rows of the cache
/// behind the visible ones do not matter.
pub proof fn cache_gives_the_incremental_result<T, A: Arith<T>>(
    ar: &A,
    mode: CpuKernelMode,
    q: Seq<T>,
    keys: Seq<T>,
    values: Seq<T>,
    visible: usize,
    n_head: usize,
    dim: usize,
    scale: T,
    cached: Seq<T>,
    incremental: Seq<T>,
)
    requires
        crate::arith::deterministic(ar),
        mode != CpuKernelMode::Avx2,
        n_head > 0,
        dim > 0,
        visible >= 1,
        visible * (n_head * dim) <= keys.len(),
        values.len() == keys.len(),
        cached.len() == n_head * dim,
        incremental.len() == cached.len(),
        crate::attention_modes::cells_in(
            ar,
            mode,
            crate::decoder::own_heads(n_head, dim, visible, false),
            scale,
            q,
            keys.take(visible * (n_head * dim)),
            values.take(visible * (n_head * dim)),
            0,
            n_head as int,
            cached,
        ),
        crate::decoder::is_incremental(
            ar,
            q,
            keys.take((visible - 1) * (n_head * dim)),
            values.take((visible - 1) * (n_head * dim)),
            Some(crate::linear::row(keys, n_head * dim, visible - 1)),
            Some(crate::linear::row(values, n_head * dim, visible - 1)),
            visible - 1,
            n_head as int,
            dim as int,
            scale,
            incremental,
        ),
    ensures
        cached == incremental,
{
    cache_attention_is_the_reference(
        ar,
        mode,
        q,
        keys,
        values,
        visible,
        n_head,
        dim,
        scale,
        cached,
    );
    let (n, d) = (n_head as int, dim as int);
    last_row_is_the_new_row(ar, q, keys, values, visible as int, n, d, scale, incremental);
    incrementals_agree(
        ar,
        q,
        keys,
        values,
        None,
        None,
        visible as int,
        n,
        d,
        scale,
        cached,
        incremental,
    );
}

/// Causal attention does not see later rows, value for value: two results agree
/// on the first rows where queries, keys and values agree on them, if the
/// arithmetic always gives the same result.
pub proof fn causal_prefixes_agree<T, A: Arith<T>>(
    ar: &A,
    g: Heads,
    scale: T,
    q1: Seq<T>,
    k1: Seq<T>,
    v1: Seq<T>,
    out1: Seq<T>,
    q2: Seq<T>,
    k2: Seq<T>,
    v2: Seq<T>,
    out2: Seq<T>,
    rows: int,
)
    requires
        crate::arith::deterministic(ar),
        g.wf(),
        g.causal,
        0 <= rows <= g.rows,
        k1.len() == g.rows * g.stride(),
        v1.len() == k1.len(),
        k2.len() == k1.len(),
        v2.len() == k1.len(),
        q1.len() == g.rows * g.queries * g.dim,
        q2.len() == q1.len(),
        out1.len() == q1.len(),
        out2.len() == q1.len(),
        q1.take(rows * g.queries * g.dim) == q2.take(rows * g.queries * g.dim),
        k1.take(rows * g.stride()) == k2.take(rows * g.stride()),
        v1.take(rows * g.stride()) == v2.take(rows * g.stride()),
        crate::attention::is_attention(ar, g, scale, q1, k1, v1, g.rows as int, out1),
        crate::attention::is_attention(ar, g, scale, q2, k2, v2, g.rows as int, out2),
    ensures
        out1.take(rows * g.queries * g.dim) == out2.take(rows * g.queries * g.dim),
{
    let dim = g.dim as int;
    let n = rows * g.queries;
    let all = g.rows * g.queries;
    assert(0 <= n <= all) by (nonlinear_arith)
        requires
            n == rows * g.queries,
            all == g.rows * g.queries,
            0 <= rows <= g.rows,
    ;
    assert(0 <= n * dim <= all * dim) by (nonlinear_arith)
        requires
            0 <= n <= all,
            dim >= 0,
    ;
    let (a, b) = (out1.take(n * dim), out2.take(n * dim));
    assert(crate::attention::is_attention(ar, g, scale, q1, k1, v1, rows, out1)) by {
        assert forall|c: int| 0 <= c < rows * g.queries implies #[trigger] crate::attention::attention_cell(
            ar,
            g,
            scale,
            q1,
            k1,
            v1,
            out1,
            c,
        ) by {
            assert(c < all);
        }
    }
    crate::attention::causal_attention_ignores_later_rows(
        ar,
        g,
        scale,
        q1,
        k1,
        v1,
        k2,
        v2,
        out1,
        rows,
    );
    assert forall|c: int| 0 <= c < n implies #[trigger] crate::attention::head(a, c * dim, dim)
        == crate::attention::head(b, c * dim, dim) by {
        crate::grid::row_bound(c, n, dim);
        assert(crate::attention::attention_cell(ar, g, scale, q1, k2, v2, out1, c));
        assert(c < all);
        assert(crate::attention::attention_cell(ar, g, scale, q2, k2, v2, out2, c));
        assert(crate::attention::head(q1, c * dim, dim) =~= crate::attention::head(
            q1.take(n * dim),
            c * dim,
            dim,
        ));
        assert(crate::attention::head(q2, c * dim, dim) =~= crate::attention::head(
            q2.take(n * dim),
            c * dim,
            dim,
        ));
        let off = g.key_head(c % g.queries as int) * dim;
        let count = g.visible(c / g.queries as int);
        crate::attention::attention_is_unique(
            ar,
            crate::attention::head(q1, c * dim, dim),
            crate::attention::heads(k2, g.stride(), off, dim, count),
            crate::attention::heads(v2, g.stride(), off, dim, count),
            scale,
            crate::attention::head(out1, c * dim, dim),
            crate::attention::head(out2, c * dim, dim),
        );
        assert(crate::attention::head(a, c * dim, dim) =~= crate::attention::head(
            out1,
            c * dim,
            dim,
        ));
        assert(crate::attention::head(b, c * dim, dim) =~= crate::attention::head(
            out2,
            c * dim,
            dim,
        ));
    }
    equal_heads(a, b, n, dim);
}

} // verus!
