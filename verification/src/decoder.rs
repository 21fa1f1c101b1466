use vstd::prelude::*;

use crate::arith::Arith;
use crate::attention::{attend_all, attend_head, Heads};
use crate::error::OcelotlError;
use crate::shapes::{
    validate_attention_decoder_causal_shapes, validate_attention_decoder_cross_shapes,
    validate_attention_decoder_incremental_cache_append_shapes,
    validate_attention_decoder_incremental_cache_shapes,
    validate_attention_decoder_incremental_shapes, validate_attention_encoder_shapes,
    validate_copy_into_shapes,
};

verus! {

/// Heads that are not shared: as many for keys as for queries.
pub open spec fn own_heads(n_head: usize, head_dim: usize, rows: usize, causal: bool) -> Heads {
    Heads { queries: n_head, keys: n_head, dim: head_dim, rows, causal }
}

proof fn own_heads_lengths(n_head: usize, head_dim: usize, rows: usize, q_rows: int)
    requires
        n_head > 0,
        head_dim > 0,
    ensures
        own_heads(n_head, head_dim, rows, true).wf(),
        own_heads(n_head, head_dim, rows, false).wf(),
        q_rows * (n_head * head_dim) == q_rows * n_head * head_dim,
{
    assert(n_head % n_head == 0) by (nonlinear_arith)
        requires
            n_head > 0,
    ;
    assert(q_rows * (n_head * head_dim) == q_rows * n_head * head_dim) by (nonlinear_arith);
}

/// Every row attends to all rows.
pub fn attention_encoder_scalar<T: Copy, A: Arith<T>>(
    ar: &A,
    q: &[T],
    k: &[T],
    v: &[T],
    seq: usize,
    n_head: usize,
    head_dim: usize,
    scale: T,
    out: &mut [T],
)
    requires
        n_head > 0,
        head_dim > 0,
        q@.len() == seq * (n_head * head_dim),
        k@.len() == q@.len(),
        v@.len() == q@.len(),
        old(out)@.len() == q@.len(),
    ensures
        final(out)@.len() == old(out)@.len(),
        crate::attention::is_attention(
            ar,
            own_heads(n_head, head_dim, seq, false),
            scale,
            q@,
            k@,
            v@,
            seq as int,
            final(out)@,
        ),
{
    proof {
        own_heads_lengths(n_head, head_dim, seq, seq as int);
    }
    let g = Heads { queries: n_head, keys: n_head, dim: head_dim, rows: seq, causal: false };
    attend_all(ar, g, scale, q, k, v, seq, out);
}

/// Encoder self-attention.
pub fn attention_encoder_d<T: Copy, A: Arith<T>>(
    ar: &A,
    q: &[T],
    k: &[T],
    v: &[T],
    seq: usize,
    n_head: usize,
    head_dim: usize,
    scale: T,
    out: &mut [T],
) -> (r: Result<(), OcelotlError>)
    ensures
        final(out)@.len() == old(out)@.len(),
        crate::shapes::refused(r) == crate::shapes::self_attention_refusal(
            "attention_encoder_d"@,
            q@.len(),
            k@.len(),
            v@.len(),
            seq as nat,
            n_head as nat,
            head_dim as nat,
            old(out)@.len(),
        ),
        r is Err ==> final(out)@ == old(out)@,
        r is Ok ==> crate::attention::is_attention(
            ar,
            own_heads(n_head, head_dim, seq, false),
            scale,
            q@,
            k@,
            v@,
            seq as int,
            final(out)@,
        ),
{
    match validate_attention_encoder_shapes(
        q.len(),
        k.len(),
        v.len(),
        seq,
        n_head,
        head_dim,
        out.len(),
    ) {
        Ok(_) => {
            attention_encoder_scalar(ar, q, k, v, seq, n_head, head_dim, scale, out);
            Ok(())
        },
        Err(e) => Err(e),
    }
}

/// Every row attends to itself and to the rows before it.
pub fn attention_decoder_causal_scalar<T: Copy, A: Arith<T>>(
    ar: &A,
    q: &[T],
    k: &[T],
    v: &[T],
    seq: usize,
    n_head: usize,
    head_dim: usize,
    scale: T,
    out: &mut [T],
)
    requires
        n_head > 0,
        head_dim > 0,
        q@.len() == seq * (n_head * head_dim),
        k@.len() == q@.len(),
        v@.len() == q@.len(),
        old(out)@.len() == q@.len(),
    ensures
        final(out)@.len() == old(out)@.len(),
        crate::attention::is_attention(
            ar,
            own_heads(n_head, head_dim, seq, true),
            scale,
            q@,
            k@,
            v@,
            seq as int,
            final(out)@,
        ),
{
    proof {
        own_heads_lengths(n_head, head_dim, seq, seq as int);
    }
    let g = Heads { queries: n_head, keys: n_head, dim: head_dim, rows: seq, causal: true };
    attend_all(ar, g, scale, q, k, v, seq, out);
}

/// Causal decoder self-attention.
pub fn attention_decoder_causal_d<T: Copy, A: Arith<T>>(
    ar: &A,
    q: &[T],
    k: &[T],
    v: &[T],
    seq: usize,
    n_head: usize,
    head_dim: usize,
    scale: T,
    out: &mut [T],
) -> (r: Result<(), OcelotlError>)
    ensures
        final(out)@.len() == old(out)@.len(),
        crate::shapes::refused(r) == crate::shapes::self_attention_refusal(
            "attention_decoder_causal_d"@,
            q@.len(),
            k@.len(),
            v@.len(),
            seq as nat,
            n_head as nat,
            head_dim as nat,
            old(out)@.len(),
        ),
        r is Err ==> final(out)@ == old(out)@,
        r is Ok ==> crate::attention::is_attention(
            ar,
            own_heads(n_head, head_dim, seq, true),
            scale,
            q@,
            k@,
            v@,
            seq as int,
            final(out)@,
        ),
{
    match validate_attention_decoder_causal_shapes(
        q.len(),
        k.len(),
        v.len(),
        seq,
        n_head,
        head_dim,
        out.len(),
    ) {
        Ok(_) => {
            attention_decoder_causal_scalar(ar, q, k, v, seq, n_head, head_dim, scale, out);
            Ok(())
        },
        Err(e) => Err(e),
    }
}

/// Every decoder row attends to all encoder rows.
pub fn attention_decoder_cross_scalar<T: Copy, A: Arith<T>>(
    ar: &A,
    q: &[T],
    k: &[T],
    v: &[T],
    q_seq: usize,
    kv_seq: usize,
    n_head: usize,
    head_dim: usize,
    scale: T,
    out: &mut [T],
)
    requires
        n_head > 0,
        head_dim > 0,
        q@.len() == q_seq * (n_head * head_dim),
        k@.len() == kv_seq * (n_head * head_dim),
        v@.len() == k@.len(),
        old(out)@.len() == q@.len(),
    ensures
        final(out)@.len() == old(out)@.len(),
        crate::attention::is_attention(
            ar,
            own_heads(n_head, head_dim, kv_seq, false),
            scale,
            q@,
            k@,
            v@,
            q_seq as int,
            final(out)@,
        ),
{
    proof {
        own_heads_lengths(n_head, head_dim, kv_seq, q_seq as int);
    }
    let g = Heads { queries: n_head, keys: n_head, dim: head_dim, rows: kv_seq, causal: false };
    attend_all(ar, g, scale, q, k, v, q_seq, out);
}

/// Decoder attention over encoder rows.
pub fn attention_decoder_cross_d<T: Copy, A: Arith<T>>(
    ar: &A,
    q: &[T],
    k: &[T],
    v: &[T],
    q_seq: usize,
    kv_seq: usize,
    n_head: usize,
    head_dim: usize,
    scale: T,
    out: &mut [T],
) -> (r: Result<(), OcelotlError>)
    ensures
        final(out)@.len() == old(out)@.len(),
        crate::shapes::refused(r) == crate::shapes::cross_refusal(
            q@.len(),
            k@.len(),
            v@.len(),
            q_seq as nat,
            kv_seq as nat,
            n_head as nat,
            head_dim as nat,
            old(out)@.len(),
        ),
        r is Err ==> final(out)@ == old(out)@,
        r is Ok ==> crate::attention::is_attention(
            ar,
            own_heads(n_head, head_dim, kv_seq, false),
            scale,
            q@,
            k@,
            v@,
            q_seq as int,
            final(out)@,
        ),
{
    match validate_attention_decoder_cross_shapes(
        q.len(),
        k.len(),
        v.len(),
        q_seq,
        kv_seq,
        n_head,
        head_dim,
        out.len(),
    ) {
        Ok(_) => {
            attention_decoder_cross_scalar(
                ar,
                q,
                k,
                v,
                q_seq,
                kv_seq,
                n_head,
                head_dim,
                scale,
                out,
            );
            Ok(())
        },
        Err(e) => Err(e),
    }
}

/// Head `h` of one new row attends to the past rows and to the new one.
pub open spec fn incremental_cell<T, A: Arith<T>>(
    ar: &A,
    q: Seq<T>,
    past_k: Seq<T>,
    past_v: Seq<T>,
    new_k: Option<Seq<T>>,
    new_v: Option<Seq<T>>,
    past_seq: int,
    n_head: int,
    dim: int,
    scale: T,
    out: Seq<T>,
    h: int,
) -> bool {
    crate::attention::attends(
        ar,
        crate::attention::head(q, h * dim, dim),
        crate::attention::heads_and(past_k, n_head * dim, h * dim, dim, past_seq, new_k),
        crate::attention::heads_and(past_v, n_head * dim, h * dim, dim, past_seq, new_v),
        scale,
        crate::attention::head(out, h * dim, dim),
    )
}

/// Every head of one new row attends to the past rows, and to the new one where
/// it is given apart.
pub open spec fn is_incremental<T, A: Arith<T>>(
    ar: &A,
    q: Seq<T>,
    past_k: Seq<T>,
    past_v: Seq<T>,
    new_k: Option<Seq<T>>,
    new_v: Option<Seq<T>>,
    past_seq: int,
    n_head: int,
    dim: int,
    scale: T,
    out: Seq<T>,
) -> bool {
    forall|h: int|
        0 <= h < n_head ==> #[trigger] incremental_cell(
            ar,
            q,
            past_k,
            past_v,
            new_k,
            new_v,
            past_seq,
            n_head,
            dim,
            scale,
            out,
            h,
        )
}

fn attend_row<T: Copy, A: Arith<T>>(
    ar: &A,
    q: &[T],
    k: &[T],
    v: &[T],
    new: Option<(&[T], &[T])>,
    rows: usize,
    n_head: usize,
    head_dim: usize,
    scale: T,
    out: &mut [T],
)
    requires
        n_head > 0,
        head_dim > 0,
        new is Some ==> rows < usize::MAX,
        q@.len() == n_head * head_dim,
        k@.len() >= rows * (n_head * head_dim),
        v@.len() >= rows * (n_head * head_dim),
        new matches Some((nk, nv)) ==> nk@.len() == q@.len() && nv@.len() == q@.len(),
        old(out)@.len() == q@.len(),
    ensures
        final(out)@.len() == old(out)@.len(),
        is_incremental(
            ar,
            q@,
            k@,
            v@,
            crate::attention::new_key(new),
            crate::attention::new_value(new),
            rows as int,
            n_head as int,
            head_dim as int,
            scale,
            final(out)@,
        ),
{
    let state: usize = q.len();
    let ghost nk = crate::attention::new_key(new);
    let ghost nv = crate::attention::new_value(new);
    let mut h: usize = 0;
    while h < n_head
        invariant
            n_head > 0,
            head_dim > 0,
            new is Some ==> rows < usize::MAX,
            state == n_head * head_dim,
            q@.len() == state,
            k@.len() >= rows * state,
            v@.len() >= rows * state,
            new matches Some((a, b)) ==> a@.len() == state && b@.len() == state,
            out@.len() == state,
            h <= n_head,
            nk == crate::attention::new_key(new),
            nv == crate::attention::new_value(new),
            forall|x: int|
                0 <= x < h ==> #[trigger] incremental_cell(
                    ar,
                    q@,
                    k@,
                    v@,
                    nk,
                    nv,
                    rows as int,
                    n_head as int,
                    head_dim as int,
                    scale,
                    out@,
                    x,
                ),
        decreases n_head - h,
    {
        proof {
            crate::grid::row_bound(h as int, n_head as int, head_dim as int);
            if rows > 0 {
                assert((rows - 1) * state + state == rows * state) by (nonlinear_arith);
            }
        }
        let at: usize = h * head_dim;
        let ghost before = out@;
        attend_head(ar, scale, q, at, k, v, state, at, head_dim, rows, new, out, at);
        proof {
            assert(incremental_cell(
                ar,
                q@,
                k@,
                v@,
                nk,
                nv,
                rows as int,
                n_head as int,
                head_dim as int,
                scale,
                out@,
                h as int,
            ));
            assert forall|x: int| 0 <= x < h + 1 implies #[trigger] incremental_cell(
                ar,
                q@,
                k@,
                v@,
                nk,
                nv,
                rows as int,
                n_head as int,
                head_dim as int,
                scale,
                out@,
                x,
            ) by {
                if x < h {
                    assert(incremental_cell(
                        ar,
                        q@,
                        k@,
                        v@,
                        nk,
                        nv,
                        rows as int,
                        n_head as int,
                        head_dim as int,
                        scale,
                        before,
                        x,
                    ));
                    crate::grid::row_bound(x, h as int, head_dim as int);
                    assert(crate::attention::head(out@, x * head_dim, head_dim as int)
                        =~= crate::attention::head(before, x * head_dim, head_dim as int));
                }
            }
        }
        h = h + 1;
    }
}

/// One new row attends to the past rows and to itself.
pub fn attention_decoder_incremental_scalar<T: Copy, A: Arith<T>>(
    ar: &A,
    q: &[T],
    past_k: &[T],
    past_v: &[T],
    new_k: &[T],
    new_v: &[T],
    past_seq: usize,
    n_head: usize,
    head_dim: usize,
    scale: T,
    out: &mut [T],
)
    requires
        n_head > 0,
        head_dim > 0,
        past_seq < usize::MAX,
        q@.len() == n_head * head_dim,
        past_k@.len() == past_seq * (n_head * head_dim),
        past_v@.len() == past_k@.len(),
        new_k@.len() == q@.len(),
        new_v@.len() == q@.len(),
        old(out)@.len() == q@.len(),
    ensures
        final(out)@.len() == old(out)@.len(),
        is_incremental(
            ar,
            q@,
            past_k@,
            past_v@,
            Some(new_k@),
            Some(new_v@),
            past_seq as int,
            n_head as int,
            head_dim as int,
            scale,
            final(out)@,
        ),
{
    attend_row(
        ar,
        q,
        past_k,
        past_v,
        Some((new_k, new_v)),
        past_seq,
        n_head,
        head_dim,
        scale,
        out,
    );
}

/// Decoder self-attention of one new row over a separate past.
pub fn attention_decoder_incremental_d<T: Copy, A: Arith<T>>(
    ar: &A,
    q: &[T],
    past_k: &[T],
    past_v: &[T],
    new_k: &[T],
    new_v: &[T],
    past_seq: usize,
    n_head: usize,
    head_dim: usize,
    scale: T,
    out: &mut [T],
) -> (r: Result<(), OcelotlError>)
    requires
        crate::shapes::incremental_refusal(
            q@.len(),
            past_k@.len(),
            past_v@.len(),
            new_k@.len(),
            new_v@.len(),
            past_seq as nat,
            n_head as nat,
            head_dim as nat,
            old(out)@.len(),
        ) is None ==> past_seq < usize::MAX,
    ensures
        final(out)@.len() == old(out)@.len(),
        crate::shapes::refused(r) == crate::shapes::incremental_refusal(
            q@.len(),
            past_k@.len(),
            past_v@.len(),
            new_k@.len(),
            new_v@.len(),
            past_seq as nat,
            n_head as nat,
            head_dim as nat,
            old(out)@.len(),
        ),
        r is Err ==> final(out)@ == old(out)@,
        r is Ok ==> is_incremental(
            ar,
            q@,
            past_k@,
            past_v@,
            Some(new_k@),
            Some(new_v@),
            past_seq as int,
            n_head as int,
            head_dim as int,
            scale,
            final(out)@,
        ),
{
    match validate_attention_decoder_incremental_shapes(
        q.len(),
        past_k.len(),
        past_v.len(),
        new_k.len(),
        new_v.len(),
        past_seq,
        n_head,
        head_dim,
        out.len(),
    ) {
        Ok(_) => {
            attention_decoder_incremental_scalar(
                ar,
                q,
                past_k,
                past_v,
                new_k,
                new_v,
                past_seq,
                n_head,
                head_dim,
                scale,
                out,
            );
            Ok(())
        },
        Err(e) => Err(e),
    }
}

/// One row attends to the first `visible_seq` rows of keys and values.
pub fn attention_decoder_incremental_cache_scalar<T: Copy, A: Arith<T>>(
    ar: &A,
    q: &[T],
    k: &[T],
    v: &[T],
    visible_seq: usize,
    n_head: usize,
    head_dim: usize,
    scale: T,
    out: &mut [T],
)
    requires
        n_head > 0,
        head_dim > 0,
        q@.len() == n_head * head_dim,
        k@.len() >= visible_seq * (n_head * head_dim),
        v@.len() >= visible_seq * (n_head * head_dim),
        old(out)@.len() == q@.len(),
    ensures
        final(out)@.len() == old(out)@.len(),
        is_incremental(
            ar,
            q@,
            k@,
            v@,
            None,
            None,
            visible_seq as int,
            n_head as int,
            head_dim as int,
            scale,
            final(out)@,
        ),
{
    attend_row(ar, q, k, v, None, visible_seq, n_head, head_dim, scale, out);
}

/// One row attends to the visible rows of a cache.
pub fn attention_decoder_incremental_cache_d<T: Copy, A: Arith<T>>(
    ar: &A,
    q: &[T],
    key_cache: &[T],
    value_cache: &[T],
    visible_seq: usize,
    cache_capacity: usize,
    n_head: usize,
    head_dim: usize,
    scale: T,
    out: &mut [T],
) -> (r: Result<(), OcelotlError>)
    ensures
        final(out)@.len() == old(out)@.len(),
        crate::shapes::refused(r) == crate::shapes::cache_refusal(
            q@.len(),
            key_cache@.len(),
            value_cache@.len(),
            visible_seq as nat,
            cache_capacity as nat,
            n_head as nat,
            head_dim as nat,
            old(out)@.len(),
        ),
        r is Err ==> final(out)@ == old(out)@,
        r is Ok ==> is_incremental(
            ar,
            q@,
            key_cache@,
            value_cache@,
            None,
            None,
            visible_seq as int,
            n_head as int,
            head_dim as int,
            scale,
            final(out)@,
        ),
{
    match validate_attention_decoder_incremental_cache_shapes(
        q.len(),
        key_cache.len(),
        value_cache.len(),
        visible_seq,
        cache_capacity,
        n_head,
        head_dim,
        out.len(),
    ) {
        Ok(_) => {
            proof {
                let s = n_head * head_dim;
                assert(visible_seq * s <= cache_capacity * s) by (nonlinear_arith)
                    requires
                        visible_seq <= cache_capacity,
                        s >= 0,
                ;
            }
            attention_decoder_incremental_cache_scalar(
                ar,
                q,
                key_cache,
                value_cache,
                visible_seq,
                n_head,
                head_dim,
                scale,
                out,
            );
            Ok(())
        },
        Err(e) => Err(e),
    }
}

/// `dst` with `src` written over it from `at` on.
pub open spec fn written<T>(dst: Seq<T>, src: Seq<T>, at: int) -> Seq<T> {
    Seq::new(
        dst.len(),
        |i: int|
            if at <= i < at + src.len() {
                src[i - at]
            } else {
                dst[i]
            },
    )
}

/// Copies all values of `src` into `dst` from `dst_offset` on.
pub fn copy_into_d<T: Copy>(src: &[T], dst: &mut [T], dst_offset: usize) -> (r: Result<
    (),
    OcelotlError,
>)
    ensures
        crate::shapes::refused(r) == crate::shapes::copy_refusal(
            src@.len(),
            old(dst)@.len(),
            dst_offset as nat,
        ),
        r is Err ==> final(dst)@ == old(dst)@,
        r is Ok ==> final(dst)@ == written(old(dst)@, src@, dst_offset as int),
        final(dst)@.len() == old(dst)@.len(),
{
    match validate_copy_into_shapes(src.len(), dst.len(), dst_offset) {
        Ok(_) => {},
        Err(e) => return Err(e),
    }
    let ghost before = dst@;
    let n: usize = src.len();
    let total: usize = dst.len();
    let mut i: usize = 0;
    while i < n
        invariant
            n == src@.len(),
            dst_offset + n <= total == dst@.len() == before.len(),
            i <= n,
            dst@ == written(before, src@.take(i as int), dst_offset as int),
        decreases n - i,
    {
        dst[dst_offset + i] = src[i];
        i = i + 1;
        proof {
            assert(dst@ =~= written(before, src@.take(i as int), dst_offset as int));
        }
    }
    proof {
        assert(src@.take(n as int) =~= src@);
        if n == 0 {
            assert(written(before, src@, dst_offset as int) =~= before);
        }
    }
    Ok(())
}

/// Writes a new row into a cache behind the past rows, after the operands of
/// appending it were checked.
pub fn append_row<T: Copy>(
    q_len: usize,
    key_cache: &mut [T],
    value_cache: &mut [T],
    new_k: &[T],
    new_v: &[T],
    past_seq: usize,
    cache_capacity: usize,
    n_head: usize,
    head_dim: usize,
    out_len: usize,
) -> (r: Result<(), OcelotlError>)
    ensures
        crate::shapes::refused(r) == crate::shapes::append_refusal(
            q_len as nat,
            old(key_cache)@.len(),
            old(value_cache)@.len(),
            new_k@.len(),
            new_v@.len(),
            past_seq as nat,
            cache_capacity as nat,
            n_head as nat,
            head_dim as nat,
            out_len as nat,
        ),
        r is Err ==> final(key_cache)@ == old(key_cache)@ && final(value_cache)@
            == old(value_cache)@,
        r is Ok ==> {
            &&& final(key_cache)@ == written(
                old(key_cache)@,
                new_k@,
                past_seq * (n_head * head_dim),
            )
            &&& final(value_cache)@ == written(
                old(value_cache)@,
                new_v@,
                past_seq * (n_head * head_dim),
            )
            &&& past_seq < cache_capacity
            &&& crate::shapes::cache_refusal(
                q_len as nat,
                old(key_cache)@.len(),
                old(value_cache)@.len(),
                (past_seq + 1) as nat,
                cache_capacity as nat,
                n_head as nat,
                head_dim as nat,
                out_len as nat,
            ) is None
        },
{
    match validate_attention_decoder_incremental_cache_append_shapes(
        q_len,
        key_cache.len(),
        value_cache.len(),
        new_k.len(),
        new_v.len(),
        past_seq,
        cache_capacity,
        n_head,
        head_dim,
        out_len,
    ) {
        Ok(_) => {},
        Err(e) => return Err(e),
    }
    let key_total: usize = key_cache.len();
    proof {
        crate::shapes::append_implies_attend(
            q_len as nat,
            key_cache@.len(),
            value_cache@.len(),
            new_k@.len(),
            new_v@.len(),
            past_seq as nat,
            cache_capacity as nat,
            n_head as nat,
            head_dim as nat,
            out_len as nat,
        );
        assert(past_seq * q_len <= cache_capacity * q_len) by (nonlinear_arith)
            requires
                past_seq <= cache_capacity,
        ;
    }
    let at: usize = past_seq * q_len;
    match copy_into_d(new_k, key_cache, at) {
        Ok(_) => {},
        Err(e) => return Err(e),
    }
    copy_into_d(new_v, value_cache, at)
}

/// Writes a new row into a cache behind the past rows, and lets the new query
/// attend to all rows that are then visible.
pub fn attention_decoder_incremental_cache_append_d<T: Copy, A: Arith<T>>(
    ar: &A,
    q: &[T],
    key_cache: &mut [T],
    value_cache: &mut [T],
    new_k: &[T],
    new_v: &[T],
    past_seq: usize,
    cache_capacity: usize,
    n_head: usize,
    head_dim: usize,
    scale: T,
    out: &mut [T],
) -> (r: Result<(), OcelotlError>)
    ensures
        final(out)@.len() == old(out)@.len(),
        crate::shapes::refused(r) == crate::shapes::append_refusal(
            q@.len(),
            old(key_cache)@.len(),
            old(value_cache)@.len(),
            new_k@.len(),
            new_v@.len(),
            past_seq as nat,
            cache_capacity as nat,
            n_head as nat,
            head_dim as nat,
            old(out)@.len(),
        ),
        r is Err ==> {
            &&& final(out)@ == old(out)@
            &&& final(key_cache)@ == old(key_cache)@
            &&& final(value_cache)@ == old(value_cache)@
        },
        r is Ok ==> {
            &&& final(key_cache)@ == written(
                old(key_cache)@,
                new_k@,
                past_seq * (n_head * head_dim),
            )
            &&& final(value_cache)@ == written(
                old(value_cache)@,
                new_v@,
                past_seq * (n_head * head_dim),
            )
            &&& is_incremental(
                ar,
                q@,
                final(key_cache)@,
                final(value_cache)@,
                None,
                None,
                past_seq + 1,
                n_head as int,
                head_dim as int,
                scale,
                final(out)@,
            )
        },
{
    match append_row(
        q.len(),
        key_cache,
        value_cache,
        new_k,
        new_v,
        past_seq,
        cache_capacity,
        n_head,
        head_dim,
        out.len(),
    ) {
        Ok(_) => {},
        Err(e) => return Err(e),
    }
    attention_decoder_incremental_cache_d(
        ar,
        q,
        key_cache,
        value_cache,
        past_seq + 1,
        cache_capacity,
        n_head,
        head_dim,
        scale,
        out,
    )
}

/// Appending a row to a cache and attending over the cache is attending over
/// the past rows and the new row: the two ways to decode one more token agree.
pub proof fn append_is_incremental<T, A: Arith<T>>(
    ar: &A,
    q: Seq<T>,
    keys: Seq<T>,
    values: Seq<T>,
    new_k: Seq<T>,
    new_v: Seq<T>,
    past_seq: int,
    n_head: int,
    dim: int,
    scale: T,
    out: Seq<T>,
)
    requires
        n_head > 0,
        dim > 0,
        past_seq >= 0,
        new_k.len() == n_head * dim,
        new_v.len() == n_head * dim,
        (past_seq + 1) * (n_head * dim) <= keys.len(),
        values.len() == keys.len(),
    ensures
        is_incremental(
            ar,
            q,
            written(keys, new_k, past_seq * (n_head * dim)),
            written(values, new_v, past_seq * (n_head * dim)),
            None,
            None,
            past_seq + 1,
            n_head,
            dim,
            scale,
            out,
        ) <==> is_incremental(
            ar,
            q,
            keys.take(past_seq * (n_head * dim)),
            values.take(past_seq * (n_head * dim)),
            Some(new_k),
            Some(new_v),
            past_seq,
            n_head,
            dim,
            scale,
            out,
        ),
{
    let s = n_head * dim;
    assert(s > 0) by (nonlinear_arith)
        requires
            s == n_head * dim,
            n_head > 0,
            dim > 0,
    ;
    let at = past_seq * s;
    assert(0 <= at) by (nonlinear_arith)
        requires
            at == past_seq * s,
            past_seq >= 0,
            s > 0,
    ;
    assert((past_seq + 1) * s == at + s) by (nonlinear_arith)
        requires
            at == past_seq * s,
    ;
    assert forall|h: int| 0 <= h < n_head implies (#[trigger] incremental_cell(
        ar,
        q,
        written(keys, new_k, at),
        written(values, new_v, at),
        None,
        None,
        past_seq + 1,
        n_head,
        dim,
        scale,
        out,
        h,
    ) <==> incremental_cell(
        ar,
        q,
        keys.take(at),
        values.take(at),
        Some(new_k),
        Some(new_v),
        past_seq,
        n_head,
        dim,
        scale,
        out,
        h,
    )) by {
        heads_of_written(keys, new_k, past_seq, n_head, dim, h);
        heads_of_written(values, new_v, past_seq, n_head, dim, h);
    }
    if is_incremental(
        ar,
        q,
        keys.take(at),
        values.take(at),
        Some(new_k),
        Some(new_v),
        past_seq,
        n_head,
        dim,
        scale,
        out,
    ) {
        assert forall|h: int| 0 <= h < n_head implies #[trigger] incremental_cell(
            ar,
            q,
            written(keys, new_k, at),
            written(values, new_v, at),
            None,
            None,
            past_seq + 1,
            n_head,
            dim,
            scale,
            out,
            h,
        ) by {
            assert(incremental_cell(
                ar,
                q,
                keys.take(at),
                values.take(at),
                Some(new_k),
                Some(new_v),
                past_seq,
                n_head,
                dim,
                scale,
                out,
                h,
            ));
        }
    } else if is_incremental(
        ar,
        q,
        written(keys, new_k, at),
        written(values, new_v, at),
        None,
        None,
        past_seq + 1,
        n_head,
        dim,
        scale,
        out,
    ) {
        assert forall|h: int| 0 <= h < n_head implies #[trigger] incremental_cell(
            ar,
            q,
            keys.take(at),
            values.take(at),
            Some(new_k),
            Some(new_v),
            past_seq,
            n_head,
            dim,
            scale,
            out,
            h,
        ) by {
            assert(incremental_cell(
                ar,
                q,
                written(keys, new_k, at),
                written(values, new_v, at),
                None,
                None,
                past_seq + 1,
                n_head,
                dim,
                scale,
                out,
                h,
            ));
        }
    }
}

/// Row `i` of causal attention, on its own: the query of the row attends to the
/// first `i + 1` rows.
pub open spec fn row_is_incremental<T, A: Arith<T>>(
    ar: &A,
    q: Seq<T>,
    k: Seq<T>,
    v: Seq<T>,
    n_head: usize,
    dim: usize,
    scale: T,
    out: Seq<T>,
    i: int,
) -> bool {
    is_incremental(
        ar,
        crate::linear::row(q, n_head * dim, i),
        k,
        v,
        None,
        None,
        i + 1,
        n_head as int,
        dim as int,
        scale,
        crate::linear::row(out, n_head * dim, i),
    )
}

proof fn causal_cell_is_incremental<T, A: Arith<T>>(
    ar: &A,
    q: Seq<T>,
    k: Seq<T>,
    v: Seq<T>,
    seq: usize,
    n_head: usize,
    dim: usize,
    scale: T,
    out: Seq<T>,
    i: int,
    h: int,
)
    requires
        n_head > 0,
        dim > 0,
        q.len() == seq * (n_head * dim),
        out.len() == q.len(),
        0 <= i < seq,
        0 <= h < n_head,
    ensures
        crate::attention::attention_cell(
            ar,
            own_heads(n_head, dim, seq, true),
            scale,
            q,
            k,
            v,
            out,
            i * n_head + h,
        ) <==> incremental_cell(
            ar,
            crate::linear::row(q, n_head * dim, i),
            k,
            v,
            None,
            None,
            i + 1,
            n_head as int,
            dim as int,
            scale,
            crate::linear::row(out, n_head * dim, i),
            h,
        ),
{
    let g = own_heads(n_head, dim, seq, true);
    let (n, d) = (n_head as int, dim as int);
    let s = n * d;
    let c = i * n + h;
    crate::grid::cell(i, h, n);
    assert(n / n == 1) by (nonlinear_arith)
        requires
            n > 0,
    ;
    assert(g.group() == 1);
    assert(h / 1 == h) by (nonlinear_arith);
    assert(c * d == i * s + h * d) by (nonlinear_arith)
        requires
            c == i * n + h,
            s == n * d,
    ;
    crate::grid::row_bound(h, n, d);
    crate::grid::row_bound(i, seq as int, s);
    assert(crate::attention::head(q, c * d, d) =~= crate::attention::head(
        crate::linear::row(q, s, i),
        h * d,
        d,
    ));
    assert(crate::attention::head(out, c * d, d) =~= crate::attention::head(
        crate::linear::row(out, s, i),
        h * d,
        d,
    ));
}

/// Causal attention over a sequence is the attention of each row over the rows
/// up to its own: decoding token by token gives what decoding the whole does.
pub proof fn causal_is_row_by_row<T, A: Arith<T>>(
    ar: &A,
    q: Seq<T>,
    k: Seq<T>,
    v: Seq<T>,
    seq: usize,
    n_head: usize,
    dim: usize,
    scale: T,
    out: Seq<T>,
)
    requires
        n_head > 0,
        dim > 0,
        q.len() == seq * (n_head * dim),
        out.len() == q.len(),
    ensures
        crate::attention::is_attention(
            ar,
            own_heads(n_head, dim, seq, true),
            scale,
            q,
            k,
            v,
            seq as int,
            out,
        ) <==> forall|i: int|
            0 <= i < seq ==> #[trigger] row_is_incremental(
                ar,
                q,
                k,
                v,
                n_head,
                dim,
                scale,
                out,
                i,
            ),
{
    let g = own_heads(n_head, dim, seq, true);
    let n = n_head as int;
    if crate::attention::is_attention(ar, g, scale, q, k, v, seq as int, out) {
        assert forall|i: int| 0 <= i < seq implies #[trigger] row_is_incremental(
            ar,
            q,
            k,
            v,
            n_head,
            dim,
            scale,
            out,
            i,
        ) by {
            assert forall|h: int| 0 <= h < n_head implies #[trigger] incremental_cell(
                ar,
                crate::linear::row(q, n_head * dim, i),
                k,
                v,
                None,
                None,
                i + 1,
                n_head as int,
                dim as int,
                scale,
                crate::linear::row(out, n_head * dim, i),
                h,
            ) by {
                crate::grid::row_bound(i, seq as int, n);
                let c = i * n + h;
                assert(crate::attention::attention_cell(ar, g, scale, q, k, v, out, c));
                causal_cell_is_incremental(ar, q, k, v, seq, n_head, dim, scale, out, i, h);
            }
        }
    }
    if forall|i: int|
        0 <= i < seq ==> #[trigger] row_is_incremental(ar, q, k, v, n_head, dim, scale, out, i) {
        assert forall|c: int| 0 <= c < seq * g.queries implies #[trigger] crate::attention::attention_cell(
            ar,
            g,
            scale,
            q,
            k,
            v,
            out,
            c,
        ) by {
            let (i, h) = (c / n, c % n);
            crate::grid::index_row(c, seq as int, n);
            assert(row_is_incremental(ar, q, k, v, n_head, dim, scale, out, i));
            causal_cell_is_incremental(ar, q, k, v, seq, n_head, dim, scale, out, i, h);
        }
    }
}

proof fn heads_of_written<T>(
    m: Seq<T>,
    new: Seq<T>,
    past_seq: int,
    n_head: int,
    dim: int,
    h: int,
)
    requires
        n_head > 0,
        dim > 0,
        past_seq >= 0,
        0 <= h < n_head,
        new.len() == n_head * dim,
        (past_seq + 1) * (n_head * dim) <= m.len(),
    ensures
        crate::attention::heads_and(
            written(m, new, past_seq * (n_head * dim)),
            n_head * dim,
            h * dim,
            dim,
            past_seq + 1,
            None,
        ) == crate::attention::heads_and(
            m.take(past_seq * (n_head * dim)),
            n_head * dim,
            h * dim,
            dim,
            past_seq,
            Some(new),
        ),
{
    let s = n_head * dim;
    let at = past_seq * s;
    crate::grid::row_bound(h, n_head, dim);
    crate::grid::row_bound(past_seq, past_seq + 1, s);
    let w = written(m, new, at);
    let a = crate::attention::heads_and(w, s, h * dim, dim, past_seq + 1, None);
    let b = crate::attention::heads_and(m.take(at), s, h * dim, dim, past_seq, Some(new));
    assert(a.len() == b.len());
    assert forall|j: int| 0 <= j < a.len() implies a[j] == b[j] by {
        if j < past_seq {
            crate::grid::row_bound(j, past_seq, s);
            assert(crate::attention::head(w, j * s + h * dim, dim) =~= crate::attention::head(
                m.take(at),
                j * s + h * dim,
                dim,
            ));
        } else {
            assert(crate::attention::head(w, j * s + h * dim, dim) =~= crate::attention::head(
                new,
                h * dim,
                dim,
            ));
        }
    }
    assert(a =~= b);
}

} // verus!
