use vstd::prelude::*;

use crate::activation::silu_inplace;
use crate::arith::Arith;
use crate::dense::matmul_compute;
use crate::error::{kernel_err, OcelotlError};
use crate::text::Text;

verus! {

/// The refusal of an operand that does not have its shape.
pub open spec fn shape_refusal(label: Seq<char>, len: nat, rows: nat, cols: nat) -> crate::shapes::Refusal {
    crate::shapes::refuse_if(
        len != rows * cols,
        "mlp_gated_silu "@ + label + " length "@ + crate::text::dec(len)
            + " does not match shape "@ + crate::text::dec(rows) + "x"@ + crate::text::dec(cols),
    )
}

fn check_shape(label: &str, len: usize, rows: usize, cols: usize) -> (r: Result<(), OcelotlError>)
    requires
        rows * cols <= usize::MAX,
    ensures
        crate::shapes::refused(r) == shape_refusal(label@, len as nat, rows as nat, cols as nat),
{
    if len != rows * cols {
        Err(
            kernel_err(
                Text::new("mlp_gated_silu ").s(label).s(" length ").n(len).s(
                    " does not match shape ",
                ).n(rows).s("x").n(cols).done(),
            ),
        )
    } else {
        Ok(())
    }
}

/// The lengths of the operands of a gated MLP.
pub struct MlpLengths {
    pub x: nat,
    pub gate_w: nat,
    pub up_w: nat,
    pub down_w: nat,
    pub gate_buf: nat,
    pub up_buf: nat,
    pub out: nat,
}

/// When a gated MLP is refused, and how.
pub open spec fn mlp_refusal(n: MlpLengths, seq_len: nat, hidden: nat, intermediate: nat) -> crate::shapes::Refusal {
    crate::shapes::first(
        crate::shapes::first(
            crate::shapes::refuse_if(seq_len == 0, "mlp_gated_silu seq_len must be non-zero"@),
            crate::shapes::first(
                crate::shapes::refuse_if(hidden == 0, "mlp_gated_silu hidden must be non-zero"@),
                crate::shapes::refuse_if(
                    intermediate == 0,
                    "mlp_gated_silu intermediate must be non-zero"@,
                ),
            ),
        ),
        crate::shapes::first(
            shape_refusal("x slice"@, n.x, seq_len, hidden),
            crate::shapes::first(
                crate::shapes::first(
                    shape_refusal("gate_w"@, n.gate_w, hidden, intermediate),
                    crate::shapes::first(
                        shape_refusal("up_w"@, n.up_w, hidden, intermediate),
                        shape_refusal("down_w"@, n.down_w, intermediate, hidden),
                    ),
                ),
                crate::shapes::first(
                    shape_refusal("gate_buf"@, n.gate_buf, seq_len, intermediate),
                    crate::shapes::first(
                        shape_refusal("up_buf"@, n.up_buf, seq_len, intermediate),
                        shape_refusal("out"@, n.out, seq_len, hidden),
                    ),
                ),
            ),
        ),
    )
}

/// The products that the checks come to compute fit into a `usize`.
pub open spec fn mlp_fits(n: MlpLengths, seq_len: nat, hidden: nat, intermediate: nat) -> bool {
    seq_len > 0 && hidden > 0 && intermediate > 0 ==> {
        &&& seq_len * hidden <= usize::MAX
        &&& n.x == seq_len * hidden ==> {
            &&& hidden * intermediate <= usize::MAX
            &&& n.gate_w == hidden * intermediate && n.up_w == hidden * intermediate && n.down_w
                == intermediate * hidden ==> seq_len * intermediate <= usize::MAX
        }
    }
}

/// `v` may be `silu(g) * u`.
pub open spec fn gated<T, A: Arith<T>>(ar: &A, g: T, u: T, v: T) -> bool {
    exists|s: T| #[trigger]
        crate::expr::evals(ar, crate::activation::silu(g), s) && crate::arith::muls(ar, s, u, v)
}

/// Multiplies two buffers, value by value, after `silu` was applied to the first.
fn gate<T: Copy, A: Arith<T>>(ar: &A, g: &mut [T], u: &[T])
    requires
        old(g)@.len() == u@.len(),
    ensures
        final(g)@.len() == old(g)@.len(),
        forall|i: int|
            0 <= i < u@.len() ==> gated(ar, old(g)@[i], u@[i], #[trigger] final(g)@[i]),
{
    let ghost given = g@;
    silu_inplace(ar, g);
    let ghost active = g@;
    let n: usize = g.len();
    let mut i: usize = 0;
    while i < n
        invariant
            n == g@.len() == u@.len() == given.len() == active.len(),
            i <= n,
            forall|k: int|
                0 <= k < n ==> crate::expr::evals(
                    ar,
                    crate::activation::silu(given[k]),
                    #[trigger] active[k],
                ),
            forall|k: int| i <= k < n ==> #[trigger] g@[k] == active[k],
            forall|k: int| 0 <= k < i ==> gated(ar, given[k], u@[k], #[trigger] g@[k]),
        decreases n - i,
    {
        let v: T = ar.mul(g[i], u[i]);
        proof {
            let s = active[i as int];
            assert(crate::expr::evals(ar, crate::activation::silu(given[i as int]), s));
        }
        g[i] = v;
        i = i + 1;
    }
}

/// A gated MLP may leave its buffers like this, where `gate` is the projection:
/// `gate = x * gate_w`, `up_buf = x * up_w`, `gate_buf = silu(gate) * up_buf` and
/// `out = gate_buf * down_w`.
pub open spec fn mlp_by<T, A: Arith<T>>(
    ar: &A,
    x: Seq<T>,
    hidden: int,
    intermediate: int,
    gate_w: Seq<T>,
    up_w: Seq<T>,
    down_w: Seq<T>,
    gate: Seq<T>,
    gate_buf: Seq<T>,
    up_buf: Seq<T>,
    out: Seq<T>,
) -> bool {
    &&& gate.len() == gate_buf.len()
    &&& crate::dense::is_product(ar, x, gate_w, hidden, intermediate, gate)
    &&& crate::dense::is_product(ar, x, up_w, hidden, intermediate, up_buf)
    &&& forall|i: int|
        0 <= i < gate.len() ==> gated(ar, gate[i], up_buf[i], #[trigger] gate_buf[i])
    &&& crate::dense::is_product(ar, gate_buf, down_w, intermediate, hidden, out)
}

/// Gated MLP: `out = (silu(x * gate_w) * (x * up_w)) * down_w`.
pub fn mlp_gated_silu<T: Copy, A: Arith<T>>(
    ar: &A,
    x: &[T],
    seq_len: usize,
    hidden: usize,
    intermediate: usize,
    gate_w: &[T],
    up_w: &[T],
    down_w: &[T],
    gate_buf: &mut [T],
    up_buf: &mut [T],
    out: &mut [T],
) -> (r: Result<(), OcelotlError>)
    requires
        mlp_fits(
            (MlpLengths {
                x: x@.len(),
                gate_w: gate_w@.len(),
                up_w: up_w@.len(),
                down_w: down_w@.len(),
                gate_buf: old(gate_buf)@.len(),
                up_buf: old(up_buf)@.len(),
                out: old(out)@.len(),
            }),
            seq_len as nat,
            hidden as nat,
            intermediate as nat,
        ),
    ensures
        final(gate_buf)@.len() == old(gate_buf)@.len(),
        final(up_buf)@.len() == old(up_buf)@.len(),
        final(out)@.len() == old(out)@.len(),
        crate::shapes::refused(r) == mlp_refusal(
            (MlpLengths {
                x: x@.len(),
                gate_w: gate_w@.len(),
                up_w: up_w@.len(),
                down_w: down_w@.len(),
                gate_buf: old(gate_buf)@.len(),
                up_buf: old(up_buf)@.len(),
                out: old(out)@.len(),
            }),
            seq_len as nat,
            hidden as nat,
            intermediate as nat,
        ),
        r is Err ==> {
            &&& final(gate_buf)@ == old(gate_buf)@
            &&& final(up_buf)@ == old(up_buf)@
            &&& final(out)@ == old(out)@
        },
        r is Ok ==> exists|gate: Seq<T>| #[trigger]
            mlp_by(
                ar,
                x@,
                hidden as int,
                intermediate as int,
                gate_w@,
                up_w@,
                down_w@,
                gate,
                final(gate_buf)@,
                final(up_buf)@,
                final(out)@,
            ),
{
    if seq_len == 0 {
        return Err(kernel_err(String::from_str("mlp_gated_silu seq_len must be non-zero")));
    }
    if hidden == 0 {
        return Err(kernel_err(String::from_str("mlp_gated_silu hidden must be non-zero")));
    }
    if intermediate == 0 {
        return Err(kernel_err(String::from_str("mlp_gated_silu intermediate must be non-zero")));
    }
    proof {
        assert(intermediate * hidden == hidden * intermediate) by (nonlinear_arith);
    }
    match check_shape("x slice", x.len(), seq_len, hidden) {
        Ok(_) => {},
        Err(e) => return Err(e),
    }
    match check_shape("gate_w", gate_w.len(), hidden, intermediate) {
        Ok(_) => {},
        Err(e) => return Err(e),
    }
    match check_shape("up_w", up_w.len(), hidden, intermediate) {
        Ok(_) => {},
        Err(e) => return Err(e),
    }
    match check_shape("down_w", down_w.len(), intermediate, hidden) {
        Ok(_) => {},
        Err(e) => return Err(e),
    }
    match check_shape("gate_buf", gate_buf.len(), seq_len, intermediate) {
        Ok(_) => {},
        Err(e) => return Err(e),
    }
    match check_shape("up_buf", up_buf.len(), seq_len, intermediate) {
        Ok(_) => {},
        Err(e) => return Err(e),
    }
    match check_shape("out", out.len(), seq_len, hidden) {
        Ok(_) => {},
        Err(e) => return Err(e),
    }
    matmul_compute(ar, x, seq_len, hidden, gate_w, intermediate, gate_buf);
    let ghost projected = gate_buf@;
    matmul_compute(ar, x, seq_len, hidden, up_w, intermediate, up_buf);
    gate(ar, gate_buf, up_buf);
    matmul_compute(ar, gate_buf, seq_len, intermediate, down_w, hidden, out);
    proof {
        assert(mlp_by(
            ar,
            x@,
            hidden as int,
            intermediate as int,
            gate_w@,
            up_w@,
            down_w@,
            projected,
            gate_buf@,
            up_buf@,
            out@,
        ));
    }
    Ok(())
}

/// Rows do not see each other: what the gated MLP leaves in row `r` of every
/// buffer, it may leave there when it is given that row alone.
pub proof fn rows_stand_alone<T, A: Arith<T>>(
    ar: &A,
    x: Seq<T>,
    seq_len: int,
    hidden: int,
    intermediate: int,
    gate_w: Seq<T>,
    up_w: Seq<T>,
    down_w: Seq<T>,
    gate: Seq<T>,
    gate_buf: Seq<T>,
    up_buf: Seq<T>,
    out: Seq<T>,
    r: int,
)
    requires
        0 <= r < seq_len,
        hidden > 0,
        intermediate > 0,
        x.len() == seq_len * hidden,
        gate_buf.len() == seq_len * intermediate,
        up_buf.len() == seq_len * intermediate,
        out.len() == seq_len * hidden,
        mlp_by(
            ar,
            x,
            hidden,
            intermediate,
            gate_w,
            up_w,
            down_w,
            gate,
            gate_buf,
            up_buf,
            out,
        ),
    ensures
        mlp_by(
            ar,
            crate::linear::row(x, hidden, r),
            hidden,
            intermediate,
            gate_w,
            up_w,
            down_w,
            crate::linear::row(gate, intermediate, r),
            crate::linear::row(gate_buf, intermediate, r),
            crate::linear::row(up_buf, intermediate, r),
            crate::linear::row(out, hidden, r),
        ),
{
    let m = intermediate;
    crate::grid::row_bound(r, seq_len, m);
    crate::dense::product_rows(ar, x, gate_w, seq_len, hidden, m, gate, r);
    crate::dense::product_rows(ar, x, up_w, seq_len, hidden, m, up_buf, r);
    crate::dense::product_rows(ar, gate_buf, down_w, seq_len, m, hidden, out, r);
    let g = crate::linear::row(gate, m, r);
    let u = crate::linear::row(up_buf, m, r);
    let b = crate::linear::row(gate_buf, m, r);
    assert forall|i: int| 0 <= i < g.len() implies gated(ar, g[i], u[i], #[trigger] b[i]) by {
        assert(b[i] == gate_buf[r * m + i]);
    }
}

/// Two results of the gated MLP on the same rows are the same, in every buffer,
/// if the arithmetic always gives the same result.
pub proof fn mlps_agree<T, A: Arith<T>>(
    ar: &A,
    x: Seq<T>,
    hidden: int,
    intermediate: int,
    gate_w: Seq<T>,
    up_w: Seq<T>,
    down_w: Seq<T>,
    gate1: Seq<T>,
    gate_buf1: Seq<T>,
    up_buf1: Seq<T>,
    out1: Seq<T>,
    gate2: Seq<T>,
    gate_buf2: Seq<T>,
    up_buf2: Seq<T>,
    out2: Seq<T>,
)
    requires
        crate::arith::deterministic(ar),
        hidden > 0,
        intermediate > 0,
        gate_buf1.len() == gate_buf2.len(),
        up_buf1.len() == gate_buf1.len(),
        up_buf1.len() == up_buf2.len(),
        out1.len() == out2.len(),
        mlp_by(
            ar,
            x,
            hidden,
            intermediate,
            gate_w,
            up_w,
            down_w,
            gate1,
            gate_buf1,
            up_buf1,
            out1,
        ),
        mlp_by(
            ar,
            x,
            hidden,
            intermediate,
            gate_w,
            up_w,
            down_w,
            gate2,
            gate_buf2,
            up_buf2,
            out2,
        ),
    ensures
        gate_buf1 == gate_buf2,
        up_buf1 == up_buf2,
        out1 == out2,
{
    crate::dense::products_agree(ar, x, gate_w, hidden, intermediate, gate1, gate2);
    crate::dense::products_agree(ar, x, up_w, hidden, intermediate, up_buf1, up_buf2);
    assert forall|i: int| 0 <= i < gate_buf1.len() implies gate_buf1[i] == gate_buf2[i] by {
        let (g, u) = (gate1[i], up_buf1[i]);
        assert(gated(ar, g, u, gate_buf1[i]));
        assert(gated(ar, g, u, gate_buf2[i]));
        let s1 = choose|s: T| #[trigger]
            crate::expr::evals(ar, crate::activation::silu(g), s) && crate::arith::muls(
                ar,
                s,
                u,
                gate_buf1[i],
            );
        let s2 = choose|s: T| #[trigger]
            crate::expr::evals(ar, crate::activation::silu(g), s) && crate::arith::muls(
                ar,
                s,
                u,
                gate_buf2[i],
            );
        crate::expr::evals_unique(ar, crate::activation::silu(g), s1, s2);
    }
    assert(gate_buf1 =~= gate_buf2);
    crate::dense::products_agree(ar, gate_buf1, down_w, intermediate, hidden, out1, out2);
}

/// The gated MLP of row `r` alone gives row `r` of the gated MLP of all rows, if
/// the arithmetic always gives the same result.
pub proof fn rows_agree<T, A: Arith<T>>(
    ar: &A,
    x: Seq<T>,
    seq_len: int,
    hidden: int,
    intermediate: int,
    gate_w: Seq<T>,
    up_w: Seq<T>,
    down_w: Seq<T>,
    gate: Seq<T>,
    gate_buf: Seq<T>,
    up_buf: Seq<T>,
    out: Seq<T>,
    r: int,
    gate1: Seq<T>,
    gate_buf1: Seq<T>,
    up_buf1: Seq<T>,
    out1: Seq<T>,
)
    requires
        crate::arith::deterministic(ar),
        0 <= r < seq_len,
        hidden > 0,
        intermediate > 0,
        x.len() == seq_len * hidden,
        gate_buf.len() == seq_len * intermediate,
        up_buf.len() == seq_len * intermediate,
        out.len() == seq_len * hidden,
        gate_buf1.len() == intermediate,
        up_buf1.len() == intermediate,
        out1.len() == hidden,
        mlp_by(
            ar,
            x,
            hidden,
            intermediate,
            gate_w,
            up_w,
            down_w,
            gate,
            gate_buf,
            up_buf,
            out,
        ),
        mlp_by(
            ar,
            crate::linear::row(x, hidden, r),
            hidden,
            intermediate,
            gate_w,
            up_w,
            down_w,
            gate1,
            gate_buf1,
            up_buf1,
            out1,
        ),
    ensures
        out1 == crate::linear::row(out, hidden, r),
        gate_buf1 == crate::linear::row(gate_buf, intermediate, r),
        up_buf1 == crate::linear::row(up_buf, intermediate, r),
{
    rows_stand_alone(
        ar,
        x,
        seq_len,
        hidden,
        intermediate,
        gate_w,
        up_w,
        down_w,
        gate,
        gate_buf,
        up_buf,
        out,
        r,
    );
    crate::grid::row_bound(r, seq_len, hidden);
    crate::grid::row_bound(r, seq_len, intermediate);
    mlps_agree(
        ar,
        crate::linear::row(x, hidden, r),
        hidden,
        intermediate,
        gate_w,
        up_w,
        down_w,
        gate1,
        gate_buf1,
        up_buf1,
        out1,
        crate::linear::row(gate, intermediate, r),
        crate::linear::row(gate_buf, intermediate, r),
        crate::linear::row(up_buf, intermediate, r),
        crate::linear::row(out, hidden, r),
    );
}

/// Adding zero times any of these weights to zero gives zero.
pub open spec fn keeps_zero<T, A: Arith<T>>(ar: &A, zero: T, w: Seq<T>) -> bool {
    forall|i: int, r: T|
        0 <= i < w.len() && #[trigger] crate::arith::accumulates(ar, zero, zero, w[i], r) ==> r
            == zero
}

/// All values of row `r` are zero.
pub open spec fn zero_row<T>(m: Seq<T>, n: int, r: int, zero: T) -> bool {
    forall|c: int| 0 <= c < n ==> #[trigger] crate::linear::row(m, n, r)[c] == zero
}

proof fn zero_sum<T, A: Arith<T>>(
    ar: &A,
    zero: T,
    a: Seq<T>,
    b: Seq<T>,
    k: int,
    n: int,
    r: int,
    j: int,
    count: nat,
    v: T,
)
    requires
        keeps_zero(ar, zero, b),
        forall|p: int| 0 <= p < k ==> #[trigger] a[r * k + p] == zero,
        b.len() == k * n,
        0 <= j < n,
        count <= k,
        crate::arith::folds(crate::dense::matmul_steps(ar, a, b, k, n, r, j), count, zero, v),
    ensures
        v == zero,
    decreases count,
{
    if count > 0 {
        let steps = crate::dense::matmul_steps(ar, a, b, k, n, r, j);
        let m = choose|m: T|
            #[trigger] crate::arith::takes(steps, count - 1, m, v) && crate::arith::folds(
                steps,
                (count - 1) as nat,
                zero,
                m,
            );
        zero_sum(ar, zero, a, b, k, n, r, j, (count - 1) as nat, m);
        let p = count - 1;
        crate::grid::row_bound(p, k, n);
        assert(steps(p, m, v));
        assert(a[r * k + p] == zero);
        assert(crate::arith::accumulates(ar, zero, zero, b[p * n + j], v));
    }
}

proof fn zero_product<T, A: Arith<T>>(
    ar: &A,
    zero: T,
    a: Seq<T>,
    b: Seq<T>,
    rows: int,
    k: int,
    n: int,
    out: Seq<T>,
    r: int,
)
    requires
        forall|z: T| #[trigger] crate::arith::converts(ar, 0, z) ==> z == zero,
        keeps_zero(ar, zero, b),
        zero_row(a, k, r, zero),
        0 <= r < rows,
        0 < k,
        0 < n,
        a.len() == rows * k,
        b.len() == k * n,
        out.len() == rows * n,
        crate::dense::is_product(ar, a, b, k, n, out),
    ensures
        zero_row(out, n, r, zero),
{
    crate::grid::row_bound(r, rows, k);
    crate::grid::row_bound(r, rows, n);
    assert forall|p: int| 0 <= p < k implies #[trigger] a[r * k + p] == zero by {
        assert(crate::linear::row(a, k, r)[p] == zero);
    }
    assert forall|c: int| 0 <= c < n implies #[trigger] crate::linear::row(out, n, r)[c]
        == zero by {
        crate::grid::cell(r, c, n);
        let v = out[r * n + c];
        assert(crate::dense::matmul_cell(ar, zero, a, b, k, n, r, c, v));
        zero_sum(ar, zero, a, b, k, n, r, c, k as nat, v);
    }
}

/// A row of zeros gives a row of zeros, where adding zero times a weight to zero
/// gives zero, and gating zero with zero does.
pub proof fn zero_rows_stay_zero<T, A: Arith<T>>(
    ar: &A,
    zero: T,
    x: Seq<T>,
    seq_len: int,
    hidden: int,
    intermediate: int,
    gate_w: Seq<T>,
    up_w: Seq<T>,
    down_w: Seq<T>,
    gate: Seq<T>,
    gate_buf: Seq<T>,
    up_buf: Seq<T>,
    out: Seq<T>,
    r: int,
)
    requires
        0 <= r < seq_len,
        hidden > 0,
        intermediate > 0,
        x.len() == seq_len * hidden,
        gate_w.len() == hidden * intermediate,
        up_w.len() == hidden * intermediate,
        down_w.len() == intermediate * hidden,
        gate_buf.len() == seq_len * intermediate,
        up_buf.len() == seq_len * intermediate,
        out.len() == seq_len * hidden,
        mlp_by(
            ar,
            x,
            hidden,
            intermediate,
            gate_w,
            up_w,
            down_w,
            gate,
            gate_buf,
            up_buf,
            out,
        ),
        forall|z: T| #[trigger] crate::arith::converts(ar, 0, z) ==> z == zero,
        keeps_zero(ar, zero, gate_w),
        keeps_zero(ar, zero, up_w),
        keeps_zero(ar, zero, down_w),
        forall|v: T| #[trigger] gated(ar, zero, zero, v) ==> v == zero,
        zero_row(x, hidden, r, zero),
    ensures
        zero_row(out, hidden, r, zero),
{
    let m = intermediate;
    zero_product(ar, zero, x, gate_w, seq_len, hidden, m, gate, r);
    zero_product(ar, zero, x, up_w, seq_len, hidden, m, up_buf, r);
    crate::grid::row_bound(r, seq_len, m);
    assert forall|c: int| 0 <= c < m implies #[trigger] crate::linear::row(gate_buf, m, r)[c]
        == zero by {
        let i = r * m + c;
        assert(crate::linear::row(gate, m, r)[c] == gate[i]);
        assert(crate::linear::row(up_buf, m, r)[c] == up_buf[i]);
        assert(gated(ar, gate[i], up_buf[i], gate_buf[i]));
    }
    zero_product(ar, zero, gate_buf, down_w, seq_len, m, hidden, out, r);
}

} // verus!
