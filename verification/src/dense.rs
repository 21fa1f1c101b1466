use vstd::prelude::*;

use crate::arith::{mul_add, Arith};
use crate::error::{kernel_err, OcelotlError};
use crate::shapes::validate_matmul;
use crate::text::Text;

verus! {

/// When an elementwise sum is refused, and how.
pub open spec fn vec_add_refusal(a_len: nat, b_len: nat, out_len: nat) -> crate::shapes::Refusal {
    crate::shapes::refuse_if(
        a_len != b_len || a_len != out_len,
        "vec_add length mismatch: a.len="@ + crate::text::dec(a_len) + ", b.len="@
            + crate::text::dec(b_len) + ", out.len="@ + crate::text::dec(out_len),
    )
}

/// Elementwise sum: `out[i] = a[i] + b[i]`.
pub fn vec_add<T: Copy, A: Arith<T>>(ar: &A, a: &[T], b: &[T], out: &mut [T]) -> (r: Result<
    (),
    OcelotlError,
>)
    ensures
        final(out)@.len() == old(out)@.len(),
        crate::shapes::refused(r) == vec_add_refusal(a@.len(), b@.len(), old(out)@.len()),
        r is Err ==> final(out)@ == old(out)@,
        r is Ok ==> forall|i: int|
            0 <= i < a@.len() ==> crate::arith::adds(ar, a@[i], b@[i], #[trigger] final(out)@[i]),
{
    if a.len() != b.len() || a.len() != out.len() {
        return Err(
            kernel_err(
                Text::new("vec_add length mismatch: a.len=").n(a.len()).s(", b.len=").n(
                    b.len(),
                ).s(", out.len=").n(out.len()).done(),
            ),
        );
    }
    let n: usize = a.len();
    let mut i: usize = 0;
    while i < n
        invariant
            n == a@.len() == b@.len() == out@.len(),
            i <= n,
            forall|k: int|
                0 <= k < i ==> crate::arith::adds(ar, a@[k], b@[k], #[trigger] out@[k]),
        decreases n - i,
    {
        let v: T = ar.add(a[i], b[i]);
        out[i] = v;
        i = i + 1;
    }
    Ok(())
}

/// The error of a dot product of slices of different lengths.
pub open spec fn dot_refusal(a_len: nat, b_len: nat) -> crate::shapes::Refusal {
    crate::shapes::refuse_if(
        a_len != b_len,
        "dot length mismatch: a.len="@ + crate::text::dec(a_len) + ", b.len="@ + crate::text::dec(
            b_len,
        ),
    )
}

/// Inner product, added up from the left.
pub fn dot<T: Copy, A: Arith<T>>(ar: &A, a: &[T], b: &[T]) -> (r: Result<T, OcelotlError>)
    ensures
        crate::shapes::refused(r) == dot_refusal(a@.len(), b@.len()),
        r matches Ok(v) ==> exists|zero: T| #[trigger]
            crate::arith::converts(ar, 0, zero) && crate::arith::dots(ar, zero, a@, b@, v),
{
    if a.len() != b.len() {
        return Err(
            kernel_err(
                Text::new("dot length mismatch: a.len=").n(a.len()).s(", b.len=").n(b.len()).done(),
            ),
        );
    }
    let zero: T = ar.from_int(0);
    let v: T = crate::arith::dot(ar, zero, a, 0, b, 0, a.len());
    proof {
        assert(a@.subrange(0, a@.len() as int) =~= a@);
        assert(b@.subrange(0, b@.len() as int) =~= b@);
        assert(crate::arith::converts(ar, 0, zero));
    }
    Ok(v)
}

/// The steps of cell `(i, j)` of a matrix product.
pub open spec fn matmul_steps<T, A: Arith<T>>(
    ar: &A,
    a: Seq<T>,
    b: Seq<T>,
    k: int,
    n: int,
    i: int,
    j: int,
) -> spec_fn(int, T, T) -> bool {
    |p: int, s: T, t: T| crate::arith::accumulates(ar, s, a[i * k + p], b[p * n + j], t)
}

/// `v` may be cell `(i, j)` of the product: `a[i, p] * b[p, j]`, added up over
/// `p` from the left, starting at zero.
pub open spec fn matmul_cell<T, A: Arith<T>>(
    ar: &A,
    zero: T,
    a: Seq<T>,
    b: Seq<T>,
    k: int,
    n: int,
    i: int,
    j: int,
    v: T,
) -> bool {
    crate::arith::folds(matmul_steps(ar, a, b, k, n, i, j), k as nat, zero, v)
}

/// The first `count` cells of the output are those of the product.
pub open spec fn matmul_cells<T, A: Arith<T>>(
    ar: &A,
    zero: T,
    a: Seq<T>,
    b: Seq<T>,
    k: int,
    n: int,
    out: Seq<T>,
    count: int,
) -> bool {
    forall|x: int|
        0 <= x < count ==> matmul_cell(ar, zero, a, b, k, n, x / n, x % n, #[trigger] out[x])
}

/// The output is the product of an `m` by `k` and a `k` by `n` matrix.
pub open spec fn is_product<T, A: Arith<T>>(
    ar: &A,
    a: Seq<T>,
    b: Seq<T>,
    k: int,
    n: int,
    out: Seq<T>,
) -> bool {
    exists|zero: T| #[trigger]
        crate::arith::converts(ar, 0, zero) && matmul_cells(
            ar,
            zero,
            a,
            b,
            k,
            n,
            out,
            out.len() as int,
        )
}

/// The product of two matrices, cell by cell.
pub fn matmul_compute<T: Copy, A: Arith<T>>(
    ar: &A,
    a: &[T],
    m: usize,
    k: usize,
    b: &[T],
    n: usize,
    out: &mut [T],
)
    requires
        a@.len() == m * k,
        b@.len() == k * n,
        old(out)@.len() == m * n,
    ensures
        final(out)@.len() == old(out)@.len(),
        is_product(ar, a@, b@, k as int, n as int, final(out)@),
{
    let a_total: usize = a.len();
    let b_total: usize = b.len();
    let out_total: usize = out.len();
    let zero: T = ar.from_int(0);
    let mut i: usize = 0;
    while i < m
        invariant
            a@.len() == m * k == a_total,
            b@.len() == k * n == b_total,
            out@.len() == m * n == out_total,
            i <= m,
            matmul_cells(ar, zero, a@, b@, k as int, n as int, out@, i * n),
        decreases m - i,
    {
        proof {
            crate::grid::row_bound(i as int, m as int, n as int);
            crate::grid::row_bound(i as int, m as int, k as int);
        }
        let mut j: usize = 0;
        while j < n
            invariant
                a@.len() == m * k == a_total,
                b@.len() == k * n == b_total,
                out@.len() == m * n == out_total,
                i < m,
                j <= n,
                0 <= i * n,
                i * n + n <= m * n,
                0 <= i * k,
                i * k + k <= m * k,
                matmul_cells(ar, zero, a@, b@, k as int, n as int, out@, i * n + j),
            decreases n - j,
        {
            let ghost steps = matmul_steps(ar, a@, b@, k as int, n as int, i as int, j as int);
            let mut acc: T = zero;
            let mut p: usize = 0;
            while p < k
                invariant
                    a@.len() == m * k == a_total,
                    b@.len() == k * n == b_total,
                    j < n,
                    p <= k,
                    0 <= i * k,
                    i * k + k <= m * k,
                    steps == matmul_steps(ar, a@, b@, k as int, n as int, i as int, j as int),
                    crate::arith::folds(steps, p as nat, zero, acc),
                decreases k - p,
            {
                proof {
                    crate::grid::row_bound(p as int, k as int, n as int);
                }
                let next: T = mul_add(ar, acc, a[i * k + p], b[p * n + j]);
                proof {
                    crate::arith::fold_step(steps, p as nat, zero, acc, next);
                }
                acc = next;
                p = p + 1;
            }
            let ghost before = out@;
            out[i * n + j] = acc;
            proof {
                crate::grid::cell(i as int, j as int, n as int);
                assert forall|x: int| 0 <= x < i * n + j + 1 implies matmul_cell(
                    ar,
                    zero,
                    a@,
                    b@,
                    k as int,
                    n as int,
                    x / n as int,
                    x % n as int,
                    #[trigger] out@[x],
                ) by {
                    if x < i * n + j {
                        assert(out@[x] == before[x]);
                    }
                }
            }
            j = j + 1;
        }
        i = i + 1;
    }
    proof {
        assert(crate::arith::converts(ar, 0, zero));
    }
}

/// Product of an `m` by `k` and a `k` by `n` matrix, cell by cell.
pub fn matmul<T: Copy, A: Arith<T>>(
    ar: &A,
    a: &[T],
    a_shape: (usize, usize),
    b: &[T],
    b_shape: (usize, usize),
    out: &mut [T],
) -> (r: Result<(), OcelotlError>)
    ensures
        final(out)@.len() == old(out)@.len(),
        crate::shapes::refused(r) == crate::shapes::matmul_refusal(
            a@.len(),
            a_shape,
            b@.len(),
            b_shape,
            old(out)@.len(),
        ),
        r is Err ==> final(out)@ == old(out)@,
        r is Ok ==> is_product(ar, a@, b@, a_shape.1 as int, b_shape.1 as int, final(out)@),
{
    match validate_matmul(a.len(), a_shape, b.len(), b_shape, out.len()) {
        Ok((m, k, n)) => {
            matmul_compute(ar, a, m, k, b, n, out);
            Ok(())
        },
        Err(e) => Err(e),
    }
}

/// The cells of row `i` after `p` of their steps; those before `upto` are one
/// step further.
spec fn row_partial<T, A: Arith<T>>(
    ar: &A,
    zero: T,
    a: Seq<T>,
    b: Seq<T>,
    k: int,
    n: int,
    i: int,
    out: Seq<T>,
    p: int,
    upto: int,
) -> bool {
    forall|x: int|
        i * n <= x < i * n + n ==> crate::arith::folds(
            matmul_steps(ar, a, b, k, n, i, x - i * n),
            (if x - i * n < upto {
                p + 1
            } else {
                p
            }) as nat,
            zero,
            #[trigger] out[x],
        )
}

/// The product of two matrices, row by row: each row of `b` is added, scaled,
/// to a row of the output.
pub fn matmul_optimized_compute<T: Copy, A: Arith<T>>(
    ar: &A,
    a: &[T],
    m: usize,
    k: usize,
    b: &[T],
    n: usize,
    out: &mut [T],
)
    requires
        a@.len() == m * k,
        b@.len() == k * n,
        old(out)@.len() == m * n,
    ensures
        final(out)@.len() == old(out)@.len(),
        is_product(ar, a@, b@, k as int, n as int, final(out)@),
{
    let a_total: usize = a.len();
    let b_total: usize = b.len();
    let out_total: usize = out.len();
    let zero: T = ar.from_int(0);
    let mut x: usize = 0;
    while x < out_total
        invariant
            out@.len() == out_total,
            x <= out_total,
            forall|y: int| 0 <= y < x ==> #[trigger] out@[y] == zero,
        decreases out_total - x,
    {
        out[x] = zero;
        x = x + 1;
    }
    let mut i: usize = 0;
    while i < m
        invariant
            a@.len() == m * k == a_total,
            b@.len() == k * n == b_total,
            out@.len() == m * n == out_total,
            i <= m,
            matmul_cells(ar, zero, a@, b@, k as int, n as int, out@, i * n),
            forall|y: int| i * n <= y < out_total ==> #[trigger] out@[y] == zero,
        decreases m - i,
    {
        proof {
            crate::grid::row_bound(i as int, m as int, n as int);
            crate::grid::row_bound(i as int, m as int, k as int);
        }
        let mut p: usize = 0;
        while p < k
            invariant
                a@.len() == m * k == a_total,
                b@.len() == k * n == b_total,
                out@.len() == m * n == out_total,
                i < m,
                p <= k,
                0 <= i * n,
                i * n + n <= m * n,
                0 <= i * k,
                i * k + k <= m * k,
                matmul_cells(ar, zero, a@, b@, k as int, n as int, out@, i * n),
                row_partial(
                    ar,
                    zero,
                    a@,
                    b@,
                    k as int,
                    n as int,
                    i as int,
                    out@,
                    p as int,
                    0,
                ),
                forall|y: int| i * n + n <= y < out_total ==> #[trigger] out@[y] == zero,
            decreases k - p,
        {
            proof {
                crate::grid::row_bound(p as int, k as int, n as int);
            }
            let a_ip: T = a[i * k + p];
            let mut j: usize = 0;
            while j < n
                invariant
                    a@.len() == m * k == a_total,
                    b@.len() == k * n == b_total,
                    out@.len() == m * n == out_total,
                    i < m,
                    p < k,
                    j <= n,
                    a_ip == a@[i * k + p],
                    0 <= i * n,
                    i * n + n <= m * n,
                    0 <= p * n,
                    p * n + n <= k * n,
                    matmul_cells(ar, zero, a@, b@, k as int, n as int, out@, i * n),
                    row_partial(
                        ar,
                        zero,
                        a@,
                        b@,
                        k as int,
                        n as int,
                        i as int,
                        out@,
                        p as int,
                        j as int,
                    ),
                    forall|y: int| i * n + n <= y < out_total ==> #[trigger] out@[y] == zero,
                decreases n - j,
            {
                let ghost before = out@;
                let acc: T = out[i * n + j];
                let next: T = mul_add(ar, acc, a_ip, b[p * n + j]);
                out[i * n + j] = next;
                proof {
                    let here = i * n + j;
                    let steps = matmul_steps(
                        ar,
                        a@,
                        b@,
                        k as int,
                        n as int,
                        i as int,
                        here - i * n,
                    );
                    assert(crate::arith::folds(steps, p as nat, zero, before[here]));
                    crate::arith::fold_step(steps, p as nat, zero, acc, next);
                    assert forall|y: int| i * n <= y < i * n + n implies crate::arith::folds(
                        matmul_steps(ar, a@, b@, k as int, n as int, i as int, y - i * n),
                        (if y - i * n < j + 1 {
                            p + 1
                        } else {
                            p as int
                        }) as nat,
                        zero,
                        #[trigger] out@[y],
                    ) by {
                        if y != here {
                            assert(out@[y] == before[y]);
                        }
                    }
                    assert forall|y: int| 0 <= y < i * n implies matmul_cell(
                        ar,
                        zero,
                        a@,
                        b@,
                        k as int,
                        n as int,
                        y / n as int,
                        y % n as int,
                        #[trigger] out@[y],
                    ) by {
                        assert(out@[y] == before[y]);
                    }
                }
                j = j + 1;
            }
            p = p + 1;
        }
        proof {
            assert forall|y: int| 0 <= y < (i + 1) * n implies matmul_cell(
                ar,
                zero,
                a@,
                b@,
                k as int,
                n as int,
                y / n as int,
                y % n as int,
                #[trigger] out@[y],
            ) by {
                if y >= i * n {
                    crate::grid::cell(i as int, y - i * n, n as int);
                }
            }
        }
        i = i + 1;
    }
    proof {
        assert(crate::arith::converts(ar, 0, zero));
    }
}

/// Product of an `m` by `k` and a `k` by `n` matrix, row by row.
pub fn matmul_optimized<T: Copy, A: Arith<T>>(
    ar: &A,
    a: &[T],
    a_shape: (usize, usize),
    b: &[T],
    b_shape: (usize, usize),
    out: &mut [T],
) -> (r: Result<(), OcelotlError>)
    ensures
        final(out)@.len() == old(out)@.len(),
        crate::shapes::refused(r) == crate::shapes::matmul_refusal(
            a@.len(),
            a_shape,
            b@.len(),
            b_shape,
            old(out)@.len(),
        ),
        r is Err ==> final(out)@ == old(out)@,
        r is Ok ==> is_product(ar, a@, b@, a_shape.1 as int, b_shape.1 as int, final(out)@),
{
    match validate_matmul(a.len(), a_shape, b.len(), b_shape, out.len()) {
        Ok((m, k, n)) => {
            matmul_optimized_compute(ar, a, m, k, b, n, out);
            Ok(())
        },
        Err(e) => Err(e),
    }
}

/// Two products of the same matrices are the same, whichever way they were
/// computed, if the arithmetic always gives the same result.
pub proof fn products_agree<T, A: Arith<T>>(
    ar: &A,
    a: Seq<T>,
    b: Seq<T>,
    k: int,
    n: int,
    out1: Seq<T>,
    out2: Seq<T>,
)
    requires
        0 <= k,
        0 < n,
        out1.len() == out2.len(),
        crate::arith::deterministic(ar),
        is_product(ar, a, b, k, n, out1),
        is_product(ar, a, b, k, n, out2),
    ensures
        out1 == out2,
{
    let z1 = choose|zero: T| #[trigger]
        crate::arith::converts(ar, 0, zero) && matmul_cells(
            ar,
            zero,
            a,
            b,
            k,
            n,
            out1,
            out1.len() as int,
        );
    let z2 = choose|zero: T| #[trigger]
        crate::arith::converts(ar, 0, zero) && matmul_cells(
            ar,
            zero,
            a,
            b,
            k,
            n,
            out2,
            out2.len() as int,
        );
    assert(z1 == z2);
    assert forall|x: int| 0 <= x < out1.len() implies out1[x] == out2[x] by {
        assert(matmul_cell(ar, z1, a, b, k, n, x / n, x % n, out1[x]));
        assert(matmul_cell(ar, z2, a, b, k, n, x / n, x % n, out2[x]));
        crate::arith::accumulates_unique(ar);
        crate::arith::fold_unique(
            matmul_steps(ar, a, b, k, n, x / n, x % n),
            k as nat,
            z1,
            out1[x],
            out2[x],
        );
    }
    assert(out1 =~= out2);
}

/// Every row of a product is the product of that row of the left matrix.
pub proof fn product_rows<T, A: Arith<T>>(
    ar: &A,
    a: Seq<T>,
    b: Seq<T>,
    rows: int,
    k: int,
    n: int,
    out: Seq<T>,
    r: int,
)
    requires
        0 <= r < rows,
        0 <= k,
        0 < n,
        a.len() == rows * k,
        out.len() == rows * n,
        is_product(ar, a, b, k, n, out),
    ensures
        is_product(ar, crate::linear::row(a, k, r), b, k, n, crate::linear::row(out, n, r)),
{
    let zero = choose|zero: T| #[trigger]
        crate::arith::converts(ar, 0, zero) && matmul_cells(
            ar,
            zero,
            a,
            b,
            k,
            n,
            out,
            out.len() as int,
        );
    let own = crate::linear::row(a, k, r);
    let part = crate::linear::row(out, n, r);
    crate::grid::row_bound(r, rows, k);
    crate::grid::row_bound(r, rows, n);
    assert forall|x: int| 0 <= x < part.len() implies matmul_cell(
        ar,
        zero,
        own,
        b,
        k,
        n,
        x / n,
        x % n,
        #[trigger] part[x],
    ) by {
        crate::grid::cell(r, x, n);
        crate::grid::cell(0, x, n);
        assert(part[x] == out[r * n + x]);
        assert(matmul_cell(ar, zero, a, b, k, n, r, x, part[x]));
        let s1 = matmul_steps(ar, a, b, k, n, r, x);
        let s2 = matmul_steps(ar, own, b, k, n, 0, x);
        assert forall|p: int, s: T, t: T| 0 <= p < k && #[trigger] s1(p, s, t) implies s2(
            p,
            s,
            t,
        ) by {
            assert(own[p] == a[r * k + p]);
        }
        crate::arith::folds_weaken(s1, s2, k as nat, zero, part[x]);
    }
    assert(matmul_cells(ar, zero, own, b, k, n, part, part.len() as int));
}

} // verus!
