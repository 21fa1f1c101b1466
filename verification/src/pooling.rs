use vstd::prelude::*;

use crate::arith::{dot, Arith};
use crate::error::{kernel_err, OcelotlError};
use crate::expr::Term;
use crate::text::Text;

verus! {

/// When mean pooling is refused, and how.
pub open spec fn mean_pool_refusal(hidden_len: nat, seq_len: nat, dim: nat) -> crate::shapes::Refusal {
    crate::shapes::first(
        crate::shapes::refuse_if(
            seq_len == 0 || dim == 0,
            "mean_pool seq_len and dim must be non-zero"@,
        ),
        crate::shapes::first(
            crate::shapes::refuse_if(
                seq_len * dim > usize::MAX,
                "mean_pool seq_len*dim overflows usize"@,
            ),
            crate::shapes::refuse_if(
                hidden_len != seq_len * dim,
                "mean_pool hidden.len()="@ + crate::text::dec(hidden_len)
                    + " does not match seq_len*dim="@ + crate::text::dec(seq_len * dim),
            ),
        ),
    )
}

/// The steps of the sum of column `d`.
pub open spec fn column_steps<T, A: Arith<T>>(ar: &A, m: Seq<T>, dim: int, d: int) -> spec_fn(
    int,
    T,
    T,
) -> bool {
    |i: int, a: T, b: T| crate::arith::adds(ar, a, m[i * dim + d], b)
}

/// `v` may be the mean of column `d`: its values, added up from the top, times
/// one over their number.
pub open spec fn column_mean<T, A: Arith<T>>(
    ar: &A,
    m: Seq<T>,
    rows: usize,
    dim: int,
    d: int,
    v: T,
) -> bool {
    exists|zero: T, sum: T| #[trigger]
        crate::arith::converts(ar, 0, zero) && #[trigger] crate::arith::folds(
            column_steps(ar, m, dim, d),
            rows as nat,
            zero,
            sum,
        ) && crate::expr::evals(
            ar,
            crate::expr::Expr::Value(sum).times(
                crate::expr::Expr::<T>::Int(1).over(crate::expr::Expr::Size(rows)),
            ),
            v,
        )
}

/// The output is the mean of every column.
pub open spec fn is_mean_pool<T, A: Arith<T>>(
    ar: &A,
    m: Seq<T>,
    rows: usize,
    out: Seq<T>,
) -> bool {
    forall|d: int|
        0 <= d < out.len() ==> column_mean(
            ar,
            m,
            rows,
            out.len() as int,
            d,
            #[trigger] out[d],
        )
}

/// The mean of the rows of a `seq_len` by `dim` matrix.
pub fn mean_pool<T: Copy, A: Arith<T>>(ar: &A, hidden: &[T], seq_len: usize, dim: usize) -> (r:
    Result<Vec<T>, OcelotlError>)
    ensures
        crate::shapes::refused(r) == mean_pool_refusal(
            hidden@.len(),
            seq_len as nat,
            dim as nat,
        ),
        r matches Ok(out) ==> {
            &&& out@.len() == dim
            &&& is_mean_pool(ar, hidden@, seq_len, out@)
        },
{
    if seq_len == 0 || dim == 0 {
        return Err(kernel_err(String::from_str("mean_pool seq_len and dim must be non-zero")));
    }
    let expected: usize = match seq_len.checked_mul(dim) {
        Some(n) => n,
        None => return Err(kernel_err(String::from_str("mean_pool seq_len*dim overflows usize"))),
    };
    if hidden.len() != expected {
        return Err(
            kernel_err(
                Text::new("mean_pool hidden.len()=").n(hidden.len()).s(
                    " does not match seq_len*dim=",
                ).n(expected).done(),
            ),
        );
    }
    let total: usize = hidden.len();
    let zero: T = ar.from_int(0);
    let inverse = Term::whole(ar, 1).over(ar, &Term::size(ar, seq_len));
    let mut out: Vec<T> = Vec::with_capacity(dim);
    let mut d: usize = 0;
    while d < dim
        invariant
            total == hidden@.len() == seq_len * dim,
            crate::arith::converts(ar, 0, zero),
            inverse.holds(ar),
            inverse.expr@ == crate::expr::Expr::<T>::Int(1).over(crate::expr::Expr::Size(seq_len)),
            d <= dim,
            out@.len() == d,
            forall|k: int|
                0 <= k < d ==> column_mean(
                    ar,
                    hidden@,
                    seq_len,
                    dim as int,
                    k,
                    #[trigger] out@[k],
                ),
        decreases dim - d,
    {
        let ghost steps = column_steps(ar, hidden@, dim as int, d as int);
        let mut sum: T = zero;
        let mut i: usize = 0;
        while i < seq_len
            invariant
                total == hidden@.len() == seq_len * dim,
                d < dim,
                i <= seq_len,
                steps == column_steps(ar, hidden@, dim as int, d as int),
                crate::arith::folds(steps, i as nat, zero, sum),
            decreases seq_len - i,
        {
            proof {
                crate::grid::row_bound(i as int, seq_len as int, dim as int);
            }
            let next: T = ar.add(sum, hidden[i * dim + d]);
            proof {
                crate::arith::fold_step(steps, i as nat, zero, sum, next);
            }
            sum = next;
            i = i + 1;
        }
        let v = Term::of(ar, sum).times(ar, &inverse);
        out.push(v.value);
        d = d + 1;
    }
    Ok(out)
}

/// `out` may be `v`, scaled to length one: where the sum of squares is positive,
/// every value is multiplied by one over its square root.
pub open spec fn is_normalized<T, A: Arith<T>>(ar: &A, v: Seq<T>, out: Seq<T>) -> bool {
    exists|zero: T, squares: T, positive: bool| #[trigger]
        crate::arith::converts(ar, 0, zero) && #[trigger] crate::arith::dots(
            ar,
            zero,
            v,
            v,
            squares,
        ) && #[trigger] crate::arith::compares(ar, zero, squares, positive) && if positive {
            &&& out.len() == v.len()
            &&& forall|i: int|
                0 <= i < v.len() ==> crate::expr::evals(
                    ar,
                    crate::expr::Expr::Value(v[i]).times(
                        crate::expr::Expr::<T>::Int(1).over(
                            crate::expr::Expr::Value(squares).root(),
                        ),
                    ),
                    #[trigger] out[i],
                )
        } else {
            out == v
        }
}

/// Scales a vector to length one, in place; a zero vector stays as it is.
pub fn l2_normalize<T: Copy, A: Arith<T>>(ar: &A, v: &mut [T])
    ensures
        final(v)@.len() == old(v)@.len(),
        is_normalized(ar, old(v)@, final(v)@),
{
    let n: usize = v.len();
    let ghost given = v@;
    let zero: T = ar.from_int(0);
    let squares: T = dot(ar, zero, v, 0, v, 0, n);
    let positive: bool = ar.less(zero, squares);
    proof {
        assert(given.subrange(0, n as int) =~= given);
        assert(crate::arith::converts(ar, 0, zero));
        assert(crate::arith::dots(ar, zero, given, given, squares));
        assert(crate::arith::compares(ar, zero, squares, positive));
    }
    if positive {
        let inverse = Term::whole(ar, 1).over(ar, &Term::of(ar, squares).root(ar));
        let mut i: usize = 0;
        while i < n
            invariant
                n == v@.len() == given.len(),
                inverse.holds(ar),
                inverse.expr@ == crate::expr::Expr::<T>::Int(1).over(
                    crate::expr::Expr::Value(squares).root(),
                ),
                i <= n,
                forall|k: int| i <= k < n ==> #[trigger] v@[k] == given[k],
                forall|k: int|
                    0 <= k < i ==> crate::expr::evals(
                        ar,
                        crate::expr::Expr::Value(given[k]).times(
                            crate::expr::Expr::<T>::Int(1).over(
                                crate::expr::Expr::Value(squares).root(),
                            ),
                        ),
                        #[trigger] v@[k],
                    ),
            decreases n - i,
        {
            let x = Term::of(ar, v[i]).times(ar, &inverse);
            v[i] = x.value;
            i = i + 1;
        }
    }
}

} // verus!
