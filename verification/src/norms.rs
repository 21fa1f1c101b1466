use vstd::prelude::*;

use crate::arith::{dot, mul_add, Arith};
use crate::error::{kernel_err, OcelotlError};
use crate::expr::Term;
use crate::shapes::{validate_add_positional_embedding_shapes, validate_layer_norm_shapes};
use crate::text::Text;

verus! {

/// What comes of a number that has to be finite and not negative: nothing, or
/// an error that shows the number.
pub open spec fn epsilon_outcome<T, A: Arith<T>>(
    ar: &A,
    message: Seq<char>,
    eps: T,
    refusal: crate::shapes::Refusal,
) -> bool {
    exists|zero: T, finite: bool, negative: bool| #[trigger]
        crate::arith::converts(ar, 0, zero) && #[trigger] crate::arith::finites(ar, eps, finite)
            && #[trigger] crate::arith::compares(ar, eps, zero, negative) && if finite
            && !negative {
            refusal is None
        } else {
            exists|shown: String| #[trigger]
                crate::arith::shows(ar, eps, shown) && refusal == Some(
                    crate::error::cpu_error(message + shown@),
                )
        }
}

/// Checks that a number is finite and not negative.
pub fn check_epsilon<T: Copy, A: Arith<T>>(ar: &A, message: &str, eps: T) -> (r: Result<
    (),
    OcelotlError,
>)
    ensures
        epsilon_outcome(ar, message@, eps, crate::shapes::refused(r)),
{
    let zero: T = ar.from_int(0);
    let finite: bool = ar.is_finite(eps);
    let negative: bool = ar.less(eps, zero);
    proof {
        assert(crate::arith::converts(ar, 0, zero));
        assert(crate::arith::finites(ar, eps, finite));
        assert(crate::arith::compares(ar, eps, zero, negative));
    }
    if finite && !negative {
        Ok(())
    } else {
        let shown: String = ar.show(eps);
        assert(crate::arith::shows(ar, eps, shown));
        Err(kernel_err(Text::new(message).s(shown.as_str()).done()))
    }
}

/// When a root-mean-square normalisation is refused for its shapes, and how.
pub open spec fn rmsnorm_refusal(
    x_len: nat,
    rows: nat,
    hidden: nat,
    weight_len: nat,
    out_len: nat,
) -> crate::shapes::Refusal {
    crate::shapes::first(
        crate::shapes::refuse_if(hidden == 0, "rmsnorm hidden dimension must be non-zero"@),
        crate::shapes::first(
            crate::shapes::refuse_if(
                weight_len != hidden,
                "rmsnorm weight length "@ + crate::text::dec(weight_len)
                    + " does not match hidden "@ + crate::text::dec(hidden),
            ),
            crate::shapes::first(
                crate::shapes::refuse_if(
                    x_len != rows * hidden,
                    "rmsnorm x slice length "@ + crate::text::dec(x_len)
                        + " does not match shape "@ + crate::text::dec(rows) + "x"@
                        + crate::text::dec(hidden),
                ),
                crate::shapes::refuse_if(
                    out_len != x_len,
                    "rmsnorm out slice length "@ + crate::text::dec(out_len)
                        + " does not match x length "@ + crate::text::dec(x_len),
                ),
            ),
        ),
    )
}

/// `v` may be value `c` of row `r`, normalised: `x / sqrt(mean(x^2) + eps) * w`,
/// where the mean is over the row.
pub open spec fn rmsnorm_cell<T, A: Arith<T>>(
    ar: &A,
    x: Seq<T>,
    hidden: usize,
    weight: Seq<T>,
    eps: T,
    r: int,
    c: int,
    v: T,
) -> bool {
    let row = crate::linear::row(x, hidden as int, r);
    exists|zero: T, squares: T| #[trigger]
        crate::arith::converts(ar, 0, zero) && #[trigger] crate::arith::dots(
            ar,
            zero,
            row,
            row,
            squares,
        ) && crate::expr::evals(
            ar,
            crate::expr::Expr::Value(row[c]).times(
                crate::expr::Expr::<T>::Int(1).over(
                    crate::expr::Expr::Value(squares).over(crate::expr::Expr::Size(hidden)).plus(
                        crate::expr::Expr::Value(eps),
                    ).root(),
                ),
            ).times(crate::expr::Expr::Value(weight[c])),
            v,
        )
}

/// The output is every row, normalised by its root mean square.
pub open spec fn is_rmsnorm<T, A: Arith<T>>(
    ar: &A,
    x: Seq<T>,
    hidden: usize,
    weight: Seq<T>,
    eps: T,
    out: Seq<T>,
) -> bool {
    forall|i: int|
        0 <= i < out.len() ==> rmsnorm_cell(
            ar,
            x,
            hidden,
            weight,
            eps,
            i / hidden as int,
            i % hidden as int,
            #[trigger] out[i],
        )
}

/// Root-mean-square normalisation of every row.
pub fn rmsnorm<T: Copy, A: Arith<T>>(
    ar: &A,
    x: &[T],
    rows: usize,
    hidden: usize,
    weight: &[T],
    epsilon: T,
    out: &mut [T],
) -> (r: Result<(), OcelotlError>)
    requires
        hidden > 0 && weight@.len() == hidden ==> rows * hidden <= usize::MAX,
    ensures
        final(out)@.len() == old(out)@.len(),
        ({
            let refusal = rmsnorm_refusal(
                x@.len(),
                rows as nat,
                hidden as nat,
                weight@.len(),
                old(out)@.len(),
            );
            if refusal is Some {
                crate::shapes::refused(r) == refusal
            } else {
                epsilon_outcome(
                    ar,
                    "rmsnorm epsilon must be finite and non-negative, got "@,
                    epsilon,
                    crate::shapes::refused(r),
                )
            }
        }),
        r is Err ==> final(out)@ == old(out)@,
        r is Ok ==> is_rmsnorm(ar, x@, hidden, weight@, epsilon, final(out)@),
{
    if hidden == 0 {
        return Err(kernel_err(String::from_str("rmsnorm hidden dimension must be non-zero")));
    }
    if weight.len() != hidden {
        return Err(
            kernel_err(
                Text::new("rmsnorm weight length ").n(weight.len()).s(" does not match hidden ").n(
                    hidden,
                ).done(),
            ),
        );
    }
    if x.len() != rows * hidden {
        return Err(
            kernel_err(
                Text::new("rmsnorm x slice length ").n(x.len()).s(" does not match shape ").n(
                    rows,
                ).s("x").n(hidden).done(),
            ),
        );
    }
    if out.len() != x.len() {
        return Err(
            kernel_err(
                Text::new("rmsnorm out slice length ").n(out.len()).s(
                    " does not match x length ",
                ).n(x.len()).done(),
            ),
        );
    }
    match check_epsilon(ar, "rmsnorm epsilon must be finite and non-negative, got ", epsilon) {
        Ok(_) => {},
        Err(e) => return Err(e),
    }
    let total: usize = x.len();
    let zero: T = ar.from_int(0);
    let width = Term::size(ar, hidden);
    let one = Term::whole(ar, 1);
    let mut row: usize = 0;
    while row < rows
        invariant
            hidden > 0,
            weight@.len() == hidden,
            total == x@.len() == out@.len() == rows * hidden,
            crate::arith::converts(ar, 0, zero),
            width.holds(ar),
            width.expr@ == crate::expr::Expr::<T>::Size(hidden),
            one.holds(ar),
            one.expr@ == crate::expr::Expr::<T>::Int(1),
            row <= rows,
            forall|i: int|
                0 <= i < row * hidden ==> rmsnorm_cell(
                    ar,
                    x@,
                    hidden,
                    weight@,
                    epsilon,
                    i / hidden as int,
                    i % hidden as int,
                    #[trigger] out@[i],
                ),
        decreases rows - row,
    {
        proof {
            crate::grid::row_bound(row as int, rows as int, hidden as int);
        }
        let at: usize = row * hidden;
        let squares: T = dot(ar, zero, x, at, x, at, hidden);
        let rms = Term::of(ar, squares).over(ar, &width).plus(ar, &Term::of(ar, epsilon)).root(ar);
        let inverse = one.over(ar, &rms);
        let mut c: usize = 0;
        while c < hidden
            invariant
                hidden > 0,
                weight@.len() == hidden,
                total == x@.len() == out@.len(),
                at == row * hidden,
                at + hidden <= total,
                c <= hidden,
                crate::arith::converts(ar, 0, zero),
                crate::arith::dots(
                    ar,
                    zero,
                    crate::linear::row(x@, hidden as int, row as int),
                    crate::linear::row(x@, hidden as int, row as int),
                    squares,
                ),
                inverse.holds(ar),
                inverse.expr@ == crate::expr::Expr::<T>::Int(1).over(
                    crate::expr::Expr::Value(squares).over(crate::expr::Expr::Size(hidden)).plus(
                        crate::expr::Expr::Value(epsilon),
                    ).root(),
                ),
                forall|i: int|
                    0 <= i < at + c ==> rmsnorm_cell(
                        ar,
                        x@,
                        hidden,
                        weight@,
                        epsilon,
                        i / hidden as int,
                        i % hidden as int,
                        #[trigger] out@[i],
                    ),
            decreases hidden - c,
        {
            let v = Term::of(ar, x[at + c]).times(ar, &inverse).times(ar, &Term::of(ar, weight[c]));
            out[at + c] = v.value;
            proof {
                crate::grid::cell(row as int, c as int, hidden as int);
                assert(crate::linear::row(x@, hidden as int, row as int)[c as int] == x@[at + c]);
                assert(rmsnorm_cell(
                    ar,
                    x@,
                    hidden,
                    weight@,
                    epsilon,
                    row as int,
                    c as int,
                    v.value,
                ));
            }
            c = c + 1;
        }
        row = row + 1;
    }
    Ok(())
}

/// The steps of a sum of squared distances to a mean.
pub open spec fn spread_steps<T, A: Arith<T>>(ar: &A, x: Seq<T>, mean: T) -> spec_fn(
    int,
    T,
    T,
) -> bool {
    |i: int, a: T, b: T|
        exists|d: T| #[trigger]
            crate::arith::subs(ar, x[i], mean, d) && crate::arith::accumulates(ar, a, d, d, b)
}

/// The intermediate values of the layer normalisation of a row.
pub struct LayerNormSteps<T> {
    pub zero: T,
    pub sum: T,
    pub mean: T,
    pub spread: T,
    pub inverse: T,
}

/// The mean of a row, and one over the square root of its variance: the squared
/// distances to the mean, added up and divided by the row's length.
pub open spec fn layer_norm_row<T, A: Arith<T>>(
    ar: &A,
    row: Seq<T>,
    hidden: usize,
    eps: T,
    s: LayerNormSteps<T>,
) -> bool {
    &&& crate::arith::converts(ar, 0, s.zero)
    &&& crate::arith::folds(crate::softmax::sum_steps(ar, row), row.len(), s.zero, s.sum)
    &&& crate::expr::evals(
        ar,
        crate::expr::Expr::Value(s.sum).over(crate::expr::Expr::Size(hidden)),
        s.mean,
    )
    &&& crate::arith::folds(spread_steps(ar, row, s.mean), row.len(), s.zero, s.spread)
    &&& crate::expr::evals(
        ar,
        crate::expr::Expr::<T>::Int(1).over(
            crate::expr::Expr::Value(s.spread).over(crate::expr::Expr::Size(hidden)).plus(
                crate::expr::Expr::Value(eps),
            ).root(),
        ),
        s.inverse,
    )
}

/// `v` may be value `c` of row `r`, normalised: `(x - mean) / deviation * w + b`.
pub open spec fn layer_norm_cell<T, A: Arith<T>>(
    ar: &A,
    x: Seq<T>,
    hidden: usize,
    weight: Seq<T>,
    bias: Seq<T>,
    eps: T,
    r: int,
    c: int,
    v: T,
) -> bool {
    let row = crate::linear::row(x, hidden as int, r);
    exists|s: LayerNormSteps<T>| #[trigger]
        layer_norm_row(ar, row, hidden, eps, s) && crate::expr::evals(
            ar,
            crate::expr::Expr::Value(row[c]).minus(crate::expr::Expr::Value(s.mean)).times(
                crate::expr::Expr::Value(s.inverse),
            ).times(crate::expr::Expr::Value(weight[c])).plus(crate::expr::Expr::Value(bias[c])),
            v,
        )
}

/// The output is every row, normalised by its mean and variance.
pub open spec fn is_layer_norm<T, A: Arith<T>>(
    ar: &A,
    x: Seq<T>,
    hidden: usize,
    weight: Seq<T>,
    bias: Seq<T>,
    eps: T,
    out: Seq<T>,
) -> bool {
    forall|i: int|
        0 <= i < out.len() ==> layer_norm_cell(
            ar,
            x,
            hidden,
            weight,
            bias,
            eps,
            i / hidden as int,
            i % hidden as int,
            #[trigger] out[i],
        )
}

/// The mean and the inverse deviation of one row.
fn layer_norm_stats<T: Copy, A: Arith<T>>(ar: &A, x: &[T], at: usize, hidden: usize, eps: T) -> (r:
    (T, T, Ghost<LayerNormSteps<T>>))
    requires
        at + hidden <= x@.len(),
    ensures
        layer_norm_row(ar, x@.subrange(at as int, at + hidden), hidden, eps, r.2@),
        r.0 == r.2@.mean,
        r.1 == r.2@.inverse,
{
    let total: usize = x.len();
    let ghost row = x@.subrange(at as int, at + hidden);
    let zero: T = ar.from_int(0);
    let mut sum: T = zero;
    let mut i: usize = 0;
    while i < hidden
        invariant
            at + hidden <= x@.len() == total,
            row == x@.subrange(at as int, at + hidden),
            i <= hidden,
            crate::arith::folds(crate::softmax::sum_steps(ar, row), i as nat, zero, sum),
        decreases hidden - i,
    {
        let next: T = ar.add(sum, x[at + i]);
        proof {
            crate::arith::fold_step(
                crate::softmax::sum_steps(ar, row),
                i as nat,
                zero,
                sum,
                next,
            );
        }
        sum = next;
        i = i + 1;
    }
    let width = Term::size(ar, hidden);
    let mean = Term::of(ar, sum).over(ar, &width);
    let mut spread: T = zero;
    let mut j: usize = 0;
    while j < hidden
        invariant
            at + hidden <= x@.len() == total,
            row == x@.subrange(at as int, at + hidden),
            j <= hidden,
            crate::arith::folds(spread_steps(ar, row, mean.value), j as nat, zero, spread),
        decreases hidden - j,
    {
        let d: T = ar.sub(x[at + j], mean.value);
        let next: T = mul_add(ar, spread, d, d);
        proof {
            assert(crate::arith::subs(ar, row[j as int], mean.value, d));
            crate::arith::fold_step(
                spread_steps(ar, row, mean.value),
                j as nat,
                zero,
                spread,
                next,
            );
        }
        spread = next;
        j = j + 1;
    }
    let deviation = Term::of(ar, spread).over(ar, &width).plus(ar, &Term::of(ar, eps)).root(ar);
    let inverse = Term::whole(ar, 1).over(ar, &deviation);
    let ghost s = LayerNormSteps {
        zero,
        sum,
        mean: mean.value,
        spread,
        inverse: inverse.value,
    };
    (mean.value, inverse.value, Ghost(s))
}

/// Layer normalisation of every row, with a weight and a bias for each column.
pub fn layer_norm_scalar<T: Copy, A: Arith<T>>(
    ar: &A,
    x: &[T],
    rows: usize,
    hidden: usize,
    weight: &[T],
    bias: &[T],
    eps: T,
    out: &mut [T],
)
    requires
        x@.len() == rows * hidden,
        weight@.len() == hidden,
        bias@.len() == hidden,
        old(out)@.len() == x@.len(),
    ensures
        final(out)@.len() == old(out)@.len(),
        is_layer_norm(ar, x@, hidden, weight@, bias@, eps, final(out)@),
{
    let total: usize = x.len();
    let mut row: usize = 0;
    while row < rows
        invariant
            weight@.len() == hidden,
            bias@.len() == hidden,
            total == x@.len() == out@.len() == rows * hidden,
            row <= rows,
            forall|i: int|
                0 <= i < row * hidden ==> layer_norm_cell(
                    ar,
                    x@,
                    hidden,
                    weight@,
                    bias@,
                    eps,
                    i / hidden as int,
                    i % hidden as int,
                    #[trigger] out@[i],
                ),
        decreases rows - row,
    {
        proof {
            crate::grid::row_bound(row as int, rows as int, hidden as int);
        }
        let at: usize = row * hidden;
        let (mean, inverse, Ghost(s)) = layer_norm_stats(ar, x, at, hidden, eps);
        let mut c: usize = 0;
        while c < hidden
            invariant
                weight@.len() == hidden,
                bias@.len() == hidden,
                total == x@.len() == out@.len(),
                at == row * hidden,
                at + hidden <= total,
                c <= hidden,
                layer_norm_row(
                    ar,
                    crate::linear::row(x@, hidden as int, row as int),
                    hidden,
                    eps,
                    s,
                ),
                mean == s.mean,
                inverse == s.inverse,
                forall|i: int|
                    0 <= i < at + c ==> layer_norm_cell(
                        ar,
                        x@,
                        hidden,
                        weight@,
                        bias@,
                        eps,
                        i / hidden as int,
                        i % hidden as int,
                        #[trigger] out@[i],
                    ),
            decreases hidden - c,
        {
            let v = Term::of(ar, x[at + c]).minus(ar, &Term::of(ar, mean)).times(
                ar,
                &Term::of(ar, inverse),
            ).times(ar, &Term::of(ar, weight[c])).plus(ar, &Term::of(ar, bias[c]));
            out[at + c] = v.value;
            proof {
                crate::grid::cell(row as int, c as int, hidden as int);
                assert(crate::linear::row(x@, hidden as int, row as int)[c as int] == x@[at + c]);
                assert(layer_norm_cell(
                    ar,
                    x@,
                    hidden,
                    weight@,
                    bias@,
                    eps,
                    row as int,
                    c as int,
                    v.value,
                ));
            }
            c = c + 1;
        }
        row = row + 1;
    }
}

/// Layer normalisation, after its operands were checked.
pub fn layer_norm_d<T: Copy, A: Arith<T>>(
    ar: &A,
    x: &[T],
    rows: usize,
    hidden: usize,
    weight: &[T],
    bias: &[T],
    eps: T,
    out: &mut [T],
) -> (r: Result<(), OcelotlError>)
    ensures
        final(out)@.len() == old(out)@.len(),
        crate::shapes::refused(r) == crate::shapes::layer_norm_refusal(
            x@.len(),
            rows as nat,
            hidden as nat,
            weight@.len(),
            bias@.len(),
            old(out)@.len(),
        ),
        r is Err ==> final(out)@ == old(out)@,
        r is Ok ==> is_layer_norm(ar, x@, hidden, weight@, bias@, eps, final(out)@),
{
    match validate_layer_norm_shapes(x.len(), rows, hidden, weight.len(), bias.len(), out.len()) {
        Ok(_) => {
            layer_norm_scalar(ar, x, rows, hidden, weight, bias, eps, out);
            Ok(())
        },
        Err(e) => Err(e),
    }
}

/// The output is the input, with the table from row `start_pos` on added.
pub open spec fn is_positioned<T, A: Arith<T>>(
    ar: &A,
    x: Seq<T>,
    cols: usize,
    pe: Seq<T>,
    start_pos: usize,
    out: Seq<T>,
) -> bool {
    forall|i: int|
        0 <= i < out.len() ==> crate::arith::adds(
            ar,
            x[i],
            pe[start_pos * cols + i],
            #[trigger] out[i],
        )
}

/// Adds the rows of a table from `start_pos` on: `x[i] += pe[start_pos * cols + i]`.
pub fn add_positional_embedding_d<T: Copy, A: Arith<T>>(
    ar: &A,
    x: &mut [T],
    rows: usize,
    cols: usize,
    pe: &[T],
    pe_rows: usize,
    start_pos: usize,
) -> (r: Result<(), OcelotlError>)
    ensures
        final(x)@.len() == old(x)@.len(),
        crate::shapes::refused(r) == crate::shapes::positional_refusal(
            old(x)@.len(),
            rows as nat,
            cols as nat,
            pe@.len(),
            pe_rows as nat,
            start_pos as nat,
        ),
        r is Err ==> final(x)@ == old(x)@,
        r is Ok ==> is_positioned(ar, old(x)@, cols, pe@, start_pos, final(x)@),
{
    match validate_add_positional_embedding_shapes(
        x.len(),
        rows,
        cols,
        pe.len(),
        pe_rows,
        start_pos,
    ) {
        Ok(_) => {},
        Err(e) => return Err(e),
    }
    let n: usize = x.len();
    let total: usize = pe.len();
    let ghost given = x@;
    proof {
        assert(start_pos * cols + rows * cols <= pe_rows * cols) by (nonlinear_arith)
            requires
                start_pos + rows <= pe_rows,
        ;
        assert(0 <= start_pos * cols) by (nonlinear_arith);
    }
    let at: usize = start_pos * cols;
    let mut i: usize = 0;
    while i < n
        invariant
            n == x@.len() == given.len(),
            at == start_pos * cols,
            at + n <= total == pe@.len(),
            i <= n,
            forall|k: int| i <= k < n ==> #[trigger] x@[k] == given[k],
            forall|k: int|
                0 <= k < i ==> crate::arith::adds(
                    ar,
                    given[k],
                    pe@[start_pos * cols + k],
                    #[trigger] x@[k],
                ),
        decreases n - i,
    {
        let v: T = ar.add(x[i], pe[at + i]);
        x[i] = v;
        i = i + 1;
    }
    Ok(())
}

} // verus!
