use vstd::prelude::*;

use crate::arith::{mul_add, Arith};
use crate::error::{kernel_err, OcelotlError};
use crate::expr::Term;
use crate::text::Text;

verus! {

/// The bit pattern of one half.
pub const HALF_BITS: u32 = 0x3f00_0000;

/// The bit pattern of the square root of two.
pub const SQRT_2_BITS: u32 = 0x3fb5_04f3;

/// The bit patterns of the coefficients of the error function's approximation.
pub const ERF_P_BITS: u32 = 0x3ea7_ba05;

pub const ERF_A1_BITS: u32 = 0x3e82_7906;

pub const ERF_A2_BITS: u32 = 0x3e91_a98e;

pub const ERF_A3_BITS: u32 = 0x3fb5_f0e3;

pub const ERF_A4_BITS: u32 = 0x3fba_00e3;

pub const ERF_A5_BITS: u32 = 0x3f87_dc22;

/// `r` may be `max(z, 0)`.
pub open spec fn is_relu<T, A: Arith<T>>(ar: &A, z: T, r: T) -> bool {
    exists|zero: T, c: bool| #[trigger]
        crate::arith::converts(ar, 0, zero) && #[trigger] crate::arith::compares(ar, z, zero, c)
            && r == (if c {
            zero
        } else {
            z
        })
}

/// `x = max(x, 0)`
pub fn relu_inplace<T: Copy, A: Arith<T>>(ar: &A, x: &mut [T])
    ensures
        final(x)@.len() == old(x)@.len(),
        forall|i: int|
            0 <= i < old(x)@.len() ==> is_relu(ar, old(x)@[i], #[trigger] final(x)@[i]),
{
    let n: usize = x.len();
    let ghost given = x@;
    let zero: T = ar.from_int(0);
    assert(crate::arith::converts(ar, 0, zero));
    let mut i: usize = 0;
    while i < n
        invariant
            n == x@.len() == given.len(),
            i <= n,
            crate::arith::converts(ar, 0, zero),
            forall|k: int| i <= k < n ==> #[trigger] x@[k] == given[k],
            forall|k: int| 0 <= k < i ==> is_relu(ar, given[k], #[trigger] x@[k]),
        decreases n - i,
    {
        let v: T = x[i];
        let negative: bool = ar.less(v, zero);
        assert(crate::arith::compares(ar, v, zero, negative));
        if negative {
            x[i] = zero;
        }
        i = i + 1;
    }
}

/// `1 / (1 + exp(-z))`
pub open spec fn upper_sigmoid<T>(z: T) -> crate::expr::Expr<T> {
    let one = crate::expr::Expr::<T>::Int(1);
    one.over(one.plus(crate::expr::Expr::Value(z).negated().exponential()))
}

/// `exp(z) / (1 + exp(z))`
pub open spec fn lower_sigmoid<T>(e: T) -> crate::expr::Expr<T> {
    crate::expr::Expr::Value(e).over(crate::expr::Expr::<T>::Int(1).plus(crate::expr::Expr::Value(e)))
}

/// `r` may be the sigmoid of `z`, in the form that overflows on neither side.
pub open spec fn is_sigmoid<T, A: Arith<T>>(ar: &A, z: T, r: T) -> bool {
    exists|zero: T, c: bool| #[trigger]
        crate::arith::converts(ar, 0, zero) && #[trigger] crate::arith::bounds(ar, zero, z, c)
            && if c {
            crate::expr::evals(ar, upper_sigmoid(z), r)
        } else {
            exists|e: T| #[trigger]
                crate::arith::exps(ar, z, e) && crate::expr::evals(ar, lower_sigmoid(e), r)
        }
}

/// `1 / (1 + exp(-z))`, without overflow on either side.
pub fn sigmoid<T: Copy, A: Arith<T>>(ar: &A, z: T) -> (r: T)
    ensures
        is_sigmoid(ar, z, r),
{
    let zero: T = ar.from_int(0);
    let upper: bool = ar.at_most(zero, z);
    assert(crate::arith::converts(ar, 0, zero));
    assert(crate::arith::bounds(ar, zero, z, upper));
    let one = Term::whole(ar, 1);
    if upper {
        let e = Term::of(ar, z).negated(ar).exponential(ar);
        one.over(ar, &one.plus(ar, &e)).value
    } else {
        let e: T = ar.exp(z);
        assert(crate::arith::exps(ar, z, e));
        let t = Term::of(ar, e);
        t.over(ar, &one.plus(ar, &t)).value
    }
}

/// `x = sigmoid(x)`
pub fn sigmoid_inplace<T: Copy, A: Arith<T>>(ar: &A, x: &mut [T])
    ensures
        final(x)@.len() == old(x)@.len(),
        forall|i: int|
            0 <= i < old(x)@.len() ==> is_sigmoid(ar, old(x)@[i], #[trigger] final(x)@[i]),
{
    let n: usize = x.len();
    let ghost given = x@;
    let mut i: usize = 0;
    while i < n
        invariant
            n == x@.len() == given.len(),
            i <= n,
            forall|k: int| i <= k < n ==> #[trigger] x@[k] == given[k],
            forall|k: int| 0 <= k < i ==> is_sigmoid(ar, given[k], #[trigger] x@[k]),
        decreases n - i,
    {
        let v: T = sigmoid(ar, x[i]);
        x[i] = v;
        i = i + 1;
    }
}

/// `x = tanh(x)`
pub fn tanh_inplace<T: Copy, A: Arith<T>>(ar: &A, x: &mut [T])
    ensures
        final(x)@.len() == old(x)@.len(),
        forall|i: int|
            0 <= i < old(x)@.len() ==> crate::arith::tanhs(
                ar,
                old(x)@[i],
                #[trigger] final(x)@[i],
            ),
{
    let n: usize = x.len();
    let ghost given = x@;
    let mut i: usize = 0;
    while i < n
        invariant
            n == x@.len() == given.len(),
            i <= n,
            forall|k: int| i <= k < n ==> #[trigger] x@[k] == given[k],
            forall|k: int| 0 <= k < i ==> crate::arith::tanhs(ar, given[k], #[trigger] x@[k]),
        decreases n - i,
    {
        let v: T = ar.tanh(x[i]);
        x[i] = v;
        i = i + 1;
    }
}

/// `z * (1 / (1 + exp(-z)))`
pub open spec fn silu<T>(z: T) -> crate::expr::Expr<T> {
    crate::expr::Expr::Value(z).times(upper_sigmoid(z))
}

/// `x = x / (1 + exp(-x))`
pub fn silu_inplace<T: Copy, A: Arith<T>>(ar: &A, x: &mut [T])
    ensures
        final(x)@.len() == old(x)@.len(),
        forall|i: int|
            0 <= i < old(x)@.len() ==> crate::expr::evals(
                ar,
                silu(old(x)@[i]),
                #[trigger] final(x)@[i],
            ),
{
    let n: usize = x.len();
    let ghost given = x@;
    let mut i: usize = 0;
    while i < n
        invariant
            n == x@.len() == given.len(),
            i <= n,
            forall|k: int| i <= k < n ==> #[trigger] x@[k] == given[k],
            forall|k: int|
                0 <= k < i ==> crate::expr::evals(ar, silu(given[k]), #[trigger] x@[k]),
        decreases n - i,
    {
        let z = Term::of(ar, x[i]);
        let one = Term::whole(ar, 1);
        let sigmoid = one.over(ar, &one.plus(ar, &z.negated(ar).exponential(ar)));
        let v = z.times(ar, &sigmoid);
        assert(v.expr@ == silu(given[i as int]));
        x[i] = v.value;
        i = i + 1;
    }
}

/// The magnitude of the error function at `x`, `x` not negative, by a polynomial
/// in `t = 1 / (1 + p * x)`:
/// `1 - ((((a5 * t - a4) * t + a3) * t - a2) * t + a1) * t * exp(-x * x)`.
pub open spec fn erf_magnitude<T>(x: crate::expr::Expr<T>) -> crate::expr::Expr<T> {
    let one = crate::expr::Expr::<T>::Int(1);
    let t = one.over(one.plus(crate::expr::Expr::<T>::Bits(ERF_P_BITS).times(x)));
    let p4 = crate::expr::Expr::<T>::Bits(ERF_A5_BITS).times(t).minus(
        crate::expr::Expr::Bits(ERF_A4_BITS),
    );
    let p3 = p4.times(t).plus(crate::expr::Expr::Bits(ERF_A3_BITS));
    let p2 = p3.times(t).minus(crate::expr::Expr::Bits(ERF_A2_BITS));
    let p1 = p2.times(t).plus(crate::expr::Expr::Bits(ERF_A1_BITS));
    one.minus(p1.times(t).times(x.negated().times(x).exponential()))
}

/// The error function at `x`, an odd function: the sign of `x` times the value
/// at its magnitude.
pub open spec fn erf<T>(x: T, negative: bool) -> crate::expr::Expr<T> {
    crate::expr::Expr::<T>::Int(
        if negative {
            (-1) as i64
        } else {
            1
        },
    ).times(erf_magnitude(crate::expr::Expr::Value(x).magnitude()))
}

/// `r` may be the error function at `x`.
pub open spec fn is_erf<T, A: Arith<T>>(ar: &A, x: T, r: T) -> bool {
    exists|negative: bool| #[trigger]
        crate::arith::signs(ar, x, negative) && crate::expr::evals(ar, erf(x, negative), r)
}

/// The error function, approximated.
pub fn erf_scalar<T: Copy, A: Arith<T>>(ar: &A, x: T) -> (r: T)
    ensures
        is_erf(ar, x, r),
{
    let negative: bool = ar.is_negative(x);
    assert(crate::arith::signs(ar, x, negative));
    let sign = Term::whole(
        ar,
        if negative {
            -1
        } else {
            1
        },
    );
    let m = Term::of(ar, x).magnitude(ar);
    let one = Term::whole(ar, 1);
    let t = one.over(ar, &one.plus(ar, &Term::bits(ar, ERF_P_BITS).times(ar, &m)));
    let p4 = Term::bits(ar, ERF_A5_BITS).times(ar, &t).minus(ar, &Term::bits(ar, ERF_A4_BITS));
    let p3 = p4.times(ar, &t).plus(ar, &Term::bits(ar, ERF_A3_BITS));
    let p2 = p3.times(ar, &t).minus(ar, &Term::bits(ar, ERF_A2_BITS));
    let p1 = p2.times(ar, &t).plus(ar, &Term::bits(ar, ERF_A1_BITS));
    let gauss = m.negated(ar).times(ar, &m).exponential(ar);
    let y = one.minus(ar, &p1.times(ar, &t).times(ar, &gauss));
    sign.times(ar, &y).value
}

/// `r` may be the exact GELU of `x`: `0.5 * x * (1 + erf(x / sqrt(2)))`.
pub open spec fn is_gelu<T, A: Arith<T>>(ar: &A, x: T, r: T) -> bool {
    exists|u: T, e: T| #[trigger]
        crate::expr::evals(
            ar,
            crate::expr::Expr::Value(x).over(crate::expr::Expr::Bits(SQRT_2_BITS)),
            u,
        ) && #[trigger] is_erf(ar, u, e) && crate::expr::evals(
            ar,
            crate::expr::Expr::<T>::Bits(HALF_BITS).times(crate::expr::Expr::Value(x)).times(
                crate::expr::Expr::<T>::Int(1).plus(crate::expr::Expr::Value(e)),
            ),
            r,
        )
}

/// The exact GELU of a scalar.
pub fn gelu_scalar<T: Copy, A: Arith<T>>(ar: &A, x: T) -> (r: T)
    ensures
        is_gelu(ar, x, r),
{
    let z = Term::of(ar, x);
    let u = z.over(ar, &Term::bits(ar, SQRT_2_BITS));
    let e: T = erf_scalar(ar, u.value);
    let sum = Term::whole(ar, 1).plus(ar, &Term::of(ar, e));
    let r = Term::bits(ar, HALF_BITS).times(ar, &z).times(ar, &sum);
    assert(is_erf(ar, u.value, e));
    r.value
}

/// `x = gelu(x)`
pub fn gelu_inplace<T: Copy, A: Arith<T>>(ar: &A, x: &mut [T])
    ensures
        final(x)@.len() == old(x)@.len(),
        forall|i: int|
            0 <= i < old(x)@.len() ==> is_gelu(ar, old(x)@[i], #[trigger] final(x)@[i]),
{
    let n: usize = x.len();
    let ghost given = x@;
    let mut i: usize = 0;
    while i < n
        invariant
            n == x@.len() == given.len(),
            i <= n,
            forall|k: int| i <= k < n ==> #[trigger] x@[k] == given[k],
            forall|k: int| 0 <= k < i ==> is_gelu(ar, given[k], #[trigger] x@[k]),
        decreases n - i,
    {
        let v: T = gelu_scalar(ar, x[i]);
        x[i] = v;
        i = i + 1;
    }
}

/// When a gated linear unit is refused, and how.
pub open spec fn glu_refusal(x_len: nat, rows: nat, half: nat, out_len: nat) -> crate::shapes::Refusal {
    crate::shapes::first(
        crate::shapes::refuse_if(half * 2 > usize::MAX, "glu_halves half*2 overflows usize"@),
        crate::shapes::first(
            crate::shapes::refuse_if(half == 0, "glu_halves half must be non-zero"@),
            crate::shapes::first(
                crate::shapes::refuse_if(
                    x_len != rows * (half * 2),
                    "glu_halves x.len()="@ + crate::text::dec(x_len)
                        + " does not match rows*2*half="@ + crate::text::dec(rows * (half * 2)),
                ),
                crate::shapes::refuse_if(
                    out_len != rows * half,
                    "glu_halves out.len()="@ + crate::text::dec(out_len)
                        + " does not match rows*half="@ + crate::text::dec(rows * half),
                ),
            ),
        ),
    )
}

/// `v` may be cell `c` of row `r`: the value of the row's first half, times the
/// sigmoid of the value of its second half.
pub open spec fn glu_cell<T, A: Arith<T>>(ar: &A, x: Seq<T>, half: int, r: int, c: int, v: T) -> bool {
    exists|gate: T| #[trigger]
        is_sigmoid(ar, x[r * (half * 2) + half + c], gate) && crate::arith::muls(
            ar,
            x[r * (half * 2) + c],
            gate,
            v,
        )
}

/// The output is every row, its first half gated by its second.
pub open spec fn is_glu<T, A: Arith<T>>(ar: &A, x: Seq<T>, half: int, out: Seq<T>) -> bool {
    forall|i: int|
        0 <= i < out.len() ==> glu_cell(ar, x, half, i / half, i % half, #[trigger] out[i])
}

/// Gated linear unit over rows `[a | b]`: `out = a * sigmoid(b)`.
pub fn glu_halves<T: Copy, A: Arith<T>>(
    ar: &A,
    x: &[T],
    rows: usize,
    half: usize,
    out: &mut [T],
) -> (r: Result<(), OcelotlError>)
    requires
        half > 0 && half * 2 <= usize::MAX ==> rows * (half * 2) <= usize::MAX,
    ensures
        final(out)@.len() == old(out)@.len(),
        crate::shapes::refused(r) == glu_refusal(
            x@.len(),
            rows as nat,
            half as nat,
            old(out)@.len(),
        ),
        r is Err ==> final(out)@ == old(out)@,
        r is Ok ==> is_glu(ar, x@, half as int, final(out)@),
{
    let width: usize = match half.checked_mul(2) {
        Some(w) => w,
        None => return Err(kernel_err(String::from_str("glu_halves half*2 overflows usize"))),
    };
    if half == 0 {
        return Err(kernel_err(String::from_str("glu_halves half must be non-zero")));
    }
    proof {
        assert(rows * half <= rows * width) by (nonlinear_arith)
            requires
                half <= width,
        ;
    }
    if x.len() != rows * width {
        return Err(
            kernel_err(
                Text::new("glu_halves x.len()=").n(x.len()).s(" does not match rows*2*half=").n(
                    rows * width,
                ).done(),
            ),
        );
    }
    if out.len() != rows * half {
        return Err(
            kernel_err(
                Text::new("glu_halves out.len()=").n(out.len()).s(" does not match rows*half=").n(
                    rows * half,
                ).done(),
            ),
        );
    }
    let total: usize = x.len();
    let mut row: usize = 0;
    while row < rows
        invariant
            width == half * 2,
            half > 0,
            total == x@.len() == rows * width,
            out@.len() == rows * half,
            rows * half <= total,
            row <= rows,
            forall|i: int|
                0 <= i < row * half ==> glu_cell(
                    ar,
                    x@,
                    half as int,
                    i / half as int,
                    i % half as int,
                    #[trigger] out@[i],
                ),
        decreases rows - row,
    {
        proof {
            crate::grid::row_bound(row as int, rows as int, width as int);
            crate::grid::row_bound(row as int, rows as int, half as int);
        }
        let src: usize = row * width;
        let dst: usize = row * half;
        let mut c: usize = 0;
        while c < half
            invariant
                width == half * 2,
                half > 0,
                total == x@.len(),
                out@.len() == rows * half,
                src == row * width,
                dst == row * half,
                src + width <= total,
                dst + half <= out@.len(),
                out@.len() <= total,
                c <= half,
                forall|i: int|
                    0 <= i < dst + c ==> glu_cell(
                        ar,
                        x@,
                        half as int,
                        i / half as int,
                        i % half as int,
                        #[trigger] out@[i],
                    ),
            decreases half - c,
        {
            let gate: T = sigmoid(ar, x[src + half + c]);
            let v: T = ar.mul(x[src + c], gate);
            out[dst + c] = v;
            proof {
                crate::grid::cell(row as int, c as int, half as int);
                assert(is_sigmoid(ar, x@[row * (half * 2) + half + c], gate));
                assert(glu_cell(ar, x@, half as int, row as int, c as int, v));
            }
            c = c + 1;
        }
        row = row + 1;
    }
    Ok(())
}

/// The refusal of two operands of different lengths.
pub open spec fn pair_refusal(kernel: Seq<char>, x: Seq<char>, x_len: nat, y: Seq<char>, y_len: nat) -> crate::shapes::Refusal {
    crate::shapes::refuse_if(
        x_len != y_len,
        kernel + " length mismatch: "@ + x + "="@ + crate::text::dec(x_len) + " "@ + y + "="@
            + crate::text::dec(y_len),
    )
}

fn check_pair(kernel: &str, x: &str, x_len: usize, y: &str, y_len: usize) -> (r: Result<
    (),
    OcelotlError,
>)
    ensures
        crate::shapes::refused(r) == pair_refusal(kernel@, x@, x_len as nat, y@, y_len as nat),
{
    if x_len != y_len {
        Err(
            kernel_err(
                Text::new(kernel).s(" length mismatch: ").s(x).s("=").n(x_len).s(" ").s(y).s(
                    "=",
                ).n(y_len).done(),
            ),
        )
    } else {
        Ok(())
    }
}

/// `x += alpha * y`
pub fn add_scaled_inplace<T: Copy, A: Arith<T>>(ar: &A, x: &mut [T], y: &[T], alpha: T) -> (r:
    Result<(), OcelotlError>)
    ensures
        final(x)@.len() == old(x)@.len(),
        crate::shapes::refused(r) == pair_refusal(
            "add_scaled_inplace"@,
            "x"@,
            old(x)@.len(),
            "y"@,
            y@.len(),
        ),
        r is Err ==> final(x)@ == old(x)@,
        r is Ok ==> forall|i: int|
            0 <= i < y@.len() ==> crate::arith::accumulates(
                ar,
                old(x)@[i],
                alpha,
                y@[i],
                #[trigger] final(x)@[i],
            ),
{
    match check_pair("add_scaled_inplace", "x", x.len(), "y", y.len()) {
        Ok(_) => {},
        Err(e) => return Err(e),
    }
    let n: usize = x.len();
    let ghost given = x@;
    let mut i: usize = 0;
    while i < n
        invariant
            n == x@.len() == given.len() == y@.len(),
            i <= n,
            forall|k: int| i <= k < n ==> #[trigger] x@[k] == given[k],
            forall|k: int|
                0 <= k < i ==> crate::arith::accumulates(
                    ar,
                    given[k],
                    alpha,
                    y@[k],
                    #[trigger] x@[k],
                ),
        decreases n - i,
    {
        let v: T = mul_add(ar, x[i], alpha, y[i]);
        x[i] = v;
        i = i + 1;
    }
    Ok(())
}

/// `lhs += rhs`
pub fn add_inplace<T: Copy, A: Arith<T>>(ar: &A, lhs: &mut [T], rhs: &[T]) -> (r: Result<
    (),
    OcelotlError,
>)
    ensures
        final(lhs)@.len() == old(lhs)@.len(),
        crate::shapes::refused(r) == pair_refusal(
            "add_inplace_d"@,
            "lhs"@,
            old(lhs)@.len(),
            "rhs"@,
            rhs@.len(),
        ),
        r is Err ==> final(lhs)@ == old(lhs)@,
        r is Ok ==> forall|i: int|
            0 <= i < rhs@.len() ==> crate::arith::adds(
                ar,
                old(lhs)@[i],
                rhs@[i],
                #[trigger] final(lhs)@[i],
            ),
{
    match check_pair("add_inplace_d", "lhs", lhs.len(), "rhs", rhs.len()) {
        Ok(_) => {},
        Err(e) => return Err(e),
    }
    let n: usize = lhs.len();
    let ghost given = lhs@;
    let mut i: usize = 0;
    while i < n
        invariant
            n == lhs@.len() == given.len() == rhs@.len(),
            i <= n,
            forall|k: int| i <= k < n ==> #[trigger] lhs@[k] == given[k],
            forall|k: int|
                0 <= k < i ==> crate::arith::adds(ar, given[k], rhs@[k], #[trigger] lhs@[k]),
        decreases n - i,
    {
        let v: T = ar.add(lhs[i], rhs[i]);
        lhs[i] = v;
        i = i + 1;
    }
    Ok(())
}

/// `lhs *= rhs`
pub fn mul_inplace<T: Copy, A: Arith<T>>(ar: &A, lhs: &mut [T], rhs: &[T]) -> (r: Result<
    (),
    OcelotlError,
>)
    ensures
        final(lhs)@.len() == old(lhs)@.len(),
        crate::shapes::refused(r) == pair_refusal(
            "mul_inplace_d"@,
            "lhs"@,
            old(lhs)@.len(),
            "rhs"@,
            rhs@.len(),
        ),
        r is Err ==> final(lhs)@ == old(lhs)@,
        r is Ok ==> forall|i: int|
            0 <= i < rhs@.len() ==> crate::arith::muls(
                ar,
                old(lhs)@[i],
                rhs@[i],
                #[trigger] final(lhs)@[i],
            ),
{
    match check_pair("mul_inplace_d", "lhs", lhs.len(), "rhs", rhs.len()) {
        Ok(_) => {},
        Err(e) => return Err(e),
    }
    let n: usize = lhs.len();
    let ghost given = lhs@;
    let mut i: usize = 0;
    while i < n
        invariant
            n == lhs@.len() == given.len() == rhs@.len(),
            i <= n,
            forall|k: int| i <= k < n ==> #[trigger] lhs@[k] == given[k],
            forall|k: int|
                0 <= k < i ==> crate::arith::muls(ar, given[k], rhs@[k], #[trigger] lhs@[k]),
        decreases n - i,
    {
        let v: T = ar.mul(lhs[i], rhs[i]);
        lhs[i] = v;
        i = i + 1;
    }
    Ok(())
}

} // verus!
