use vstd::prelude::*;

use crate::arith::{Arith, Widen};
use crate::error::{kernel_err, OcelotlError};
use crate::expr::Term;
use crate::text::Text;

verus! {

/// When a relative shift is refused, and how.
pub open spec fn rel_shift_refusal(input_len: nat, rows: nat, out_len: nat) -> crate::shapes::Refusal {
    crate::shapes::first(
        crate::shapes::refuse_if(rows == 0, "rel_shift rows must be non-zero"@),
        crate::shapes::first(
            crate::shapes::refuse_if(
                input_len != rows * (2 * rows - 1),
                "rel_shift input.len()="@ + crate::text::dec(input_len)
                    + " does not match rows*(2*rows-1)="@ + crate::text::dec(
                    (rows * (2 * rows - 1)) as nat,
                ),
            ),
            crate::shapes::refuse_if(
                out_len != rows * rows,
                "rel_shift out.len()="@ + crate::text::dec(out_len) + " does not match rows*rows="@
                    + crate::text::dec(rows * rows),
            ),
        ),
    )
}

/// Column of the scores by relative offset that holds the score of query `i` and
/// key `j`.
pub open spec fn offset_column(rows: int, i: int, j: int) -> int {
    rows - 1 - i + j
}

/// Scores by query and key, from scores by query and relative offset: the scores
/// of row `i` start at column `rows - 1 - i`.
pub open spec fn shifted<T>(input: Seq<T>, rows: int) -> Seq<T> {
    Seq::new(
        (rows * rows) as nat,
        |x: int| input[x / rows * (2 * rows - 1) + offset_column(rows, x / rows, x % rows)],
    )
}

/// Scores by query and key, from scores by query and relative offset.
pub fn rel_shift<T: Copy>(input: &[T], rows: usize, out: &mut [T]) -> (r: Result<(), OcelotlError>)
    requires
        rows > 0 ==> rows * (2 * rows - 1) <= usize::MAX,
    ensures
        crate::shapes::refused(r) == rel_shift_refusal(
            input@.len(),
            rows as nat,
            old(out)@.len(),
        ),
        r is Err ==> final(out)@ == old(out)@,
        r is Ok ==> final(out)@ == shifted(input@, rows as int),
{
    if rows == 0 {
        return Err(kernel_err(String::from_str("rel_shift rows must be non-zero")));
    }
    proof {
        assert(rows * rows <= rows * (2 * rows - 1)) by (nonlinear_arith)
            requires
                rows >= 1,
        ;
        assert(rows == 1 || 2 * (2 * rows - 1) <= rows * (2 * rows - 1)) by (nonlinear_arith)
            requires
                rows >= 1,
        ;
    }
    let width: usize = 2 * rows - 1;
    if input.len() != rows * width {
        return Err(
            kernel_err(
                Text::new("rel_shift input.len()=").n(input.len()).s(
                    " does not match rows*(2*rows-1)=",
                ).n(rows * width).done(),
            ),
        );
    }
    if out.len() != rows * rows {
        return Err(
            kernel_err(
                Text::new("rel_shift out.len()=").n(out.len()).s(" does not match rows*rows=").n(
                    rows * rows,
                ).done(),
            ),
        );
    }
    let total: usize = input.len();
    let ghost whole = shifted(input@, rows as int);
    let mut i: usize = 0;
    while i < rows
        invariant
            rows > 0,
            width == 2 * rows - 1,
            total == input@.len() == rows * width,
            whole == shifted(input@, rows as int),
            out@.len() == rows * rows,
            rows * rows <= total,
            i <= rows,
            forall|x: int| 0 <= x < i * rows ==> #[trigger] out@[x] == whole[x],
        decreases rows - i,
    {
        proof {
            crate::grid::row_bound(i as int, rows as int, width as int);
            crate::grid::row_bound(i as int, rows as int, rows as int);
        }
        let base: usize = (rows - 1) - i;
        let src: usize = i * width;
        let dst: usize = i * rows;
        let mut j: usize = 0;
        while j < rows
            invariant
                i < rows,
                width == 2 * rows - 1,
                base == rows - 1 - i,
                total == input@.len(),
                whole == shifted(input@, rows as int),
                out@.len() == rows * rows,
                out@.len() <= total,
                src == i * width,
                dst == i * rows,
                src + width <= total,
                dst + rows <= out@.len(),
                j <= rows,
                forall|x: int| 0 <= x < dst + j ==> #[trigger] out@[x] == whole[x],
            decreases rows - j,
        {
            proof {
                crate::grid::cell(i as int, j as int, rows as int);
            }
            out[dst + j] = input[src + base + j];
            j = j + 1;
        }
        i = i + 1;
    }
    assert(out@ =~= whole);
    Ok(())
}

/// The scores of a query and a key that are as far apart as another query and
/// key come from the same column; those of a query and its own key come from the
/// middle column.
pub proof fn offsets_are_columns(rows: int, i1: int, j1: int, i2: int, j2: int)
    requires
        0 <= i1 < rows,
        0 <= j1 < rows,
        0 <= i2 < rows,
        0 <= j2 < rows,
    ensures
        0 <= offset_column(rows, i1, j1) < 2 * rows - 1,
        offset_column(rows, i1, j1) == offset_column(rows, i2, j2) <==> j1 - i1 == j2 - i2,
        offset_column(rows, i1, i1) == rows - 1,
{
}

/// Row `i` of the scores with a column put in front: `pad`, then the row.
pub open spec fn padded<T>(input: Seq<T>, rows: int, pad: T) -> Seq<T> {
    Seq::new(
        (rows * (2 * rows)) as nat,
        |x: int|
            if x % (2 * rows) == 0 {
                pad
            } else {
                input[x / (2 * rows) * (2 * rows - 1) + x % (2 * rows) - 1]
            },
    )
}

/// The shift is what comes of putting a column in front, dropping the first
/// `rows` values, and taking the first `rows` of each `2 * rows - 1` values.
pub proof fn shift_is_pad_and_slice<T>(input: Seq<T>, rows: int, pad: T, i: int, j: int)
    requires
        0 < rows,
        input.len() == rows * (2 * rows - 1),
        0 <= i < rows,
        0 <= j < rows,
    ensures
        shifted(input, rows)[i * rows + j] == padded(input, rows, pad).skip(rows)[i * (2 * rows - 1)
            + j],
{
    let n = 2 * rows;
    let c = rows - i + j;
    crate::grid::cell(i, j, rows);
    crate::grid::cell(i, c, n);
    crate::grid::row_bound(i, rows, rows);
    crate::grid::row_bound(i, rows, n);
    assert(i * (n - 1) + j + rows == i * n + c) by (nonlinear_arith)
        requires
            c == rows - i + j,
    ;
    assert(0 <= i * (n - 1)) by (nonlinear_arith)
        requires
            0 <= i,
            n >= 1,
    ;
    let p = padded(input, rows, pad);
    assert(p.skip(rows)[i * (n - 1) + j] == p[i * n + c]);
}

/// What comes of the base of the position table.
pub open spec fn base_outcome<T, A: Arith<T>>(
    ar: &A,
    base: T,
    refusal: crate::shapes::Refusal,
) -> bool {
    exists|zero: T, finite: bool, small: bool| #[trigger]
        crate::arith::converts(ar, 0, zero) && #[trigger] crate::arith::finites(ar, base, finite)
            && #[trigger] crate::arith::bounds(ar, base, zero, small) && if finite && !small {
            refusal is None
        } else {
            exists|shown: String| #[trigger]
                crate::arith::shows(ar, base, shown) && refusal == Some(
                    crate::error::cpu_error(
                        "sinusoidal_rel_pos_table base must be finite and positive, got "@ + shown@,
                    ),
                )
        }
}

/// When a position table is refused for its shape, and how.
pub open spec fn table_refusal(len: nat, dim: nat) -> crate::shapes::Refusal {
    crate::shapes::first(
        crate::shapes::refuse_if(
            len == 0 || dim == 0,
            "sinusoidal_rel_pos_table len and dim must be non-zero"@,
        ),
        crate::shapes::refuse_if(
            dim % 2 != 0,
            "sinusoidal_rel_pos_table dim must be even, got "@ + crate::text::dec(dim),
        ),
    )
}

/// The angle of row `r` and pair `i`: `(len - 1 - r) * base^(-2 i / dim)`.
pub open spec fn angle<W>(base: W, len: usize, dim: usize, r: usize, i: usize) -> crate::expr::Expr<
    W,
> {
    crate::expr::Expr::<W>::Size(len).minus(crate::expr::Expr::Int(1)).minus(
        crate::expr::Expr::Size(r),
    ).times(
        crate::expr::Expr::Value(base).to_the(
            crate::expr::Expr::<W>::Int((-2) as i64).times(crate::expr::Expr::Size(i)).over(
                crate::expr::Expr::Size(dim),
            ),
        ),
    )
}

/// `v` may be column `c` of row `r`: the sine of the angle of its pair of
/// columns, or the cosine in the second of the two. The angle is wide.
pub open spec fn table_cell<T, W, B: Arith<W>, C: Widen<T, W>>(
    wide: &B,
    cv: &C,
    base: T,
    len: usize,
    dim: usize,
    r: int,
    c: int,
    v: T,
) -> bool {
    exists|b: W, w: W| #[trigger]
        crate::arith::widens(cv, base, b) && crate::expr::evals(
            wide,
            if c % 2 == 0 {
                angle(b, len, dim, r as usize, (c / 2) as usize).sine()
            } else {
                angle(b, len, dim, r as usize, (c / 2) as usize).cosine()
            },
            w,
        ) && #[trigger] crate::arith::narrows(cv, w, v)
}

/// Every cell of the table is the sine or cosine of its place.
pub open spec fn is_table<T, W, B: Arith<W>, C: Widen<T, W>>(
    wide: &B,
    cv: &C,
    base: T,
    len: usize,
    dim: usize,
    table: Seq<T>,
) -> bool {
    forall|x: int|
        0 <= x < table.len() ==> table_cell(
            wide,
            cv,
            base,
            len,
            dim,
            x / dim as int,
            x % dim as int,
            #[trigger] table[x],
        )
}

fn check_base<T: Copy, A: Arith<T>>(ar: &A, base: T) -> (r: Result<(), OcelotlError>)
    ensures
        base_outcome(ar, base, crate::shapes::refused(r)),
{
    let zero: T = ar.from_int(0);
    let finite: bool = ar.is_finite(base);
    let small: bool = ar.at_most(base, zero);
    proof {
        assert(crate::arith::converts(ar, 0, zero));
        assert(crate::arith::finites(ar, base, finite));
        assert(crate::arith::bounds(ar, base, zero, small));
    }
    if finite && !small {
        Ok(())
    } else {
        let shown: String = ar.show(base);
        assert(crate::arith::shows(ar, base, shown));
        Err(
            kernel_err(
                Text::new("sinusoidal_rel_pos_table base must be finite and positive, got ").s(
                    shown.as_str(),
                ).done(),
            ),
        )
    }
}

/// Sines and cosines of the relative positions `len - 1` down to `1 - len`, one
/// row of `dim` values for each.
pub fn sinusoidal_rel_pos_table<T: Copy, W: Copy, A: Arith<T>, B: Arith<W>, C: Widen<T, W>>(
    ar: &A,
    wide: &B,
    cv: &C,
    len: usize,
    dim: usize,
    base: T,
) -> (r: Result<Vec<T>, OcelotlError>)
    requires
        table_refusal(len as nat, dim as nat) is None && base_outcome(ar, base, None) ==> (2 * len
            - 1) * dim <= usize::MAX,
    ensures
        ({
            let refusal = table_refusal(len as nat, dim as nat);
            if refusal is Some {
                crate::shapes::refused(r) == refusal
            } else {
                base_outcome(ar, base, crate::shapes::refused(r))
            }
        }),
        r matches Ok(table) ==> {
            &&& table@.len() == (2 * len - 1) * dim
            &&& is_table(wide, cv, base, len, dim, table@)
        },
{
    if len == 0 || dim == 0 {
        return Err(
            kernel_err(
                String::from_str("sinusoidal_rel_pos_table len and dim must be non-zero"),
            ),
        );
    }
    if dim % 2 != 0 {
        return Err(
            kernel_err(
                Text::new("sinusoidal_rel_pos_table dim must be even, got ").n(dim).done(),
            ),
        );
    }
    match check_base(ar, base) {
        Ok(_) => {},
        Err(e) => return Err(e),
    }
    proof {
        assert(2 * (2 * len - 1) <= (2 * len - 1) * dim) by (nonlinear_arith)
            requires
                dim >= 2,
                len >= 1,
        ;
    }
    let rows: usize = 2 * len - 1;
    let total: usize = rows * dim;
    let half: usize = dim / 2;
    let b: W = cv.widen(base);
    assert(crate::arith::widens(cv, base, b));
    let mut table: Vec<T> = Vec::with_capacity(total);
    let mut r: usize = 0;
    while r < rows
        invariant
            dim > 0,
            dim == 2 * half,
            total == rows * dim,
            crate::arith::widens(cv, base, b),
            r <= rows,
            table@.len() == r * dim,
            forall|x: int|
                0 <= x < table@.len() ==> table_cell(
                    wide,
                    cv,
                    base,
                    len,
                    dim,
                    x / dim as int,
                    x % dim as int,
                    #[trigger] table@[x],
                ),
        decreases rows - r,
    {
        proof {
            crate::grid::row_bound(r as int, rows as int, dim as int);
        }
        let pos = Term::size(wide, len).minus(wide, &Term::whole(wide, 1)).minus(
            wide,
            &Term::size(wide, r),
        );
        let mut i: usize = 0;
        while i < half
            invariant
                dim > 0,
                dim == 2 * half,
                crate::arith::widens(cv, base, b),
                pos.holds(wide),
                pos.expr@ == crate::expr::Expr::<W>::Size(len).minus(
                    crate::expr::Expr::Int(1),
                ).minus(crate::expr::Expr::Size(r)),
                i <= half,
                table@.len() == r * dim + 2 * i,
                forall|x: int|
                    0 <= x < table@.len() ==> table_cell(
                        wide,
                        cv,
                        base,
                        len,
                        dim,
                        x / dim as int,
                        x % dim as int,
                        #[trigger] table@[x],
                    ),
            decreases half - i,
        {
            let power = Term::whole(wide, -2).times(wide, &Term::size(wide, i)).over(
                wide,
                &Term::size(wide, dim),
            );
            let a = pos.times(wide, &Term::of(wide, b).to_the(wide, &power));
            let sine = a.sine(wide);
            let cosine = a.cosine(wide);
            let s: T = cv.narrow(sine.value);
            let c: T = cv.narrow(cosine.value);
            table.push(s);
            table.push(c);
            proof {
                crate::grid::cell(r as int, (2 * i) as int, dim as int);
                crate::grid::cell(r as int, (2 * i + 1) as int, dim as int);
                assert(a.expr@ == angle(b, len, dim, r, i));
                assert(crate::arith::narrows(cv, sine.value, s));
                assert(crate::arith::narrows(cv, cosine.value, c));
                assert(table_cell(wide, cv, base, len, dim, r as int, (2 * i) as int, s));
                assert(table_cell(wide, cv, base, len, dim, r as int, (2 * i + 1) as int, c));
            }
            i = i + 1;
        }
        r = r + 1;
    }
    Ok(table)
}

} // verus!
