use vstd::prelude::*;

use crate::arith::{Arith, Widen};
use crate::reals::Reals;

verus! {

/// The angle of pair `i`: `position * base^(-2 * i / width)`.
pub open spec fn turn<T>(re: Reals<T>, base: real, width: int, position: real, i: int) -> real {
    position * (re.pow)(base, (-2real) * (i as real) / (width as real))
}

/// What rotary embedding does to pair `i` of head `h`, which are the values `i` of
/// its two halves: it turns them by the pair's angle at the position. Without
/// rounding.
pub proof fn pairs_turn_by_their_angle<T, A: Arith<T>>(
    ar: &A,
    re: Reals<T>,
    given: Seq<T>,
    head_dim: usize,
    position: usize,
    theta: T,
    out: Seq<T>,
    h: int,
    i: int,
)
    requires
        re.exact(ar),
        crate::rope::is_rope(ar, given, head_dim, position, theta, out),
        out.len() == given.len(),
        head_dim % 2 == 0,
        0 <= h,
        0 <= i,
        i < head_dim as int / 2,
        (h + 1) * head_dim <= given.len(),
    ensures
        ({
            let half = head_dim as int / 2;
            let lo = h * head_dim + i;
            let hi = h * head_dim + half + i;
            let t = turn(
                re,
                (re.value)(theta),
                head_dim as int,
                (position as int) as real,
                i,
            );
            let (x, y) = ((re.value)(given[lo]), (re.value)(given[hi]));
            &&& (re.value)(out[lo]) == x * (re.cos)(t) - y * (re.sin)(t)
            &&& (re.value)(out[hi]) == x * (re.sin)(t) + y * (re.cos)(t)
        }),
{
    let n = head_dim as int;
    let half = n / 2;
    let (lo, hi) = (h * n + i, h * n + half + i);
    crate::grid::cell(h, i, n);
    crate::grid::cell(h, half + i, n);
    assert((h + 1) * n == h * n + n) by (nonlinear_arith);
    assert(crate::rope::rope_cell(ar, given, head_dim, position, theta, lo, out[lo]));
    assert(crate::rope::rope_cell(ar, given, head_dim, position, theta, hi, out[hi]));
    let angle = crate::rope::rope_angle(theta, head_dim, position, i as usize);
    re.evals_value(ar, crate::rope::rotated_lo(given[lo], given[hi], angle), out[lo]);
    re.evals_value(ar, crate::rope::rotated_hi(given[lo], given[hi], angle), out[hi]);
    reveal_with_fuel(Reals::eval, 10);
}

/// Turning keeps the length of a pair, where the squares of sine and cosine add up
/// to one. Without rounding.
pub proof fn pairs_keep_their_length<T, A: Arith<T>>(
    ar: &A,
    re: Reals<T>,
    given: Seq<T>,
    head_dim: usize,
    position: usize,
    theta: T,
    out: Seq<T>,
    h: int,
    i: int,
)
    requires
        re.exact(ar),
        forall|t: real| #[trigger] (re.sin)(t) * (re.sin)(t) + (re.cos)(t) * (re.cos)(t) == 1real,
        crate::rope::is_rope(ar, given, head_dim, position, theta, out),
        out.len() == given.len(),
        head_dim % 2 == 0,
        0 <= h,
        0 <= i,
        i < head_dim as int / 2,
        (h + 1) * head_dim <= given.len(),
    ensures
        ({
            let half = head_dim as int / 2;
            let lo = h * head_dim + i;
            let hi = h * head_dim + half + i;
            (re.value)(out[lo]) * (re.value)(out[lo]) + (re.value)(out[hi]) * (re.value)(out[hi])
                == (re.value)(given[lo]) * (re.value)(given[lo]) + (re.value)(given[hi]) * (
            re.value)(given[hi])
        }),
{
    pairs_turn_by_their_angle(ar, re, given, head_dim, position, theta, out, h, i);
    let half = head_dim as int / 2;
    let lo = h * head_dim + i;
    let hi = h * head_dim + half + i;
    let t = turn(re, (re.value)(theta), head_dim as int, (position as int) as real, i);
    let (x, y) = ((re.value)(given[lo]), (re.value)(given[hi]));
    let (c, s) = ((re.cos)(t), (re.sin)(t));
    assert(s * s + c * c == 1real);
    turned_length(x, y, c, s);
}

proof fn turned_length(x: real, y: real, c: real, s: real)
    requires
        s * s + c * c == 1real,
    ensures
        (x * c - y * s) * (x * c - y * s) + (x * s + y * c) * (x * s + y * c) == x * x + y * y,
{
    let (a, b, d, e) = (x * c, y * s, x * s, y * c);
    assert((a - b) * (a - b) == a * a - 2real * (a * b) + b * b) by (nonlinear_arith);
    assert((d + e) * (d + e) == d * d + 2real * (d * e) + e * e) by (nonlinear_arith);
    assert((x * c) * (y * s) == (x * s) * (y * c)) by (nonlinear_arith);
    assert((x * c) * (x * c) == (x * x) * (c * c)) by (nonlinear_arith);
    assert((x * s) * (x * s) == (x * x) * (s * s)) by (nonlinear_arith);
    assert((y * c) * (y * c) == (y * y) * (c * c)) by (nonlinear_arith);
    assert((y * s) * (y * s) == (y * y) * (s * s)) by (nonlinear_arith);
    over_one(x * x, s * s, c * c);
    over_one(y * y, s * s, c * c);
}

proof fn over_one(u: real, v: real, w: real)
    requires
        v + w == 1real,
    ensures
        u * v + u * w == u,
{
    assert(u * v + u * w == u) by (nonlinear_arith)
        requires
            v + w == 1real,
    ;
}

/// The tables of a position hold the cosines and the sines of the angles by which
/// its pairs turn. Without rounding.
pub proof fn tables_hold_the_angles<T, A: Arith<T>>(
    ar: &A,
    re: Reals<T>,
    theta: T,
    head_dim: usize,
    position: usize,
    i: int,
    c: T,
    s: T,
)
    requires
        re.exact(ar),
        0 <= i < head_dim,
        crate::rope::is_cosine(ar, theta, head_dim, position, i, c),
        crate::rope::is_sine(ar, theta, head_dim, position, i, s),
    ensures
        (re.value)(c) == (re.cos)(
            turn(re, (re.value)(theta), head_dim as int, (position as int) as real, i),
        ),
        (re.value)(s) == (re.sin)(
            turn(re, (re.value)(theta), head_dim as int, (position as int) as real, i),
        ),
{
    let angle = crate::rope::rope_angle(theta, head_dim, position, i as usize);
    re.evals_value(ar, angle.cosine(), c);
    re.evals_value(ar, angle.sine(), s);
    reveal_with_fuel(Reals::eval, 9);
}

/// What the table of relative positions holds: row `r` stands for the position
/// `len - 1 - r`, and its columns `2 * i` and `2 * i + 1` hold the sine and the
/// cosine of the angle of pair `i` there. Without rounding.
pub proof fn tables_hold_sines_and_cosines<T, W, B: Arith<W>, C: Widen<T, W>>(
    wide: &B,
    cv: &C,
    narrow: spec_fn(T) -> real,
    re: Reals<W>,
    base: T,
    len: usize,
    dim: usize,
    table: Seq<T>,
    r: int,
    i: int,
)
    requires
        re.exact(wide),
        forall|a: T, w: W| #[trigger] crate::arith::widens(cv, a, w) ==> (re.value)(w) == narrow(a),
        forall|w: W, a: T| #[trigger] crate::arith::narrows(cv, w, a) ==> narrow(a) == (re.value)(w),
        crate::relpos::is_table(wide, cv, base, len, dim, table),
        dim % 2 == 0,
        0 <= r < 2 * len - 1,
        0 <= i,
        i < dim as int / 2,
        table.len() == (2 * len - 1) * dim,
        2 * len - 1 <= usize::MAX,
    ensures
        narrow(table[r * dim + 2 * i]) == (re.sin)(
            turn(re, narrow(base), dim as int, (len - 1 - r) as real, i),
        ),
        narrow(table[r * dim + 2 * i + 1]) == (re.cos)(
            turn(re, narrow(base), dim as int, (len - 1 - r) as real, i),
        ),
{
    let n = dim as int;
    let (a, b) = (r * n + 2 * i, r * n + 2 * i + 1);
    crate::grid::cell(r, 2 * i, n);
    crate::grid::cell(r, 2 * i + 1, n);
    crate::grid::row_bound(r, 2 * len - 1, n);
    assert(crate::relpos::table_cell(wide, cv, base, len, dim, r, 2 * i, table[a]));
    assert(crate::relpos::table_cell(wide, cv, base, len, dim, r, 2 * i + 1, table[b]));
    let angle = |w: W| crate::relpos::angle(w, len, dim, r as usize, i as usize);
    assert((2 * i) / 2 == i && (2 * i + 1) / 2 == i && (2 * i) % 2 == 0 && (2 * i + 1) % 2 == 1);
    let (b1, w1) = choose|b: W, w: W| #[trigger]
        crate::arith::widens(cv, base, b) && crate::expr::evals(wide, angle(b).sine(), w)
            && #[trigger] crate::arith::narrows(cv, w, table[a]);
    let (b2, w2) = choose|b: W, w: W| #[trigger]
        crate::arith::widens(cv, base, b) && crate::expr::evals(wide, angle(b).cosine(), w)
            && #[trigger] crate::arith::narrows(cv, w, table[r * n + 2 * i + 1]);
    re.evals_value(wide, angle(b1).sine(), w1);
    re.evals_value(wide, angle(b2).cosine(), w2);
    reveal_with_fuel(Reals::eval, 10);
}

/// What adding positions does: row `r` of the input stands at position
/// `start_pos + r`, and gets the row of that position added, column by column.
pub proof fn rows_get_their_position<T, A: Arith<T>>(
    ar: &A,
    x: Seq<T>,
    rows: int,
    cols: usize,
    pe: Seq<T>,
    start_pos: usize,
    out: Seq<T>,
    r: int,
    c: int,
)
    requires
        crate::norms::is_positioned(ar, x, cols, pe, start_pos, out),
        out.len() == rows * cols,
        0 <= r < rows,
        0 <= c < cols,
    ensures
        crate::arith::adds(
            ar,
            x[r * cols + c],
            pe[(start_pos + r) * cols + c],
            out[r * cols + c],
        ),
{
    let (n, s) = (cols as int, start_pos as int);
    crate::grid::row_bound(r, rows, n);
    assert((s + r) * n + c == s * n + (r * n + c)) by (nonlinear_arith);
    let i = r * n + c;
    assert(crate::arith::adds(ar, x[i], pe[start_pos * cols + i], out[i]));
}

} // verus!
