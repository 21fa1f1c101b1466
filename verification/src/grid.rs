use vstd::prelude::*;

verus! {

/// Cell `(r, o)` of rows of `n` cells lies at `r * n + o`, and nowhere else.
pub proof fn cell(r: int, o: int, n: int)
    requires
        0 <= r,
        0 <= o < n,
    ensures
        (r * n + o) / n == r,
        (r * n + o) % n == o,
        0 <= r * n,
{
    assert(0 <= r * n) by (nonlinear_arith)
        requires
            0 <= r,
            0 < n,
    ;
    vstd::arithmetic::div_mod::lemma_fundamental_div_mod_converse(r * n + o, n, r, o);
}

/// An index is its row times the row length plus its place in the row.
pub proof fn index(i: int, n: int)
    requires
        0 <= i,
        0 < n,
    ensures
        i == i / n * n + i % n,
        0 <= i % n < n,
        0 <= i / n,
{
    vstd::arithmetic::div_mod::lemma_fundamental_div_mod(i, n);
    assert(i / n * n == n * (i / n)) by (nonlinear_arith);
    vstd::arithmetic::div_mod::lemma_div_pos_is_pos(i, n);
}

/// The cells of a row lie inside the grid.
pub proof fn row_bound(r: int, rows: int, n: int)
    requires
        0 <= r < rows,
        0 <= n,
    ensures
        0 <= r * n,
        r * n + n <= rows * n,
        (r + 1) * n == r * n + n,
{
    assert(0 <= r * n) by (nonlinear_arith)
        requires
            0 <= r,
            0 <= n,
    ;
    assert(r * n + n <= rows * n) by (nonlinear_arith)
        requires
            r + 1 <= rows,
            0 <= n,
    ;
    assert((r + 1) * n == r * n + n) by (nonlinear_arith);
}

/// The row of an index inside the grid is one of its rows.
pub proof fn index_row(i: int, rows: int, n: int)
    requires
        0 <= i < rows * n,
        0 < n,
    ensures
        0 <= i / n < rows,
        i == i / n * n + i % n,
        0 <= i % n < n,
{
    index(i, n);
    let q = i / n;
    assert(q < rows) by (nonlinear_arith)
        requires
            q * n <= i,
            i < rows * n,
            n > 0,
    ;
}

} // verus!
