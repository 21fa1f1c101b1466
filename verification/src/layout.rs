use vstd::prelude::*;

verus! {

/// A row-major `rows` by `cols` matrix, as a row-major `cols` by `rows` matrix.
pub open spec fn transposed<T>(src: Seq<T>, rows: int, cols: int) -> Seq<T> {
    Seq::new((rows * cols) as nat, |i: int| src[i % rows * cols + i / rows])
}

/// Transposes a row-major `rows` by `cols` matrix.
pub fn transpose_2d<T: Copy>(src: &[T], rows: usize, cols: usize) -> (dst: Vec<T>)
    requires
        src@.len() == rows * cols,
    ensures
        dst@ == transposed(src@, rows as int, cols as int),
{
    let total: usize = src.len();
    let mut dst: Vec<T> = Vec::with_capacity(total);
    let mut c: usize = 0;
    proof {
        assert(cols * rows == rows * cols) by (nonlinear_arith);
    }
    while c < cols
        invariant
            total == src@.len() == rows * cols,
            total == cols * rows,
            c <= cols,
            dst@ == transposed(src@, rows as int, cols as int).take(c * rows),
        decreases cols - c,
    {
        let ghost whole = transposed(src@, rows as int, cols as int);
        proof {
            crate::grid::row_bound(c as int, cols as int, rows as int);
            assert(whole.len() == total);
        }
        let mut r: usize = 0;
        while r < rows
            invariant
                total == src@.len() == rows * cols == whole.len(),
                whole == transposed(src@, rows as int, cols as int),
                c < cols,
                0 <= c * rows,
                c * rows + rows <= total,
                r <= rows,
                dst@ == whole.take(c * rows + r),
            decreases rows - r,
        {
            proof {
                crate::grid::row_bound(r as int, rows as int, cols as int);
                crate::grid::cell(c as int, r as int, rows as int);
            }
            dst.push(src[r * cols + c]);
            r = r + 1;
            assert(dst@ =~= whole.take(c * rows + r));
        }
        c = c + 1;
    }
    proof {
        let whole = transposed(src@, rows as int, cols as int);
        assert(whole.take(cols * rows) =~= whole);
    }
    dst
}

/// Transposing twice gives the matrix back.
pub proof fn transposing_is_an_involution<T>(src: Seq<T>, rows: int, cols: int)
    requires
        0 <= rows,
        0 <= cols,
        src.len() == rows * cols,
    ensures
        transposed(transposed(src, rows, cols), cols, rows) == src,
{
    let once = transposed(src, rows, cols);
    let twice = transposed(once, cols, rows);
    assert(rows * cols >= 0 && rows * cols == cols * rows) by (nonlinear_arith)
        requires
            0 <= rows,
            0 <= cols,
    ;
    assert forall|i: int| 0 <= i < src.len() implies twice[i] == src[i] by {
        assert(cols > 0 && rows > 0) by (nonlinear_arith)
            requires
                0 <= i < rows * cols,
                0 <= rows,
                0 <= cols,
        ;
        crate::grid::index_row(i, rows, cols);
        let (r, c) = (i / cols, i % cols);
        let j = c * rows + r;
        crate::grid::cell(c, r, rows);
        crate::grid::row_bound(c, cols, rows);
        assert(twice[i] == once[j]);
        assert(once[j] == src[r * cols + c]);
    }
    assert(twice =~= src);
}

} // verus!
