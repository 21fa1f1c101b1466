use vstd::prelude::*;

use crate::arith::Arith;
use crate::k_blocks::GgmlKQuantKind;
use crate::k_quant::Q8KBlock;
use crate::reals::Reals;

verus! {

/// The term of place `j`.
#[verifier::opaque]
spec fn place_term<T>(re: Reals<T>, blocks: Seq<Q8KBlock<T>>, weights: Seq<T>, j: int) -> real {
    crate::k_dot_laws::element_term(re, blocks[j / 256], j % 256, weights[j])
}

/// What the minima of block `b` take off.
spec fn least_of<T>(
    re: Reals<T>,
    kind: GgmlKQuantKind,
    data: Seq<u8>,
    blocks: Seq<Q8KBlock<T>>,
    b: int,
) -> real {
    crate::k_dot_laws::least_part(re, kind, crate::k_blocks::block_of(kind, data, b), blocks[b], 256)
}

/// What the lanes get of block `b`.
spec fn across<T>(
    re: Reals<T>,
    kind: GgmlKQuantKind,
    data: Seq<u8>,
    blocks: Seq<Q8KBlock<T>>,
    b: int,
) -> real {
    crate::reals::sum(|lane: int| crate::k_dot_laws::lane_part(re, kind, data, blocks, lane, b), 8)
}

proof fn lanes_by_block<T, A: Arith<T>>(
    ar: &A,
    re: Reals<T>,
    kind: GgmlKQuantKind,
    data: Seq<u8>,
    blocks: Seq<Q8KBlock<T>>,
    zero: T,
    minima: T,
    lanes: Seq<T>,
    v: T,
)
    requires
        re.exact(ar),
        data.len() == blocks.len() * kind.block_len(),
        forall|b: int| 0 <= b < blocks.len() ==> (#[trigger] blocks[b]).wf(),
        (re.value)(zero) == 0real,
        lanes.len() == 8,
        forall|lane: int|
            0 <= lane < 8 ==> crate::arith::folds(
                crate::k_quant::lane_steps(ar, kind, data, blocks, lane),
                blocks.len(),
                zero,
                #[trigger] lanes[lane],
            ),
        crate::arith::folds(crate::softmax::sum_steps(ar, lanes), 8, minima, v),
    ensures
        (re.value)(v) == (re.value)(minima) + crate::reals::sum(
            |b: int| across(re, kind, data, blocks, b),
            blocks.len(),
        ),
{
    let nb = blocks.len();
    let part = |lane: int, b: int| crate::k_dot_laws::lane_part(re, kind, data, blocks, lane, b);
    let by_lane = |lane: int| (re.value)(lanes[lane]);
    re.fold_value(crate::softmax::sum_steps(ar, lanes), by_lane, 8, minima, v);
    let totals = |lane: int| crate::reals::sum(|b: int| part(lane, b), nb);
    assert forall|lane: int| 0 <= lane < 8 implies #[trigger] by_lane(lane) == totals(lane) by {
        crate::k_dot_laws::lane_value(ar, re, kind, data, blocks, zero, lane, lanes[lane]);
        crate::reals::equal_sums(
            |b: int| crate::k_dot_laws::lane_part(re, kind, data, blocks, lane, b),
            |b: int| part(lane, b),
            nb,
        );
    }
    crate::reals::equal_sums(by_lane, totals, 8);
    crate::reals::swapped_sums(part, 8, nb);
    let f = |b: int| crate::reals::sum(|lane: int| part(lane, b), 8);
    let g = |b: int| across(re, kind, data, blocks, b);
    assert forall|b: int| 0 <= b < nb implies #[trigger] f(b) == g(b) by {
        crate::reals::equal_sums(
            |lane: int| part(lane, b),
            |lane: int| crate::k_dot_laws::lane_part(re, kind, data, blocks, lane, b),
            8,
        );
    }
    crate::reals::equal_sums(f, g, nb);
}

proof fn place_of<T>(re: Reals<T>, blocks: Seq<Q8KBlock<T>>, weights: Seq<T>, b: int, e: int)
    requires
        0 <= e < 256,
    ensures
        place_term(re, blocks, weights, b * 256 + e) == crate::k_dot_laws::element_term(
            re,
            blocks[b],
            e,
            weights[b * 256 + e],
        ),
{
    reveal(place_term);
    let j = b * 256 + e;
    assert(j / 256 == b && j % 256 == e);
}

proof fn block_places<T, A: Arith<T>>(
    ar: &A,
    re: Reals<T>,
    kind: GgmlKQuantKind,
    data: Seq<u8>,
    blocks: Seq<Q8KBlock<T>>,
    weights: Seq<T>,
    b: int,
)
    requires
        re.exact(ar),
        data.len() == blocks.len() * kind.block_len(),
        weights.len() == blocks.len() * 256,
        0 <= b < blocks.len(),
        blocks[b].wf(),
        crate::k_blocks::blocks_values(ar, kind, data, weights),
    ensures
        crate::reals::sum(|e: int| place_term(re, blocks, weights, b * 256 + e), 256) == -least_of(
            re,
            kind,
            data,
            blocks,
            b,
        ) + across(re, kind, data, blocks, b),
{
    let g = |e: int| crate::k_dot_laws::element_term(re, blocks[b], e, weights[b * 256 + e]);
    let h = |e: int| place_term(re, blocks, weights, b * 256 + e);
    assert forall|e: int| 0 <= e < 256 implies #[trigger] h(e) == g(e) by {
        place_of(re, blocks, weights, b, e);
    }
    crate::reals::equal_sums(h, g, 256);
    crate::k_dot_laws::block_value(ar, re, kind, data, blocks, weights, b);
}

proof fn places_by_block<T, A: Arith<T>>(
    ar: &A,
    re: Reals<T>,
    kind: GgmlKQuantKind,
    data: Seq<u8>,
    blocks: Seq<Q8KBlock<T>>,
    weights: Seq<T>,
)
    requires
        re.exact(ar),
        data.len() == blocks.len() * kind.block_len(),
        weights.len() == blocks.len() * 256,
        forall|b: int| 0 <= b < blocks.len() ==> (#[trigger] blocks[b]).wf(),
        crate::k_blocks::blocks_values(ar, kind, data, weights),
    ensures
        crate::reals::sum(|j: int| place_term(re, blocks, weights, j), weights.len())
            == crate::reals::sum(|b: int| -least_of(re, kind, data, blocks, b), blocks.len())
            + crate::reals::sum(|b: int| across(re, kind, data, blocks, b), blocks.len()),
{
    let nb = blocks.len();
    let f = |j: int| place_term(re, blocks, weights, j);
    crate::reals::split_sum(f, nb, 256);
    let by_block = |b: int| crate::reals::sum(|e: int| f(b * 256 + e), 256);
    let least = |b: int| -least_of(re, kind, data, blocks, b);
    let lanes = |b: int| across(re, kind, data, blocks, b);
    let both = |b: int| least(b) + lanes(b);
    assert forall|b: int| 0 <= b < nb implies #[trigger] by_block(b) == both(b) by {
        block_places(ar, re, kind, data, blocks, weights, b);
        crate::reals::equal_sums(
            |e: int| place_term(re, blocks, weights, b * 256 + e),
            |e: int| f(b * 256 + e),
            256,
        );
    }
    crate::reals::equal_sums(by_block, both, nb);
    crate::reals::added_sums(least, lanes, nb);
}

proof fn dot_terms<T, A: Arith<T>>(
    ar: &A,
    re: Reals<T>,
    kind: GgmlKQuantKind,
    data: Seq<u8>,
    blocks: Seq<Q8KBlock<T>>,
    weights: Seq<T>,
    v: T,
)
    requires
        re.exact(ar),
        data.len() == blocks.len() * kind.block_len(),
        weights.len() == blocks.len() * 256,
        forall|b: int| 0 <= b < blocks.len() ==> (#[trigger] blocks[b]).wf(),
        crate::k_quant::is_k_dot(ar, kind, data, blocks, v),
        crate::k_blocks::blocks_values(ar, kind, data, weights),
    ensures
        (re.value)(v) == crate::reals::sum(
            |j: int| place_term(re, blocks, weights, j),
            weights.len(),
        ),
{
    let s = choose|s: crate::k_quant::KDotSteps<T>| #[trigger]
        crate::k_quant::k_dot_by(ar, kind, data, blocks, s, v);
    lanes_by_block(ar, re, kind, data, blocks, s.zero, s.minima, s.lanes, v);
    crate::k_dot_laws::minima_value(ar, re, kind, data, blocks, s.zero, s.minima);
    places_by_block(ar, re, kind, data, blocks, weights);
    let f = |b: int|
        -crate::k_dot_laws::least_part(re, kind, crate::k_blocks::block_of(kind, data, b), blocks[b], 256);
    let g = |b: int| -least_of(re, kind, data, blocks, b);
    crate::reals::equal_sums(f, g, blocks.len());
}

/// What a dot product of quantised inputs with quantised weights is: the sum, over
/// all places, of what the input stands for times what the weight stands for.
/// Without rounding.
pub proof fn quantised_dot_products<T, A: Arith<T>>(
    ar: &A,
    re: Reals<T>,
    kind: GgmlKQuantKind,
    data: Seq<u8>,
    blocks: Seq<Q8KBlock<T>>,
    weights: Seq<T>,
    v: T,
)
    requires
        re.exact(ar),
        data.len() == blocks.len() * kind.block_len(),
        weights.len() == blocks.len() * 256,
        forall|b: int| 0 <= b < blocks.len() ==> (#[trigger] blocks[b]).wf(),
        crate::k_quant::is_k_dot(ar, kind, data, blocks, v),
        crate::k_blocks::blocks_values(ar, kind, data, weights),
    ensures
        (re.value)(v) == crate::reals::sum(
            |j: int|
                (re.value)(blocks[j / 256].d) * ((blocks[j / 256].qs@[j % 256] as int) as real) * (
                re.value)(weights[j]),
            weights.len(),
        ),
{
    dot_terms(ar, re, kind, data, blocks, weights, v);
    reveal(crate::k_dot_laws::element_term);
    reveal(place_term);
    crate::reals::equal_sums(
        |j: int| place_term(re, blocks, weights, j),
        |j: int|
            (re.value)(blocks[j / 256].d) * ((blocks[j / 256].qs@[j % 256] as int) as real) * (
            re.value)(weights[j]),
        weights.len(),
    );
}

/// What a projection with quantised weights computes: output `o` of row `r` is the
/// dot product, as above, of the row's quantised inputs with the weights that the
/// blocks of row `o` stand for. Without rounding in the dot product.
pub proof fn quantised_projections<T, A: Arith<T>>(
    ar: &A,
    re: Reals<T>,
    x: Seq<T>,
    kind: GgmlKQuantKind,
    data: Seq<u8>,
    rows: int,
    n: int,
    outs: int,
    weights: Seq<T>,
    out: Seq<T>,
    r: int,
    o: int,
)
    requires
        re.exact(ar),
        0 <= r < rows,
        0 <= o < outs,
        n >= 0,
        n % 256 == 0,
        x.len() == rows * n,
        data.len() == outs * (n / 256 * kind.block_len()),
        weights.len() == outs * n,
        out.len() == rows * outs,
        crate::k_quant::k_linear_cells(ar, x, kind, data, n, outs, out, out.len() as int),
        crate::k_blocks::blocks_values(ar, kind, data, weights),
    ensures
        exists|blocks: Seq<Q8KBlock<T>>| #[trigger]
            crate::k_quant::is_q8_row(ar, x.subrange(r * n, r * n + n), blocks) && blocks.len()
                * 256 == n && (re.value)(out[r * outs + o]) == crate::reals::sum(
                |j: int|
                    (re.value)(blocks[j / 256].d) * ((blocks[j / 256].qs@[j % 256] as int) as real)
                        * (re.value)(weights[o * n + j]),
                n as nat,
            ),
{
    let i = r * outs + o;
    crate::grid::cell(r, o, outs);
    crate::grid::row_bound(r, rows, outs);
    crate::grid::row_bound(o, outs, n);
    let count = n / 256;
    let size = kind.block_len() as int;
    let len = count * size;
    assert(len >= 0) by (nonlinear_arith)
        requires
            len == count * size,
            count >= 0,
            size >= 0,
    ;
    crate::grid::row_bound(o, outs, len);
    assert(crate::k_quant::k_linear_cell(ar, x, kind, data, n, r, o, out[i]));
    let part = crate::k_quant::weight_row(kind, data, n, o);
    assert(part == data.subrange(o * len, o * len + len));
    let blocks = choose|blocks: Seq<Q8KBlock<T>>| #[trigger]
        crate::k_quant::is_q8_row(ar, crate::linear::row(x, n, r), blocks) && blocks.len()
            * crate::k_blocks::QK_K == n && crate::k_quant::is_k_dot(ar, kind, part, blocks, out[i]);
    let ws = weights.subrange(o * n, o * n + n);
    assert forall|b: int| 0 <= b < blocks.len() implies (#[trigger] blocks[b]).wf() by {
        assert(crate::k_quant::is_q8_block(
            ar,
            crate::k_quant::block_inputs(crate::linear::row(x, n, r), b),
            blocks[b],
        ));
    }
    assert forall|j: int| 0 <= j < ws.len() implies crate::k_blocks::element_value(
        ar,
        kind,
        crate::k_blocks::block_of(kind, part, j / 256),
        j % 256,
        #[trigger] ws[j],
    ) by {
        let g = o * n + j;
        assert(ws[j] == weights[g]);
        let b = j / 256;
        assert(o * n == o * count * 256) by (nonlinear_arith)
            requires
                n == count * 256,
        ;
        assert(g / 256 == o * count + b && g % 256 == j % 256);
        crate::grid::row_bound(b, count, size);
        assert((o * count + b) * size == o * len + b * size) by (nonlinear_arith)
            requires
                len == count * size,
        ;
        assert(crate::k_blocks::block_of(kind, part, b) =~= crate::k_blocks::block_of(
            kind,
            data,
            o * count + b,
        ));
    }
    quantised_dot_products(ar, re, kind, part, blocks, ws, out[i]);
    crate::reals::equal_sums(
        |j: int|
            (re.value)(blocks[j / 256].d) * ((blocks[j / 256].qs@[j % 256] as int) as real) * (
            re.value)(ws[j]),
        |j: int|
            (re.value)(blocks[j / 256].d) * ((blocks[j / 256].qs@[j % 256] as int) as real) * (
            re.value)(weights[o * n + j]),
        n as nat,
    );
}


} // verus!
