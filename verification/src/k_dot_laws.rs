use vstd::prelude::*;

use crate::arith::Arith;
use crate::k_blocks::GgmlKQuantKind;
use crate::k_quant::Q8KBlock;
use crate::reals::Reals;

verus! {

/// The products of the first `n` elements of a block, added up.
pub open spec fn product_total(kind: GgmlKQuantKind, block: Seq<u8>, qs: Seq<i8>, n: nat) -> int
    decreases n,
{
    if n == 0 {
        0
    } else {
        product_total(kind, block, qs, (n - 1) as nat) + crate::k_quant::element_product(
            kind,
            block,
            qs,
            n - 1,
        )
    }
}

proof fn totals_are_small(
    kind: GgmlKQuantKind,
    block: Seq<u8>,
    qs: Seq<i8>,
    lane: int,
    n: nat,
)
    requires
        block.len() == kind.block_len(),
        qs.len() == 256,
        n <= 256,
    ensures
        -0x8_0000 * n <= crate::k_quant::lane_total(kind, block, qs, lane, n) <= 0x8_0000 * n,
        -0x2000 * n <= crate::k_quant::minimum_total(block, qs, n) <= 0x2000 * n,
    decreases n,
{
    if n > 0 {
        totals_are_small(kind, block, qs, lane, (n - 1) as nat);
        crate::k_blocks::quants_are_small(kind, block, n - 1);
        let s = crate::k_blocks::scale(kind, block, n - 1);
        let q = qs[n - 1] as int;
        let w = crate::k_blocks::quant(kind, block, n - 1);
        let m = crate::k_blocks::minimum(block, n - 1);
        assert(-0x4000 <= s * q <= 0x4000) by (nonlinear_arith)
            requires
                -128 <= s <= 128,
                -128 <= q <= 128,
        ;
        let a = s * q;
        assert(-0x8_0000 <= a * w <= 0x8_0000) by (nonlinear_arith)
            requires
                -0x4000 <= a <= 0x4000,
                -32 <= w <= 32,
        ;
        assert(-0x2000 <= q * m <= 0x2000) by (nonlinear_arith)
            requires
                -128 <= q <= 128,
                0 <= m <= 64,
        ;
    }
}

/// The eight lanes of a block hold all its products.
proof fn lanes_hold_all(kind: GgmlKQuantKind, block: Seq<u8>, qs: Seq<i8>, n: nat)
    ensures
        crate::reals::sum(
            |lane: int| crate::k_quant::lane_total(kind, block, qs, lane, n) as real,
            8,
        ) == product_total(kind, block, qs, n) as real,
    decreases n,
{
    let f = |lane: int| crate::k_quant::lane_total(kind, block, qs, lane, n) as real;
    if n == 0 {
        crate::reals::zero_sum(f, 8);
    } else {
        let k = (n - 1) as nat;
        lanes_hold_all(kind, block, qs, k);
        let p = crate::k_quant::element_product(kind, block, qs, n - 1);
        let before = |lane: int| crate::k_quant::lane_total(kind, block, qs, lane, k) as real;
        let last = |lane: int|
            if (n - 1) % 8 == lane {
                p as real
            } else {
                0real
            };
        crate::reals::added_sums(before, last, 8);
        crate::reals::single_sum(last, 8, (n - 1) % 8);
        crate::reals::equal_sums(f, |lane: int| before(lane) + last(lane), 8);
    }
}

proof fn product_of_reals(a: int, b: int)
    ensures
        (a * b) as real == (a as real) * (b as real),
    decreases
        (if b < 0 {
            -b
        } else {
            b
        }),
{
    let x = a as real;
    if b == 0 {
        assert(a * 0 == 0);
        assert(x * 0real == 0real) by (nonlinear_arith);
    } else if b > 0 {
        product_of_reals(a, b - 1);
        assert(a * b == a * (b - 1) + a) by (nonlinear_arith);
        let y = (b - 1) as real;
        assert(x * (y + 1real) == x * y + x) by (nonlinear_arith);
    } else {
        product_of_reals(a, b + 1);
        assert(a * b == a * (b + 1) - a) by (nonlinear_arith);
        let y = (b + 1) as real;
        assert(x * (y - 1real) == x * y - x) by (nonlinear_arith);
    }
}

proof fn added_product(a: real, b: real, c: real)
    by (nonlinear_arith)
    ensures
        a * (b + c) == a * b + a * c,
{
}

proof fn linear_term(dw: real, dq: real, s: real, q: real, w: real)
    ensures
        dq * q * (dw * s * w) == dw * dq * (s * q * w),
{
    assert(dq * q * (dw * s * w) == dw * dq * (s * q * w)) by (nonlinear_arith);
}

proof fn affine_term(dw: real, dm: real, dq: real, s: real, q: real, w: real, m: real)
    ensures
        dq * q * (dw * s * w - dm * m) == dw * dq * (s * q * w) - dm * dq * (q * m),
{
    let (a, u, v) = (dq * q, dw * s * w, dm * m);
    assert(a * (u - v) == a * u - a * v) by (nonlinear_arith);
    linear_term(dw, dq, s, q, w);
    assert(dq * q * (dm * m) == dm * dq * (q * m)) by (nonlinear_arith);
}

/// A quantised input times a weight.
#[verifier::opaque]
pub open spec fn element_term<T>(re: Reals<T>, q8: Q8KBlock<T>, e: int, weight: T) -> real {
    (re.value)(q8.d) * ((q8.qs@[e] as int) as real) * (re.value)(weight)
}

#[verifier::opaque]
spec fn element_whole<T>(
    re: Reals<T>,
    kind: GgmlKQuantKind,
    block: Seq<u8>,
    q8: Q8KBlock<T>,
    e: int,
) -> real {
    (re.bits)(crate::k_blocks::half_at(block, crate::k_quant::scale_at(kind))) * (re.value)(q8.d) * (
    crate::k_quant::element_product(kind, block, q8.qs@, e) as real)
}

#[verifier::opaque]
spec fn element_least<T>(
    re: Reals<T>,
    kind: GgmlKQuantKind,
    block: Seq<u8>,
    q8: Q8KBlock<T>,
    e: int,
) -> real {
    if kind == GgmlKQuantKind::Q6K {
        0real
    } else {
        (re.bits)(crate::k_blocks::half_at(block, 2)) * (re.value)(q8.d) * (((q8.qs@[e] as int)
            * crate::k_blocks::minimum(block, e)) as real)
    }
}

/// What one element adds.
proof fn element_step<T, A: Arith<T>>(
    ar: &A,
    re: Reals<T>,
    kind: GgmlKQuantKind,
    block: Seq<u8>,
    q8: Q8KBlock<T>,
    e: int,
    v: T,
)
    requires
        re.exact(ar),
        block.len() == kind.block_len(),
        q8.qs@.len() == 256,
        0 <= e < 256,
        crate::k_blocks::element_value(ar, kind, block, e, v),
    ensures
        element_term(re, q8, e, v) == element_whole(re, kind, block, q8, e) - element_least(
            re,
            kind,
            block,
            q8,
            e,
        ),
{
    reveal(element_term);
    reveal(element_whole);
    reveal(element_least);
    crate::k_blocks::quants_are_small(kind, block, e);
    let s = crate::k_blocks::scale(kind, block, e);
    let w = crate::k_blocks::quant(kind, block, e);
    let m = crate::k_blocks::minimum(block, e);
    let q = q8.qs@[e] as int;
    product_of_reals(s, q);
    product_of_reals(s * q, w);
    product_of_reals(q, m);
    let dw = (re.bits)(crate::k_blocks::half_at(block, crate::k_quant::scale_at(kind)));
    let dm = (re.bits)(crate::k_blocks::half_at(block, 2));
    if kind == GgmlKQuantKind::Q6K {
        let st = choose|st: crate::k_blocks::LinearSteps<T>| #[trigger]
            crate::k_blocks::linear_by(ar, block, s, w, st, v);
        assert((re.value)(v) == dw * (s as real) * (w as real));
        linear_term(dw, (re.value)(q8.d), s as real, q as real, w as real);
    } else {
        let st = choose|st: crate::k_blocks::AffineSteps<T>| #[trigger]
            crate::k_blocks::affine_by(ar, block, s, m, w, st, v);
        assert((re.value)(v) == dw * (s as real) * (w as real) - dm * (m as real));
        affine_term(dw, dm, (re.value)(q8.d), s as real, q as real, w as real, m as real);
    }
}

/// What the products of the first `n` elements of a block add.
#[verifier::opaque]
spec fn whole_part<T>(
    re: Reals<T>,
    kind: GgmlKQuantKind,
    block: Seq<u8>,
    q8: Q8KBlock<T>,
    n: nat,
) -> real {
    (re.bits)(crate::k_blocks::half_at(block, crate::k_quant::scale_at(kind))) * (re.value)(q8.d) * (
    product_total(kind, block, q8.qs@, n) as real)
}

/// What the minima of the first `n` elements of a block take off.
#[verifier::opaque]
pub open spec fn least_part<T>(
    re: Reals<T>,
    kind: GgmlKQuantKind,
    block: Seq<u8>,
    q8: Q8KBlock<T>,
    n: nat,
) -> real {
    if kind == GgmlKQuantKind::Q6K {
        0real
    } else {
        (re.bits)(crate::k_blocks::half_at(block, 2)) * (re.value)(q8.d) * (
        crate::k_quant::minimum_total(block, q8.qs@, n) as real)
    }
}

proof fn parts_start<T>(re: Reals<T>, kind: GgmlKQuantKind, block: Seq<u8>, q8: Q8KBlock<T>)
    ensures
        whole_part(re, kind, block, q8, 0) == 0real,
        least_part(re, kind, block, q8, 0) == 0real,
{
    reveal(whole_part);
    reveal(least_part);
    let dw = (re.bits)(crate::k_blocks::half_at(block, crate::k_quant::scale_at(kind)));
    let dm = (re.bits)(crate::k_blocks::half_at(block, 2));
    let dq = (re.value)(q8.d);
    assert(dw * dq * 0real == 0real) by (nonlinear_arith);
    assert(dm * dq * 0real == 0real) by (nonlinear_arith);
}

proof fn parts_step<T>(re: Reals<T>, kind: GgmlKQuantKind, block: Seq<u8>, q8: Q8KBlock<T>, n: nat)
    requires
        n > 0,
    ensures
        whole_part(re, kind, block, q8, n) == whole_part(re, kind, block, q8, (n - 1) as nat)
            + element_whole(re, kind, block, q8, n - 1),
        least_part(re, kind, block, q8, n) == least_part(re, kind, block, q8, (n - 1) as nat)
            + element_least(re, kind, block, q8, n - 1),
{
    reveal(whole_part);
    reveal(least_part);
    reveal(element_whole);
    reveal(element_least);
    let k = (n - 1) as nat;
    let dw = (re.bits)(crate::k_blocks::half_at(block, crate::k_quant::scale_at(kind)));
    let dm = (re.bits)(crate::k_blocks::half_at(block, 2));
    let dq = (re.value)(q8.d);
    added_product(
        dw * dq,
        product_total(kind, block, q8.qs@, k) as real,
        crate::k_quant::element_product(kind, block, q8.qs@, n - 1) as real,
    );
    added_product(
        dm * dq,
        crate::k_quant::minimum_total(block, q8.qs@, k) as real,
        ((q8.qs@[n - 1] as int) * crate::k_blocks::minimum(block, n - 1)) as real,
    );
}

/// One block of inputs times one block of weights.
proof fn block_products<T, A: Arith<T>>(
    ar: &A,
    re: Reals<T>,
    kind: GgmlKQuantKind,
    block: Seq<u8>,
    q8: Q8KBlock<T>,
    weights: Seq<T>,
    at: int,
    n: nat,
)
    requires
        re.exact(ar),
        block.len() == kind.block_len(),
        q8.qs@.len() == 256,
        n <= 256,
        forall|e: int|
            0 <= e < n ==> crate::k_blocks::element_value(ar, kind, block, e, #[trigger] weights[at + e]),
    ensures
        crate::reals::sum(|e: int| element_term(re, q8, e, weights[at + e]), n) == whole_part(
            re,
            kind,
            block,
            q8,
            n,
        ) - least_part(re, kind, block, q8, n),
    decreases n,
{
    let f = |e: int| element_term(re, q8, e, weights[at + e]);
    parts_start(re, kind, block, q8);
    if n > 0 {
        let k = (n - 1) as nat;
        block_products(ar, re, kind, block, q8, weights, at, k);
        let v = weights[at + (n - 1)];
        assert(crate::k_blocks::element_value(ar, kind, block, n - 1, v));
        element_step(ar, re, kind, block, q8, n - 1, v);
        parts_step(re, kind, block, q8, n);
        assert(crate::reals::sum(f, n) == crate::reals::sum(f, k) + f(n - 1));
    }
}

proof fn lane_step_value<T, A: Arith<T>>(
    ar: &A,
    re: Reals<T>,
    kind: GgmlKQuantKind,
    data: Seq<u8>,
    blocks: Seq<Q8KBlock<T>>,
    lane: int,
    b: int,
    x: T,
    y: T,
)
    requires
        re.exact(ar),
        crate::k_quant::lane_steps(ar, kind, data, blocks, lane)(b, x, y),
        crate::k_blocks::block_of(kind, data, b).len() == kind.block_len(),
        blocks[b].qs@.len() == 256,
    ensures
        (re.value)(y) == (re.value)(x) + (re.bits)(
            crate::k_blocks::half_at(
                crate::k_blocks::block_of(kind, data, b),
                crate::k_quant::scale_at(kind),
            ),
        ) * (re.value)(blocks[b].d) * (crate::k_quant::lane_total(
            kind,
            crate::k_blocks::block_of(kind, data, b),
            blocks[b].qs@,
            lane,
            256,
        ) as real),
{
    let block = crate::k_blocks::block_of(kind, data, b);
    let total = crate::k_quant::lane_total(kind, block, blocks[b].qs@, lane, 256);
    totals_are_small(kind, block, blocks[b].qs@, lane, 256);
    let formula = |d: T|
        crate::expr::Expr::Value(x).plus(
            crate::expr::Expr::Value(d).times(crate::expr::Expr::Int(total as i64)),
        );
    let joint = crate::k_quant::joint_scale(block, crate::k_quant::scale_at(kind), blocks[b].d);
    let d = choose|d: T| #[trigger]
        crate::expr::evals(ar, joint, d) && crate::expr::evals(ar, formula(d), y);
    re.evals_value(ar, joint, d);
    re.evals_value(ar, formula(d), y);
    reveal_with_fuel(Reals::eval, 5);
}

proof fn minimum_step_value<T, A: Arith<T>>(
    ar: &A,
    re: Reals<T>,
    kind: GgmlKQuantKind,
    data: Seq<u8>,
    blocks: Seq<Q8KBlock<T>>,
    b: int,
    x: T,
    y: T,
)
    requires
        re.exact(ar),
        crate::k_quant::minimum_steps(ar, kind, data, blocks)(b, x, y),
        crate::k_blocks::block_of(kind, data, b).len() == kind.block_len(),
        blocks[b].qs@.len() == 256,
    ensures
        (re.value)(y) == (re.value)(x) - ((re.bits)(
            crate::k_blocks::half_at(crate::k_blocks::block_of(kind, data, b), 2),
        ) * (re.value)(blocks[b].d) * (crate::k_quant::minimum_total(
            crate::k_blocks::block_of(kind, data, b),
            blocks[b].qs@,
            256,
        ) as real)),
{
    let block = crate::k_blocks::block_of(kind, data, b);
    let total = crate::k_quant::minimum_total(block, blocks[b].qs@, 256);
    totals_are_small(kind, block, blocks[b].qs@, 0, 256);
    let formula = |d: T|
        crate::expr::Expr::Value(x).minus(
            crate::expr::Expr::Value(d).times(crate::expr::Expr::Int(total as i64)),
        );
    let joint = crate::k_quant::joint_scale(block, 2, blocks[b].d);
    let d = choose|d: T| #[trigger]
        crate::expr::evals(ar, joint, d) && crate::expr::evals(ar, formula(d), y);
    re.evals_value(ar, joint, d);
    re.evals_value(ar, formula(d), y);
    reveal_with_fuel(Reals::eval, 5);
}

/// What block `b` adds to a lane.
#[verifier::opaque]
pub open spec fn lane_part<T>(
    re: Reals<T>,
    kind: GgmlKQuantKind,
    data: Seq<u8>,
    blocks: Seq<Q8KBlock<T>>,
    lane: int,
    b: int,
) -> real {
    let block = crate::k_blocks::block_of(kind, data, b);
    (re.bits)(crate::k_blocks::half_at(block, crate::k_quant::scale_at(kind))) * (re.value)(
        blocks[b].d,
    ) * (crate::k_quant::lane_total(kind, block, blocks[b].qs@, lane, 256) as real)
}

proof fn block_length(kind: GgmlKQuantKind, data: Seq<u8>, nb: nat, b: int)
    requires
        data.len() == nb * kind.block_len(),
        0 <= b < nb,
    ensures
        crate::k_blocks::block_of(kind, data, b).len() == kind.block_len(),
{
    crate::grid::row_bound(b, nb as int, kind.block_len() as int);
}

/// A lane holds what the blocks add to it.
pub proof fn lane_value<T, A: Arith<T>>(
    ar: &A,
    re: Reals<T>,
    kind: GgmlKQuantKind,
    data: Seq<u8>,
    blocks: Seq<Q8KBlock<T>>,
    zero: T,
    lane: int,
    r: T,
)
    requires
        re.exact(ar),
        data.len() == blocks.len() * kind.block_len(),
        forall|b: int| 0 <= b < blocks.len() ==> (#[trigger] blocks[b]).wf(),
        (re.value)(zero) == 0real,
        crate::arith::folds(
            crate::k_quant::lane_steps(ar, kind, data, blocks, lane),
            blocks.len(),
            zero,
            r,
        ),
    ensures
        (re.value)(r) == crate::reals::sum(
            |b: int| lane_part(re, kind, data, blocks, lane, b),
            blocks.len(),
        ),
{
    let steps = crate::k_quant::lane_steps(ar, kind, data, blocks, lane);
    let f = |b: int| lane_part(re, kind, data, blocks, lane, b);
    assert forall|b: int, x: T, y: T| 0 <= b < blocks.len() && #[trigger] steps(b, x, y) implies (
    re.value)(y) == (re.value)(x) + f(b) by {
        assert(blocks[b].wf());
        block_length(kind, data, blocks.len(), b);
        reveal(lane_part);
        lane_step_value(ar, re, kind, data, blocks, lane, b, x, y);
    }
    re.fold_value(steps, f, blocks.len(), zero, r);
}

/// The minima hold what the blocks take off.
pub proof fn minima_value<T, A: Arith<T>>(
    ar: &A,
    re: Reals<T>,
    kind: GgmlKQuantKind,
    data: Seq<u8>,
    blocks: Seq<Q8KBlock<T>>,
    zero: T,
    r: T,
)
    requires
        re.exact(ar),
        data.len() == blocks.len() * kind.block_len(),
        forall|b: int| 0 <= b < blocks.len() ==> (#[trigger] blocks[b]).wf(),
        (re.value)(zero) == 0real,
        if kind == GgmlKQuantKind::Q6K {
            r == zero
        } else {
            crate::arith::folds(
                crate::k_quant::minimum_steps(ar, kind, data, blocks),
                blocks.len(),
                zero,
                r,
            )
        },
    ensures
        (re.value)(r) == crate::reals::sum(
            |b: int| -least_part(
                re,
                kind,
                crate::k_blocks::block_of(kind, data, b),
                blocks[b],
                256,
            ),
            blocks.len(),
        ),
{
    let steps = crate::k_quant::minimum_steps(ar, kind, data, blocks);
    let f = |b: int| -least_part(
                re,
                kind,
                crate::k_blocks::block_of(kind, data, b),
                blocks[b],
                256,
            );
    if kind == GgmlKQuantKind::Q6K {
        reveal(least_part);
        crate::reals::zero_sum(f, blocks.len());
    } else {
        assert forall|b: int, x: T, y: T|
            0 <= b < blocks.len() && #[trigger] steps(b, x, y) implies (re.value)(y) == (re.value)(x)
            + f(b) by {
            assert(blocks[b].wf());
            block_length(kind, data, blocks.len(), b);
            reveal(least_part);
            minimum_step_value(ar, re, kind, data, blocks, b, x, y);
        }
        re.fold_value(steps, f, blocks.len(), zero, r);
    }
}

proof fn elements_of_block<T, A: Arith<T>>(
    ar: &A,
    kind: GgmlKQuantKind,
    data: Seq<u8>,
    weights: Seq<T>,
    b: int,
)
    requires
        0 <= b,
        b * 256 + 256 <= weights.len(),
        crate::k_blocks::blocks_values(ar, kind, data, weights),
    ensures
        forall|e: int|
            0 <= e < 256 ==> crate::k_blocks::element_value(
                ar,
                kind,
                crate::k_blocks::block_of(kind, data, b),
                e,
                #[trigger] weights[b * 256 + e],
            ),
{
    assert forall|e: int| 0 <= e < 256 implies crate::k_blocks::element_value(
        ar,
        kind,
        crate::k_blocks::block_of(kind, data, b),
        e,
        #[trigger] weights[b * 256 + e],
    ) by {
        let j = b * 256 + e;
        assert(j / 256 == b && j % 256 == e);
        assert(crate::k_blocks::element_value(
            ar,
            kind,
            crate::k_blocks::block_of(kind, data, j / 256),
            j % 256,
            weights[j],
        ));
    }
}

proof fn lanes_of_block<T>(
    re: Reals<T>,
    kind: GgmlKQuantKind,
    data: Seq<u8>,
    blocks: Seq<Q8KBlock<T>>,
    b: int,
)
    ensures
        crate::reals::sum(|lane: int| lane_part(re, kind, data, blocks, lane, b), 8) == whole_part(
            re,
            kind,
            crate::k_blocks::block_of(kind, data, b),
            blocks[b],
            256,
        ),
{
    reveal(lane_part);
    reveal(whole_part);
    let block = crate::k_blocks::block_of(kind, data, b);
    let qs = blocks[b].qs@;
    let d = (re.bits)(crate::k_blocks::half_at(block, crate::k_quant::scale_at(kind))) * (re.value)(
        blocks[b].d,
    );
    let totals = |lane: int| crate::k_quant::lane_total(kind, block, qs, lane, 256) as real;
    lanes_hold_all(kind, block, qs, 256);
    crate::reals::scaled_sum(totals, d, 8);
    let f = |lane: int| lane_part(re, kind, data, blocks, lane, b);
    let g = |lane: int| d * totals(lane);
    assert forall|lane: int| 0 <= lane < 8 implies #[trigger] f(lane) == g(lane) by {}
    crate::reals::equal_sums(f, g, 8);
}

proof fn block_parts<T, A: Arith<T>>(
    ar: &A,
    re: Reals<T>,
    kind: GgmlKQuantKind,
    data: Seq<u8>,
    blocks: Seq<Q8KBlock<T>>,
    weights: Seq<T>,
    b: int,
)
    requires
        re.exact(ar),
        data.len() == blocks.len() * kind.block_len(),
        weights.len() == blocks.len() * 256,
        0 <= b < blocks.len(),
        blocks[b].wf(),
        crate::k_blocks::blocks_values(ar, kind, data, weights),
    ensures
        crate::reals::sum(|e: int| element_term(re, blocks[b], e, weights[b * 256 + e]), 256)
            == whole_part(re, kind, crate::k_blocks::block_of(kind, data, b), blocks[b], 256)
            - least_part(re, kind, crate::k_blocks::block_of(kind, data, b), blocks[b], 256),
{
    let block = crate::k_blocks::block_of(kind, data, b);
    block_length(kind, data, blocks.len(), b);
    elements_of_block(ar, kind, data, weights, b);
    block_products(ar, re, kind, block, blocks[b], weights, b * 256, 256);
}

/// The terms of a block are what its lanes get, less its minima.
pub proof fn block_value<T, A: Arith<T>>(
    ar: &A,
    re: Reals<T>,
    kind: GgmlKQuantKind,
    data: Seq<u8>,
    blocks: Seq<Q8KBlock<T>>,
    weights: Seq<T>,
    b: int,
)
    requires
        re.exact(ar),
        data.len() == blocks.len() * kind.block_len(),
        weights.len() == blocks.len() * 256,
        0 <= b < blocks.len(),
        blocks[b].wf(),
        crate::k_blocks::blocks_values(ar, kind, data, weights),
    ensures
        crate::reals::sum(|e: int| element_term(re, blocks[b], e, weights[b * 256 + e]), 256)
            == -least_part(re, kind, crate::k_blocks::block_of(kind, data, b), blocks[b], 256)
            + crate::reals::sum(|lane: int| lane_part(re, kind, data, blocks, lane, b), 8),
{
    block_parts(ar, re, kind, data, blocks, weights, b);
    lanes_of_block(re, kind, data, blocks, b);
}

} // verus!
