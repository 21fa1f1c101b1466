use vstd::prelude::*;

use crate::arith::Arith;
use crate::k_quant::Q8KBlock;
use crate::reals::Reals;

verus! {

/// The operations that quantising uses do not round, but for the addition of
/// 12582912: that leaves, in the low 23 bits, the nearest integer and 4194304.
pub open spec fn rounds_nearest<T, A: Arith<T>>(ar: &A, re: Reals<T>) -> bool {
    &&& forall|n: i64, r: T| #[trigger] crate::arith::converts(ar, n, r) ==> (re.value)(r) == (
    n as int) as real
    &&& forall|a: T, b: T, r: T| #[trigger]
        crate::arith::muls(ar, a, b, r) ==> (re.value)(r) == (re.value)(a) * (re.value)(b)
    &&& forall|a: T, b: T, r: T| #[trigger]
        crate::arith::divs(ar, a, b, r) ==> (re.value)(r) == (re.value)(a) / (re.value)(b)
    &&& forall|a: T, r: T| #[trigger]
        crate::arith::magnitudes(ar, a, r) ==> (re.value)(r) == crate::reals::magnitude(
            (re.value)(a),
        )
    &&& forall|a: T, b: T, c: bool| #[trigger]
        crate::arith::compares(ar, a, b, c) ==> c == ((re.value)(a) < (re.value)(b))
    &&& forall|r: T| #[trigger]
        crate::arith::decodes(ar, 0x4a7f_fffcu32, r) ==> (re.value)(r) == 4194303real
    &&& forall|a: T, c: T, r: T, bits: u32|
        #![trigger crate::arith::adds(ar, a, c, r), crate::arith::encodes(ar, r, bits)]
        crate::arith::decodes(ar, 0x4b40_0000u32, c) && crate::arith::adds(ar, a, c, r)
            && crate::arith::encodes(ar, r, bits) && crate::reals::magnitude((re.value)(a))
            <= 4194303real ==> 2real * crate::reals::magnitude(
            ((bits as int % 0x80_0000 - 0x40_0000) as real) - (re.value)(a),
        ) <= 1real
}

/// What is known after scanning `n` values: none has a greater magnitude, and the
/// value found is one of them.
proof fn scan_finds_the_greatest<T, A: Arith<T>>(
    ar: &A,
    re: Reals<T>,
    x: Seq<T>,
    n: nat,
    zero: T,
    best: (T, T),
)
    requires
        rounds_nearest(ar, re),
        n <= x.len(),
        (re.value)(zero) == 0real,
        crate::arith::folds(crate::k_quant::scan_steps(ar, x), n, (zero, zero), best),
    ensures
        forall|i: int|
            0 <= i < n ==> crate::reals::magnitude((re.value)(#[trigger] x[i])) <= (re.value)(best.1),
        crate::reals::magnitude((re.value)(best.0)) == (re.value)(best.1),
        (re.value)(best.1) == 0real || exists|i: int|
            0 <= i < n && #[trigger] x[i] == best.0,
    decreases n,
{
    let steps = crate::k_quant::scan_steps(ar, x);
    if n > 0 {
        let k = (n - 1) as nat;
        let before = choose|m: (T, T)| #[trigger]
            crate::arith::takes(steps, n - 1, m, best) && crate::arith::folds(
                steps,
                k,
                (zero, zero),
                m,
            );
        assert(steps(n - 1, before, best));
        scan_finds_the_greatest(ar, re, x, k, zero, before);
        let (m, c) = choose|m: T, c: bool| #[trigger]
            crate::arith::magnitudes(ar, x[n - 1], m) && #[trigger] crate::arith::compares(
                ar,
                before.1,
                m,
                c,
            ) && best == (if c {
                (x[n - 1], m)
            } else {
                before
            });
        if c {
            assert(x[n - 1] == best.0);
        }
    }
}

/// Dividing the error of a rounded quotient by the scale.
proof fn scaled_back(x: real, max: real, iscale: real, d: real, q: real)
    requires
        max != 0real,
        iscale == (-127real) / max,
        d == 1real / iscale,
        2real * crate::reals::magnitude(q - iscale * x) <= 1real,
    ensures
        2real * crate::reals::magnitude(d * q - x) <= crate::reals::magnitude(d),
        127real * crate::reals::magnitude(d) == crate::reals::magnitude(max),
{
    assert(iscale * max == -127real) by (nonlinear_arith)
        requires
            max != 0real,
            iscale == (-127real) / max,
    ;
    assert(iscale != 0real) by (nonlinear_arith)
        requires
            iscale * max == -127real,
    ;
    assert(d * iscale == 1real) by (nonlinear_arith)
        requires
            d == 1real / iscale,
            iscale != 0real,
    ;
    assert(-127real * d == max) by (nonlinear_arith)
        requires
            d * iscale == 1real,
            iscale * max == -127real,
    ;
    let err = q - iscale * x;
    assert(d * q - x == d * err) by (nonlinear_arith)
        requires
            err == q - iscale * x,
            d * iscale == 1real,
    ;
    assert(2real * crate::reals::magnitude(d * err) <= crate::reals::magnitude(d))
        by (nonlinear_arith)
        requires
            2real * crate::reals::magnitude(err) <= 1real,
    ;
}

proof fn scaled_bound(x: real, max: real, iscale: real)
    requires
        max != 0real,
        iscale == (-127real) / max,
        crate::reals::magnitude(x) <= crate::reals::magnitude(max),
    ensures
        crate::reals::magnitude(iscale * x) <= 127real,
{
    assert(iscale * max == -127real) by (nonlinear_arith)
        requires
            max != 0real,
            iscale == (-127real) / max,
    ;
    assert(crate::reals::magnitude(iscale * x) <= crate::reals::magnitude(iscale * max))
        by (nonlinear_arith)
        requires
            crate::reals::magnitude(x) <= crate::reals::magnitude(max),
    ;
}

/// Quantising a block.
proof fn block_is_near<T, A: Arith<T>>(
    ar: &A,
    re: Reals<T>,
    x: Seq<T>,
    b: Q8KBlock<T>,
    e: int,
)
    requires
        rounds_nearest(ar, re),
        x.len() == 256,
        crate::k_quant::is_q8_block(ar, x, b),
        0 <= e < 256,
    ensures
        2real * crate::reals::magnitude(
            (re.value)(b.d) * ((b.qs@[e] as int) as real) - (re.value)(x[e]),
        ) <= crate::reals::magnitude((re.value)(b.d)),
        crate::reals::magnitude((re.value)(x[e])) <= 127real * crate::reals::magnitude(
            (re.value)(b.d),
        ),
        exists|k: int|
            0 <= k < 256 && crate::reals::magnitude((re.value)(#[trigger] x[k])) == 127real
                * crate::reals::magnitude((re.value)(b.d)),
{
    let val = re.value;
    let s = choose|s: crate::k_quant::Q8Steps<T>| #[trigger]
        crate::k_quant::q8_scan(ar, x, s) && if s.positive {
            crate::k_quant::q8_scale(ar, s) && crate::k_quant::q8_values(ar, x, s, b.d, b.qs@)
        } else {
            crate::k_quant::q8_zeros(s, b.d, b.qs@)
        };
    scan_finds_the_greatest(ar, re, x, 256, s.zero, (s.max, s.amax));
    let q = b.qs@[e] as int;
    assert(crate::reals::magnitude(val(x[e])) <= val(s.amax));
    if s.positive {
        let max = val(s.max);
        let numerator = choose|a: T, c: T|
            crate::expr::evals(ar, crate::expr::Expr::<T>::Int((-127) as i64), a)
                && crate::expr::evals(ar, crate::expr::Expr::Value(s.max), c)
                && #[trigger] crate::expr::combines(ar, crate::expr::Op::Div, a, c, s.iscale);
        assert(val(s.iscale) == (-127real) / max);
        let denominator = choose|a: T, c: T|
            crate::expr::evals(ar, crate::expr::Expr::<T>::Int(1), a) && crate::expr::evals(
                ar,
                crate::expr::Expr::Value(s.iscale),
                c,
            ) && #[trigger] crate::expr::combines(ar, crate::expr::Op::Div, a, c, b.d);
        assert(val(b.d) == 1real / val(s.iscale));
        assert(crate::k_quant::quantises(ar, s, x[e], q));
        let scaled = choose|scaled: T| #[trigger]
            crate::k_quant::scales_to(ar, s, x[e], scaled, true) && crate::k_quant::rounds_to(
                ar,
                s,
                scaled,
                q,
            );
        let (shifted, bits) = choose|shifted: T, bits: u32| #[trigger]
            crate::arith::adds(ar, scaled, s.round, shifted) && #[trigger] crate::arith::encodes(
                ar,
                shifted,
                bits,
            ) && q == crate::k_quant::low_integer(bits);
        scaled_bound(val(x[e]), max, val(s.iscale));
        let n = bits as int % 0x80_0000 - 0x40_0000;
        assert(2real * crate::reals::magnitude((n as real) - val(scaled)) <= 1real);
        assert(n <= 127) by {
            if n >= 128 {
                assert(n as real >= 128real);
            }
        }
        scaled_back(val(x[e]), max, val(s.iscale), val(b.d), q as real);
        let k = choose|i: int| 0 <= i < 256 && #[trigger] x[i] == s.max;
        assert(x[k] == s.max);
    } else {
        assert(q == 0);
        let d = val(b.d);
        assert(d * 0real == 0real) by (nonlinear_arith);
        assert(crate::reals::magnitude(val(x[0])) <= val(s.amax));
    }
}

/// What a quantised row says of its inputs: input `j` is within half a step of
/// number `j % 256` of block `j / 256` times the step of that block, and the step is
/// the least whose 127 multiples reach every input of the block: one of them has
/// the magnitude of 127 steps.
pub proof fn quantised_rows_are_near<T, A: Arith<T>>(
    ar: &A,
    re: Reals<T>,
    x: Seq<T>,
    blocks: Seq<Q8KBlock<T>>,
    j: int,
)
    requires
        rounds_nearest(ar, re),
        crate::k_quant::is_q8_row(ar, x, blocks),
        blocks.len() * 256 == x.len(),
        0 <= j < x.len(),
    ensures
        2real * crate::reals::magnitude(
            (re.value)(blocks[j / 256].d) * ((blocks[j / 256].qs@[j % 256] as int) as real) - (
            re.value)(x[j]),
        ) <= crate::reals::magnitude((re.value)(blocks[j / 256].d)),
        crate::reals::magnitude((re.value)(x[j])) <= 127real * crate::reals::magnitude(
            (re.value)(blocks[j / 256].d),
        ),
        exists|k: int|
            j / 256 * 256 <= k < j / 256 * 256 + 256 && crate::reals::magnitude(
                (re.value)(#[trigger] x[k]),
            ) == 127real * crate::reals::magnitude((re.value)(blocks[j / 256].d)),
{
    let (b, e) = (j / 256, j % 256);
    let part = crate::k_quant::block_inputs(x, b);
    assert(crate::k_quant::is_q8_block(ar, part, blocks[b]));
    block_is_near(ar, re, part, blocks[b], e);
    assert(part[e] == x[b * 256 + e]);
    let k = choose|k: int|
        0 <= k < 256 && crate::reals::magnitude((re.value)(#[trigger] part[k])) == 127real
            * crate::reals::magnitude((re.value)(blocks[b].d));
    assert(part[k] == x[b * 256 + k]);
}

/// The numbers of a block come with their sums, sixteen by sixteen.
pub proof fn group_sums_add_sixteen<T>(b: Q8KBlock<T>, g: int)
    requires
        b.wf(),
        0 <= g < 16,
    ensures
        b.qs@.len() == 256,
        b.sums16@[g] == b.qs@[16 * g] + b.qs@[16 * g + 1] + b.qs@[16 * g + 2] + b.qs@[16 * g + 3]
            + b.qs@[16 * g + 4] + b.qs@[16 * g + 5] + b.qs@[16 * g + 6] + b.qs@[16 * g + 7]
            + b.qs@[16 * g + 8] + b.qs@[16 * g + 9] + b.qs@[16 * g + 10] + b.qs@[16 * g + 11]
            + b.qs@[16 * g + 12] + b.qs@[16 * g + 13] + b.qs@[16 * g + 14] + b.qs@[16 * g + 15],
{
    reveal_with_fuel(crate::k_quant::range_sum, 17);
    assert(b.sums16@[g] == crate::k_quant::range_sum(b.qs@, 16 * g, 16));
}

} // verus!
