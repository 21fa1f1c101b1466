use vstd::prelude::*;

use crate::arith::Arith;
use crate::k_blocks::GgmlKQuantKind;
use crate::reals::Reals;

verus! {

/// A digit comes out of a number by dividing off the lower ones.
proof fn digit(v: int, low: int, power: int, d: int, base: int, high: int)
    requires
        0 <= low < power,
        0 <= d < base,
        v == low + power * (d + base * high),
    ensures
        v / power % base == d,
{
    let q = d + base * high;
    assert(power * q == q * power) by (nonlinear_arith);
    vstd::arithmetic::div_mod::lemma_fundamental_div_mod_converse(v, power, q, low);
    assert(base * high == high * base) by (nonlinear_arith);
    vstd::arithmetic::div_mod::lemma_fundamental_div_mod_converse(q, base, high, d);
}

proof fn powers_of_two()
    ensures
        crate::k_blocks::bit(0) == 1,
        crate::k_blocks::bit(1) == 2,
        crate::k_blocks::bit(2) == 4,
        crate::k_blocks::bit(3) == 8,
        crate::k_blocks::bit(4) == 16,
        crate::k_blocks::bit(5) == 32,
        crate::k_blocks::bit(6) == 64,
        crate::k_blocks::bit(7) == 128,
{
    reveal_with_fuel(crate::k_blocks::bit, 9);
}

proof fn bits_of_byte(v: int, h0: int, h1: int, h2: int, h3: int, h4: int, h5: int, h6: int, h7: int)
    requires
        0 <= h0 < 2,
        0 <= h1 < 2,
        0 <= h2 < 2,
        0 <= h3 < 2,
        0 <= h4 < 2,
        0 <= h5 < 2,
        0 <= h6 < 2,
        0 <= h7 < 2,
        v == h0 + 2 * h1 + 4 * h2 + 8 * h3 + 16 * h4 + 32 * h5 + 64 * h6 + 128 * h7,
    ensures
        v / 1 % 2 == h0,
        v / 2 % 2 == h1,
        v / 4 % 2 == h2,
        v / 8 % 2 == h3,
        v / 16 % 2 == h4,
        v / 32 % 2 == h5,
        v / 64 % 2 == h6,
        v / 128 % 2 == h7,
{
    digit(v, 0, 1, h0, 2, h1 + 2 * h2 + 4 * h3 + 8 * h4 + 16 * h5 + 32 * h6 + 64 * h7);
    let l1 = h0;
    digit(v, l1, 2, h1, 2, h2 + 2 * h3 + 4 * h4 + 8 * h5 + 16 * h6 + 32 * h7);
    let l2 = l1 + 2 * h1;
    digit(v, l2, 4, h2, 2, h3 + 2 * h4 + 4 * h5 + 8 * h6 + 16 * h7);
    let l3 = l2 + 4 * h2;
    digit(v, l3, 8, h3, 2, h4 + 2 * h5 + 4 * h6 + 8 * h7);
    let l4 = l3 + 8 * h3;
    digit(v, l4, 16, h4, 2, h5 + 2 * h6 + 4 * h7);
    let l5 = l4 + 16 * h4;
    digit(v, l5, 32, h5, 2, h6 + 2 * h7);
    let l6 = l5 + 32 * h5;
    digit(v, l6, 64, h6, 2, h7);
    let l7 = l6 + 64 * h6;
    digit(v, l7, 128, h7, 2, 0);
}

/// Bytes hold numbers of four bits: each 32 bytes from `base` hold the low four
/// bits of 64 numbers, the first 32 in the low half of each byte, the others in
/// the high half.
pub open spec fn holds_low_bits(block: Seq<u8>, base: int, n: Seq<int>) -> bool {
    forall|b: int|
        base <= b < base + 128 ==> (#[trigger] block[b]) as int == n[(b - base) / 32 * 64 + (b - base)
            % 32] % 16 + 16 * (n[(b - base) / 32 * 64 + 32 + (b - base) % 32] % 16)
}

/// The numbers that a Q4_K block was made of come out again.
pub proof fn four_bit_blocks_round_trip(block: Seq<u8>, n: Seq<int>, e: int)
    requires
        block.len() == 144,
        n.len() == 256,
        forall|i: int| 0 <= i < 256 ==> 0 <= #[trigger] n[i] < 16,
        holds_low_bits(block, 16, n),
        0 <= e < 256,
    ensures
        crate::k_blocks::quant(GgmlKQuantKind::Q4K, block, e) == n[e],
{
    let b = e / 64 * 32 + e % 32;
    assert(block.subrange(16, 144)[b] == block[16 + b]);
    assert(0 <= n[e] < 16);
}

/// The numbers that a Q5_K block was made of come out again: the low four bits as
/// in Q4_K, and the fifth bits of the numbers `l, l + 32, l + 64, ...` as the bits
/// of one byte.
pub proof fn five_bit_blocks_round_trip(block: Seq<u8>, n: Seq<int>, e: int)
    requires
        block.len() == 176,
        n.len() == 256,
        forall|i: int| 0 <= i < 256 ==> 0 <= #[trigger] n[i] < 32,
        holds_low_bits(block, 48, n),
        forall|b: int|
            16 <= b < 48 ==> (#[trigger] block[b]) as int == n[b - 16] / 16 + 2 * (n[b - 16 + 32] / 16)
                + 4 * (n[b - 16 + 64] / 16) + 8 * (n[b - 16 + 96] / 16) + 16 * (n[b - 16 + 128] / 16)
                + 32 * (n[b - 16 + 160] / 16) + 64 * (n[b - 16 + 192] / 16) + 128 * (n[b - 16 + 224]
                / 16),
        0 <= e < 256,
    ensures
        crate::k_blocks::quant(GgmlKQuantKind::Q5K, block, e) == n[e],
{
    let b = e / 64 * 32 + e % 32;
    assert(block.subrange(48, 176)[b] == block[48 + b]);
    let (l, g) = (e % 32, e / 32);
    assert(crate::k_blocks::nibble(block.subrange(48, 176), e) == n[e] % 16) by {
        let (lo, hi) = (e / 64 * 64 + l, e / 64 * 64 + 32 + l);
        assert(b / 32 == e / 64 && b % 32 == l);
        assert(block[48 + b] as int == n[lo] % 16 + 16 * (n[hi] % 16));
        digit(block[48 + b] as int, 0, 1, n[lo] % 16, 16, n[hi] % 16);
        digit(block[48 + b] as int, n[lo] % 16, 16, n[hi] % 16, 16, 0);
    }
    assert(block[16 + l] as int / crate::k_blocks::bit(g) % 2 == n[e] / 16) by {
        powers_of_two();
        assert(0 <= n[l] < 32 && 0 <= n[l + 32] < 32 && 0 <= n[l + 64] < 32 && 0 <= n[l + 96] < 32
            && 0 <= n[l + 128] < 32 && 0 <= n[l + 160] < 32 && 0 <= n[l + 192] < 32 && 0 <= n[l
            + 224] < 32);
        bits_of_byte(
            block[16 + l] as int,
            n[l] / 16,
            n[l + 32] / 16,
            n[l + 64] / 16,
            n[l + 96] / 16,
            n[l + 128] / 16,
            n[l + 160] / 16,
            n[l + 192] / 16,
            n[l + 224] / 16,
        );
        assert(e == l + 32 * g);
    }
}

/// The numbers that a Q6_K block was made of come out again, less 32. Each half of
/// the block holds 128 numbers: the low four bits of the first 64 in the low
/// halves of 64 bytes and those of the others in the high halves, and the upper
/// two bits of the numbers `l, l + 32, l + 64, l + 96` as the digits, to base four,
/// of one byte.
pub proof fn six_bit_blocks_round_trip(block: Seq<u8>, n: Seq<int>, e: int)
    requires
        block.len() == 210,
        n.len() == 256,
        forall|i: int| 0 <= i < 256 ==> 0 <= #[trigger] n[i] < 64,
        forall|b: int|
            0 <= b < 128 ==> (#[trigger] block[b]) as int == n[b / 64 * 128 + b % 64] % 16 + 16 * (n[b
                / 64 * 128 + 64 + b % 64] % 16),
        forall|b: int|
            128 <= b < 192 ==> (#[trigger] block[b]) as int == n[(b - 128) / 32 * 128 + b % 32] / 16
                + 4 * (n[(b - 128) / 32 * 128 + 32 + b % 32] / 16) + 16 * (n[(b - 128) / 32 * 128 + 64
                + b % 32] / 16) + 64 * (n[(b - 128) / 32 * 128 + 96 + b % 32] / 16),
        0 <= e < 256,
    ensures
        crate::k_blocks::quant(GgmlKQuantKind::Q6K, block, e) == n[e] - 32,
{
    let half = e / 128;
    let part = e % 128 / 32;
    let lane = e % 32;
    let b = half * 64 + part % 2 * 32 + lane;
    let h = 128 + half * 32 + lane;
    let at = half * 128 + lane;
    assert(e == at + 32 * part);
    assert(0 <= n[e] < 64);
    let byte = block[b] as int;
    assert((if part < 2 {
        byte % 16
    } else {
        byte / 16
    }) == n[e] % 16) by {
        let (lo, hi) = (half * 128 + part % 2 * 32 + lane, half * 128 + 64 + part % 2 * 32 + lane);
        assert(b / 64 == half && b % 64 == part % 2 * 32 + lane);
        assert(byte == n[lo] % 16 + 16 * (n[hi] % 16));
        digit(byte, 0, 1, n[lo] % 16, 16, n[hi] % 16);
        digit(byte, n[lo] % 16, 16, n[hi] % 16, 16, 0);
    }
    assert(block[h] as int / crate::k_blocks::bit(2 * part) % 4 == n[e] / 16) by {
        powers_of_two();
        let high = block[h] as int;
        assert(0 <= n[at] < 64 && 0 <= n[at + 32] < 64 && 0 <= n[at + 64] < 64 && 0 <= n[at + 96]
            < 64);
        let (h0, h1, h2, h3) = (n[at] / 16, n[at + 32] / 16, n[at + 64] / 16, n[at + 96] / 16);
        assert((h - 128) / 32 == half && h % 32 == lane);
        assert(high == h0 + 4 * h1 + 16 * h2 + 64 * h3);
        digit(high, 0, 1, h0, 4, h1 + 4 * h2 + 16 * h3);
        digit(high, h0, 4, h1, 4, h2 + 4 * h3);
        digit(high, h0 + 4 * h1, 16, h2, 4, h3);
        digit(high, h0 + 4 * h1 + 16 * h2, 64, h3, 4, 0);
    }
}

/// The eight scales `s` and minima `m`, six bits each, lie in the twelve bytes from
/// the fifth on: the first four of each whole, in the low bits of a byte each, the
/// low four bits of the others pairwise in the last four bytes, and their upper
/// two bits on top of the first four.
pub open spec fn holds_factors(block: Seq<u8>, s: Seq<int>, m: Seq<int>) -> bool {
    &&& s.len() == 8
    &&& m.len() == 8
    &&& forall|i: int| 0 <= i < 8 ==> 0 <= #[trigger] s[i] < 64
    &&& forall|i: int| 0 <= i < 8 ==> 0 <= #[trigger] m[i] < 64
    &&& forall|b: int| 4 <= b < 8 ==> (#[trigger] block[b]) as int == s[b - 4] + 64 * (s[b] / 16)
    &&& forall|b: int| 8 <= b < 12 ==> (#[trigger] block[b]) as int == m[b - 8] + 64 * (m[b - 4] / 16)
    &&& forall|b: int|
        12 <= b < 16 ==> (#[trigger] block[b]) as int == s[b - 8] % 16 + 16 * (m[b - 8] % 16)
}

/// The scales and minima that a block was made of come out again, one of each for
/// every 32 elements.
pub proof fn factors_round_trip(
    kind: GgmlKQuantKind,
    block: Seq<u8>,
    s: Seq<int>,
    m: Seq<int>,
    e: int,
)
    requires
        kind == GgmlKQuantKind::Q4K || kind == GgmlKQuantKind::Q5K,
        block.len() >= 16,
        holds_factors(block, s, m),
        0 <= e < 256,
    ensures
        crate::k_blocks::scale(kind, block, e) == s[e / 32],
        crate::k_blocks::minimum(block, e) == m[e / 32],
{
    let j = e / 32;
    let scales = block.subrange(4, 16);
    assert(scales[j + 4] == block[j + 8]);
    assert(scales[j] == block[j + 4]);
    assert(0 <= s[j] < 64 && 0 <= m[j] < 64);
    if j < 4 {
        assert(0 <= s[j + 4] < 64 && 0 <= m[j + 4] < 64);
        digit(block[j + 4] as int, 0, 1, s[j], 64, s[j + 4] / 16);
        digit(block[j + 8] as int, 0, 1, m[j], 64, m[j + 4] / 16);
    } else {
        assert(scales[j - 4] == block[j]);
        assert(0 <= s[j - 4] < 64 && 0 <= m[j - 4] < 64);
        digit(block[j] as int, s[j - 4], 64, s[j] / 16, 4, 0);
        digit(block[j + 4] as int, m[j - 4], 64, m[j] / 16, 4, 0);
        digit(block[j + 8] as int, 0, 1, s[j] % 16, 16, m[j] % 16);
        digit(block[j + 8] as int, s[j] % 16, 16, m[j] % 16, 16, 0);
    }
}

/// The scales that a Q6_K block was made of come out again: a signed byte for
/// every 16 elements.
pub proof fn signed_scales_round_trip(block: Seq<u8>, s: Seq<int>, e: int)
    requires
        block.len() == 210,
        s.len() == 16,
        forall|i: int| 0 <= i < 16 ==> -128 <= #[trigger] s[i] < 128,
        forall|b: int| 192 <= b < 208 ==> ((#[trigger] block[b]) as int - s[b - 192]) % 256 == 0,
        0 <= e < 256,
    ensures
        crate::k_blocks::scale(GgmlKQuantKind::Q6K, block, e) == s[e / 16],
{
    let g = e / 16;
    assert(-128 <= s[g] < 128);
    assert((block[192 + g] as int - s[g]) % 256 == 0);
}

/// The half-precision number whose two bytes are `lo` and `hi`, as a real number.
pub open spec fn half_value<T>(re: Reals<T>, lo: u8, hi: u8) -> real {
    (re.bits)(crate::half::single_of_half((lo + 256 * hi) as u16) as u32)
}

proof fn half_at_value(block: Seq<u8>, at: int)
    requires
        0 <= at,
        at + 2 <= block.len(),
    ensures
        crate::bytes::le_value(block.subrange(at, at + 2)) == block[at] + 256 * block[at + 1],
{
    reveal_with_fuel(crate::bytes::le_value, 3);
    let s = block.subrange(at, at + 2);
    assert(s[0] == block[at]);
    assert(s[1] == block[at + 1]);
}

/// The value of element `i` of the data, for the encodings with minima: the first
/// half-precision number of its block times scale times number, less the second
/// times minimum. Without rounding.
pub proof fn affine_values<T, A: Arith<T>>(
    ar: &A,
    re: Reals<T>,
    kind: GgmlKQuantKind,
    data: Seq<u8>,
    values: Seq<T>,
    i: int,
)
    requires
        re.exact(ar),
        kind == GgmlKQuantKind::Q4K || kind == GgmlKQuantKind::Q5K,
        0 <= i < values.len(),
        crate::k_blocks::blocks_values(ar, kind, data, values),
        data.len() * 256 == values.len() * kind.block_len(),
        values.len() % 256 == 0,
    ensures
        ({
            let size = if kind == GgmlKQuantKind::Q4K {
                144int
            } else {
                176int
            };
            let at = i / 256 * size;
            let block = data.subrange(at, at + size);
            (re.value)(values[i]) == half_value(re, data[at], data[at + 1]) * (crate::k_blocks::scale(
                kind,
                block,
                i % 256,
            ) as real) * (crate::k_blocks::quant(kind, block, i % 256) as real) - half_value(
                re,
                data[at + 2],
                data[at + 3],
            ) * (crate::k_blocks::minimum(block, i % 256) as real)
        }),
{
    let size = kind.block_len() as int;
    let e = i % 256;
    let b = i / 256;
    let at = b * size;
    let block = data.subrange(at, at + size);
    let blocks = values.len() / 256;
    assert(b < blocks);
    assert(data.len() == blocks * size) by (nonlinear_arith)
        requires
            data.len() * 256 == (blocks * 256) * size,
    ;
    crate::grid::row_bound(b, blocks as int, size);
    assert(block == crate::k_blocks::block_of(kind, data, b));
    assert(crate::k_blocks::element_value(ar, kind, block, e, values[i]));
    crate::k_blocks::quants_are_small(kind, block, e);
    half_at_value(block, 0);
    half_at_value(block, 2);
    assert(block[0] == data[at] && block[1] == data[at + 1] && block[2] == data[at + 2] && block[3]
        == data[at + 3]);
    let s = choose|s: crate::k_blocks::AffineSteps<T>| #[trigger]
        crate::k_blocks::affine_by(
            ar,
            block,
            crate::k_blocks::scale(kind, block, e),
            crate::k_blocks::minimum(block, e),
            crate::k_blocks::quant(kind, block, e),
            s,
            values[i],
        );
    assert((re.value)(s.d) == half_value(re, data[at], data[at + 1]));
    assert((re.value)(s.dmin) == half_value(re, data[at + 2], data[at + 3]));
}

/// The value of element `i` of Q6_K data: the half-precision number at the end of
/// its block times scale times number. Without rounding.
pub proof fn signed_values<T, A: Arith<T>>(
    ar: &A,
    re: Reals<T>,
    data: Seq<u8>,
    values: Seq<T>,
    i: int,
)
    requires
        re.exact(ar),
        0 <= i < values.len(),
        crate::k_blocks::blocks_values(ar, GgmlKQuantKind::Q6K, data, values),
        data.len() * 256 == values.len() * 210,
        values.len() % 256 == 0,
    ensures
        ({
            let at = i / 256 * 210;
            let block = data.subrange(at, at + 210);
            (re.value)(values[i]) == half_value(re, data[at + 208], data[at + 209]) * (
            crate::k_blocks::scale(GgmlKQuantKind::Q6K, block, i % 256) as real) * (
            crate::k_blocks::quant(GgmlKQuantKind::Q6K, block, i % 256) as real)
        }),
{
    let kind = GgmlKQuantKind::Q6K;
    let e = i % 256;
    let b = i / 256;
    let at = b * 210;
    let block = data.subrange(at, at + 210);
    assert(block == crate::k_blocks::block_of(kind, data, b));
    assert(crate::k_blocks::element_value(ar, kind, block, e, values[i]));
    crate::k_blocks::quants_are_small(kind, block, e);
    half_at_value(block, 208);
    assert(block[208] == data[at + 208] && block[209] == data[at + 209]);
    let s = choose|s: crate::k_blocks::LinearSteps<T>| #[trigger]
        crate::k_blocks::linear_by(
            ar,
            block,
            crate::k_blocks::scale(kind, block, e),
            crate::k_blocks::quant(kind, block, e),
            s,
            values[i],
        );
    assert((re.value)(s.d) == half_value(re, data[at + 208], data[at + 209]));
}

} // verus!
