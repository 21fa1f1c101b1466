use vstd::prelude::*;

use crate::arith::Arith;
use crate::bytes::read_le;
use crate::half::f16_bits_to_f32;

verus! {

/// The elements of one block.
pub const QK_K: usize = 256;

pub const Q4_K_BLOCK_BYTES: usize = 144;

pub const Q5_K_BLOCK_BYTES: usize = 176;

pub const Q6_K_BLOCK_BYTES: usize = 210;

/// The block encodings that can be decoded.
#[derive(Debug, Clone, Copy, PartialEq, Eq, Structural)]
pub enum GgmlKQuantKind {
    Q4K,
    Q5K,
    Q6K,
}

impl GgmlKQuantKind {
    /// The bytes of one block.
    pub open spec fn block_len(self) -> nat {
        match self {
            GgmlKQuantKind::Q4K => Q4_K_BLOCK_BYTES as nat,
            GgmlKQuantKind::Q5K => Q5_K_BLOCK_BYTES as nat,
            GgmlKQuantKind::Q6K => Q6_K_BLOCK_BYTES as nat,
        }
    }

    /// The bytes of one block.
    pub fn block_bytes(self) -> (r: usize)
        ensures
            r == self.block_len(),
    {
        match self {
            GgmlKQuantKind::Q4K => Q4_K_BLOCK_BYTES,
            GgmlKQuantKind::Q5K => Q5_K_BLOCK_BYTES,
            GgmlKQuantKind::Q6K => Q6_K_BLOCK_BYTES,
        }
    }
}

/// Scale and minimum of sub-block `j`, six bits each, out of twelve packed bytes.
/// The first four sub-blocks have theirs in the low six bits of a byte; the
/// others have four bits in the last bytes and two in the top of the first ones.
pub open spec fn scale_min(scales: Seq<u8>, j: int) -> (u8, u8) {
    if j < 4 {
        ((scales[j] % 64) as u8, (scales[j + 4] % 64) as u8)
    } else {
        (
            (scales[j + 4] % 16 + scales[j - 4] / 64 * 16) as u8,
            (scales[j + 4] / 16 + scales[j] / 64 * 16) as u8,
        )
    }
}

/// Scale and minimum of a sub-block.
pub fn get_scale_min_k4(index: usize, scales: &[u8]) -> (r: (u8, u8))
    requires
        scales@.len() == 12,
        index < 8,
    ensures
        r == scale_min(scales@, index as int),
        r.0 < 64,
        r.1 < 64,
{
    if index < 4 {
        (scales[index] % 64, scales[index + 4] % 64)
    } else {
        (
            scales[index + 4] % 16 + scales[index - 4] / 64 * 16,
            scales[index + 4] / 16 + scales[index] / 64 * 16,
        )
    }
}

/// Two to the power of `k`.
pub open spec fn bit(k: int) -> int
    decreases k,
{
    if k <= 0 {
        1
    } else {
        2 * bit(k - 1)
    }
}

/// The four-bit number of element `e` among bytes that hold, for each 64
/// elements, the first 32 in the low and the others in the high half of 32 bytes.
pub open spec fn nibble(qs: Seq<u8>, e: int) -> int {
    let byte = qs[e / 64 * 32 + e % 32];
    if e / 32 % 2 == 0 {
        byte as int % 16
    } else {
        byte as int / 16
    }
}

/// The number that a byte stands for in two's complement.
pub open spec fn signed_byte(b: u8) -> int {
    if b < 128 {
        b as int
    } else {
        b as int - 256
    }
}

/// The quantised number of element `e` of a block.
pub open spec fn quant(kind: GgmlKQuantKind, block: Seq<u8>, e: int) -> int {
    match kind {
        GgmlKQuantKind::Q4K => nibble(block.subrange(16, 144), e),
        GgmlKQuantKind::Q5K => nibble(block.subrange(48, 176), e) + 16 * (block[16 + e % 32] as int
            / bit(e / 32) % 2),
        GgmlKQuantKind::Q6K => {
            let half = e / 128;
            let part = e % 128 / 32;
            let lane = e % 32;
            let byte = block[half * 64 + part % 2 * 32 + lane] as int;
            let low = if part < 2 {
                byte % 16
            } else {
                byte / 16
            };
            low + 16 * (block[128 + half * 32 + lane] as int / bit(2 * part) % 4) - 32
        },
    }
}

/// The scale of element `e` of a block.
pub open spec fn scale(kind: GgmlKQuantKind, block: Seq<u8>, e: int) -> int {
    match kind {
        GgmlKQuantKind::Q4K | GgmlKQuantKind::Q5K => scale_min(
            block.subrange(4, 16),
            e / 32,
        ).0 as int,
        GgmlKQuantKind::Q6K => signed_byte(block[192 + e / 16]),
    }
}

/// The minimum of element `e` of a block that has minima.
pub open spec fn minimum(block: Seq<u8>, e: int) -> int {
    scale_min(block.subrange(4, 16), e / 32).1 as int
}

/// The single-precision bit pattern of the half-precision number at `at`.
pub open spec fn half_at(block: Seq<u8>, at: int) -> u32 {
    crate::half::single_of_half(crate::bytes::le_value(block.subrange(at, at + 2)) as u16) as u32
}

/// The single-precision bit pattern of the half-precision number at an offset.
pub fn f16_le_at(data: &[u8], offset: usize) -> (r: u32)
    requires
        offset + 2 <= data@.len(),
    ensures
        r == half_at(data@, offset as int),
{
    proof {
        crate::bytes::le_value_widths(data@.subrange(offset as int, offset + 2));
    }
    let bits: u16 = read_le(data, offset, 2) as u16;
    f16_bits_to_f32(bits)
}

fn power(k: usize) -> (r: u8)
    requires
        k < 8,
    ensures
        r == bit(k as int),
        r > 0,
{
    proof {
        reveal_with_fuel(bit, 9);
    }
    if k == 0 {
        1
    } else if k == 1 {
        2
    } else if k == 2 {
        4
    } else if k == 3 {
        8
    } else if k == 4 {
        16
    } else if k == 5 {
        32
    } else if k == 6 {
        64
    } else {
        128
    }
}

/// The quantised number of an element.
pub fn quant_of(kind: GgmlKQuantKind, block: &[u8], e: usize) -> (r: i64)
    requires
        block@.len() == kind.block_len(),
        e < QK_K,
    ensures
        r == quant(kind, block@, e as int),
        -32 <= r < 32,
{
    match kind {
        GgmlKQuantKind::Q4K => {
            let byte: u8 = block[16 + e / 64 * 32 + e % 32];
            assert(byte == block@.subrange(16, 144)[e / 64 * 32 + e % 32]);
            if e / 32 % 2 == 0 {
                (byte % 16) as i64
            } else {
                (byte / 16) as i64
            }
        },
        GgmlKQuantKind::Q5K => {
            let byte: u8 = block[48 + e / 64 * 32 + e % 32];
            assert(byte == block@.subrange(48, 176)[e / 64 * 32 + e % 32]);
            let high: u8 = block[16 + e % 32] / power(e / 32) % 2;
            let low: u8 = if e / 32 % 2 == 0 {
                byte % 16
            } else {
                byte / 16
            };
            low as i64 + 16 * high as i64
        },
        GgmlKQuantKind::Q6K => {
            let half: usize = e / 128;
            let part: usize = e % 128 / 32;
            let lane: usize = e % 32;
            let byte: u8 = block[half * 64 + part % 2 * 32 + lane];
            let low: u8 = if part < 2 {
                byte % 16
            } else {
                byte / 16
            };
            let high: u8 = block[128 + half * 32 + lane] / power(2 * part) % 4;
            low as i64 + 16 * high as i64 - 32
        },
    }
}

/// The scale of an element.
pub fn scale_of(kind: GgmlKQuantKind, block: &[u8], e: usize) -> (r: i64)
    requires
        block@.len() == kind.block_len(),
        e < QK_K,
    ensures
        r == scale(kind, block@, e as int),
        -128 <= r < 128,
{
    match kind {
        GgmlKQuantKind::Q4K | GgmlKQuantKind::Q5K => {
            let scales: &[u8] = vstd::slice::slice_subrange(block, 4, 16);
            get_scale_min_k4(e / 32, scales).0 as i64
        },
        GgmlKQuantKind::Q6K => {
            let b: u8 = block[192 + e / 16];
            if b < 128 {
                b as i64
            } else {
                b as i64 - 256
            }
        },
    }
}

/// The minimum of an element of a block that has minima.
pub fn minimum_of(block: &[u8], e: usize) -> (r: i64)
    requires
        block@.len() >= 16,
        e < QK_K,
    ensures
        r == minimum(block@, e as int),
        0 <= r < 64,
{
    let scales: &[u8] = vstd::slice::slice_subrange(block, 4, 16);
    get_scale_min_k4(e / 32, scales).1 as i64
}

/// The intermediate scalars of `d * scale * quant - dmin * minimum`.
pub struct AffineSteps<T> {
    pub d: T,
    pub dmin: T,
    pub scale: T,
    pub minimum: T,
    pub quant: T,
    pub scaled: T,
    pub offset: T,
    pub product: T,
}

/// `v` may be what `(d * scale) * quant - dmin * minimum` gives, by these steps.
pub open spec fn affine_by<T, A: Arith<T>>(
    ar: &A,
    block: Seq<u8>,
    scale: int,
    minimum: int,
    quant: int,
    s: AffineSteps<T>,
    v: T,
) -> bool {
    &&& crate::arith::decodes(ar, half_at(block, 0), s.d)
    &&& crate::arith::decodes(ar, half_at(block, 2), s.dmin)
    &&& crate::arith::converts(ar, scale as i64, s.scale)
    &&& crate::arith::converts(ar, minimum as i64, s.minimum)
    &&& crate::arith::converts(ar, quant as i64, s.quant)
    &&& crate::arith::muls(ar, s.d, s.scale, s.scaled)
    &&& crate::arith::muls(ar, s.dmin, s.minimum, s.offset)
    &&& crate::arith::muls(ar, s.scaled, s.quant, s.product)
    &&& crate::arith::subs(ar, s.product, s.offset, v)
}

/// The intermediate scalars of `d * scale * quant`.
pub struct LinearSteps<T> {
    pub d: T,
    pub scale: T,
    pub quant: T,
    pub scaled: T,
}

/// `v` may be what `(d * scale) * quant` gives, by these steps.
pub open spec fn linear_by<T, A: Arith<T>>(
    ar: &A,
    block: Seq<u8>,
    scale: int,
    quant: int,
    s: LinearSteps<T>,
    v: T,
) -> bool {
    &&& crate::arith::decodes(ar, half_at(block, 208), s.d)
    &&& crate::arith::converts(ar, scale as i64, s.scale)
    &&& crate::arith::converts(ar, quant as i64, s.quant)
    &&& crate::arith::muls(ar, s.d, s.scale, s.scaled)
    &&& crate::arith::muls(ar, s.scaled, s.quant, v)
}

/// `v` may be the value of element `e` of a block.
pub open spec fn element_value<T, A: Arith<T>>(
    ar: &A,
    kind: GgmlKQuantKind,
    block: Seq<u8>,
    e: int,
    v: T,
) -> bool {
    match kind {
        GgmlKQuantKind::Q4K | GgmlKQuantKind::Q5K => exists|s: AffineSteps<T>|
            #[trigger] affine_by(
                ar,
                block,
                scale(kind, block, e),
                minimum(block, e),
                quant(kind, block, e),
                s,
                v,
            ),
        GgmlKQuantKind::Q6K => exists|s: LinearSteps<T>|
            #[trigger] linear_by(ar, block, scale(kind, block, e), quant(kind, block, e), s, v),
    }
}

fn element<T: Copy, A: Arith<T>>(ar: &A, kind: GgmlKQuantKind, block: &[u8], e: usize) -> (v: T)
    requires
        block@.len() == kind.block_len(),
        e < QK_K,
    ensures
        element_value(ar, kind, block@, e as int, v),
{
    let sc: i64 = scale_of(kind, block, e);
    let q: i64 = quant_of(kind, block, e);
    match kind {
        GgmlKQuantKind::Q4K | GgmlKQuantKind::Q5K => {
            let m: i64 = minimum_of(block, e);
            let d: T = ar.from_bits(f16_le_at(block, 0));
            let dmin: T = ar.from_bits(f16_le_at(block, 2));
            let scale_t: T = ar.from_int(sc);
            let minimum_t: T = ar.from_int(m);
            let quant_t: T = ar.from_int(q);
            let scaled: T = ar.mul(d, scale_t);
            let offset: T = ar.mul(dmin, minimum_t);
            let product: T = ar.mul(scaled, quant_t);
            let v: T = ar.sub(product, offset);
            proof {
                let s = AffineSteps {
                    d,
                    dmin,
                    scale: scale_t,
                    minimum: minimum_t,
                    quant: quant_t,
                    scaled,
                    offset,
                    product,
                };
                assert(affine_by(
                    ar,
                    block@,
                    scale(kind, block@, e as int),
                    minimum(block@, e as int),
                    quant(kind, block@, e as int),
                    s,
                    v,
                ));
            }
            v
        },
        GgmlKQuantKind::Q6K => {
            let d: T = ar.from_bits(f16_le_at(block, 208));
            let scale_t: T = ar.from_int(sc);
            let quant_t: T = ar.from_int(q);
            let scaled: T = ar.mul(d, scale_t);
            let v: T = ar.mul(scaled, quant_t);
            proof {
                let s = LinearSteps { d, scale: scale_t, quant: quant_t, scaled };
                assert(linear_by(
                    ar,
                    block@,
                    scale(kind, block@, e as int),
                    quant(kind, block@, e as int),
                    s,
                    v,
                ));
            }
            v
        },
    }
}

/// Block `b` of the data.
pub open spec fn block_of(kind: GgmlKQuantKind, data: Seq<u8>, b: int) -> Seq<u8> {
    data.subrange(b * kind.block_len(), b * kind.block_len() + kind.block_len())
}

/// Each value is that of its element in its block.
pub open spec fn blocks_values<T, A: Arith<T>>(
    ar: &A,
    kind: GgmlKQuantKind,
    data: Seq<u8>,
    values: Seq<T>,
) -> bool {
    forall|i: int|
        0 <= i < values.len() ==> element_value(
            ar,
            kind,
            block_of(kind, data, i / 256),
            i % 256,
            #[trigger] values[i],
        )
}

/// The values of `blocks` blocks.
pub fn dequantize_blocks<T: Copy, A: Arith<T>>(
    ar: &A,
    kind: GgmlKQuantKind,
    data: &[u8],
    blocks: usize,
) -> (values: Vec<T>)
    requires
        data@.len() == blocks * kind.block_len(),
        blocks * 256 <= usize::MAX,
    ensures
        values@.len() == blocks * 256,
        blocks_values(ar, kind, data@, values@),
{
    let size: usize = kind.block_bytes();
    let total: usize = data.len();
    let mut values: Vec<T> = Vec::new();
    let mut b: usize = 0;
    let mut at: usize = 0;
    while b < blocks
        invariant
            size == kind.block_len(),
            size > 0,
            data@.len() == total,
            total == blocks * size,
            blocks * 256 <= usize::MAX,
            b <= blocks,
            at == b * size,
            values@.len() == b * 256,
            blocks_values(ar, kind, data@, values@),
        decreases blocks - b,
    {
        proof {
            assert(b * size + size <= blocks * size) by (nonlinear_arith)
                requires
                    b + 1 <= blocks,
                    size > 0,
            ;
            assert((b + 1) * size == b * size + size) by (nonlinear_arith);
        }
        let block: &[u8] = vstd::slice::slice_subrange(data, at, at + size);
        let mut e: usize = 0;
        while e < 256
            invariant
                size == kind.block_len(),
                block@ == block_of(kind, data@, b as int),
                block@.len() == size,
                e <= 256,
                values@.len() == b * 256 + e,
                blocks_values(ar, kind, data@, values@),
            decreases 256 - e,
        {
            let v: T = element(ar, kind, block, e);
            let ghost before = values@;
            values.push(v);
            proof {
                let n = b * 256 + e;
                assert(n / 256 == b && n % 256 == e);
                assert forall|i: int| 0 <= i < values@.len() implies element_value(
                    ar,
                    kind,
                    block_of(kind, data@, i / 256),
                    i % 256,
                    #[trigger] values@[i],
                ) by {
                    if i < n {
                        assert(values@[i] == before[i]);
                    }
                }
            }
            e = e + 1;
        }
        b = b + 1;
        at = at + size;
    }
    values
}

/// Quantised numbers and their factors stay small: six bits with a sign, one
/// signed byte, six bits.
pub proof fn quants_are_small(kind: GgmlKQuantKind, block: Seq<u8>, e: int)
    requires
        block.len() == kind.block_len(),
        0 <= e < 256,
    ensures
        -32 <= quant(kind, block, e) < 32,
        kind != GgmlKQuantKind::Q6K ==> 0 <= quant(kind, block, e),
        kind == GgmlKQuantKind::Q4K ==> quant(kind, block, e) < 16,
        -128 <= scale(kind, block, e) < 128,
        kind != GgmlKQuantKind::Q6K ==> 0 <= scale(kind, block, e) < 64,
        0 <= minimum(block, e) < 64,
{
    reveal_with_fuel(bit, 9);
}

} // verus!
