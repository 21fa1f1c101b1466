use vstd::prelude::*;

use crate::arith::Arith;
use crate::error::{kernel_err, OcelotlError, UnsupportedError};
use crate::expr::Term;
use crate::k_blocks::{f16_le_at, minimum_of, quant_of, scale_of, GgmlKQuantKind, QK_K};
use crate::shapes::checked_len_product;
use crate::text::Text;
use vstd::slice::slice_subrange;

verus! {

/// The bit pattern of the largest scaled value that is rounded: 4194303.
pub const LIMIT_BITS: u32 = 0x4a7f_fffc;

/// The bit pattern of the number whose addition rounds to an integer: 12582912.
pub const ROUND_BITS: u32 = 0x4b40_0000;

/// A matrix of quantised weights, one row of blocks for each output.
#[derive(Debug, Clone, Copy)]
pub struct GgmlKQuantMatrixRef<'a> {
    /// Values per row; a multiple of the block size.
    pub input_features: usize,
    /// Rows.
    pub output_features: usize,
    pub kind: GgmlKQuantKind,
    /// The blocks, row by row.
    pub data: &'a [u8],
}

/// A block of inputs, quantised to signed bytes: value `i` is about `d * qs[i]`.
#[derive(Debug)]
pub struct Q8KBlock<T> {
    pub d: T,
    pub qs: Vec<i8>,
    /// The sums of each sixteen bytes.
    pub sums16: Vec<i64>,
}

/// The sum of `n` bytes from `at` on.
pub open spec fn range_sum(qs: Seq<i8>, at: int, n: nat) -> int
    decreases n,
{
    if n == 0 {
        0
    } else {
        range_sum(qs, at, (n - 1) as nat) + qs[at + n - 1]
    }
}

proof fn range_sum_bound(qs: Seq<i8>, at: int, n: nat)
    ensures
        -128 * n <= range_sum(qs, at, n) <= 127 * n,
    decreases n,
{
    if n > 0 {
        range_sum_bound(qs, at, (n - 1) as nat);
    }
}

impl<T> Q8KBlock<T> {
    /// A block has its bytes, and their sums.
    pub open spec fn wf(self) -> bool {
        &&& self.qs@.len() == QK_K
        &&& self.sums16@.len() == 16
        &&& forall|g: int|
            0 <= g < 16 ==> #[trigger] self.sums16@[g] == range_sum(self.qs@, 16 * g, 16)
    }
}

/// The steps of finding the value of greatest magnitude, and its magnitude: the
/// first of equals is kept. All values are finite.
pub open spec fn scan_steps<T, A: Arith<T>>(ar: &A, x: Seq<T>) -> spec_fn(
    int,
    (T, T),
    (T, T),
) -> bool {
    |i: int, a: (T, T), b: (T, T)|
        crate::arith::finites(ar, x[i], true) && exists|m: T, c: bool| #[trigger]
            crate::arith::magnitudes(ar, x[i], m) && #[trigger] crate::arith::compares(
                ar,
                a.1,
                m,
                c,
            ) && b == (if c {
                (x[i], m)
            } else {
                a
            })
}

/// The intermediate values of quantising a block.
pub struct Q8Steps<T> {
    pub zero: T,
    pub max: T,
    pub amax: T,
    pub positive: bool,
    pub iscale: T,
    pub limit: T,
    pub round: T,
}

/// The value of greatest magnitude, and whether it is not zero.
pub open spec fn q8_scan<T, A: Arith<T>>(ar: &A, x: Seq<T>, s: Q8Steps<T>) -> bool {
    &&& crate::arith::converts(ar, 0, s.zero)
    &&& crate::arith::folds(scan_steps(ar, x), x.len(), (s.zero, s.zero), (s.max, s.amax))
    &&& crate::arith::compares(ar, s.zero, s.amax, s.positive)
}

/// The scale takes the value of greatest magnitude to -127.
pub open spec fn q8_scale<T, A: Arith<T>>(ar: &A, s: Q8Steps<T>) -> bool {
    &&& s.positive
    &&& crate::expr::evals(
        ar,
        crate::expr::Expr::<T>::Int((-127) as i64).over(crate::expr::Expr::Value(s.max)),
        s.iscale,
    )
    &&& crate::arith::decodes(ar, LIMIT_BITS, s.limit)
    &&& crate::arith::decodes(ar, ROUND_BITS, s.round)
}

/// `scaled` is the scaled value, and `ok` says whether it is finite and not
/// above the limit.
pub open spec fn scales_to<T, A: Arith<T>>(ar: &A, s: Q8Steps<T>, x: T, scaled: T, ok: bool) -> bool {
    crate::arith::muls(ar, s.iscale, x, scaled) && exists|f: bool, m: T, above: bool| #[trigger]
        crate::arith::finites(ar, scaled, f) && #[trigger] crate::arith::magnitudes(ar, scaled, m)
            && #[trigger] crate::arith::compares(ar, s.limit, m, above) && ok == (f && !above)
}

/// The integer in the low bits of a number that was rounded by addition, at most
/// 127.
pub open spec fn low_integer(bits: u32) -> int {
    let n = bits as int % 0x80_0000 - 0x40_0000;
    if n > 127 {
        127
    } else {
        n
    }
}

/// `q` may be the integer nearest to a scaled value, at most 127.
pub open spec fn rounds_to<T, A: Arith<T>>(ar: &A, s: Q8Steps<T>, scaled: T, q: int) -> bool {
    exists|shifted: T, bits: u32| #[trigger]
        crate::arith::adds(ar, scaled, s.round, shifted) && #[trigger] crate::arith::encodes(
            ar,
            shifted,
            bits,
        ) && q == low_integer(bits)
}

/// `q` may be the quantised value of `x`.
pub open spec fn quantises<T, A: Arith<T>>(ar: &A, s: Q8Steps<T>, x: T, q: int) -> bool {
    exists|scaled: T| #[trigger]
        scales_to(ar, s, x, scaled, true) && rounds_to(ar, s, scaled, q)
}

/// A block of zeros.
pub open spec fn q8_zeros<T>(s: Q8Steps<T>, d: T, qs: Seq<i8>) -> bool {
    &&& d == s.zero
    &&& forall|i: int| 0 <= i < qs.len() ==> #[trigger] qs[i] == 0
}

/// The quantised values of a block, and the inverse of the scale.
pub open spec fn q8_values<T, A: Arith<T>>(
    ar: &A,
    x: Seq<T>,
    s: Q8Steps<T>,
    d: T,
    qs: Seq<i8>,
) -> bool {
    &&& forall|i: int| 0 <= i < qs.len() ==> quantises(ar, s, x[i], #[trigger] qs[i] as int)
    &&& crate::expr::evals(
        ar,
        crate::expr::Expr::<T>::Int(1).over(crate::expr::Expr::Value(s.iscale)),
        d,
    )
}

/// The block may be what quantising the values gives.
pub open spec fn is_q8_block<T, A: Arith<T>>(ar: &A, x: Seq<T>, b: Q8KBlock<T>) -> bool {
    &&& b.wf()
    &&& exists|s: Q8Steps<T>| #[trigger]
        q8_scan(ar, x, s) && if s.positive {
            q8_scale(ar, s) && q8_values(ar, x, s, b.d, b.qs@)
        } else {
            q8_zeros(s, b.d, b.qs@)
        }
}

/// The value can be quantised.
pub open spec fn quantisable<T, A: Arith<T>>(ar: &A, s: Q8Steps<T>, x: T) -> bool {
    exists|q: int| -128 <= q && #[trigger] quantises(ar, s, x, q)
}

/// The first values can be quantised.
pub open spec fn quantised_before<T, A: Arith<T>>(ar: &A, s: Q8Steps<T>, x: Seq<T>, i: int) -> bool {
    forall|j: int| 0 <= j < i ==> quantisable(ar, s, #[trigger] x[j])
}

/// Value `i` is the first that is not finite.
pub open spec fn not_finite_at<T, A: Arith<T>>(ar: &A, x: Seq<T>, i: int) -> bool {
    &&& 0 <= i < x.len()
    &&& crate::arith::finites(ar, x[i], false)
    &&& forall|j: int| 0 <= j < i ==> crate::arith::finites(ar, #[trigger] x[j], true)
}

/// Value `i` is the first that is out of range when scaled.
pub open spec fn out_of_range_at<T, A: Arith<T>>(ar: &A, s: Q8Steps<T>, x: Seq<T>, i: int) -> bool {
    &&& 0 <= i < x.len()
    &&& quantised_before(ar, s, x, i)
    &&& exists|scaled: T| #[trigger] scales_to(ar, s, x[i], scaled, false)
}

/// Value `i` is the first whose integer does not fit into a byte.
pub open spec fn too_small_at<T, A: Arith<T>>(ar: &A, s: Q8Steps<T>, x: Seq<T>, i: int) -> bool {
    &&& 0 <= i < x.len()
    &&& quantised_before(ar, s, x, i)
    &&& exists|q: int| q < -128 && #[trigger] quantises(ar, s, x[i], q)
}

/// The block may be refused with this message.
pub open spec fn q8_refused<T, A: Arith<T>>(ar: &A, x: Seq<T>, message: Seq<char>) -> bool {
    ||| message == "linear_q8_k_k_quant input contains non-finite value"@ && exists|i: int| #[trigger]
        not_finite_at(ar, x, i)
    ||| message == "linear_q8_k_k_quant Q8_K scaled value is out of range"@ && exists|
        s: Q8Steps<T>,
        i: int,
    |
        q8_scan(ar, x, s) && q8_scale(ar, s) && #[trigger] out_of_range_at(ar, s, x, i)
    ||| message == "linear_q8_k_k_quant Q8_K value does not fit i8"@ && exists|
        s: Q8Steps<T>,
        i: int,
    |
        q8_scan(ar, x, s) && q8_scale(ar, s) && #[trigger] too_small_at(ar, s, x, i)
}

/// The sums of each sixteen bytes.
fn group_sums(qs: &Vec<i8>) -> (r: Vec<i64>)
    requires
        qs@.len() == QK_K,
    ensures
        r@.len() == 16,
        forall|g: int| 0 <= g < 16 ==> #[trigger] r@[g] == range_sum(qs@, 16 * g, 16),
{
    let mut r: Vec<i64> = Vec::with_capacity(16);
    let mut g: usize = 0;
    while g < 16
        invariant
            qs@.len() == QK_K,
            g <= 16,
            r@.len() == g,
            forall|h: int| 0 <= h < g ==> #[trigger] r@[h] == range_sum(qs@, 16 * h, 16),
        decreases 16 - g,
    {
        let mut sum: i64 = 0;
        let mut k: usize = 0;
        while k < 16
            invariant
                qs@.len() == QK_K,
                g < 16,
                k <= 16,
                sum == range_sum(qs@, 16 * g, k as nat),
                -128 * k <= sum <= 127 * k,
            decreases 16 - k,
        {
            sum = sum + qs[16 * g + k] as i64;
            k = k + 1;
            proof {
                range_sum_bound(qs@, 16 * g, k as nat);
            }
        }
        r.push(sum);
        g = g + 1;
    }
    r
}

/// `bits & 0x7fffff` as an integer around zero, at most 127.
fn low_integer_of(bits: u32) -> (r: i64)
    ensures
        r == low_integer(bits),
        -0x40_0000 <= r <= 127,
{
    let n: i64 = (bits % 0x80_0000) as i64 - 0x40_0000;
    if n > 127 {
        127
    } else {
        n
    }
}

/// The value of greatest magnitude of a block, or the error of one that is not
/// finite.
fn scan_block<T: Copy, A: Arith<T>>(ar: &A, x: &[T], zero: T) -> (r: Result<(T, T), OcelotlError>)
    ensures
        match r {
            Ok(m) => crate::arith::folds(scan_steps(ar, x@), x@.len(), (zero, zero), m),
            Err(e) => {
                &&& e@ == crate::error::cpu_error(
                    "linear_q8_k_k_quant input contains non-finite value"@,
                )
                &&& exists|i: int| #[trigger] not_finite_at(ar, x@, i)
            },
        },
{
    let n: usize = x.len();
    let mut best: (T, T) = (zero, zero);
    let mut i: usize = 0;
    while i < n
        invariant
            n == x@.len(),
            i <= n,
            forall|j: int| 0 <= j < i ==> crate::arith::finites(ar, #[trigger] x@[j], true),
            crate::arith::folds(scan_steps(ar, x@), i as nat, (zero, zero), best),
        decreases n - i,
    {
        let v: T = x[i];
        let finite: bool = ar.is_finite(v);
        assert(crate::arith::finites(ar, x@[i as int], finite));
        if !finite {
            assert(not_finite_at(ar, x@, i as int));
            return Err(
                kernel_err(
                    String::from_str("linear_q8_k_k_quant input contains non-finite value"),
                ),
            );
        }
        let m: T = ar.abs(v);
        let greater: bool = ar.less(best.1, m);
        let next: (T, T) = if greater {
            (v, m)
        } else {
            best
        };
        proof {
            assert(crate::arith::magnitudes(ar, x@[i as int], m));
            assert(crate::arith::compares(ar, best.1, m, greater));
            crate::arith::fold_step(scan_steps(ar, x@), i as nat, (zero, zero), best, next);
        }
        best = next;
        i = i + 1;
    }
    Ok(best)
}

/// Quantises one value.
fn quantise<T: Copy, A: Arith<T>>(ar: &A, Ghost(s): Ghost<Q8Steps<T>>, iscale: T, limit: T, round: T, x: T) -> (r:
    Result<i8, OcelotlError>)
    requires
        iscale == s.iscale,
        limit == s.limit,
        round == s.round,
    ensures
        match r {
            Ok(q) => quantises(ar, s, x, q as int),
            Err(e) => {
                ||| e@ == crate::error::cpu_error(
                    "linear_q8_k_k_quant Q8_K scaled value is out of range"@,
                ) && exists|scaled: T| #[trigger] scales_to(ar, s, x, scaled, false)
                ||| e@ == crate::error::cpu_error(
                    "linear_q8_k_k_quant Q8_K value does not fit i8"@,
                ) && exists|q: int| q < -128 && #[trigger] quantises(ar, s, x, q)
            },
        },
{
    let scaled: T = ar.mul(iscale, x);
    let finite: bool = ar.is_finite(scaled);
    let m: T = ar.abs(scaled);
    let above: bool = ar.less(limit, m);
    proof {
        assert(crate::arith::finites(ar, scaled, finite));
        assert(crate::arith::magnitudes(ar, scaled, m));
        assert(crate::arith::compares(ar, limit, m, above));
        assert(scales_to(ar, s, x, scaled, finite && !above));
    }
    if !finite || above {
        return Err(
            kernel_err(
                String::from_str("linear_q8_k_k_quant Q8_K scaled value is out of range"),
            ),
        );
    }
    let shifted: T = ar.add(scaled, round);
    let bits: u32 = ar.to_bits(shifted);
    let q: i64 = low_integer_of(bits);
    proof {
        assert(crate::arith::adds(ar, scaled, round, shifted));
        assert(crate::arith::encodes(ar, shifted, bits));
        assert(rounds_to(ar, s, scaled, q as int));
        assert(quantises(ar, s, x, q as int));
    }
    if q < -128 {
        return Err(
            kernel_err(String::from_str("linear_q8_k_k_quant Q8_K value does not fit i8")),
        );
    }
    Ok(q as i8)
}

/// Quantises a block of inputs.
pub fn quantize_block_q8_k<T: Copy, A: Arith<T>>(ar: &A, x: &[T]) -> (r: Result<
    Q8KBlock<T>,
    OcelotlError,
>)
    requires
        x@.len() == QK_K,
    ensures
        match r {
            Ok(b) => is_q8_block(ar, x@, b),
            Err(e) => exists|message: Seq<char>| #[trigger]
                q8_refused(ar, x@, message) && e@ == crate::error::cpu_error(message),
        },
{
    let zero: T = ar.from_int(0);
    assert(crate::arith::converts(ar, 0, zero));
    let (max, amax): (T, T) = match scan_block(ar, x, zero) {
        Ok(m) => m,
        Err(e) => {
            assert(q8_refused(
                ar,
                x@,
                "linear_q8_k_k_quant input contains non-finite value"@,
            ));
            return Err(e);
        },
    };
    let positive: bool = ar.less(zero, amax);
    assert(crate::arith::compares(ar, zero, amax, positive));
    let iscale = Term::whole(ar, -127).over(ar, &Term::of(ar, max));
    let limit: T = ar.from_bits(LIMIT_BITS);
    let round: T = ar.from_bits(ROUND_BITS);
    let ghost s = Q8Steps { zero, max, amax, positive, iscale: iscale.value, limit, round };
    assert(q8_scan(ar, x@, s));
    let mut qs: Vec<i8> = Vec::with_capacity(QK_K);
    if !positive {
        let mut i: usize = 0;
        while i < QK_K
            invariant
                i <= QK_K,
                qs@.len() == i,
                forall|j: int| 0 <= j < i ==> #[trigger] qs@[j] == 0,
            decreases QK_K - i,
        {
            qs.push(0);
            i = i + 1;
        }
        let sums16: Vec<i64> = group_sums(&qs);
        return Ok(Q8KBlock { d: zero, qs, sums16 });
    }
    assert(q8_scale(ar, s));
    let mut i: usize = 0;
    while i < QK_K
        invariant
            x@.len() == QK_K,
            s.iscale == iscale.value,
            s.limit == limit,
            s.round == round,
            q8_scan(ar, x@, s),
            q8_scale(ar, s),
            i <= QK_K,
            qs@.len() == i,
            forall|j: int| 0 <= j < i ==> quantises(ar, s, x@[j], #[trigger] qs@[j] as int),
        decreases QK_K - i,
    {
        match quantise(ar, Ghost(s), iscale.value, limit, round, x[i]) {
            Ok(q) => {
                qs.push(q);
            },
            Err(e) => {
                proof {
                    assert forall|j: int| 0 <= j < i implies quantisable(
                        ar,
                        s,
                        #[trigger] x@[j],
                    ) by {
                        assert(quantises(ar, s, x@[j], qs@[j] as int));
                    }
                    assert(quantised_before(ar, s, x@, i as int));
                    if e@ == crate::error::cpu_error(
                        "linear_q8_k_k_quant Q8_K scaled value is out of range"@,
                    ) && exists|scaled: T| #[trigger]
                        scales_to(ar, s, x@[i as int], scaled, false) {
                        assert(out_of_range_at(ar, s, x@, i as int));
                        assert(q8_refused(
                            ar,
                            x@,
                            "linear_q8_k_k_quant Q8_K scaled value is out of range"@,
                        ));
                    } else {
                        assert(too_small_at(ar, s, x@, i as int));
                        assert(q8_refused(
                            ar,
                            x@,
                            "linear_q8_k_k_quant Q8_K value does not fit i8"@,
                        ));
                    }
                }
                return Err(e);
            },
        }
        i = i + 1;
    }
    let d = Term::whole(ar, 1).over(ar, &Term::of(ar, iscale.value));
    let sums16: Vec<i64> = group_sums(&qs);
    let b = Q8KBlock { d: d.value, qs, sums16 };
    assert(q8_values(ar, x@, s, b.d, b.qs@));
    Ok(b)
}

/// Block `b` of a row of inputs.
pub open spec fn block_inputs<T>(x: Seq<T>, b: int) -> Seq<T> {
    x.subrange(b * QK_K, b * QK_K + QK_K)
}

/// The blocks may be what quantising a row gives.
pub open spec fn is_q8_row<T, A: Arith<T>>(ar: &A, x: Seq<T>, blocks: Seq<Q8KBlock<T>>) -> bool {
    forall|b: int|
        0 <= b < blocks.len() ==> is_q8_block(ar, block_inputs(x, b), #[trigger] blocks[b])
}

/// The row may be refused with this message: its first blocks can be quantised,
/// and the next cannot.
pub open spec fn row_refused<T, A: Arith<T>>(ar: &A, x: Seq<T>, message: Seq<char>) -> bool {
    exists|blocks: Seq<Q8KBlock<T>>| #[trigger]
        is_q8_row(ar, x, blocks) && (blocks.len() + 1) * QK_K <= x.len() && q8_refused(
            ar,
            block_inputs(x, blocks.len() as int),
            message,
        )
}

/// Quantises a row of inputs, block by block.
pub fn quantize_row_q8_k<T: Copy, A: Arith<T>>(ar: &A, x: &[T]) -> (r: Result<
    Vec<Q8KBlock<T>>,
    OcelotlError,
>)
    requires
        x@.len() % (QK_K as nat) == 0,
    ensures
        match r {
            Ok(blocks) => is_q8_row(ar, x@, blocks@) && blocks@.len() * QK_K == x@.len(),
            Err(e) => exists|message: Seq<char>| #[trigger]
                row_refused(ar, x@, message) && e@ == crate::error::cpu_error(message),
        },
{
    let total: usize = x.len();
    let count: usize = total / QK_K;
    let mut blocks: Vec<Q8KBlock<T>> = Vec::with_capacity(count);
    let mut b: usize = 0;
    while b < count
        invariant
            total == x@.len() == count * QK_K,
            b <= count,
            blocks@.len() == b,
            is_q8_row(ar, x@, blocks@),
        decreases count - b,
    {
        let chunk: &[T] = slice_subrange(x, b * QK_K, b * QK_K + QK_K);
        assert(chunk@ == block_inputs(x@, b as int));
        match quantize_block_q8_k(ar, chunk) {
            Ok(block) => {
                blocks.push(block);
            },
            Err(e) => {
                proof {
                    let message = choose|message: Seq<char>| #[trigger]
                        q8_refused(ar, chunk@, message) && e@ == crate::error::cpu_error(message);
                    assert(row_refused(ar, x@, message));
                }
                return Err(e);
            },
        }
        b = b + 1;
    }
    Ok(blocks)
}

/// The weight of element `e`: its scale times its quantised number, times the
/// quantised input.
pub open spec fn element_product(kind: GgmlKQuantKind, block: Seq<u8>, qs: Seq<i8>, e: int) -> int {
    crate::k_blocks::scale(kind, block, e) * (qs[e] as int) * crate::k_blocks::quant(kind, block, e)
}

/// The products of the first `n` elements, added up over every eighth element
/// from `lane` on.
pub open spec fn lane_total(kind: GgmlKQuantKind, block: Seq<u8>, qs: Seq<i8>, lane: int, n: nat) -> int
    decreases n,
{
    if n == 0 {
        0
    } else {
        lane_total(kind, block, qs, lane, (n - 1) as nat) + (if (n - 1) % 8 == lane {
            element_product(kind, block, qs, n - 1)
        } else {
            0
        })
    }
}

/// The minima of the first `n` elements, times the quantised inputs, added up.
pub open spec fn minimum_total(block: Seq<u8>, qs: Seq<i8>, n: nat) -> int
    decreases n,
{
    if n == 0 {
        0
    } else {
        minimum_total(block, qs, (n - 1) as nat) + (qs[n - 1] as int) * crate::k_blocks::minimum(
            block,
            n - 1,
        )
    }
}

proof fn minimum_of_group(block: Seq<u8>, qs: Seq<i8>, g: int, k: nat)
    requires
        0 <= g < 16,
        k <= 16,
    ensures
        minimum_total(block, qs, (16 * g + k) as nat) == minimum_total(block, qs, (16 * g) as nat)
            + range_sum(qs, 16 * g, k) * crate::k_blocks::minimum(block, 16 * g),
    decreases k,
{
    let m = crate::k_blocks::minimum(block, 16 * g);
    if k == 0 {
        assert(0 * m == 0) by (nonlinear_arith);
    } else {
        minimum_of_group(block, qs, g, (k - 1) as nat);
        let e = 16 * g + k - 1;
        assert(crate::k_blocks::minimum(block, e) == m) by {
            assert(e / 32 == (16 * g) / 32);
        }
        let (a, q) = (range_sum(qs, 16 * g, (k - 1) as nat), qs[e] as int);
        assert((a + q) * m == a * m + q * m) by (nonlinear_arith);
    }
}

/// The sums of the eight lanes of a block.
fn lane_sums(kind: GgmlKQuantKind, block: &[u8], qs: &Vec<i8>) -> (r: Vec<i64>)
    requires
        block@.len() == kind.block_len(),
        qs@.len() == QK_K,
    ensures
        r@.len() == 8,
        forall|lane: int|
            0 <= lane < 8 ==> #[trigger] r@[lane] == lane_total(
                kind,
                block@,
                qs@,
                lane,
                QK_K as nat,
            ),
{
    let mut r: Vec<i64> = Vec::with_capacity(8);
    let mut i: usize = 0;
    while i < 8
        invariant
            i <= 8,
            r@.len() == i,
            forall|lane: int| 0 <= lane < i ==> #[trigger] r@[lane] == 0,
        decreases 8 - i,
    {
        r.push(0);
        i = i + 1;
    }
    let mut e: usize = 0;
    while e < QK_K
        invariant
            block@.len() == kind.block_len(),
            qs@.len() == QK_K,
            e <= QK_K,
            r@.len() == 8,
            forall|lane: int|
                0 <= lane < 8 ==> #[trigger] r@[lane] == lane_total(
                    kind,
                    block@,
                    qs@,
                    lane,
                    e as nat,
                ),
            forall|lane: int|
                0 <= lane < 8 ==> -524288 * e <= #[trigger] r@[lane] <= 524288 * e,
        decreases QK_K - e,
    {
        let lane: usize = e % 8;
        let scale: i64 = scale_of(kind, block, e);
        let q: i64 = qs[e] as i64;
        let w: i64 = quant_of(kind, block, e);
        proof {
            assert(-16384 <= scale * q <= 16384) by (nonlinear_arith)
                requires
                    -128 <= scale < 128,
                    -128 <= q < 128,
            ;
            let p = scale * q;
            assert(-524288 <= p * w <= 524288) by (nonlinear_arith)
                requires
                    -16384 <= p <= 16384,
                    -32 <= w < 32,
            ;
        }
        let sum: i64 = r[lane] + scale * q * w;
        r.set(lane, sum);
        e = e + 1;
    }
    r
}

/// The sum of the minima of a block, times the inputs.
fn minimum_sum<T>(block: &[u8], q8: &Q8KBlock<T>) -> (r: i64)
    requires
        block@.len() >= 16,
        q8.wf(),
    ensures
        r == minimum_total(block@, q8.qs@, QK_K as nat),
{
    let mut sum: i64 = 0;
    let mut g: usize = 0;
    while g < 16
        invariant
            block@.len() >= 16,
            q8.wf(),
            g <= 16,
            sum == minimum_total(block@, q8.qs@, (16 * g) as nat),
            -131072 * g <= sum <= 131072 * g,
        decreases 16 - g,
    {
        let m: i64 = minimum_of(block, 16 * g);
        let part: i64 = q8.sums16[g];
        proof {
            range_sum_bound(q8.qs@, 16 * g, 16);
            minimum_of_group(block@, q8.qs@, g as int, 16);
            assert(-131072 <= part * m <= 131072) by (nonlinear_arith)
                requires
                    -2048 <= part <= 2048,
                    0 <= m < 64,
            ;
        }
        sum = sum + part * m;
        g = g + 1;
    }
    sum
}

/// Where the scale of a block stands.
pub open spec fn scale_at(kind: GgmlKQuantKind) -> int {
    match kind {
        GgmlKQuantKind::Q4K | GgmlKQuantKind::Q5K => 0,
        GgmlKQuantKind::Q6K => 208,
    }
}

/// The scale of a block of weights, times that of a block of inputs.
pub open spec fn joint_scale<T>(block: Seq<u8>, at: int, d: T) -> crate::expr::Expr<T> {
    crate::expr::Expr::<T>::Bits(crate::k_blocks::half_at(block, at)).times(
        crate::expr::Expr::Value(d),
    )
}

/// The steps of a lane: the scaled sum of each block is added.
pub open spec fn lane_steps<T, A: Arith<T>>(
    ar: &A,
    kind: GgmlKQuantKind,
    data: Seq<u8>,
    blocks: Seq<Q8KBlock<T>>,
    lane: int,
) -> spec_fn(int, T, T) -> bool {
    |b: int, s: T, t: T|
        exists|d: T| #[trigger]
            crate::expr::evals(
                ar,
                joint_scale(crate::k_blocks::block_of(kind, data, b), scale_at(kind), blocks[b].d),
                d,
            ) && crate::expr::evals(
                ar,
                crate::expr::Expr::Value(s).plus(
                    crate::expr::Expr::Value(d).times(
                        crate::expr::Expr::Int(
                            lane_total(
                                kind,
                                crate::k_blocks::block_of(kind, data, b),
                                blocks[b].qs@,
                                lane,
                                QK_K as nat,
                            ) as i64,
                        ),
                    ),
                ),
                t,
            )
}

/// The steps of the minima: the scaled sum of each block is subtracted.
pub open spec fn minimum_steps<T, A: Arith<T>>(
    ar: &A,
    kind: GgmlKQuantKind,
    data: Seq<u8>,
    blocks: Seq<Q8KBlock<T>>,
) -> spec_fn(int, T, T) -> bool {
    |b: int, s: T, t: T|
        exists|d: T| #[trigger]
            crate::expr::evals(
                ar,
                joint_scale(crate::k_blocks::block_of(kind, data, b), 2, blocks[b].d),
                d,
            ) && crate::expr::evals(
                ar,
                crate::expr::Expr::Value(s).minus(
                    crate::expr::Expr::Value(d).times(
                        crate::expr::Expr::Int(
                            minimum_total(
                                crate::k_blocks::block_of(kind, data, b),
                                blocks[b].qs@,
                                QK_K as nat,
                            ) as i64,
                        ),
                    ),
                ),
                t,
            )
}

/// The intermediate values of a dot product of a row of weights and a row of
/// inputs.
pub struct KDotSteps<T> {
    pub zero: T,
    pub minima: T,
    pub lanes: Seq<T>,
}

/// `v` may be the dot product of a row of weights and a row of inputs: the
/// minima, where there are any, and then the eight lanes.
pub open spec fn k_dot_by<T, A: Arith<T>>(
    ar: &A,
    kind: GgmlKQuantKind,
    data: Seq<u8>,
    blocks: Seq<Q8KBlock<T>>,
    s: KDotSteps<T>,
    v: T,
) -> bool {
    &&& crate::arith::converts(ar, 0, s.zero)
    &&& match kind {
        GgmlKQuantKind::Q4K | GgmlKQuantKind::Q5K => crate::arith::folds(
            minimum_steps(ar, kind, data, blocks),
            blocks.len(),
            s.zero,
            s.minima,
        ),
        GgmlKQuantKind::Q6K => s.minima == s.zero,
    }
    &&& s.lanes.len() == 8
    &&& forall|lane: int|
        0 <= lane < 8 ==> crate::arith::folds(
            lane_steps(ar, kind, data, blocks, lane),
            blocks.len(),
            s.zero,
            #[trigger] s.lanes[lane],
        )
    &&& crate::arith::folds(crate::softmax::sum_steps(ar, s.lanes), 8, s.minima, v)
}

/// `v` may be the dot product of a row of weights and a row of inputs.
pub open spec fn is_k_dot<T, A: Arith<T>>(
    ar: &A,
    kind: GgmlKQuantKind,
    data: Seq<u8>,
    blocks: Seq<Q8KBlock<T>>,
    v: T,
) -> bool {
    exists|s: KDotSteps<T>| #[trigger] k_dot_by(ar, kind, data, blocks, s, v)
}

/// One step of the eight lanes.
fn step_lanes<T: Copy, A: Arith<T>>(
    ar: &A,
    kind: GgmlKQuantKind,
    Ghost(data): Ghost<Seq<u8>>,
    Ghost(blocks): Ghost<Seq<Q8KBlock<T>>>,
    Ghost(b): Ghost<int>,
    Ghost(zero): Ghost<T>,
    block: &[u8],
    q8: &Q8KBlock<T>,
    lanes: &mut Vec<T>,
)
    requires
        0 <= b < blocks.len(),
        block@ == crate::k_blocks::block_of(kind, data, b),
        block@.len() == kind.block_len(),
        blocks[b] == *q8,
        q8.wf(),
        old(lanes)@.len() == 8,
        forall|lane: int|
            0 <= lane < 8 ==> crate::arith::folds(
                lane_steps(ar, kind, data, blocks, lane),
                b as nat,
                zero,
                #[trigger] old(lanes)@[lane],
            ),
    ensures
        final(lanes)@.len() == 8,
        forall|lane: int|
            0 <= lane < 8 ==> crate::arith::folds(
                lane_steps(ar, kind, data, blocks, lane),
                (b + 1) as nat,
                zero,
                #[trigger] final(lanes)@[lane],
            ),
{
    let at: usize = match kind {
        GgmlKQuantKind::Q4K | GgmlKQuantKind::Q5K => 0,
        GgmlKQuantKind::Q6K => 208,
    };
    let sums: Vec<i64> = lane_sums(kind, block, &q8.qs);
    let d = Term::bits(ar, f16_le_at(block, at)).times(ar, &Term::of(ar, q8.d));
    let ghost before = lanes@;
    let mut lane: usize = 0;
    while lane < 8
        invariant
            0 <= b < blocks.len(),
            block@ == crate::k_blocks::block_of(kind, data, b),
            blocks[b] == *q8,
            d.holds(ar),
            d.expr@ == joint_scale(block@, scale_at(kind), q8.d),
            sums@.len() == 8,
            forall|l: int|
                0 <= l < 8 ==> #[trigger] sums@[l] == lane_total(
                    kind,
                    block@,
                    q8.qs@,
                    l,
                    QK_K as nat,
                ),
            lane <= 8,
            lanes@.len() == 8,
            before.len() == 8,
            forall|l: int|
                0 <= l < 8 ==> crate::arith::folds(
                    lane_steps(ar, kind, data, blocks, l),
                    b as nat,
                    zero,
                    #[trigger] before[l],
                ),
            forall|l: int| lane <= l < 8 ==> #[trigger] lanes@[l] == before[l],
            forall|l: int|
                0 <= l < lane ==> crate::arith::folds(
                    lane_steps(ar, kind, data, blocks, l),
                    (b + 1) as nat,
                    zero,
                    #[trigger] lanes@[l],
                ),
        decreases 8 - lane,
    {
        let s: T = lanes[lane];
        let part = Term::of(ar, d.value).times(ar, &Term::whole(ar, sums[lane]));
        let next = Term::of(ar, s).plus(ar, &part);
        proof {
            assert(crate::expr::evals(
                ar,
                joint_scale(
                    crate::k_blocks::block_of(kind, data, b),
                    scale_at(kind),
                    blocks[b].d,
                ),
                d.value,
            ));
            assert(before[lane as int] == s);
            crate::arith::fold_step(
                lane_steps(ar, kind, data, blocks, lane as int),
                b as nat,
                zero,
                s,
                next.value,
            );
        }
        lanes.set(lane, next.value);
        lane = lane + 1;
    }
}

/// The dot product of a row of quantised weights and a row of quantised inputs.
pub fn vec_dot_k_q8_k<T: Copy, A: Arith<T>>(
    ar: &A,
    kind: GgmlKQuantKind,
    data: &[u8],
    blocks: &Vec<Q8KBlock<T>>,
) -> (v: T)
    requires
        data@.len() == blocks@.len() * kind.block_len(),
        forall|b: int| 0 <= b < blocks@.len() ==> (#[trigger] blocks@[b]).wf(),
    ensures
        is_k_dot(ar, kind, data@, blocks@, v),
{
    let total: usize = data.len();
    let bytes: usize = kind.block_bytes();
    let count: usize = blocks.len();
    let zero: T = ar.from_int(0);
    let mut lanes: Vec<T> = crate::arith::filled(zero, 8);
    let mut minima: T = zero;
    let with_minima: bool = match kind {
        GgmlKQuantKind::Q4K | GgmlKQuantKind::Q5K => true,
        GgmlKQuantKind::Q6K => false,
    };
    let ghost min_steps = minimum_steps(ar, kind, data@, blocks@);
    let mut b: usize = 0;
    while b < count
        invariant
            total == data@.len() == count * bytes,
            bytes == kind.block_len(),
            count == blocks@.len(),
            forall|i: int| 0 <= i < blocks@.len() ==> (#[trigger] blocks@[i]).wf(),
            with_minima == !(kind is Q6K),
            min_steps == minimum_steps(ar, kind, data@, blocks@),
            b <= count,
            lanes@.len() == 8,
            forall|lane: int|
                0 <= lane < 8 ==> crate::arith::folds(
                    lane_steps(ar, kind, data@, blocks@, lane),
                    b as nat,
                    zero,
                    #[trigger] lanes@[lane],
                ),
            with_minima ==> crate::arith::folds(min_steps, b as nat, zero, minima),
            !with_minima ==> minima == zero,
        decreases count - b,
    {
        proof {
            crate::grid::row_bound(b as int, count as int, bytes as int);
        }
        let block: &[u8] = slice_subrange(data, b * bytes, b * bytes + bytes);
        let q8: &Q8KBlock<T> = &blocks[b];
        assert(block@ == crate::k_blocks::block_of(kind, data@, b as int));
        if with_minima {
            let sum: i64 = minimum_sum(block, q8);
            let d = Term::bits(ar, f16_le_at(block, 2)).times(ar, &Term::of(ar, q8.d));
            let part = Term::of(ar, d.value).times(ar, &Term::whole(ar, sum));
            let next = Term::of(ar, minima).minus(ar, &part);
            proof {
                assert(crate::expr::evals(
                    ar,
                    joint_scale(
                        crate::k_blocks::block_of(kind, data@, b as int),
                        2,
                        blocks@[b as int].d,
                    ),
                    d.value,
                ));
                crate::arith::fold_step(min_steps, b as nat, zero, minima, next.value);
            }
            minima = next.value;
        }
        step_lanes(
            ar,
            kind,
            Ghost(data@),
            Ghost(blocks@),
            Ghost(b as int),
            Ghost(zero),
            block,
            q8,
            &mut lanes,
        );
        b = b + 1;
    }
    let ghost all = lanes@;
    let mut v: T = minima;
    let mut lane: usize = 0;
    while lane < 8
        invariant
            all == lanes@,
            all.len() == 8,
            lane <= 8,
            crate::arith::folds(crate::softmax::sum_steps(ar, all), lane as nat, minima, v),
        decreases 8 - lane,
    {
        let next: T = ar.add(v, lanes[lane]);
        proof {
            crate::arith::fold_step(
                crate::softmax::sum_steps(ar, all),
                lane as nat,
                minima,
                v,
                next,
            );
        }
        v = next;
        lane = lane + 1;
    }
    proof {
        let s = KDotSteps { zero, minima, lanes: all };
        assert(k_dot_by(ar, kind, data@, blocks@, s, v));
    }
    v
}

/// The refusal of an operand of a quantised projection.
pub open spec fn k_len_refusal(label: Seq<char>, len: nat, what: Seq<char>, r: usize, c: usize) -> crate::shapes::Refusal {
    crate::shapes::refuse_if(
        len != r * c,
        "linear_q8_k_k_quant "@ + label + ".len()="@ + crate::text::dec(len)
            + " does not match rows*"@ + what + "="@ + crate::text::dec(r as nat) + "*"@
            + crate::text::dec(c as nat) + "="@ + crate::text::dec((r * c) as nat),
    )
}

fn check_len(label: &str, len: usize, what: &str, r: usize, c: usize, expected: usize) -> (res:
    Result<(), OcelotlError>)
    requires
        expected == r * c,
    ensures
        crate::shapes::refused(res) == k_len_refusal(label@, len as nat, what@, r, c),
{
    if len != expected {
        Err(
            kernel_err(
                Text::new("linear_q8_k_k_quant ").s(label).s(".len()=").n(len).s(
                    " does not match rows*",
                ).s(what).s("=").n(r).s("*").n(c).s("=").n(expected).done(),
            ),
        )
    } else {
        Ok(())
    }
}

/// When a quantised projection is refused for its shapes, and how.
pub open spec fn k_linear_refusal(
    x_len: nat,
    rows: usize,
    n: usize,
    outs: usize,
    kind: GgmlKQuantKind,
    data_len: nat,
    out_len: nat,
) -> crate::shapes::Refusal {
    let name = "linear_q8_k_k_quant"@;
    let blocks = outs * (n as int / QK_K as int);
    crate::shapes::first(
        crate::shapes::first(
            crate::shapes::refuse_if(
                n == 0 || outs == 0,
                "linear_q8_k_k_quant dimensions must be non-zero"@,
            ),
            crate::shapes::refuse_if(
                n % QK_K != 0,
                "linear_q8_k_k_quant input_features "@ + crate::text::dec(n as nat)
                    + " is not divisible by Q8_K/K-quant block size 256"@,
            ),
        ),
        crate::shapes::first(
            crate::shapes::first(
                crate::shapes::product_refusal(name, "x"@, seq![rows, n]),
                crate::shapes::product_refusal(name, "out"@, seq![rows, outs]),
            ),
            crate::shapes::first(
                crate::shapes::first(
                    k_len_refusal("x"@, x_len, "input_features"@, rows, n),
                    k_len_refusal("out"@, out_len, "output_features"@, rows, outs),
                ),
                crate::shapes::first(
                    crate::shapes::first(
                        crate::shapes::refuse_if(
                            blocks > usize::MAX,
                            "linear_q8_k_k_quant block count overflows usize"@,
                        ),
                        crate::shapes::refuse_if(
                            blocks * kind.block_len() > usize::MAX,
                            "linear_q8_k_k_quant raw weight byte length overflows usize"@,
                        ),
                    ),
                    crate::shapes::refuse_if(
                        data_len != blocks * kind.block_len(),
                        "linear_q8_k_k_quant raw weight bytes "@ + crate::text::dec(data_len)
                            + " do not match expected "@ + crate::text::dec(
                            (blocks * kind.block_len()) as nat,
                        ),
                    ),
                ),
            ),
        ),
    )
}

/// Checks the operands of a quantised projection.
pub fn validate_k_quant_linear(
    x_len: usize,
    rows: usize,
    matrix: GgmlKQuantMatrixRef<'_>,
    out_len: usize,
) -> (r: Result<(), OcelotlError>)
    ensures
        crate::shapes::refused(r) == k_linear_refusal(
            x_len as nat,
            rows,
            matrix.input_features,
            matrix.output_features,
            matrix.kind,
            matrix.data@.len(),
            out_len as nat,
        ),
        r is Ok ==> {
            &&& matrix.input_features > 0
            &&& matrix.output_features > 0
            &&& matrix.input_features % QK_K == 0
            &&& x_len == rows * matrix.input_features
            &&& out_len == rows * matrix.output_features
            &&& matrix.data@.len() == matrix.output_features * (matrix.input_features as int
                / QK_K as int) * matrix.kind.block_len()
        },
{
    let n: usize = matrix.input_features;
    let outs: usize = matrix.output_features;
    if n == 0 || outs == 0 {
        return Err(
            kernel_err(String::from_str("linear_q8_k_k_quant dimensions must be non-zero")),
        );
    }
    if n % QK_K != 0 {
        return Err(
            kernel_err(
                Text::new("linear_q8_k_k_quant input_features ").n(n).s(
                    " is not divisible by Q8_K/K-quant block size 256",
                ).done(),
            ),
        );
    }
    let x_dims: [usize; 2] = [rows, n];
    let out_dims: [usize; 2] = [rows, outs];
    proof {
        crate::kv_cache::product_of_two(rows, n);
        crate::kv_cache::product_of_two(rows, outs);
        assert(x_dims@ =~= seq![rows, n]);
        assert(out_dims@ =~= seq![rows, outs]);
    }
    let x_expected: usize = match checked_len_product("linear_q8_k_k_quant", "x", &x_dims) {
        Ok(p) => p,
        Err(e) => return Err(e),
    };
    let out_expected: usize = match checked_len_product("linear_q8_k_k_quant", "out", &out_dims) {
        Ok(p) => p,
        Err(e) => return Err(e),
    };
    match check_len("x", x_len, "input_features", rows, n, x_expected) {
        Ok(_) => {},
        Err(e) => return Err(e),
    }
    match check_len("out", out_len, "output_features", rows, outs, out_expected) {
        Ok(_) => {},
        Err(e) => return Err(e),
    }
    let blocks: usize = match outs.checked_mul(n / QK_K) {
        Some(b) => b,
        None => return Err(
            kernel_err(String::from_str("linear_q8_k_k_quant block count overflows usize")),
        ),
    };
    let bytes: usize = match blocks.checked_mul(matrix.kind.block_bytes()) {
        Some(b) => b,
        None => return Err(
            kernel_err(
                String::from_str("linear_q8_k_k_quant raw weight byte length overflows usize"),
            ),
        ),
    };
    if matrix.data.len() != bytes {
        return Err(
            kernel_err(
                Text::new("linear_q8_k_k_quant raw weight bytes ").n(matrix.data.len()).s(
                    " do not match expected ",
                ).n(bytes).done(),
            ),
        );
    }
    Ok(())
}

/// The blocks of output `o` of a matrix with rows of `n` values.
pub open spec fn weight_row(kind: GgmlKQuantKind, data: Seq<u8>, n: int, o: int) -> Seq<u8> {
    let len = n / QK_K as int * kind.block_len();
    data.subrange(o * len, o * len + len)
}

/// `v` may be output `o` of row `r`: the row, quantised, times the weights of
/// the output.
pub open spec fn k_linear_cell<T, A: Arith<T>>(
    ar: &A,
    x: Seq<T>,
    kind: GgmlKQuantKind,
    data: Seq<u8>,
    n: int,
    r: int,
    o: int,
    v: T,
) -> bool {
    exists|blocks: Seq<Q8KBlock<T>>| #[trigger]
        is_q8_row(ar, crate::linear::row(x, n, r), blocks) && blocks.len() * QK_K == n && is_k_dot(
            ar,
            kind,
            weight_row(kind, data, n, o),
            blocks,
            v,
        )
}

/// The first `count` outputs are those of the projection.
pub open spec fn k_linear_cells<T, A: Arith<T>>(
    ar: &A,
    x: Seq<T>,
    kind: GgmlKQuantKind,
    data: Seq<u8>,
    n: int,
    outs: int,
    out: Seq<T>,
    count: int,
) -> bool {
    forall|i: int|
        0 <= i < count ==> k_linear_cell(
            ar,
            x,
            kind,
            data,
            n,
            i / outs,
            i % outs,
            #[trigger] out[i],
        )
}

/// Row `r` is refused: the rows before it were projected, the outputs from it on
/// are as they were.
pub open spec fn k_linear_stopped<T, A: Arith<T>>(
    ar: &A,
    x: Seq<T>,
    kind: GgmlKQuantKind,
    data: Seq<u8>,
    n: int,
    outs: int,
    before: Seq<T>,
    out: Seq<T>,
    r: int,
    message: Seq<char>,
) -> bool {
    &&& 0 <= r
    &&& (r + 1) * n <= x.len()
    &&& row_refused(ar, crate::linear::row(x, n, r), message)
    &&& k_linear_cells(ar, x, kind, data, n, outs, out, r * outs)
    &&& forall|i: int| r * outs <= i < out.len() ==> #[trigger] out[i] == before[i]
}

/// The error of an encoding that has no projection.
pub open spec fn unsupported_projection() -> crate::error::ErrorView {
    crate::error::ErrorView::Unsupported {
        feature: "ggml_k_quant_projection"@,
        requested: Some("Q4K"@),
        supported: seq!["Q5K"@, "Q6K"@],
    }
}

fn unsupported_k_quant_projection() -> (e: OcelotlError)
    ensures
        e@ == unsupported_projection(),
{
    let mut supported: Vec<String> = Vec::new();
    supported.push(String::from_str("Q5K"));
    supported.push(String::from_str("Q6K"));
    assert(crate::text::words(supported@) =~= seq!["Q5K"@, "Q6K"@]);
    OcelotlError::Unsupported(
        UnsupportedError {
            feature: String::from_str("ggml_k_quant_projection"),
            requested: Some(String::from_str("Q4K")),
            supported,
        },
    )
}

/// The outputs of one quantised row.
fn project_row<T: Copy, A: Arith<T>>(
    ar: &A,
    Ghost(x): Ghost<Seq<T>>,
    kind: GgmlKQuantKind,
    data: &[u8],
    n: usize,
    outs: usize,
    row: usize,
    blocks: &Vec<Q8KBlock<T>>,
    out: &mut [T],
)
    requires
        n % QK_K == 0,
        outs > 0,
        data@.len() == outs * (n as int / QK_K as int) * kind.block_len(),
        row * outs + outs <= old(out)@.len(),
        is_q8_row(ar, crate::linear::row(x, n as int, row as int), blocks@),
        blocks@.len() * QK_K == n,
        k_linear_cells(
            ar,
            x,
            kind,
            data@,
            n as int,
            outs as int,
            old(out)@,
            row * outs,
        ),
    ensures
        final(out)@.len() == old(out)@.len(),
        k_linear_cells(
            ar,
            x,
            kind,
            data@,
            n as int,
            outs as int,
            final(out)@,
            row * outs + outs,
        ),
        forall|i: int|
            row * outs + outs <= i < final(out)@.len() ==> #[trigger] final(out)@[i]
                == old(out)@[i],
{
    let total: usize = out.len();
    let data_total: usize = data.len();
    let ghost before = out@;
    let ghost len: int = n as int / QK_K as int * kind.block_len();
    proof {
        assert(outs * (n as int / QK_K as int) * kind.block_len() == outs * len) by (nonlinear_arith)
            requires
                len == n as int / QK_K as int * kind.block_len(),
        ;
        assert(len <= outs * len) by (nonlinear_arith)
            requires
                outs >= 1,
                len >= 0,
        ;
        assert(0 <= row * outs) by (nonlinear_arith);
    }
    let row_bytes: usize = n / QK_K * kind.block_bytes();
    let at: usize = row * outs;
    let mut o: usize = 0;
    while o < outs
        invariant
            outs > 0,
            n % QK_K == 0,
            len == n as int / QK_K as int * kind.block_len(),
            row_bytes == len,
            data_total == data@.len() == outs * len,
            at == row * outs,
            at + outs <= out@.len() == total == before.len(),
            is_q8_row(ar, crate::linear::row(x, n as int, row as int), blocks@),
            blocks@.len() * QK_K == n,
            o <= outs,
            k_linear_cells(ar, x, kind, data@, n as int, outs as int, out@, at + o),
            forall|i: int| at + o <= i < total ==> #[trigger] out@[i] == before[i],
        decreases outs - o,
    {
        proof {
            crate::grid::row_bound(o as int, outs as int, len);
            crate::grid::cell(row as int, o as int, outs as int);
        }
        let weights: &[u8] = slice_subrange(data, o * row_bytes, o * row_bytes + row_bytes);
        assert(weights@ == weight_row(kind, data@, n as int, o as int));
        let v: T = vec_dot_k_q8_k(ar, kind, weights, blocks);
        let ghost prior = out@;
        out[at + o] = v;
        proof {
            assert(k_linear_cell(
                ar,
                x,
                kind,
                data@,
                n as int,
                row as int,
                o as int,
                v,
            ));
            assert forall|i: int| 0 <= i < at + o + 1 implies k_linear_cell(
                ar,
                x,
                kind,
                data@,
                n as int,
                i / outs as int,
                i % outs as int,
                #[trigger] out@[i],
            ) by {
                if i < at + o {
                    assert(out@[i] == prior[i]);
                }
            }
        }
        o = o + 1;
    }
}

/// Linear projection with quantised weights: each row is quantised to signed
/// bytes, and multiplied in integers, block by block.
pub fn linear_q8_k_k_quant<T: Copy, A: Arith<T>>(
    ar: &A,
    x: &[T],
    rows: usize,
    matrix: GgmlKQuantMatrixRef<'_>,
    out: &mut [T],
) -> (r: Result<(), OcelotlError>)
    ensures
        final(out)@.len() == old(out)@.len(),
        ({
            let refusal = k_linear_refusal(
                x@.len(),
                rows,
                matrix.input_features,
                matrix.output_features,
                matrix.kind,
                matrix.data@.len(),
                old(out)@.len(),
            );
            if matrix.kind == GgmlKQuantKind::Q4K {
                &&& crate::shapes::refused(r) == Some(unsupported_projection())
                &&& final(out)@ == old(out)@
            } else if refusal is Some {
                &&& crate::shapes::refused(r) == refusal
                &&& final(out)@ == old(out)@
            } else {
                match r {
                    Ok(_) => k_linear_cells(
                        ar,
                        x@,
                        matrix.kind,
                        matrix.data@,
                        matrix.input_features as int,
                        matrix.output_features as int,
                        final(out)@,
                        final(out)@.len() as int,
                    ),
                    Err(e) => exists|row: int, message: Seq<char>| #[trigger]
                        k_linear_stopped(
                            ar,
                            x@,
                            matrix.kind,
                            matrix.data@,
                            matrix.input_features as int,
                            matrix.output_features as int,
                            old(out)@,
                            final(out)@,
                            row,
                            message,
                        ) && e@ == crate::error::cpu_error(message),
                }
            }
        }),
{
    if matrix.kind == GgmlKQuantKind::Q4K {
        return Err(unsupported_k_quant_projection());
    }
    match validate_k_quant_linear(x.len(), rows, matrix, out.len()) {
        Ok(_) => {},
        Err(e) => return Err(e),
    }
    let n: usize = matrix.input_features;
    let outs: usize = matrix.output_features;
    let kind: GgmlKQuantKind = matrix.kind;
    let total: usize = x.len();
    let ghost before = out@;
    proof {
        assert(0 * outs == 0) by (nonlinear_arith);
    }
    let mut row: usize = 0;
    while row < rows
        invariant
            before == old(out)@,
            matrix.kind != GgmlKQuantKind::Q4K,
            k_linear_refusal(
                x@.len(),
                rows,
                matrix.input_features,
                matrix.output_features,
                matrix.kind,
                matrix.data@.len(),
                before.len(),
            ) is None,
            n == matrix.input_features,
            outs == matrix.output_features,
            kind == matrix.kind,
            n > 0,
            outs > 0,
            n % QK_K == 0,
            matrix.data@.len() == outs * (n as int / QK_K as int) * kind.block_len(),
            total == x@.len() == rows * n,
            out@.len() == before.len() == rows * outs,
            row <= rows,
            k_linear_cells(
                ar,
                x@,
                kind,
                matrix.data@,
                n as int,
                outs as int,
                out@,
                row * outs,
            ),
            forall|i: int| row * outs <= i < out@.len() ==> #[trigger] out@[i] == before[i],
        decreases rows - row,
    {
        proof {
            crate::grid::row_bound(row as int, rows as int, n as int);
            crate::grid::row_bound(row as int, rows as int, outs as int);
        }
        let inputs: &[T] = slice_subrange(x, row * n, row * n + n);
        assert(inputs@ == crate::linear::row(x@, n as int, row as int));
        match quantize_row_q8_k(ar, inputs) {
            Ok(blocks) => {
                project_row(
                    ar,
                    Ghost(x@),
                    kind,
                    matrix.data,
                    n,
                    outs,
                    row,
                    &blocks,
                    out,
                );
            },
            Err(e) => {
                proof {
                    let message = choose|message: Seq<char>| #[trigger]
                        row_refused(ar, inputs@, message) && e@ == crate::error::cpu_error(message);
                    assert(k_linear_stopped(
                        ar,
                        x@,
                        kind,
                        matrix.data@,
                        n as int,
                        outs as int,
                        before,
                        out@,
                        row as int,
                        message,
                    ));
                }
                return Err(e);
            },
        }
        row = row + 1;
    }
    Ok(())
}

} // verus!
