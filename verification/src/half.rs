use vstd::arithmetic::power2::*;
use vstd::prelude::*;

verus! {

/// How often a number below 1024 has to be doubled to reach 1024.
pub open spec fn doublings(f: nat) -> nat
    decreases 2048 - f,
{
    if f == 0 || f >= 1024 {
        0
    } else {
        1 + doublings(2 * f)
    }
}

/// The single-precision bit pattern of a half-precision one: the sign is kept;
/// infinities and NaN payloads are moved over; normal numbers get the other
/// exponent bias; subnormal numbers are normalised.
pub open spec fn single_of_half(bits: u16) -> nat {
    let sign = bits as nat / 0x8000 * 0x8000_0000;
    let exponent = bits as nat / 0x400 % 32;
    let fraction = bits as nat % 0x400;
    if exponent == 31 {
        sign + 0x7f80_0000 + fraction * 0x2000
    } else if exponent > 0 {
        sign + (exponent + 112) as nat * 0x80_0000 + fraction * 0x2000
    } else if fraction == 0 {
        sign
    } else {
        let k = doublings(fraction);
        (sign + (113 - k) * 0x80_0000 + (fraction * pow2(k) - 1024) * 0x2000) as nat
    }
}

proof fn doublings_reach(f: nat)
    requires
        0 < f < 2048,
    ensures
        f < 1024 ==> 1024 <= f * pow2(doublings(f)) < 2048,
        doublings(f) <= 10,
    decreases 2048 - f,
{
    if f < 1024 {
        let k = doublings(2 * f);
        doublings_reach(2 * f);
        lemma_pow2_unfold(k + 1);
        lemma_pow2_unfold(1);
        lemma2_to64();
        assert(f * pow2(k + 1) == 2 * f * pow2(k)) by (nonlinear_arith)
            requires
                pow2(k + 1) == 2 * pow2(k),
        ;
        if 2 * f >= 1024 {
            assert(2 * f * pow2(0) == 2 * f) by (nonlinear_arith)
                requires
                    pow2(0) == 1,
            ;
        }
        doublings_bound(f, 10);
    }
}

proof fn doublings_bound(f: nat, n: nat)
    requires
        0 < f,
        f * pow2(n) >= 1024,
    ensures
        doublings(f) <= n,
    decreases n,
{
    lemma2_to64();
    if f < 1024 {
        if n == 0 {
            assert(f * 1 == f);
        } else {
            lemma_pow2_unfold(n);
            assert(2 * f * pow2((n - 1) as nat) == f * pow2(n)) by (nonlinear_arith)
                requires
                    pow2(n) == 2 * pow2((n - 1) as nat),
            ;
            doublings_bound(2 * f, (n - 1) as nat);
        }
    }
}

/// The single-precision bit pattern of a half-precision number.
pub fn f16_bits_to_f32(bits: u16) -> (r: u32)
    ensures
        r == single_of_half(bits),
{
    let sign: u32 = bits as u32 / 0x8000 * 0x8000_0000;
    let exponent: u32 = bits as u32 / 0x400 % 32;
    let fraction: u32 = bits as u32 % 0x400;
    if exponent == 31 {
        sign + 0x7f80_0000 + fraction * 0x2000
    } else if exponent > 0 {
        sign + (exponent + 112) * 0x80_0000 + fraction * 0x2000
    } else if fraction == 0 {
        sign
    } else {
        let mut norm: u32 = fraction;
        let mut k: u32 = 0;
        proof {
            lemma2_to64();
            doublings_reach(fraction as nat);
            assert(fraction * 1 == fraction);
        }
        while norm < 1024
            invariant
                0 < fraction < 1024,
                0 < norm < 2048,
                k <= 10,
                norm == fraction * pow2(k as nat),
                doublings(fraction as nat) == k + doublings(norm as nat),
                doublings(fraction as nat) <= 10,
            decreases 2048 - norm,
        {
            proof {
                lemma_pow2_unfold((k + 1) as nat);
                assert(fraction * pow2((k + 1) as nat) == 2 * (fraction * pow2(k as nat)))
                    by (nonlinear_arith)
                    requires
                        pow2((k + 1) as nat) == 2 * pow2(k as nat),
                ;
            }
            norm = norm * 2;
            k = k + 1;
        }
        sign + (113 - k) * 0x80_0000 + (norm - 1024) * 0x2000
    }
}

/// The single-precision bit pattern of a brain-float number: its high half.
pub fn bf16_bits_to_f32(bits: u16) -> (r: u32)
    ensures
        r == bits * 0x1_0000,
{
    bits as u32 * 0x1_0000
}

/// The magnitude of a finite half-precision number, in units of two to the power of -24.
pub open spec fn half_magnitude(bits: u16) -> nat {
    let exponent = bits as nat / 0x400 % 32;
    let fraction = bits as nat % 0x400;
    if exponent == 0 {
        fraction
    } else {
        (1024 + fraction) * pow2((exponent - 1) as nat)
    }
}

/// The magnitude of a finite single-precision number, in units of two to the power of -149.
pub open spec fn single_magnitude(bits: nat) -> nat {
    let exponent = bits / 0x80_0000 % 256;
    let fraction = bits % 0x80_0000;
    if exponent == 0 {
        fraction
    } else {
        (0x80_0000 + fraction) * pow2((exponent - 1) as nat)
    }
}

/// Widening is exact: sign and magnitude of a finite half-precision number are
/// those of the single-precision number that it becomes, and what is not finite
/// stays not finite.
pub proof fn widening_is_exact(bits: u16)
    ensures
        single_of_half(bits) / 0x8000_0000 == bits / 0x8000,
        bits as nat / 0x400 % 32 != 31 ==> single_of_half(bits) / 0x80_0000 % 256 != 255
            && single_magnitude(single_of_half(bits)) == half_magnitude(bits) * pow2(125),
        bits as nat / 0x400 % 32 == 31 ==> single_of_half(bits) / 0x80_0000 % 256 == 255 && (
        single_of_half(bits) % 0x80_0000 == 0 <==> bits % 0x400 == 0),
{
    let exponent = bits as nat / 0x400 % 32;
    let fraction = bits as nat % 0x400;
    lemma2_to64();
    lemma2_to64_rest();
    if 0 < exponent < 31 {
        let r = single_of_half(bits);
        assert(r / 0x80_0000 % 256 == exponent + 112);
        assert(r % 0x80_0000 == fraction * 0x2000);
        lemma_pow2_adds((exponent - 1) as nat, 125);
        lemma_pow2_adds((exponent + 111) as nat, 13);
        let (a, b) = (pow2((exponent + 111) as nat), pow2((exponent - 1) as nat));
        assert((exponent + 111) as nat + 13 == (exponent - 1) as nat + 125);
        assert((0x80_0000 + fraction * 0x2000) * a == (1024 + fraction) * (a * 0x2000))
            by (nonlinear_arith);
        assert((1024 + fraction) * (b * pow2(125)) == (1024 + fraction) * b * pow2(125))
            by (nonlinear_arith);
    } else if exponent == 0 && fraction > 0 {
        doublings_reach(fraction);
        let k = doublings(fraction);
        let m = (fraction * pow2(k)) as nat;
        let r = single_of_half(bits);
        assert(r / 0x80_0000 % 256 == 113 - k);
        assert(r % 0x80_0000 == (m - 1024) * 0x2000);
        let a = pow2((112 - k) as nat);
        lemma_pow2_adds(k, (112 - k) as nat);
        lemma_pow2_adds(112, 13);
        assert((0x80_0000 + (m - 1024) * 0x2000) * a == fraction * (pow2(k) * a) * 0x2000)
            by (nonlinear_arith)
            requires
                m == fraction * pow2(k),
        ;
        assert(fraction * pow2(112) * 0x2000 == fraction * (pow2(112) * 0x2000))
            by (nonlinear_arith);
    } else if exponent == 0 {
        assert(0 * pow2(125) == 0);
    }
}

} // verus!
