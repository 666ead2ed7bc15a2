//! Addition and subtraction.

use vstd::prelude::*;
use vstd::arithmetic::power2::{
    pow2, lemma_pow2_pos, lemma_pow2_adds, lemma2_to64, lemma2_to64_rest,
};
use crate::binary64::format::{
    sign_bit, is_nan, is_infinite, magnitude, units, zero_bits, exponent_field, NAN, SIGN_BIT,
    sign_of, nan, infinite, significand_of, scale_of,
};
use crate::binary64::power::{pow2_u128, lemma_pow2_increases};
use crate::binary64::rounding::{rounded, round_pack, BIAS};

verus! {

/// The pattern with the sign bit flipped.
pub open spec fn negated(a: u64) -> u64 {
    if sign_bit(a) {
        (a - 0x8000_0000_0000_0000) as u64
    } else {
        (a + 0x8000_0000_0000_0000) as u64
    }
}

/// The sum of two binary64 numbers: the exact sum of their values, rounded.
/// An exact zero is negative only when both operands are negative. The sum
/// of the two infinities of opposite sign is NaN.
pub open spec fn sum(a: u64, b: u64) -> u64 {
    if is_nan(a) || is_nan(b) {
        NAN
    } else if is_infinite(a) {
        if is_infinite(b) && sign_bit(a) != sign_bit(b) {
            NAN
        } else {
            a
        }
    } else if is_infinite(b) {
        b
    } else {
        let total = units(a) + units(b);
        if total == 0 {
            zero_bits(sign_bit(a) && sign_bit(b))
        } else if total < 0 {
            rounded(true, (-total) as nat, 1)
        } else {
            rounded(false, total as nat, 1)
        }
    }
}

/// The difference of two binary64 numbers: the sum of the first and the
/// negated second.
pub open spec fn difference(a: u64, b: u64) -> u64 {
    sum(a, negated(b))
}

/// Flips the sign.
pub fn negate(a: u64) -> (r: u64)
    ensures
        r == negated(a),
        is_nan(r) == is_nan(a),
        is_infinite(r) == is_infinite(a),
        magnitude(r) == magnitude(a),
        sign_bit(r) != sign_bit(a),
{
    if a >= SIGN_BIT {
        a - SIGN_BIT
    } else {
        a + SIGN_BIT
    }
}

/// Adds two binary64 numbers.
pub fn plus(a: u64, b: u64) -> (r: u64)
    ensures
        r == sum(a, b),
{
    if nan(a) || nan(b) {
        return NAN;
    }
    if infinite(a) {
        return if infinite(b) && sign_of(a) != sign_of(b) { NAN } else { a };
    }
    if infinite(b) {
        return b;
    }
    let a_leads: bool = scale_of(a) >= scale_of(b);
    let hi: u64 = if a_leads { a } else { b };
    let lo: u64 = if a_leads { b } else { a };
    let mh: u64 = significand_of(hi);
    let ml: u64 = significand_of(lo);
    let th: u32 = scale_of(hi);
    let tl: u32 = scale_of(lo);
    let sh: bool = sign_of(hi);
    let sl: bool = sign_of(lo);
    let gap: u32 = th - tl;
    let ghost total = units(a) + units(b);
    let ghost unit_lo = pow2(tl as nat) as int;
    proof {
        lemma2_to64();
        lemma2_to64_rest();
        assert(total == units(hi) + units(lo));
        lemma_pow2_pos(tl as nat);
        lemma_pow2_pos(BIAS as nat);
        lemma_pow2_adds(tl as nat, BIAS as nat);
    }
    if gap <= 64 {
        let lift: u128 = pow2_u128(gap);
        proof {
            lemma_pow2_increases(gap as nat, 64);
            lemma_pow2_adds(53, 64);
            lemma_pow2_adds(117, 3);
            lemma_pow2_adds(gap as nat, tl as nat);
            assert(mh * lift < 0x0020_0000_0000_0000 * 0x1_0000_0000_0000_0000) by (nonlinear_arith)
                requires
                    mh < 0x0020_0000_0000_0000,
                    0 < lift <= 0x1_0000_0000_0000_0000,
            ;
        }
        let big: u128 = (mh as u128) * lift;
        let small: u128 = ml as u128;
        proof {
            assert(magnitude(hi) == big * unit_lo) by (nonlinear_arith)
                requires
                    magnitude(hi) == mh * pow2(th as nat),
                    pow2(th as nat) == lift * unit_lo,
                    big == mh * lift,
            ;
            assert(magnitude(lo) == small * unit_lo);
        }
        let negative: bool;
        let sig: u128;
        if sh == sl {
            negative = sh;
            sig = big + small;
        } else if big >= small {
            negative = sh;
            sig = big - small;
        } else {
            negative = sl;
            sig = small - big;
        }
        proof {
            // total is sig * unit_lo, with the sign chosen
            assert(big * unit_lo + small * unit_lo == (big + small) * unit_lo) by (nonlinear_arith);
            assert(big * unit_lo - small * unit_lo == (big - small) * unit_lo) by (nonlinear_arith);
            assert(small * unit_lo - big * unit_lo == (small - big) * unit_lo) by (nonlinear_arith);
            assert(sig == 0 ==> sig * unit_lo == 0);
            assert(sig > 0 ==> sig * unit_lo > 0) by (nonlinear_arith)
                requires
                    unit_lo > 0,
            ;
            assert(total == if negative { -(sig * unit_lo) } else { sig * unit_lo });
        }
        if sig == 0 {
            return if sh && sl { SIGN_BIT } else { 0 };
        }
        let ghost n = (sig * unit_lo) as nat;
        proof {
            assert(sig * (pow2((tl + BIAS) as nat) * 1)
                == n * pow2(BIAS as nat)) by (nonlinear_arith)
                requires
                    n == sig * unit_lo,
                    pow2((tl + BIAS) as nat) == unit_lo * pow2(BIAS as nat),
            ;
            assert((sig + 1) * (pow2((tl + BIAS) as nat) * 1)
                > n * pow2(BIAS as nat)) by (nonlinear_arith)
                requires
                    sig * (pow2((tl + BIAS) as nat) * 1) == n * pow2(BIAS as nat),
                    pow2((tl + BIAS) as nat) == unit_lo * pow2(BIAS as nat),
                    unit_lo > 0,
                    pow2(BIAS as nat) > 0,
            ;
        }
        round_pack(negative, sig, tl + BIAS, false, Ghost(n), Ghost(1))
    } else {
        // the smaller operand lies wholly below the last bit kept
        let base: u128 = (mh as u128) * 8;
        let sticky: bool = ml != 0;
        let sig: u128 = if sticky && sh != sl { base - 1 } else { base };
        let k: u32 = th - 3 + BIAS;
        let ghost step = pow2((th - 3) as nat) as int;
        let ghost n = (if total < 0 { -total } else { total }) as nat;
        proof {
            assert(exponent_field(hi) > 0);
            lemma_pow2_pos((th - 3) as nat);
            lemma_pow2_adds((th - 3) as nat, 3);
            lemma_pow2_adds((th - 3) as nat, BIAS as nat);
            lemma_pow2_adds(53, tl as nat);
            lemma_pow2_increases((53 + tl) as nat, (th - 3) as nat);
            lemma_pow2_adds(56, 64);
            assert(magnitude(hi) == base * step) by (nonlinear_arith)
                requires
                    magnitude(hi) == mh * pow2(th as nat),
                    pow2(th as nat) == step * 8,
                    base == mh * 8,
            ;
            assert(magnitude(lo) < step) by (nonlinear_arith)
                requires
                    magnitude(lo) == ml * unit_lo,
                    ml < 0x0020_0000_0000_0000,
                    0x0020_0000_0000_0000 * unit_lo <= step,
                    unit_lo > 0,
            ;
            assert(ml == 0 ==> magnitude(lo) == 0) by (nonlinear_arith)
                requires
                    magnitude(lo) == ml * unit_lo,
            ;
            assert(ml != 0 ==> magnitude(lo) > 0) by (nonlinear_arith)
                requires
                    magnitude(lo) == ml * unit_lo,
                    unit_lo > 0,
                    ml >= 0,
            ;
            assert(base * step >= step) by (nonlinear_arith)
                requires
                    base >= 1,
                    step > 0,
            ;
            assert((total < 0) == sh);
            assert(n as int == if sh == sl {
                magnitude(hi) as int + magnitude(lo)
            } else {
                magnitude(hi) - magnitude(lo)
            });
            assert(sig * step <= n < (sig + 1) * step
                && (sticky <==> sig * step != n)) by (nonlinear_arith)
                requires
                    n == (if sh == sl {
                        base * step + magnitude(lo)
                    } else {
                        base * step - magnitude(lo)
                    }),
                    0 <= magnitude(lo) < step,
                    sticky <==> magnitude(lo) != 0,
                    sig == (if sticky && sh != sl { base - 1 } else { base as int }),
            ;
            let pbias = pow2(BIAS as nat) as int;
            assert(sig * (pow2(k as nat) * 1) <= n * pbias < (sig + 1) * (pow2(k as nat) * 1)
                && (sticky <==> sig * (pow2(k as nat) * 1) != n * pbias)) by (nonlinear_arith)
                requires
                    sig * step <= n < (sig + 1) * step,
                    sticky <==> sig * step != n,
                    pow2(k as nat) == step * pbias,
                    pbias > 0,
            ;
            assert(sig >= pow2(53));
        }
        round_pack(sh, sig, k, sticky, Ghost(n), Ghost(1))
    }
}

/// Subtracts the second binary64 number from the first.
pub fn minus(a: u64, b: u64) -> (r: u64)
    ensures
        r == difference(a, b),
{
    plus(a, negate(b))
}

} // verus!
