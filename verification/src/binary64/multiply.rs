//! Multiplication.

use vstd::prelude::*;
use vstd::arithmetic::power2::{
    pow2, lemma_pow2_pos, lemma_pow2_adds, lemma2_to64, lemma2_to64_rest,
};
use crate::binary64::format::{
    sign_bit, is_nan, is_infinite, is_zero, magnitude, infinity_bits, NAN, INFINITY, SIGN_BIT,
    sign_of, nan, infinite, zero, significand_of, scale_of,
};
use crate::binary64::rounding::{rounded, round_pack, BIAS};

verus! {

/// The product of two binary64 numbers: the exact product of their values,
/// rounded. An infinity times a zero is NaN.
pub open spec fn product(a: u64, b: u64) -> u64 {
    let negative = sign_bit(a) != sign_bit(b);
    if is_nan(a) || is_nan(b) {
        NAN
    } else if is_infinite(a) || is_infinite(b) {
        if is_zero(a) || is_zero(b) {
            NAN
        } else {
            infinity_bits(negative)
        }
    } else {
        rounded(negative, magnitude(a) * magnitude(b), pow2(1074))
    }
}

/// The product does not depend on the order of its operands.
pub proof fn lemma_product_commutes(a: u64, b: u64)
    ensures
        product(a, b) == product(b, a),
{
    assert(magnitude(a) * magnitude(b) == magnitude(b) * magnitude(a)) by (nonlinear_arith);
}

/// Multiplies two binary64 numbers.
pub fn multiply(a: u64, b: u64) -> (r: u64)
    ensures
        r == product(a, b),
{
    let negative: bool = sign_of(a) != sign_of(b);
    if nan(a) || nan(b) {
        return NAN;
    }
    if infinite(a) || infinite(b) {
        if zero(a) || zero(b) {
            return NAN;
        }
        return if negative { SIGN_BIT + INFINITY } else { INFINITY };
    }
    let ma: u64 = significand_of(a);
    let mb: u64 = significand_of(b);
    let ta: u32 = scale_of(a);
    let tb: u32 = scale_of(b);
    proof {
        lemma2_to64();
        lemma2_to64_rest();
        lemma_pow2_adds(53, 53);
        lemma_pow2_adds(106, 14);
        lemma_pow2_pos(14);
        assert(ma * mb < pow2(53) * pow2(53)) by (nonlinear_arith)
            requires
                ma < pow2(53),
                mb < pow2(53),
        ;
    }
    let sig: u128 = (ma as u128) * (mb as u128);
    let k: u32 = ta + tb + (BIAS - 1074);
    let ghost n = magnitude(a) * magnitude(b);
    let ghost d = pow2(1074);
    proof {
        lemma_pow2_pos(1074);
        lemma_pow2_adds(ta as nat, tb as nat);
        lemma_pow2_adds((ta + tb) as nat, BIAS as nat);
        lemma_pow2_adds(k as nat, 1074);
        lemma_pow2_pos((k + 1074) as nat);
        let pa = pow2(ta as nat) as int;
        let pb = pow2(tb as nat) as int;
        let pbias = pow2(BIAS as nat) as int;
        assert(sig * (pow2(k as nat) * d) == n * pbias) by (nonlinear_arith)
            requires
                sig == ma * mb,
                n == (ma * pa) * (mb * pb),
                pow2(k as nat) * d == pa * pb * pbias,
        ;
        assert((sig + 1) * (pow2(k as nat) * d) > n * pbias) by (nonlinear_arith)
            requires
                sig * (pow2(k as nat) * d) == n * pbias,
                pow2(k as nat) * d > 0,
        ;
    }
    round_pack(negative, sig, k, false, Ghost(n), Ghost(d))
}

} // verus!
