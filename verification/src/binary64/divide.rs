//! Division.

use vstd::prelude::*;
use vstd::arithmetic::power2::{
    pow2, lemma_pow2_pos, lemma_pow2_adds, lemma2_to64, lemma2_to64_rest,
};
use vstd::arithmetic::div_mod::lemma_fundamental_div_mod;
use crate::binary64::format::{
    sign_bit, is_nan, is_infinite, is_zero, magnitude, significand, infinity_bits, zero_bits, NAN,
    INFINITY, SIGN_BIT, sign_of, nan, infinite, zero, significand_of, scale_of,
    lemma_zero_magnitude,
};
use crate::binary64::power::{bit_length, pow2_u64, lemma_bit_len_bounds, lemma_small_bit_len};
use crate::binary64::rounding::{rounded, round_pack, lemma_rounded_zero, BIAS};

verus! {

/// The quotient of two binary64 numbers: the exact quotient of their values,
/// rounded. A nonzero number over a zero is an infinity; a zero over a zero
/// and an infinity over an infinity are NaN.
pub open spec fn quotient(a: u64, b: u64) -> u64 {
    let negative = sign_bit(a) != sign_bit(b);
    if is_nan(a) || is_nan(b) {
        NAN
    } else if is_infinite(a) {
        if is_infinite(b) {
            NAN
        } else {
            infinity_bits(negative)
        }
    } else if is_infinite(b) {
        zero_bits(negative)
    } else if is_zero(b) {
        if is_zero(a) {
            NAN
        } else {
            infinity_bits(negative)
        }
    } else {
        rounded(negative, magnitude(a) * pow2(1074), magnitude(b))
    }
}

/// Divides one binary64 number by another.
pub fn divide(a: u64, b: u64) -> (r: u64)
    ensures
        r == quotient(a, b),
{
    let negative: bool = sign_of(a) != sign_of(b);
    let sign: u64 = if negative { SIGN_BIT } else { 0 };
    if nan(a) || nan(b) {
        return NAN;
    }
    if infinite(a) {
        return if infinite(b) { NAN } else { sign + INFINITY };
    }
    if infinite(b) {
        return sign;
    }
    if zero(b) {
        return if zero(a) { NAN } else { sign + INFINITY };
    }
    let ma: u64 = significand_of(a);
    let mb: u64 = significand_of(b);
    let ta: u32 = scale_of(a);
    let tb: u32 = scale_of(b);
    proof {
        lemma2_to64();
        lemma2_to64_rest();
        lemma_zero_magnitude(a);
        lemma_zero_magnitude(b);
        lemma_pow2_pos(tb as nat);
        lemma_pow2_pos(1074);
        assert(mb > 0) by (nonlinear_arith)
            requires
                mb * pow2(tb as nat) > 0,
                mb >= 0,
        ;
    }
    if ma == 0 {
        proof {
            assert(magnitude(a) == 0) by (nonlinear_arith)
                requires
                    magnitude(a) == ma * pow2(ta as nat),
                    ma == 0,
            ;
            assert(magnitude(a) * pow2(1074) == 0) by (nonlinear_arith)
                requires
                    magnitude(a) == 0,
            ;
            lemma_rounded_zero(negative, magnitude(b));
        }
        return sign;
    }
    // bring the dividend's significand up to fifty-three bits
    let la: u32 = bit_length(ma as u128);
    proof {
        lemma_bit_len_bounds(ma as nat);
        lemma_small_bit_len(ma as nat, 53);
    }
    let z: u32 = 53 - la;
    let lift: u64 = pow2_u64(z);
    proof {
        lemma_pow2_adds(la as nat, z as nat);
        lemma_pow2_adds((la - 1) as nat, z as nat);
        assert(ma * lift < pow2(la as nat) * lift) by (nonlinear_arith)
            requires
                ma < pow2(la as nat),
                lift > 0,
        ;
        assert(ma * lift >= pow2((la - 1) as nat) * lift) by (nonlinear_arith)
            requires
                ma >= pow2((la - 1) as nat),
                lift > 0,
        ;
    }
    let top: u64 = ma * lift;
    let num: u128 = (top as u128) * 0x1_0000_0000_0000_0000u128;
    let q: u128 = num / (mb as u128);
    let rest: u128 = num % (mb as u128);
    let k: u32 = ta + (BIAS + 1074 - 64) - z - tb;
    let ghost n = magnitude(a) * pow2(1074);
    let ghost d = magnitude(b);
    proof {
        lemma_pow2_adds(56, 64);
        lemma_pow2_pos(120);
        lemma_fundamental_div_mod(num as int, mb as int);
        assert(q <= num) by (nonlinear_arith)
            requires
                num == mb * q + rest,
                mb >= 1,
                rest >= 0,
                q >= 0,
        ;
        assert(q >= 0x8000_0000_0000_0000) by (nonlinear_arith)
            requires
                num == mb * q + rest,
                rest < mb,
                mb < 0x0020_0000_0000_0000,
                num >= 0x0010_0000_0000_0000 * 0x1_0000_0000_0000_0000,
        ;
        // the common factor of both sides of the bracket
        let c = pow2((k + tb) as nat) as int;
        lemma_pow2_pos((k + tb) as nat);
        lemma_pow2_adds(k as nat, tb as nat);
        lemma_pow2_adds((k + tb) as nat, (z + 64) as nat);
        lemma_pow2_adds(z as nat, 64);
        lemma_pow2_adds(ta as nat, 1074);
        lemma_pow2_adds((ta + 1074) as nat, BIAS as nat);
        assert(k + tb + z + 64 == ta + 1074 + BIAS);
        let pk = pow2(k as nat) as int;
        let ptb = pow2(tb as nat) as int;
        let pta = pow2(ta as nat) as int;
        let pbias = pow2(BIAS as nat) as int;
        let p1074 = pow2(1074) as int;
        assert(n * pbias == num * c) by (nonlinear_arith)
            requires
                n == (ma * pta) * p1074,
                num == ma * lift * 0x1_0000_0000_0000_0000,
                c * (lift * 0x1_0000_0000_0000_0000) == pta * p1074 * pbias,
        ;
        assert(pk * d == mb * c) by (nonlinear_arith)
            requires
                d == mb * ptb,
                c == pk * ptb,
        ;
        assert(q * (pk * d) <= n * pbias) by (nonlinear_arith)
            requires
                pk * d == mb * c,
                n * pbias == num * c,
                num == mb * q + rest,
                rest >= 0,
                c > 0,
        ;
        assert(n * pbias < (q + 1) * (pk * d)) by (nonlinear_arith)
            requires
                pk * d == mb * c,
                n * pbias == num * c,
                num == mb * q + rest,
                rest < mb,
                c > 0,
        ;
        assert((rest != 0) <==> (q * (pk * d) != n * pbias)) by (nonlinear_arith)
            requires
                pk * d == mb * c,
                n * pbias == num * c,
                num == mb * q + rest,
                rest >= 0,
                c > 0,
        ;
    }
    round_pack(negative, q, k, rest != 0, Ghost(n), Ghost(d))
}

} // verus!
