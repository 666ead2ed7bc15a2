//! The remainder of a division that truncates its quotient.

use vstd::prelude::*;
use vstd::arithmetic::power2::{
    pow2, lemma_pow2_pos, lemma_pow2_adds, lemma2_to64, lemma2_to64_rest,
};
use vstd::arithmetic::div_mod::{
    lemma_fundamental_div_mod, lemma_truncate_middle, lemma_mul_mod_noop_left, lemma_small_mod,
    lemma_mod_bound,
};
use crate::binary64::format::{
    sign_bit, is_nan, is_infinite, is_zero, magnitude, finite_bits, exponent_field, NAN, sign_of,
    nan, infinite, zero, significand_of, scale_of, lemma_zero_magnitude,
    lemma_finite_bits_of_magnitude, lemma_magnitude_bound,
};
use crate::binary64::power::{pow2_u128, lemma_pow2_increases};
use crate::binary64::rounding::{round_pack, lemma_rounded_magnitude_exact, BIAS};

verus! {

/// The remainder of `a` by `b`: what is left of `a` when the largest whole
/// multiple of `b` that is no larger in magnitude is taken away. It has the
/// sign of `a` and is exact. The remainder of an infinity, or by a zero, is
/// NaN; the remainder by an infinity is `a`.
pub open spec fn remainder(a: u64, b: u64) -> u64 {
    if is_nan(a) || is_nan(b) || is_infinite(a) || is_zero(b) {
        NAN
    } else if is_infinite(b) {
        a
    } else {
        finite_bits(sign_bit(a), magnitude(a) % magnitude(b))
    }
}

/// Computes the remainder of `a` by `b`.
pub fn modulo(a: u64, b: u64) -> (r: u64)
    ensures
        r == remainder(a, b),
{
    if nan(a) || nan(b) || infinite(a) || zero(b) {
        return NAN;
    }
    if infinite(b) {
        return a;
    }
    let negative: bool = sign_of(a);
    let ma: u64 = significand_of(a);
    let mb: u64 = significand_of(b);
    let ta: u32 = scale_of(a);
    let tb: u32 = scale_of(b);
    let ghost unit_a = pow2(ta as nat) as int;
    let ghost unit_b = pow2(tb as nat) as int;
    proof {
        lemma2_to64();
        lemma2_to64_rest();
        lemma_zero_magnitude(b);
        lemma_magnitude_bound(b);
        lemma_pow2_pos(ta as nat);
        lemma_pow2_pos(tb as nat);
        assert(mb > 0) by (nonlinear_arith)
            requires
                mb * unit_b > 0,
                mb >= 0,
        ;
    }
    let rest: u64;
    let t: u32;
    if ta >= tb {
        let mut left: u32 = ta - tb;
        let mut acc: u64 = ma % mb;
        let ghost mut done: nat = 0;
        proof {
            assert(ma * pow2(0) == ma);
        }
        while left > 0
            invariant
                mb > 0,
                mb < 0x0020_0000_0000_0000,
                done + left == ta - tb,
                acc == (ma * pow2(done)) % (mb as int),
            decreases left,
        {
            let step: u32 = if left > 64 { 64 } else { left };
            let factor: u128 = pow2_u128(step);
            proof {
                lemma2_to64();
                lemma2_to64_rest();
                lemma_pow2_increases(step as nat, 64);
                lemma_pow2_adds(done, step as nat);
                lemma_mod_bound((ma * pow2(done)) as int, mb as int);
                assert(acc * factor
                    < 0x0020_0000_0000_0000 * 0x1_0000_0000_0000_0000) by (nonlinear_arith)
                    requires
                        acc < 0x0020_0000_0000_0000,
                        0 < factor <= 0x1_0000_0000_0000_0000,
                ;
                lemma_mul_mod_noop_left((ma * pow2(done)) as int, factor as int, mb as int);
                assert((ma * pow2(done)) * factor
                    == ma * pow2(done + step as nat)) by (nonlinear_arith)
                    requires
                        pow2(done + step as nat) == pow2(done) * factor,
                ;
                lemma_mod_bound((acc * factor) as int, mb as int);
            }
            acc = (((acc as u128) * factor) % (mb as u128)) as u64;
            left = left - step;
            proof {
                done = done + step as nat;
            }
        }
        rest = acc;
        t = tb;
        proof {
            let x = (ma * pow2(done)) as int;
            lemma_pow2_adds(done, tb as nat);
            lemma_pow2_pos(done);
            assert(magnitude(a) == unit_b * x) by (nonlinear_arith)
                requires
                    magnitude(a) == ma * unit_a,
                    unit_a == pow2(done) * unit_b,
                    x == ma * pow2(done),
            ;
            assert(x >= 0) by (nonlinear_arith)
                requires
                    x == ma * pow2(done),
                    ma >= 0,
                    pow2(done) > 0,
            ;
            lemma_truncate_middle(x, unit_b, mb as int);
            assert(magnitude(b) == unit_b * mb) by (nonlinear_arith)
                requires
                    magnitude(b) == mb * unit_b,
            ;
            assert(magnitude(a) % magnitude(b) == rest * pow2(t as nat)) by (nonlinear_arith)
                requires
                    (unit_b * x) % (unit_b * mb) == unit_b * (x % (mb as int)),
                    magnitude(a) == unit_b * x,
                    magnitude(b) == unit_b * mb,
                    rest == x % (mb as int),
                    pow2(t as nat) == unit_b,
            ;
        }
    } else {
        let gap: u32 = tb - ta;
        proof {
            assert(exponent_field(b) > 0);
            lemma_pow2_adds(gap as nat, ta as nat);
            lemma_pow2_pos(gap as nat);
        }
        if gap >= 53 {
            proof {
                // a is smaller than b
                lemma_pow2_increases(53, gap as nat);
                assert(magnitude(a) < magnitude(b)) by (nonlinear_arith)
                    requires
                        magnitude(a) == ma * unit_a,
                        magnitude(b) == mb * unit_b,
                        unit_b == pow2(gap as nat) * unit_a,
                        ma < 0x0020_0000_0000_0000,
                        mb >= 1,
                        pow2(gap as nat) >= 0x0020_0000_0000_0000,
                        unit_a > 0,
                ;
                lemma_small_mod(magnitude(a), magnitude(b));
                lemma_finite_bits_of_magnitude(a);
            }
            return a;
        }
        let lift: u128 = pow2_u128(gap);
        proof {
            lemma_pow2_increases(gap as nat, 52);
            assert(mb * lift < 0x0020_0000_0000_0000 * 0x0010_0000_0000_0000) by (nonlinear_arith)
                requires
                    mb < 0x0020_0000_0000_0000,
                    0 < lift <= 0x0010_0000_0000_0000,
            ;
            assert(mb * lift > 0) by (nonlinear_arith)
                requires
                    mb > 0,
                    lift > 0,
            ;
        }
        let wide: u128 = (mb as u128) * lift;
        proof {
            lemma_mod_bound(ma as int, wide as int);
            lemma_fundamental_div_mod(ma as int, wide as int);
            assert((ma as int) % (wide as int) <= ma) by (nonlinear_arith)
                requires
                    ma == wide * ((ma as int) / (wide as int)) + (ma as int) % (wide as int),
                    (ma as int) / (wide as int) >= 0,
                    wide > 0,
            ;
        }
        rest = ((ma as u128) % wide) as u64;
        t = ta;
        proof {
            lemma_truncate_middle(ma as int, unit_a, wide as int);
            assert(magnitude(b) == unit_a * wide) by (nonlinear_arith)
                requires
                    magnitude(b) == mb * unit_b,
                    unit_b == lift * unit_a,
                    wide == mb * lift,
            ;
            assert(magnitude(a) % magnitude(b) == rest * pow2(t as nat)) by (nonlinear_arith)
                requires
                    (unit_a * ma) % (unit_a * wide) == unit_a * ((ma as int) % (wide as int)),
                    magnitude(a) == ma * unit_a,
                    magnitude(b) == unit_a * wide,
                    rest == (ma as int) % (wide as int),
                    pow2(t as nat) == unit_a,
            ;
        }
    }
    let ghost n = (rest * pow2(t as nat)) as nat;
    proof {
        lemma_pow2_pos(t as nat);
        lemma_pow2_pos(BIAS as nat);
        lemma_pow2_adds(t as nat, BIAS as nat);
        lemma_pow2_increases(53, 120);
        let pt = pow2(t as nat) as int;
        let pbias = pow2(BIAS as nat) as int;
        assert(rest * (pow2((t + BIAS) as nat) * 1) == n * pbias) by (nonlinear_arith)
            requires
                n == rest * pt,
                pow2((t + BIAS) as nat) == pt * pbias,
        ;
        assert((rest + 1) * (pow2((t + BIAS) as nat) * 1) > n * pbias) by (nonlinear_arith)
            requires
                rest * (pow2((t + BIAS) as nat) * 1) == n * pbias,
                pow2((t + BIAS) as nat) == pt * pbias,
                pt > 0,
                pbias > 0,
        ;
        lemma_rounded_magnitude_exact(rest as nat, t as nat);
        lemma_mod_bound(magnitude(a) as int, magnitude(b) as int);
    }
    round_pack(negative, rest as u128, t + BIAS, false, Ghost(n), Ghost(1))
}

} // verus!
