//! What the rounding of every operation is: to the nearest number that the
//! format holds, to the even one of two equally near, and to the exact
//! value itself where the format holds it.

use vstd::prelude::*;
use vstd::arithmetic::div_mod::{lemma_fundamental_div_mod, lemma_mod_bound, lemma_truncate_middle};
use vstd::arithmetic::power2::{pow2, lemma_pow2_pos, lemma_pow2_adds};
use crate::binary64::accuracy::{
    distance, lemma_finite_bits_value, lemma_rounded_is_nearest, lemma_rounded_significand,
    lemma_rounded_value,
};
use crate::binary64::divide::quotient;
use crate::binary64::format::{
    fits, representable, is_finite, is_zero, magnitude, units, sign_bit, significand, scale,
    spacing_exp, zero_bits, lemma_field_bounds, lemma_fits, lemma_magnitude_bound,
    lemma_zero_magnitude,
};
use crate::binary64::multiply::product;
use crate::binary64::remainder::remainder;
use crate::binary64::sum::sum;
use crate::binary64::rounding::{round_half_even, rounded_magnitude};

verus! {

/// The rounded magnitude has at most fifty-three significant bits, and no
/// magnitude of at most fifty-three significant bits lies nearer to the
/// exact value `n / d`.
pub proof fn rounding_is_to_nearest(n: nat, d: nat, v: nat)
    requires
        d > 0,
        fits(v),
    ensures
        fits(rounded_magnitude(n, d)),
        distance(rounded_magnitude(n, d) * d, n) <= distance(v * d, n),
{
    lemma_rounded_is_nearest(n, d, v);
}

/// Where the exact value lies midway between two neighbours, the rounded
/// magnitude is the one of even significand.
pub proof fn ties_go_to_even(n: nat, d: nat)
    requires
        d > 0,
        2 * distance(rounded_magnitude(n, d) * d, n) == d * pow2(spacing_exp(n / d)),
    ensures
        round_half_even(n, d * pow2(spacing_exp(n / d))) % 2 == 0,
        rounded_magnitude(n, d) == round_half_even(n, d * pow2(spacing_exp(n / d))) * pow2(
            spacing_exp(n / d),
        ),
{
    let j = spacing_exp(n / d);
    let dd = d * pow2(j);
    let m = round_half_even(n, dd);
    let q = n / dd;
    lemma_rounded_significand(n, d);
    lemma_fundamental_div_mod(n as int, dd as int);
    lemma_mod_bound(n as int, dd as int);
    assert(rounded_magnitude(n, d) * d == m * dd) by (nonlinear_arith)
        requires
            rounded_magnitude(n, d) == m * pow2(j),
            dd == d * pow2(j),
    ;
    assert((q + 1) * dd == q * dd + dd && dd * q == q * dd) by (nonlinear_arith);
}

/// An exact value of at most fifty-three significant bits is not moved.
pub proof fn what_fits_is_kept(n: nat, d: nat, v: nat)
    requires
        d > 0,
        fits(v),
        n == v * d,
    ensures
        rounded_magnitude(n, d) == v,
{
    lemma_rounded_is_nearest(n, d, v);
    assert(rounded_magnitude(n, d) == v) by (nonlinear_arith)
        requires
            rounded_magnitude(n, d) * d == v * d,
            d > 0,
    ;
}

/// A product that the format holds is exact: where the magnitudes of two
/// finite numbers multiply to that of a finite number, the product is that
/// number, of the sign that the two signs give.
pub proof fn an_exact_product_is_kept(a: u64, b: u64, v: nat)
    requires
        is_finite(a),
        is_finite(b),
        representable(v),
        magnitude(a) * magnitude(b) == v * pow2(1074),
    ensures
        is_finite(product(a, b)),
        magnitude(product(a, b)) == v,
        sign_bit(product(a, b)) == (sign_bit(a) != sign_bit(b)),
{
    lemma_pow2_pos(1074);
    lemma_field_bounds(a);
    lemma_field_bounds(b);
    what_fits_is_kept(magnitude(a) * magnitude(b), pow2(1074), v);
    lemma_rounded_value(sign_bit(a) != sign_bit(b), magnitude(a) * magnitude(b), pow2(1074));
}

/// A quotient that the format holds is exact: where the magnitude of a
/// finite number is that of a finite number times the magnitude of the
/// divisor, the quotient is that number, of the sign that the two signs
/// give.
pub proof fn an_exact_quotient_is_kept(a: u64, b: u64, v: nat)
    requires
        is_finite(a),
        is_finite(b),
        !is_zero(b),
        representable(v),
        magnitude(a) * pow2(1074) == v * magnitude(b),
    ensures
        is_finite(quotient(a, b)),
        magnitude(quotient(a, b)) == v,
        sign_bit(quotient(a, b)) == (sign_bit(a) != sign_bit(b)),
{
    lemma_field_bounds(a);
    lemma_field_bounds(b);
    lemma_zero_magnitude(b);
    what_fits_is_kept(magnitude(a) * pow2(1074), magnitude(b), v);
    lemma_rounded_value(sign_bit(a) != sign_bit(b), magnitude(a) * pow2(1074), magnitude(b));
}

/// A sum that the format holds is exact: where the values of two finite
/// numbers add up to that of a finite number other than zero, the sum is
/// that number. Where they add up to zero, the sum is a zero.
pub proof fn an_exact_sum_is_kept(a: u64, b: u64)
    requires
        is_finite(a),
        is_finite(b),
        units(a) + units(b) >= 0 ==> representable((units(a) + units(b)) as nat),
        units(a) + units(b) < 0 ==> representable((-(units(a) + units(b))) as nat),
    ensures
        is_finite(sum(a, b)),
        units(sum(a, b)) == units(a) + units(b),
{
    let total = units(a) + units(b);
    lemma_field_bounds(a);
    lemma_field_bounds(b);
    if total == 0 {
        lemma_zero_magnitude(zero_bits(sign_bit(a) && sign_bit(b)));
    } else if total < 0 {
        let v = (-total) as nat;
        assert(v == v * 1);
        what_fits_is_kept(v, 1, v);
        lemma_rounded_value(true, v, 1);
    } else {
        let v = total as nat;
        assert(v == v * 1);
        what_fits_is_kept(v, 1, v);
        lemma_rounded_value(false, v, 1);
    }
}

/// The remainder is exact: it is the finite number of the sign of `a` whose
/// magnitude is what the magnitude of `a` leaves over that of `b`.
pub proof fn the_remainder_is_exact(a: u64, b: u64)
    requires
        is_finite(a),
        is_finite(b),
        !is_zero(b),
    ensures
        is_finite(remainder(a, b)),
        sign_bit(remainder(a, b)) == sign_bit(a),
        magnitude(remainder(a, b)) == magnitude(a) % magnitude(b),
{
    let ma = significand(a);
    let mb = significand(b);
    let ta = scale(a);
    let tb = scale(b);
    let x = magnitude(a);
    let y = magnitude(b);
    let pa = pow2(ta) as int;
    let pb = pow2(tb) as int;
    lemma_field_bounds(a);
    lemma_field_bounds(b);
    lemma_zero_magnitude(b);
    lemma_magnitude_bound(b);
    lemma_pow2_pos(ta);
    lemma_pow2_pos(tb);
    lemma_mod_bound(x as int, y as int);
    assert(mb > 0) by (nonlinear_arith)
        requires
            mb * pb > 0,
            mb >= 0,
    ;
    if ta >= tb {
        let gap = (ta - tb) as nat;
        let wide = (ma * pow2(gap)) as int;
        lemma_pow2_adds(gap, tb);
        lemma_pow2_pos(gap);
        assert(x == pb * wide && y == pb * mb && wide >= 0) by (nonlinear_arith)
            requires
                x == ma * pa,
                y == mb * pb,
                pa == pow2(gap) * pb,
                wide == ma * pow2(gap),
                pow2(gap) > 0,
        ;
        lemma_truncate_middle(wide, pb, mb as int);
        lemma_mod_bound(wide, mb as int);
        assert(x % y == (wide % (mb as int)) * pb) by (nonlinear_arith)
            requires
                (pb * wide) % (pb * mb) == pb * (wide % (mb as int)),
                x == pb * wide,
                y == pb * mb,
        ;
        lemma_fits((wide % (mb as int)) as nat, tb);
    } else {
        let gap = (tb - ta) as nat;
        let wide = (mb * pow2(gap)) as int;
        lemma_pow2_adds(gap, ta);
        lemma_pow2_pos(gap);
        assert(x == pa * ma && y == pa * wide && wide > 0) by (nonlinear_arith)
            requires
                x == ma * pa,
                y == mb * pb,
                pb == pow2(gap) * pa,
                wide == mb * pow2(gap),
                pow2(gap) > 0,
                mb > 0,
        ;
        lemma_truncate_middle(ma as int, pa, wide);
        lemma_mod_bound(ma as int, wide);
        lemma_fundamental_div_mod(ma as int, wide);
        assert((ma as int) % wide <= ma) by (nonlinear_arith)
            requires
                ma == wide * ((ma as int) / wide) + (ma as int) % wide,
                (ma as int) / wide >= 0,
                wide > 0,
        ;
        assert(x % y == ((ma as int) % wide) * pa) by (nonlinear_arith)
            requires
                (pa * ma) % (pa * wide) == pa * ((ma as int) % wide),
                x == pa * ma,
                y == pa * wide,
        ;
        lemma_fits(((ma as int) % wide) as nat, ta);
    }
    lemma_finite_bits_value(sign_bit(a), x % y);
}

} // verus!
