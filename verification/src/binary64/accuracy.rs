//! How far a rounded result lies from the exact value, and that rounding
//! keeps the order of the exact values.

use vstd::prelude::*;
use vstd::arithmetic::power2::{
    pow2, lemma_pow2_pos, lemma_pow2_adds, lemma_pow2_unfold, lemma2_to64, lemma2_to64_rest,
};
use vstd::arithmetic::div_mod::{
    lemma_div_denominator, lemma_fundamental_div_mod, lemma_div_is_ordered, lemma_mod_bound,
};
use crate::binary64::format::{
    sign_bit, is_nan, is_finite, is_infinite, magnitude, significand, scale, exponent_field,
    fraction_field, spacing_exp, fits, representable, finite_bits, infinity_bits, sign_pattern,
    lemma_spacing_exp_quotient, lemma_spacing_exp_unique, lemma_fits,
};
use crate::binary64::power::lemma_pow2_increases;
use crate::binary64::rounding::{round_half_even, rounded_magnitude, rounded, lemma_pack};

verus! {

/// The nearest integer lies within one half of the exact quotient, and is the
/// quotient rounded down or up.
pub proof fn lemma_round_half_even_near(n: nat, d: nat)
    requires
        d > 0,
    ensures
        n / d <= round_half_even(n, d) <= n / d + 1,
        2 * (round_half_even(n, d) * d - n) <= d,
        2 * (n - round_half_even(n, d) * d) <= d,
{
    let q = n / d;
    let r = n % d;
    lemma_fundamental_div_mod(n as int, d as int);
    lemma_mod_bound(n as int, d as int);
    assert((q + 1) * d == q * d + d) by (nonlinear_arith);
    assert(d * q == q * d) by (nonlinear_arith);
}

/// The significand that rounding arrives at: at most 2^53, and at least 2^52
/// above the subnormal range.
pub proof fn lemma_rounded_significand(n: nat, d: nat)
    requires
        d > 0,
    ensures
        ({
            let j = spacing_exp(n / d);
            let m = round_half_even(n, d * pow2(j));
            &&& rounded_magnitude(n, d) == m * pow2(j)
            &&& n / (d * pow2(j)) < 0x0020_0000_0000_0000
            &&& j > 0 ==> n / (d * pow2(j)) >= 0x0010_0000_0000_0000
            &&& n / (d * pow2(j)) <= m <= n / (d * pow2(j)) + 1
            &&& d * pow2(j) > 0
        }),
{
    let j = spacing_exp(n / d);
    lemma_pow2_pos(j);
    lemma_spacing_exp_quotient(n / d);
    lemma_div_denominator(n as int, d as int, pow2(j) as int);
    assert(d * pow2(j) > 0) by (nonlinear_arith)
        requires
            d > 0,
            pow2(j) > 0,
    ;
    lemma_round_half_even_near(n, d * pow2(j));
}

/// The pattern `sign + j * 2^52 + m` is the finite number of significand `m`
/// at scale `j`.
pub proof fn lemma_packed_fields(negative: bool, m: nat, j: nat)
    requires
        m <= 0x0020_0000_0000_0000,
        j <= 2045,
        j > 0 ==> m >= 0x0010_0000_0000_0000,
        !(j == 2045 && m == 0x0020_0000_0000_0000),
    ensures
        ({
            let p = (sign_pattern(negative) + j * 0x0010_0000_0000_0000 + m) as u64;
            &&& p == sign_pattern(negative) + j * 0x0010_0000_0000_0000 + m
            &&& is_finite(p)
            &&& sign_bit(p) == negative
            &&& magnitude(p) == m * pow2(j)
        }),
{
    lemma2_to64();
    let p = (sign_pattern(negative) + j * 0x0010_0000_0000_0000 + m) as u64;
    if m < 0x0010_0000_0000_0000 {
        assert(j == 0);
        assert(exponent_field(p) == 0);
        assert(fraction_field(p) == m);
    } else if m < 0x0020_0000_0000_0000 {
        assert(exponent_field(p) == j + 1);
        assert(fraction_field(p) == m - 0x0010_0000_0000_0000);
    } else {
        assert(exponent_field(p) == j + 2);
        assert(fraction_field(p) == 0);
        lemma_pow2_unfold(j + 1);
        assert(0x0010_0000_0000_0000 * pow2(j + 1) == m * pow2(j)) by (nonlinear_arith)
            requires
                m == 0x0020_0000_0000_0000,
                pow2(j + 1) == 2 * pow2(j),
        ;
    }
}

/// The finite pattern of a sign and a magnitude that the format holds has
/// that sign and that magnitude.
pub proof fn lemma_finite_bits_value(negative: bool, m: nat)
    requires
        representable(m),
    ensures
        is_finite(finite_bits(negative, m)),
        sign_bit(finite_bits(negative, m)) == negative,
        magnitude(finite_bits(negative, m)) == m,
{
    let j = spacing_exp(m);
    let k = m / pow2(j);
    lemma_pow2_pos(j);
    lemma_spacing_exp_quotient(m);
    lemma_fundamental_div_mod(m as int, pow2(j) as int);
    assert(m == k * pow2(j)) by (nonlinear_arith)
        requires
            m == pow2(j) * k + m % pow2(j),
            m % pow2(j) == 0,
    ;
    if j > 2045 {
        lemma_pow2_adds(52, 2046);
        lemma_pow2_increases(2046, j);
        lemma2_to64();
        lemma2_to64_rest();
        assert(k * pow2(j) >= pow2(52) * pow2(2046)) by (nonlinear_arith)
            requires
                k >= pow2(52),
                pow2(j) >= pow2(2046),
        ;
    }
    lemma_packed_fields(negative, k, j);
}

/// What `rounded` yields: never a NaN, of the sign asked for, and of the
/// rounded magnitude unless that lies beyond the finite numbers, where it is
/// the infinity.
pub proof fn lemma_rounded_value(negative: bool, n: nat, d: nat)
    requires
        d > 0,
    ensures
        !is_nan(rounded(negative, n, d)),
        sign_bit(rounded(negative, n, d)) == negative,
        is_finite(rounded(negative, n, d)) <==> rounded_magnitude(n, d) < pow2(2098),
        is_finite(rounded(negative, n, d)) ==> magnitude(rounded(negative, n, d))
            == rounded_magnitude(n, d),
        !is_finite(rounded(negative, n, d)) ==> rounded(negative, n, d) == infinity_bits(negative),
{
    let j = spacing_exp(n / d);
    let m = round_half_even(n, d * pow2(j));
    lemma_rounded_significand(n, d);
    lemma2_to64();
    lemma2_to64_rest();
    assert(is_infinite(infinity_bits(negative)) && sign_bit(infinity_bits(negative)) == negative);
    if j <= 2045 {
        lemma_pack(negative, m, j);
        if m * pow2(j) < pow2(2098) {
            if j == 2045 && m == 0x0020_0000_0000_0000 {
                lemma_pow2_adds(53, 2045);
            }
            lemma_packed_fields(negative, m, j);
        }
    } else {
        lemma_pow2_adds(52, 2046);
        lemma_pow2_increases(2046, j);
        assert(m * pow2(j) >= pow2(52) * pow2(2046)) by (nonlinear_arith)
            requires
                m >= pow2(52),
                pow2(j) >= pow2(2046),
        ;
    }
}

/// How far apart two counts lie.
pub open spec fn distance(a: nat, b: nat) -> int {
    if a >= b {
        a - b
    } else {
        b - a
    }
}

/// Rounding is to nearest: the rounded magnitude has at most fifty-three
/// significant bits, and no magnitude of at most fifty-three significant
/// bits lies nearer to the exact value.
pub proof fn lemma_rounded_is_nearest(n: nat, d: nat, v: nat)
    requires
        d > 0,
        fits(v),
    ensures
        fits(rounded_magnitude(n, d)),
        distance(rounded_magnitude(n, d) * d, n) <= distance(v * d, n),
{
    let j = spacing_exp(n / d);
    let dd = d * pow2(j);
    let m = round_half_even(n, dd);
    let q = n / dd;
    let r = n % dd;
    let big = rounded_magnitude(n, d);
    let pj = pow2(j);
    lemma_rounded_significand(n, d);
    lemma_round_half_even_near(n, dd);
    lemma_fundamental_div_mod(n as int, dd as int);
    lemma_mod_bound(n as int, dd as int);
    lemma_pow2_pos(j);
    lemma_fits(m, j);
    assert(big * d == m * dd) by (nonlinear_arith)
        requires
            big == m * pj,
            dd == d * pj,
    ;
    assert((q + 1) * dd == q * dd + dd && dd * q == q * dd) by (nonlinear_arith);
    // the rounded value is the nearer of the two neighbours on the grid
    assert(distance(big * d, n) <= r && distance(big * d, n) <= dd - r);
    // and nothing that fits lies strictly between the two
    let low = q * pj;
    if low < v < low + pj {
        if j > 0 {
            lemma_fundamental_div_mod(v as int, pj as int);
            lemma_mod_bound(v as int, pj as int);
            assert(v / pj == q) by (nonlinear_arith)
                requires
                    v == pj * (v / pj) + v % pj,
                    0 <= v % pj < pj,
                    q * pj < v < q * pj + pj,
            ;
            lemma_spacing_exp_unique(v, j);
            assert(false) by (nonlinear_arith)
                requires
                    v == pj * (v / pj) + v % pj,
                    v % pj == 0,
                    v / pj == q,
                    q * pj < v,
            ;
        } else {
            lemma2_to64();
            assert(q * pj == q) by (nonlinear_arith)
                requires
                    pj == 1,
            ;
        }
    }
    if v <= low {
        assert(v * d <= q * dd) by (nonlinear_arith)
            requires
                v <= q * pj,
                dd == d * pj,
                d > 0,
        ;
    } else {
        assert(v * d >= q * dd + dd) by (nonlinear_arith)
            requires
                v >= q * pj + pj,
                dd == d * pj,
                d > 0,
        ;
    }
}

/// Above the subnormal range, rounding moves a value by at most one part in
/// 2^53 of it.
pub proof fn lemma_rounded_magnitude_near(n: nat, d: nat)
    requires
        d > 0,
        n >= 0x0010_0000_0000_0000 * d,
    ensures
        0x0020_0000_0000_0000 * (rounded_magnitude(n, d) * d - n) <= n,
        0x0020_0000_0000_0000 * (n - rounded_magnitude(n, d) * d) <= n,
{
    let j = spacing_exp(n / d);
    let dd = d * pow2(j);
    let m = round_half_even(n, dd);
    let q = n / dd;
    lemma_rounded_significand(n, d);
    lemma_round_half_even_near(n, dd);
    lemma_fundamental_div_mod(n as int, dd as int);
    lemma_mod_bound(n as int, dd as int);
    if j == 0 {
        lemma2_to64();
        assert(dd == d);
        // n / d >= 2^52
        assert(q >= 0x0010_0000_0000_0000) by (nonlinear_arith)
            requires
                n == d * q + n % d,
                n % d < d,
                n >= 0x0010_0000_0000_0000 * d,
                d > 0,
        ;
    }
    assert(n >= 0x0010_0000_0000_0000 * dd) by (nonlinear_arith)
        requires
            n == dd * q + n % dd,
            n % dd >= 0,
            q >= 0x0010_0000_0000_0000,
            dd > 0,
    ;
    assert(rounded_magnitude(n, d) * d == m * dd) by (nonlinear_arith)
        requires
            rounded_magnitude(n, d) == m * pow2(j),
            dd == d * pow2(j),
    ;
}

/// The spacing grows with the magnitude.
pub proof fn lemma_spacing_exp_monotone(f1: nat, f2: nat)
    requires
        f1 <= f2,
    ensures
        spacing_exp(f1) <= spacing_exp(f2),
    decreases f2,
{
    if f1 >= 0x0020_0000_0000_0000 {
        lemma_spacing_exp_monotone(f1 / 2, f2 / 2);
    }
}

/// The nearest integer grows with the numerator.
pub proof fn lemma_round_half_even_monotone(n1: nat, n2: nat, d: nat)
    requires
        d > 0,
        n1 <= n2,
    ensures
        round_half_even(n1, d) <= round_half_even(n2, d),
{
    lemma_fundamental_div_mod(n1 as int, d as int);
    lemma_fundamental_div_mod(n2 as int, d as int);
    lemma_div_is_ordered(n1 as int, n2 as int, d as int);
    let q1 = n1 / d;
    let q2 = n2 / d;
    if q1 == q2 {
        assert(d * q1 == d * q2);
        assert(n1 % d <= n2 % d);
    }
}

/// Rounding keeps the order of the exact values.
pub proof fn lemma_rounded_magnitude_monotone(n1: nat, n2: nat, d: nat)
    requires
        d > 0,
        n1 <= n2,
    ensures
        rounded_magnitude(n1, d) <= rounded_magnitude(n2, d),
{
    let j1 = spacing_exp(n1 / d);
    let j2 = spacing_exp(n2 / d);
    let m1 = round_half_even(n1, d * pow2(j1));
    let m2 = round_half_even(n2, d * pow2(j2));
    lemma_div_is_ordered(n1 as int, n2 as int, d as int);
    lemma_spacing_exp_monotone(n1 / d, n2 / d);
    lemma_rounded_significand(n1, d);
    lemma_rounded_significand(n2, d);
    lemma_pow2_pos(j1);
    if j1 == j2 {
        lemma_round_half_even_monotone(n1, n2, d * pow2(j1));
        assert(m1 * pow2(j1) <= m2 * pow2(j1)) by (nonlinear_arith)
            requires
                m1 <= m2,
                pow2(j1) > 0,
        ;
    } else {
        lemma_pow2_unfold(j1 + 1);
        lemma_pow2_increases(j1 + 1, j2);
        assert(m1 * pow2(j1) <= m2 * pow2(j2)) by (nonlinear_arith)
            requires
                m1 <= 0x0020_0000_0000_0000,
                m2 >= 0x0010_0000_0000_0000,
                pow2(j2) >= 2 * pow2(j1),
                pow2(j1) > 0,
        ;
    }
}

} // verus!
