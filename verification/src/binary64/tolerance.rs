//! Relative error across several operations.
//!
//! Errors are counted in parts of 2^52. One rounding above the subnormal
//! range moves a value by at most half a part; a product or quotient of a
//! value known to `k` parts is known to `k + 2` parts.

use vstd::prelude::*;
use vstd::arithmetic::power2::{
    pow2, lemma_pow2_pos, lemma_pow2_adds, lemma2_to64, lemma2_to64_rest,
};
use crate::binary64::accuracy::{lemma_rounded_value, lemma_rounded_magnitude_near};
use crate::binary64::divide::quotient;
use crate::binary64::format::{
    sign_bit, is_finite, magnitude, exponent_field, significand, scale, lemma_field_bounds,
    lemma_zero_magnitude,
};
use crate::binary64::multiply::product;
use crate::binary64::power::lemma_pow2_increases;
use crate::binary64::rounding::{rounded, rounded_magnitude};

verus! {

/// Whether `m` lies within `k` parts in 2^52 of the rational number `n / d`.
pub open spec fn near(m: nat, n: nat, d: nat, k: nat) -> bool {
    &&& (0x0010_0000_0000_0000 - k) * n <= 0x0010_0000_0000_0000 * (m * d)
    &&& 0x0010_0000_0000_0000 * (m * d) <= (0x0010_0000_0000_0000 + k) * n
}

/// Whether `a` is a finite number of the sign of `b`, within `k` parts in
/// 2^52 of `b`.
pub open spec fn close(a: u64, b: u64, k: nat) -> bool {
    &&& is_finite(a)
    &&& is_finite(b)
    &&& sign_bit(a) == sign_bit(b)
    &&& 0x0010_0000_0000_0000 * (magnitude(a) - magnitude(b)) <= k * magnitude(b)
    &&& 0x0010_0000_0000_0000 * (magnitude(b) - magnitude(a)) <= k * magnitude(b)
}

/// Whether `x` is finite with a magnitude from 2^lo up to, but not
/// including, 2^hi units.
pub open spec fn in_range(x: u64, lo: nat, hi: nat) -> bool {
    is_finite(x) && pow2(lo) <= magnitude(x) < pow2(hi)
}

/// A number is known exactly.
pub proof fn lemma_near_itself(m: nat)
    ensures
        near(m, m, 1, 0),
{
    assert(m * 1 == m);
}

/// A value known to `k` parts, scaled by a ratio and then moved by at most
/// one part, is known to `k + 2` parts.
pub proof fn lemma_near_compose(m0: nat, n0: nat, d0: nat, k: nat, y: nat, cn: nat, cd: nat)
    requires
        near(m0, n0, d0, k),
        near(y, m0 * cn, cd, 1),
        k <= 1000,
    ensures
        near(y, n0 * cn, d0 * cd, k + 2),
{
    let t: int = 0x0010_0000_0000_0000;
    let a = (y * cd) as int;
    let b = (m0 * cn) as int;
    let e = (m0 * d0) as int;
    let g = (n0 * cn) as int;
    let s1 = (y * (d0 * cd)) as int;
    let s2 = b * d0;
    let kg = k * g;
    assert(s1 == a * d0) by (nonlinear_arith)
        requires
            s1 == y * (d0 * cd),
            a == y * cd,
    ;
    assert(s2 == cn * e) by (nonlinear_arith)
        requires
            s2 == b * d0,
            b == m0 * cn,
            e == m0 * d0,
    ;
    assert(0 <= kg <= 1000 * g) by (nonlinear_arith)
        requires
            kg == k * g,
            0 <= k <= 1000,
            g >= 0,
    ;
    assert((t + k) * g == t * g + kg && (t - k) * g == t * g - kg && (t + (k + 2)) * g == t * g
        + kg + 2 * g && (t - (k + 2)) * g == t * g - kg - 2 * g) by (nonlinear_arith)
        requires
            kg == k * g,
    ;
    // scale the second bound by d0, the first by cn
    assert(t * s1 <= (t + 1) * s2 && (t - 1) * s2 <= t * s1) by (nonlinear_arith)
        requires
            t * a <= (t + 1) * b,
            (t - 1) * b <= t * a,
            s1 == a * d0,
            s2 == b * d0,
            d0 >= 0,
    ;
    assert(t * s2 <= (t + k) * g && (t - k) * g <= t * s2) by (nonlinear_arith)
        requires
            t * e <= (t + k) * n0,
            (t - k) * n0 <= t * e,
            s2 == cn * e,
            g == n0 * cn,
            cn >= 0,
    ;
}

/// The product of two numbers of moderate size: finite, of the sign that the
/// signs of the two give, and as near to the exact product as two more parts
/// allow.
pub proof fn lemma_product_step(
    x: u64,
    c: u64,
    n: nat,
    d: nat,
    k: nat,
    lo: nat,
    hi: nat,
    lc: nat,
    hc: nat,
)
    requires
        in_range(x, lo, hi),
        in_range(c, lc, hc),
        near(magnitude(x), n, d, k),
        k <= 1000,
        lo <= hi,
        lc <= hc,
        lo + lc >= 1128,
        hi + hc <= 3171,
    ensures
        in_range(product(x, c), (lo + lc - 1075) as nat, (hi + hc - 1073) as nat),
        sign_bit(product(x, c)) == (sign_bit(x) != sign_bit(c)),
        near(magnitude(product(x, c)), n * magnitude(c), d * pow2(1074), k + 2),
{
    let mx = magnitude(x);
    let mc = magnitude(c);
    let p = pow2(1074);
    let exact = mx * mc;
    let r = rounded_magnitude(exact, p);
    let negative = sign_bit(x) != sign_bit(c);
    lemma_field_bounds(x);
    lemma_field_bounds(c);
    lemma_pow2_pos(1074);
    lemma_pow2_adds(lo, lc);
    lemma_pow2_adds(hi, hc);
    lemma_pow2_adds(54, 1074);
    lemma_pow2_increases(1128, lo + lc);
    lemma_pow2_increases(hi + hc, 3171);
    lemma_pow2_adds(2097, 1074);
    lemma_pow2_adds((lo + lc - 1075) as nat, 1075);
    lemma_pow2_adds((hi + hc - 1073) as nat, 1073);
    lemma_pow2_adds(1073, 1);
    lemma_pow2_adds(1074, 1);
    lemma_pow2_increases((hi + hc - 1073) as nat, 2098);
    lemma2_to64();
    lemma2_to64_rest();
    assert(pow2(lo) * pow2(lc) <= exact < pow2(hi) * pow2(hc)) by (nonlinear_arith)
        requires
            exact == mx * mc,
            pow2(lo) <= mx < pow2(hi),
            pow2(lc) <= mc < pow2(hc),
    ;
    assert(exact >= 0x0010_0000_0000_0000 * p) by (nonlinear_arith)
        requires
            exact >= pow2(54) * p,
            pow2(54) == 0x0040_0000_0000_0000,
            p > 0,
    ;
    lemma_rounded_magnitude_near(exact, p);
    lemma_rounded_value(negative, exact, p);
    // the rounded magnitude lies between half and twice the exact value
    let lower = pow2((lo + lc - 1075) as nat);
    let upper = pow2((hi + hc - 1073) as nat);
    let rp = r * p;
    assert(exact <= 2 * rp <= 4 * exact);
    assert(r < upper) by (nonlinear_arith)
        requires
            rp == r * p,
            rp <= 2 * exact,
            exact < upper * pow2(1073),
            p == pow2(1073) * 2,
            pow2(1073) > 0,
    ;
    assert(r >= lower) by (nonlinear_arith)
        requires
            rp == r * p,
            2 * rp >= exact,
            exact >= lower * pow2(1075),
            pow2(1075) == p * 2,
            p > 0,
    ;
    assert((0x0010_0000_0000_0000 - 1) * exact <= 0x0010_0000_0000_0000 * rp);
    assert(0x0020_0000_0000_0000 * rp <= 0x0020_0000_0000_0001 * exact);
    assert(0x0010_0000_0000_0000 * rp <= 0x0010_0000_0000_0001 * exact);
    assert(near(r, exact, p, 1));
    lemma_near_compose(mx, n, d, k, r, mc, p);
}

/// The quotient of two numbers of moderate size: finite, of the sign that
/// the signs of the two give, and as near to the exact quotient as two more
/// parts allow.
pub proof fn lemma_quotient_step(
    x: u64,
    c: u64,
    n: nat,
    d: nat,
    k: nat,
    lo: nat,
    hi: nat,
    lc: nat,
    hc: nat,
)
    requires
        in_range(x, lo, hi),
        in_range(c, lc, hc),
        near(magnitude(x), n, d, k),
        k <= 1000,
        lo <= hi,
        lc <= hc,
        lo + 1074 >= hc + 54,
        hi + 1074 <= lc + 2096,
    ensures
        in_range(quotient(x, c), (lo + 1073 - hc) as nat, (hi + 1075 - lc) as nat),
        sign_bit(quotient(x, c)) == (sign_bit(x) != sign_bit(c)),
        near(magnitude(quotient(x, c)), n * pow2(1074), d * magnitude(c), k + 2),
{
    let mx = magnitude(x);
    let mc = magnitude(c);
    let p = pow2(1074);
    let exact = mx * p;
    let r = rounded_magnitude(exact, mc);
    let negative = sign_bit(x) != sign_bit(c);
    lemma_field_bounds(x);
    lemma_field_bounds(c);
    lemma_zero_magnitude(c);
    lemma_pow2_pos(1074);
    lemma_pow2_pos(lc);
    lemma_pow2_adds(lo, 1074);
    lemma_pow2_adds(hi, 1074);
    lemma_pow2_adds(hc, 54);
    lemma_pow2_increases(hc + 54, lo + 1074);
    lemma_pow2_adds((lo + 1073 - hc) as nat, hc);
    lemma_pow2_adds(lo, 1073);
    lemma_pow2_adds(1073, 1);
    lemma_pow2_adds((hi + 1075 - lc) as nat, lc);
    lemma_pow2_adds(hi, 1075);
    lemma_pow2_adds(1074, 1);
    lemma_pow2_increases((hi + 1075 - lc) as nat, 2098);
    lemma2_to64();
    lemma2_to64_rest();
    assert(pow2(lo) * p <= exact < pow2(hi) * p) by (nonlinear_arith)
        requires
            exact == mx * p,
            pow2(lo) <= mx < pow2(hi),
            p > 0,
    ;
    assert(exact >= 0x0010_0000_0000_0000 * mc) by (nonlinear_arith)
        requires
            exact >= pow2(hc) * pow2(54),
            pow2(54) == 0x0040_0000_0000_0000,
            mc < pow2(hc),
    ;
    lemma_rounded_magnitude_near(exact, mc);
    lemma_rounded_value(negative, exact, mc);
    let lower = pow2((lo + 1073 - hc) as nat);
    let upper = pow2((hi + 1075 - lc) as nat);
    let rc = r * mc;
    assert(exact <= 2 * rc <= 4 * exact);
    // upper * 2^lc == 2^hi * 2p, and lower * 2^hc * 2 == 2^lo * p
    assert(pow2(hi + 1075) == pow2(hi) * (p * 2)) by (nonlinear_arith)
        requires
            pow2(hi + 1075) == pow2(hi) * pow2(1075),
            pow2(1075) == p * 2,
    ;
    assert(pow2(lo) * p == pow2(lo + 1073) * 2) by (nonlinear_arith)
        requires
            pow2(lo + 1073) == pow2(lo) * pow2(1073),
            p == pow2(1073) * 2,
    ;
    assert(r < upper) by (nonlinear_arith)
        requires
            rc == r * mc,
            rc <= 2 * exact,
            exact < pow2(hi) * p,
            upper * pow2(lc) == pow2(hi) * (p * 2),
            mc >= pow2(lc),
            pow2(lc) > 0,
            r >= 0,
    ;
    assert(r >= lower) by (nonlinear_arith)
        requires
            rc == r * mc,
            2 * rc >= exact,
            exact >= pow2(lo) * p,
            lower * pow2(hc) * 2 == pow2(lo) * p,
            mc < pow2(hc),
            r >= 0,
            lower >= 0,
    ;
    assert((0x0010_0000_0000_0000 - 1) * exact <= 0x0010_0000_0000_0000 * rc);
    assert(0x0020_0000_0000_0000 * rc <= 0x0020_0000_0000_0001 * exact);
    assert(0x0010_0000_0000_0000 * rc <= 0x0010_0000_0000_0001 * exact);
    assert(near(r, exact, mc, 1));
    lemma_near_compose(mx, n, d, k, r, p, mc);
}

/// A magnitude known to `k` parts against `x * w / w` is known to `k` parts
/// against `x`.
pub proof fn lemma_near_cancel(z: nat, x: nat, w: nat, n: nat, d: nat, k: nat)
    requires
        near(z, n, d, k),
        n == x * w,
        d == w,
        w > 0,
    ensures
        0x0010_0000_0000_0000 * (z - x) <= k * x,
        0x0010_0000_0000_0000 * (x - z) <= k * x,
{
    let t: int = 0x0010_0000_0000_0000;
    let zw = (z * w) as int;
    let xw = (x * w) as int;
    assert((t - k) * xw <= t * zw <= (t + k) * xw);
    assert(t * (z - x) <= k * x) by (nonlinear_arith)
        requires
            t * zw <= (t + k) * xw,
            zw == z * w,
            xw == x * w,
            w > 0,
    ;
    assert(t * (x - z) <= k * x) by (nonlinear_arith)
        requires
            (t - k) * xw <= t * zw,
            zw == z * w,
            xw == x * w,
            w > 0,
    ;
}

/// Of two exact values in the ratio of `x` to `y`, known to `k` parts each,
/// the one of the smaller numerator is known to be smaller where `y` exceeds
/// `x` by more than the `2 k` parts that the two may hide.
pub proof fn lemma_near_apart(zx: nat, zy: nat, x: nat, y: nat, cn: nat, cd: nat, k: nat)
    requires
        near(zx, x * cn, cd, k),
        near(zy, y * cn, cd, k),
        (0x0010_0000_0000_0000 + k) * x < (0x0010_0000_0000_0000 - k) * y,
        cn > 0,
        cd > 0,
    ensures
        zx < zy,
{
    let t: int = 0x0010_0000_0000_0000;
    let ax = (zx * cd) as int;
    let ay = (zy * cd) as int;
    assert((t + k) * (x * cn) < (t - k) * (y * cn)) by (nonlinear_arith)
        requires
            (t + k) * x < (t - k) * y,
            cn > 0,
    ;
    assert(t * ax < t * ay);
    assert(zx < zy) by (nonlinear_arith)
        requires
            ax < ay,
            ax == zx * cd,
            ay == zy * cd,
            cd > 0,
    ;
}

/// A normal number of exponent field `e` has a magnitude from 2^(e + 51) up
/// to 2^(e + 52).
pub proof fn lemma_normal_range(x: u64)
    requires
        is_finite(x),
        exponent_field(x) >= 1,
    ensures
        in_range(x, exponent_field(x) + 51, exponent_field(x) + 52),
{
    let e = exponent_field(x);
    let t = scale(x);
    lemma_field_bounds(x);
    lemma2_to64();
    lemma2_to64_rest();
    lemma_pow2_adds(52, t);
    lemma_pow2_adds(53, t);
    lemma_pow2_pos(t);
    assert(pow2(52) * pow2(t) <= significand(x) * pow2(t) < pow2(53) * pow2(t)) by (nonlinear_arith)
        requires
            pow2(52) <= significand(x) < pow2(53),
            pow2(t) > 0,
    ;
}

/// A range may be widened.
pub proof fn lemma_in_range_widen(x: u64, lo: nat, hi: nat, lo2: nat, hi2: nat)
    requires
        in_range(x, lo, hi),
        lo2 <= lo,
        hi <= hi2,
    ensures
        in_range(x, lo2, hi2),
{
    lemma_pow2_increases(lo2, lo);
    lemma_pow2_increases(hi, hi2);
}

/// `x * c / c` is within 4 parts in 2^52 of `x`, where neither the product
/// nor the quotient leaves the normal range.
pub proof fn lemma_product_then_quotient(x: u64, c: u64, lo: nat, hi: nat, lc: nat, hc: nat)
    requires
        in_range(x, lo, hi),
        in_range(c, lc, hc),
        lo <= hi,
        lc <= hc,
        lo + lc >= 1128,
        lo + lc >= hc + 55,
        hi + hc <= 3171,
        hi + hc <= lc + 2095,
    ensures
        close(quotient(product(x, c), c), x, 4),
{
    let mx = magnitude(x);
    let mc = magnitude(c);
    let p = pow2(1074);
    let y = product(x, c);
    let z = quotient(y, c);
    lemma_pow2_pos(1074);
    lemma_pow2_pos(lc);
    lemma_near_itself(mx);
    lemma_product_step(x, c, mx, 1, 0, lo, hi, lc, hc);
    lemma_quotient_step(
        y,
        c,
        mx * mc,
        1 * p,
        2,
        (lo + lc - 1075) as nat,
        (hi + hc - 1073) as nat,
        lc,
        hc,
    );
    let w = mc * p;
    assert((mx * mc) * p == mx * w && (1 * p) * mc == w && w > 0) by (nonlinear_arith)
        requires
            w == mc * p,
            mc > 0,
            p > 0,
    ;
    lemma_near_cancel(magnitude(z), mx, w, (mx * mc) * p, (1 * p) * mc, 4);
}

/// `x / c * c` is within 4 parts in 2^52 of `x`, where neither the quotient
/// nor the product leaves the normal range.
pub proof fn lemma_quotient_then_product(x: u64, c: u64, lo: nat, hi: nat, lc: nat, hc: nat)
    requires
        in_range(x, lo, hi),
        in_range(c, lc, hc),
        lo <= hi,
        lc <= hc,
        lo + 1074 >= hc + 54,
        lo + lc >= hc + 55,
        hi + 1074 <= lc + 2096,
        hi + hc <= lc + 2096,
    ensures
        close(product(quotient(x, c), c), x, 4),
{
    let mx = magnitude(x);
    let mc = magnitude(c);
    let p = pow2(1074);
    let y = quotient(x, c);
    let z = product(y, c);
    lemma_pow2_pos(1074);
    lemma_pow2_pos(lc);
    lemma_near_itself(mx);
    lemma_quotient_step(x, c, mx, 1, 0, lo, hi, lc, hc);
    lemma_product_step(
        y,
        c,
        mx * p,
        1 * mc,
        2,
        (lo + 1073 - hc) as nat,
        (hi + 1075 - lc) as nat,
        lc,
        hc,
    );
    let w = mc * p;
    assert((mx * p) * mc == mx * w && (1 * mc) * p == w && w > 0) by (nonlinear_arith)
        requires
            w == mc * p,
            mc > 0,
            p > 0,
    ;
    lemma_near_cancel(magnitude(z), mx, w, (mx * p) * mc, (1 * mc) * p, 4);
}

} // verus!
