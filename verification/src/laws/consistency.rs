//! A conversion through the third unit agrees with the direct one, up to the
//! rounding of the steps and of the factors.
//!
//! The factor 1.609344 was rounded once, and 1609.344 once: a thousand times
//! the first differs from the second by less than one part in 2^52.

use vstd::prelude::*;
use vstd::arithmetic::power2::{
    pow2, lemma_pow2_pos, lemma_pow2_adds, lemma2_to64, lemma2_to64_rest,
};
use crate::binary64::divide::quotient;
use crate::binary64::format::magnitude;
use crate::binary64::multiply::product;
use crate::binary64::tolerance::{
    close, near, lemma_product_step, lemma_quotient_step, lemma_near_itself,
};
use crate::laws::factors::{ordinary, factor, lemma_factors};
use crate::length::{
    Length, Meters, Kilometers, Miles, METERS_PER_KILOMETER, METERS_PER_MILE, KILOMETERS_PER_MILE,
};

verus! {

/// A thousand times the significand of 1.609344.
spec fn thousandfold() -> int {
    1000int * 0x0019_bfdf_7e80_38a0
}

/// The significand of 1609.344, at the scale of `thousandfold`.
spec fn direct() -> int {
    1024int * 0x0019_2560_4189_374c
}

/// The magnitudes of the factors and of the unit, as multiples of
/// `e = 2^1022`.
proof fn lemma_factor_multiples()
    ensures
        pow2(1074) == 0x0010_0000_0000_0000 * pow2(1022),
        magnitude(KILOMETERS_PER_MILE) == 0x0019_bfdf_7e80_38a0 * pow2(1022),
        magnitude(METERS_PER_MILE) == direct() * pow2(1022),
        magnitude(METERS_PER_KILOMETER) == 1000 * 0x0010_0000_0000_0000 * pow2(1022),
        pow2(1022) > 0,
{
    lemma_factors();
    lemma2_to64();
    lemma2_to64_rest();
    lemma_pow2_adds(52, 1022);
    lemma_pow2_adds(10, 1022);
    lemma_pow2_adds(9, 1022);
    lemma_pow2_pos(1022);
    let e = pow2(1022);
    assert(0x0019_2560_4189_374c * (1024 * e) == direct() * e) by (nonlinear_arith);
    assert(0x001f_4000_0000_0000 * (512 * e)
        == 1000 * 0x0010_0000_0000_0000 * e) by (nonlinear_arith);
}

/// Two magnitudes, one known to 2 parts and one to 4, of two exact values
/// that stand to each other as `thousandfold` to `direct`, lie within 8
/// parts of each other.
proof fn lemma_consistent(z1: nat, n1: nat, d1: nat, z2: nat, n2: nat, d2: nat, mu: nat)
    requires
        near(z1, n1, d1, 2),
        near(z2, n2, d2, 4),
        d1 > 0,
        d2 > 0,
        (n1 * d2 == thousandfold() * mu && n2 * d1 == direct() * mu) || (n1 * d2 == direct() * mu
            && n2 * d1 == thousandfold() * mu),
    ensures
        0x0010_0000_0000_0000 * (z2 - z1) <= 8 * z1,
        0x0010_0000_0000_0000 * (z1 - z2) <= 8 * z1,
{
    let t: int = 0x0010_0000_0000_0000;
    let s = (n1 * d2) as int;
    let r = (n2 * d1) as int;
    let w = (d1 * d2) as int;
    let u = z1 * w;
    let v = z2 * w;
    assert((t - 2) * s <= t * u <= (t + 2) * s) by (nonlinear_arith)
        requires
            (t - 2) * n1 <= t * (z1 * d1) <= (t + 2) * n1,
            s == n1 * d2,
            u == z1 * w,
            w == d1 * d2,
            d2 > 0,
    ;
    assert((t - 4) * r <= t * v <= (t + 4) * r) by (nonlinear_arith)
        requires
            (t - 4) * n2 <= t * (z2 * d2) <= (t + 4) * n2,
            r == n2 * d1,
            v == z2 * w,
            w == d1 * d2,
            d1 > 0,
    ;
    let a: int = 0x6495_8106_24dd_3100;
    let b: int = 0x6495_8106_24dd_3000;
    let am = thousandfold() * mu;
    let bm = direct() * mu;
    assert((t - 1) * bm <= t * am <= (t + 1) * bm && (t - 1) * am <= t * bm <= (t + 1) * am)
        by (nonlinear_arith)
        requires
            am == a * mu,
            bm == b * mu,
            a == 0x6495_8106_24dd_3100,
            b == 0x6495_8106_24dd_3000,
            t == 0x0010_0000_0000_0000,
            mu >= 0,
    ;
    assert((t - 1) * s <= t * r <= (t + 1) * s);
    assert(t * v <= (t + 8) * u);
    assert((t - 8) * u <= t * v);
    assert(w > 0) by (nonlinear_arith)
        requires
            w == d1 * d2,
            d1 > 0,
            d2 > 0,
    ;
    assert(t * (z2 - z1) <= 8 * z1) by (nonlinear_arith)
        requires
            t * v <= (t + 8) * u,
            u == z1 * w,
            v == z2 * w,
            w > 0,
    ;
    assert(t * (z1 - z2) <= 8 * z1) by (nonlinear_arith)
        requires
            (t - 8) * u <= t * v,
            u == z1 * w,
            v == z2 * w,
            w > 0,
    ;
}

/// The two products that the exact values of a direct conversion and of one
/// through the third unit come to, as multiples of one magnitude.
proof fn lemma_monomials(mx: int, e: int, p: int, c1: int, c2: int, c3: int)
    by (nonlinear_arith)
    requires
        p == 0x0010_0000_0000_0000 * e,
        c1 == 0x0019_bfdf_7e80_38a0 * e,
        c2 == 0x6495_8106_24dd_3000 * e,
        c3 == 1000 * 0x0010_0000_0000_0000 * e,
    ensures
        mx * p * p * c2 == 0x6495_8106_24dd_3000 * (0x0010_0000_0000_0000 * 0x0010_0000_0000_0000
            * mx * e * e * e),
        mx * p * c1 * c3 == 0x6495_8106_24dd_3100 * (0x0010_0000_0000_0000 * 0x0010_0000_0000_0000
            * mx * e * e * e),
{
}

/// Meters taken to kilometers through miles are within 8 parts in 2^52 of the
/// same taken there directly.
pub proof fn meters_to_kilometers_through_miles(x: Meters)
    requires
        ordinary(x@),
    ensures
        close(x.in_miles().in_kilometers()@, x.in_kilometers()@, 8),
{
    let mx = magnitude(x@);
    let one = 1nat;
    let p = pow2(1074);
    let e = pow2(1022);
    let c1 = magnitude(KILOMETERS_PER_MILE);
    let c2 = magnitude(METERS_PER_MILE);
    let c3 = magnitude(METERS_PER_KILOMETER);
    lemma_factors();
    lemma_factor_multiples();
    lemma_near_itself(mx);
    lemma_quotient_step(x@, METERS_PER_KILOMETER, mx, one, 0, 174, 1974, 1074, 1085);
    lemma_quotient_step(x@, METERS_PER_MILE, mx, one, 0, 174, 1974, 1074, 1085);
    lemma_product_step(
        quotient(x@, METERS_PER_MILE),
        KILOMETERS_PER_MILE,
        mx * p,
        one * c2,
        2,
        162,
        1975,
        1074,
        1085,
    );
    let n1 = mx * p;
    let d1 = one * c3;
    let n2 = mx * p * c1;
    let d2 = one * c2 * p;
    let mu = 0x0010_0000_0000_0000 * 0x0010_0000_0000_0000 * mx * e * e * e;
    lemma_monomials(mx as int, e as int, p as int, c1 as int, c2 as int, c3 as int);
    assert(n1 * d2 == mx * p * p * c2
        && n2 * d1 == mx * p * c1 * c3
        && d1 > 0
        && d2 > 0) by (nonlinear_arith)
        requires
            n1 == mx * p,
            d1 == one * c3,
            n2 == mx * p * c1,
            d2 == one * c2 * p,
            one == 1,
            p > 0,
            c1 > 0,
            c2 > 0,
            c3 > 0,
    ;
    lemma_consistent(
        magnitude(quotient(x@, METERS_PER_KILOMETER)),
        n1,
        d1,
        magnitude(product(quotient(x@, METERS_PER_MILE), KILOMETERS_PER_MILE)),
        n2,
        d2,
        mu,
    );
}

/// Meters taken to miles through kilometers are within 8 parts in 2^52 of the
/// same taken there directly.
pub proof fn meters_to_miles_through_kilometers(x: Meters)
    requires
        ordinary(x@),
    ensures
        close(x.in_kilometers().in_miles()@, x.in_miles()@, 8),
{
    let mx = magnitude(x@);
    let one = 1nat;
    let p = pow2(1074);
    let e = pow2(1022);
    let c1 = magnitude(KILOMETERS_PER_MILE);
    let c2 = magnitude(METERS_PER_MILE);
    let c3 = magnitude(METERS_PER_KILOMETER);
    lemma_factors();
    lemma_factor_multiples();
    lemma_near_itself(mx);
    lemma_quotient_step(x@, METERS_PER_MILE, mx, one, 0, 174, 1974, 1074, 1085);
    lemma_quotient_step(x@, METERS_PER_KILOMETER, mx, one, 0, 174, 1974, 1074, 1085);
    lemma_quotient_step(
        quotient(x@, METERS_PER_KILOMETER),
        KILOMETERS_PER_MILE,
        mx * p,
        one * c3,
        2,
        162,
        1975,
        1074,
        1085,
    );
    let n1 = mx * p;
    let d1 = one * c2;
    let n2 = mx * p * p;
    let d2 = one * c3 * c1;
    let mu = 0x0010_0000_0000_0000 * 0x0010_0000_0000_0000 * mx * e * e * e;
    lemma_monomials(mx as int, e as int, p as int, c1 as int, c2 as int, c3 as int);
    assert(n1 * d2 == mx * p * c1 * c3
        && n2 * d1 == mx * p * p * c2
        && d1 > 0
        && d2 > 0) by (nonlinear_arith)
        requires
            n1 == mx * p,
            d1 == one * c2,
            n2 == mx * p * p,
            d2 == one * c3 * c1,
            one == 1,
            p > 0,
            c1 > 0,
            c2 > 0,
            c3 > 0,
    ;
    lemma_consistent(
        magnitude(quotient(x@, METERS_PER_MILE)),
        n1,
        d1,
        magnitude(quotient(quotient(x@, METERS_PER_KILOMETER), KILOMETERS_PER_MILE)),
        n2,
        d2,
        mu,
    );
}

/// Kilometers taken to meters through miles are within 8 parts in 2^52 of the
/// same taken there directly.
pub proof fn kilometers_to_meters_through_miles(x: Kilometers)
    requires
        ordinary(x@),
    ensures
        close(x.in_miles().in_meters()@, x.in_meters()@, 8),
{
    let mx = magnitude(x@);
    let one = 1nat;
    let p = pow2(1074);
    let e = pow2(1022);
    let c1 = magnitude(KILOMETERS_PER_MILE);
    let c2 = magnitude(METERS_PER_MILE);
    let c3 = magnitude(METERS_PER_KILOMETER);
    lemma_factors();
    lemma_factor_multiples();
    lemma_near_itself(mx);
    lemma_product_step(x@, METERS_PER_KILOMETER, mx, one, 0, 174, 1974, 1074, 1085);
    lemma_quotient_step(x@, KILOMETERS_PER_MILE, mx, one, 0, 174, 1974, 1074, 1085);
    lemma_product_step(
        quotient(x@, KILOMETERS_PER_MILE),
        METERS_PER_MILE,
        mx * p,
        one * c1,
        2,
        162,
        1975,
        1074,
        1085,
    );
    let n1 = mx * c3;
    let d1 = one * p;
    let n2 = mx * p * c2;
    let d2 = one * c1 * p;
    let mu = 0x0010_0000_0000_0000 * 0x0010_0000_0000_0000 * mx * e * e * e;
    lemma_monomials(mx as int, e as int, p as int, c1 as int, c2 as int, c3 as int);
    assert(n1 * d2 == mx * p * c1 * c3
        && n2 * d1 == mx * p * p * c2
        && d1 > 0
        && d2 > 0) by (nonlinear_arith)
        requires
            n1 == mx * c3,
            d1 == one * p,
            n2 == mx * p * c2,
            d2 == one * c1 * p,
            one == 1,
            p > 0,
            c1 > 0,
            c2 > 0,
            c3 > 0,
    ;
    lemma_consistent(
        magnitude(product(x@, METERS_PER_KILOMETER)),
        n1,
        d1,
        magnitude(product(quotient(x@, KILOMETERS_PER_MILE), METERS_PER_MILE)),
        n2,
        d2,
        mu,
    );
}

/// Kilometers taken to miles through meters are within 8 parts in 2^52 of the
/// same taken there directly.
pub proof fn kilometers_to_miles_through_meters(x: Kilometers)
    requires
        ordinary(x@),
    ensures
        close(x.in_meters().in_miles()@, x.in_miles()@, 8),
{
    let mx = magnitude(x@);
    let one = 1nat;
    let p = pow2(1074);
    let e = pow2(1022);
    let c1 = magnitude(KILOMETERS_PER_MILE);
    let c2 = magnitude(METERS_PER_MILE);
    let c3 = magnitude(METERS_PER_KILOMETER);
    lemma_factors();
    lemma_factor_multiples();
    lemma_near_itself(mx);
    lemma_quotient_step(x@, KILOMETERS_PER_MILE, mx, one, 0, 174, 1974, 1074, 1085);
    lemma_product_step(x@, METERS_PER_KILOMETER, mx, one, 0, 174, 1974, 1074, 1085);
    lemma_quotient_step(
        product(x@, METERS_PER_KILOMETER),
        METERS_PER_MILE,
        mx * c3,
        one * p,
        2,
        173,
        1986,
        1074,
        1085,
    );
    let n1 = mx * p;
    let d1 = one * c1;
    let n2 = mx * c3 * p;
    let d2 = one * p * c2;
    let mu = 0x0010_0000_0000_0000 * 0x0010_0000_0000_0000 * mx * e * e * e;
    lemma_monomials(mx as int, e as int, p as int, c1 as int, c2 as int, c3 as int);
    assert(n1 * d2 == mx * p * p * c2
        && n2 * d1 == mx * p * c1 * c3
        && d1 > 0
        && d2 > 0) by (nonlinear_arith)
        requires
            n1 == mx * p,
            d1 == one * c1,
            n2 == mx * c3 * p,
            d2 == one * p * c2,
            one == 1,
            p > 0,
            c1 > 0,
            c2 > 0,
            c3 > 0,
    ;
    lemma_consistent(
        magnitude(quotient(x@, KILOMETERS_PER_MILE)),
        n1,
        d1,
        magnitude(quotient(product(x@, METERS_PER_KILOMETER), METERS_PER_MILE)),
        n2,
        d2,
        mu,
    );
}

/// Miles taken to meters through kilometers are within 8 parts in 2^52 of the
/// same taken there directly.
pub proof fn miles_to_meters_through_kilometers(x: Miles)
    requires
        ordinary(x@),
    ensures
        close(x.in_kilometers().in_meters()@, x.in_meters()@, 8),
{
    let mx = magnitude(x@);
    let one = 1nat;
    let p = pow2(1074);
    let e = pow2(1022);
    let c1 = magnitude(KILOMETERS_PER_MILE);
    let c2 = magnitude(METERS_PER_MILE);
    let c3 = magnitude(METERS_PER_KILOMETER);
    lemma_factors();
    lemma_factor_multiples();
    lemma_near_itself(mx);
    lemma_product_step(x@, METERS_PER_MILE, mx, one, 0, 174, 1974, 1074, 1085);
    lemma_product_step(x@, KILOMETERS_PER_MILE, mx, one, 0, 174, 1974, 1074, 1085);
    lemma_product_step(
        product(x@, KILOMETERS_PER_MILE),
        METERS_PER_KILOMETER,
        mx * c1,
        one * p,
        2,
        173,
        1986,
        1074,
        1085,
    );
    let n1 = mx * c2;
    let d1 = one * p;
    let n2 = mx * c1 * c3;
    let d2 = one * p * p;
    let mu = 0x0010_0000_0000_0000 * 0x0010_0000_0000_0000 * mx * e * e * e;
    lemma_monomials(mx as int, e as int, p as int, c1 as int, c2 as int, c3 as int);
    assert(n1 * d2 == mx * p * p * c2
        && n2 * d1 == mx * p * c1 * c3
        && d1 > 0
        && d2 > 0) by (nonlinear_arith)
        requires
            n1 == mx * c2,
            d1 == one * p,
            n2 == mx * c1 * c3,
            d2 == one * p * p,
            one == 1,
            p > 0,
            c1 > 0,
            c2 > 0,
            c3 > 0,
    ;
    lemma_consistent(
        magnitude(product(x@, METERS_PER_MILE)),
        n1,
        d1,
        magnitude(product(product(x@, KILOMETERS_PER_MILE), METERS_PER_KILOMETER)),
        n2,
        d2,
        mu,
    );
}

/// Miles taken to kilometers through meters are within 8 parts in 2^52 of the
/// same taken there directly.
pub proof fn miles_to_kilometers_through_meters(x: Miles)
    requires
        ordinary(x@),
    ensures
        close(x.in_meters().in_kilometers()@, x.in_kilometers()@, 8),
{
    let mx = magnitude(x@);
    let one = 1nat;
    let p = pow2(1074);
    let e = pow2(1022);
    let c1 = magnitude(KILOMETERS_PER_MILE);
    let c2 = magnitude(METERS_PER_MILE);
    let c3 = magnitude(METERS_PER_KILOMETER);
    lemma_factors();
    lemma_factor_multiples();
    lemma_near_itself(mx);
    lemma_product_step(x@, KILOMETERS_PER_MILE, mx, one, 0, 174, 1974, 1074, 1085);
    lemma_product_step(x@, METERS_PER_MILE, mx, one, 0, 174, 1974, 1074, 1085);
    lemma_quotient_step(
        product(x@, METERS_PER_MILE),
        METERS_PER_KILOMETER,
        mx * c2,
        one * p,
        2,
        173,
        1986,
        1074,
        1085,
    );
    let n1 = mx * c1;
    let d1 = one * p;
    let n2 = mx * c2 * p;
    let d2 = one * p * c3;
    let mu = 0x0010_0000_0000_0000 * 0x0010_0000_0000_0000 * mx * e * e * e;
    lemma_monomials(mx as int, e as int, p as int, c1 as int, c2 as int, c3 as int);
    assert(n1 * d2 == mx * p * c1 * c3
        && n2 * d1 == mx * p * p * c2
        && d1 > 0
        && d2 > 0) by (nonlinear_arith)
        requires
            n1 == mx * c1,
            d1 == one * p,
            n2 == mx * c2 * p,
            d2 == one * p * c3,
            one == 1,
            p > 0,
            c1 > 0,
            c2 > 0,
            c3 > 0,
    ;
    lemma_consistent(
        magnitude(product(x@, KILOMETERS_PER_MILE)),
        n1,
        d1,
        magnitude(quotient(product(x@, METERS_PER_MILE), METERS_PER_KILOMETER)),
        n2,
        d2,
        mu,
    );
}

} // verus!
