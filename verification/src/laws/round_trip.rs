//! A conversion and the one back give the value that they began with, up to
//! the rounding of each step.

use vstd::prelude::*;
use vstd::arithmetic::power2::{pow2, lemma_pow2_pos};
use crate::angle::{Angle, Degrees, Radians, HALF_TURN_DEGREES, PI};
use crate::area::{Area, SquareMeters};
use crate::binary64::divide::quotient;
use crate::binary64::format::{
    magnitude, is_zero, sign_bit, lemma_field_bounds, lemma_zero_magnitude,
};
use crate::binary64::rounding::lemma_rounded_zero;
use crate::binary64::multiply::product;
use crate::binary64::tolerance::{
    close, lemma_product_then_quotient, lemma_quotient_then_product, lemma_product_step,
    lemma_quotient_step, lemma_near_itself, lemma_near_cancel,
};
use crate::laws::factors::{ordinary, factor, lemma_factors};
use crate::length::{
    Length, Meters, Kilometers, Miles, METERS_PER_KILOMETER, METERS_PER_MILE, KILOMETERS_PER_MILE,
};
use crate::volume::{Volume, CubicMeters};

verus! {

/// Meters taken to kilometers and back are the meters they were, within 4
/// parts in 2^52.
pub proof fn meters_through_kilometers(x: Meters)
    requires
        ordinary(x@),
    ensures
        close(x.in_kilometers().in_meters()@, x@, 4),
{
    lemma_factors();
    lemma_quotient_then_product(x@, METERS_PER_KILOMETER, 174, 1974, 1074, 1085);
}

/// Meters taken to miles and back are the meters they were, within 4 parts
/// in 2^52.
pub proof fn meters_through_miles(x: Meters)
    requires
        ordinary(x@),
    ensures
        close(x.in_miles().in_meters()@, x@, 4),
{
    lemma_factors();
    lemma_quotient_then_product(x@, METERS_PER_MILE, 174, 1974, 1074, 1085);
}

/// Kilometers taken to meters and back are the kilometers they were, within
/// 4 parts in 2^52.
pub proof fn kilometers_through_meters(x: Kilometers)
    requires
        ordinary(x@),
    ensures
        close(x.in_meters().in_kilometers()@, x@, 4),
{
    lemma_factors();
    lemma_product_then_quotient(x@, METERS_PER_KILOMETER, 174, 1974, 1074, 1085);
}

/// Kilometers taken to miles and back are the kilometers they were, within 4
/// parts in 2^52.
pub proof fn kilometers_through_miles(x: Kilometers)
    requires
        ordinary(x@),
    ensures
        close(x.in_miles().in_kilometers()@, x@, 4),
{
    lemma_factors();
    lemma_quotient_then_product(x@, KILOMETERS_PER_MILE, 174, 1974, 1074, 1085);
}

/// Miles taken to meters and back are the miles they were, within 4 parts in
/// 2^52.
pub proof fn miles_through_meters(x: Miles)
    requires
        ordinary(x@),
    ensures
        close(x.in_meters().in_miles()@, x@, 4),
{
    lemma_factors();
    lemma_product_then_quotient(x@, METERS_PER_MILE, 174, 1974, 1074, 1085);
}

/// Miles taken to kilometers and back are the miles they were, within 4
/// parts in 2^52.
pub proof fn miles_through_kilometers(x: Miles)
    requires
        ordinary(x@),
    ensures
        close(x.in_kilometers().in_miles()@, x@, 4),
{
    lemma_factors();
    lemma_product_then_quotient(x@, KILOMETERS_PER_MILE, 174, 1974, 1074, 1085);
}

/// `x * a / b * b / a` is within 8 parts in 2^52 of `x`, for two factors
/// `a` and `b`.
proof fn lemma_there_and_back(x: u64, a: u64, b: u64)
    requires
        ordinary(x),
        factor(a),
        factor(b),
    ensures
        close(quotient(product(quotient(product(x, a), b), b), a), x, 8),
{
    let mx = magnitude(x);
    let ma = magnitude(a);
    let mb = magnitude(b);
    let p = pow2(1074);
    let y1 = product(x, a);
    let y2 = quotient(y1, b);
    let y3 = product(y2, b);
    let z = quotient(y3, a);
    lemma_pow2_pos(1074);
    lemma_near_itself(mx);
    lemma_product_step(x, a, mx, 1, 0, 174, 1974, 1074, 1085);
    lemma_quotient_step(y1, b, mx * ma, 1 * p, 2, 173, 1986, 1074, 1085);
    lemma_product_step(y2, b, (mx * ma) * p, (1 * p) * mb, 4, 161, 1987, 1074, 1085);
    lemma_quotient_step(y3, a, ((mx * ma) * p) * mb, ((1 * p) * mb) * p, 6, 160, 1999, 1074, 1085);
    let w = ma * p * mb * p;
    assert((((mx * ma) * p) * mb) * p == mx * w
        && (((1 * p) * mb) * p) * ma == w) by (nonlinear_arith)
        requires
            w == ma * p * mb * p,
    ;
    assert(w > 0) by (nonlinear_arith)
        requires
            w == ma * p * mb * p,
            ma > 0,
            mb > 0,
            p > 0,
    ;
    lemma_near_cancel(
        magnitude(z),
        mx,
        w,
        (((mx * ma) * p) * mb) * p,
        (((1 * p) * mb) * p) * ma,
        8,
    );
}

/// Degrees taken to radians and back are the degrees they were, within 8
/// parts in 2^52.
pub proof fn degrees_through_radians(x: Degrees)
    requires
        ordinary(x@),
    ensures
        close(x.in_radians().in_degrees()@, x@, 8),
{
    lemma_factors();
    lemma_there_and_back(x@, PI, HALF_TURN_DEGREES);
}

/// Radians taken to degrees and back are the radians they were, within 8
/// parts in 2^52.
pub proof fn radians_through_degrees(x: Radians)
    requires
        ordinary(x@),
    ensures
        close(x.in_degrees().in_radians()@, x@, 8),
{
    lemma_factors();
    lemma_there_and_back(x@, HALF_TURN_DEGREES, PI);
}

/// A zero times or over a factor is the zero that it was.
proof fn lemma_zero_is_kept(z: u64, c: u64)
    requires
        is_zero(z),
        factor(c),
    ensures
        product(z, c) == z,
        quotient(z, c) == z,
{
    lemma_pow2_pos(1074);
    lemma_zero_magnitude(z);
    lemma_zero_magnitude(c);
    lemma_field_bounds(c);
    assert(magnitude(z) * magnitude(c) == 0 && magnitude(z) * pow2(1074) == 0) by (nonlinear_arith)
        requires
            magnitude(z) == 0,
    ;
    lemma_rounded_zero(sign_bit(z), pow2(1074));
    lemma_rounded_zero(sign_bit(z), magnitude(c));
}

/// A zero is the same zero in every unit.
pub proof fn a_zero_is_kept(m: Meters, k: Kilometers, i: Miles, d: Degrees, r: Radians)
    requires
        is_zero(m@),
        is_zero(k@),
        is_zero(i@),
        is_zero(d@),
        is_zero(r@),
    ensures
        m.in_kilometers()@ == m@,
        m.in_miles()@ == m@,
        k.in_meters()@ == k@,
        k.in_miles()@ == k@,
        i.in_meters()@ == i@,
        i.in_kilometers()@ == i@,
        d.in_radians()@ == d@,
        r.in_degrees()@ == r@,
{
    lemma_factors();
    lemma_zero_is_kept(m@, METERS_PER_KILOMETER);
    lemma_zero_is_kept(m@, METERS_PER_MILE);
    lemma_zero_is_kept(k@, METERS_PER_KILOMETER);
    lemma_zero_is_kept(k@, KILOMETERS_PER_MILE);
    lemma_zero_is_kept(i@, METERS_PER_MILE);
    lemma_zero_is_kept(i@, KILOMETERS_PER_MILE);
    lemma_zero_is_kept(d@, PI);
    lemma_zero_is_kept(d@, HALF_TURN_DEGREES);
    lemma_zero_is_kept(r@, HALF_TURN_DEGREES);
    lemma_zero_is_kept(r@, PI);
}

/// A quantity taken to its own unit is the quantity itself.
pub proof fn same_unit(
    m: Meters,
    k: Kilometers,
    i: Miles,
    d: Degrees,
    r: Radians,
    s: SquareMeters,
    c: CubicMeters,
)
    ensures
        m.in_meters() == m,
        k.in_kilometers() == k,
        i.in_miles() == i,
        d.in_degrees() == d,
        r.in_radians() == r,
        s.in_square_meters() == s,
        c.in_cubic_meters() == c,
{
}

} // verus!
