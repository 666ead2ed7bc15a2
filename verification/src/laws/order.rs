//! A conversion keeps the order: of two quantities of one unit, the one that
//! is no larger is no larger in any other unit, and equal ones stay equal.

use vstd::prelude::*;
use std::cmp::Ordering;
use vstd::arithmetic::power2::{pow2, lemma_pow2_pos};
use crate::angle::{Angle, Degrees, Radians, HALF_TURN_DEGREES, PI};
use crate::binary64::divide::quotient;
use crate::binary64::format::{magnitude, sign_bit, is_finite};
use crate::binary64::monotone::{lemma_product_monotone, lemma_quotient_monotone};
use crate::binary64::multiply::product;
use crate::binary64::order::{at_most, equal, less, ordering};
use crate::binary64::tolerance::{
    near, lemma_near_itself, lemma_near_apart, lemma_product_step, lemma_quotient_step,
};
use crate::laws::factors::{ordinary, factor, lemma_factors};
use crate::length::{
    Length, Meters, Kilometers, Miles, METERS_PER_KILOMETER, METERS_PER_MILE, KILOMETERS_PER_MILE,
};

verus! {

/// "No larger" is what the comparison operators call less or equal; two
/// values are equal where each is no larger than the other, and one is less
/// where it is no larger and the other is.
pub proof fn no_larger_is_less_or_equal(a: u64, b: u64)
    ensures
        at_most(a, b) <==> (ordering(a, b) matches Some(Ordering::Less | Ordering::Equal)),
        equal(a, b) <==> at_most(a, b) && at_most(b, a),
        less(a, b) <==> at_most(a, b) && !at_most(b, a),
{
}

/// Lengths of equal magnitude are equal in every unit.
pub proof fn equal_lengths_stay_equal(
    a: Meters,
    b: Meters,
    c: Kilometers,
    d: Kilometers,
    e: Miles,
    f: Miles,
)
    requires
        equal(a@, b@),
        equal(c@, d@),
        equal(e@, f@),
    ensures
        equal(a.in_kilometers()@, b.in_kilometers()@),
        equal(a.in_miles()@, b.in_miles()@),
        equal(c.in_meters()@, d.in_meters()@),
        equal(c.in_miles()@, d.in_miles()@),
        equal(e.in_meters()@, f.in_meters()@),
        equal(e.in_kilometers()@, f.in_kilometers()@),
{
    meters_to_kilometers_keeps_order(a, b);
    meters_to_kilometers_keeps_order(b, a);
    meters_to_miles_keeps_order(a, b);
    meters_to_miles_keeps_order(b, a);
    kilometers_to_meters_keeps_order(c, d);
    kilometers_to_meters_keeps_order(d, c);
    kilometers_to_miles_keeps_order(c, d);
    kilometers_to_miles_keeps_order(d, c);
    miles_to_meters_keeps_order(e, f);
    miles_to_meters_keeps_order(f, e);
    miles_to_kilometers_keeps_order(e, f);
    miles_to_kilometers_keeps_order(f, e);
}

/// Whether the larger of two magnitudes exceeds the smaller by more than the
/// sixteenth part in 2^52 that the roundings of a conversion may hide.
pub open spec fn apart(a: u64, b: u64) -> bool {
    if magnitude(a) <= magnitude(b) {
        (0x0010_0000_0000_0000 + 8) * magnitude(a) < (0x0010_0000_0000_0000 - 8) * magnitude(b)
    } else {
        (0x0010_0000_0000_0000 + 8) * magnitude(b) < (0x0010_0000_0000_0000 - 8) * magnitude(a)
    }
}

/// Whether `a` lies below `b` by more than a conversion may hide: below it,
/// and apart from it where the two have one sign.
pub open spec fn well_below(a: u64, b: u64) -> bool {
    &&& ordinary(a)
    &&& ordinary(b)
    &&& less(a, b)
    &&& sign_bit(a) == sign_bit(b) ==> apart(a, b)
}

/// Two results that keep the signs of `x` and `y` and are known to `k` parts
/// against `x` and `y` times one ratio keep the strict order of `x` and `y`.
proof fn lemma_strict(x: u64, y: u64, fx: u64, fy: u64, cn: nat, cd: nat, k: nat)
    requires
        well_below(x, y),
        is_finite(fx),
        is_finite(fy),
        magnitude(fx) > 0,
        magnitude(fy) > 0,
        sign_bit(fx) == sign_bit(x),
        sign_bit(fy) == sign_bit(y),
        near(magnitude(fx), magnitude(x) * cn, cd, k),
        near(magnitude(fy), magnitude(y) * cn, cd, k),
        k <= 8,
        cn > 0,
        cd > 0,
    ensures
        less(fx, fy),
{
    let t: int = 0x0010_0000_0000_0000;
    let mx = magnitude(x);
    let my = magnitude(y);
    if sign_bit(x) == sign_bit(y) {
        if sign_bit(x) {
            assert((t + k) * my < (t - k) * mx) by (nonlinear_arith)
                requires
                    (t + 8) * my < (t - 8) * mx,
                    0 <= k <= 8,
                    mx >= 0,
                    my >= 0,
            ;
            lemma_near_apart(magnitude(fy), magnitude(fx), my, mx, cn, cd, k);
        } else {
            assert((t + k) * mx < (t - k) * my) by (nonlinear_arith)
                requires
                    (t + 8) * mx < (t - 8) * my,
                    0 <= k <= 8,
                    mx >= 0,
                    my >= 0,
            ;
            lemma_near_apart(magnitude(fx), magnitude(fy), mx, my, cn, cd, k);
        }
    }
}

/// `x * c` lies below `y * c` where `x` lies well below `y`.
proof fn lemma_product_strict(x: u64, y: u64, c: u64)
    requires
        well_below(x, y),
        factor(c),
    ensures
        less(product(x, c), product(y, c)),
{
    let p = pow2(1074);
    lemma_pow2_pos(1074);
    lemma_pow2_pos(173);
    lemma_near_itself(magnitude(x));
    lemma_near_itself(magnitude(y));
    lemma_product_step(x, c, magnitude(x), 1, 0, 174, 1974, 1074, 1085);
    lemma_product_step(y, c, magnitude(y), 1, 0, 174, 1974, 1074, 1085);
    lemma_pow2_pos(1074);
    lemma_strict(x, y, product(x, c), product(y, c), magnitude(c), 1 * p, 2);
}

/// `x / c` lies below `y / c` where `x` lies well below `y`.
proof fn lemma_quotient_strict(x: u64, y: u64, c: u64)
    requires
        well_below(x, y),
        factor(c),
    ensures
        less(quotient(x, c), quotient(y, c)),
{
    let p = pow2(1074);
    lemma_pow2_pos(1074);
    lemma_pow2_pos(162);
    lemma_near_itself(magnitude(x));
    lemma_near_itself(magnitude(y));
    lemma_quotient_step(x, c, magnitude(x), 1, 0, 174, 1974, 1074, 1085);
    lemma_quotient_step(y, c, magnitude(y), 1, 0, 174, 1974, 1074, 1085);
    lemma_strict(x, y, quotient(x, c), quotient(y, c), p, 1 * magnitude(c), 2);
}

/// `x * a / b` lies below `y * a / b` where `x` lies well below `y`.
proof fn lemma_product_quotient_strict(x: u64, y: u64, a: u64, b: u64)
    requires
        well_below(x, y),
        factor(a),
        factor(b),
    ensures
        less(quotient(product(x, a), b), quotient(product(y, a), b)),
{
    let p = pow2(1074);
    let mx = magnitude(x);
    let my = magnitude(y);
    let ma = magnitude(a);
    let mb = magnitude(b);
    lemma_pow2_pos(1074);
    lemma_pow2_pos(161);
    lemma_near_itself(mx);
    lemma_near_itself(my);
    lemma_product_step(x, a, mx, 1, 0, 174, 1974, 1074, 1085);
    lemma_product_step(y, a, my, 1, 0, 174, 1974, 1074, 1085);
    lemma_quotient_step(product(x, a), b, mx * ma, 1 * p, 2, 173, 1986, 1074, 1085);
    lemma_quotient_step(product(y, a), b, my * ma, 1 * p, 2, 173, 1986, 1074, 1085);
    let cn = ma * p;
    let cd = (1 * p) * mb;
    assert((mx * ma) * p == mx * cn
        && (my * ma) * p == my * cn
        && cn > 0
        && cd > 0) by (nonlinear_arith)
        requires
            cn == ma * p,
            cd == (1 * p) * mb,
            ma > 0,
            mb > 0,
            p > 0,
    ;
    lemma_strict(x, y, quotient(product(x, a), b), quotient(product(y, a), b), cn, cd, 4);
}

/// Of two lengths in meters, the one that is no larger is no larger in
/// kilometers.
pub proof fn meters_to_kilometers_keeps_order(a: Meters, b: Meters)
    requires
        at_most(a@, b@),
    ensures
        at_most(a.in_kilometers()@, b.in_kilometers()@),
{
    lemma_factors();
    lemma_quotient_monotone(a@, b@, METERS_PER_KILOMETER);
}

/// Of two lengths in meters, the one that is no larger is no larger in miles.
pub proof fn meters_to_miles_keeps_order(a: Meters, b: Meters)
    requires
        at_most(a@, b@),
    ensures
        at_most(a.in_miles()@, b.in_miles()@),
{
    lemma_factors();
    lemma_quotient_monotone(a@, b@, METERS_PER_MILE);
}

/// Of two lengths in kilometers, the one that is no larger is no larger in
/// meters.
pub proof fn kilometers_to_meters_keeps_order(a: Kilometers, b: Kilometers)
    requires
        at_most(a@, b@),
    ensures
        at_most(a.in_meters()@, b.in_meters()@),
{
    lemma_factors();
    lemma_product_monotone(a@, b@, METERS_PER_KILOMETER);
}

/// Of two lengths in kilometers, the one that is no larger is no larger in
/// miles.
pub proof fn kilometers_to_miles_keeps_order(a: Kilometers, b: Kilometers)
    requires
        at_most(a@, b@),
    ensures
        at_most(a.in_miles()@, b.in_miles()@),
{
    lemma_factors();
    lemma_quotient_monotone(a@, b@, KILOMETERS_PER_MILE);
}

/// Of two lengths in miles, the one that is no larger is no larger in meters.
pub proof fn miles_to_meters_keeps_order(a: Miles, b: Miles)
    requires
        at_most(a@, b@),
    ensures
        at_most(a.in_meters()@, b.in_meters()@),
{
    lemma_factors();
    lemma_product_monotone(a@, b@, METERS_PER_MILE);
}

/// Of two lengths in miles, the one that is no larger is no larger in
/// kilometers.
pub proof fn miles_to_kilometers_keeps_order(a: Miles, b: Miles)
    requires
        at_most(a@, b@),
    ensures
        at_most(a.in_kilometers()@, b.in_kilometers()@),
{
    lemma_factors();
    lemma_product_monotone(a@, b@, KILOMETERS_PER_MILE);
}

/// Of two angles in degrees, the one that is no larger is no larger in
/// radians.
pub proof fn degrees_to_radians_keeps_order(a: Degrees, b: Degrees)
    requires
        at_most(a@, b@),
    ensures
        at_most(a.in_radians()@, b.in_radians()@),
{
    lemma_factors();
    lemma_product_monotone(a@, b@, PI);
    lemma_quotient_monotone(product(a@, PI), product(b@, PI), HALF_TURN_DEGREES);
}

/// Of two angles in radians, the one that is no larger is no larger in
/// degrees.
pub proof fn radians_to_degrees_keeps_order(a: Radians, b: Radians)
    requires
        at_most(a@, b@),
    ensures
        at_most(a.in_degrees()@, b.in_degrees()@),
{
    lemma_factors();
    lemma_product_monotone(a@, b@, HALF_TURN_DEGREES);
    lemma_quotient_monotone(product(a@, HALF_TURN_DEGREES), product(b@, HALF_TURN_DEGREES), PI);
}

/// A length that lies well below another lies below it in every unit.
pub proof fn lengths_keep_strict_order(
    a: Meters,
    b: Meters,
    c: Kilometers,
    d: Kilometers,
    e: Miles,
    f: Miles,
)
    requires
        well_below(a@, b@),
        well_below(c@, d@),
        well_below(e@, f@),
    ensures
        less(a.in_kilometers()@, b.in_kilometers()@),
        less(a.in_miles()@, b.in_miles()@),
        less(c.in_meters()@, d.in_meters()@),
        less(c.in_miles()@, d.in_miles()@),
        less(e.in_meters()@, f.in_meters()@),
        less(e.in_kilometers()@, f.in_kilometers()@),
{
    lemma_factors();
    lemma_quotient_strict(a@, b@, METERS_PER_KILOMETER);
    lemma_quotient_strict(a@, b@, METERS_PER_MILE);
    lemma_product_strict(c@, d@, METERS_PER_KILOMETER);
    lemma_quotient_strict(c@, d@, KILOMETERS_PER_MILE);
    lemma_product_strict(e@, f@, METERS_PER_MILE);
    lemma_product_strict(e@, f@, KILOMETERS_PER_MILE);
}

/// An angle that lies well below another lies below it in the other unit.
pub proof fn angles_keep_strict_order(a: Degrees, b: Degrees, c: Radians, d: Radians)
    requires
        well_below(a@, b@),
        well_below(c@, d@),
    ensures
        less(a.in_radians()@, b.in_radians()@),
        less(c.in_degrees()@, d.in_degrees()@),
{
    lemma_factors();
    lemma_product_quotient_strict(a@, b@, PI, HALF_TURN_DEGREES);
    lemma_product_quotient_strict(c@, d@, HALF_TURN_DEGREES, PI);
}

} // verus!
