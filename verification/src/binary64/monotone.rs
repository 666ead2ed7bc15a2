//! Multiplying or dividing by a positive number keeps the order.

use vstd::prelude::*;
use vstd::arithmetic::power2::{pow2, lemma_pow2_pos};
use crate::binary64::accuracy::{lemma_rounded_value, lemma_rounded_magnitude_monotone};
use crate::binary64::divide::quotient;
use crate::binary64::format::{
    sign_bit, is_nan, is_finite, is_infinite, is_zero, magnitude, infinity_bits, lemma_field_bounds,
    lemma_magnitude_bound, lemma_zero_magnitude,
};
use crate::binary64::multiply::product;
use crate::binary64::order::at_most;
use crate::binary64::rounding::{rounded, rounded_magnitude, lemma_rounded_zero};

verus! {

/// A positive finite number: what a conversion multiplies or divides by.
pub open spec fn positive_finite(c: u64) -> bool {
    is_finite(c) && !is_zero(c) && !sign_bit(c)
}

/// The magnitude of `x * c`, for `c` positive and finite: that of the rounded
/// exact product, cut off at the infinity.
proof fn lemma_product_magnitude(x: u64, c: u64)
    requires
        !is_nan(x),
        positive_finite(c),
    ensures
        !is_nan(product(x, c)),
        sign_bit(product(x, c)) == sign_bit(x),
        is_finite(x) ==> magnitude(product(x, c)) == if rounded_magnitude(
            magnitude(x) * magnitude(c),
            pow2(1074),
        ) < pow2(2098) {
            rounded_magnitude(magnitude(x) * magnitude(c), pow2(1074))
        } else {
            pow2(2098)
        },
        is_infinite(x) ==> magnitude(product(x, c)) == pow2(2098),
{
    lemma_pow2_pos(1074);
    lemma_field_bounds(x);
    lemma_field_bounds(c);
    lemma_magnitude_bound(infinity_bits(sign_bit(x)));
    lemma_magnitude_bound(product(x, c));
    lemma_rounded_value(sign_bit(x), magnitude(x) * magnitude(c), pow2(1074));
    assert(is_infinite(infinity_bits(sign_bit(x))) && sign_bit(infinity_bits(sign_bit(x)))
        == sign_bit(x));
}

/// The magnitude of `x / c`, for `c` positive and finite.
proof fn lemma_quotient_magnitude(x: u64, c: u64)
    requires
        !is_nan(x),
        positive_finite(c),
    ensures
        !is_nan(quotient(x, c)),
        sign_bit(quotient(x, c)) == sign_bit(x),
        is_finite(x) ==> magnitude(quotient(x, c)) == if rounded_magnitude(
            magnitude(x) * pow2(1074),
            magnitude(c),
        ) < pow2(2098) {
            rounded_magnitude(magnitude(x) * pow2(1074), magnitude(c))
        } else {
            pow2(2098)
        },
        is_infinite(x) ==> magnitude(quotient(x, c)) == pow2(2098),
{
    lemma_pow2_pos(1074);
    lemma_field_bounds(x);
    lemma_field_bounds(c);
    lemma_zero_magnitude(c);
    lemma_magnitude_bound(infinity_bits(sign_bit(x)));
    lemma_magnitude_bound(quotient(x, c));
    lemma_rounded_value(sign_bit(x), magnitude(x) * pow2(1074), magnitude(c));
    assert(is_infinite(infinity_bits(sign_bit(x))) && sign_bit(infinity_bits(sign_bit(x)))
        == sign_bit(x));
}

/// From magnitudes that keep their order, and signs that stay, to values
/// that keep their order.
proof fn lemma_order_from_magnitudes(x: u64, y: u64, fx: u64, fy: u64)
    requires
        at_most(x, y),
        !is_nan(fx),
        !is_nan(fy),
        sign_bit(fx) == sign_bit(x),
        sign_bit(fy) == sign_bit(y),
        magnitude(x) <= magnitude(y) ==> magnitude(fx) <= magnitude(fy),
        magnitude(y) <= magnitude(x) ==> magnitude(fy) <= magnitude(fx),
        magnitude(y) == 0 ==> magnitude(fy) == 0,
    ensures
        at_most(fx, fy),
{
}

/// If `x <= y` then `x * c <= y * c`, for `c` positive and finite.
pub proof fn lemma_product_monotone(x: u64, y: u64, c: u64)
    requires
        at_most(x, y),
        positive_finite(c),
    ensures
        at_most(product(x, c), product(y, c)),
{
    let p = pow2(1074);
    let mc = magnitude(c);
    lemma_pow2_pos(1074);
    lemma_product_magnitude(x, c);
    lemma_product_magnitude(y, c);
    lemma_field_bounds(x);
    lemma_field_bounds(y);
    if is_finite(x) && is_finite(y) {
        if magnitude(x) <= magnitude(y) {
            assert(magnitude(x) * mc <= magnitude(y) * mc) by (nonlinear_arith)
                requires
                    magnitude(x) <= magnitude(y),
            ;
            lemma_rounded_magnitude_monotone(magnitude(x) * mc, magnitude(y) * mc, p);
        }
        if magnitude(y) <= magnitude(x) {
            assert(magnitude(y) * mc <= magnitude(x) * mc) by (nonlinear_arith)
                requires
                    magnitude(y) <= magnitude(x),
            ;
            lemma_rounded_magnitude_monotone(magnitude(y) * mc, magnitude(x) * mc, p);
        }
    }
    lemma_magnitude_bound(x);
    lemma_magnitude_bound(y);
    if magnitude(y) == 0 {
        assert(magnitude(y) * mc == 0) by (nonlinear_arith)
            requires
                magnitude(y) == 0,
        ;
        lemma_rounded_zero(sign_bit(y), p);
    }
    lemma_order_from_magnitudes(x, y, product(x, c), product(y, c));
}

/// If `x <= y` then `x / c <= y / c`, for `c` positive and finite.
pub proof fn lemma_quotient_monotone(x: u64, y: u64, c: u64)
    requires
        at_most(x, y),
        positive_finite(c),
    ensures
        at_most(quotient(x, c), quotient(y, c)),
{
    let p = pow2(1074);
    let mc = magnitude(c);
    lemma_pow2_pos(1074);
    lemma_zero_magnitude(c);
    lemma_quotient_magnitude(x, c);
    lemma_quotient_magnitude(y, c);
    lemma_field_bounds(x);
    lemma_field_bounds(y);
    if is_finite(x) && is_finite(y) {
        if magnitude(x) <= magnitude(y) {
            assert(magnitude(x) * p <= magnitude(y) * p) by (nonlinear_arith)
                requires
                    magnitude(x) <= magnitude(y),
            ;
            lemma_rounded_magnitude_monotone(magnitude(x) * p, magnitude(y) * p, mc);
        }
        if magnitude(y) <= magnitude(x) {
            assert(magnitude(y) * p <= magnitude(x) * p) by (nonlinear_arith)
                requires
                    magnitude(y) <= magnitude(x),
            ;
            lemma_rounded_magnitude_monotone(magnitude(y) * p, magnitude(x) * p, mc);
        }
    }
    lemma_magnitude_bound(x);
    lemma_magnitude_bound(y);
    if magnitude(y) == 0 {
        assert(magnitude(y) * p == 0) by (nonlinear_arith)
            requires
                magnitude(y) == 0,
        ;
        lemma_rounded_zero(sign_bit(y), mc);
    }
    lemma_order_from_magnitudes(x, y, quotient(x, c), quotient(y, c));
}

} // verus!
