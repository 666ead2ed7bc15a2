//! Equality and order of binary64 numbers.
//!
//! Numbers compare by value: the two zeros are equal, and a NaN is neither
//! equal to nor below or above anything, itself included.

use vstd::prelude::*;
use std::cmp::Ordering;
use vstd::arithmetic::power2::{pow2, lemma_pow2_pos, lemma_pow2_unfold, lemma2_to64};
use crate::binary64::format::{
    abs_bits, is_nan, magnitude, units, significand, scale, exponent_field, fraction_field,
    SIGN_BIT, sign_of, nan, lemma_field_bounds, lemma_zero_magnitude,
};
use crate::binary64::power::lemma_pow2_increases;

verus! {

/// Whether two binary64 numbers have the same value.
pub open spec fn equal(a: u64, b: u64) -> bool {
    !is_nan(a) && !is_nan(b) && units(a) == units(b)
}

/// Whether the value of `a` lies below that of `b`.
pub open spec fn less(a: u64, b: u64) -> bool {
    !is_nan(a) && !is_nan(b) && units(a) < units(b)
}

/// Whether the value of `a` lies below that of `b` or equals it.
pub open spec fn at_most(a: u64, b: u64) -> bool {
    !is_nan(a) && !is_nan(b) && units(a) <= units(b)
}

/// How `a` stands to `b`: below, equal or above, or nothing where either is
/// a NaN.
pub open spec fn ordering(a: u64, b: u64) -> Option<Ordering> {
    if less(a, b) {
        Some(Ordering::Less)
    } else if less(b, a) {
        Some(Ordering::Greater)
    } else if equal(a, b) {
        Some(Ordering::Equal)
    } else {
        None
    }
}

/// Among patterns that are not NaN, the magnitude grows with the pattern
/// taken without its sign.
pub proof fn lemma_magnitude_order(a: u64, b: u64)
    requires
        !is_nan(a),
        !is_nan(b),
    ensures
        abs_bits(a) < abs_bits(b) <==> magnitude(a) < magnitude(b),
        abs_bits(a) == abs_bits(b) <==> magnitude(a) == magnitude(b),
{
    lemma_order_one_way(a, b);
    lemma_order_one_way(b, a);
}

proof fn lemma_order_one_way(a: u64, b: u64)
    ensures
        abs_bits(a) < abs_bits(b) ==> magnitude(a) < magnitude(b),
        abs_bits(a) == abs_bits(b) ==> magnitude(a) == magnitude(b),
{
    lemma2_to64();
    lemma_field_bounds(a);
    lemma_field_bounds(b);
    let ma = significand(a);
    let mb = significand(b);
    let pa = pow2(scale(a));
    let pb = pow2(scale(b));
    lemma_pow2_pos(scale(a));
    lemma_pow2_pos(scale(b));
    assert(abs_bits(a) == exponent_field(a) * 0x0010_0000_0000_0000 + fraction_field(a));
    assert(abs_bits(b) == exponent_field(b) * 0x0010_0000_0000_0000 + fraction_field(b));
    if abs_bits(a) < abs_bits(b) {
        if exponent_field(a) == exponent_field(b) {
            assert(ma * pa < mb * pb) by (nonlinear_arith)
                requires
                    ma < mb,
                    pa == pb,
                    pa > 0,
            ;
        } else {
            assert(exponent_field(a) < exponent_field(b));
            if exponent_field(a) == 0 {
                lemma_pow2_increases(0, scale(b));
                assert(ma * pa < mb * pb) by (nonlinear_arith)
                    requires
                        ma < 0x0010_0000_0000_0000,
                        mb >= 0x0010_0000_0000_0000,
                        pa == 1,
                        pb >= 1,
                ;
            } else {
                lemma_pow2_unfold(scale(a) + 1);
                lemma_pow2_increases(scale(a) + 1, scale(b));
                assert(ma * pa < mb * pb) by (nonlinear_arith)
                    requires
                        ma < 0x0020_0000_0000_0000,
                        mb >= 0x0010_0000_0000_0000,
                        pb >= 2 * pa,
                        pa > 0,
                ;
            }
        }
    }
}

/// Whether `a` and `b` have the same value.
pub fn is_equal(a: u64, b: u64) -> (r: bool)
    ensures
        r == equal(a, b),
{
    if nan(a) || nan(b) {
        return false;
    }
    proof {
        lemma_magnitude_order(a, b);
        lemma_zero_magnitude(a);
        lemma_zero_magnitude(b);
    }
    a == b || (a % SIGN_BIT == 0 && b % SIGN_BIT == 0)
}

/// Whether the value of `a` lies below that of `b`.
pub fn is_less(a: u64, b: u64) -> (r: bool)
    ensures
        r == less(a, b),
{
    if nan(a) || nan(b) {
        return false;
    }
    proof {
        lemma_magnitude_order(a, b);
        lemma_zero_magnitude(a);
        lemma_zero_magnitude(b);
    }
    let xa: u64 = a % SIGN_BIT;
    let xb: u64 = b % SIGN_BIT;
    if sign_of(a) {
        if sign_of(b) {
            xb < xa
        } else {
            xa != 0 || xb != 0
        }
    } else {
        !sign_of(b) && xa < xb
    }
}

/// Compares the values of `a` and `b`.
pub fn compare(a: u64, b: u64) -> (r: Option<Ordering>)
    ensures
        r == ordering(a, b),
{
    if is_less(a, b) {
        Some(Ordering::Less)
    } else if is_less(b, a) {
        Some(Ordering::Greater)
    } else if is_equal(a, b) {
        Some(Ordering::Equal)
    } else {
        None
    }
}

} // verus!
