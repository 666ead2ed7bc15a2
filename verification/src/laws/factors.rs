//! The five conversion factors, and the sizes of magnitude for which the
//! laws of conversion are stated.

use vstd::prelude::*;
use vstd::arithmetic::power2::pow2;
use crate::angle::{HALF_TURN_DEGREES, PI};
use crate::binary64::format::{magnitude, exponent_field, significand, scale};
use crate::binary64::monotone::positive_finite;
use crate::binary64::tolerance::{in_range, lemma_normal_range, lemma_in_range_widen};
use crate::length::{METERS_PER_KILOMETER, METERS_PER_MILE, KILOMETERS_PER_MILE};

verus! {

/// A finite magnitude from 2^-900 up to 2^900: where a few conversions in a
/// row stay clear of the subnormal numbers and of the infinities.
pub open spec fn ordinary(x: u64) -> bool {
    in_range(x, 174, 1974)
}

/// A finite magnitude from 2^-300 up to 2^300: where the product of two
/// stays clear of the subnormal numbers and of the infinities.
pub open spec fn moderate(x: u64) -> bool {
    in_range(x, 774, 1374)
}

/// Whether `c` is a positive finite number from 1 up to 2048.
pub open spec fn factor(c: u64) -> bool {
    positive_finite(c) && in_range(c, 1074, 1085)
}

/// Each of the five conversion factors is a positive finite number from 1
/// up to 2048, of the significand and scale given.
pub proof fn lemma_factors()
    ensures
        factor(METERS_PER_KILOMETER),
        factor(METERS_PER_MILE),
        factor(KILOMETERS_PER_MILE),
        factor(HALF_TURN_DEGREES),
        factor(PI),
        magnitude(METERS_PER_KILOMETER) == 0x001f_4000_0000_0000 * pow2(1031),
        magnitude(METERS_PER_MILE) == 0x0019_2560_4189_374c * pow2(1032),
        magnitude(KILOMETERS_PER_MILE) == 0x0019_bfdf_7e80_38a0 * pow2(1022),
{
    lemma_factor(METERS_PER_KILOMETER);
    lemma_factor(METERS_PER_MILE);
    lemma_factor(KILOMETERS_PER_MILE);
    lemma_factor(HALF_TURN_DEGREES);
    lemma_factor(PI);
}

/// A positive number whose exponent field lies from 1023 to 1033 is a
/// factor.
proof fn lemma_factor(c: u64)
    requires
        c < 0x8000_0000_0000_0000,
        1023 <= exponent_field(c) <= 1033,
    ensures
        factor(c),
{
    lemma_normal_range(c);
    lemma_in_range_widen(c, exponent_field(c) + 51, exponent_field(c) + 52, 1074, 1085);
}

} // verus!
