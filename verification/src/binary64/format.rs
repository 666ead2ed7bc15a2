//! The binary64 interchange format: fields, classes and the exact value of a
//! bit pattern.
//!
//! The smallest positive binary64 number is 2^-1074, and every finite
//! binary64 number is a whole multiple of it. That number is the *unit* of
//! this module: the model of a finite bit pattern is the integer count of
//! units it stands for.

use vstd::prelude::*;
use vstd::arithmetic::power2::{
    pow2, lemma_pow2_pos, lemma_pow2_adds, lemma_pow2_unfold, lemma2_to64, lemma2_to64_rest,
};
use vstd::arithmetic::div_mod::{
    lemma_div_denominator, lemma_fundamental_div_mod, lemma_div_multiples_vanish,
    lemma_mod_multiples_basic,
};
use vstd::arithmetic::mul::lemma_mul_is_commutative;
use crate::binary64::power::lemma_pow2_increases;

verus! {

/// Bit 63, the sign.
pub const SIGN_BIT: u64 = 0x8000_0000_0000_0000;

/// Bit 52: the lowest bit of the exponent field, and the leading bit of a
/// normal significand.
pub const HIDDEN_BIT: u64 = 0x0010_0000_0000_0000;

/// The pattern of positive infinity.
pub const INFINITY: u64 = 0x7ff0_0000_0000_0000;

/// The one NaN pattern that the operations of this crate produce.
pub const NAN: u64 = 0x7ff8_0000_0000_0000;

/// The largest scale of a finite number.
pub const MAX_SCALE: u32 = 2045;

/// Whether the sign bit is set.
pub open spec fn sign_bit(bits: u64) -> bool {
    bits >= 0x8000_0000_0000_0000
}

/// The pattern without its sign bit.
pub open spec fn abs_bits(bits: u64) -> u64 {
    (bits % 0x8000_0000_0000_0000) as u64
}

/// The eleven bits of the biased exponent.
pub open spec fn exponent_field(bits: u64) -> nat {
    ((bits / 0x0010_0000_0000_0000) % 0x800) as nat
}

/// The fifty-two bits of the trailing significand.
pub open spec fn fraction_field(bits: u64) -> nat {
    (bits % 0x0010_0000_0000_0000) as nat
}

/// Whether the pattern is a NaN: all ones in the exponent, and a fraction
/// that is not zero.
pub open spec fn is_nan(bits: u64) -> bool {
    exponent_field(bits) == 0x7ff && fraction_field(bits) != 0
}

/// Whether the pattern is an infinity: all ones in the exponent, and a zero
/// fraction.
pub open spec fn is_infinite(bits: u64) -> bool {
    exponent_field(bits) == 0x7ff && fraction_field(bits) == 0
}

/// Whether the pattern is a finite number: a zero, a subnormal or a normal
/// one.
pub open spec fn is_finite(bits: u64) -> bool {
    exponent_field(bits) < 0x7ff
}

/// Whether the pattern is one of the two zeros.
pub open spec fn is_zero(bits: u64) -> bool {
    abs_bits(bits) == 0
}

/// The integer significand: the fraction field, with the hidden bit unless
/// the number is subnormal.
pub open spec fn significand(bits: u64) -> nat {
    if exponent_field(bits) == 0 {
        fraction_field(bits)
    } else {
        0x0010_0000_0000_0000 + fraction_field(bits)
    }
}

/// The power of two that the significand is multiplied by, counted in units.
pub open spec fn scale(bits: u64) -> nat {
    if exponent_field(bits) == 0 {
        0
    } else {
        (exponent_field(bits) - 1) as nat
    }
}

/// The absolute value in units of 2^-1074. By the same formula an infinity
/// stands at 2^2098 units, above every finite magnitude.
pub open spec fn magnitude(bits: u64) -> nat {
    significand(bits) * pow2(scale(bits))
}

/// The signed value in units of 2^-1074.
pub open spec fn units(bits: u64) -> int {
    if sign_bit(bits) {
        -(magnitude(bits) as int)
    } else {
        magnitude(bits) as int
    }
}

/// The sign bit as a pattern.
pub open spec fn sign_pattern(negative: bool) -> u64 {
    if negative {
        0x8000_0000_0000_0000
    } else {
        0
    }
}

/// The zero of the given sign.
pub open spec fn zero_bits(negative: bool) -> u64 {
    sign_pattern(negative)
}

/// The infinity of the given sign.
pub open spec fn infinity_bits(negative: bool) -> u64 {
    (sign_pattern(negative) + 0x7ff0_0000_0000_0000) as u64
}

/// The number of halvings that bring `m` below 2^53: the exponent of the
/// spacing between neighbouring binary64 magnitudes at `m` units.
pub open spec fn spacing_exp(m: nat) -> nat
    decreases m,
{
    if m < 0x0020_0000_0000_0000 {
        0
    } else {
        1 + spacing_exp(m / 2)
    }
}

/// Whether a count of units has at most fifty-three significant bits: it
/// is a whole multiple of the spacing at its size.
pub open spec fn fits(m: nat) -> bool {
    m % pow2(spacing_exp(m)) == 0
}

/// Whether a count of units is the magnitude of a finite binary64 number: at
/// most fifty-three significant bits, and below 2^2098.
pub open spec fn representable(m: nat) -> bool {
    fits(m) && m < pow2(2098)
}

/// The finite pattern of the given sign and magnitude.
pub open spec fn finite_bits(negative: bool, m: nat) -> u64
    recommends
        representable(m),
{
    (sign_pattern(negative) + spacing_exp(m) * 0x0010_0000_0000_0000 + m / pow2(
        spacing_exp(m),
    )) as u64
}

/// Whether the sign bit is set.
pub fn sign_of(bits: u64) -> (r: bool)
    ensures
        r == sign_bit(bits),
{
    bits >= SIGN_BIT
}

/// The biased exponent.
pub fn exponent_of(bits: u64) -> (r: u32)
    ensures
        r == exponent_field(bits),
        r <= 0x7ff,
{
    ((bits / HIDDEN_BIT) % 0x800) as u32
}

/// The trailing significand.
pub fn fraction_of(bits: u64) -> (r: u64)
    ensures
        r == fraction_field(bits),
        r < 0x0010_0000_0000_0000,
{
    bits % HIDDEN_BIT
}

/// Whether the pattern is a NaN.
pub fn nan(bits: u64) -> (r: bool)
    ensures
        r == is_nan(bits),
{
    exponent_of(bits) == 0x7ff && fraction_of(bits) != 0
}

/// Whether the pattern is an infinity.
pub fn infinite(bits: u64) -> (r: bool)
    ensures
        r == is_infinite(bits),
{
    exponent_of(bits) == 0x7ff && fraction_of(bits) == 0
}

/// Whether the pattern is one of the two zeros.
pub fn zero(bits: u64) -> (r: bool)
    ensures
        r == is_zero(bits),
{
    bits % SIGN_BIT == 0
}

/// The integer significand.
pub fn significand_of(bits: u64) -> (r: u64)
    ensures
        r == significand(bits),
        r < 0x0020_0000_0000_0000,
        exponent_field(bits) > 0 ==> r >= 0x0010_0000_0000_0000,
{
    if exponent_of(bits) == 0 {
        fraction_of(bits)
    } else {
        HIDDEN_BIT + fraction_of(bits)
    }
}

/// The power of two of the significand, counted in units.
pub fn scale_of(bits: u64) -> (r: u32)
    ensures
        r == scale(bits),
        r <= 2046,
        is_finite(bits) ==> r <= 2045,
{
    let e: u32 = exponent_of(bits);
    if e == 0 {
        0
    } else {
        e - 1
    }
}

/// The spacing exponent of `f` is the one `j` that brings `f / 2^j` into
/// [2^52, 2^53), or 0 when `f` is below 2^53.
pub proof fn lemma_spacing_exp_unique(f: nat, j: nat)
    requires
        f / pow2(j) < 0x0020_0000_0000_0000,
        j > 0 ==> f / pow2(j) >= 0x0010_0000_0000_0000,
    ensures
        spacing_exp(f) == j,
    decreases j,
{
    lemma2_to64();
    if j == 0 {
        assert(f / 1 == f);
    } else {
        lemma_pow2_unfold(j);
        lemma_pow2_pos((j - 1) as nat);
        let h = pow2((j - 1) as nat) as int;
        lemma_div_denominator(f as int, 2, h);
        assert(2 * h == pow2(j));
        assert((f / 2) / (h as nat) == f / pow2(j));
        // f >= 2^52 * 2^j >= 2^53
        lemma_fundamental_div_mod(f as int, pow2(j) as int);
        assert(f >= 0x0020_0000_0000_0000) by (nonlinear_arith)
            requires
                f == pow2(j) * (f / pow2(j)) + f % pow2(j),
                f % pow2(j) >= 0,
                f / pow2(j) >= 0x0010_0000_0000_0000,
                pow2(j) == 2 * h,
                h >= 1,
        ;
        lemma_spacing_exp_unique(f / 2, (j - 1) as nat);
    }
}

/// The quotient of `f` by its own spacing lies in [2^52, 2^53), or below
/// 2^53 where the spacing exponent is 0.
pub proof fn lemma_spacing_exp_quotient(f: nat)
    ensures
        f / pow2(spacing_exp(f)) < 0x0020_0000_0000_0000,
        spacing_exp(f) > 0 ==> f / pow2(spacing_exp(f)) >= 0x0010_0000_0000_0000,
    decreases f,
{
    lemma2_to64();
    if f < 0x0020_0000_0000_0000 {
        assert(f / 1 == f);
    } else {
        let j = spacing_exp(f);
        lemma_spacing_exp_quotient(f / 2);
        lemma_pow2_unfold(j);
        lemma_pow2_pos((j - 1) as nat);
        let h = pow2((j - 1) as nat) as int;
        lemma_div_denominator(f as int, 2, h);
        assert((f / 2) / (h as nat) == f / pow2(j));
        if j == 1 {
            assert(f / 2 >= 0x0010_0000_0000_0000);
            assert((f / 2) / 1 == f / 2);
        }
    }
}

/// A significand of at most fifty-three bits, at any scale, fits.
pub proof fn lemma_fits(m: nat, t: nat)
    requires
        m <= 0x0020_0000_0000_0000,
    ensures
        fits(m * pow2(t)),
    decreases t,
{
    lemma2_to64();
    let v = m * pow2(t);
    lemma_pow2_pos(t);
    if m == 0x0020_0000_0000_0000 {
        lemma_pow2_unfold(t + 1);
        lemma_pow2_pos(t + 1);
        assert(v == 0x0010_0000_0000_0000 * pow2(t + 1)) by (nonlinear_arith)
            requires
                v == m * pow2(t),
                m == 0x0020_0000_0000_0000,
                pow2(t + 1) == 2 * pow2(t),
        ;
        lemma_div_multiples_vanish(0x0010_0000_0000_0000, pow2(t + 1) as int);
        lemma_mul_is_commutative(0x0010_0000_0000_0000, pow2(t + 1) as int);
        lemma_spacing_exp_unique(v, t + 1);
        lemma_mod_multiples_basic(0x0010_0000_0000_0000, pow2(t + 1) as int);
    } else if t == 0 || m >= 0x0010_0000_0000_0000 {
        lemma_div_multiples_vanish(m as int, pow2(t) as int);
        lemma_mul_is_commutative(m as int, pow2(t) as int);
        lemma_spacing_exp_unique(v, t);
        lemma_mod_multiples_basic(m as int, pow2(t) as int);
    } else {
        lemma_pow2_unfold(t);
        assert(m * pow2(t) == (2 * m) * pow2((t - 1) as nat)) by (nonlinear_arith)
            requires
                pow2(t) == 2 * pow2((t - 1) as nat),
        ;
        lemma_fits(2 * m, (t - 1) as nat);
    }
}

/// The significand and the scale stay within the format.
pub proof fn lemma_field_bounds(bits: u64)
    ensures
        significand(bits) < 0x0020_0000_0000_0000,
        exponent_field(bits) > 0 ==> significand(bits) >= 0x0010_0000_0000_0000,
        scale(bits) <= 2046,
        is_finite(bits) ==> scale(bits) <= 2045,
        is_finite(bits) || is_infinite(bits) || is_nan(bits),
        bits == sign_pattern(sign_bit(bits)) + exponent_field(bits) * 0x0010_0000_0000_0000
            + fraction_field(bits),
{
}

/// A finite magnitude lies below 2^2098 units, where the infinities stand.
pub proof fn lemma_magnitude_bound(bits: u64)
    ensures
        is_finite(bits) ==> magnitude(bits) < pow2(2098),
        is_infinite(bits) ==> magnitude(bits) == pow2(2098),
{
    lemma2_to64();
    lemma2_to64_rest();
    lemma_pow2_adds(53, 2045);
    lemma_pow2_adds(52, 2046);
    if is_finite(bits) {
        lemma_pow2_increases(scale(bits), 2045);
        lemma_pow2_pos(scale(bits));
        assert(significand(bits) * pow2(scale(bits)) < 0x0020_0000_0000_0000 * pow2(2045))
            by (nonlinear_arith)
            requires
                significand(bits) < 0x0020_0000_0000_0000,
                0 < pow2(scale(bits)) <= pow2(2045),
        ;
    }
}

/// A finite pattern is the pattern of its own sign and magnitude.
pub proof fn lemma_finite_bits_of_magnitude(bits: u64)
    requires
        is_finite(bits),
    ensures
        representable(magnitude(bits)),
        finite_bits(sign_bit(bits), magnitude(bits)) == bits,
{
    let m = significand(bits);
    let t = scale(bits);
    let v = magnitude(bits);
    lemma_field_bounds(bits);
    lemma_magnitude_bound(bits);
    lemma_pow2_pos(t);
    lemma_div_multiples_vanish(m as int, pow2(t) as int);
    lemma_mul_is_commutative(m as int, pow2(t) as int);
    lemma_spacing_exp_unique(v, t);
    lemma_mod_multiples_basic(m as int, pow2(t) as int);
}

/// A zero has magnitude 0 and nothing else has.
pub proof fn lemma_zero_magnitude(bits: u64)
    ensures
        is_zero(bits) <==> magnitude(bits) == 0,
        is_zero(bits) ==> is_finite(bits),
{
    lemma_pow2_pos(scale(bits));
    if is_zero(bits) {
        assert(significand(bits) == 0);
        assert(magnitude(bits) == 0) by (nonlinear_arith)
            requires
                magnitude(bits) == significand(bits) * pow2(scale(bits)),
                significand(bits) == 0,
        ;
    } else {
        assert(significand(bits) > 0);
        assert(magnitude(bits) > 0) by (nonlinear_arith)
            requires
                magnitude(bits) == significand(bits) * pow2(scale(bits)),
                significand(bits) > 0,
                pow2(scale(bits)) > 0,
        ;
    }
}

} // verus!
