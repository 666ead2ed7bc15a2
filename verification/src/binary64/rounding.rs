//! Rounding an exact value to the nearest binary64 number, ties to even.
//!
//! The exact value is a non-negative rational number of units, `n / d`. The
//! neighbouring binary64 magnitudes around it are `2^j` units apart, where
//! `j` is the spacing exponent of its integer part; the value is divided by
//! that spacing, rounded to the nearest integer, and multiplied back.

use vstd::prelude::*;
use vstd::arithmetic::power2::{
    pow2, lemma_pow2_pos, lemma_pow2_adds, lemma_pow2_unfold, lemma2_to64, lemma2_to64_rest,
};
use vstd::arithmetic::div_mod::{
    lemma_div_denominator, lemma_fundamental_div_mod, lemma_fundamental_div_mod_converse,
    lemma_div_multiples_vanish,
};
use vstd::arithmetic::mul::lemma_mul_is_commutative;
use crate::binary64::format::{
    spacing_exp, finite_bits, infinity_bits, sign_pattern, lemma_spacing_exp_unique, SIGN_BIT,
    HIDDEN_BIT, INFINITY, MAX_SCALE,
};
use crate::binary64::power::{
    lemma_pow2_increases, lemma_bit_len_bounds, bit_length, pow2_u64, pow2_u128, div_pow2,
};

verus! {

/// The integer nearest to `n / d`; of two equally near, the even one.
pub open spec fn round_half_even(n: nat, d: nat) -> nat {
    let q = n / d;
    let r = n % d;
    if 2 * r < d || (2 * r == d && q % 2 == 0) {
        q
    } else {
        q + 1
    }
}

/// The binary64 magnitude nearest to `n / d` units, ties to the even
/// significand. It may reach 2^2098, where the finite numbers end.
pub open spec fn rounded_magnitude(n: nat, d: nat) -> nat {
    let j = spacing_exp(n / d);
    round_half_even(n, d * pow2(j)) * pow2(j)
}

/// The pattern of the given sign that `n / d` units round to: the nearest
/// finite number, or the infinity when that lies beyond the largest one.
pub open spec fn rounded(negative: bool, n: nat, d: nat) -> u64 {
    let m = rounded_magnitude(n, d);
    if m >= pow2(2098) {
        infinity_bits(negative)
    } else {
        finite_bits(negative, m)
    }
}

/// Where an integer `sig` brackets a rational `n / d` from below on a grid of
/// `w / b`, its quotient and remainder by `p` bracket those of `n` by the
/// coarser grid `dd = w * p / b`.
pub proof fn lemma_window(n: int, dd: int, b: int, w: int, p: int, sig: int, sticky: bool)
    requires
        n >= 0,
        sig >= 0,
        dd > 0,
        b > 0,
        w > 0,
        p > 0,
        dd * b == w * p,
        sig * w <= n * b < (sig + 1) * w,
        sticky <==> sig * w != n * b,
    ensures
        n / dd == sig / p,
        (sig % p) * w <= (n % dd) * b < (sig % p + 1) * w,
        sticky <==> (sig % p) * w != (n % dd) * b,
{
    let q = sig / p;
    let rem = sig % p;
    lemma_fundamental_div_mod(sig, p);
    assert(sig == p * q + rem);
    assert(0 <= rem < p);
    // n * b lies in [q * (dd * b) + rem * w, q * (dd * b) + (rem + 1) * w)
    assert(sig * w == q * (dd * b) + rem * w) by (nonlinear_arith)
        requires
            sig == p * q + rem,
            dd * b == w * p,
    ;
    assert((sig + 1) * w == q * (dd * b) + (rem + 1) * w) by (nonlinear_arith)
        requires
            sig == p * q + rem,
            dd * b == w * p,
    ;
    assert((rem + 1) * w <= dd * b) by (nonlinear_arith)
        requires
            rem + 1 <= p,
            dd * b == w * p,
            w > 0,
    ;
    assert(rem * w >= 0) by (nonlinear_arith)
        requires
            rem >= 0,
            w > 0,
    ;
    let r = n - q * dd;
    assert(r * b == n * b - q * (dd * b)) by (nonlinear_arith)
        requires
            r == n - q * dd,
    ;
    assert(0 <= r * b < dd * b);
    assert(0 <= r < dd) by (nonlinear_arith)
        requires
            0 <= r * b < dd * b,
            b > 0,
    ;
    assert(n == q * dd + r);
    lemma_fundamental_div_mod_converse(n, dd, q, r);
}

/// The pattern that a significand `m` at spacing exponent `j` packs to.
pub proof fn lemma_pack(negative: bool, m: nat, j: nat)
    requires
        m <= 0x0020_0000_0000_0000,
        j <= 2045,
        j > 0 ==> m >= 0x0010_0000_0000_0000,
    ensures
        m * pow2(j) >= pow2(2098) ==> j == 2045 && m == 0x0020_0000_0000_0000,
        m * pow2(j) < pow2(2098) ==> finite_bits(negative, m * pow2(j)) == sign_pattern(negative)
            + j * 0x0010_0000_0000_0000 + m,
{
    lemma2_to64();
    lemma2_to64_rest();
    lemma_pow2_pos(j);
    lemma_pow2_adds(53, 2045);
    lemma_pow2_increases(j, 2045);
    let mag = m * pow2(j);
    let top = pow2(2045);
    if m < 0x0020_0000_0000_0000 {
        assert(m * pow2(j) < 0x0020_0000_0000_0000 * top) by (nonlinear_arith)
            requires
                m < 0x0020_0000_0000_0000,
                0 < pow2(j) <= top,
        ;
        lemma_div_multiples_vanish(m as int, pow2(j) as int);
        lemma_mul_is_commutative(m as int, pow2(j) as int);
        lemma_spacing_exp_unique(mag, j);
    } else {
        if j < 2045 {
            lemma_pow2_unfold(j + 1);
            lemma_pow2_pos(j + 1);
            lemma_pow2_increases(j + 1, 2045);
            assert(mag == 0x0010_0000_0000_0000 * pow2(j + 1)) by (nonlinear_arith)
                requires
                    mag == m * pow2(j),
                    m == 0x0020_0000_0000_0000,
                    pow2(j + 1) == 2 * pow2(j),
            ;
            assert(mag < 0x0020_0000_0000_0000 * top) by (nonlinear_arith)
                requires
                    mag == 0x0010_0000_0000_0000 * pow2(j + 1),
                    0 < pow2(j + 1) <= top,
            ;
            lemma_div_multiples_vanish(0x0010_0000_0000_0000, pow2(j + 1) as int);
            lemma_mul_is_commutative(0x0010_0000_0000_0000, pow2(j + 1) as int);
            lemma_spacing_exp_unique(mag, j + 1);
        }
    }
}

/// Zero rounds to the zero of the given sign.
pub proof fn lemma_rounded_zero(negative: bool, d: nat)
    requires
        d > 0,
    ensures
        rounded(negative, 0, d) == sign_pattern(negative),
        rounded_magnitude(0, d) == 0,
{
    lemma2_to64();
    lemma_pow2_pos(2098);
    assert(0nat / d == 0 && 0nat % d == 0) by {
        lemma_fundamental_div_mod_converse(0, d as int, 0, 0);
    }
    assert(d * pow2(0) == d);
    assert(spacing_exp(0nat / d) == 0);
    assert(round_half_even(0, d) == 0);
    assert(rounded_magnitude(0, d) == 0);
}

/// A magnitude of at most fifty-three significant bits rounds to itself.
pub proof fn lemma_rounded_magnitude_exact(m: nat, t: nat)
    requires
        m < 0x0020_0000_0000_0000,
    ensures
        rounded_magnitude(m * pow2(t), 1) == m * pow2(t),
    decreases t,
{
    lemma2_to64();
    let v = m * pow2(t);
    if t == 0 || m >= 0x0010_0000_0000_0000 {
        lemma_pow2_pos(t);
        lemma_div_multiples_vanish(m as int, pow2(t) as int);
        lemma_mul_is_commutative(m as int, pow2(t) as int);
        assert(v / 1 == v);
        lemma_spacing_exp_unique(v, t);
        lemma_fundamental_div_mod_converse(v as int, pow2(t) as int, m as int, 0);
        assert(1 * pow2(t) == pow2(t));
    } else {
        lemma_pow2_unfold(t);
        assert(m * pow2(t) == (2 * m) * pow2((t - 1) as nat)) by (nonlinear_arith)
            requires
                pow2(t) == 2 * pow2((t - 1) as nat),
        ;
        lemma_rounded_magnitude_exact(2 * m, (t - 1) as nat);
    }
}

/// The offset of the exponents that `round_pack` takes, so that none is
/// negative: an exponent `k` stands for the factor 2^(k - 1200).
pub const BIAS: u32 = 1200;

/// Whether `sig * 2^(k - BIAS)` is the exact value `n / d` cut off below its
/// last bit, with `sticky` telling whether anything was cut off.
pub open spec fn brackets(sig: nat, k: nat, sticky: bool, n: nat, d: nat) -> bool {
    &&& sig * (pow2(k) * d) <= n * pow2(BIAS as nat)
    &&& n * pow2(BIAS as nat) < (sig + 1) * (pow2(k) * d)
    &&& sticky <==> sig * (pow2(k) * d) != n * pow2(BIAS as nat)
}

/// What `round_half_even` gives on a quotient `q` whose remainder is known
/// against one half by `rem` and `half`.
proof fn lemma_round_decision(n: int, dd: int, b: int, w: int, half: int, rem: int, sticky: bool)
    requires
        n >= 0,
        dd > 0,
        b > 0,
        w > 0,
        half > 0,
        0 <= rem < 2 * half,
        dd * b == w * (2 * half),
        rem * w <= (n % dd) * b < (rem + 1) * w,
        sticky <==> rem * w != (n % dd) * b,
    ensures
        2 * (n % dd) < dd <==> rem < half,
        2 * (n % dd) == dd <==> rem == half && !sticky,
{
    let r = n % dd;
    if rem < half {
        assert(2 * r < dd) by (nonlinear_arith)
            requires
                r * b < (rem + 1) * w,
                rem + 1 <= half,
                dd * b == w * (2 * half),
                b > 0,
                w > 0,
        ;
    } else if rem > half {
        assert(2 * r > dd) by (nonlinear_arith)
            requires
                rem * w <= r * b,
                rem >= half + 1,
                dd * b == w * (2 * half),
                b > 0,
                w > 0,
        ;
    } else {
        assert(2 * r >= dd) by (nonlinear_arith)
            requires
                rem * w <= r * b,
                rem == half,
                dd * b == w * (2 * half),
                b > 0,
                w > 0,
        ;
        assert((2 * r == dd) <==> (rem * w == r * b)) by (nonlinear_arith)
            requires
                rem == half,
                dd * b == w * (2 * half),
                b > 0,
                w > 0,
        ;
    }
}

/// Rounds `sig * 2^(k - BIAS)`, or, with `sticky`, a value strictly between
/// that and the next such number, to the nearest binary64 number of the given
/// sign. `n / d` names the exact value, in units.
pub(crate) fn round_pack(
    negative: bool,
    sig: u128,
    k: u32,
    sticky: bool,
    Ghost(n): Ghost<nat>,
    Ghost(d): Ghost<nat>,
) -> (r: u64)
    requires
        d > 0,
        sig < pow2(120),
        k <= 8000,
        brackets(sig as nat, k as nat, sticky, n, d),
        sticky ==> sig >= pow2(53) || k < BIAS,
    ensures
        r == rounded(negative, n, d),
{
    let sign: u64 = if negative { SIGN_BIT } else { 0 };
    let len: u32 = bit_length(sig);
    proof {
        lemma2_to64();
        lemma2_to64_rest();
        lemma_bit_len_bounds(sig as nat);
        lemma_pow2_pos(k as nat);
        lemma_pow2_pos(BIAS as nat);
        if len > 120 {
            lemma_pow2_increases(120, (len - 1) as nat);
        }
    }
    if sig == 0 && !sticky {
        proof {
            assert(n * pow2(BIAS as nat) == 0);
            assert(n == 0) by (nonlinear_arith)
                requires
                    n * pow2(BIAS as nat) == 0,
                    pow2(BIAS as nat) > 0,
            ;
            lemma_rounded_zero(negative, d);
        }
        return sign;
    }
    // `fit` is the shift that leaves fifty-three bits, `floor` the one that
    // brings the last bit down to one unit; the larger is the shift `s` to
    // make, and `j` the spacing exponent that it leaves.
    let fit: i64 = len as i64 - 53;
    let floor: i64 = BIAS as i64 - k as i64;
    let s: i64 = if fit > floor { fit } else { floor };
    let j: i64 = k as i64 + s - BIAS as i64;
    let ghost b = pow2(BIAS as nat) as int;
    let ghost w = (pow2(k as nat) * d) as int;
    let ghost dd = (d * pow2(j as nat)) as int;
    proof {
        lemma_pow2_pos(j as nat);
        assert(w > 0) by (nonlinear_arith)
            requires
                w == pow2(k as nat) * d,
                d > 0,
                pow2(k as nat) > 0,
        ;
        assert(dd > 0) by (nonlinear_arith)
            requires
                dd == d * pow2(j as nat),
                d > 0,
                pow2(j as nat) > 0,
        ;
    }
    let m: u64;
    if s <= 0 {
        // nothing is cut off: the value is exact
        let sh: u32 = (-s) as u32;
        proof {
            // sig * 2^sh < 2^53
            lemma_pow2_adds(len as nat, sh as nat);
            lemma_pow2_increases((len + sh) as nat, 53);
            lemma_pow2_pos(sh as nat);
            assert(sig * pow2(sh as nat) < pow2(len as nat) * pow2(sh as nat)) by (nonlinear_arith)
                requires
                    sig < pow2(len as nat),
                    pow2(sh as nat) > 0,
            ;
        }
        let factor: u64 = pow2_u64(sh);
        m = (sig as u64) * factor;
        proof {
            // n == m * 2^j * d exactly
            lemma_pow2_adds(sh as nat, j as nat);
            lemma_pow2_adds((sh + j) as nat, BIAS as nat);
            assert(k == sh + j + BIAS);
            let pj = pow2(j as nat) as int;
            let psh = pow2(sh as nat) as int;
            assert(n * b == (m * dd) * b) by (nonlinear_arith)
                requires
                    n * b == sig * w,
                    w == pow2(k as nat) * d,
                    pow2(k as nat) == psh * pj * b,
                    m == sig * psh,
                    dd == d * pj,
            ;
            assert(n == m * dd) by (nonlinear_arith)
                requires
                    n * b == (m * dd) * b,
                    b > 0,
            ;
            lemma_fundamental_div_mod_converse(n as int, dd, m as int, 0);
            assert(round_half_even(n, dd as nat) == m);
            lemma_div_denominator(n as int, d as int, pj);
            if j > 0 {
                // s == len - 53, so the significand is normal
                lemma_pow2_adds((len - 1) as nat, sh as nat);
                assert(sig * psh >= pow2((len - 1) as nat) * psh) by (nonlinear_arith)
                    requires
                        sig >= pow2((len - 1) as nat),
                        psh > 0,
                ;
            }
            lemma_spacing_exp_unique(n / d, j as nat);
        }
    } else if s >= 128 {
        // all of it lies below one half of a unit
        m = 0;
        proof {
            let p = pow2(s as nat) as int;
            let half = pow2((s - 1) as nat) as int;
            lemma_pow2_unfold(s as nat);
            lemma_pow2_pos((s - 1) as nat);
            lemma_pow2_increases(120, (s - 1) as nat);
            lemma_pow2_adds(k as nat, s as nat);
            lemma_pow2_adds(j as nat, BIAS as nat);
            assert(dd * b == w * p) by (nonlinear_arith)
                requires
                    dd == d * pow2(j as nat),
                    w == pow2(k as nat) * d,
                    pow2(j as nat) * b == pow2(k as nat) * p,
            ;
            lemma_window(n as int, dd, b, w, p, sig as int, sticky);
            assert(sig as int / p == 0 && sig as int % p == sig) by {
                lemma_fundamental_div_mod_converse(sig as int, p, 0, sig as int);
            }
            lemma_round_decision(n as int, dd, b, w, half, sig as int, sticky);
            assert(round_half_even(n, dd as nat) == 0);
            lemma_div_denominator(n as int, d as int, pow2(j as nat) as int);
            lemma_spacing_exp_unique(n / d, j as nat);
        }
    } else {
        let su: u32 = s as u32;
        let q: u128 = div_pow2(sig, su);
        let p: u128 = pow2_u128(su);
        let half: u128 = pow2_u128(su - 1);
        proof {
            lemma_pow2_unfold(s as nat);
            lemma_pow2_pos(s as nat);
            lemma_fundamental_div_mod(sig as int, p as int);
            // q < 2^53, and q >= 2^52 when s == len - 53 with len >= 54
            lemma_pow2_adds(53, s as nat);
            lemma_pow2_increases(len as nat, (53 + s) as nat);
            assert(q < pow2(53)) by (nonlinear_arith)
                requires
                    sig == p * q + sig % p,
                    sig % p >= 0,
                    sig < pow2(53) * p,
                    p > 0,
            ;
        }
        // what is cut off, against one half of the last bit kept
        let rem: u128 = sig % p;
        let up: bool = rem > half || (rem == half && (sticky || q % 2 == 1));
        m = if up { q as u64 + 1 } else { q as u64 };
        proof {
            lemma_pow2_adds(k as nat, s as nat);
            lemma_pow2_adds(j as nat, BIAS as nat);
            assert(dd * b == w * p) by (nonlinear_arith)
                requires
                    dd == d * pow2(j as nat),
                    w == pow2(k as nat) * d,
                    pow2(j as nat) * b == pow2(k as nat) * p,
            ;
            lemma_window(n as int, dd, b, w, p as int, sig as int, sticky);
            lemma_round_decision(n as int, dd, b, w, half as int, rem as int, sticky);
            assert(round_half_even(n, dd as nat) == m);
            lemma_div_denominator(n as int, d as int, pow2(j as nat) as int);
            if j > 0 {
                lemma_pow2_adds(52, s as nat);
                assert(q >= pow2(52)) by (nonlinear_arith)
                    requires
                        sig == p * q + sig % p,
                        sig % p < p,
                        sig >= pow2(52) * p,
                        p > 0,
                ;
            }
            lemma_spacing_exp_unique(n / d, j as nat);
        }
    }
    proof {
        assert(rounded_magnitude(n, d) == m * pow2(j as nat));
        if j <= 2045 {
            lemma_pack(negative, m as nat, j as nat);
        } else {
            lemma_pow2_adds(52, 2046);
            lemma_pow2_increases(2046, j as nat);
            assert(m * pow2(j as nat) >= pow2(52) * pow2(2046)) by (nonlinear_arith)
                requires
                    m >= pow2(52),
                    pow2(j as nat) >= pow2(2046),
            ;
        }
    }
    if j > MAX_SCALE as i64 {
        sign + INFINITY
    } else {
        sign + (j as u64) * HIDDEN_BIT + m
    }
}

} // verus!
