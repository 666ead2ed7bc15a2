//! Powers of two in executable code, and the bit length of an integer.

use vstd::prelude::*;
use vstd::arithmetic::power2::{
    pow2, lemma_pow2_adds, lemma_pow2_pos, lemma_pow2_unfold, lemma_pow2_strictly_increases,
    lemma2_to64,
};
use vstd::bits::{lemma_u64_shl_is_mul, lemma_u64_pow2_no_overflow, lemma_u128_shr_is_div};
use vstd::std_specs::bits::u64_leading_zeros;

verus! {

/// `pow2` is monotone.
pub proof fn lemma_pow2_increases(a: nat, b: nat)
    requires
        a <= b,
    ensures
        pow2(a) <= pow2(b),
{
    if a < b {
        lemma_pow2_strictly_increases(a, b);
    }
}

/// 2^e for `e < 64`.
pub(crate) fn pow2_u64(e: u32) -> (r: u64)
    requires
        e < 64,
    ensures
        r == pow2(e as nat),
{
    proof {
        lemma_u64_pow2_no_overflow(e as nat);
        lemma_u64_shl_is_mul(1u64, e as u64);
    }
    1u64 << (e as u64)
}

/// 2^e for `e < 128`.
pub(crate) fn pow2_u128(e: u32) -> (r: u128)
    requires
        e < 128,
    ensures
        r == pow2(e as nat),
{
    if e < 64 {
        pow2_u64(e) as u128
    } else {
        let low: u64 = pow2_u64(e - 64);
        proof {
            lemma_pow2_adds((e - 64) as nat, 64);
            lemma2_to64();
            lemma_u64_pow2_no_overflow((e - 64) as nat);
            assert(low * 0x1_0000_0000_0000_0000
                <= 0xffff_ffff_ffff_ffff * 0x1_0000_0000_0000_0000) by (nonlinear_arith)
                requires
                    low <= 0xffff_ffff_ffff_ffff,
            ;
        }
        (low as u128) * 0x1_0000_0000_0000_0000u128
    }
}

/// `x / 2^s`, by a shift.
pub(crate) fn div_pow2(x: u128, s: u32) -> (r: u128)
    requires
        s < 128,
    ensures
        r == x as nat / pow2(s as nat),
{
    proof {
        lemma_u128_shr_is_div(x, s as u128);
    }
    x >> (s as u128)
}

/// The number of bits of `x`: 0 for 0, else the `n` with 2^(n-1) <= x < 2^n.
pub open spec fn bit_len(x: nat) -> nat
    decreases x,
{
    if x == 0 {
        0
    } else {
        1 + bit_len(x / 2)
    }
}

/// The two bounds that a bit length stands for.
pub proof fn lemma_bit_len_bounds(x: nat)
    ensures
        x < pow2(bit_len(x)),
        x > 0 ==> pow2((bit_len(x) - 1) as nat) <= x,
    decreases x,
{
    lemma2_to64();
    if x > 0 {
        lemma_bit_len_bounds(x / 2);
        lemma_pow2_unfold(bit_len(x));
        if x / 2 > 0 {
            lemma_pow2_unfold((bit_len(x) - 1) as nat);
        }
    }
}

/// The bit length is the only `n` with 2^(n-1) <= x < 2^n.
pub proof fn lemma_bit_len_unique(x: nat, n: nat)
    requires
        n > 0,
        pow2((n - 1) as nat) <= x < pow2(n),
    ensures
        bit_len(x) == n,
{
    lemma_bit_len_bounds(x);
    lemma_pow2_pos((n - 1) as nat);
    let m = bit_len(x);
    if m < n {
        lemma_pow2_increases(m, (n - 1) as nat);
    } else if m > n {
        lemma_pow2_increases(n, (m - 1) as nat);
    }
}

/// The leading zeros of a sixty-four-bit integer are what its bit length
/// leaves of the sixty-four.
pub proof fn lemma_leading_zeros(x: u64)
    ensures
        u64_leading_zeros(x) == 64 - bit_len(x as nat),
    decreases x,
{
    reveal(u64_leading_zeros);
    if x != 0 {
        lemma_leading_zeros(x / 2);
    }
}

/// Counts the bits of `x`.
pub(crate) fn bit_length(x: u128) -> (n: u32)
    ensures
        n == bit_len(x as nat),
        n <= 128,
{
    let high: u64 = div_pow2(x, 64) as u64;
    let low: u64 = (x % 0x1_0000_0000_0000_0000) as u64;
    proof {
        lemma2_to64();
        lemma_leading_zeros(high);
        lemma_leading_zeros(low);
        lemma_bit_len_bounds(high as nat);
        lemma_bit_len_bounds(low as nat);
        lemma_small_bit_len(high as nat, 64);
        lemma_small_bit_len(low as nat, 64);
    }
    if high != 0 {
        let n: u32 = 128 - high.leading_zeros();
        proof {
            let len = bit_len(high as nat);
            lemma_pow2_adds((len - 1) as nat, 64);
            lemma_pow2_adds(len, 64);
            assert(pow2((len - 1) as nat) * 0x1_0000_0000_0000_0000 <= x
                < pow2(len) * 0x1_0000_0000_0000_0000) by (nonlinear_arith)
                requires
                    x == high * 0x1_0000_0000_0000_0000 + low,
                    0 <= low < 0x1_0000_0000_0000_0000,
                    pow2((len - 1) as nat) <= high < pow2(len),
            ;
            lemma_bit_len_unique(x as nat, len + 64);
        }
        n
    } else {
        64 - low.leading_zeros()
    }
}

/// A number below 2^n has at most `n` bits.
pub proof fn lemma_small_bit_len(x: nat, n: nat)
    requires
        x < pow2(n),
    ensures
        bit_len(x) <= n,
{
    lemma_bit_len_bounds(x);
    if bit_len(x) > n {
        lemma_pow2_increases(n, (bit_len(x) - 1) as nat);
    }
}

} // verus!
