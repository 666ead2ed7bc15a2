use quantities::binary64::divide::divide;
use quantities::binary64::multiply::multiply;
use quantities::binary64::order::{is_equal, is_less};
use quantities::binary64::remainder::modulo;
use quantities::binary64::sum::{minus, plus};

fn next(state: &mut u64) -> u64 {
    *state = state.wrapping_mul(6364136223846793005).wrapping_add(1442695040888963407);
    let hi = *state >> 11;
    *state = state.wrapping_mul(6364136223846793005).wrapping_add(1442695040888963407);
    (hi << 32) ^ (*state >> 16)
}

/// A pattern whose exponent lies within `spread` of that of `a`.
fn near(state: &mut u64, a: u64, spread: u64) -> u64 {
    let b = next(state);
    let ea = (a >> 52) & 0x7ff;
    let shift = (b >> 53) % (2 * spread + 1);
    let eb = (ea + shift).saturating_sub(spread).min(0x7fe);
    (b & 0x800f_ffff_ffff_ffff) | (eb << 52)
}

fn same(got: u64, want: f64) -> bool {
    if want.is_nan() {
        f64::from_bits(got).is_nan()
    } else {
        got == want.to_bits()
    }
}

fn check_all(a: u64, b: u64) {
    let x = f64::from_bits(a);
    let y = f64::from_bits(b);
    assert!(same(multiply(a, b), x * y), "{:#x} * {:#x}", a, b);
    assert!(same(divide(a, b), x / y), "{:#x} / {:#x}", a, b);
    assert!(same(plus(a, b), x + y), "{:#x} + {:#x}", a, b);
    assert!(same(minus(a, b), x - y), "{:#x} - {:#x}", a, b);
    assert!(same(modulo(a, b), x % y), "{:#x} % {:#x}", a, b);
    assert_eq!(is_equal(a, b), x == y, "{:#x} == {:#x}", a, b);
    assert_eq!(is_less(a, b), x < y, "{:#x} < {:#x}", a, b);
}

fn samples() -> Vec<u64> {
    let mut v: Vec<u64> = vec![
        0,
        1,
        2,
        3,
        0x000f_ffff_ffff_ffff,
        0x0010_0000_0000_0000,
        0x0010_0000_0000_0001,
        0x001f_ffff_ffff_ffff,
        0x0020_0000_0000_0000,
        0x3ff0_0000_0000_0000,
        0x3ff0_0000_0000_0001,
        0x3fef_ffff_ffff_ffff,
        0x4000_0000_0000_0000,
        0x4340_0000_0000_0000,
        0x433f_ffff_ffff_ffff,
        0x7fe0_0000_0000_0000,
        0x7fef_ffff_ffff_ffff,
        0x7ff0_0000_0000_0000,
        0x7ff8_0000_0000_0000,
        0x7ff0_0000_0000_0001,
        1000.0f64.to_bits(),
        1609.344f64.to_bits(),
        1.609344f64.to_bits(),
        180.0f64.to_bits(),
        std::f64::consts::PI.to_bits(),
        0.1f64.to_bits(),
        0.5f64.to_bits(),
        3.0f64.to_bits(),
        1e-310f64.to_bits(),
        1e308f64.to_bits(),
        1e-160f64.to_bits(),
        1.5e-154f64.to_bits(),
        1.3407807929942596e154f64.to_bits(),
    ];
    let n = v.len();
    for i in 0..n {
        v.push(v[i] | 0x8000_0000_0000_0000);
    }
    v
}

#[test]
fn operations_match_hardware_on_edge_values() {
    let v = samples();
    for &a in &v {
        for &b in &v {
            check_all(a, b);
        }
    }
}

#[test]
fn operations_match_hardware_on_random_patterns() {
    let mut s: u64 = 0x1234_5678_9abc_def0;
    for _ in 0..100000 {
        let a = next(&mut s);
        let b = next(&mut s);
        check_all(a, b);
    }
}

#[test]
fn operations_match_hardware_on_close_exponents() {
    let mut s: u64 = 0x0fed_cba9_8765_4321;
    for _ in 0..100000 {
        let a = next(&mut s);
        let b = near(&mut s, a, 3);
        check_all(a, b);
    }
}

#[test]
fn operations_match_hardware_on_moderate_exponent_gaps() {
    let mut s: u64 = 0x0bad_cafe_dead_beef;
    for _ in 0..100000 {
        let a = next(&mut s);
        let b = near(&mut s, a, 70);
        check_all(a, b);
    }
}

#[test]
fn products_match_hardware_near_the_subnormal_range() {
    let mut s: u64 = 0x0fed_cba9_8765_4321;
    for _ in 0..100000 {
        let a = next(&mut s);
        let b = next(&mut s);
        // the exponents add up to the lower end of the range
        let ea = (a >> 52) & 0x7ff;
        let eb = 2046u64.wrapping_sub(ea).wrapping_sub(1022 + (b >> 60)) & 0x7ff;
        let b = (b & 0x800f_ffff_ffff_ffff) | (eb << 52);
        check_all(a, b);
    }
}

#[test]
fn quotients_match_hardware_near_the_subnormal_range() {
    let mut s: u64 = 0x1357_9bdf_0246_8ace;
    for _ in 0..100000 {
        let a = next(&mut s);
        let b = next(&mut s);
        // the exponents differ by about the width of the range
        let ea = (a >> 52) & 0x7ff;
        let eb = (ea + 1015 + (b >> 59)) & 0x7ff;
        let b = (b & 0x800f_ffff_ffff_ffff) | (eb << 52);
        check_all(a, b);
    }
}

#[test]
fn operations_match_hardware_on_subnormal_operands() {
    let mut s: u64 = 0x2468_ace0_1357_9bdf;
    for _ in 0..100000 {
        let a = next(&mut s) & 0x800f_ffff_ffff_ffff;
        let b = next(&mut s);
        check_all(a, b);
        check_all(b, a);
        let c = near(&mut s, a, 60);
        check_all(a, c);
        check_all(c, a);
    }
}

/// A pattern with runs of zeros and ones in its fraction, at an exponent that
/// is often at an end of the range: such patterns make ties and near-ties.
fn shaped(state: &mut u64) -> u64 {
    let r = next(state);
    let run = (r >> 8) % 52;
    let all: u64 = (1u64 << 52) - 1;
    let mut fraction: u64 = match r & 7 {
        0 => 0,
        1 => all,
        2 => 1u64 << run,
        3 => all ^ (1u64 << run),
        4 => (1u64 << run) - 1,
        5 => all & !((1u64 << run) - 1),
        _ => next(state) & all,
    };
    if (r >> 20) & 3 == 0 {
        fraction ^= 1;
    }
    let exponent = match (r >> 24) & 7 {
        0 => 0,
        1 => 1,
        2 => 0x7fe,
        3 => 0x3ff,
        4 => 0x7ff,
        _ => (next(state) >> 5) % 0x7ff,
    };
    ((r >> 63) << 63) | (exponent << 52) | fraction
}

#[test]
fn operations_match_hardware_on_patterns_that_make_ties() {
    let mut s: u64 = 0x9e37_79b9_7f4a_7c15;
    for _ in 0..150000 {
        let a = shaped(&mut s);
        let b = shaped(&mut s);
        check_all(a, b);
    }
}

#[test]
fn sums_match_hardware_where_one_operand_falls_below_the_last_bit() {
    let mut s: u64 = 0x1234_5678_1234_5678;
    for _ in 0..150000 {
        let a = shaped(&mut s);
        let b = shaped(&mut s);
        let gap = (next(&mut s) >> 7) % 140;
        let exponent = (((a >> 52) & 0x7ff) + 70).saturating_sub(gap).min(0x7fe);
        let b = (b & 0x800f_ffff_ffff_ffff) | (exponent << 52);
        check_all(a, b);
        check_all(b, a);
    }
}
