//! Exact-value checks of the fixed-point arithmetic core.

use raytracer::fx::{Fx, MAX_RAW, SCALE};

fn fx(units: i64) -> Fx {
    Fx::from_int(units)
}

#[test]
fn fx_from_int_scales() {
    assert_eq!(fx(1).raw, SCALE);
    assert_eq!(fx(-3).raw, -3 * SCALE);
    assert_eq!(Fx::zero().raw, 0);
    assert_eq!(Fx::one().raw, SCALE);
}

#[test]
fn fx_add_sub_exact() {
    assert_eq!(fx(2).add(fx(3)).raw, 5 * SCALE);
    assert_eq!(fx(2).sub(fx(5)).raw, -3 * SCALE);
    assert_eq!(Fx { raw: 7 }.add(Fx { raw: -7 }).raw, 0);
}

#[test]
fn fx_add_saturates() {
    assert_eq!(Fx { raw: MAX_RAW }.add(Fx { raw: 1 }).raw, MAX_RAW);
    assert_eq!(Fx { raw: -MAX_RAW }.sub(Fx { raw: 1 }).raw, -MAX_RAW);
}

#[test]
fn fx_mul_exact() {
    assert_eq!(fx(3).mul(fx(4)).raw, 12 * SCALE);
    // 1.5 * 2.5 = 3.75
    let a = Fx { raw: SCALE + SCALE / 2 };
    let b = Fx { raw: 2 * SCALE + SCALE / 2 };
    assert_eq!(a.mul(b).raw, 3 * SCALE + 3 * (SCALE / 4));
    // signs
    assert_eq!(fx(-3).mul(fx(4)).raw, -12 * SCALE);
    assert_eq!(fx(-3).mul(fx(-4)).raw, 12 * SCALE);
}

#[test]
fn fx_mul_truncates_toward_zero() {
    // (1 / 2^32) * (1 / 2^32) is far below resolution: truncates to 0.
    assert_eq!(Fx { raw: 1 }.mul(Fx { raw: 1 }).raw, 0);
    assert_eq!(Fx { raw: -1 }.mul(Fx { raw: 1 }).raw, 0);
}

#[test]
fn fx_div_exact() {
    assert_eq!(fx(12).div(fx(4)).raw, 3 * SCALE);
    assert_eq!(fx(1).div(fx(2)).raw, SCALE / 2);
    assert_eq!(fx(-1).div(fx(2)).raw, -(SCALE / 2));
    assert_eq!(fx(1).div(fx(-2)).raw, -(SCALE / 2));
}

#[test]
fn fx_div_by_zero_saturates() {
    assert_eq!(fx(1).div(Fx::zero()).raw, MAX_RAW);
    assert_eq!(fx(-1).div(Fx::zero()).raw, -MAX_RAW);
    assert_eq!(Fx::zero().div(Fx::zero()).raw, 0);
}

#[test]
fn fx_sqrt_exact_squares() {
    assert_eq!(fx(4).sqrt().raw, 2 * SCALE);
    assert_eq!(fx(9).sqrt().raw, 3 * SCALE);
    // sqrt(0.25) = 0.5 exactly
    assert_eq!(Fx { raw: SCALE / 4 }.sqrt().raw, SCALE / 2);
    assert_eq!(Fx::one().sqrt().raw, SCALE);
    assert_eq!(Fx::zero().sqrt().raw, 0);
    assert_eq!(fx(-4).sqrt().raw, 0);
}

#[test]
fn fx_sqrt_two_close() {
    // sqrt(2) = 1.41421356...; the result is within one raw unit of it.
    let r = fx(2).sqrt().raw;
    let expect = 6074000999i64; // floor(sqrt(2) * 2^32)
    assert!((r - expect).abs() <= 1, "sqrt(2) raw was {r}");
}

#[test]
fn fx_neg_abs_min_max() {
    assert_eq!(fx(5).neg().raw, -5 * SCALE);
    assert_eq!(fx(-5).abs().raw, 5 * SCALE);
    assert_eq!(fx(3).min(fx(7)).raw, 3 * SCALE);
    assert_eq!(fx(3).max(fx(7)).raw, 7 * SCALE);
    assert!(fx(3).lt(fx(7)));
    assert!(fx(7).le(fx(7)));
}
