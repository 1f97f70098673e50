//! Fixed-point trigonometry for the camera's projection.
//!
//! The camera needs the tangent of half the field-of-view angle.  Sine
//! and cosine are computed by their truncated Taylor series, which are
//! accurate on `[0, pi/2)` — the range a half-angle of a field of view
//! in `(0, 180)` degrees can reach; the contracts state the polynomials
//! exactly.

use crate::fx::{add_raw, div_raw, mul_raw, sub_raw, Fx, SCALE};
use vstd::prelude::*;

verus! {

/// `pi / 360` in raw units: multiplying a count of degrees by it gives
/// half that angle in radians.
pub const HALF_DEG_TO_RAD_RAW: i64 = 37_480_660;

/// Half the given count of degrees, in radians.
pub open spec fn s_half_rad(deg: int) -> int {
    mul_raw(deg, HALF_DEG_TO_RAD_RAW as int)
}

/// The sine polynomial
/// `x - x^3/6 + x^5/120 - x^7/5040 + x^9/362880`.
pub open spec fn s_sin(x: int) -> int {
    let x2 = mul_raw(x, x);
    let x3 = mul_raw(x2, x);
    let x5 = mul_raw(x3, x2);
    let x7 = mul_raw(x5, x2);
    let x9 = mul_raw(x7, x2);
    add_raw(
        sub_raw(
            add_raw(
                sub_raw(x, div_raw(x3, 6 * (SCALE as int))),
                div_raw(x5, 120 * (SCALE as int)),
            ),
            div_raw(x7, 5040 * (SCALE as int)),
        ),
        div_raw(x9, 362880 * (SCALE as int)),
    )
}

/// The cosine polynomial
/// `1 - x^2/2 + x^4/24 - x^6/720 + x^8/40320 - x^10/3628800`.
pub open spec fn s_cos(x: int) -> int {
    let x2 = mul_raw(x, x);
    let x4 = mul_raw(x2, x2);
    let x6 = mul_raw(x4, x2);
    let x8 = mul_raw(x6, x2);
    let x10 = mul_raw(x8, x2);
    sub_raw(
        add_raw(
            sub_raw(
                add_raw(
                    sub_raw(SCALE as int, div_raw(x2, 2 * (SCALE as int))),
                    div_raw(x4, 24 * (SCALE as int)),
                ),
                div_raw(x6, 720 * (SCALE as int)),
            ),
            div_raw(x8, 40320 * (SCALE as int)),
        ),
        div_raw(x10, 3628800 * (SCALE as int)),
    )
}

/// Tangent as the quotient of the two polynomials; where the cosine
/// polynomial reaches zero the quotient saturates.
pub open spec fn s_tan(x: int) -> int {
    div_raw(s_sin(x), s_cos(x))
}

/// The tangent of half the given count of degrees.
pub open spec fn s_tan_half_deg(deg: int) -> int {
    s_tan(s_half_rad(deg))
}

/// Sine by its truncated Taylor series (accurate on `[0, pi/2)`).
pub fn sin_approx(x: Fx) -> (r: Fx)
    ensures
        r@ == s_sin(x@),
{
    let x2 = x.mul(x);
    let x3 = x2.mul(x);
    let x5 = x3.mul(x2);
    let x7 = x5.mul(x2);
    let x9 = x7.mul(x2);
    x.sub(x3.div(Fx::from_int(6))).add(x5.div(Fx::from_int(120))).sub(
        x7.div(Fx::from_int(5040)),
    ).add(x9.div(Fx::from_int(362880)))
}

/// Cosine by its truncated Taylor series (accurate on `[0, pi/2)`).
pub fn cos_approx(x: Fx) -> (r: Fx)
    ensures
        r@ == s_cos(x@),
{
    let x2 = x.mul(x);
    let x4 = x2.mul(x2);
    let x6 = x4.mul(x2);
    let x8 = x6.mul(x2);
    let x10 = x8.mul(x2);
    Fx::one().sub(x2.div(Fx::from_int(2))).add(x4.div(Fx::from_int(24))).sub(
        x6.div(Fx::from_int(720)),
    ).add(x8.div(Fx::from_int(40320))).sub(x10.div(Fx::from_int(3628800)))
}

/// Tangent, as sine over cosine.
pub fn tan_approx(x: Fx) -> (r: Fx)
    ensures
        r@ == s_tan(x@),
{
    sin_approx(x).div(cos_approx(x))
}

/// The tangent of half the given count of degrees: the quantity the
/// camera's viewport and defocus geometry are built from.
pub fn tan_half_deg(deg: Fx) -> (r: Fx)
    ensures
        r@ == s_tan_half_deg(deg@),
{
    tan_approx(deg.mul(Fx { raw: HALF_DEG_TO_RAD_RAW }))
}

} // verus!
