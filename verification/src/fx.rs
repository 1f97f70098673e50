//! `Q31.32` fixed-point numbers.
//!
//! A real value `v` is stored as the integer `raw = v * SCALE` (truncated),
//! with 32 fractional bits.  Every operation is total: results are
//! truncated toward zero and saturated to the symmetric range
//! `[-MAX_RAW, MAX_RAW]`, and a division by zero saturates by sign.  The
//! spec functions below give each operation its exact integer semantics,
//! and every executable operation is proved equal to its spec.

use vstd::prelude::*;

verus! {

/// Number of raw units per 1.0: `2^32`.
pub const SCALE: i64 = 0x1_0000_0000;

/// Largest raw magnitude a value may hold.  The range is symmetric so that
/// negation is always exact.
pub const MAX_RAW: i64 = 0x7fff_ffff_ffff_ffff;

/// Magnitude of an integer.
pub open spec fn mag(a: int) -> int {
    if a >= 0 {
        a
    } else {
        -a
    }
}

/// Saturation to the symmetric representable range.
pub open spec fn clip(a: int) -> int {
    if a > MAX_RAW {
        MAX_RAW as int
    } else if a < -MAX_RAW {
        -(MAX_RAW as int)
    } else {
        a
    }
}

/// A raw value that lies in the representable range.
pub open spec fn fx_ok(a: int) -> bool {
    -MAX_RAW <= a <= MAX_RAW
}

/// Division truncating toward zero.
pub open spec fn tdiv(a: int, b: int) -> int
    recommends
        b != 0,
{
    if (a < 0) == (b < 0) {
        mag(a) / mag(b)
    } else {
        -(mag(a) / mag(b))
    }
}

/// Raw-level addition.
pub open spec fn add_raw(a: int, b: int) -> int {
    clip(a + b)
}

/// Raw-level subtraction.
pub open spec fn sub_raw(a: int, b: int) -> int {
    clip(a - b)
}

/// Raw-level negation.
pub open spec fn neg_raw(a: int) -> int {
    clip(-a)
}

/// Raw-level magnitude.
pub open spec fn abs_raw(a: int) -> int {
    clip(mag(a))
}

/// Raw-level multiplication: the product of two `Q31.32` values has 64
/// fractional bits, so it is rescaled by `SCALE`, toward zero.
pub open spec fn mul_raw(a: int, b: int) -> int {
    clip(tdiv(a * b, SCALE as int))
}

/// Raw-level division.  A zero divisor saturates by the dividend's sign;
/// `0 / 0` is `0`.
pub open spec fn div_raw(a: int, b: int) -> int {
    if b == 0 {
        if a == 0 {
            0
        } else if a > 0 {
            MAX_RAW as int
        } else {
            -(MAX_RAW as int)
        }
    } else {
        clip(tdiv(a * (SCALE as int), b))
    }
}

/// The smaller of two raw values.
pub open spec fn min_raw(a: int, b: int) -> int {
    if a <= b {
        a
    } else {
        b
    }
}

/// The larger of two raw values.
pub open spec fn max_raw(a: int, b: int) -> int {
    if a >= b {
        a
    } else {
        b
    }
}

/// `r` is the integer square root of `x`: the largest integer whose square
/// does not exceed `x`.
pub open spec fn is_isqrt(x: int, r: int) -> bool {
    0 <= r && r * r <= x && x < (r + 1) * (r + 1)
}

/// The integer square root of a nonnegative `x`.
pub open spec fn isqrt_of(x: int) -> int {
    choose|r: int| is_isqrt(x, r)
}

/// Raw-level square root: the root of `a * SCALE` keeps the `Q31.32`
/// scale.  Nonpositive inputs give zero.
pub open spec fn sqrt_raw(a: int) -> int {
    if a <= 0 {
        0
    } else {
        isqrt_of(a * (SCALE as int))
    }
}

/// Sign and magnitude of a product.
pub proof fn lemma_mul_mag(a: int, b: int)
    ensures
        mag(a * b) == mag(a) * mag(b),
        (a * b > 0) == ((a > 0 && b > 0) || (a < 0 && b < 0)),
        (a * b == 0) == (a == 0 || b == 0),
{
    if a == 0 || b == 0 {
        assert(a * b == 0) by (nonlinear_arith)
            requires
                a == 0 || b == 0,
        ;
        assert(mag(a) * mag(b) == 0) by (nonlinear_arith)
            requires
                mag(a) == 0 || mag(b) == 0,
        ;
    } else if a > 0 && b > 0 {
        assert(a * b > 0) by (nonlinear_arith)
            requires
                a > 0,
                b > 0,
        ;
    } else if a < 0 && b < 0 {
        assert(a * b == (-a) * (-b) && (-a) * (-b) > 0) by (nonlinear_arith)
            requires
                a < 0,
                b < 0,
        ;
    } else if a > 0 {
        assert(-(a * b) == a * (-b) && a * (-b) > 0) by (nonlinear_arith)
            requires
                a > 0,
                b < 0,
        ;
    } else {
        assert(-(a * b) == (-a) * b && (-a) * b > 0) by (nonlinear_arith)
            requires
                a < 0,
                b > 0,
        ;
    }
}

/// A product of bounded factors is bounded.
pub proof fn lemma_mul_mag_le(a: int, b: int, ma: int, mb: int)
    requires
        mag(a) <= ma,
        mag(b) <= mb,
    ensures
        mag(a * b) <= ma * mb,
        -(ma * mb) <= a * b <= ma * mb,
{
    lemma_mul_mag(a, b);
    assert(mag(a) * mag(b) <= ma * mb) by (nonlinear_arith)
        requires
            0 <= mag(a) <= ma,
            0 <= mag(b) <= mb,
    ;
}

/// The integer square root is unique.
pub proof fn lemma_isqrt_unique(x: int, r1: int, r2: int)
    requires
        is_isqrt(x, r1),
        is_isqrt(x, r2),
    ensures
        r1 == r2,
{
    if r1 < r2 {
        assert((r1 + 1) * (r1 + 1) <= r2 * r2) by (nonlinear_arith)
            requires
                0 <= r1,
                r1 < r2,
        ;
    }
    if r2 < r1 {
        assert((r2 + 1) * (r2 + 1) <= r1 * r1) by (nonlinear_arith)
            requires
                0 <= r2,
                r2 < r1,
        ;
    }
}

/// Binary search for the integer square root of values below `2^96`.
fn isqrt96(x: u128) -> (r: u128)
    requires
        x < 0x1_0000_0000_0000_0000_0000_0000u128,
    ensures
        is_isqrt(x as int, r as int),
{
    let mut lo: u128 = 0;
    let mut hi: u128 = 0x1_0000_0000_0000u128;
    while lo + 1 < hi
        invariant
            lo < hi,
            hi <= 0x1_0000_0000_0000u128,
            (lo as int) * (lo as int) <= x as int,
            (x as int) < (hi as int) * (hi as int),
        decreases hi - lo,
    {
        let mid = lo + (hi - lo) / 2;
        proof {
            assert((mid as int) * (mid as int) <= 0x1_0000_0000_0000_0000_0000_0000)
                by (nonlinear_arith)
                requires
                    0 <= mid as int <= 0x1_0000_0000_0000,
            ;
        }
        if mid * mid <= x {
            lo = mid;
        } else {
            hi = mid;
        }
    }
    lo
}

/// A `Q31.32` fixed-point number.
#[derive(Clone, Copy, PartialEq, Eq, Structural, Debug)]
pub struct Fx {
    pub raw: i64,
}

impl View for Fx {
    type V = int;

    open spec fn view(&self) -> int {
        self.raw as int
    }
}

impl Fx {
    /// Build a value from a raw representation, saturating the one
    /// unrepresentable `i64` value.
    pub fn from_raw(raw: i64) -> (r: Fx)
        ensures
            r@ == clip(raw as int),
    {
        if raw < -MAX_RAW {
            Fx { raw: -MAX_RAW }
        } else {
            Fx { raw }
        }
    }

    /// Build the fixed-point image of an integer, saturating.
    pub fn from_int(v: i64) -> (r: Fx)
        ensures
            r@ == clip(v as int * (SCALE as int)),
    {
        proof {
            lemma_mul_mag_le(v as int, SCALE as int, 0x8000_0000_0000_0000, 0x1_0000_0000);
        }
        let p: i128 = (v as i128) * (SCALE as i128);
        if p > MAX_RAW as i128 {
            Fx { raw: MAX_RAW }
        } else if p < -MAX_RAW as i128 {
            Fx { raw: -MAX_RAW }
        } else {
            Fx { raw: p as i64 }
        }
    }

    /// Zero.
    pub fn zero() -> (r: Fx)
        ensures
            r@ == 0,
    {
        Fx { raw: 0 }
    }

    /// One.
    pub fn one() -> (r: Fx)
        ensures
            r@ == SCALE,
    {
        Fx { raw: SCALE }
    }

    /// Saturating addition.
    pub fn add(self, o: Fx) -> (r: Fx)
        ensures
            r@ == add_raw(self@, o@),
    {
        let s: i128 = (self.raw as i128) + (o.raw as i128);
        if s > MAX_RAW as i128 {
            Fx { raw: MAX_RAW }
        } else if s < -MAX_RAW as i128 {
            Fx { raw: -MAX_RAW }
        } else {
            Fx { raw: s as i64 }
        }
    }

    /// Saturating subtraction.
    pub fn sub(self, o: Fx) -> (r: Fx)
        ensures
            r@ == sub_raw(self@, o@),
    {
        let s: i128 = (self.raw as i128) - (o.raw as i128);
        if s > MAX_RAW as i128 {
            Fx { raw: MAX_RAW }
        } else if s < -MAX_RAW as i128 {
            Fx { raw: -MAX_RAW }
        } else {
            Fx { raw: s as i64 }
        }
    }

    /// Exact negation (the range is symmetric).
    pub fn neg(self) -> (r: Fx)
        ensures
            r@ == neg_raw(self@),
    {
        if self.raw < -MAX_RAW {
            Fx { raw: MAX_RAW }
        } else {
            Fx { raw: -self.raw }
        }
    }

    /// Magnitude.
    pub fn abs(self) -> (r: Fx)
        ensures
            r@ == abs_raw(self@),
    {
        if self.raw < 0 {
            self.neg()
        } else {
            Fx { raw: self.raw }
        }
    }

    /// Saturating multiplication, truncating toward zero.
    pub fn mul(self, o: Fx) -> (r: Fx)
        ensures
            r@ == mul_raw(self@, o@),
    {
        proof {
            lemma_mul_mag_le(
                self.raw as int,
                o.raw as int,
                0x8000_0000_0000_0000,
                0x8000_0000_0000_0000,
            );
            lemma_mul_mag(self.raw as int, o.raw as int);
        }
        let p: i128 = (self.raw as i128) * (o.raw as i128);
        let neg: bool = p < 0;
        let pa: u128 = if neg {
            (-p) as u128
        } else {
            p as u128
        };
        let q: u128 = pa / (SCALE as u128);
        let m: i64 = if q > MAX_RAW as u128 {
            MAX_RAW
        } else {
            q as i64
        };
        if neg {
            Fx { raw: -m }
        } else {
            Fx { raw: m }
        }
    }

    /// Saturating division, truncating toward zero; a zero divisor
    /// saturates by the dividend's sign.
    pub fn div(self, o: Fx) -> (r: Fx)
        ensures
            r@ == div_raw(self@, o@),
    {
        if o.raw == 0 {
            if self.raw == 0 {
                Fx { raw: 0 }
            } else if self.raw > 0 {
                Fx { raw: MAX_RAW }
            } else {
                Fx { raw: -MAX_RAW }
            }
        } else {
            proof {
                lemma_mul_mag_le(self.raw as int, SCALE as int, 0x8000_0000_0000_0000, 0x1_0000_0000);
                lemma_mul_mag(self.raw as int, SCALE as int);
            }
            let neg: bool = (self.raw < 0) != (o.raw < 0);
            let na: u128 = if self.raw < 0 {
                (-(self.raw as i128)) as u128
            } else {
                self.raw as u128
            };
            let nb: u128 = if o.raw < 0 {
                (-(o.raw as i128)) as u128
            } else {
                o.raw as u128
            };
            let q: u128 = (na * (SCALE as u128)) / nb;
            let m: i64 = if q > MAX_RAW as u128 {
                MAX_RAW
            } else {
                q as i64
            };
            if neg {
                Fx { raw: -m }
            } else {
                Fx { raw: m }
            }
        }
    }

    /// Square root at the same scale; nonpositive inputs give zero.
    pub fn sqrt(self) -> (r: Fx)
        ensures
            r@ == sqrt_raw(self@),
    {
        if self.raw <= 0 {
            Fx { raw: 0 }
        } else {
            proof {
                lemma_mul_mag_le(self.raw as int, SCALE as int, 0x7fff_ffff_ffff_ffff, 0x1_0000_0000);
            }
            let x: u128 = (self.raw as u128) * (SCALE as u128);
            let s = isqrt96(x);
            proof {
                let w = isqrt_of(x as int);
                assert(is_isqrt(x as int, s as int));
                assert(is_isqrt(x as int, w));
                lemma_isqrt_unique(x as int, s as int, w);
                if s as int > 0x1_0000_0000_0000 {
                    assert(0x1_0000_0000_0000_0000_0000_0000 <= (s as int) * (s as int))
                        by (nonlinear_arith)
                        requires
                            0x1_0000_0000_0000 <= s as int,
                    ;
                }
            }
            Fx { raw: s as i64 }
        }
    }

    /// The smaller of two values.
    pub fn min(self, o: Fx) -> (r: Fx)
        ensures
            r@ == min_raw(self@, o@),
    {
        if self.raw <= o.raw {
            self
        } else {
            o
        }
    }

    /// The larger of two values.
    pub fn max(self, o: Fx) -> (r: Fx)
        ensures
            r@ == max_raw(self@, o@),
    {
        if self.raw >= o.raw {
            self
        } else {
            o
        }
    }

    /// Strictly less than.
    pub fn lt(self, o: Fx) -> (r: bool)
        ensures
            r == (self@ < o@),
    {
        self.raw < o.raw
    }

    /// Less than or equal.
    pub fn le(self, o: Fx) -> (r: bool)
        ensures
            r == (self@ <= o@),
    {
        self.raw <= o.raw
    }
}

/// Truncating division flips sign with its dividend.
pub proof fn lemma_tdiv_neg(a: int, d: int)
    requires
        0 < d,
    ensures
        tdiv(-a, d) == -tdiv(a, d),
{
}

/// Truncating division by a positive divisor is monotone.
pub proof fn lemma_tdiv_mono(a: int, b: int, d: int)
    requires
        a <= b,
        0 < d,
    ensures
        tdiv(a, d) <= tdiv(b, d),
{
    if 0 <= a {
        vstd::arithmetic::div_mod::lemma_div_is_ordered(a, b, d);
    } else if b < 0 {
        vstd::arithmetic::div_mod::lemma_div_is_ordered(-b, -a, d);
    } else {
        vstd::arithmetic::div_mod::lemma_div_pos_is_pos(-a, d);
        vstd::arithmetic::div_mod::lemma_div_pos_is_pos(b, d);
    }
}

/// Fixed-point division by a nonnegative divisor is monotone in the
/// dividend (a zero divisor saturates by sign, which is also monotone).
pub proof fn lemma_div_raw_mono(a: int, b: int, d: int)
    requires
        a <= b,
        0 <= d,
    ensures
        div_raw(a, d) <= div_raw(b, d),
{
    if d != 0 {
        vstd::arithmetic::mul::lemma_mul_inequality(a, b, SCALE as int);
        lemma_tdiv_mono(a * (SCALE as int), b * (SCALE as int), d);
    }
}

/// A square is nonnegative, so squaring stays nonnegative at raw level.
pub proof fn lemma_mul_raw_sq_nonneg(a: int)
    ensures
        0 <= mul_raw(a, a),
{
    lemma_mul_mag(a, a);
    vstd::arithmetic::div_mod::lemma_div_pos_is_pos(mag(a * a), SCALE as int);
}

/// The raw product of nonnegative values is nonnegative.
pub proof fn lemma_mul_raw_nonneg(a: int, b: int)
    requires
        0 <= a,
        0 <= b,
    ensures
        0 <= mul_raw(a, b),
{
    lemma_mul_mag(a, b);
    vstd::arithmetic::div_mod::lemma_div_pos_is_pos(mag(a * b), SCALE as int);
}

/// Negating one factor negates the raw product exactly.
pub proof fn lemma_mul_raw_neg_right(a: int, b: int)
    ensures
        mul_raw(a, -b) == -mul_raw(a, b),
{
    assert(a * (-b) == -(a * b)) by (nonlinear_arith);
    lemma_tdiv_neg(a * b, SCALE as int);
}

/// Multiplying by one is exact on representable values.
pub proof fn lemma_mul_raw_one(a: int)
    requires
        fx_ok(a),
    ensures
        mul_raw(a, SCALE as int) == a,
{
    lemma_mul_mag(a, SCALE as int);
    assert(mag(a) * (SCALE as int) == (SCALE as int) * mag(a)) by (nonlinear_arith);
    vstd::arithmetic::div_mod::lemma_div_multiples_vanish(mag(a), SCALE as int);
}

/// Multiplying by minus one is exact negation on representable values.
pub proof fn lemma_mul_raw_neg_one(a: int)
    requires
        fx_ok(a),
    ensures
        mul_raw(a, -(SCALE as int)) == -a,
{
    lemma_mul_raw_neg_right(a, SCALE as int);
    lemma_mul_raw_one(a);
}

/// A raw product with one factor at most one is bounded by the other
/// factor.
pub proof fn lemma_mul_raw_le_one(c: int, a: int)
    requires
        0 <= c <= SCALE as int,
        0 <= a <= MAX_RAW,
    ensures
        0 <= mul_raw(c, a) <= a,
{
    lemma_mul_raw_nonneg(c, a);
    vstd::arithmetic::mul::lemma_mul_inequality(c, SCALE as int, a);
    lemma_mul_mag(c, a);
    lemma_mul_mag(SCALE as int, a);
    assert((SCALE as int) * a == a * (SCALE as int)) by (nonlinear_arith);
    lemma_tdiv_mono(c * a, (SCALE as int) * a, SCALE as int);
    vstd::arithmetic::div_mod::lemma_div_multiples_vanish(a, SCALE as int);
}

/// Dividing a value by a bound at least as large keeps the quotient at
/// most one.
pub proof fn lemma_div_raw_unit(a: int, d: int)
    requires
        0 <= a <= d,
    ensures
        0 <= div_raw(a, d) <= SCALE as int,
{
    if d != 0 {
        lemma_mul_mag(a, SCALE as int);
        lemma_mul_mag(d, SCALE as int);
        vstd::arithmetic::mul::lemma_mul_inequality(a, d, SCALE as int);
        lemma_tdiv_mono(a * (SCALE as int), d * (SCALE as int), d);
        assert(d * (SCALE as int) == (SCALE as int) * d) by (nonlinear_arith);
        vstd::arithmetic::div_mod::lemma_div_multiples_vanish(SCALE as int, d);
        vstd::arithmetic::div_mod::lemma_div_pos_is_pos(a * (SCALE as int), d);
    }
}

/// The square root of a value at most one is at most one.
pub proof fn lemma_sqrt_raw_le_one(a: int)
    requires
        a <= SCALE as int,
    ensures
        0 <= sqrt_raw(a) <= SCALE as int,
{
    lemma_sqrt_raw_nonneg(a);
    if a > 0 {
        lemma_mul_mag_le(a, SCALE as int, SCALE as int, SCALE as int);
        lemma_isqrt_exists(a * (SCALE as int));
        let r = isqrt_of(a * (SCALE as int));
        if r > SCALE as int {
            assert((SCALE as int) * (SCALE as int) < r * r) by (nonlinear_arith)
                requires
                    (SCALE as int) < r,
                    0 < (SCALE as int),
            ;
        }
    }
}

/// A nonnegative integer has an integer square root.
pub proof fn lemma_isqrt_exists(x: int)
    requires
        0 <= x,
    ensures
        is_isqrt(x, isqrt_of(x)),
    decreases x,
{
    if x == 0 {
        assert(is_isqrt(0, 0));
    } else {
        lemma_isqrt_exists(x - 1);
        let r = isqrt_of(x - 1);
        if x < (r + 1) * (r + 1) {
            assert(is_isqrt(x, r));
        } else {
            assert((r + 1) * (r + 1) < (r + 2) * (r + 2)) by (nonlinear_arith)
                requires
                    0 <= r,
            ;
            assert(is_isqrt(x, r + 1));
        }
    }
    let w = choose|r: int| is_isqrt(x, r);
    assert(is_isqrt(x, w));
}

/// The raw square root is never negative.
pub proof fn lemma_sqrt_raw_nonneg(a: int)
    ensures
        0 <= sqrt_raw(a),
{
    if a > 0 {
        assert(a * (SCALE as int) > 0) by (nonlinear_arith)
            requires
                a > 0,
                0 < SCALE as int,
        ;
        lemma_isqrt_exists(a * (SCALE as int));
    }
}

} // verus!
