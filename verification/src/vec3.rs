//! 3-component fixed-point vectors: points, directions and linear colors.
//!
//! The mathematical model of a vector is `V3`, a triple of raw integers;
//! every executable operation is proved equal to a spec function over
//! `V3`, built from the raw fixed-point operations of `fx`.

use crate::fx::{
    add_raw, div_raw, fx_ok, is_isqrt, mag, min_raw, mul_raw, sqrt_raw, sub_raw, Fx, SCALE,
};
use crate::rng::RngSource;
use vstd::prelude::*;

verus! {

/// The model of a vector: three raw fixed-point components.
pub ghost struct V3 {
    pub x: int,
    pub y: int,
    pub z: int,
}

/// All three components are representable.
pub open spec fn v_ok(a: V3) -> bool {
    fx_ok(a.x) && fx_ok(a.y) && fx_ok(a.z)
}

/// The zero vector.
pub open spec fn v_zero() -> V3 {
    V3 { x: 0, y: 0, z: 0 }
}

/// Componentwise sum.
pub open spec fn v_add(a: V3, b: V3) -> V3 {
    V3 { x: add_raw(a.x, b.x), y: add_raw(a.y, b.y), z: add_raw(a.z, b.z) }
}

/// Componentwise difference.
pub open spec fn v_sub(a: V3, b: V3) -> V3 {
    V3 { x: sub_raw(a.x, b.x), y: sub_raw(a.y, b.y), z: sub_raw(a.z, b.z) }
}

/// Scaling by a raw scalar.
pub open spec fn v_mul(a: V3, s: int) -> V3 {
    V3 { x: mul_raw(a.x, s), y: mul_raw(a.y, s), z: mul_raw(a.z, s) }
}

/// Componentwise product (used for color attenuation).
pub open spec fn v_mul_vec(a: V3, b: V3) -> V3 {
    V3 { x: mul_raw(a.x, b.x), y: mul_raw(a.y, b.y), z: mul_raw(a.z, b.z) }
}

/// Division by a raw scalar.
pub open spec fn v_div(a: V3, s: int) -> V3 {
    V3 { x: div_raw(a.x, s), y: div_raw(a.y, s), z: div_raw(a.z, s) }
}

/// Dot product.
pub open spec fn v_dot(a: V3, b: V3) -> int {
    add_raw(add_raw(mul_raw(a.x, b.x), mul_raw(a.y, b.y)), mul_raw(a.z, b.z))
}

/// Cross product.
pub open spec fn v_cross(a: V3, b: V3) -> V3 {
    V3 {
        x: sub_raw(mul_raw(a.y, b.z), mul_raw(a.z, b.y)),
        y: sub_raw(mul_raw(a.z, b.x), mul_raw(a.x, b.z)),
        z: sub_raw(mul_raw(a.x, b.y), mul_raw(a.y, b.x)),
    }
}

/// Squared length.
pub open spec fn v_len_sq(a: V3) -> int {
    v_dot(a, a)
}

/// Length.
pub open spec fn v_len(a: V3) -> int {
    sqrt_raw(v_len_sq(a))
}

/// The vector scaled to (approximately) unit length; a vector whose
/// computed length is zero saturates componentwise by sign.
pub open spec fn v_unit(a: V3) -> V3 {
    v_div(a, v_len(a))
}

/// Mirror reflection about a normal: `v - 2 (v . n) n`.
pub open spec fn v_reflect(v: V3, n: V3) -> V3 {
    v_sub(v, v_mul(v_mul(n, v_dot(v, n)), 2 * (SCALE as int)))
}

/// Snell refraction of the unit direction `uv` at a surface with unit
/// normal `n` and relative index `eta`: the perpendicular part
/// `eta (uv + cos n)` plus the parallel part `-sqrt(|1 - |perp|^2|) n`.
pub open spec fn v_refract(uv: V3, n: V3, eta: int) -> V3 {
    let cos_theta = min_raw(v_dot(v_mul(uv, -(SCALE as int)), n), SCALE as int);
    let r_out_perp = v_mul(v_add(uv, v_mul(n, cos_theta)), eta);
    let r_out_par = v_mul(
        v_mul(n, sqrt_raw(clip_mag_sub_one(r_out_perp))),
        -(SCALE as int),
    );
    v_add(r_out_perp, r_out_par)
}

/// Magnitude of `1 - |p|^2`, the radicand of the refraction formula.
pub open spec fn clip_mag_sub_one(p: V3) -> int {
    crate::fx::abs_raw(sub_raw(SCALE as int, v_len_sq(p)))
}

/// Raw threshold below which a component counts as zero: the `Q31.32`
/// resolution `2^-16`, below which a component's square truncates to
/// zero and normalization would degenerate.
pub const NEAR_ZERO_RAW: i64 = 65_536;

/// Every component is vanishingly small.
pub open spec fn v_near_zero(a: V3) -> bool {
    mag(a.x) < NEAR_ZERO_RAW && mag(a.y) < NEAR_ZERO_RAW && mag(a.z) < NEAR_ZERO_RAW
}

/// Smallest squared length of an accepted unit-vector draw (0.01, so
/// every accepted point has length at least a tenth).  Rejecting the
/// small centered ball is radially symmetric, so it leaves the
/// direction distribution exact while bounding the normalization
/// divisor away from zero.
pub const UNIT_SAMPLE_MIN_SQ_RAW: i64 = 42_949_672;

/// A possible result of drawing a uniform unit vector: some point of
/// the closed unit ball, not too near its center, normalized.
pub open spec fn is_unit_sample(u: V3) -> bool {
    exists|p: V3| UNIT_SAMPLE_MIN_SQ_RAW <= v_len_sq(p) <= SCALE && u == v_unit(p)
}

/// A 3-component fixed-point vector, also used as a point and as a color.
#[derive(Clone, Copy, PartialEq, Eq, Structural, Debug)]
pub struct Vec3 {
    pub x: Fx,
    pub y: Fx,
    pub z: Fx,
}

impl View for Vec3 {
    type V = V3;

    open spec fn view(&self) -> V3 {
        V3 { x: self.x@, y: self.y@, z: self.z@ }
    }
}

impl Default for Vec3 {
    /// The zero vector.
    fn default() -> (r: Self)
        ensures
            r@ == v_zero(),
    {
        Vec3 { x: Fx { raw: 0 }, y: Fx { raw: 0 }, z: Fx { raw: 0 } }
    }
}

impl Vec3 {
    /// Build a vector from its components.
    pub fn new(x: Fx, y: Fx, z: Fx) -> (r: Vec3)
        ensures
            r@ == (V3 { x: x@, y: y@, z: z@ }),
    {
        Vec3 { x, y, z }
    }

    /// A vector with each component drawn uniformly from `[0, 1)`.
    pub fn new_rand<R: RngSource>(rng: &mut R) -> (r: Vec3)
        ensures
            0 <= r@.x < SCALE,
            0 <= r@.y < SCALE,
            0 <= r@.z < SCALE,
    {
        Vec3 { x: rng.next_unit(), y: rng.next_unit(), z: rng.next_unit() }
    }

    /// A vector with each component drawn uniformly from `[min, max)`
    /// (as `min + (max - min) * u` with `u` uniform in `[0, 1)`).
    pub fn new_rand_ranged<R: RngSource>(min: Fx, max: Fx, rng: &mut R) -> (r: Vec3)
        ensures
            exists|u1: int, u2: int, u3: int|
                {
                    &&& 0 <= u1 < SCALE
                    &&& 0 <= u2 < SCALE
                    &&& 0 <= u3 < SCALE
                    &&& r@ == (V3 {
                        x: add_raw(min@, mul_raw(sub_raw(max@, min@), u1)),
                        y: add_raw(min@, mul_raw(sub_raw(max@, min@), u2)),
                        z: add_raw(min@, mul_raw(sub_raw(max@, min@), u3)),
                    })
                },
    {
        let span = max.sub(min);
        let a = rng.next_unit();
        let b = rng.next_unit();
        let c = rng.next_unit();
        let r = Vec3 {
            x: min.add(span.mul(a)),
            y: min.add(span.mul(b)),
            z: min.add(span.mul(c)),
        };
        proof {
            assert(0 <= a@ < SCALE && 0 <= b@ < SCALE && 0 <= c@ < SCALE);
            assert(r@ == (V3 {
                x: add_raw(min@, mul_raw(sub_raw(max@, min@), a@)),
                y: add_raw(min@, mul_raw(sub_raw(max@, min@), b@)),
                z: add_raw(min@, mul_raw(sub_raw(max@, min@), c@)),
            }));
        }
        r
    }

    /// A uniform unit vector, by rejection sampling in the cube
    /// `[-1, 1)^3`: accept a point whose squared length is in
    /// `[0.01, 1]`, then normalize it.  The number of draws is bounded;
    /// if every draw is rejected (vanishingly unlikely), the x-axis unit
    /// vector stands in, which is itself a normalized admissible
    /// sample.
    pub fn new_rand_unit<R: RngSource>(rng: &mut R) -> (r: Vec3)
        ensures
            is_unit_sample(r@),
    {
        let neg_one = Fx::one().neg();
        let mut i: usize = 0;
        while i < 64
            invariant
                neg_one@ == -(SCALE as int),
            decreases 64 - i,
        {
            let tmp = Self::new_rand_ranged(neg_one, Fx::one(), rng);
            let lensq = tmp.length_squared();
            if UNIT_SAMPLE_MIN_SQ_RAW <= lensq.raw && lensq.raw <= SCALE {
                let out = Self::div(&tmp, lensq.sqrt());
                proof {
                    assert(UNIT_SAMPLE_MIN_SQ_RAW <= v_len_sq(tmp@) <= SCALE && out@ == v_unit(
                        tmp@,
                    ));
                }
                return out;
            }
            i = i + 1;
        }
        let axis = Vec3 { x: Fx { raw: SCALE }, y: Fx { raw: 0 }, z: Fx { raw: 0 } };
        proof {
            lemma_axis_is_unit_sample();
        }
        axis
    }

    /// A uniform unit vector on the hemisphere around `normal`: a unit
    /// sample, flipped when it points against the normal.
    pub fn rand_on_hemisphere<R: RngSource>(normal: &Vec3, rng: &mut R) -> (r: Vec3)
        ensures
            exists|u: V3|
                is_unit_sample(u) && r@ == (if v_dot(u, normal@) > 0 {
                    u
                } else {
                    v_mul(u, -(SCALE as int))
                }),
    {
        let u = Self::new_rand_unit(rng);
        let r = if Self::dot(&u, normal).raw > 0 {
            u
        } else {
            Self::mul(&u, Fx::one().neg())
        };
        proof {
            assert(is_unit_sample(u@));
        }
        r
    }

    /// Squared length.
    pub fn length_squared(&self) -> (r: Fx)
        ensures
            r@ == v_len_sq(self@),
    {
        self.x.mul(self.x).add(self.y.mul(self.y)).add(self.z.mul(self.z))
    }

    /// Length.
    pub fn length(&self) -> (r: Fx)
        ensures
            r@ == v_len(self@),
    {
        self.length_squared().sqrt()
    }

    /// Componentwise sum.
    pub fn add(lhs: &Vec3, rhs: &Vec3) -> (r: Vec3)
        ensures
            r@ == v_add(lhs@, rhs@),
    {
        Vec3 { x: lhs.x.add(rhs.x), y: lhs.y.add(rhs.y), z: lhs.z.add(rhs.z) }
    }

    /// Componentwise difference.
    pub fn sub(lhs: &Vec3, rhs: &Vec3) -> (r: Vec3)
        ensures
            r@ == v_sub(lhs@, rhs@),
    {
        Vec3 { x: lhs.x.sub(rhs.x), y: lhs.y.sub(rhs.y), z: lhs.z.sub(rhs.z) }
    }

    /// Scaling by a scalar.
    pub fn mul(lhs: &Vec3, rhs: Fx) -> (r: Vec3)
        ensures
            r@ == v_mul(lhs@, rhs@),
    {
        Vec3 { x: lhs.x.mul(rhs), y: lhs.y.mul(rhs), z: lhs.z.mul(rhs) }
    }

    /// Componentwise product.
    pub fn mul_vec(lhs: &Vec3, rhs: &Vec3) -> (r: Vec3)
        ensures
            r@ == v_mul_vec(lhs@, rhs@),
    {
        Vec3 { x: lhs.x.mul(rhs.x), y: lhs.y.mul(rhs.y), z: lhs.z.mul(rhs.z) }
    }

    /// Division by a scalar.
    pub fn div(lhs: &Vec3, rhs: Fx) -> (r: Vec3)
        ensures
            r@ == v_div(lhs@, rhs@),
    {
        Vec3 { x: lhs.x.div(rhs), y: lhs.y.div(rhs), z: lhs.z.div(rhs) }
    }

    /// Dot product.
    pub fn dot(lhs: &Vec3, rhs: &Vec3) -> (r: Fx)
        ensures
            r@ == v_dot(lhs@, rhs@),
    {
        lhs.x.mul(rhs.x).add(lhs.y.mul(rhs.y)).add(lhs.z.mul(rhs.z))
    }

    /// Cross product.
    pub fn cross(lhs: &Vec3, rhs: &Vec3) -> (r: Vec3)
        ensures
            r@ == v_cross(lhs@, rhs@),
    {
        Vec3 {
            x: lhs.y.mul(rhs.z).sub(lhs.z.mul(rhs.y)),
            y: lhs.z.mul(rhs.x).sub(lhs.x.mul(rhs.z)),
            z: lhs.x.mul(rhs.y).sub(lhs.y.mul(rhs.x)),
        }
    }

    /// The vector scaled to (approximately) unit length.
    pub fn unit(lhs: &Vec3) -> (r: Vec3)
        ensures
            r@ == v_unit(lhs@),
    {
        Self::div(lhs, lhs.length())
    }

    /// Whether every component is vanishingly small.
    pub fn near_zero(&self) -> (r: bool)
        ensures
            r == v_near_zero(self@),
    {
        self.x.abs().raw < NEAR_ZERO_RAW && self.y.abs().raw < NEAR_ZERO_RAW && self.z.abs().raw
            < NEAR_ZERO_RAW
    }

    /// Mirror reflection of `v` about the normal `n`.
    pub fn reflect(v: &Vec3, n: &Vec3) -> (r: Vec3)
        ensures
            r@ == v_reflect(v@, n@),
    {
        Self::sub(v, &Self::mul(&Self::mul(n, Self::dot(v, n)), Fx::from_int(2)))
    }

    /// Snell refraction of the unit direction `uv` at the unit normal `n`
    /// with relative refraction index `etai_over_etat`.
    pub fn refract(uv: &Vec3, n: &Vec3, etai_over_etat: Fx) -> (r: Vec3)
        ensures
            r@ == v_refract(uv@, n@, etai_over_etat@),
    {
        let cos_theta = Self::dot(&Self::mul(uv, Fx::one().neg()), n).min(Fx::one());
        let r_out_perp = Self::mul(&Self::add(uv, &Self::mul(n, cos_theta)), etai_over_etat);
        let radicand = Fx::one().sub(r_out_perp.length_squared()).abs();
        let r_out_par = Self::mul(&Self::mul(n, radicand.sqrt()), Fx::one().neg());
        Self::add(&r_out_perp, &r_out_par)
    }

    /// A uniform point in the unit disk of the `z = 0` plane, by
    /// rejection sampling in the square `[-1, 1)^2`.  The number of draws
    /// is bounded; if every draw is rejected (vanishingly unlikely), the
    /// disk's center stands in.
    pub fn random_in_unit_disk<R: RngSource>(rng: &mut R) -> (r: Vec3)
        ensures
            v_len_sq(r@) < SCALE,
            r@.z == 0,
    {
        let neg_one = Fx::one().neg();
        let two = Fx::from_int(2);
        let mut i: usize = 0;
        while i < 64
            invariant
                neg_one@ == -(SCALE as int),
                two@ == 2 * (SCALE as int),
            decreases 64 - i,
        {
            let a = rng.next_unit();
            let b = rng.next_unit();
            let p = Vec3 { x: neg_one.add(two.mul(a)), y: neg_one.add(two.mul(b)), z: Fx { raw: 0 } };
            if p.length_squared().raw < SCALE {
                return p;
            }
            i = i + 1;
        }
        let center = Vec3 { x: Fx { raw: 0 }, y: Fx { raw: 0 }, z: Fx { raw: 0 } };
        proof {
            crate::fx::lemma_mul_raw_sq_nonneg(0);
        }
        center
    }
}

/// A squared length is never negative.
pub proof fn lemma_v_len_sq_nonneg(a: V3)
    ensures
        0 <= v_len_sq(a),
{
    crate::fx::lemma_mul_raw_sq_nonneg(a.x);
    crate::fx::lemma_mul_raw_sq_nonneg(a.y);
    crate::fx::lemma_mul_raw_sq_nonneg(a.z);
}

/// The x-axis unit vector is a normalized nonzero sample of the closed
/// unit ball.
proof fn lemma_axis_is_unit_sample()
    ensures
        is_unit_sample(V3 { x: SCALE as int, y: 0, z: 0 }),
{
    let s = SCALE as int;
    let p = V3 { x: s, y: 0, z: 0 };
    vstd::arithmetic::div_mod::lemma_div_multiples_vanish(s, s);
    assert(s * s == s * s);
    assert(mag(s * s) == s * s && s * s > 0) by (nonlinear_arith)
        requires
            s > 0,
    ;
    assert(mag(0 * s) == 0 && mag((0 as int) * (0 as int)) == 0) by (nonlinear_arith);
    assert(mul_raw(s, s) == s);
    assert(mul_raw(0, 0) == 0);
    assert(v_len_sq(p) == s);
    assert(is_isqrt(s * s, s)) by (nonlinear_arith)
        requires
            s > 0,
    ;
    crate::fx::lemma_isqrt_exists(s * s);
    crate::fx::lemma_isqrt_unique(s * s, s, crate::fx::isqrt_of(s * s));
    assert(v_len(p) == s);
    assert(div_raw(s, s) == s);
    assert(div_raw(0, s) == 0);
    assert(v_unit(p) == p);
    assert(UNIT_SAMPLE_MIN_SQ_RAW <= v_len_sq(p) <= SCALE && p == v_unit(p));
}

} // verus!
