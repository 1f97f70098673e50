//! Spheres, and the ray/sphere intersection algorithm.
//!
//! The intersection solves `|O + tD - C|^2 = r^2` in its reduced form:
//! with `oc = O - C`, `a = |D|^2`, `h = oc . D` and `c = |oc|^2 - r^2`,
//! the roots are `t = (-h -+ sqrt(h^2 - a c)) / a`, and the nearer
//! admissible root wins.

use crate::fx::{
    add_raw, lemma_div_raw_mono, lemma_sqrt_raw_nonneg, mul_raw, neg_raw, sqrt_raw, sub_raw, Fx,
};
use crate::hit_record::{with_face_normal, HitRecord, HitS, Hittable};
use crate::interval::{s_surrounds, Interval, IntervalS};
use crate::material::{MatS, Material};
use crate::ray::{ray_at, Ray, RayS};
use crate::vec3::{lemma_v_len_sq_nonneg, v_div, v_dot, v_len_sq, v_mul, v_sub, Vec3, V3};
use vstd::prelude::*;

verus! {

/// The model of a sphere.
pub ghost struct SphereS {
    pub center: V3,
    pub radius: int,
    pub material: MatS,
}

/// The vector from the sphere's center to the ray's origin.
pub open spec fn sp_oc(s: SphereS, r: RayS) -> V3 {
    v_sub(r.origin, s.center)
}

/// The quadratic's leading coefficient: `|D|^2`.
pub open spec fn sp_a(r: RayS) -> int {
    v_len_sq(r.direction)
}

/// The quadratic's reduced middle coefficient: `oc . D`.
pub open spec fn sp_h(s: SphereS, r: RayS) -> int {
    v_dot(sp_oc(s, r), r.direction)
}

/// The quadratic's constant coefficient: `|oc|^2 - radius^2`.
pub open spec fn sp_c(s: SphereS, r: RayS) -> int {
    sub_raw(v_len_sq(sp_oc(s, r)), mul_raw(s.radius, s.radius))
}

/// The reduced discriminant `h^2 - a c`: positive when the ray's line
/// passes strictly nearer the center than the radius, zero for a
/// tangent line, negative when it misses.
pub open spec fn sp_disc(s: SphereS, r: RayS) -> int {
    sub_raw(mul_raw(sp_h(s, r), sp_h(s, r)), mul_raw(sp_a(r), sp_c(s, r)))
}

/// The discriminant's square root.
pub open spec fn sp_sqrtd(s: SphereS, r: RayS) -> int {
    sqrt_raw(sp_disc(s, r))
}

/// The nearer root `(-h - sqrt(d)) / a`.
pub open spec fn sp_root1(s: SphereS, r: RayS) -> int {
    crate::fx::div_raw(sub_raw(neg_raw(sp_h(s, r)), sp_sqrtd(s, r)), sp_a(r))
}

/// The farther root `(-h + sqrt(d)) / a`.
pub open spec fn sp_root2(s: SphereS, r: RayS) -> int {
    crate::fx::div_raw(add_raw(neg_raw(sp_h(s, r)), sp_sqrtd(s, r)), sp_a(r))
}

/// The record a sphere produces for a hit at parameter `t`: the hit
/// point, the outward normal `(point - center) / radius` oriented
/// against the ray, and the sphere's material.
pub open spec fn sp_record(s: SphereS, r: RayS, t: int) -> HitS {
    let point = ray_at(r, t);
    let outward = v_div(v_sub(point, s.center), s.radius);
    with_face_normal(
        HitS { point, normal: outward, t, front_face: false, material: Some(s.material) },
        r,
        outward,
    )
}

/// The sphere intersection: a zero or negative discriminant counts as
/// no hit (a tangent ray grazes without entering); otherwise the nearer
/// root strictly inside the interval is preferred, then the farther
/// one.
pub open spec fn sphere_hit(s: SphereS, r: RayS, itv: IntervalS) -> Option<HitS> {
    if sp_disc(s, r) <= 0 {
        None
    } else if s_surrounds(itv, sp_root1(s, r)) {
        Some(sp_record(s, r, sp_root1(s, r)))
    } else if s_surrounds(itv, sp_root2(s, r)) {
        Some(sp_record(s, r, sp_root2(s, r)))
    } else {
        None
    }
}

/// `h` is a genuine intersection record of sphere `s` beyond `min`: it
/// was built at one of the two roots of a positive discriminant.
pub open spec fn sp_yields(s: SphereS, r: RayS, min: int, h: HitS) -> bool {
    &&& sp_disc(s, r) > 0
    &&& (h.t == sp_root1(s, r) || h.t == sp_root2(s, r))
    &&& h == sp_record(s, r, h.t)
    &&& min < h.t
}

/// A sphere with its center, radius and surface material.
#[derive(Clone, Copy, PartialEq, Eq, Structural, Debug)]
pub struct Sphere {
    pub center: Vec3,
    pub radius: Fx,
    pub material: Material,
}

impl View for Sphere {
    type V = SphereS;

    open spec fn view(&self) -> SphereS {
        SphereS { center: self.center@, radius: self.radius@, material: self.material@ }
    }
}

impl Sphere {
    /// Build a sphere.
    pub fn new(center: &Vec3, radius: Fx, material: Material) -> (r: Self)
        ensures
            r@ == (SphereS { center: center@, radius: radius@, material: material@ }),
    {
        Self { center: *center, radius, material }
    }
}

impl Hittable for Sphere {
    open spec fn hit_spec(&self, ray: RayS, itv: IntervalS) -> Option<HitS> {
        sphere_hit(self@, ray, itv)
    }

    fn hit(&self, ray: &Ray, interval: &Interval, hit_record: &mut HitRecord) -> (found: bool) {
        let oc = Vec3::sub(&ray.origin, &self.center);
        let a = ray.direction.length_squared();
        let h = Vec3::dot(&oc, &ray.direction);
        let c = oc.length_squared().sub(self.radius.mul(self.radius));
        let d = h.mul(h).sub(a.mul(c));
        if d.raw <= 0 {
            return false;
        }
        let sqrtd = d.sqrt();
        let mut root = h.neg().sub(sqrtd).div(a);
        if !interval.surrounds(root) {
            root = h.neg().add(sqrtd).div(a);
            if !interval.surrounds(root) {
                return false;
            }
        }
        hit_record.t = root;
        hit_record.point = ray.at(root);
        let outward_normal = Vec3::div(&Vec3::sub(&hit_record.point, &self.center), self.radius);
        hit_record.set_face_normal(ray, &outward_normal);
        hit_record.material = Some(self.material);
        true
    }
}

/// A ray whose discriminant is not positive misses the sphere: where
/// the ray's line passes the center farther than the radius (or merely
/// grazes it), no interval admits an intersection.
pub proof fn lemma_sphere_miss(s: SphereS, r: RayS, itv: IntervalS)
    requires
        sp_disc(s, r) <= 0,
    ensures
        sphere_hit(s, r, itv) is None,
{
}

/// The nearer root never exceeds the farther root.
pub proof fn lemma_sphere_roots_ordered(s: SphereS, r: RayS)
    ensures
        sp_root1(s, r) <= sp_root2(s, r),
{
    lemma_sqrt_raw_nonneg(sp_disc(s, r));
    lemma_v_len_sq_nonneg(r.direction);
    let n1 = sub_raw(neg_raw(sp_h(s, r)), sp_sqrtd(s, r));
    let n2 = add_raw(neg_raw(sp_h(s, r)), sp_sqrtd(s, r));
    lemma_div_raw_mono(n1, n2, sp_a(r));
}

/// Whatever a sphere reports inside an interval is a genuine
/// intersection record strictly inside that interval.
pub proof fn lemma_sphere_hit_yields(s: SphereS, r: RayS, itv: IntervalS)
    requires
        sphere_hit(s, r, itv) is Some,
    ensures
        sp_yields(s, r, itv.min, sphere_hit(s, r, itv)->Some_0),
        itv.min < sphere_hit(s, r, itv)->Some_0.t < itv.max,
{
}

/// Below its own reported hit a sphere has nothing: narrowing the
/// interval's upper end to the hit parameter leaves no intersection.
pub proof fn lemma_sphere_self_excluded(s: SphereS, r: RayS, itv: IntervalS)
    requires
        sphere_hit(s, r, itv) is Some,
    ensures
        sphere_hit(
            s,
            r,
            IntervalS { min: itv.min, max: sphere_hit(s, r, itv)->Some_0.t },
        ) is None,
{
    lemma_sphere_roots_ordered(s, r);
}

/// The geometry of every sphere hit: the point lies on the ray at the
/// reported parameter, the stored normal is the outward normal
/// `(point - center) / radius` oriented against the incoming ray (so
/// its dot with the ray direction is never positive), `front_face`
/// tells the side, and the sphere's own material is attached.
pub proof fn lemma_sphere_hit_geometry(s: SphereS, r: RayS, itv: IntervalS)
    requires
        sphere_hit(s, r, itv) is Some,
    ensures
        ({
            let h = sphere_hit(s, r, itv)->Some_0;
            let outward = v_div(v_sub(h.point, s.center), s.radius);
            &&& h.point == ray_at(r, h.t)
            &&& h.front_face == (v_dot(r.direction, outward) < 0)
            &&& h.normal == (if h.front_face {
                outward
            } else {
                v_mul(outward, -(crate::fx::SCALE as int))
            })
            &&& v_dot(r.direction, h.normal) <= 0
            &&& h.material == Some(s.material)
        }),
{
    let h = sphere_hit(s, r, itv)->Some_0;
    let outward = v_div(v_sub(h.point, s.center), s.radius);
    crate::hit_record::lemma_face_normal_orientation(
        HitS {
            point: h.point,
            normal: outward,
            t: h.t,
            front_face: false,
            material: Some(s.material),
        },
        r,
        outward,
    );
}

/// No intersection in an interval means none in any interval with the
/// same lower end and a smaller upper end.
pub proof fn lemma_sphere_shrink(s: SphereS, r: RayS, min: int, c1: int, c2: int)
    requires
        sphere_hit(s, r, IntervalS { min, max: c1 }) is None,
        c2 <= c1,
    ensures
        sphere_hit(s, r, IntervalS { min, max: c2 }) is None,
{
}

} // verus!
