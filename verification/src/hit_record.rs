//! The result of a ray/surface intersection, and the intersection
//! capability that primitives and the scene container implement.

use crate::fx::{lemma_mul_raw_neg_one, lemma_mul_raw_neg_right, Fx, SCALE};
use crate::interval::{Interval, IntervalS};
use crate::material::{MatS, Material};
use crate::ray::{Ray, RayS};
use crate::vec3::{v_dot, v_mul, v_ok, v_zero, Vec3, V3};
use vstd::prelude::*;

verus! {

/// The model of a hit record.
pub ghost struct HitS {
    pub point: V3,
    pub normal: V3,
    pub t: int,
    pub front_face: bool,
    pub material: Option<MatS>,
}

/// The record after orienting the outward normal against the incoming
/// ray: `front_face` holds when the ray comes from outside, and the
/// stored normal is the outward normal or its negation accordingly.
pub open spec fn with_face_normal(h: HitS, ray: RayS, outward: V3) -> HitS {
    let ff = v_dot(ray.direction, outward) < 0;
    HitS {
        normal: if ff {
            outward
        } else {
            v_mul(outward, -(SCALE as int))
        },
        front_face: ff,
        ..h
    }
}

/// A successful intersection: where it happened, the oriented unit
/// normal, the ray parameter, which side was hit, and the material of
/// the primitive that was hit.
#[derive(Clone, Copy, PartialEq, Eq, Structural, Debug)]
pub struct HitRecord {
    pub point: Vec3,
    pub normal: Vec3,
    pub t: Fx,
    pub front_face: bool,
    pub material: Option<Material>,
}

impl View for HitRecord {
    type V = HitS;

    open spec fn view(&self) -> HitS {
        HitS {
            point: self.point@,
            normal: self.normal@,
            t: self.t@,
            front_face: self.front_face,
            material: match self.material {
                Some(m) => Some(m@),
                None => None,
            },
        }
    }
}

impl HitRecord {
    /// An empty record: all zero, no material.
    pub fn new() -> (r: Self)
        ensures
            r@ == (HitS {
                point: v_zero(),
                normal: v_zero(),
                t: 0,
                front_face: false,
                material: None,
            }),
    {
        Self {
            point: Vec3::default(),
            normal: Vec3::default(),
            t: Fx { raw: 0 },
            front_face: false,
            material: None,
        }
    }

    /// Orient the given outward normal against the incoming ray and
    /// store it, together with which face was hit.
    pub fn set_face_normal(&mut self, ray: &Ray, outward_normal: &Vec3)
        ensures
            final(self)@ == with_face_normal(old(self)@, ray@, outward_normal@),
    {
        self.front_face = Vec3::dot(&ray.direction, outward_normal).raw < 0;
        if self.front_face {
            self.normal = *outward_normal;
        } else {
            self.normal = Vec3::mul(outward_normal, Fx::one().neg());
        }
    }
}

/// The intersection capability: report the nearest intersection of a ray
/// strictly inside an interval, or that there is none.
pub trait Hittable {
    /// The model of this object's intersection search.
    spec fn hit_spec(&self, ray: RayS, itv: IntervalS) -> Option<HitS>;

    /// Search for the nearest admissible intersection; on success fill
    /// `hit_record` with it, otherwise leave the record unchanged.
    fn hit(&self, ray: &Ray, interval: &Interval, hit_record: &mut HitRecord) -> (found: bool)
        ensures
            found == (self.hit_spec(ray@, interval@) is Some),
            found ==> final(hit_record)@ == self.hit_spec(ray@, interval@)->Some_0,
            !found ==> *final(hit_record) == *old(hit_record),
    ;
}

/// Orienting a normal faces it against the incoming ray: `front_face`
/// holds exactly when the ray direction points against the outward
/// normal, and the dot product of the ray direction with the stored
/// normal is never positive.
pub proof fn lemma_face_normal_orientation(h: HitS, ray: RayS, outward: V3)
    requires
        v_ok(outward),
    ensures
        with_face_normal(h, ray, outward).front_face == (v_dot(ray.direction, outward) < 0),
        v_dot(ray.direction, with_face_normal(h, ray, outward).normal) <= 0,
{
    let d = ray.direction;
    if v_dot(d, outward) >= 0 {
        lemma_mul_raw_neg_one(outward.x);
        lemma_mul_raw_neg_one(outward.y);
        lemma_mul_raw_neg_one(outward.z);
        lemma_mul_raw_neg_right(d.x, outward.x);
        lemma_mul_raw_neg_right(d.y, outward.y);
        lemma_mul_raw_neg_right(d.z, outward.z);
    }
}

} // verus!
