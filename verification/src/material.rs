//! The three scattering laws: diffuse, metallic and refractive.
//!
//! Given the incoming ray and a hit record, a material produces an
//! attenuation color and a scattered ray, or reports that the ray was
//! absorbed.  The direction of the scattered ray may depend on random
//! draws; the contracts pin it to a deterministic spec function of those
//! draws.

use crate::fx::{add_raw, div_raw, min_raw, mul_raw, sqrt_raw, sub_raw, Fx, SCALE};
use crate::hit_record::HitRecord;
use crate::ray::Ray;
use crate::rng::RngSource;
use crate::vec3::{
    is_unit_sample, v_add, v_dot, v_mul, v_near_zero, v_reflect, v_refract, v_unit, Vec3, V3,
};
use vstd::prelude::*;

verus! {

/// The model of a material.
pub ghost enum MatS {
    Metal { albedo: V3, fuzz: int },
    Lambertian { albedo: V3 },
    Dielectric { refraction_index: int },
}

/// The color that attenuates nothing.
pub open spec fn white() -> V3 {
    V3 { x: SCALE as int, y: SCALE as int, z: SCALE as int }
}

/// Each channel of a color lies in `[0, 1]`.
pub open spec fn color_ok(c: V3) -> bool {
    &&& 0 <= c.x <= SCALE as int
    &&& 0 <= c.y <= SCALE as int
    &&& 0 <= c.z <= SCALE as int
}

/// The material's attenuation color lies in `[0, 1]` per channel (a
/// dielectric attenuates with white, which always does).
pub open spec fn mat_albedo_ok(m: MatS) -> bool {
    match m {
        MatS::Lambertian { albedo } => color_ok(albedo),
        MatS::Metal { albedo, fuzz } => color_ok(albedo),
        MatS::Dielectric { refraction_index } => true,
    }
}

/// Fifth power, in the association the reflectance code uses.
pub open spec fn pow5_raw(a: int) -> int {
    let a2 = mul_raw(a, a);
    mul_raw(mul_raw(a2, a2), a)
}

/// Schlick's reflectance approximation:
/// `r0 + (1 - r0) (1 - cos)^5` with `r0 = ((1 - ri) / (1 + ri))^2`.
pub open spec fn s_reflectance(ri: int, cosine: int) -> int {
    let r0 = div_raw(sub_raw(SCALE as int, ri), add_raw(SCALE as int, ri));
    let r0sq = mul_raw(r0, r0);
    add_raw(r0sq, mul_raw(sub_raw(SCALE as int, r0sq), pow5_raw(sub_raw(SCALE as int, cosine))))
}

/// A diffuse bounce: normal plus a unit sample, with the normal itself
/// standing in when the sum nearly cancels.
#[verifier::opaque]
pub open spec fn lambertian_dir(normal: V3, u: V3) -> V3 {
    let d = v_add(normal, u);
    if v_near_zero(d) {
        normal
    } else {
        d
    }
}

/// A metallic bounce: the normalized mirror reflection, perturbed by
/// `fuzz` times a unit sample.
#[verifier::opaque]
pub open spec fn metal_dir(in_dir: V3, normal: V3, fuzz: int, u: V3) -> V3 {
    v_add(v_unit(v_reflect(in_dir, normal)), v_mul(u, fuzz))
}

/// The relative refraction index at the hit: entering a front face
/// crosses from vacuum into the medium, leaving crosses back out.
pub open spec fn dielectric_ri(front_face: bool, refraction_index: int) -> int {
    if front_face {
        div_raw(SCALE as int, refraction_index)
    } else {
        refraction_index
    }
}

/// A dielectric bounce, as decided by the uniform draw `q`: reflect on
/// total internal reflection or when Schlick's reflectance exceeds `q`,
/// else refract by Snell's law.
#[verifier::opaque]
pub open spec fn dielectric_dir(
    in_dir: V3,
    normal: V3,
    front_face: bool,
    refraction_index: int,
    q: int,
) -> V3 {
    let ri = dielectric_ri(front_face, refraction_index);
    let unit_dir = v_unit(in_dir);
    let cos_theta = min_raw(v_dot(v_mul(unit_dir, -(SCALE as int)), normal), SCALE as int);
    let sin_theta = sqrt_raw(sub_raw(SCALE as int, mul_raw(cos_theta, cos_theta)));
    if mul_raw(ri, sin_theta) > SCALE || s_reflectance(ri, cos_theta) > q {
        v_reflect(unit_dir, normal)
    } else {
        v_refract(unit_dir, normal, ri)
    }
}

/// A surface material: one of the three scattering laws.
#[derive(Clone, Copy, PartialEq, Eq, Structural, Debug)]
pub enum Material {
    Metal { albedo: Vec3, fuzz: Fx },
    Lambertian { albedo: Vec3 },
    Dielectric { refraction_index: Fx },
}

impl View for Material {
    type V = MatS;

    open spec fn view(&self) -> MatS {
        match self {
            Material::Metal { albedo, fuzz } => MatS::Metal { albedo: albedo@, fuzz: fuzz@ },
            Material::Lambertian { albedo } => MatS::Lambertian { albedo: albedo@ },
            Material::Dielectric { refraction_index } => MatS::Dielectric {
                refraction_index: refraction_index@,
            },
        }
    }
}

impl Material {
    /// Schlick's reflectance approximation.
    pub fn reflectance(ri: Fx, cosine: Fx) -> (r: Fx)
        ensures
            r@ == s_reflectance(ri@, cosine@),
    {
        let r0 = Fx::one().sub(ri).div(Fx::one().add(ri));
        let r0sq = r0.mul(r0);
        let b = Fx::one().sub(cosine);
        let b2 = b.mul(b);
        let b5 = b2.mul(b2).mul(b);
        r0sq.add(Fx::one().sub(r0sq).mul(b5))
    }

    /// Scatter the incoming ray at the hit: write the attenuation color
    /// and the outgoing ray, and report whether the ray survives.  A
    /// diffuse or refractive surface always scatters; a metallic one
    /// absorbs the ray when the fuzzed reflection points into the
    /// surface.
    pub fn scatter<R: RngSource>(
        &self,
        ray_in: &Ray,
        hit_record: &HitRecord,
        attenuation: &mut Vec3,
        ray: &mut Ray,
        rng: &mut R,
    ) -> (b: bool)
        ensures
            final(ray).origin@ == hit_record.point@,
            self matches Material::Lambertian { albedo } ==> ({
                &&& b == true
                &&& final(attenuation)@ == albedo@
                &&& exists|u: V3|
                    is_unit_sample(u) && final(ray).direction@ == lambertian_dir(
                        hit_record.normal@,
                        u,
                    )
            }),
            self matches Material::Metal { albedo, fuzz } ==> ({
                &&& b == (v_dot(final(ray).direction@, hit_record.normal@) > 0)
                &&& final(attenuation)@ == albedo@
                &&& exists|u: V3|
                    is_unit_sample(u) && final(ray).direction@ == metal_dir(
                        ray_in.direction@,
                        hit_record.normal@,
                        fuzz@,
                        u,
                    )
            }),
            self matches Material::Dielectric { refraction_index } ==> ({
                &&& b == true
                &&& final(attenuation)@ == white()
                &&& exists|q: int|
                    0 <= q < SCALE && final(ray).direction@ == dielectric_dir(
                        ray_in.direction@,
                        hit_record.normal@,
                        hit_record.front_face,
                        refraction_index@,
                        q,
                    )
            }),
    {
        match self {
            Material::Lambertian { albedo } => {
                let u = Vec3::new_rand_unit(rng);
                let mut scatter_dir = Vec3::add(&hit_record.normal, &u);
                if scatter_dir.near_zero() {
                    scatter_dir = hit_record.normal;
                }
                *ray = Ray::new(&hit_record.point, &scatter_dir);
                *attenuation = *albedo;
                proof {
                    reveal(lambertian_dir);
                    assert(is_unit_sample(u@) && ray.direction@ == lambertian_dir(
                        hit_record.normal@,
                        u@,
                    ));
                }
                true
            },
            Material::Metal { albedo, fuzz } => {
                let reflected = Vec3::reflect(&ray_in.direction, &hit_record.normal);
                let u = Vec3::new_rand_unit(rng);
                let fuzzed = Vec3::add(&Vec3::unit(&reflected), &Vec3::mul(&u, *fuzz));
                *ray = Ray::new(&hit_record.point, &fuzzed);
                *attenuation = *albedo;
                proof {
                    reveal(metal_dir);
                    assert(is_unit_sample(u@) && ray.direction@ == metal_dir(
                        ray_in.direction@,
                        hit_record.normal@,
                        fuzz@,
                        u@,
                    ));
                }
                Vec3::dot(&ray.direction, &hit_record.normal).raw > 0
            },
            Material::Dielectric { refraction_index } => {
                *attenuation = Vec3::new(Fx::one(), Fx::one(), Fx::one());
                let ri = if hit_record.front_face {
                    Fx::one().div(*refraction_index)
                } else {
                    *refraction_index
                };
                let unit_dir = Vec3::unit(&ray_in.direction);
                let cos_theta = Vec3::dot(
                    &Vec3::mul(&unit_dir, Fx::one().neg()),
                    &hit_record.normal,
                ).min(Fx::one());
                let sin_theta = Fx::one().sub(cos_theta.mul(cos_theta)).sqrt();
                let cannot_refract = ri.mul(sin_theta).raw > SCALE;
                let q = rng.next_unit();
                let dir = if cannot_refract || Self::reflectance(ri, cos_theta).raw > q.raw {
                    Vec3::reflect(&unit_dir, &hit_record.normal)
                } else {
                    Vec3::refract(&unit_dir, &hit_record.normal, ri)
                };
                *ray = Ray::new(&hit_record.point, &dir);
                proof {
                    reveal(dielectric_dir);
                    assert(0 <= q@ < SCALE && ray.direction@ == dielectric_dir(
                        ray_in.direction@,
                        hit_record.normal@,
                        hit_record.front_face,
                        refraction_index@,
                        q@,
                    ));
                }
                true
            },
        }
    }
}

} // verus!
