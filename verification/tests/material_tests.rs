//! The three scattering laws: absorption behavior, attenuation and
//! scattered-ray geometry.

use raytracer::fx::{Fx, MAX_RAW, SCALE};
use raytracer::hit_record::{HitRecord, Hittable};
use raytracer::interval::Interval;
use raytracer::material::Material;
use raytracer::ray::Ray;
use raytracer::rng::SplitMix;
use raytracer::sphere::Sphere;
use raytracer::vec3::Vec3;

fn w3(x: i64, y: i64, z: i64) -> Vec3 {
    Vec3::new(Fx::from_int(x), Fx::from_int(y), Fx::from_int(z))
}

fn hit_on_floor() -> HitRecord {
    // A hit on the plane-like top of a big sphere: point at the origin,
    // normal straight up, front face.
    let mut rec = HitRecord::new();
    rec.point = w3(0, 0, 0);
    rec.normal = w3(0, 1, 0);
    rec.front_face = true;
    rec.t = Fx::one();
    rec
}

#[test]
fn lambertian_always_scatters() {
    let mat = Material::Lambertian { albedo: Vec3::new(Fx { raw: SCALE / 2 }, Fx { raw: SCALE / 4 }, Fx { raw: SCALE / 8 }) };
    let rec = hit_on_floor();
    let ray_in = Ray::new(&w3(0, 1, -1), &w3(0, -1, 1));
    let mut rng = SplitMix::seeded(1);
    for _ in 0..100 {
        let mut attenuation = Vec3::default();
        let mut scattered = Ray::new(&Vec3::default(), &Vec3::default());
        assert!(mat.scatter(&ray_in, &rec, &mut attenuation, &mut scattered, &mut rng));
        assert_eq!(attenuation.x.raw, SCALE / 2);
        assert_eq!(attenuation.y.raw, SCALE / 4);
        assert_eq!(attenuation.z.raw, SCALE / 8);
        assert_eq!(scattered.origin, rec.point);
        // The scattered direction leans along the normal: never into
        // the surface by more than a unit sample can reach.
        assert!(scattered.direction.y.raw > -SCALE);
    }
}

#[test]
fn dielectric_always_scatters() {
    let mat = Material::Dielectric { refraction_index: Fx { raw: SCALE + SCALE / 2 } };
    let rec = hit_on_floor();
    let ray_in = Ray::new(&w3(1, 1, 0), &Vec3::unit(&w3(1, -1, 0)));
    let mut rng = SplitMix::seeded(2);
    for _ in 0..100 {
        let mut attenuation = Vec3::default();
        let mut scattered = Ray::new(&Vec3::default(), &Vec3::default());
        assert!(mat.scatter(&ray_in, &rec, &mut attenuation, &mut scattered, &mut rng));
        // A dielectric attenuates nothing.
        assert_eq!(attenuation, w3(1, 1, 1));
        assert_eq!(scattered.origin, rec.point);
    }
}

#[test]
fn metal_absorbs_exactly_when_fuzzed_into_surface() {
    // With a large fuzz the perturbed reflection sometimes points into
    // the surface; scatter must report false exactly in those cases.
    let mat = Material::Metal { albedo: w3(1, 1, 1), fuzz: Fx::from_int(3) };
    let rec = hit_on_floor();
    let ray_in = Ray::new(&w3(-1, 1, 0), &Vec3::unit(&w3(1, -1, 0)));
    let mut rng = SplitMix::seeded(3);
    let mut absorbed = 0;
    let mut survived = 0;
    for _ in 0..200 {
        let mut attenuation = Vec3::default();
        let mut scattered = Ray::new(&Vec3::default(), &Vec3::default());
        let b = mat.scatter(&ray_in, &rec, &mut attenuation, &mut scattered, &mut rng);
        let up = Vec3::dot(&scattered.direction, &rec.normal).raw;
        assert_eq!(b, up > 0);
        if b {
            survived += 1;
        } else {
            absorbed += 1;
        }
    }
    assert!(absorbed > 0, "a fuzz of 3 should push some rays under the surface");
    assert!(survived > 0);
}

#[test]
fn mirror_metal_reflects_exactly() {
    let mat = Material::Metal { albedo: w3(1, 1, 1), fuzz: Fx::zero() };
    let rec = hit_on_floor();
    let incoming = Vec3::unit(&w3(1, -1, 0));
    let ray_in = Ray::new(&w3(-1, 1, 0), &incoming);
    let mut rng = SplitMix::seeded(4);
    let mut attenuation = Vec3::default();
    let mut scattered = Ray::new(&Vec3::default(), &Vec3::default());
    assert!(mat.scatter(&ray_in, &rec, &mut attenuation, &mut scattered, &mut rng));
    // The mirror image of (s, -s, 0) about +y is (s, s, 0).
    assert!(scattered.direction.y.raw > 0);
    assert!((scattered.direction.x.raw - scattered.direction.y.raw).abs() < SCALE / 1000);
    assert!(scattered.direction.z.raw == 0);
}

#[test]
fn total_internal_reflection_reflects() {
    // Leaving a dense medium at a grazing angle: ri * sin(theta) > 1,
    // so the ray must reflect, keeping a positive tangential component
    // and flipping away from the surface it hit from inside.
    let mat = Material::Dielectric { refraction_index: Fx { raw: SCALE + SCALE / 2 } };
    let mut rec = hit_on_floor();
    rec.front_face = false; // exiting: relative index is 1.5
    let grazing = Vec3::unit(&Vec3::new(Fx::one(), Fx { raw: -SCALE / 4 }, Fx::zero()));
    let ray_in = Ray::new(&w3(-1, 1, 0), &grazing);
    let mut rng = SplitMix::seeded(5);
    for _ in 0..50 {
        let mut attenuation = Vec3::default();
        let mut scattered = Ray::new(&Vec3::default(), &Vec3::default());
        assert!(mat.scatter(&ray_in, &rec, &mut attenuation, &mut scattered, &mut rng));
        // Reflection about +y flips the downward component up.
        assert!(scattered.direction.y.raw > 0);
        assert!(scattered.direction.x.raw > 0);
    }
}

#[test]
fn reflectance_at_normal_incidence() {
    // Schlick at cos = 1: r0 = ((1 - 1.5) / (1 + 1.5))^2 = 0.04.
    let r = Material::reflectance(Fx { raw: SCALE + SCALE / 2 }, Fx::one());
    let expect = (SCALE as f64 * 0.04) as i64;
    assert!((r.raw - expect).abs() < 1000, "reflectance raw {}", r.raw);
}

#[test]
fn reflectance_grows_at_grazing_angle() {
    let ri = Fx { raw: SCALE + SCALE / 2 };
    let normal = Material::reflectance(ri, Fx::one());
    let grazing = Material::reflectance(ri, Fx { raw: SCALE / 10 });
    assert!(grazing.raw > normal.raw);
    // Near cos = 0 the reflectance approaches 1.
    assert!(grazing.raw > SCALE / 2);
}

#[test]
fn scene_hit_attaches_material_for_scatter() {
    // The record a scene hit fills carries the material that then
    // drives scattering.
    let mut world = raytracer::hittable_list::HittableList::new();
    world.push(Sphere::new(&w3(0, 0, -1), Fx { raw: SCALE / 2 }, Material::Lambertian { albedo: w3(1, 0, 0) }));
    let ray = Ray::new(&w3(0, 0, 0), &w3(0, 0, -1));
    let mut rec = HitRecord::new();
    assert!(world.hit(
        &ray,
        &Interval::new_with_values(Fx { raw: 4_294_967 }, Fx { raw: MAX_RAW }),
        &mut rec,
    ));
    let mat = rec.material.expect("hit must attach a material");
    let mut rng = SplitMix::seeded(6);
    let mut attenuation = Vec3::default();
    let mut scattered = Ray::new(&Vec3::default(), &Vec3::default());
    assert!(mat.scatter(&ray, &rec, &mut attenuation, &mut scattered, &mut rng));
    assert_eq!(attenuation, w3(1, 0, 0));
}
