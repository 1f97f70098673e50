//! The scene container: closest-hit selection across primitives.

use raytracer::fx::{Fx, MAX_RAW, SCALE};
use raytracer::hit_record::{HitRecord, Hittable};
use raytracer::hittable_list::HittableList;
use raytracer::interval::Interval;
use raytracer::material::Material;
use raytracer::ray::Ray;
use raytracer::sphere::Sphere;
use raytracer::vec3::Vec3;

fn q3(x: i64, y: i64, z: i64) -> Vec3 {
    Vec3::new(Fx::from_int(x), Fx::from_int(y), Fx::from_int(z))
}

fn lambertian_red() -> Material {
    Material::Lambertian { albedo: q3(1, 0, 0) }
}

fn metal_blue() -> Material {
    Material::Metal { albedo: q3(0, 0, 1), fuzz: Fx::zero() }
}

fn scan_interval() -> Interval {
    Interval::new_with_values(Fx { raw: 4_294_967 }, Fx { raw: MAX_RAW })
}

#[test]
fn empty_scene_misses() {
    let world = HittableList::new();
    let ray = Ray::new(&q3(0, 0, 0), &q3(0, 0, -1));
    let mut rec = HitRecord::new();
    assert!(!world.hit(&ray, &scan_interval(), &mut rec));
}

#[test]
fn closest_of_two_overlapping_spheres_wins() {
    // Two spheres along one ray: the nearer one's material must be
    // attached, in either insertion order.
    let near = Sphere::new(&q3(0, 0, -1), Fx { raw: SCALE / 5 }, lambertian_red());
    let far = Sphere::new(&q3(0, 0, -2), Fx { raw: SCALE / 5 }, metal_blue());
    let ray = Ray::new(&q3(0, 0, 0), &q3(0, 0, -1));

    for order in 0..2 {
        let mut world = HittableList::new();
        if order == 0 {
            world.push(near);
            world.push(far);
        } else {
            world.push(far);
            world.push(near);
        }
        let mut rec = HitRecord::new();
        assert!(world.hit(&ray, &scan_interval(), &mut rec));
        // t = 0.8, the near sphere's front.
        assert!((rec.t.raw - 4 * SCALE / 5).abs() < SCALE / 10000, "t raw {}", rec.t.raw);
        assert!(matches!(rec.material, Some(Material::Lambertian { .. })));
    }
}

#[test]
fn narrowed_interval_skips_to_farther_sphere() {
    // With the near sphere outside the interval, the far one is found.
    let near = Sphere::new(&q3(0, 0, -1), Fx { raw: SCALE / 5 }, lambertian_red());
    let far = Sphere::new(&q3(0, 0, -2), Fx { raw: SCALE / 5 }, metal_blue());
    let mut world = HittableList::new();
    world.push(near);
    world.push(far);
    let ray = Ray::new(&q3(0, 0, 0), &q3(0, 0, -1));
    let itv = Interval::new_with_values(Fx { raw: 3 * SCALE / 2 }, Fx { raw: MAX_RAW });
    let mut rec = HitRecord::new();
    assert!(world.hit(&ray, &itv, &mut rec));
    assert!(matches!(rec.material, Some(Material::Metal { .. })));
    assert!((rec.t.raw - 9 * SCALE / 5).abs() < SCALE / 10000, "t raw {}", rec.t.raw);
}

#[test]
fn miss_leaves_record_unchanged() {
    let mut world = HittableList::new();
    world.push(Sphere::new(&q3(0, 5, 0), Fx { raw: SCALE / 5 }, lambertian_red()));
    let ray = Ray::new(&q3(0, 0, 0), &q3(0, 0, -1));
    let mut rec = HitRecord::new();
    let before = rec;
    assert!(!world.hit(&ray, &scan_interval(), &mut rec));
    assert_eq!(rec, before);
}

#[test]
fn interval_helpers() {
    let itv = Interval::new_with_values(Fx::from_int(1), Fx::from_int(3));
    assert!(itv.contains(Fx::from_int(1)));
    assert!(itv.contains(Fx::from_int(3)));
    assert!(!itv.surrounds(Fx::from_int(1)));
    assert!(itv.surrounds(Fx::from_int(2)));
    assert_eq!(itv.size().raw, 2 * SCALE);
    assert_eq!(itv.clamp(Fx::from_int(5)).raw, 3 * SCALE);
    assert_eq!(itv.clamp(Fx::from_int(0)).raw, SCALE);
    assert_eq!(itv.clamp(Fx::from_int(2)).raw, 2 * SCALE);
    // The default interval matches nothing.
    let empty = Interval::new();
    assert!(!empty.contains(Fx::zero()));
}

#[test]
fn ray_at_parameter() {
    let ray = Ray::new(&q3(1, 2, 3), &q3(0, 0, -2));
    let p = ray.at(Fx { raw: SCALE / 2 });
    assert_eq!(p, q3(1, 2, 2));
    let q = ray.at(Fx::from_int(-1));
    assert_eq!(q, q3(1, 2, 5));
}
