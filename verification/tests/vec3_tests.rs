//! Vector algebra: exact values where fixed point is exact, tolerances
//! where it truncates, and the sampling guarantees.

use raytracer::fx::{Fx, SCALE};
use raytracer::rng::{RngSource, SplitMix};
use raytracer::vec3::Vec3;

fn v3(x: i64, y: i64, z: i64) -> Vec3 {
    Vec3::new(Fx::from_int(x), Fx::from_int(y), Fx::from_int(z))
}

#[test]
fn vec3_add_sub_mul_div() {
    let a = v3(1, 2, 3);
    let b = v3(4, -5, 6);
    assert_eq!(Vec3::add(&a, &b), v3(5, -3, 9));
    assert_eq!(Vec3::sub(&a, &b), v3(-3, 7, -3));
    assert_eq!(Vec3::mul(&a, Fx::from_int(2)), v3(2, 4, 6));
    assert_eq!(Vec3::mul_vec(&a, &b), v3(4, -10, 18));
    assert_eq!(Vec3::div(&v3(2, 4, 6), Fx::from_int(2)), v3(1, 2, 3));
}

#[test]
fn vec3_dot_cross() {
    let a = v3(1, 2, 3);
    let b = v3(4, -5, 6);
    assert_eq!(Vec3::dot(&a, &b).raw, (4 - 10 + 18) * SCALE);
    // (1,0,0) x (0,1,0) = (0,0,1)
    assert_eq!(Vec3::cross(&v3(1, 0, 0), &v3(0, 1, 0)), v3(0, 0, 1));
    // (2,3,4) x (5,6,7) = (-3, 6, -3)
    assert_eq!(Vec3::cross(&v3(2, 3, 4), &v3(5, 6, 7)), v3(-3, 6, -3));
}

#[test]
fn vec3_length_345() {
    let a = v3(3, 4, 0);
    assert_eq!(a.length_squared().raw, 25 * SCALE);
    assert_eq!(a.length().raw, 5 * SCALE);
}

#[test]
fn vec3_unit_345() {
    let u = Vec3::unit(&v3(3, 4, 0));
    // 3/5 and 4/5, truncated toward zero
    assert_eq!(u.x.raw, 3 * SCALE / 5);
    assert_eq!(u.y.raw, 4 * SCALE / 5);
    assert_eq!(u.z.raw, 0);
}

#[test]
fn vec3_near_zero() {
    assert!(Vec3::default().near_zero());
    assert!(Vec3::new(Fx { raw: 65_535 }, Fx { raw: -65_535 }, Fx { raw: 0 }).near_zero());
    assert!(!Vec3::new(Fx { raw: 65_536 }, Fx { raw: 0 }, Fx { raw: 0 }).near_zero());
    assert!(!v3(1, 0, 0).near_zero());
}

#[test]
fn vec3_reflect_exact() {
    // reflect((1,-1,0), (0,1,0)) = (1,1,0)
    let r = Vec3::reflect(&v3(1, -1, 0), &v3(0, 1, 0));
    assert_eq!(r, v3(1, 1, 0));
    // reflecting a vector already along the normal flips it
    let r2 = Vec3::reflect(&v3(0, -2, 0), &v3(0, 1, 0));
    assert_eq!(r2, v3(0, 2, 0));
}

#[test]
fn vec3_reflect_preserves_length() {
    // |reflect(v, n)| matches |v| up to fixed-point truncation for a
    // unit normal and a unit incoming vector.
    let v = Vec3::unit(&v3(3, -4, 0));
    let n = v3(0, 1, 0);
    let r = Vec3::reflect(&v, &n);
    let lv = v.length().raw;
    let lr = r.length().raw;
    assert!((lv - lr).abs() < SCALE / 1000, "lengths {lv} vs {lr}");
}

#[test]
fn vec3_refract_straight_through() {
    // At normal incidence with index ratio 1 the direction is kept.
    let uv = v3(0, 0, -1);
    let n = v3(0, 0, 1);
    let r = Vec3::refract(&uv, &n, Fx::one());
    assert_eq!(r, v3(0, 0, -1));
}

#[test]
fn vec3_refract_bends_toward_normal() {
    // Entering a denser medium (ratio 1/1.5) bends the ray toward the
    // normal: the tangential component shrinks.
    let uv = Vec3::unit(&v3(1, -1, 0));
    let n = v3(0, 1, 0);
    let eta = Fx::one().div(Fx { raw: SCALE + SCALE / 2 });
    let r = Vec3::refract(&uv, &n, eta);
    assert!(r.x.raw > 0 && r.x.raw < uv.x.raw);
    assert!(r.y.raw < 0);
}

#[test]
fn unit_disk_samples_inside() {
    let mut rng = SplitMix::seeded(7);
    for _ in 0..200 {
        let p = Vec3::random_in_unit_disk(&mut rng);
        assert!(p.length_squared().raw < SCALE);
        assert_eq!(p.z.raw, 0);
    }
}

#[test]
fn unit_vector_samples_normalized() {
    let mut rng = SplitMix::seeded(11);
    for _ in 0..100 {
        let u = Vec3::new_rand_unit(&mut rng);
        let len = u.length().raw;
        assert!((len - SCALE).abs() < SCALE / 1000, "length raw {len}");
    }
}

#[test]
fn hemisphere_samples_face_normal() {
    let n = v3(0, 1, 0);
    let mut rng = SplitMix::seeded(13);
    for _ in 0..100 {
        let u = Vec3::rand_on_hemisphere(&n, &mut rng);
        assert!(Vec3::dot(&u, &n).raw >= 0);
    }
}

#[test]
fn rand_ranged_within_bounds() {
    let mut rng = SplitMix::seeded(17);
    for _ in 0..100 {
        let p = Vec3::new_rand_ranged(Fx::from_int(-1), Fx::one(), &mut rng);
        for c in [p.x.raw, p.y.raw, p.z.raw] {
            assert!(-SCALE <= c && c < SCALE);
        }
    }
}

#[test]
fn rand_unit_cube_within_bounds() {
    let mut rng = SplitMix::seeded(19);
    for _ in 0..100 {
        let p = Vec3::new_rand(&mut rng);
        for c in [p.x.raw, p.y.raw, p.z.raw] {
            assert!(0 <= c && c < SCALE);
        }
    }
}

#[test]
fn splitmix_streams_repeat() {
    let mut a = SplitMix::seeded(123);
    let mut b = SplitMix::seeded(123);
    for _ in 0..50 {
        assert_eq!(a.next_unit().raw, b.next_unit().raw);
    }
    let mut c = SplitMix::seeded(124);
    let first_a = SplitMix::seeded(123).next_unit().raw;
    assert_ne!(first_a, c.next_unit().raw);
}
