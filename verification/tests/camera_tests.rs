//! Camera construction, gamma encoding, the color estimator, and
//! end-to-end renders with a seeded deterministic sampler.

use raytracer::camera::Camera;
use raytracer::fx::MAX_RAW;
use raytracer::hit_record::{HitRecord, Hittable};
use raytracer::interval::Interval;
use raytracer::trig::{cos_approx, sin_approx, tan_half_deg};
use raytracer::fx::{Fx, SCALE};
use raytracer::hittable_list::HittableList;
use raytracer::material::Material;
use raytracer::ray::Ray;
use raytracer::rng::SplitMix;
use raytracer::sphere::Sphere;
use raytracer::vec3::Vec3;

fn c3(x: i64, y: i64, z: i64) -> Vec3 {
    Vec3::new(Fx::from_int(x), Fx::from_int(y), Fx::from_int(z))
}

fn aspect_16_9() -> Fx {
    Fx::from_int(16).div(Fx::from_int(9))
}

fn origin_camera(width: usize) -> Camera {
    Camera::new(
        aspect_16_9(),
        width,
        c3(0, 0, 0),
        c3(0, 0, -1),
        Fx::from_int(90),
        Fx::zero(),
        Fx::one(),
    )
}

fn single_sphere_world() -> HittableList {
    let mut world = HittableList::new();
    world.push(Sphere::new(
        &c3(0, 0, -1),
        Fx { raw: SCALE / 2 },
        Material::Lambertian { albedo: Vec3::new(Fx { raw: SCALE / 2 }, Fx { raw: SCALE / 2 }, Fx { raw: SCALE / 2 }) },
    ));
    world
}

fn buffer(height: usize, width: usize) -> Vec<Vec<Vec3>> {
    let mut b = Vec::new();
    for _ in 0..height {
        let mut row = Vec::new();
        for _ in 0..width {
            row.push(Vec3::default());
        }
        b.push(row);
    }
    b
}

#[test]
fn camera_derives_image_height() {
    let cam = origin_camera(400);
    // 400 / (16 / 9) = 225.
    assert_eq!(cam.image_height, 225);
    // A width below one aspect unit still gets one row.
    let tiny = Camera::new(Fx::from_int(1000), 5, c3(0, 0, 0), c3(0, 0, -1), Fx::from_int(90), Fx::zero(), Fx::one());
    assert_eq!(tiny.image_height, 1);
}

#[test]
fn camera_fov_90_viewport() {
    // tan(45 degrees) = 1, so the half-height of the viewport equals
    // the focus distance; the per-pixel delta spans 2 * aspect / width.
    let cam = origin_camera(400);
    let expect = (2.0 * (400.0 / 225.0) / 400.0 * SCALE as f64) as i64;
    assert!(
        (cam.pixel_delta_u.x.raw - expect).abs() < SCALE / 500,
        "delta_u raw {} expect {}",
        cam.pixel_delta_u.x.raw,
        expect
    );
    // Rows run downward.
    assert!(cam.pixel_delta_v.y.raw < 0);
    // The basis looks down -z from the origin.
    assert_eq!(cam.center, c3(0, 0, 0));
}

#[test]
fn gamma_of_quarter_is_half() {
    assert_eq!(Camera::linear_to_gamma(Fx { raw: SCALE / 4 }).raw, SCALE / 2);
    assert_eq!(Camera::linear_to_gamma(Fx::one()).raw, SCALE);
    assert_eq!(Camera::linear_to_gamma(Fx::zero()).raw, 0);
    assert_eq!(Camera::linear_to_gamma(Fx::from_int(-2)).raw, 0);
}

#[test]
fn ray_color_depth_zero_is_black() {
    let world = single_sphere_world();
    let ray = Ray::new(&c3(0, 0, 0), &c3(0, 0, -1));
    let mut rng = SplitMix::seeded(21);
    let c = Camera::ray_color(&ray, 0, &world, &mut rng);
    assert_eq!(c, Vec3::default());
}

#[test]
fn ray_color_miss_is_sky_gradient() {
    let world = HittableList::new();
    let mut rng = SplitMix::seeded(22);
    // Straight up: a = 1, color = (0.5, 0.7, 1.0).
    let up = Camera::ray_color(&Ray::new(&c3(0, 0, 0), &c3(0, 1, 0)), 10, &world, &mut rng);
    assert!((up.x.raw - SCALE / 2).abs() < SCALE / 1000);
    assert!((up.y.raw - (0.7 * SCALE as f64) as i64).abs() < SCALE / 1000);
    assert!((up.z.raw - SCALE).abs() < SCALE / 1000);
    // Straight down: a = 0, color = white.
    let down = Camera::ray_color(&Ray::new(&c3(0, 0, 0), &c3(0, -1, 0)), 10, &world, &mut rng);
    assert!((down.x.raw - SCALE).abs() < SCALE / 1000);
    assert!((down.y.raw - SCALE).abs() < SCALE / 1000);
    assert!((down.z.raw - SCALE).abs() < SCALE / 1000);
}

#[test]
fn ray_color_hit_attenuates_below_albedo() {
    // A head-on hit on a half-gray Lambertian sphere: the estimate is
    // the 0.5 albedo times a recursive color whose channels stay near
    // or below one, so every channel is about half or less — far from
    // the sky gradient value (0.75, 0.85, 1.0) for this ray.
    let world = single_sphere_world();
    let ray = Ray::new(&c3(0, 0, 0), &c3(0, 0, -1));
    let slack = SCALE / 100;
    for seed in 0..50u64 {
        let mut rng = SplitMix::seeded(seed);
        let c = Camera::ray_color(&ray, 8, &world, &mut rng);
        for ch in [c.x.raw, c.y.raw, c.z.raw] {
            assert!(0 <= ch && ch <= SCALE / 2 + slack, "channel raw {ch} at seed {seed}");
        }
        assert!((c.z.raw - SCALE).abs() > SCALE / 4, "must differ from the sky blue channel");
    }
}

#[test]
fn center_ray_hits_single_sphere() {
    // A ray through the image center must intersect the sphere, and the
    // rendered center pixel must differ from the sky background.
    let world = single_sphere_world();
    let ray = Ray::new(&c3(0, 0, 0), &c3(0, 0, -1));
    let mut rec = HitRecord::new();
    assert!(world.hit(
        &ray,
        &Interval::new_with_values(Fx { raw: 4_294_967 }, Fx { raw: MAX_RAW }),
        &mut rec,
    ));

    let mut cam = origin_camera(16);
    cam.samples_per_pixel = 4;
    cam.max_depth = 4;
    let h = cam.image_height;
    let w = cam.image_width;

    let mut with_sphere = buffer(h, w);
    Camera::render(&cam, &world, &mut with_sphere, &mut SplitMix::seeded(33));
    let mut sky_only = buffer(h, w);
    Camera::render(&cam, &HittableList::new(), &mut sky_only, &mut SplitMix::seeded(33));

    let center = &with_sphere[h / 2][w / 2];
    let sky = &sky_only[h / 2][w / 2];
    assert_ne!(center, sky, "the sphere must darken the center pixel");
    // A corner ray misses the sphere and still shows the sky.
    assert!((with_sphere[0][0].z.raw - sky_only[0][0].z.raw).abs() < SCALE / 100);
}

#[test]
fn ray_color_sub_resolution_direction_stays_in_range() {
    // A nonzero direction whose components all lie below the Q31.32
    // resolution: its computed squared length truncates to zero and
    // normalization saturates.  The clamped sky gradient must still
    // land inside [0.5, 1] per channel, with blue exactly one.
    let world = HittableList::new();
    let dir = Vec3::new(Fx { raw: 0 }, Fx { raw: 40_000 }, Fx { raw: 0 });
    let mut rng = SplitMix::seeded(51);
    let c = Camera::ray_color(&Ray::new(&c3(0, 0, 0), &dir), 1, &world, &mut rng);
    for ch in [c.x.raw, c.y.raw] {
        assert!(SCALE / 2 <= ch && ch <= SCALE, "channel raw {ch}");
    }
    assert_eq!(c.z.raw, SCALE);
}

#[test]
fn render_output_stays_in_unit_cube() {
    // A scene with all three materials: every rendered channel must lie
    // in [0, 1], as the range law states for scenes whose albedos do.
    let mut world = HittableList::new();
    world.push(Sphere::new(
        &c3(0, 0, -1),
        Fx { raw: SCALE / 2 },
        Material::Lambertian { albedo: Vec3::new(Fx { raw: SCALE / 2 }, Fx { raw: SCALE / 4 }, Fx { raw: SCALE / 8 }) },
    ));
    world.push(Sphere::new(
        &c3(-1, 0, -1),
        Fx { raw: SCALE / 2 },
        Material::Metal { albedo: Vec3::new(Fx { raw: SCALE }, Fx { raw: SCALE }, Fx { raw: SCALE }) , fuzz: Fx { raw: SCALE / 2 } },
    ));
    world.push(Sphere::new(
        &c3(1, 0, -1),
        Fx { raw: SCALE / 2 },
        Material::Dielectric { refraction_index: Fx { raw: SCALE + SCALE / 2 } },
    ));
    let mut cam = origin_camera(12);
    cam.samples_per_pixel = 2;
    cam.max_depth = 6;
    let h = cam.image_height;
    let w = cam.image_width;
    let mut b = buffer(h, w);
    Camera::render(&cam, &world, &mut b, &mut SplitMix::seeded(61));
    for row in &b {
        for px in row {
            for ch in [px.x.raw, px.y.raw, px.z.raw] {
                assert!(0 <= ch && ch <= SCALE, "channel raw {ch}");
            }
        }
    }
}

#[test]
fn render_is_deterministic_per_seed() {
    let world = single_sphere_world();
    let mut cam = origin_camera(12);
    cam.samples_per_pixel = 3;
    cam.max_depth = 3;
    let h = cam.image_height;
    let w = cam.image_width;

    let mut first = buffer(h, w);
    Camera::render(&cam, &world, &mut first, &mut SplitMix::seeded(77));
    let mut second = buffer(h, w);
    Camera::render(&cam, &world, &mut second, &mut SplitMix::seeded(77));
    assert_eq!(first, second, "identical seeds must give identical buffers");

    let mut other = buffer(h, w);
    Camera::render(&cam, &world, &mut other, &mut SplitMix::seeded(78));
    assert_ne!(first, other, "different seeds should perturb the image");
}

#[test]
fn render_preserves_buffer_shape() {
    let world = single_sphere_world();
    let mut cam = origin_camera(8);
    cam.samples_per_pixel = 1;
    cam.max_depth = 2;
    let mut b = buffer(3, 8);
    Camera::render(&cam, &world, &mut b, &mut SplitMix::seeded(9));
    assert_eq!(b.len(), 3);
    for row in &b {
        assert_eq!(row.len(), 8);
        for px in row {
            assert!(px.x.raw >= 0 && px.y.raw >= 0 && px.z.raw >= 0);
        }
    }
}

#[test]
fn get_ray_points_into_pixel_grid() {
    let cam = origin_camera(40);
    let mut rng = SplitMix::seeded(41);
    let r = cam.get_ray(20, cam.image_height / 2, &mut rng);
    // From the pinhole center toward -z, near the view axis.
    assert_eq!(r.origin, c3(0, 0, 0));
    assert!(r.direction.z.raw < 0);
    assert!(r.direction.x.raw.abs() < SCALE / 2);
    assert!(r.direction.y.raw.abs() < SCALE / 2);
}

#[test]
fn defocus_disk_origin_near_center() {
    let cam = Camera::new(
        aspect_16_9(),
        40,
        c3(0, 0, 0),
        c3(0, 0, -1),
        Fx::from_int(90),
        Fx::from_int(10),
        Fx::one(),
    );
    let mut rng = SplitMix::seeded(43);
    for _ in 0..50 {
        let p = cam.defocus_disk_sample(&mut rng);
        // The defocus radius is tan(5 degrees) < 0.1, so samples stay
        // within 0.2 of the camera center.
        assert!(p.x.raw.abs() < SCALE / 5);
        assert!(p.y.raw.abs() < SCALE / 5);
        assert_eq!(p.z.raw, 0);
        // With an open aperture, rays originate on the disk.
        let r = cam.get_ray(20, 10, &mut rng);
        assert_eq!(r.origin.z.raw, 0);
    }
}

#[test]
fn rgb8_mapping_formula() {
    // floor(255.999 * clamp(c, 0, 0.9999))
    let (r, g, b) = Camera::to_rgb8(&Vec3::new(
        Fx::zero(),
        Fx { raw: SCALE / 2 },
        Fx::one(),
    ));
    assert_eq!(r, 0);
    assert_eq!(g, 127); // 255.999 * 0.5 = 127.9995
    assert_eq!(b, 255); // clamped to 0.9999 first
    let (nr, _, _) = Camera::to_rgb8(&c3(-1, 0, 0));
    assert_eq!(nr, 0);
}

#[test]
fn sample_square_jitter_in_unit_box() {
    let cam = origin_camera(8);
    let mut rng = SplitMix::seeded(45);
    for _ in 0..100 {
        let s = cam.sample_square(&mut rng);
        assert!(0 <= s.x.raw && s.x.raw < SCALE);
        assert!(0 <= s.y.raw && s.y.raw < SCALE);
        assert_eq!(s.z.raw, 0);
    }
}

#[test]
fn trig_small_angles() {
    assert_eq!(sin_approx(Fx::zero()).raw, 0);
    assert_eq!(cos_approx(Fx::zero()).raw, SCALE);
    // tan(45 degrees) = 1 within polynomial tolerance.
    let t = tan_half_deg(Fx::from_int(90));
    assert!((t.raw - SCALE).abs() < SCALE / 10000, "tan(45deg) raw {}", t.raw);
    // tan(30 degrees) = 0.57735...
    let t30 = tan_half_deg(Fx::from_int(60));
    let expect = (0.5773502691896258 * SCALE as f64) as i64;
    assert!((t30.raw - expect).abs() < SCALE / 10000, "tan(30deg) raw {}", t30.raw);
}
