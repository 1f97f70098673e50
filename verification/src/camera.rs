//! The camera: viewport geometry, per-pixel ray generation with
//! antialiasing jitter and defocus-disk sampling, the recursive
//! depth-bounded color estimator, and the render loop with gamma
//! correction.

use crate::fx::{add_raw, clip, max_raw, min_raw, mul_raw, sqrt_raw, sub_raw, Fx, MAX_RAW, SCALE};
use crate::hit_record::{HitRecord, Hittable};
use crate::fx::{lemma_div_raw_unit, lemma_mul_raw_le_one, lemma_sqrt_raw_le_one};
use crate::hittable_list::{albedos_ok, list_hit, HittableList};
use crate::interval::{Interval, IntervalS};
use crate::material::{
    color_ok, dielectric_dir, lambertian_dir, mat_albedo_ok, metal_dir, white, MatS, Material,
};
use crate::ray::{Ray, RayS};
use crate::sphere::sp_yields;
use crate::rng::RngSource;
use crate::trig::{s_tan_half_deg, tan_half_deg};
use crate::vec3::{
    is_unit_sample, v_add, v_cross, v_div, v_dot, v_len_sq, v_mul, v_mul_vec, v_sub, v_unit,
    v_zero, Vec3, V3,
};
use vstd::prelude::*;

verus! {

/// One half, in raw units.
pub const HALF_RAW: i64 = 0x8000_0000;

/// The sky gradient's lower bound of the ray parameter (about `0.001`),
/// which avoids re-hitting the surface a ray just left.
pub const T_MIN_RAW: i64 = 4_294_967;

/// The green channel of the sky's horizon color (about `0.7`).
pub const SKY_GREEN_RAW: i64 = 3_006_477_107;

/// The largest channel value the display mapping accepts (about
/// `0.9999`).
pub const INTENSITY_MAX_RAW: i64 = 4_294_537_799;

/// The display mapping's scale (about `255.999`).
pub const RGB_SCALE_RAW: i64 = 1_099_507_332_808;

/// The model of a camera with all its derived viewport geometry.
pub ghost struct CamS {
    pub aspect_ratio: int,
    pub image_width: int,
    pub image_height: int,
    pub center: V3,
    pub pixel00_loc: V3,
    pub pixel_delta_u: V3,
    pub pixel_delta_v: V3,
    pub samples_per_pixel: int,
    pub max_depth: int,
    pub fov: int,
    pub defocus_disk_u: V3,
    pub defocus_disk_v: V3,
    pub defocus_angle: int,
}

/// The pixel row count: the width over the aspect ratio, truncated, and
/// at least one.
pub open spec fn s_image_height(width: int, aspect: int) -> int {
    let q = crate::fx::div_raw(clip(width * (SCALE as int)), aspect);
    let ih = if q > 0 {
        q / (SCALE as int)
    } else {
        0
    };
    if ih < 1 {
        1
    } else {
        ih
    }
}

/// Everything the camera derives at construction, from the
/// configuration values: the orthonormal basis `(u, v, w)`, the viewport
/// sized by the focus distance and the tangent of half the vertical
/// field of view, the per-pixel deltas, the location of the first
/// pixel's center, and the defocus-disk basis.
pub open spec fn s_camera_new(
    aspect: int,
    image_width: int,
    lookfrom: V3,
    lookat: V3,
    fov: int,
    defocus_angle: int,
    focus_dist: int,
) -> CamS {
    let s = SCALE as int;
    let vup = V3 { x: 0, y: s, z: 0 };
    let ih = s_image_height(image_width, aspect);
    let h = s_tan_half_deg(fov);
    let viewport_height = mul_raw(mul_raw(clip(2 * s), h), focus_dist);
    let viewport_width = mul_raw(
        viewport_height,
        crate::fx::div_raw(clip(image_width * s), clip(ih * s)),
    );
    let w = v_unit(v_sub(lookfrom, lookat));
    let u = v_unit(v_cross(vup, w));
    let v = v_cross(w, u);
    let viewport_u = v_mul(u, viewport_width);
    let viewport_v = v_mul(v_mul(v, -s), viewport_height);
    let pixel_delta_u = v_div(viewport_u, clip(image_width * s));
    let pixel_delta_v = v_div(viewport_v, clip(ih * s));
    let viewport_upper_left = v_sub(
        v_sub(lookfrom, v_mul(w, focus_dist)),
        v_add(v_div(viewport_u, clip(2 * s)), v_div(viewport_v, clip(2 * s))),
    );
    let defocus_radius = mul_raw(s_tan_half_deg(defocus_angle), focus_dist);
    let pixel00_loc = v_add(
        viewport_upper_left,
        v_mul(v_add(pixel_delta_u, pixel_delta_v), HALF_RAW as int),
    );
    CamS {
        aspect_ratio: aspect,
        image_width,
        image_height: ih,
        center: lookfrom,
        pixel00_loc,
        pixel_delta_u,
        pixel_delta_v,
        samples_per_pixel: 100,
        max_depth: 50,
        fov,
        defocus_disk_u: v_mul(u, defocus_radius),
        defocus_disk_v: v_mul(v, defocus_radius),
        defocus_angle,
    }
}

/// A point on the defocus disk: the center offset along the disk basis
/// by the coordinates of a unit-disk sample.
pub open spec fn s_disk_sample(cam: CamS, p: V3) -> V3 {
    v_add(cam.center, v_add(v_mul(cam.defocus_disk_u, p.x), v_mul(cam.defocus_disk_v, p.y)))
}

/// A possible unit-disk sample: squared length below one, in the
/// `z = 0` plane.
pub open spec fn is_disk_sample(p: V3) -> bool {
    v_len_sq(p) < SCALE && p.z == 0
}

/// The ray for pixel `(i, j)`, given the sub-pixel jitter `(ox, oy)` and
/// (when the aperture is open) a unit-disk sample for the origin: it
/// runs from the chosen origin to the jittered point on the viewport.
pub open spec fn s_get_ray(cam: CamS, i: int, j: int, ox: int, oy: int, disk: V3) -> RayS {
    let s = SCALE as int;
    let pixel_center = v_add(
        cam.pixel00_loc,
        v_add(
            v_mul(cam.pixel_delta_u, add_raw(clip(i * s), ox)),
            v_mul(cam.pixel_delta_v, add_raw(clip(j * s), oy)),
        ),
    );
    let origin = if cam.defocus_angle <= 0 {
        cam.center
    } else {
        s_disk_sample(cam, disk)
    };
    RayS { origin, direction: v_sub(pixel_center, origin) }
}

/// Gamma encoding of a linear channel: the square root of its positive
/// part.
pub open spec fn s_gamma(l: int) -> int {
    if l > 0 {
        sqrt_raw(l)
    } else {
        0
    }
}

/// Gamma encoding, componentwise.
pub open spec fn s_gamma_vec(l: V3) -> V3 {
    V3 { x: s_gamma(l.x), y: s_gamma(l.y), z: s_gamma(l.z) }
}

/// The sum of a sequence of colors.
pub open spec fn v_sum(s: Seq<V3>) -> V3
    decreases s.len(),
{
    if s.len() == 0 {
        v_zero()
    } else {
        v_add(v_sum(s.drop_last()), s.last())
    }
}

/// A possible diffuse estimate at hit `h`: the albedo times a recursive
/// sample along `normal + u` for some unit sample `u`.
pub open spec fn lambertian_sample(
    world: Seq<crate::sphere::SphereS>,
    h: crate::hit_record::HitS,
    albedo: V3,
    depth: int,
    c: V3,
) -> bool
    decreases depth, 0int,
{
    if depth <= 0 {
        false
    } else {
        exists|u: V3, rc: V3|
            #![trigger lambertian_dir(h.normal, u), v_mul_vec(albedo, rc)]
            {
                &&& is_unit_sample(u)
                &&& is_color_sample(
                    world,
                    RayS { origin: h.point, direction: lambertian_dir(h.normal, u) },
                    depth - 1,
                    rc,
                )
                &&& c == v_mul_vec(albedo, rc)
            }
    }
}

/// A possible metallic estimate at hit `h`: the albedo times a
/// recursive sample along the fuzzed reflection where it leaves the
/// surface, or black where it points into it.
pub open spec fn metal_sample(
    world: Seq<crate::sphere::SphereS>,
    in_dir: V3,
    h: crate::hit_record::HitS,
    albedo: V3,
    fuzz: int,
    depth: int,
    c: V3,
) -> bool
    decreases depth, 0int,
{
    if depth <= 0 {
        false
    } else {
        exists|u: V3|
            #![trigger metal_dir(in_dir, h.normal, fuzz, u)]
            {
                &&& is_unit_sample(u)
                &&& (if v_dot(metal_dir(in_dir, h.normal, fuzz, u), h.normal) > 0 {
                    exists|rc: V3|
                        #![trigger v_mul_vec(albedo, rc)]
                        is_color_sample(
                            world,
                            RayS {
                                origin: h.point,
                                direction: metal_dir(in_dir, h.normal, fuzz, u),
                            },
                            depth - 1,
                            rc,
                        ) && c == v_mul_vec(albedo, rc)
                } else {
                    c == v_zero()
                })
            }
    }
}

/// A possible refractive estimate at hit `h`: white times a recursive
/// sample along the reflected or refracted direction chosen by some
/// uniform draw `q`.
pub open spec fn dielectric_sample(
    world: Seq<crate::sphere::SphereS>,
    in_dir: V3,
    h: crate::hit_record::HitS,
    refraction_index: int,
    depth: int,
    c: V3,
) -> bool
    decreases depth, 0int,
{
    if depth <= 0 {
        false
    } else {
        exists|q: int, rc: V3|
            #![trigger dielectric_dir(in_dir, h.normal, h.front_face, refraction_index, q), v_mul_vec(white(), rc)]
            {
                &&& 0 <= q < SCALE
                &&& is_color_sample(
                    world,
                    RayS {
                        origin: h.point,
                        direction: dielectric_dir(
                            in_dir,
                            h.normal,
                            h.front_face,
                            refraction_index,
                            q,
                        ),
                    },
                    depth - 1,
                    rc,
                )
                &&& c == v_mul_vec(white(), rc)
            }
    }
}

/// A possible value of the radiance estimator for `ray` with this depth
/// budget: black once the budget is spent; the sky gradient where the
/// scene reports no hit (or a record with no material); and on a hit,
/// the material's attenuation times a possible estimate one level
/// deeper along an admissible scattered ray — or black where a metallic
/// surface absorbs the ray.
pub open spec fn is_color_sample(
    world: Seq<crate::sphere::SphereS>,
    ray: RayS,
    depth: int,
    c: V3,
) -> bool
    decreases depth, 1int,
{
    if depth <= 0 {
        c == v_zero()
    } else {
        match list_hit(world, ray, s_shadow_itv()) {
            Option::None => c == s_sky(ray),
            Option::Some(h) => match h.material {
                Option::None => c == s_sky(ray),
                Option::Some(m) => match m {
                    MatS::Lambertian { albedo } => lambertian_sample(world, h, albedo, depth, c),
                    MatS::Metal { albedo, fuzz } => metal_sample(
                        world,
                        ray.direction,
                        h,
                        albedo,
                        fuzz,
                        depth,
                        c,
                    ),
                    MatS::Dielectric { refraction_index } => dielectric_sample(
                        world,
                        ray.direction,
                        h,
                        refraction_index,
                        depth,
                        c,
                    ),
                },
            },
        }
    }
}

/// A diffuse bounce yields an admissible estimate.
#[verifier::rlimit(100)]
#[verifier::spinoff_prover]
proof fn lemma_lambertian_color_sample(
    world: Seq<crate::sphere::SphereS>,
    ray: RayS,
    h: crate::hit_record::HitS,
    albedo: V3,
    scattered: RayS,
    rc: V3,
    depth: int,
    out: V3,
)
    requires
        depth > 0,
        list_hit(world, ray, s_shadow_itv()) == Some(h),
        h.material == Some(MatS::Lambertian { albedo }),
        scattered.origin == h.point,
        exists|u: V3| is_unit_sample(u) && scattered.direction == lambertian_dir(h.normal, u),
        is_color_sample(world, scattered, depth - 1, rc),
        out == v_mul_vec(albedo, rc),
    ensures
        is_color_sample(world, ray, depth, out),
{
    let u = choose|u: V3|
        is_unit_sample(u) && scattered.direction == lambertian_dir(h.normal, u);
    assert(scattered == (RayS { origin: h.point, direction: lambertian_dir(h.normal, u) }));
    assert(is_color_sample(
        world,
        RayS { origin: h.point, direction: lambertian_dir(h.normal, u) },
        depth - 1,
        rc,
    ) && out == v_mul_vec(albedo, rc));
    assert(lambertian_sample(world, h, albedo, depth, out));
    assert(is_color_sample(world, ray, depth, out));
}

/// An accepted metallic bounce yields an admissible estimate.
#[verifier::rlimit(100)]
#[verifier::spinoff_prover]
proof fn lemma_metal_color_sample(
    world: Seq<crate::sphere::SphereS>,
    ray: RayS,
    h: crate::hit_record::HitS,
    albedo: V3,
    fuzz: int,
    scattered: RayS,
    rc: V3,
    depth: int,
    out: V3,
)
    requires
        depth > 0,
        list_hit(world, ray, s_shadow_itv()) == Some(h),
        h.material == Some(MatS::Metal { albedo, fuzz }),
        scattered.origin == h.point,
        v_dot(scattered.direction, h.normal) > 0,
        exists|u: V3|
            is_unit_sample(u) && scattered.direction == metal_dir(
                ray.direction,
                h.normal,
                fuzz,
                u,
            ),
        is_color_sample(world, scattered, depth - 1, rc),
        out == v_mul_vec(albedo, rc),
    ensures
        is_color_sample(world, ray, depth, out),
{
    let u = choose|u: V3|
        is_unit_sample(u) && scattered.direction == metal_dir(ray.direction, h.normal, fuzz, u);
    assert(v_dot(metal_dir(ray.direction, h.normal, fuzz, u), h.normal) > 0);
    assert(is_color_sample(
        world,
        RayS { origin: h.point, direction: metal_dir(ray.direction, h.normal, fuzz, u) },
        depth - 1,
        rc,
    ) && out == v_mul_vec(albedo, rc));
    assert(metal_sample(world, ray.direction, h, albedo, fuzz, depth, out));
    assert(is_color_sample(world, ray, depth, out));
}

/// A rejected metallic bounce yields black.
#[verifier::rlimit(100)]
#[verifier::spinoff_prover]
proof fn lemma_metal_absorbed_sample(
    world: Seq<crate::sphere::SphereS>,
    ray: RayS,
    h: crate::hit_record::HitS,
    albedo: V3,
    fuzz: int,
    scattered: RayS,
    depth: int,
)
    requires
        depth > 0,
        list_hit(world, ray, s_shadow_itv()) == Some(h),
        h.material == Some(MatS::Metal { albedo, fuzz }),
        !(v_dot(scattered.direction, h.normal) > 0),
        exists|u: V3|
            is_unit_sample(u) && scattered.direction == metal_dir(
                ray.direction,
                h.normal,
                fuzz,
                u,
            ),
    ensures
        is_color_sample(world, ray, depth, v_zero()),
{
    let u = choose|u: V3|
        is_unit_sample(u) && scattered.direction == metal_dir(ray.direction, h.normal, fuzz, u);
    assert(is_unit_sample(u));
    assert(!(v_dot(metal_dir(ray.direction, h.normal, fuzz, u), h.normal) > 0));
    assert(metal_sample(world, ray.direction, h, albedo, fuzz, depth, v_zero()));
    assert(is_color_sample(world, ray, depth, v_zero()));
}

/// A refractive bounce yields an admissible estimate.
#[verifier::rlimit(100)]
#[verifier::spinoff_prover]
proof fn lemma_dielectric_color_sample(
    world: Seq<crate::sphere::SphereS>,
    ray: RayS,
    h: crate::hit_record::HitS,
    refraction_index: int,
    scattered: RayS,
    rc: V3,
    depth: int,
    out: V3,
)
    requires
        depth > 0,
        list_hit(world, ray, s_shadow_itv()) == Some(h),
        h.material == Some(MatS::Dielectric { refraction_index }),
        scattered.origin == h.point,
        exists|q: int|
            0 <= q < SCALE && scattered.direction == dielectric_dir(
                ray.direction,
                h.normal,
                h.front_face,
                refraction_index,
                q,
            ),
        is_color_sample(world, scattered, depth - 1, rc),
        out == v_mul_vec(white(), rc),
    ensures
        is_color_sample(world, ray, depth, out),
{
    let q = choose|q: int|
        0 <= q < SCALE && scattered.direction == dielectric_dir(
            ray.direction,
            h.normal,
            h.front_face,
            refraction_index,
            q,
        );
    assert(is_color_sample(
        world,
        RayS {
            origin: h.point,
            direction: dielectric_dir(ray.direction, h.normal, h.front_face, refraction_index, q),
        },
        depth - 1,
        rc,
    ) && out == v_mul_vec(white(), rc));
    assert(dielectric_sample(world, ray.direction, h, refraction_index, depth, out));
    assert(is_color_sample(world, ray, depth, out));
}

/// A possible radiance sample for pixel `(i, j)`: a full estimator
/// value along some admissible camera ray for that pixel.
pub open spec fn is_pixel_sample(
    cam: CamS,
    world: Seq<crate::sphere::SphereS>,
    i: int,
    j: int,
    depth: int,
    c: V3,
) -> bool {
    exists|ox: int, oy: int, disk: V3|
        {
            &&& 0 <= ox < SCALE
            &&& 0 <= oy < SCALE
            &&& is_disk_sample(disk)
            &&& is_color_sample(world, s_get_ray(cam, i, j, ox, oy, disk), depth, c)
        }
}

/// A finished pixel: the gamma encoding of the average of
/// `samples_per_pixel` radiance samples, each drawn for this pixel.
pub open spec fn is_rendered_pixel(
    cam: CamS,
    world: Seq<crate::sphere::SphereS>,
    i: int,
    j: int,
    p: V3,
) -> bool {
    exists|samples: Seq<V3>|
        {
            &&& samples.len() == cam.samples_per_pixel
            &&& (forall|k: int|
                0 <= k < samples.len() ==> is_pixel_sample(
                    cam,
                    world,
                    i,
                    j,
                    cam.max_depth,
                    #[trigger] samples[k],
                ))
            &&& p == s_gamma_vec(v_div(v_sum(samples), clip(cam.samples_per_pixel * (SCALE as int))))
        }
}

/// The interval a color query searches: from just above zero to the
/// largest representable value.
pub open spec fn s_shadow_itv() -> IntervalS {
    IntervalS { min: T_MIN_RAW as int, max: MAX_RAW as int }
}

/// The sky background: a vertical gradient from white to light blue,
/// keyed by the ray direction's height, which is clamped into `[-1, 1]`
/// so the gradient stays inside the unit color cube even where
/// normalizing a degenerate direction saturates.
#[verifier::opaque]
pub open spec fn s_sky(r: RayS) -> V3 {
    let s = SCALE as int;
    let uy = min_raw(max_raw(v_unit(r.direction).y, -s), s);
    let a = mul_raw(HALF_RAW as int, add_raw(uy, s));
    v_add(
        v_mul(white(), sub_raw(s, a)),
        v_mul(V3 { x: HALF_RAW as int, y: SKY_GREEN_RAW as int, z: s }, a),
    )
}

/// The sky gradient stays inside the unit color cube for every ray:
/// the clamp bounds the height even where normalizing a degenerate
/// direction saturates.
pub proof fn lemma_sky_range(r: RayS)
    ensures
        HALF_RAW as int <= s_sky(r).x <= SCALE,
        HALF_RAW as int <= s_sky(r).y <= SCALE,
        s_sky(r).z == SCALE as int,
{
    reveal(s_sky);
    let s = SCALE as int;
    let hr = HALF_RAW as int;
    let g = SKY_GREEN_RAW as int;
    let uy = min_raw(max_raw(v_unit(r.direction).y, -s), s);
    assert(-s <= uy <= s);
    let t = add_raw(uy, s);
    assert(0 <= t <= 2 * s);
    let a = mul_raw(hr, t);
    assert(0 <= a <= s) by {
        crate::fx::lemma_mul_raw_nonneg(hr, t);
        vstd::arithmetic::mul::lemma_mul_inequality(t, 2 * s, hr);
        assert(hr * t == t * hr && hr * (2 * s) == s * (2 * hr) && 2 * hr == s)
            by (nonlinear_arith)
            requires
                hr == 0x8000_0000,
                s == 0x1_0000_0000,
        ;
        crate::fx::lemma_mul_mag(hr, t);
        crate::fx::lemma_mul_mag(hr, 2 * s);
        crate::fx::lemma_tdiv_mono(hr * t, hr * (2 * s), s);
        vstd::arithmetic::div_mod::lemma_div_multiples_vanish(2 * hr, s);
    };
    let w = sub_raw(s, a);
    assert(0 <= w <= s);
    // The white term reproduces `1 - a`, and each horizon channel is at
    // most `a`, so each channel sum lies in [0, 1].
    assert(mul_raw(s, w) == w) by {
        crate::fx::lemma_mul_mag(s, w);
        assert(s * w == w * s) by (nonlinear_arith);
        vstd::arithmetic::div_mod::lemma_div_multiples_vanish(w, s);
    };
    crate::fx::lemma_mul_raw_le_one(hr, a);
    crate::fx::lemma_mul_raw_le_one(g, a);
    crate::fx::lemma_mul_raw_le_one(s, a);
    // The half term loses at most half a unit of `a`, so the white and
    // half terms together never fall below one half.
    let qh = (hr * a) / s;
    assert(mul_raw(hr, a) == qh) by {
        crate::fx::lemma_mul_mag(hr, a);
        vstd::arithmetic::div_mod::lemma_div_pos_is_pos(hr * a, s);
    };
    vstd::arithmetic::div_mod::lemma_fundamental_div_mod(hr * a, s);
    vstd::arithmetic::div_mod::lemma_mod_bound(hr * a, s);
    assert(2 * qh >= a - 1) by (nonlinear_arith)
        requires
            hr * a == s * qh + (hr * a) % s,
            0 <= (hr * a) % s < s,
            s == 2 * hr,
            0 <= a,
    ;
    assert(s_sky(r).x == w + qh);
    assert(2 * (w + qh) >= 2 * hr - 1);
    // The green term dominates the half term, so the green channel is
    // no lower than the red one.
    assert(mul_raw(g, a) >= mul_raw(hr, a)) by {
        crate::fx::lemma_mul_mag(g, a);
        crate::fx::lemma_mul_mag(hr, a);
        vstd::arithmetic::mul::lemma_mul_inequality(hr, g, a);
        assert(hr * a == a * hr && g * a == a * g) by (nonlinear_arith);
        crate::fx::lemma_tdiv_mono(hr * a, g * a, s);
    };
    // The blue term reproduces `a` exactly, so the blue channel is
    // exactly one.
    assert(mul_raw(s, a) == a) by {
        crate::fx::lemma_mul_mag(s, a);
        assert(s * a == a * s) by (nonlinear_arith);
        vstd::arithmetic::div_mod::lemma_div_multiples_vanish(a, s);
    };
}

/// Every color the estimator can produce stays inside the unit cube
/// when every albedo in the scene does: black and the clamped sky
/// gradient lie inside it, and each bounce multiplies by an attenuation
/// whose channels are at most one.
#[verifier::rlimit(100)]
#[verifier::spinoff_prover]
pub proof fn lemma_color_sample_range(
    world: Seq<crate::sphere::SphereS>,
    ray: RayS,
    depth: int,
    c: V3,
)
    requires
        albedos_ok(world),
        is_color_sample(world, ray, depth, c),
    ensures
        color_ok(c),
    decreases depth,
{
    if depth > 0 {
        match list_hit(world, ray, s_shadow_itv()) {
            Option::None => {
                lemma_sky_range(ray);
            },
            Option::Some(h) => {
                match h.material {
                    Option::None => {
                        lemma_sky_range(ray);
                    },
                    Option::Some(m) => {
                        crate::hittable_list::lemma_list_hit_minimal(world, ray, s_shadow_itv());
                        let wi = choose|i: int|
                            0 <= i < world.len() && sp_yields(
                                #[trigger] world[i],
                                ray,
                                s_shadow_itv().min,
                                h,
                            );
                        assert(mat_albedo_ok(world[wi].material));
                        assert(h.material == Some(world[wi].material));
                        match m {
                            MatS::Lambertian { albedo } => {
                                let (u, rc) = choose|u: V3, rc: V3|
                                    {
                                        &&& is_unit_sample(u)
                                        &&& is_color_sample(
                                            world,
                                            RayS {
                                                origin: h.point,
                                                direction: lambertian_dir(h.normal, u),
                                            },
                                            depth - 1,
                                            rc,
                                        )
                                        &&& c == v_mul_vec(albedo, rc)
                                    };
                                lemma_color_sample_range(
                                    world,
                                    RayS { origin: h.point, direction: lambertian_dir(h.normal, u) },
                                    depth - 1,
                                    rc,
                                );
                                lemma_mul_raw_le_one(albedo.x, rc.x);
                                lemma_mul_raw_le_one(albedo.y, rc.y);
                                lemma_mul_raw_le_one(albedo.z, rc.z);
                            },
                            MatS::Metal { albedo, fuzz } => {
                                let u = choose|u: V3|
                                    {
                                        &&& is_unit_sample(u)
                                        &&& (if v_dot(
                                            metal_dir(ray.direction, h.normal, fuzz, u),
                                            h.normal,
                                        ) > 0 {
                                            exists|rc: V3|
                                                #![trigger v_mul_vec(albedo, rc)]
                                                is_color_sample(
                                                    world,
                                                    RayS {
                                                        origin: h.point,
                                                        direction: metal_dir(
                                                            ray.direction,
                                                            h.normal,
                                                            fuzz,
                                                            u,
                                                        ),
                                                    },
                                                    depth - 1,
                                                    rc,
                                                ) && c == v_mul_vec(albedo, rc)
                                        } else {
                                            c == v_zero()
                                        })
                                    };
                                if v_dot(metal_dir(ray.direction, h.normal, fuzz, u), h.normal)
                                    > 0 {
                                    let rc = choose|rc: V3|
                                        is_color_sample(
                                            world,
                                            RayS {
                                                origin: h.point,
                                                direction: metal_dir(
                                                    ray.direction,
                                                    h.normal,
                                                    fuzz,
                                                    u,
                                                ),
                                            },
                                            depth - 1,
                                            rc,
                                        ) && c == v_mul_vec(albedo, rc);
                                    lemma_color_sample_range(
                                        world,
                                        RayS {
                                            origin: h.point,
                                            direction: metal_dir(ray.direction, h.normal, fuzz, u),
                                        },
                                        depth - 1,
                                        rc,
                                    );
                                    lemma_mul_raw_le_one(albedo.x, rc.x);
                                    lemma_mul_raw_le_one(albedo.y, rc.y);
                                    lemma_mul_raw_le_one(albedo.z, rc.z);
                                }
                            },
                            MatS::Dielectric { refraction_index } => {
                                let (q, rc) = choose|q: int, rc: V3|
                                    {
                                        &&& 0 <= q < SCALE
                                        &&& is_color_sample(
                                            world,
                                            RayS {
                                                origin: h.point,
                                                direction: dielectric_dir(
                                                    ray.direction,
                                                    h.normal,
                                                    h.front_face,
                                                    refraction_index,
                                                    q,
                                                ),
                                            },
                                            depth - 1,
                                            rc,
                                        )
                                        &&& c == v_mul_vec(white(), rc)
                                    };
                                lemma_color_sample_range(
                                    world,
                                    RayS {
                                        origin: h.point,
                                        direction: dielectric_dir(
                                            ray.direction,
                                            h.normal,
                                            h.front_face,
                                            refraction_index,
                                            q,
                                        ),
                                    },
                                    depth - 1,
                                    rc,
                                );
                                lemma_mul_raw_le_one(SCALE as int, rc.x);
                                lemma_mul_raw_le_one(SCALE as int, rc.y);
                                lemma_mul_raw_le_one(SCALE as int, rc.z);
                            },
                        }
                    },
                }
            },
        }
    }
}

/// A sum of colors from the unit cube is nonnegative and at most the
/// count of colors (and representable).
proof fn lemma_v_sum_range(s: Seq<V3>)
    requires
        forall|k: int| 0 <= k < s.len() ==> color_ok(#[trigger] s[k]),
    ensures
        0 <= v_sum(s).x <= s.len() * (SCALE as int),
        0 <= v_sum(s).y <= s.len() * (SCALE as int),
        0 <= v_sum(s).z <= s.len() * (SCALE as int),
        v_sum(s).x <= MAX_RAW,
        v_sum(s).y <= MAX_RAW,
        v_sum(s).z <= MAX_RAW,
    decreases s.len(),
{
    if s.len() > 0 {
        let prefix = s.drop_last();
        assert(forall|k: int| 0 <= k < prefix.len() ==> prefix[k] == s[k]);
        lemma_v_sum_range(prefix);
        assert(color_ok(s[s.len() - 1]));
        let n = s.len() as int;
        assert((n - 1) * (SCALE as int) + (SCALE as int) == n * (SCALE as int))
            by (nonlinear_arith);
    } else {
        assert(s.len() * (SCALE as int) == 0) by (nonlinear_arith)
            requires
                s.len() == 0,
        ;
    }
}

/// A finished pixel stays inside the unit cube when every albedo in the
/// scene does: it is the gamma encoding of an average of estimator
/// values, each inside the cube.
#[verifier::rlimit(100)]
#[verifier::spinoff_prover]
pub proof fn lemma_rendered_pixel_range(
    cam: CamS,
    world: Seq<crate::sphere::SphereS>,
    i: int,
    j: int,
    p: V3,
)
    requires
        albedos_ok(world),
        is_rendered_pixel(cam, world, i, j, p),
    ensures
        color_ok(p),
{
    let samples = choose|samples: Seq<V3>|
        {
            &&& samples.len() == cam.samples_per_pixel
            &&& (forall|k: int|
                0 <= k < samples.len() ==> is_pixel_sample(
                    cam,
                    world,
                    i,
                    j,
                    cam.max_depth,
                    #[trigger] samples[k],
                ))
            &&& p == s_gamma_vec(v_div(v_sum(samples), clip(cam.samples_per_pixel * (SCALE as int))))
        };
    assert forall|k: int| 0 <= k < samples.len() implies color_ok(#[trigger] samples[k]) by {
        let (ox, oy, disk) = choose|ox: int, oy: int, disk: V3|
            {
                &&& 0 <= ox < SCALE
                &&& 0 <= oy < SCALE
                &&& is_disk_sample(disk)
                &&& is_color_sample(
                    world,
                    s_get_ray(cam, i, j, ox, oy, disk),
                    cam.max_depth,
                    samples[k],
                )
            };
        lemma_color_sample_range(
            world,
            s_get_ray(cam, i, j, ox, oy, disk),
            cam.max_depth,
            samples[k],
        );
    }
    lemma_v_sum_range(samples);
    let spp = cam.samples_per_pixel;
    let d = clip(spp * (SCALE as int));
    assert(spp >= 0);
    assert(spp * (SCALE as int) >= 0) by (nonlinear_arith)
        requires
            spp >= 0,
    ;
    let sum = v_sum(samples);
    assert(sum.x <= d && sum.y <= d && sum.z <= d);
    lemma_div_raw_unit(sum.x, d);
    lemma_div_raw_unit(sum.y, d);
    lemma_div_raw_unit(sum.z, d);
    let avg = v_div(sum, d);
    lemma_sqrt_raw_le_one(avg.x);
    lemma_sqrt_raw_le_one(avg.y);
    lemma_sqrt_raw_le_one(avg.z);
}

/// The fixed-point image of a count, saturating.
fn count_fx(n: usize) -> (r: Fx)
    ensures
        r@ == clip(n as int * (SCALE as int)),
{
    let ni: i64 = if (n as u64) > 0x7fff_ffff_ffff_ffffu64 {
        0x7fff_ffff_ffff_ffff
    } else {
        n as i64
    };
    proof {
        if n as int > 0x7fff_ffff_ffff_ffff {
            vstd::arithmetic::mul::lemma_mul_inequality(MAX_RAW as int, n as int, SCALE as int);
        }
    }
    Fx::from_int(ni)
}

/// The camera: its configuration and the viewport geometry derived from
/// it at construction.  The sample count and recursion bound are plain
/// fields, tunable before rendering.
pub struct Camera {
    pub aspect_ratio: Fx,
    pub image_width: usize,
    pub image_height: usize,
    pub center: Vec3,
    pub pixel00_loc: Vec3,
    pub pixel_delta_u: Vec3,
    pub pixel_delta_v: Vec3,
    pub samples_per_pixel: usize,
    pub max_depth: usize,
    pub fov: Fx,
    pub defocus_disk_u: Vec3,
    pub defocus_disk_v: Vec3,
    pub defocus_angle: Fx,
}

impl View for Camera {
    type V = CamS;

    open spec fn view(&self) -> CamS {
        CamS {
            aspect_ratio: self.aspect_ratio@,
            image_width: self.image_width as int,
            image_height: self.image_height as int,
            center: self.center@,
            pixel00_loc: self.pixel00_loc@,
            pixel_delta_u: self.pixel_delta_u@,
            pixel_delta_v: self.pixel_delta_v@,
            samples_per_pixel: self.samples_per_pixel as int,
            max_depth: self.max_depth as int,
            fov: self.fov@,
            defocus_disk_u: self.defocus_disk_u@,
            defocus_disk_v: self.defocus_disk_v@,
            defocus_angle: self.defocus_angle@,
        }
    }
}

impl Camera {
    /// Derive the full viewport geometry from the configuration: image
    /// height from width and aspect ratio, the `(u, v, w)` basis from
    /// the view direction and the vertical up hint, the viewport from
    /// the field of view and focus distance, and the defocus-disk basis
    /// from the aperture angle.
    #[verifier::rlimit(100)]
    #[verifier::spinoff_prover]
    pub fn new(
        aspect_ratio: Fx,
        image_width: usize,
        lookfrom: Vec3,
        lookat: Vec3,
        fov: Fx,
        defocus_angle: Fx,
        focus_dist: Fx,
    ) -> (r: Self)
        ensures
            r@ == s_camera_new(
                aspect_ratio@,
                image_width as int,
                lookfrom@,
                lookat@,
                fov@,
                defocus_angle@,
                focus_dist@,
            ),
    {
        let width_fx = count_fx(image_width);
        let hq = width_fx.div(aspect_ratio);
        let ihq: u64 = if hq.raw > 0 {
            (hq.raw as u64) / (SCALE as u64)
        } else {
            0
        };
        let image_height: usize = if ihq < 1 {
            1
        } else {
            ihq as usize
        };
        let vup = Vec3::new(Fx::zero(), Fx::one(), Fx::zero());
        let h = tan_half_deg(fov);
        let center = lookfrom;
        let viewport_height = Fx::from_int(2).mul(h).mul(focus_dist);
        let viewport_width = viewport_height.mul(width_fx.div(count_fx(image_height)));
        let w = Vec3::unit(&Vec3::sub(&lookfrom, &lookat));
        let u = Vec3::unit(&Vec3::cross(&vup, &w));
        let v = Vec3::cross(&w, &u);
        let viewport_u = Vec3::mul(&u, viewport_width);
        let viewport_v = Vec3::mul(&Vec3::mul(&v, Fx::one().neg()), viewport_height);
        let pixel_delta_u = Vec3::div(&viewport_u, width_fx);
        let pixel_delta_v = Vec3::div(&viewport_v, count_fx(image_height));
        let two = Fx::from_int(2);
        let viewport_upper_left = Vec3::sub(
            &Vec3::sub(&center, &Vec3::mul(&w, focus_dist)),
            &Vec3::add(&Vec3::div(&viewport_u, two), &Vec3::div(&viewport_v, two)),
        );
        let defocus_radius = tan_half_deg(defocus_angle).mul(focus_dist);
        let defocus_disk_u = Vec3::mul(&u, defocus_radius);
        let defocus_disk_v = Vec3::mul(&v, defocus_radius);
        let pixel00_loc = Vec3::add(
            &viewport_upper_left,
            &Vec3::mul(&Vec3::add(&pixel_delta_u, &pixel_delta_v), Fx { raw: HALF_RAW }),
        );
        Self {
            aspect_ratio,
            image_width,
            image_height,
            center,
            pixel00_loc,
            pixel_delta_u,
            pixel_delta_v,
            samples_per_pixel: 100,
            max_depth: 50,
            fov,
            defocus_disk_u,
            defocus_disk_v,
            defocus_angle,
        }
    }

    /// Gamma encoding of a linear channel.
    pub fn linear_to_gamma(linear: Fx) -> (r: Fx)
        ensures
            r@ == s_gamma(linear@),
    {
        if linear.raw > 0 {
            return linear.sqrt();
        }
        Fx::zero()
    }

    /// A sub-pixel jitter: uniform in `[0, 1)^2`, in the `z = 0` plane.
    pub fn sample_square<R: RngSource>(&self, rng: &mut R) -> (r: Vec3)
        ensures
            0 <= r@.x < SCALE,
            0 <= r@.y < SCALE,
            r@.z == 0,
    {
        Vec3 { x: rng.next_unit(), y: rng.next_unit(), z: Fx { raw: 0 } }
    }

    /// A random origin on the defocus disk.
    pub fn defocus_disk_sample<R: RngSource>(&self, rng: &mut R) -> (r: Vec3)
        ensures
            exists|p: V3| is_disk_sample(p) && r@ == s_disk_sample(self@, p),
    {
        let p = Vec3::random_in_unit_disk(rng);
        let r = Vec3::add(
            &self.center,
            &Vec3::add(
                &Vec3::mul(&self.defocus_disk_u, p.x),
                &Vec3::mul(&self.defocus_disk_v, p.y),
            ),
        );
        proof {
            assert(is_disk_sample(p@) && r@ == s_disk_sample(self@, p@));
        }
        r
    }

    /// The ray for pixel `(i, j)`: jittered inside the pixel for
    /// antialiasing, and, when the aperture is open, originating on the
    /// defocus disk.
    pub fn get_ray<R: RngSource>(&self, i: usize, j: usize, rng: &mut R) -> (r: Ray)
        ensures
            exists|ox: int, oy: int, disk: V3|
                {
                    &&& 0 <= ox < SCALE
                    &&& 0 <= oy < SCALE
                    &&& is_disk_sample(disk)
                    &&& r@ == s_get_ray(self@, i as int, j as int, ox, oy, disk)
                },
    {
        let offset = self.sample_square(rng);
        let pixel_center = Vec3::add(
            &self.pixel00_loc,
            &Vec3::add(
                &Vec3::mul(&self.pixel_delta_u, count_fx(i).add(offset.x)),
                &Vec3::mul(&self.pixel_delta_v, count_fx(j).add(offset.y)),
            ),
        );
        if self.defocus_angle.raw <= 0 {
            let ray_origin = self.center;
            let r = Ray { origin: ray_origin, direction: Vec3::sub(&pixel_center, &ray_origin) };
            proof {
                let zero3 = V3 { x: 0, y: 0, z: 0 };
                crate::fx::lemma_mul_raw_sq_nonneg(0);
                assert(is_disk_sample(zero3));
                assert(r@ == s_get_ray(self@, i as int, j as int, offset.x@, offset.y@, zero3));
            }
            r
        } else {
            let ray_origin = self.defocus_disk_sample(rng);
            let r = Ray { origin: ray_origin, direction: Vec3::sub(&pixel_center, &ray_origin) };
            proof {
                let p = choose|p: V3| is_disk_sample(p) && ray_origin@ == s_disk_sample(self@, p);
                assert(r@ == s_get_ray(self@, i as int, j as int, offset.x@, offset.y@, p));
            }
            r
        }
    }

    /// The recursive radiance estimator: black once the depth budget is
    /// spent; otherwise the scene is queried for the nearest hit beyond
    /// a small epsilon, the hit material scatters (or absorbs) the ray,
    /// and a miss yields the sky gradient.
    #[verifier::rlimit(100)]
    #[verifier::spinoff_prover]
    pub fn ray_color<R: RngSource>(
        ray: &Ray,
        depth: usize,
        world: &HittableList,
        rng: &mut R,
    ) -> (c: Vec3)
        ensures
            is_color_sample(world@, ray@, depth as int, c@),
            albedos_ok(world@) ==> color_ok(c@),
        decreases depth,
    {
        if depth == 0 {
            let out = Vec3::default();
            proof {
                assert(color_ok(out@));
            }
            return out;
        }
        let mut hit_record = HitRecord::new();
        if world.hit(
            ray,
            &Interval::new_with_values(Fx { raw: T_MIN_RAW }, Fx { raw: MAX_RAW }),
            &mut hit_record,
        ) {
            let mut scattered = Ray::new(&Vec3::default(), &Vec3::default());
            let mut attenuation = Vec3::default();
            let material = hit_record.material;
            match material {
                Some(mat) => {
                    let ghost h = list_hit(world@, ray@, s_shadow_itv())->Some_0;
                    proof {
                        assert(hit_record@ == h);
                    }
                    if mat.scatter(ray, &hit_record, &mut attenuation, &mut scattered, rng) {
                        let rec_color = Self::ray_color(&scattered, depth - 1, world, rng);
                        let out = Vec3::mul_vec(&attenuation, &rec_color);
                        proof {
                            match mat {
                                Material::Lambertian { albedo } => {
                                    let u = choose|u: V3|
                                        is_unit_sample(u) && scattered.direction@
                                            == lambertian_dir(hit_record.normal@, u);
                                    assert(is_unit_sample(u) && scattered@.direction
                                        == lambertian_dir(h.normal, u));
                                    lemma_lambertian_color_sample(
                                        world@,
                                        ray@,
                                        h,
                                        albedo@,
                                        scattered@,
                                        rec_color@,
                                        depth as int,
                                        out@,
                                    );
                                },
                                Material::Metal { albedo, fuzz } => {
                                    let u = choose|u: V3|
                                        is_unit_sample(u) && scattered.direction@ == metal_dir(
                                            ray.direction@,
                                            hit_record.normal@,
                                            fuzz@,
                                            u,
                                        );
                                    assert(is_unit_sample(u) && scattered@.direction == metal_dir(
                                        ray@.direction,
                                        h.normal,
                                        fuzz@,
                                        u,
                                    ));
                                    lemma_metal_color_sample(
                                        world@,
                                        ray@,
                                        h,
                                        albedo@,
                                        fuzz@,
                                        scattered@,
                                        rec_color@,
                                        depth as int,
                                        out@,
                                    );
                                },
                                Material::Dielectric { refraction_index } => {
                                    let q = choose|q: int|
                                        0 <= q < SCALE && scattered.direction@ == dielectric_dir(
                                            ray.direction@,
                                            hit_record.normal@,
                                            hit_record.front_face,
                                            refraction_index@,
                                            q,
                                        );
                                    assert(0 <= q < SCALE && scattered@.direction
                                        == dielectric_dir(
                                        ray@.direction,
                                        h.normal,
                                        h.front_face,
                                        refraction_index@,
                                        q,
                                    ));
                                    lemma_dielectric_color_sample(
                                        world@,
                                        ray@,
                                        h,
                                        refraction_index@,
                                        scattered@,
                                        rec_color@,
                                        depth as int,
                                        out@,
                                    );
                                },
                            }
                            if albedos_ok(world@) {
                                lemma_color_sample_range(world@, ray@, depth as int, out@);
                            }
                        }
                        return out;
                    }
                    let out = Vec3::default();
                    proof {
                        match mat {
                            Material::Metal { albedo, fuzz } => {
                                let u = choose|u: V3|
                                    is_unit_sample(u) && scattered.direction@ == metal_dir(
                                        ray.direction@,
                                        hit_record.normal@,
                                        fuzz@,
                                        u,
                                    );
                                assert(is_unit_sample(u) && scattered@.direction == metal_dir(
                                    ray@.direction,
                                    h.normal,
                                    fuzz@,
                                    u,
                                ));
                                lemma_metal_absorbed_sample(
                                    world@,
                                    ray@,
                                    h,
                                    albedo@,
                                    fuzz@,
                                    scattered@,
                                    depth as int,
                                );
                            },
                            _ => {
                                assert(false);
                            },
                        }
                        assert(color_ok(out@));
                    }
                    return out;
                },
                None => {},
            }
        }
        let unit_dir = Vec3::unit(&ray.direction);
        let uy = unit_dir.y.max(Fx::one().neg()).min(Fx::one());
        let a = Fx { raw: HALF_RAW }.mul(uy.add(Fx::one()));
        let out = Vec3::add(
            &Vec3::mul(&Vec3::new(Fx::one(), Fx::one(), Fx::one()), Fx::one().sub(a)),
            &Vec3::mul(
                &Vec3::new(Fx { raw: HALF_RAW }, Fx { raw: SKY_GREEN_RAW }, Fx::one()),
                a,
            ),
        );
        proof {
            assert(is_color_sample(world@, ray@, depth as int, out@)) by {
                reveal(s_sky);
                assert(out@ == s_sky(ray@));
            };
            if albedos_ok(world@) {
                lemma_color_sample_range(world@, ray@, depth as int, out@);
            }
        }
        out
    }

    /// Estimate one pixel: average `samples_per_pixel` jittered color
    /// draws and gamma-encode the result.
    fn render_pixel<R: RngSource>(
        &self,
        i: usize,
        j: usize,
        world: &HittableList,
        rng: &mut R,
    ) -> (px: Vec3)
        ensures
            is_rendered_pixel(self@, world@, i as int, j as int, px@),
    {
        let mut tmp_color = Vec3::default();
        let ghost mut samples: Seq<V3> = Seq::empty();
        let spp = self.samples_per_pixel;
        let mut s: usize = 0;
        while s < spp
            invariant
                s <= spp,
                samples.len() == s,
                tmp_color@ == v_sum(samples),
                forall|k: int|
                    0 <= k < samples.len() ==> is_pixel_sample(
                        self@,
                        world@,
                        i as int,
                        j as int,
                        self.max_depth as int,
                        #[trigger] samples[k],
                    ),
            decreases spp - s,
        {
            let r = self.get_ray(i, j, rng);
            let color = Self::ray_color(&r, self.max_depth, world, rng);
            tmp_color = Vec3::add(&tmp_color, &color);
            proof {
                let (ox, oy, disk) = choose|ox: int, oy: int, disk: V3|
                    {
                        &&& 0 <= ox < SCALE
                        &&& 0 <= oy < SCALE
                        &&& is_disk_sample(disk)
                        &&& r@ == s_get_ray(self@, i as int, j as int, ox, oy, disk)
                    };
                assert({
                    &&& 0 <= ox < SCALE
                    &&& 0 <= oy < SCALE
                    &&& is_disk_sample(disk)
                    &&& is_color_sample(
                        world@,
                        s_get_ray(self@, i as int, j as int, ox, oy, disk),
                        self.max_depth as int,
                        color@,
                    )
                });
                assert(is_pixel_sample(
                    self@,
                    world@,
                    i as int,
                    j as int,
                    self.max_depth as int,
                    color@,
                ));
                let prev = samples;
                samples = samples.push(color@);
                assert(samples.drop_last() =~= prev);
                assert(samples.last() == color@);
                assert(forall|k: int|
                    0 <= k < prev.len() ==> samples[k] == #[trigger] prev[k]);
            }
            s = s + 1;
        }
        let avg = Vec3::div(&tmp_color, count_fx(spp));
        let px = Vec3 {
            x: Self::linear_to_gamma(avg.x),
            y: Self::linear_to_gamma(avg.y),
            z: Self::linear_to_gamma(avg.z),
        };
        proof {
            assert(px@ == s_gamma_vec(
                v_div(v_sum(samples), clip(self.samples_per_pixel as int * (SCALE as int))),
            ));
        }
        px
    }

    /// Render the scene into the given buffer: every cell receives the
    /// gamma-encoded average of `samples_per_pixel` radiance estimates
    /// for its pixel.  The buffer's shape is preserved.
    pub fn render<R: RngSource>(
        &self,
        world: &HittableList,
        buffer: &mut Vec<Vec<Vec3>>,
        rng: &mut R,
    )
        ensures
            final(buffer)@.len() == old(buffer)@.len(),
            forall|j: int|
                0 <= j < old(buffer)@.len() ==> #[trigger] final(buffer)@[j]@.len() == old(
                    buffer,
                )@[j]@.len(),
            forall|j: int, i: int|
                0 <= j < old(buffer)@.len() && 0 <= i < old(buffer)@[j]@.len()
                    ==> is_rendered_pixel(
                    self@,
                    world@,
                    i,
                    j,
                    #[trigger] final(buffer)@[j]@[i]@,
                ),
            albedos_ok(world@) ==> forall|j: int, i: int|
                0 <= j < old(buffer)@.len() && 0 <= i < old(buffer)@[j]@.len() ==> color_ok(
                    #[trigger] final(buffer)@[j]@[i]@,
                ),
    {
        let rows = buffer.len();
        let mut j: usize = 0;
        while j < rows
            invariant
                j <= rows,
                rows == buffer@.len(),
                buffer@.len() == old(buffer)@.len(),
                forall|jj: int| j <= jj < rows ==> #[trigger] buffer@[jj] == old(buffer)@[jj],
                forall|jj: int|
                    0 <= jj < j ==> #[trigger] buffer@[jj]@.len() == old(buffer)@[jj]@.len(),
                forall|jj: int, i: int|
                    0 <= jj < j && 0 <= i < buffer@[jj]@.len() ==> is_rendered_pixel(
                        self@,
                        world@,
                        i,
                        jj,
                        #[trigger] buffer@[jj]@[i]@,
                    ),
            decreases rows - j,
        {
            let cols = buffer[j].len();
            let mut new_row: Vec<Vec3> = Vec::new();
            let mut i: usize = 0;
            while i < cols
                invariant
                    i <= cols,
                    new_row@.len() == i,
                    forall|ii: int|
                        0 <= ii < i ==> is_rendered_pixel(
                            self@,
                            world@,
                            ii,
                            j as int,
                            #[trigger] new_row@[ii]@,
                        ),
                decreases cols - i,
            {
                let px = self.render_pixel(i, j, world, rng);
                new_row.push(px);
                i = i + 1;
            }
            buffer[j] = new_row;
            j = j + 1;
        }
        proof {
            if albedos_ok(world@) {
                assert forall|jj: int, i: int|
                    0 <= jj < buffer@.len() && 0 <= i < buffer@[jj]@.len() implies color_ok(
                    #[trigger] buffer@[jj]@[i]@,
                ) by {
                    lemma_rendered_pixel_range(self@, world@, i, jj, buffer@[jj]@[i]@);
                }
            }
        }
    }

    /// The display mapping of one finished color: each channel clamped
    /// to `[0, 0.9999]`, scaled by `255.999` and truncated to a byte.
    pub fn to_rgb8(color: &Vec3) -> (r: (u8, u8, u8))
        ensures
            r.0 == s_channel_byte(color@.x),
            r.1 == s_channel_byte(color@.y),
            r.2 == s_channel_byte(color@.z),
    {
        (channel_byte(color.x), channel_byte(color.y), channel_byte(color.z))
    }
}

/// The display mapping of one channel:
/// `floor(255.999 * clamp(value, 0, 0.9999))`, an 8-bit value.
pub open spec fn s_channel_byte(c: int) -> int {
    let clamped = crate::interval::s_clamp(
        IntervalS { min: 0, max: INTENSITY_MAX_RAW as int },
        c,
    );
    mul_raw(clamped, RGB_SCALE_RAW as int) / (SCALE as int)
}

/// Gamma encoding takes one quarter exactly to one half: the square
/// root of `0.25` is `0.5`, so a pixel whose averaged linear channel is
/// a quarter is stored as exactly a half.
pub proof fn lemma_gamma_quarter()
    ensures
        s_gamma((SCALE as int) / 4) == (SCALE as int) / 2,
{
    let x = (SCALE as int) / 4;
    assert(x == 0x4000_0000);
    assert(crate::fx::is_isqrt(0x4000_0000_0000_0000, 0x8000_0000)) by (nonlinear_arith);
    crate::fx::lemma_isqrt_exists(0x4000_0000_0000_0000);
    crate::fx::lemma_isqrt_unique(
        0x4000_0000_0000_0000,
        0x8000_0000,
        crate::fx::isqrt_of(0x4000_0000_0000_0000),
    );
}

/// One channel of the display mapping.
fn channel_byte(c: Fx) -> (r: u8)
    ensures
        r == s_channel_byte(c@),
{
    let intensity = Interval::new_with_values(Fx { raw: 0 }, Fx { raw: INTENSITY_MAX_RAW });
    let clamped = intensity.clamp(c);
    let m = clamped.mul(Fx { raw: RGB_SCALE_RAW });
    proof {
        crate::fx::lemma_mul_raw_nonneg(clamped@, RGB_SCALE_RAW as int);
        vstd::arithmetic::mul::lemma_mul_inequality(
            clamped@,
            INTENSITY_MAX_RAW as int,
            RGB_SCALE_RAW as int,
        );
        crate::fx::lemma_tdiv_mono(
            clamped@ * (RGB_SCALE_RAW as int),
            (INTENSITY_MAX_RAW as int) * (RGB_SCALE_RAW as int),
            SCALE as int,
        );
        vstd::arithmetic::div_mod::lemma_div_is_ordered(
            m@,
            (INTENSITY_MAX_RAW as int) * (RGB_SCALE_RAW as int) / (SCALE as int),
            SCALE as int,
        );
    }
    let q: u64 = (m.raw as u64) / (SCALE as u64);
    q as u8
}

} // verus!
