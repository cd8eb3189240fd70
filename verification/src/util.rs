//! Sampling helpers, angle conversion, the background gradient, and the
//! demo scenes.

use crate::colors::{col, col_add_spec, col_quantize_spec, col_scale_spec, Color};
use crate::materials::{default_material_spec, Material};
use crate::primitives::{HitRecord, Hittable, HittableList, Sphere};
use crate::rays::Ray;
use crate::cameras::{camera_error_spec, camera_frame_spec, camera_valid_spec, Camera};
use crate::render::{
    config_error_spec, config_valid_spec, default_aspect_spec, derived_height_spec, png_encoding,
    ppm_from_pixels, ppm_spec, ray_color_bounce, ray_color_spec, render_image_png,
    render_pixels_spec, rng_init_spec, SceneConfig,
};
use crate::rng::{rng_step, rng_unit_spec, Rng};
use crate::scalars::{
    fx_add_spec, fx_clip, fx_div_spec, fx_mul_spec, fx_sub_spec, fxs, mag, Fx, FX_PI, FX_RAW_MAX,
    FX_SCALE,
};
use crate::vectors::{
    v3, v3_add_spec, v3_div_fx_spec, v3_length_spec, v3_length_sq_spec, v3_rand_range_spec,
    v3_scale_spec, v3_sub_spec, v3_unit_spec, Length, Vector3,
};
use crate::RenderError;
use vstd::prelude::*;

verus! {

/// How many rejection draws a bounded sampling loop makes before it
/// falls back to the center of its region; the chance of ever reaching
/// the fallback is vanishingly small, and the bound keeps every draw a
/// total function of the generator state.
pub const SAMPLE_TRIES: u32 = 64;

/// Raw value of the angle in radians for the given angle in degrees.
pub open spec fn degrees_to_radians_spec(degrees: int) -> int {
    fx_div_spec(fx_mul_spec(degrees, FX_PI as int), fx_clip(180 * FX_SCALE))
}

/// The angle in radians for the given angle in degrees.
pub fn degrees_to_radians(degrees: Fx) -> (r: Fx)
    ensures
        r@ == degrees_to_radians_spec(degrees@),
{
    degrees.mul(Fx::pi()).div(Fx::from_int(180))
}

/// Draws a scalar in `[0, 1)`.
pub fn rand(rng: &mut Rng) -> (r: Fx)
    ensures
        r@ == rng_unit_spec(old(rng).state),
        final(rng).state == rng_step(old(rng).state),
        0 <= r@ < FX_SCALE as int,
{
    rng.next_unit()
}

/// Raw value of a draw rescaled into `[min, max)`.
pub open spec fn rand_range_spec(s: u64, min: int, max: int) -> int {
    fx_add_spec(min, fx_mul_spec(rng_unit_spec(s), fx_sub_spec(max, min)))
}

/// Draws a scalar rescaled into `[min, max)`.
pub fn rand_range(rng: &mut Rng, min: Fx, max: Fx) -> (r: Fx)
    ensures
        r@ == rand_range_spec(old(rng).state, min@, max@),
        final(rng).state == rng_step(old(rng).state),
        min@ < max@ && -(FX_RAW_MAX as int) <= min@ && max@ - min@ <= FX_RAW_MAX as int
            ==> min@ <= r@ < max@,
{
    proof {
        if min@ < max@ && -(FX_RAW_MAX as int) <= min@ && max@ - min@ <= FX_RAW_MAX as int {
            assert(min@ <= FX_RAW_MAX as int);
            lemma_rand_range_bounds(old(rng).state, min@, max@);
        }
    }
    let u = rng.next_unit();
    min.add(u.mul(max.sub(min)))
}

/// A rescaled draw lands inside its half-open region whenever the region
/// is real and its extent representable.
pub proof fn lemma_rand_range_bounds(s: u64, min: int, max: int)
    requires
        min < max,
        -(FX_RAW_MAX as int) <= min <= FX_RAW_MAX as int,
        max - min <= FX_RAW_MAX as int,
    ensures
        min <= rand_range_spec(s, min, max) < max,
{
    let u = rng_unit_spec(s);
    assert(0 <= u < FX_SCALE as int) by {
        assert(rng_step(s) >> 32 < 0x1_0000_0000) by (bit_vector);
    }
    let d = fx_sub_spec(max, min);
    assert(d == max - min);
    let v = fx_mul_spec(u, d);
    crate::scalars::lemma_fx_mul_nonneg(u, d);
    assert(u * d <= (FX_SCALE as int - 1) * d) by (nonlinear_arith)
        requires
            0 <= u <= FX_SCALE as int - 1,
            d > 0,
    ;
    assert((FX_SCALE as int - 1) * d < (FX_SCALE as int) * d) by (nonlinear_arith)
        requires
            d > 0,
    ;
    assert(u * d / (FX_SCALE as int) < d) by (nonlinear_arith)
        requires
            0 <= u * d,
            u * d < (FX_SCALE as int) * d,
            FX_SCALE > 0,
    ;
    assert(0 <= v < d);
    assert(rand_range_spec(s, min, max) == fx_clip(min + v));
    assert(min <= min + v);
    assert(min + v < max);
    if min + v > (FX_RAW_MAX as int) {
        assert(fx_clip(min + v) == (FX_RAW_MAX as int));
        assert((FX_RAW_MAX as int) < max);
    } else {
        assert(fx_clip(min + v) == min + v);
    }
}

/// The vector a bounded rejection draw inside the unit ball yields from
/// the given state with the given tries left, with the state after.
pub open spec fn unit_sphere_draw_spec(s: u64, tries: nat) -> (Vector3, u64)
    decreases tries,
{
    let p = v3_rand_range_spec(s, -(FX_SCALE as int), FX_SCALE as int);
    let s3 = rng_step(rng_step(rng_step(s)));
    if v3_length_sq_spec(p) < FX_SCALE as int {
        (p, s3)
    } else if tries == 0 {
        (v3(0, 0, 0), s3)
    } else {
        unit_sphere_draw_spec(s3, (tries - 1) as nat)
    }
}

/// What `rand_in_unit_sphere` yields from the given state.
pub open spec fn rand_in_unit_sphere_spec(s: u64) -> (Vector3, u64) {
    unit_sphere_draw_spec(s, SAMPLE_TRIES as nat)
}

/// Whatever the state, a bounded draw lands strictly inside the unit
/// ball.
pub proof fn lemma_unit_sphere_draw_inside(s: u64, tries: nat)
    ensures
        v3_length_sq_spec(unit_sphere_draw_spec(s, tries).0) < FX_SCALE as int,
    decreases tries,
{
    let p = v3_rand_range_spec(s, -(FX_SCALE as int), FX_SCALE as int);
    if v3_length_sq_spec(p) < FX_SCALE as int {
    } else if tries == 0 {
        crate::scalars::lemma_fx_mul_nonneg(0, 0);
        assert(v3_length_sq_spec(v3(0, 0, 0)) == 0);
    } else {
        lemma_unit_sphere_draw_inside(rng_step(rng_step(rng_step(s))), (tries - 1) as nat);
    }
}

/// One bounded rejection draw: a point in the cube `[-1, 1)^3`, retried
/// while it falls outside the unit ball, with the ball's center as the
/// fallback once the tries run out.
fn draw_in_unit_sphere(rng: &mut Rng, tries: u32) -> (p: Vector3)
    ensures
        p == unit_sphere_draw_spec(old(rng).state, tries as nat).0,
        final(rng).state == unit_sphere_draw_spec(old(rng).state, tries as nat).1,
    decreases tries,
{
    let p = Vector3::rand_range(rng, Fx::from_int(-1), Fx::one());
    if p.length_squared().lt(Fx::one()) {
        p
    } else if tries == 0 {
        Vector3::zero()
    } else {
        draw_in_unit_sphere(rng, tries - 1)
    }
}

/// Draws a point strictly inside the unit ball by rejection sampling.
pub fn rand_in_unit_sphere(rng: &mut Rng) -> (p: Vector3)
    ensures
        p == rand_in_unit_sphere_spec(old(rng).state).0,
        final(rng).state == rand_in_unit_sphere_spec(old(rng).state).1,
        v3_length_sq_spec(p) < FX_SCALE as int,
{
    proof {
        lemma_unit_sphere_draw_inside(rng.state, SAMPLE_TRIES as nat);
    }
    draw_in_unit_sphere(rng, SAMPLE_TRIES)
}

/// The Lambertian scatter direction for the given surface normal: the
/// normal plus a random unit vector, with the state after.
pub open spec fn rand_lamb_spec(s: u64, normal: Vector3) -> (Vector3, u64) {
    let (p, s1) = rand_in_unit_sphere_spec(s);
    (v3_add_spec(normal, v3_unit_spec(p)), s1)
}

/// Draws a Lambertian scatter direction around the hit's normal.
pub fn rand_lamb_vector(rng: &mut Rng, hit_record: &HitRecord) -> (d: Vector3)
    ensures
        d == rand_lamb_spec(old(rng).state, hit_record.normal).0,
        final(rng).state == rand_lamb_spec(old(rng).state, hit_record.normal).1,
{
    let p = rand_in_unit_sphere(rng);
    hit_record.normal.add(p.unit_vector())
}

/// The background white.
pub open spec fn bg_white_spec() -> Color {
    col(FX_SCALE as int, FX_SCALE as int, FX_SCALE as int)
}

/// The background sky blue.
pub open spec fn bg_sky_blue_spec() -> Color {
    col(
        fx_div_spec(fx_clip(1 * FX_SCALE), fx_clip(2 * FX_SCALE)),
        fx_div_spec(fx_clip(7 * FX_SCALE), fx_clip(10 * FX_SCALE)),
        FX_SCALE as int,
    )
}

/// The background gradient: white blended toward sky blue by the
/// normalized ray direction's height.
pub open spec fn ray_color_bg_spec(r: Ray) -> Color {
    let unit_direction = v3_unit_spec(r.direction);
    let t = fx_mul_spec(
        fx_div_spec(fx_clip(1 * FX_SCALE), fx_clip(2 * FX_SCALE)),
        fx_add_spec(unit_direction.y@, FX_SCALE as int),
    );
    col_add_spec(
        col_scale_spec(bg_white_spec(), fx_sub_spec(FX_SCALE as int, t)),
        col_scale_spec(bg_sky_blue_spec(), t),
    )
}

/// The background gradient's blue channel is exactly one for every ray:
/// white and sky blue agree there, so the blend cannot dim it. In
/// particular no background color is black.
pub proof fn lemma_bg_blue_one(r: Ray)
    ensures
        ray_color_bg_spec(r).b@ == FX_SCALE as int,
{
    let u = v3_unit_spec(r.direction);
    let half = fx_div_spec(fx_clip(1 * FX_SCALE), fx_clip(2 * FX_SCALE));
    assert(half == 0x8000_0000) by {
        crate::scalars::lemma_fx_div_nonneg(FX_SCALE as int, 2 * FX_SCALE);
        assert((FX_SCALE as int) * (FX_SCALE as int) == 0x1_0000_0000_0000_0000int);
        assert((FX_SCALE as int) * (FX_SCALE as int) / (2 * FX_SCALE) == 0x1_0000_0000_0000_0000int
            / 0x2_0000_0000int);
    }
    let arg = fx_add_spec(u.y@, FX_SCALE as int);
    let t = fx_mul_spec(half, arg);
    assert(mag(t) <= 0x4000_0000_0000_0000int) by {
        assert(mag(arg) <= FX_RAW_MAX as int);
        assert(mag(half) * mag(arg) / (FX_SCALE as int) <= 0x4000_0000_0000_0000int)
            by (nonlinear_arith)
            requires
                mag(half) == 0x8000_0000,
                0 <= mag(arg) <= FX_RAW_MAX as int,
                FX_SCALE == 0x1_0000_0000,
        ;
        assert(0 <= mag(half) * mag(arg)) by (nonlinear_arith)
            requires
                0 <= mag(half) && 0 <= mag(arg),
        ;
    }
    let one_minus_t = fx_sub_spec(FX_SCALE as int, t);
    assert(one_minus_t == FX_SCALE as int - t);
    crate::scalars::lemma_fx_mul_one(one_minus_t);
    crate::scalars::lemma_fx_mul_one(t);
    assert(bg_white_spec().b@ == FX_SCALE as int);
    assert(bg_sky_blue_spec().b@ == FX_SCALE as int);
    assert(ray_color_bg_spec(r).b@ == fx_add_spec(
        fx_clip(one_minus_t),
        fx_clip(t),
    ));
}

/// The background color for a ray that hits nothing: a linear blend
/// between white and sky blue by the unit direction's height.
pub fn ray_color_bg(r: &Ray) -> (c: Color)
    ensures
        c == ray_color_bg_spec(*r),
{
    let unit_direction = r.direction.unit_vector();
    let half = Fx::from_ratio(1, 2);
    let t = half.mul(unit_direction.y.add(Fx::one()));
    let white = Color::new(Fx::one(), Fx::one(), Fx::one());
    let sky_blue = Color::new(half, Fx::from_ratio(7, 10), Fx::one());
    white.scale(Fx::one().sub(t)).add(sky_blue.scale(t))
}

/// Colors a surface by its normal: half the normal's components shifted
/// from `[-1, 1]` into `[0, 1]`; rays that miss get the background.
pub fn ray_color_normals<W: Hittable>(r: &Ray, world: &W) -> (c: Color)
    ensures
        c == match world.hit_spec(*r, 0, FX_RAW_MAX as int) {
            None => ray_color_bg_spec(*r),
            Some(hit_record) => col_scale_spec(
                col_add_spec(
                    Color { r: hit_record.normal.x, g: hit_record.normal.y, b: hit_record.normal.z },
                    col(FX_SCALE as int, FX_SCALE as int, FX_SCALE as int),
                ),
                fx_div_spec(fx_clip(1 * FX_SCALE), fx_clip(2 * FX_SCALE)),
            ),
        },
{
    match world.hit(r, Fx::zero(), Fx::from_raw(FX_RAW_MAX)) {
        None => ray_color_bg(r),
        Some(hit_record) => Color::from_vector(hit_record.normal).add(
            Color::new(Fx::one(), Fx::one(), Fx::one()),
        ).scale(Fx::from_ratio(1, 2)),
    }
}


/// Seed the demo renders draw their sampling randomness from, so that a
/// demo image is reproducible run to run.
pub const DEMO_SEED: u64 = 0x52415953;

/// One pixel of the color-gradient demo: red rising with the column,
/// green with the row, a quarter of blue, quantized to 256 levels.
pub open spec fn gradient_pixel_spec(i: u32, j: u32) -> (u8, u8, u8) {
    let c = col(
        fx_div_spec(fx_clip(i * FX_SCALE), fx_clip(255 * FX_SCALE)),
        fx_div_spec(fx_clip(j * FX_SCALE), fx_clip(255 * FX_SCALE)),
        fx_div_spec(fx_clip(1 * FX_SCALE), fx_clip(4 * FX_SCALE)),
    );
    let q = col_quantize_spec(c, 256);
    (((q.0) as u8), ((q.1) as u8), ((q.2) as u8))
}

/// The bytes of the first `i` pixels of gradient row `j`.
pub open spec fn gradient_row_spec(j: u32, i: nat) -> Seq<u8>
    decreases i,
{
    if i == 0 {
        Seq::empty()
    } else {
        let px = gradient_pixel_spec(((i - 1) as u32), j);
        gradient_row_spec(j, (i - 1) as nat).push(px.0).push(px.1).push(px.2)
    }
}

/// The bytes of the first `k` gradient rows, scanned top to bottom.
pub open spec fn gradient_rows_spec(k: nat) -> Seq<u8>
    decreases k,
{
    if k == 0 {
        Seq::empty()
    } else {
        gradient_rows_spec((k - 1) as nat) + gradient_row_spec(((256 - k) as u32), 256)
    }
}

/// One pixel of the color-gradient demo.
fn gradient_pixel(i: u32, j: u32) -> (px: (u8, u8, u8))
    ensures
        px == gradient_pixel_spec(i, j),
{
    let c = Color::new(
        Fx::from_int(i as i64).div(Fx::from_int(255)),
        Fx::from_int(j as i64).div(Fx::from_int(255)),
        Fx::from_ratio(1, 4),
    );
    proof {
        assert(fx_clip((i as i64) * FX_SCALE) == fx_clip(i * FX_SCALE));
        assert(fx_clip((j as i64) * FX_SCALE) == fx_clip(j * FX_SCALE));
    }
    let q = c.quantize(256);
    (q.0 as u8, q.1 as u8, q.2 as u8)
}

/// The 256-by-256 color-gradient demo as a plain-text image stream; the
/// caller prints it.
pub fn output_color_gradient() -> (out: Vec<u8>)
    ensures
        out@ == ppm_spec(gradient_rows_spec(256), 256, 256, 256),
{
    let mut data: Vec<u8> = Vec::new();
    let mut k: u32 = 0;
    while k < 256
        invariant
            k <= 256,
            data@ == gradient_rows_spec(k as nat),
        decreases 256 - k,
    {
        let j = 255 - k;
        let ghost before: Seq<u8> = data@;
        let mut i: u32 = 0;
        while i < 256
            invariant
                i <= 256,
                k < 256,
                j == 255 - k,
                data@ == before + gradient_row_spec(j, i as nat),
            decreases 256 - i,
        {
            let px = gradient_pixel(i, j);
            data.push(px.0);
            data.push(px.1);
            data.push(px.2);
            proof {
                assert(data@ =~= before + gradient_row_spec(j, (i + 1) as nat));
            }
            i = i + 1;
        }
        k = k + 1;
        proof {
            assert(gradient_rows_spec(k as nat) == gradient_rows_spec((k - 1) as nat)
                + gradient_row_spec(((256 - k as int) as u32), 256));
            assert(data@ == gradient_rows_spec(k as nat));
        }
    }
    ppm_from_pixels(&data, 256, 256, 256)
}

/// The sphere of the blue-white-gradient demo: radius one half, one unit
/// down the gaze axis, wearing the default material.
pub open spec fn bwg_sphere_spec() -> Sphere {
    Sphere {
        center: v3(0, 0, -(FX_SCALE as int)),
        radius: fxs(fx_div_spec(fx_clip(1 * FX_SCALE), fx_clip(2 * FX_SCALE))),
        material: 0,
    }
}

/// The camera ray of the blue-white-gradient demo for image coordinates
/// `(i, j)`: a fixed two-unit-high viewport one focal length ahead.
pub open spec fn bwg_ray_spec(i: u32, j: u32) -> Ray {
    let u = fx_div_spec(fx_clip(i * FX_SCALE), fx_clip(399 * FX_SCALE));
    let v = fx_div_spec(fx_clip(j * FX_SCALE), fx_clip(224 * FX_SCALE));
    let origin = v3(0, 0, 0);
    let viewport_height = fx_clip(2 * FX_SCALE);
    let viewport_width = fx_mul_spec(viewport_height, default_aspect_spec());
    let horizontal = v3(viewport_width, 0, 0);
    let vertical = v3(0, viewport_height, 0);
    let lower_left = v3_sub_spec(
        v3_sub_spec(
            v3_sub_spec(origin, v3_div_fx_spec(horizontal, fx_clip(2 * FX_SCALE))),
            v3_div_fx_spec(vertical, fx_clip(2 * FX_SCALE)),
        ),
        v3(0, 0, FX_SCALE as int),
    );
    Ray {
        origin,
        direction: v3_sub_spec(
            v3_add_spec(
                v3_add_spec(lower_left, v3_scale_spec(horizontal, u)),
                v3_scale_spec(vertical, v),
            ),
            origin,
        ),
    }
}

/// The camera ray of the blue-white-gradient demo.
fn bwg_ray(i: u32, j: u32) -> (r: Ray)
    ensures
        r == bwg_ray_spec(i, j),
{
    let u = Fx::from_int(i as i64).div(Fx::from_int(399));
    let v = Fx::from_int(j as i64).div(Fx::from_int(224));
    proof {
        assert(fx_clip((i as i64) * FX_SCALE) == fx_clip(i * FX_SCALE));
        assert(fx_clip((j as i64) * FX_SCALE) == fx_clip(j * FX_SCALE));
    }
    let origin = Vector3::zero();
    let viewport_height = Fx::from_int(2);
    let viewport_width = viewport_height.mul(Fx::from_ratio(16, 9));
    let horizontal = Vector3::new(viewport_width, Fx::zero(), Fx::zero());
    let vertical = Vector3::new(Fx::zero(), viewport_height, Fx::zero());
    let two = Fx::from_int(2);
    let lower_left = origin.sub(horizontal.div_fx(two)).sub(vertical.div_fx(two)).sub(
        Vector3::new(Fx::zero(), Fx::zero(), Fx::one()),
    );
    Ray {
        origin,
        direction: lower_left.add(horizontal.scale(u)).add(vertical.scale(v)).sub(origin),
    }
}

/// One pixel of the blue-white-gradient demo: a single unjittered ray
/// traced to depth 50, quantized to 256 levels; with the state after.
pub open spec fn bwg_pixel_spec(i: u32, j: u32, s: u64) -> ((u8, u8, u8), u64) {
    let (c, s1) = ray_color_spec(
        bwg_ray_spec(i, j),
        seq![bwg_sphere_spec()],
        seq![default_material_spec()],
        50,
        s,
    );
    let q = col_quantize_spec(c, 256);
    ((((q.0) as u8), ((q.1) as u8), ((q.2) as u8)), s1)
}

/// The bytes of the first `i` pixels of demo row `j`, with the state
/// after.
pub open spec fn bwg_row_spec(j: u32, i: nat, s: u64) -> (Seq<u8>, u64)
    decreases i,
{
    if i == 0 {
        (Seq::empty(), s)
    } else {
        let (pre, s0) = bwg_row_spec(j, (i - 1) as nat, s);
        let (px, s1) = bwg_pixel_spec(((i - 1) as u32), j, s0);
        (pre.push(px.0).push(px.1).push(px.2), s1)
    }
}

/// The bytes of the first `k` demo rows, scanned top to bottom, with the
/// state after.
pub open spec fn bwg_rows_spec(k: nat, s: u64) -> (Seq<u8>, u64)
    decreases k,
{
    if k == 0 {
        (Seq::empty(), s)
    } else {
        let (pre, s0) = bwg_rows_spec((k - 1) as nat, s);
        let (row, s1) = bwg_row_spec(((225 - k) as u32), 400, s0);
        (pre + row, s1)
    }
}

/// The full pixel buffer of the blue-white-gradient demo.
pub open spec fn bwg_pixels_spec() -> Seq<u8> {
    bwg_rows_spec(225, rng_init_spec(DEMO_SEED)).0
}

/// The blue-white-gradient demo: a 400-by-225 view of one matte sphere
/// against the background gradient, one ray per pixel, as a plain-text
/// image stream; the caller prints it.
#[verifier::rlimit(50)]
pub fn output_blue_white_gradient() -> (out: Vec<u8>)
    ensures
        out@ == ppm_spec(bwg_pixels_spec(), 400, 225, 256),
{
    let material_white: Material = Default::default();
    let mut materials: Vec<Material> = Vec::new();
    materials.push(material_white);

    let mut world = HittableList::new();
    world.add(
        Sphere {
            center: Vector3::new(Fx::zero(), Fx::zero(), Fx::from_int(-1)),
            radius: Fx::from_ratio(1, 2),
            material: 0,
        },
    );
    proof {
        assert(world.hittables@ =~= seq![bwg_sphere_spec()]);
        assert(materials@ =~= seq![default_material_spec()]);
    }

    let mut rng = Rng::new(DEMO_SEED);
    let ghost start: u64 = rng.state;
    let mut data: Vec<u8> = Vec::new();
    let mut k: u32 = 0;
    while k < 225
        invariant
            k <= 225,
            world.hittables@ == seq![bwg_sphere_spec()],
            materials@ == seq![default_material_spec()],
            data@ == bwg_rows_spec(k as nat, start).0,
            rng.state == bwg_rows_spec(k as nat, start).1,
        decreases 225 - k,
    {
        let j = 224 - k;
        let ghost before: Seq<u8> = data@;
        let ghost row_start: u64 = rng.state;
        let mut i: u32 = 0;
        while i < 400
            invariant
                i <= 400,
                k < 225,
                j == 224 - k,
                world.hittables@ == seq![bwg_sphere_spec()],
                materials@ == seq![default_material_spec()],
                data@ == before + bwg_row_spec(j, i as nat, row_start).0,
                rng.state == bwg_row_spec(j, i as nat, row_start).1,
            decreases 400 - i,
        {
            let r = bwg_ray(i, j);
            let c = ray_color_bounce(&r, &world, &materials, 50, &mut rng);
            let q = c.quantize(256);
            data.push(q.0 as u8);
            data.push(q.1 as u8);
            data.push(q.2 as u8);
            proof {
                assert(data@ =~= before + bwg_row_spec(j, (i + 1) as nat, row_start).0);
            }
            i = i + 1;
        }
        k = k + 1;
        proof {
            assert(bwg_rows_spec(k as nat, start).0 == before + bwg_row_spec(
                ((225 - k as int) as u32),
                400,
                row_start,
            ).0);
            assert(data@ == bwg_rows_spec(k as nat, start).0);
        }
    }
    ppm_from_pixels(&data, 400, 225, 256)
}

/// An error result of the demo renders' type.
pub open spec fn demo_err_spec(e: RenderError) -> Result<Vec<u8>, RenderError> {
    Err(e)
}

/// Where the sphere-on-sphere demo looks from.
pub open spec fn sos_lookfrom_spec() -> Vector3 {
    v3(0, 0, 0)
}

/// Where the sphere-on-sphere demo looks at.
pub open spec fn sos_lookat_spec() -> Vector3 {
    v3(0, 0, -(FX_SCALE as int))
}

/// The demo cameras' up direction.
pub open spec fn demo_vup_spec() -> Vector3 {
    v3(0, FX_SCALE as int, 0)
}

/// The sphere-on-sphere demo scene: a half-radius sphere resting on a
/// hundred-radius ground sphere, both wearing the default material.
pub open spec fn sos_world_spec() -> Seq<Sphere> {
    seq![
        Sphere {
            center: v3(0, 0, -(FX_SCALE as int)),
            radius: fxs(fx_div_spec(fx_clip(1 * FX_SCALE), fx_clip(2 * FX_SCALE))),
            material: 0,
        },
        Sphere {
            center: v3(
                0,
                fx_div_spec(fx_clip(-201 * FX_SCALE), fx_clip(2 * FX_SCALE)),
                -(FX_SCALE as int),
            ),
            radius: fxs(fx_clip(100 * FX_SCALE)),
            material: 0,
        },
    ]
}

/// The sphere-on-sphere demo configuration: 600 wide, 200 samples.
pub open spec fn sos_scene_spec() -> SceneConfig {
    SceneConfig {
        aspect_ratio: fxs(default_aspect_spec()),
        image_width: 600,
        image_height: derived_height_spec(600, default_aspect_spec()) as u32,
        samples_per_pixel: 200,
        max_depth: 50,
        dyn_range: 256,
    }
}

/// Whether the sphere-on-sphere demo camera parameters are valid.
pub open spec fn sos_camera_ok_spec() -> bool {
    camera_valid_spec(
        sos_lookfrom_spec(),
        sos_lookat_spec(),
        demo_vup_spec(),
        fx_clip(60 * FX_SCALE),
        default_aspect_spec(),
        FX_SCALE as int,
        FX_SCALE as int,
    )
}

/// The error the sphere-on-sphere demo camera would report.
pub open spec fn sos_camera_err_spec() -> RenderError {
    camera_error_spec(
        sos_lookfrom_spec(),
        sos_lookat_spec(),
        demo_vup_spec(),
        fx_clip(60 * FX_SCALE),
        default_aspect_spec(),
        FX_SCALE as int,
        FX_SCALE as int,
    )
}

/// The sphere-on-sphere demo camera frame.
pub open spec fn sos_camera_spec() -> Camera {
    camera_frame_spec(
        sos_lookfrom_spec(),
        sos_lookat_spec(),
        demo_vup_spec(),
        fx_clip(60 * FX_SCALE),
        default_aspect_spec(),
        FX_SCALE as int,
        FX_SCALE as int,
    )
}

/// The sphere-on-sphere demo pixel buffer.
pub open spec fn sos_pixels_spec() -> Seq<u8> {
    render_pixels_spec(
        sos_world_spec(),
        seq![default_material_spec()],
        sos_camera_spec(),
        sos_scene_spec(),
        DEMO_SEED,
    )
}

/// The sphere-on-sphere demo: two matte spheres seen through a
/// unit-aperture camera, rendered and encoded as a compressed image
/// stream; the caller writes the bytes to a file.
pub fn output_sphere_on_sphere() -> (res: Result<Vec<u8>, RenderError>)
    ensures
        !sos_camera_ok_spec() ==> res == demo_err_spec(sos_camera_err_spec()),
        sos_camera_ok_spec() && !config_valid_spec(sos_scene_spec()) ==> res == demo_err_spec(
            config_error_spec(sos_scene_spec()),
        ),
        res is Ok <==> sos_camera_ok_spec() && config_valid_spec(sos_scene_spec()),
        res matches Ok(bytes) ==> bytes@ == png_encoding(
            600,
            sos_scene_spec().image_height as int,
            sos_pixels_spec(),
        ),
{
    let material_white: Material = Default::default();
    let mut materials: Vec<Material> = Vec::new();
    materials.push(material_white);

    let mut world = HittableList::new();
    world.add(
        Sphere {
            center: Vector3::new(Fx::zero(), Fx::zero(), Fx::from_int(-1)),
            radius: Fx::from_ratio(1, 2),
            material: 0,
        },
    );
    world.add(
        Sphere {
            center: Vector3::new(Fx::zero(), Fx::from_ratio(-201, 2), Fx::from_int(-1)),
            radius: Fx::from_int(100),
            material: 0,
        },
    );
    proof {
        assert(world.hittables@ =~= sos_world_spec());
        assert(materials@ =~= seq![default_material_spec()]);
    }

    let cam = match Camera::new(
        Vector3::zero(),
        Vector3::new(Fx::zero(), Fx::zero(), Fx::from_int(-1)),
        Vector3::new(Fx::zero(), Fx::one(), Fx::zero()),
        Fx::from_int(60),
        Fx::from_ratio(16, 9),
        Fx::one(),
        Fx::one(),
    ) {
        Ok(c) => c,
        Err(e) => {
            return Err(e);
        },
    };

    let mut scene = SceneConfig::new();
    scene.set_width(600);
    scene.samples_per_pixel = 200;
    proof {
        assert(scene == sos_scene_spec());
    }

    render_image_png(&scene, &world, &materials, &cam, DEMO_SEED)
}

/// Where the metal-spheres demo looks from.
pub open spec fn ms_lookfrom_spec() -> Vector3 {
    v3(-2 * (FX_SCALE as int), 2 * (FX_SCALE as int), FX_SCALE as int)
}

/// Where the metal-spheres demo looks at.
pub open spec fn ms_lookat_spec() -> Vector3 {
    v3(0, 0, -(FX_SCALE as int))
}

/// The metal-spheres demo materials: a matte ground and center sphere, a
/// clear shell, and a fuzzed mirror; the shell material is shared by the
/// outer sphere and the negative-radius inner wall.
pub open spec fn ms_materials_spec() -> Seq<Material> {
    seq![
        Material::Diffuse {
            albedo: col(
                fx_div_spec(fx_clip(8 * FX_SCALE), fx_clip(10 * FX_SCALE)),
                fx_div_spec(fx_clip(8 * FX_SCALE), fx_clip(10 * FX_SCALE)),
                0,
            ),
        },
        Material::Diffuse {
            albedo: col(
                fx_div_spec(fx_clip(1 * FX_SCALE), fx_clip(10 * FX_SCALE)),
                fx_div_spec(fx_clip(2 * FX_SCALE), fx_clip(10 * FX_SCALE)),
                fx_div_spec(fx_clip(5 * FX_SCALE), fx_clip(10 * FX_SCALE)),
            ),
        },
        Material::Dielectric {
            albedo: col(FX_SCALE as int, FX_SCALE as int, FX_SCALE as int),
            index_of_refraction: fxs(fx_div_spec(fx_clip(15 * FX_SCALE), fx_clip(10 * FX_SCALE))),
        },
        Material::Metal {
            albedo: col(
                fx_div_spec(fx_clip(8 * FX_SCALE), fx_clip(10 * FX_SCALE)),
                fx_div_spec(fx_clip(6 * FX_SCALE), fx_clip(10 * FX_SCALE)),
                fx_div_spec(fx_clip(2 * FX_SCALE), fx_clip(10 * FX_SCALE)),
            ),
            fuzz: fxs(fx_div_spec(fx_clip(5 * FX_SCALE), fx_clip(1000 * FX_SCALE))),
        },
    ]
}

/// The metal-spheres demo scene: the ground, a matte center sphere, a
/// hollow clear shell modeled by a negative-radius inner sphere, and a
/// mirror sphere.
pub open spec fn ms_world_spec() -> Seq<Sphere> {
    seq![
        Sphere {
            center: v3(
                0,
                fx_div_spec(fx_clip(-201 * FX_SCALE), fx_clip(2 * FX_SCALE)),
                -(FX_SCALE as int),
            ),
            radius: fxs(fx_clip(100 * FX_SCALE)),
            material: 0,
        },
        Sphere {
            center: v3(0, 0, -(FX_SCALE as int)),
            radius: fxs(fx_div_spec(fx_clip(1 * FX_SCALE), fx_clip(2 * FX_SCALE))),
            material: 1,
        },
        Sphere {
            center: v3(-(FX_SCALE as int), 0, -(FX_SCALE as int)),
            radius: fxs(fx_div_spec(fx_clip(1 * FX_SCALE), fx_clip(2 * FX_SCALE))),
            material: 2,
        },
        Sphere {
            center: v3(-(FX_SCALE as int), 0, -(FX_SCALE as int)),
            radius: fxs(fx_div_spec(fx_clip(-49 * FX_SCALE), fx_clip(100 * FX_SCALE))),
            material: 2,
        },
        Sphere {
            center: v3(FX_SCALE as int, 0, -(FX_SCALE as int)),
            radius: fxs(fx_div_spec(fx_clip(1 * FX_SCALE), fx_clip(2 * FX_SCALE))),
            material: 3,
        },
    ]
}

/// The metal-spheres demo focus distance: the gaze length.
pub open spec fn ms_focus_spec() -> int {
    v3_length_spec(v3_sub_spec(ms_lookfrom_spec(), ms_lookat_spec()))
}

/// The metal-spheres demo aperture.
pub open spec fn ms_aperture_spec() -> int {
    fx_div_spec(fx_clip(4 * FX_SCALE), fx_clip(10 * FX_SCALE))
}

/// The metal-spheres demo configuration: 800 wide, 150 samples, depth 20.
pub open spec fn ms_scene_spec() -> SceneConfig {
    SceneConfig {
        aspect_ratio: fxs(default_aspect_spec()),
        image_width: 800,
        image_height: derived_height_spec(800, default_aspect_spec()) as u32,
        samples_per_pixel: 150,
        max_depth: 20,
        dyn_range: 256,
    }
}

/// Whether the metal-spheres demo camera parameters are valid.
pub open spec fn ms_camera_ok_spec() -> bool {
    camera_valid_spec(
        ms_lookfrom_spec(),
        ms_lookat_spec(),
        demo_vup_spec(),
        fx_clip(40 * FX_SCALE),
        default_aspect_spec(),
        ms_aperture_spec(),
        ms_focus_spec(),
    )
}

/// The error the metal-spheres demo camera would report.
pub open spec fn ms_camera_err_spec() -> RenderError {
    camera_error_spec(
        ms_lookfrom_spec(),
        ms_lookat_spec(),
        demo_vup_spec(),
        fx_clip(40 * FX_SCALE),
        default_aspect_spec(),
        ms_aperture_spec(),
        ms_focus_spec(),
    )
}

/// The metal-spheres demo camera frame.
pub open spec fn ms_camera_spec() -> Camera {
    camera_frame_spec(
        ms_lookfrom_spec(),
        ms_lookat_spec(),
        demo_vup_spec(),
        fx_clip(40 * FX_SCALE),
        default_aspect_spec(),
        ms_aperture_spec(),
        ms_focus_spec(),
    )
}

/// The metal-spheres demo pixel buffer.
pub open spec fn ms_pixels_spec() -> Seq<u8> {
    render_pixels_spec(
        ms_world_spec(),
        ms_materials_spec(),
        ms_camera_spec(),
        ms_scene_spec(),
        DEMO_SEED,
    )
}

/// The metal-spheres demo: four materials on five spheres, seen through
/// a depth-of-field camera focused on the center sphere, rendered and
/// encoded as a compressed image stream; the caller writes the bytes to
/// a file.
pub fn output_metal_spheres() -> (res: Result<Vec<u8>, RenderError>)
    ensures
        !ms_camera_ok_spec() ==> res == demo_err_spec(ms_camera_err_spec()),
        ms_camera_ok_spec() && !config_valid_spec(ms_scene_spec()) ==> res == demo_err_spec(
            config_error_spec(ms_scene_spec()),
        ),
        res is Ok <==> ms_camera_ok_spec() && config_valid_spec(ms_scene_spec()),
        res matches Ok(bytes) ==> bytes@ == png_encoding(
            800,
            ms_scene_spec().image_height as int,
            ms_pixels_spec(),
        ),
{
    let material_ground = Material::Diffuse {
        albedo: Color::new(Fx::from_ratio(8, 10), Fx::from_ratio(8, 10), Fx::zero()),
    };
    let material_center = Material::Diffuse {
        albedo: Color::new(Fx::from_ratio(1, 10), Fx::from_ratio(2, 10), Fx::from_ratio(5, 10)),
    };
    let material_left = Material::Dielectric {
        albedo: Color::new(Fx::one(), Fx::one(), Fx::one()),
        index_of_refraction: Fx::from_ratio(15, 10),
    };
    let material_right = Material::Metal {
        albedo: Color::new(Fx::from_ratio(8, 10), Fx::from_ratio(6, 10), Fx::from_ratio(2, 10)),
        fuzz: Fx::from_ratio(5, 1000),
    };
    let mut materials: Vec<Material> = Vec::new();
    materials.push(material_ground);
    materials.push(material_center);
    materials.push(material_left);
    materials.push(material_right);

    let half = Fx::from_ratio(1, 2);
    let mut world = HittableList::new();
    world.add(
        Sphere {
            center: Vector3::new(Fx::zero(), Fx::from_ratio(-201, 2), Fx::from_int(-1)),
            radius: Fx::from_int(100),
            material: 0,
        },
    );
    world.add(
        Sphere {
            center: Vector3::new(Fx::zero(), Fx::zero(), Fx::from_int(-1)),
            radius: half,
            material: 1,
        },
    );
    world.add(
        Sphere {
            center: Vector3::new(Fx::from_int(-1), Fx::zero(), Fx::from_int(-1)),
            radius: half,
            material: 2,
        },
    );
    world.add(
        Sphere {
            center: Vector3::new(Fx::from_int(-1), Fx::zero(), Fx::from_int(-1)),
            radius: Fx::from_ratio(-49, 100),
            material: 2,
        },
    );
    world.add(
        Sphere {
            center: Vector3::new(Fx::from_int(1), Fx::zero(), Fx::from_int(-1)),
            radius: half,
            material: 3,
        },
    );
    proof {
        assert(world.hittables@ =~= ms_world_spec());
        assert(materials@ =~= ms_materials_spec());
    }

    let lookfrom = Vector3::new(Fx::from_int(-2), Fx::from_int(2), Fx::one());
    let lookat = Vector3::new(Fx::zero(), Fx::zero(), Fx::from_int(-1));
    let vup = Vector3::new(Fx::zero(), Fx::one(), Fx::zero());

    let focus_dist = lookfrom.sub(lookat).length();
    let aperture = Fx::from_ratio(4, 10);

    let cam = match Camera::new(
        lookfrom,
        lookat,
        vup,
        Fx::from_int(40),
        Fx::from_ratio(16, 9),
        aperture,
        focus_dist,
    ) {
        Ok(c) => c,
        Err(e) => {
            return Err(e);
        },
    };

    let mut scene = SceneConfig::new();
    scene.set_width(800);
    scene.samples_per_pixel = 150;
    scene.max_depth = 20;
    proof {
        assert(scene == ms_scene_spec());
    }

    render_image_png(&scene, &world, &materials, &cam, DEMO_SEED)
}

} // verus!
