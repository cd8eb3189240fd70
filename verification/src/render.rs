//! The render pipeline: scene configuration, the recursive bounce
//! integrator, the pixel loop, and the encoders that turn the pixel
//! buffer into image bytes.

use crate::cameras::{camera_get_ray_spec, Camera};
use crate::colors::{
    col, col_div_fx_spec, col_gamma_spec, col_mul_spec, col_quantize_spec, Color, DYN_RANGE,
};
use crate::materials::{scatter_spec, Material};
use crate::primitives::{list_hit_spec, Hittable, HittableList, Sphere};
use crate::rays::Ray;
use crate::rng::{rng_step, rng_unit_spec, Rng, RNG_DEFAULT_SEED};
use crate::scalars::{
    fx_add_spec, fx_clip, fx_div_spec, fx_floor_u32_spec, fx_sub_spec, Fx, FX_RAW_MAX, FX_SCALE,
};
use crate::util::{ray_color_bg, ray_color_bg_spec};
use crate::RenderError;
use vstd::prelude::*;

verus! {

/// Scene-wide rendering configuration. The width and height are kept in
/// step by `set_width`; the other fields are plain knobs, revalidated by
/// the render entry points.
#[derive(Clone, Copy, PartialEq, Eq, Structural, Debug)]
pub struct SceneConfig {
    pub aspect_ratio: Fx,
    pub image_width: u32,
    pub image_height: u32,
    pub samples_per_pixel: u32,
    pub max_depth: u32,
    pub dyn_range: u32,
}

/// Raw value of the default 16:9 aspect ratio.
pub open spec fn default_aspect_spec() -> int {
    fx_div_spec(fx_clip(16 * FX_SCALE), fx_clip(9 * FX_SCALE))
}

/// The height derived from a width and an aspect ratio.
pub open spec fn derived_height_spec(width: u32, aspect_ratio: int) -> int {
    fx_floor_u32_spec(fx_div_spec(fx_clip(width * FX_SCALE), aspect_ratio))
}

impl SceneConfig {
    /// The default configuration: a 400-wide 16:9 image, 100 samples per
    /// pixel, 50 bounces, 256 output levels.
    pub fn new() -> (c: SceneConfig)
        ensures
            c.aspect_ratio@ == default_aspect_spec(),
            c.image_width == 400,
            c.image_height as int == derived_height_spec(400, default_aspect_spec()),
            c.samples_per_pixel == 100,
            c.max_depth == 50,
            c.dyn_range == DYN_RANGE,
    {
        let aspect_ratio = Fx::from_ratio(16, 9);
        let image_height = Fx::from_int(400).div(aspect_ratio).floor_u32();
        SceneConfig {
            aspect_ratio,
            image_width: 400,
            image_height,
            samples_per_pixel: 100,
            max_depth: 50,
            dyn_range: DYN_RANGE,
        }
    }

    /// Sets the width and rederives the height from the aspect ratio.
    pub fn set_width(&mut self, width: u32)
        ensures
            *final(self) == (SceneConfig {
                image_width: width,
                image_height: derived_height_spec(width, old(self).aspect_ratio@) as u32,
                ..*old(self)
            }),
    {
        self.image_width = width;
        self.image_height = Fx::from_int(width as i64).div(self.aspect_ratio).floor_u32();
        proof {
            assert(fx_clip((width as i64) * FX_SCALE) == fx_clip(width * FX_SCALE));
        }
    }
}

/// Whether the configuration can be rendered: positive dimensions,
/// samples and depth, and an output range of 2 to 256 levels so every
/// channel fits one byte.
pub open spec fn config_valid_spec(cfg: SceneConfig) -> bool {
    &&& cfg.image_width >= 1
    &&& cfg.image_height >= 1
    &&& cfg.samples_per_pixel >= 1
    &&& cfg.max_depth >= 1
    &&& 2 <= cfg.dyn_range <= 256
}

/// The error an invalid configuration reports: the first check that
/// fails, in the order the checks run.
pub open spec fn config_error_spec(cfg: SceneConfig) -> RenderError {
    if !(cfg.image_width >= 1) {
        RenderError::InvalidWidth
    } else if !(cfg.image_height >= 1) {
        RenderError::InvalidHeight
    } else if !(cfg.samples_per_pixel >= 1) {
        RenderError::InvalidSamples
    } else if !(cfg.max_depth >= 1) {
        RenderError::InvalidDepth
    } else {
        RenderError::InvalidDynRange
    }
}

/// Checks a configuration, reporting the first failure.
fn check_config(scene: &SceneConfig) -> (r: Result<(), RenderError>)
    ensures
        r is Ok <==> config_valid_spec(*scene),
        r matches Err(e) ==> e == config_error_spec(*scene),
{
    if scene.image_width < 1 {
        Err(RenderError::InvalidWidth)
    } else if scene.image_height < 1 {
        Err(RenderError::InvalidHeight)
    } else if scene.samples_per_pixel < 1 {
        Err(RenderError::InvalidSamples)
    } else if scene.max_depth < 1 {
        Err(RenderError::InvalidDepth)
    } else if scene.dyn_range < 2 || scene.dyn_range > 256 {
        Err(RenderError::InvalidDynRange)
    } else {
        Ok(())
    }
}

/// Raw value of the shadow-acne epsilon `0.001`: the lower bound of the
/// hit window, which excludes self-intersections at a ray's own origin.
pub open spec fn shadow_epsilon_spec() -> int {
    fx_div_spec(fx_clip(1 * FX_SCALE), fx_clip(1000 * FX_SCALE))
}

/// The shadow-acne epsilon `0.001`.
pub fn shadow_epsilon() -> (r: Fx)
    ensures
        r@ == shadow_epsilon_spec(),
{
    Fx::from_ratio(1, 1000)
}

/// The radiance the integrator returns for a ray, with the generator
/// state after: black once the depth budget is spent; the background
/// gradient on a miss; otherwise the hit material's attenuation times
/// the radiance of the scattered ray, one bounce deeper. A hit whose
/// material index lies outside the scene's storage is treated as fully
/// absorbed.
pub open spec fn ray_color_spec(
    r: Ray,
    objs: Seq<Sphere>,
    materials: Seq<Material>,
    depth: u32,
    s: u64,
) -> (Color, u64)
    decreases depth,
{
    if depth == 0 {
        (col(0, 0, 0), s)
    } else {
        match list_hit_spec(objs, r, shadow_epsilon_spec(), FX_RAW_MAX as int) {
            None => (ray_color_bg_spec(r), s),
            Some(rec) => {
                if rec.material >= materials.len() {
                    (col(0, 0, 0), s)
                } else {
                    let m = materials[rec.material as int];
                    let ((attenuation, scattered), s1) = scatter_spec(m, r, rec, s);
                    let (c, s2) = ray_color_spec(scattered, objs, materials, (depth - 1) as u32, s1);
                    (col_mul_spec(attenuation, c), s2)
                }
            },
        }
    }
}

/// The radiance carried back along one ray: recursive bouncing with a
/// depth budget, black at exhaustion, the background gradient on a miss.
pub fn ray_color_bounce(
    r: &Ray,
    world: &HittableList,
    materials: &Vec<Material>,
    depth: u32,
    rng: &mut Rng,
) -> (c: Color)
    ensures
        c == ray_color_spec(*r, world.hittables@, materials@, depth, old(rng).state).0,
        final(rng).state == ray_color_spec(*r, world.hittables@, materials@, depth, old(rng).state).1,
    decreases depth,
{
    if depth == 0 {
        return Color::black();
    }

    match world.hit(r, shadow_epsilon(), Fx::from_raw(FX_RAW_MAX)) {
        None => ray_color_bg(r),
        Some(hit_record) => {
            if hit_record.material >= materials.len() {
                return Color::black();
            }
            let m = materials[hit_record.material];
            let (attenuation, scattered) = m.scatter(r, &hit_record, rng);
            let c = ray_color_bounce(&scattered, world, materials, depth - 1, rng);
            attenuation.mul(c)
        },
    }
}

/// A ray that misses every object is colored exactly by the background
/// gradient formula, at every nonzero depth budget.
pub proof fn lemma_ray_color_miss(r: Ray, objs: Seq<Sphere>, materials: Seq<Material>, depth: u32, s: u64)
    requires
        depth >= 1,
        list_hit_spec(objs, r, shadow_epsilon_spec(), FX_RAW_MAX as int) is None,
    ensures
        ray_color_spec(r, objs, materials, depth, s) == (ray_color_bg_spec(r), s),
{
}

/// A ray that hits an object, integrated with a depth budget of one, is
/// colored black: the one allowed bounce scatters into an exhausted
/// budget, and the attenuation of black is black. Together with the
/// background's blue channel being one, the result differs from the
/// background color of every ray.
pub proof fn lemma_ray_color_hit_depth_one(
    r: Ray,
    objs: Seq<Sphere>,
    materials: Seq<Material>,
    s: u64,
)
    requires
        list_hit_spec(objs, r, shadow_epsilon_spec(), FX_RAW_MAX as int) is Some,
    ensures
        ray_color_spec(r, objs, materials, 1, s).0 == col(0, 0, 0),
        forall|r2: Ray| ray_color_spec(r, objs, materials, 1, s).0 != ray_color_bg_spec(r2),
{
    let rec = list_hit_spec(objs, r, shadow_epsilon_spec(), FX_RAW_MAX as int).unwrap();
    if rec.material < materials.len() {
        let m = materials[rec.material as int];
        let ((attenuation, scattered), s1) = scatter_spec(m, r, rec, s);
        assert(ray_color_spec(scattered, objs, materials, 0, s1).0 == col(0, 0, 0));
        crate::scalars::lemma_fx_mul_zero(attenuation.r@);
        crate::scalars::lemma_fx_mul_zero(attenuation.g@);
        crate::scalars::lemma_fx_mul_zero(attenuation.b@);
        assert(col_mul_spec(attenuation, col(0, 0, 0)) == col(0, 0, 0));
    }
    assert forall|r2: Ray| ray_color_spec(r, objs, materials, 1, s).0 != ray_color_bg_spec(r2) by {
        crate::util::lemma_bg_blue_one(r2);
    }
}

/// Rendering is deterministic: two pixel buffers produced from the same
/// scene, world, camera and seed are byte-identical.
pub proof fn lemma_render_deterministic(
    objs: Seq<Sphere>,
    materials: Seq<Material>,
    cam: Camera,
    cfg: SceneConfig,
    seed: u64,
    out1: Seq<u8>,
    out2: Seq<u8>,
)
    requires
        out1 == render_pixels_spec(objs, materials, cam, cfg, seed),
        out2 == render_pixels_spec(objs, materials, cam, cfg, seed),
    ensures
        out1 == out2,
{
}

/// The sum of the first `samples` jittered samples of pixel `(i, j)`,
/// with the generator state after.
pub open spec fn sample_sum_spec(
    objs: Seq<Sphere>,
    materials: Seq<Material>,
    cam: Camera,
    cfg: SceneConfig,
    i: u32,
    j: u32,
    samples: nat,
    s: u64,
) -> (Color, u64)
    decreases samples,
{
    if samples == 0 {
        (col(0, 0, 0), s)
    } else {
        let (acc, s0) = sample_sum_spec(objs, materials, cam, cfg, i, j, (samples - 1) as nat, s);
        let u = fx_div_spec(
            fx_add_spec(fx_clip(i * FX_SCALE), rng_unit_spec(s0)),
            fx_sub_spec(fx_clip(cfg.image_width * FX_SCALE), FX_SCALE as int),
        );
        let s1 = rng_step(s0);
        let v = fx_div_spec(
            fx_add_spec(fx_clip(j * FX_SCALE), rng_unit_spec(s1)),
            fx_sub_spec(fx_clip(cfg.image_height * FX_SCALE), FX_SCALE as int),
        );
        let s2 = rng_step(s1);
        let (ray, s3) = camera_get_ray_spec(cam, u, v, s2);
        let (c, s4) = ray_color_spec(ray, objs, materials, cfg.max_depth, s3);
        (crate::colors::col_add_spec(acc, c), s4)
    }
}

/// The three output bytes of pixel `(i, j)`: the sample average, gamma
/// corrected and quantized; with the generator state after.
pub open spec fn pixel_spec(
    objs: Seq<Sphere>,
    materials: Seq<Material>,
    cam: Camera,
    cfg: SceneConfig,
    i: u32,
    j: u32,
    s: u64,
) -> ((u8, u8, u8), u64) {
    let (sum, s1) = sample_sum_spec(
        objs,
        materials,
        cam,
        cfg,
        i,
        j,
        cfg.samples_per_pixel as nat,
        s,
    );
    let avg = col_div_fx_spec(sum, fx_clip(cfg.samples_per_pixel * FX_SCALE));
    let g = col_gamma_spec(avg);
    let q = col_quantize_spec(g, cfg.dyn_range);
    (((q.0 as u8), (q.1 as u8), (q.2 as u8)), s1)
}

/// One pixel rendered: `samples_per_pixel` jittered camera rays traced
/// and averaged, gamma corrected, quantized to bytes.
fn render_pixel(
    scene: &SceneConfig,
    world: &HittableList,
    materials: &Vec<Material>,
    cam: &Camera,
    i: u32,
    j: u32,
    rng: &mut Rng,
) -> (px: (u8, u8, u8))
    requires
        scene.samples_per_pixel >= 1,
        2 <= scene.dyn_range <= 256,
    ensures
        px == pixel_spec(world.hittables@, materials@, *cam, *scene, i, j, old(rng).state).0,
        final(rng).state == pixel_spec(world.hittables@, materials@, *cam, *scene, i, j, old(rng).state).1,
{
    let ghost start: u64 = rng.state;
    let mut pixel_color = Color::black();
    let mut s: u32 = 0;
    let width_minus_one = Fx::from_int(scene.image_width as i64).sub(Fx::one());
    let height_minus_one = Fx::from_int(scene.image_height as i64).sub(Fx::one());
    proof {
        assert(fx_clip((scene.image_width as i64) * FX_SCALE) == fx_clip(
            scene.image_width * FX_SCALE,
        ));
        assert(fx_clip((scene.image_height as i64) * FX_SCALE) == fx_clip(
            scene.image_height * FX_SCALE,
        ));
    }
    while s < scene.samples_per_pixel
        invariant
            s <= scene.samples_per_pixel,
            width_minus_one@ == fx_sub_spec(
                fx_clip(scene.image_width * FX_SCALE),
                FX_SCALE as int,
            ),
            height_minus_one@ == fx_sub_spec(
                fx_clip(scene.image_height * FX_SCALE),
                FX_SCALE as int,
            ),
            pixel_color == sample_sum_spec(
                world.hittables@,
                materials@,
                *cam,
                *scene,
                i,
                j,
                s as nat,
                start,
            ).0,
            rng.state == sample_sum_spec(world.hittables@, materials@, *cam, *scene, i, j, s as nat, start).1,
        decreases scene.samples_per_pixel - s,
    {
        let u = Fx::from_int(i as i64).add(rng.next_unit()).div(width_minus_one);
        let v = Fx::from_int(j as i64).add(rng.next_unit()).div(height_minus_one);
        proof {
            assert(fx_clip((i as i64) * FX_SCALE) == fx_clip(i * FX_SCALE));
            assert(fx_clip((j as i64) * FX_SCALE) == fx_clip(j * FX_SCALE));
        }
        let r = cam.get_ray(u, v, rng);
        let c = ray_color_bounce(&r, world, materials, scene.max_depth, rng);
        pixel_color = pixel_color.add(c);
        s = s + 1;
    }
    let samples_fx = Fx::from_int(scene.samples_per_pixel as i64);
    proof {
        assert(fx_clip((scene.samples_per_pixel as i64) * FX_SCALE) == fx_clip(
            scene.samples_per_pixel * FX_SCALE,
        ));
    }
    let mut avg = pixel_color.div_fx(samples_fx);
    avg.gamma_correct();
    let q = avg.quantize(scene.dyn_range);
    (q.0 as u8, q.1 as u8, q.2 as u8)
}

/// The bytes of the first `i` pixels of row `j`, left to right, with the
/// generator state after.
pub open spec fn row_prefix_spec(
    objs: Seq<Sphere>,
    materials: Seq<Material>,
    cam: Camera,
    cfg: SceneConfig,
    j: u32,
    i: nat,
    s: u64,
) -> (Seq<u8>, u64)
    decreases i,
{
    if i == 0 {
        (Seq::empty(), s)
    } else {
        let (pre, s0) = row_prefix_spec(objs, materials, cam, cfg, j, (i - 1) as nat, s);
        let (px, s1) = pixel_spec(objs, materials, cam, cfg, ((i - 1) as u32), j, s0);
        (pre.push(px.0).push(px.1).push(px.2), s1)
    }
}

/// The bytes of the first `k` rendered rows, top to bottom: row `j` is
/// `image_height - k` once `k` rows are done, so scanning runs from the
/// top row `image_height - 1` down to row zero.
pub open spec fn rows_prefix_spec(
    objs: Seq<Sphere>,
    materials: Seq<Material>,
    cam: Camera,
    cfg: SceneConfig,
    k: nat,
    s: u64,
) -> (Seq<u8>, u64)
    decreases k,
{
    if k == 0 {
        (Seq::empty(), s)
    } else {
        let (pre, s0) = rows_prefix_spec(objs, materials, cam, cfg, (k - 1) as nat, s);
        let j = (cfg.image_height - k) as u32;
        let (row, s1) = row_prefix_spec(objs, materials, cam, cfg, j, cfg.image_width as nat, s0);
        (pre + row, s1)
    }
}

/// The generator state a seed starts from.
pub open spec fn rng_init_spec(seed: u64) -> u64 {
    if seed == 0 {
        RNG_DEFAULT_SEED
    } else {
        seed
    }
}

/// The full pixel buffer of a render: every row top to bottom, every
/// pixel left to right, three bytes per pixel; a pure function of the
/// scene, the world, the camera and the seed.
pub open spec fn render_pixels_spec(
    objs: Seq<Sphere>,
    materials: Seq<Material>,
    cam: Camera,
    cfg: SceneConfig,
    seed: u64,
) -> Seq<u8> {
    rows_prefix_spec(objs, materials, cam, cfg, cfg.image_height as nat, rng_init_spec(seed)).0
}

/// A row prefix holds three bytes per pixel.
pub proof fn lemma_row_prefix_len(
    objs: Seq<Sphere>,
    materials: Seq<Material>,
    cam: Camera,
    cfg: SceneConfig,
    j: u32,
    i: nat,
    s: u64,
)
    ensures
        row_prefix_spec(objs, materials, cam, cfg, j, i, s).0.len() == 3 * i,
    decreases i,
{
    if i > 0 {
        lemma_row_prefix_len(objs, materials, cam, cfg, j, (i - 1) as nat, s);
    }
}

/// A rows prefix holds three bytes per pixel of every finished row.
pub proof fn lemma_rows_prefix_len(
    objs: Seq<Sphere>,
    materials: Seq<Material>,
    cam: Camera,
    cfg: SceneConfig,
    k: nat,
    s: u64,
)
    ensures
        rows_prefix_spec(objs, materials, cam, cfg, k, s).0.len() == k * (
        3 * cfg.image_width as nat),
    decreases k,
{
    if k == 0 {
        assert(rows_prefix_spec(objs, materials, cam, cfg, k, s).0.len() == 0);
    } else {
        lemma_rows_prefix_len(objs, materials, cam, cfg, (k - 1) as nat, s);
        let s0 = rows_prefix_spec(objs, materials, cam, cfg, (k - 1) as nat, s).1;
        let j = (cfg.image_height - k) as u32;
        lemma_row_prefix_len(objs, materials, cam, cfg, j, cfg.image_width as nat, s0);
        assert(k * (3 * cfg.image_width as nat) == (k - 1) * (3 * cfg.image_width as nat) + 3
            * cfg.image_width as nat) by (nonlinear_arith);
    }
}

/// Renders the scene into a dense row-major pixel buffer: for each pixel
/// three bytes, each channel gamma corrected, clamped and quantized.
/// Succeeds if and only if the configuration is valid; the buffer is a
/// pure function of the scene, the world, the camera and the seed.
pub fn render_image(
    scene: &SceneConfig,
    world: &HittableList,
    materials: &Vec<Material>,
    cam: &Camera,
    seed: u64,
) -> (res: Result<Vec<u8>, RenderError>)
    ensures
        res is Ok <==> config_valid_spec(*scene),
        res matches Ok(data) ==> data@ == render_pixels_spec(
            world.hittables@,
            materials@,
            *cam,
            *scene,
            seed,
        ),
        res matches Ok(data) ==> data@.len() == (scene.image_height as int) * (3
            * scene.image_width as int),
        res matches Err(e) ==> e == config_error_spec(*scene),
{
    if let Err(e) = check_config(scene) {
        return Err(e);
    }
    let mut data: Vec<u8> = Vec::new();
    let mut rng = Rng::new(seed);
    let ghost start: u64 = rng.state;
    let height = scene.image_height;
    let width = scene.image_width;
    let mut k: u32 = 0;
    while k < height
        invariant
            k <= height,
            height == scene.image_height,
            width == scene.image_width,
            scene.samples_per_pixel >= 1,
            2 <= scene.dyn_range <= 256,
            data@ == rows_prefix_spec(world.hittables@, materials@, *cam, *scene, k as nat, start).0,
            rng.state == rows_prefix_spec(world.hittables@, materials@, *cam, *scene, k as nat, start).1,
        decreases height - k,
    {
        let j = height - 1 - k;
        let ghost row_start: u64 = rng.state;
        let ghost data_before: Seq<u8> = data@;
        let mut i: u32 = 0;
        while i < width
            invariant
                i <= width,
                width == scene.image_width,
                scene.samples_per_pixel >= 1,
                2 <= scene.dyn_range <= 256,
                data@ == data_before + row_prefix_spec(
                    world.hittables@,
                    materials@,
                    *cam,
                    *scene,
                    j,
                    i as nat,
                    row_start,
                ).0,
                rng.state == row_prefix_spec(
                    world.hittables@,
                    materials@,
                    *cam,
                    *scene,
                    j,
                    i as nat,
                    row_start,
                ).1,
            decreases width - i,
        {
            let px = render_pixel(scene, world, materials, cam, i, j, &mut rng);
            data.push(px.0);
            data.push(px.1);
            data.push(px.2);
            i = i + 1;
        }
        k = k + 1;
        proof {
            assert(j == scene.image_height - k);
            assert(rows_prefix_spec(world.hittables@, materials@, *cam, *scene, k as nat, start).0
                == data_before + row_prefix_spec(
                world.hittables@,
                materials@,
                *cam,
                *scene,
                j,
                width as nat,
                row_start,
            ).0);
        }
    }
    proof {
        lemma_rows_prefix_len(world.hittables@, materials@, *cam, *scene, height as nat, start);
        assert((height as nat) * (3 * width as nat) == (height as int) * (3 * width as int))
            by (nonlinear_arith);
    }
    Ok(data)
}

/// The decimal digits of a number, as bytes of text.
pub open spec fn dec_spec(n: int) -> Seq<u8>
    decreases n,
{
    if n < 10 {
        seq![(48 + n) as u8]
    } else {
        dec_spec(n / 10).push((48 + n % 10) as u8)
    }
}

/// Appends a number's decimal digits.
fn push_decimal(out: &mut Vec<u8>, n: u32)
    ensures
        final(out)@ == old(out)@ + dec_spec(n as int),
    decreases n,
{
    if n < 10 {
        out.push(48 + (n as u8));
        proof {
            assert(final(out)@ =~= old(out)@ + dec_spec(n as int));
        }
    } else {
        push_decimal(out, n / 10);
        out.push(48 + ((n % 10) as u8));
        proof {
            assert(final(out)@ =~= old(out)@ + dec_spec(n as int));
        }
    }
}

/// The text header of a plain-text image stream: the magic `P3`, the
/// width and height, and the largest channel level, each line-separated.
pub open spec fn ppm_header_spec(width: u32, height: u32, dyn_range: u32) -> Seq<u8> {
    seq![80u8, 51u8, 10u8] + dec_spec(width as int) + seq![32u8] + dec_spec(height as int)
        + seq![10u8] + dec_spec(dyn_range - 1) + seq![10u8]
}

/// One text line for three channel levels, comma-separated.
pub open spec fn ppm_triple_spec(c0: u8, c1: u8, c2: u8) -> Seq<u8> {
    dec_spec(c0 as int) + seq![44u8, 32u8] + dec_spec(c1 as int) + seq![44u8, 32u8] + dec_spec(
        c2 as int,
    ) + seq![10u8]
}

/// One pixel's text line: the three channel levels, comma-separated.
pub open spec fn ppm_line_spec(data: Seq<u8>, p: int) -> Seq<u8> {
    ppm_triple_spec(data[3 * p], data[3 * p + 1], data[3 * p + 2])
}

/// Appends one pixel's text line.
fn push_line(out: &mut Vec<u8>, c0: u8, c1: u8, c2: u8)
    ensures
        final(out)@ == old(out)@ + ppm_triple_spec(c0, c1, c2),
{
    push_decimal(out, c0 as u32);
    out.push(44);
    out.push(32);
    push_decimal(out, c1 as u32);
    out.push(44);
    out.push(32);
    push_decimal(out, c2 as u32);
    out.push(10);
    proof {
        assert(final(out)@ =~= old(out)@ + ppm_triple_spec(c0, c1, c2));
    }
}

/// The text lines of the first `t` pixels.
pub open spec fn ppm_lines_spec(data: Seq<u8>, t: nat) -> Seq<u8>
    decreases t,
{
    if t == 0 {
        Seq::empty()
    } else {
        ppm_lines_spec(data, (t - 1) as nat) + ppm_line_spec(data, t - 1)
    }
}

/// The whole plain-text image stream for a pixel buffer.
pub open spec fn ppm_spec(data: Seq<u8>, width: u32, height: u32, dyn_range: u32) -> Seq<u8> {
    ppm_header_spec(width, height, dyn_range) + ppm_lines_spec(data, data.len() / 3)
}

/// Formats a pixel buffer as a plain-text image stream.
pub(crate) fn ppm_from_pixels(data: &Vec<u8>, width: u32, height: u32, dyn_range: u32) -> (out: Vec<u8>)
    requires
        dyn_range >= 1,
    ensures
        out@ == ppm_spec(data@, width, height, dyn_range),
{
    let mut out: Vec<u8> = Vec::new();
    out.push(80);
    out.push(51);
    out.push(10);
    push_decimal(&mut out, width);
    out.push(32);
    push_decimal(&mut out, height);
    out.push(10);
    push_decimal(&mut out, dyn_range - 1);
    out.push(10);
    proof {
        assert(out@ =~= ppm_header_spec(width, height, dyn_range));
        assert(out@ =~= ppm_header_spec(width, height, dyn_range) + ppm_lines_spec(data@, 0));
    }
    let n_px = data.len() / 3;
    proof {
        assert(3 * (n_px as int) <= data@.len()) by (nonlinear_arith)
            requires
                n_px as int == data@.len() / 3,
                data@.len() >= 0,
        ;
    }
    let mut p: usize = 0;
    while p < n_px
        invariant
            p <= n_px,
            n_px == data@.len() / 3,
            3 * (n_px as int) <= data@.len(),
            data@.len() <= usize::MAX,
            out@ == ppm_header_spec(width, height, dyn_range) + ppm_lines_spec(data@, p as nat),
        decreases n_px - p,
    {
        let ghost before: Seq<u8> = out@;
        let base: usize = 3 * p;
        let c0 = data[base];
        let c1 = data[base + 1];
        let c2 = data[base + 2];
        push_line(&mut out, c0, c1, c2);
        proof {
            assert(out@ == before + ppm_line_spec(data@, p as int));
            assert(ppm_lines_spec(data@, (p + 1) as nat) == ppm_lines_spec(data@, p as nat)
                + ppm_line_spec(data@, p as int));
            assert(out@ =~= ppm_header_spec(width, height, dyn_range) + ppm_lines_spec(
                data@,
                (p + 1) as nat,
            ));
        }
        p = p + 1;
    }
    out
}

/// The error type of the image encoder.
#[verifier::external_type_specification]
#[verifier::external_body]
pub struct ExEncodingError(png::EncodingError);

/// The byte stream the image encoder produces for the given dimensions
/// and row-major pixel bytes.
pub uninterp spec fn png_encoding(width: int, height: int, rgb: Seq<u8>) -> Seq<u8>;

/// Relies on png::Encoder with eight-bit RGB color and default options:
/// the encoded stream it writes is a deterministic function of the
/// dimensions and the pixel bytes alone, and for a nonzero image with an
/// exactly sized buffer, written into an in-memory sink whose writes
/// cannot fail, every path through write_header, write_image_data and
/// finish returns it successfully.
#[verifier::external_body]
fn png_encode(width: u32, height: u32, rgb: &Vec<u8>) -> (r: Result<Vec<u8>, png::EncodingError>)
    requires
        width >= 1,
        height >= 1,
        rgb@.len() == 3 * width * height,
    ensures
        r is Ok,
        r matches Ok(bytes) ==> bytes@ == png_encoding(width as int, height as int, rgb@),
{
    let mut out: Vec<u8> = Vec::new();
    let mut encoder = png::Encoder::new(&mut out, width, height);
    encoder.set_color(png::ColorType::Rgb);
    encoder.set_depth(png::BitDepth::Eight);
    let mut writer = match encoder.write_header() {
        Ok(w) => w,
        Err(e) => return Err(e),
    };
    if let Err(e) = writer.write_image_data(rgb) {
        return Err(e);
    }
    if let Err(e) = writer.finish() {
        return Err(e);
    }
    Ok(out)
}

/// Renders the scene and encodes the pixel buffer as a compressed image
/// stream. Succeeds if and only if the configuration is valid: a bad
/// configuration fails fast with its first error, and a valid one always
/// encodes; the bytes are a function of the scene, the world, the camera
/// and the seed.
pub fn render_image_png(
    scene: &SceneConfig,
    world: &HittableList,
    materials: &Vec<Material>,
    cam: &Camera,
    seed: u64,
) -> (res: Result<Vec<u8>, RenderError>)
    ensures
        res is Ok <==> config_valid_spec(*scene),
        res matches Ok(bytes) ==> bytes@ == png_encoding(
            scene.image_width as int,
            scene.image_height as int,
            render_pixels_spec(world.hittables@, materials@, *cam, *scene, seed),
        ),
        res matches Err(e) ==> e == config_error_spec(*scene),
{
    let data = match render_image(scene, world, materials, cam, seed) {
        Ok(d) => d,
        Err(e) => return Err(e),
    };
    proof {
        assert((scene.image_height as int) * (3 * scene.image_width as int) == 3 * (
        scene.image_width as int) * (scene.image_height as int)) by (nonlinear_arith);
    }
    Ok(png_encode(scene.image_width, scene.image_height, &data).unwrap())
}

/// Renders the scene and formats the pixel buffer as the plain-text
/// image stream the caller prints to standard output. Succeeds if and
/// only if the configuration is valid; the bytes are a function of the
/// scene, the world, the camera and the seed.
pub fn render_image_ppmstdout(
    scene: &SceneConfig,
    world: &HittableList,
    materials: &Vec<Material>,
    cam: &Camera,
    seed: u64,
) -> (res: Result<Vec<u8>, RenderError>)
    ensures
        res is Ok <==> config_valid_spec(*scene),
        res matches Ok(bytes) ==> bytes@ == ppm_spec(
            render_pixels_spec(world.hittables@, materials@, *cam, *scene, seed),
            scene.image_width,
            scene.image_height,
            scene.dyn_range,
        ),
        res matches Err(e) ==> e == config_error_spec(*scene),
{
    let data = match render_image(scene, world, materials, cam, seed) {
        Ok(d) => d,
        Err(e) => return Err(e),
    };
    Ok(ppm_from_pixels(&data, scene.image_width, scene.image_height, scene.dyn_range))
}

} // verus!
