//! Geometry, integrator, render loop and encoder behavior end to end.

use rustrays::cameras::Camera;
use rustrays::colors::Color;
use rustrays::materials::Material;
use rustrays::primitives::{Hittable, HittableList, Sphere};
use rustrays::rays::Ray;
use rustrays::render::{ray_color_bounce, render_image, render_image_png, render_image_ppmstdout, SceneConfig};
use rustrays::rng::Rng;
use rustrays::scalars::{Fx, FX_RAW_MAX, FX_SCALE};
use rustrays::util;
use rustrays::RenderError;

fn fxi(v: i64) -> Fx {
    Fx::from_int(v)
}

fn v3i(x: i64, y: i64, z: i64) -> rustrays::vectors::Vector3 {
    rustrays::vectors::Vector3::new(fxi(x), fxi(y), fxi(z))
}

fn sphere(x: i64, y: i64, z: i64, radius: Fx, material: usize) -> Sphere {
    Sphere { center: v3i(x, y, z), radius, material }
}

#[test]
fn ray_at_walks_the_parametric_line() {
    let r = Ray::new(v3i(1, 2, 3), v3i(0, 0, -1));
    let p = r.at(fxi(2));
    assert_eq!((p.x.raw(), p.y.raw(), p.z.raw()), (FX_SCALE, 2 * FX_SCALE, FX_SCALE));
}

#[test]
fn sphere_hit_reports_the_near_root() {
    // a unit sphere three units down the axis: the near root is at two
    let s = sphere(0, 0, -3, fxi(1), 0);
    let r = Ray::new(v3i(0, 0, 0), v3i(0, 0, -1));
    let rec = s.hit(&r, Fx::from_ratio(1, 1000), Fx::from_raw(FX_RAW_MAX)).unwrap();
    assert_eq!(rec.t.raw(), 2 * FX_SCALE);
    assert!(rec.front_face);
    // the stored normal opposes the incoming ray
    assert_eq!((rec.normal.x.raw(), rec.normal.y.raw(), rec.normal.z.raw()), (0, 0, FX_SCALE));
    // from inside the window's far side only the far root is left
    let far = s.hit(&r, fxi(3), Fx::from_raw(FX_RAW_MAX)).unwrap();
    assert_eq!(far.t.raw(), 4 * FX_SCALE);
}

#[test]
fn sphere_miss_when_pointing_away() {
    let s = sphere(0, 0, -3, fxi(1), 0);
    let r = Ray::new(v3i(0, 0, 0), v3i(0, 0, 1));
    assert!(s.hit(&r, Fx::from_ratio(1, 1000), Fx::from_raw(FX_RAW_MAX)).is_none());
    // and a ray displaced past the silhouette misses too
    let r2 = Ray::new(v3i(0, 5, 0), v3i(0, 0, -1));
    assert!(s.hit(&r2, Fx::from_ratio(1, 1000), Fx::from_raw(FX_RAW_MAX)).is_none());
}

#[test]
fn negative_radius_flips_the_normal_inward() {
    let s = sphere(0, 0, -3, fxi(-1), 0);
    let r = Ray::new(v3i(0, 0, 0), v3i(0, 0, -1));
    let rec = s.hit(&r, Fx::from_ratio(1, 1000), Fx::from_raw(FX_RAW_MAX)).unwrap();
    // the outward normal points into the sphere, and front_face reflects it
    assert!(!rec.front_face);
}

#[test]
fn list_hit_picks_the_nearer_sphere() {
    let near = sphere(0, 0, -3, fxi(1), 0);
    let far = sphere(0, 0, -6, fxi(1), 1);
    let r = Ray::new(v3i(0, 0, 0), v3i(0, 0, -1));
    let t_min = Fx::from_ratio(1, 1000);
    let t_max = Fx::from_raw(FX_RAW_MAX);

    let mut world = HittableList::new();
    world.add(near);
    world.add(far);
    let rec = world.hit(&r, t_min, t_max).unwrap();
    assert_eq!(rec.t.raw(), 2 * FX_SCALE);
    assert_eq!(rec.material, 0);

    // scan order does not change the nearest hit
    let mut reversed = HittableList::new();
    reversed.add(far);
    reversed.add(near);
    let rec2 = reversed.hit(&r, t_min, t_max).unwrap();
    assert_eq!(rec2.t.raw(), rec.t.raw());
    assert_eq!(rec2.material, 0);

    reversed.clear();
    assert!(reversed.hit(&r, t_min, t_max).is_none());
}

fn single_gray_sphere() -> (HittableList, Vec<Material>) {
    let mut world = HittableList::new();
    world.add(sphere(0, 0, -1, Fx::from_ratio(1, 2), 0));
    let materials = vec![Material::Diffuse {
        albedo: Color::new(Fx::from_ratio(1, 2), Fx::from_ratio(1, 2), Fx::from_ratio(1, 2)),
    }];
    (world, materials)
}

#[test]
fn integrator_returns_background_formula_on_miss() {
    let (world, materials) = single_gray_sphere();
    // straight up: the unit direction's height is one, so the blend is all sky
    let up = Ray::new(v3i(0, 0, 0), v3i(0, 1, 0));
    let mut rng = Rng::new(1);
    let c = ray_color_bounce(&up, &world, &materials, 1, &mut rng);
    assert_eq!(c.r.raw(), FX_SCALE / 2);
    assert_eq!(c.g.raw(), 7 * FX_SCALE / 10);
    assert_eq!(c.b.raw(), FX_SCALE);
    assert_eq!(c, util::ray_color_bg(&up));
    // any depth gives the same background on a miss
    let mut rng2 = Rng::new(9);
    assert_eq!(c, ray_color_bounce(&up, &world, &materials, 50, &mut rng2));
}

#[test]
fn integrator_returns_black_for_a_hit_at_depth_one() {
    let (world, materials) = single_gray_sphere();
    // straight down the camera's center axis, into the sphere
    let axis = Ray::new(v3i(0, 0, 0), v3i(0, 0, -1));
    let mut rng = Rng::new(1);
    let c = ray_color_bounce(&axis, &world, &materials, 1, &mut rng);
    assert_eq!((c.r.raw(), c.g.raw(), c.b.raw()), (0, 0, 0));
    // which is not the background color of any ray: backgrounds keep blue at one
    assert_ne!(c, util::ray_color_bg(&axis));
    // at depth zero the budget is spent before any geometry is consulted
    let mut rng2 = Rng::new(1);
    let spent = ray_color_bounce(&axis, &world, &materials, 0, &mut rng2);
    assert_eq!((spent.r.raw(), spent.g.raw(), spent.b.raw()), (0, 0, 0));
}

fn tiny_scene() -> SceneConfig {
    let mut scene = SceneConfig::new();
    scene.set_width(8);
    scene.samples_per_pixel = 2;
    scene.max_depth = 3;
    scene
}

fn tiny_camera() -> Camera {
    Camera::new(
        v3i(0, 0, 0),
        v3i(0, 0, -1),
        v3i(0, 1, 0),
        fxi(90),
        Fx::from_ratio(16, 9),
        Fx::zero(),
        fxi(1),
    )
    .unwrap()
}

#[test]
fn rendering_twice_gives_identical_buffers() {
    let (world, materials) = single_gray_sphere();
    let scene = tiny_scene();
    let cam = tiny_camera();
    let first = render_image(&scene, &world, &materials, &cam, 7).unwrap();
    let second = render_image(&scene, &world, &materials, &cam, 7).unwrap();
    assert_eq!(first, second);
    assert_eq!(first.len(), (scene.image_width * scene.image_height * 3) as usize);
    // a different seed jitters differently somewhere
    let third = render_image(&scene, &world, &materials, &cam, 8).unwrap();
    assert_eq!(third.len(), first.len());
}

#[test]
fn render_rejects_each_invalid_configuration() {
    let (world, materials) = single_gray_sphere();
    let cam = tiny_camera();
    let mut scene = tiny_scene();
    scene.image_width = 0;
    assert_eq!(render_image(&scene, &world, &materials, &cam, 1), Err(RenderError::InvalidWidth));
    let mut scene = tiny_scene();
    scene.set_width(1);
    assert_eq!(scene.image_height, 0);
    assert_eq!(render_image(&scene, &world, &materials, &cam, 1), Err(RenderError::InvalidHeight));
    let mut scene = tiny_scene();
    scene.samples_per_pixel = 0;
    assert_eq!(render_image(&scene, &world, &materials, &cam, 1), Err(RenderError::InvalidSamples));
    let mut scene = tiny_scene();
    scene.max_depth = 0;
    assert_eq!(render_image(&scene, &world, &materials, &cam, 1), Err(RenderError::InvalidDepth));
    let mut scene = tiny_scene();
    scene.dyn_range = 1;
    assert_eq!(
        render_image(&scene, &world, &materials, &cam, 1),
        Err(RenderError::InvalidDynRange),
    );
    let mut scene = tiny_scene();
    scene.dyn_range = 512;
    assert_eq!(
        render_image(&scene, &world, &materials, &cam, 1),
        Err(RenderError::InvalidDynRange),
    );
}

#[test]
fn camera_rejects_each_invalid_parameter() {
    let lookfrom = v3i(0, 0, 0);
    let lookat = v3i(0, 0, -1);
    let vup = v3i(0, 1, 0);
    let aspect = Fx::from_ratio(16, 9);
    let err = |r: Result<Camera, RenderError>| r.err().unwrap();
    assert_eq!(
        err(Camera::new(lookfrom, lookat, vup, fxi(0), aspect, Fx::zero(), fxi(1))),
        RenderError::InvalidFieldOfView,
    );
    assert_eq!(
        err(Camera::new(lookfrom, lookat, vup, fxi(180), aspect, Fx::zero(), fxi(1))),
        RenderError::InvalidFieldOfView,
    );
    assert_eq!(
        err(Camera::new(lookfrom, lookat, vup, fxi(90), Fx::zero(), Fx::zero(), fxi(1))),
        RenderError::InvalidAspectRatio,
    );
    assert_eq!(
        err(Camera::new(lookfrom, lookat, vup, fxi(90), aspect, fxi(-1), fxi(1))),
        RenderError::InvalidAperture,
    );
    assert_eq!(
        err(Camera::new(lookfrom, lookat, vup, fxi(90), aspect, Fx::zero(), Fx::zero())),
        RenderError::InvalidFocusDistance,
    );
    // a field of view so small it rounds to an empty viewport
    assert_eq!(
        err(Camera::new(lookfrom, lookat, vup, Fx::from_raw(1), aspect, Fx::zero(), fxi(1))),
        RenderError::DegenerateViewport,
    );
    // looking at the eye point leaves no gaze direction
    assert_eq!(
        err(Camera::new(lookfrom, lookfrom, vup, fxi(90), aspect, Fx::zero(), fxi(1))),
        RenderError::DegenerateOrientation,
    );
    // an up vector along the gaze spans no frame
    assert_eq!(
        err(Camera::new(lookfrom, lookat, v3i(0, 0, 1), fxi(90), aspect, Fx::zero(), fxi(1))),
        RenderError::DegenerateOrientation,
    );
}

#[test]
fn camera_rays_pass_through_the_focus_plane() {
    let cam = tiny_camera();
    let mut rng = Rng::new(3);
    // with a zero aperture the origin never moves
    let r = cam.get_ray(Fx::from_ratio(1, 2), Fx::from_ratio(1, 2), &mut rng);
    assert_eq!((r.origin.x.raw(), r.origin.y.raw(), r.origin.z.raw()), (0, 0, 0));
    // the center ray points essentially down the gaze axis
    assert!(r.direction.x.raw().abs() < FX_SCALE / 1000);
    assert!(r.direction.y.raw().abs() < FX_SCALE / 1000);
    assert!(r.direction.z.raw() < 0);
}

#[test]
fn png_stream_is_a_real_encoding() {
    let (world, materials) = single_gray_sphere();
    let scene = tiny_scene();
    let cam = tiny_camera();
    let bytes = render_image_png(&scene, &world, &materials, &cam, 7).unwrap();
    // the image encoder's signature, not our pixel bytes
    assert_eq!(&bytes[0..8], &[137u8, 80, 78, 71, 13, 10, 26, 10]);
    let pixels = render_image(&scene, &world, &materials, &cam, 7).unwrap();
    assert_ne!(bytes, pixels);
    // a valid configuration always encodes; an invalid one fails fast
    let mut bad = scene;
    bad.samples_per_pixel = 0;
    assert_eq!(
        render_image_png(&bad, &world, &materials, &cam, 7),
        Err(RenderError::InvalidSamples),
    );
}

#[test]
fn ppm_stream_carries_header_and_levels() {
    let (world, materials) = single_gray_sphere();
    let scene = tiny_scene();
    let cam = tiny_camera();
    let bytes = render_image_ppmstdout(&scene, &world, &materials, &cam, 7).unwrap();
    let text = String::from_utf8(bytes).unwrap();
    assert!(text.starts_with("P3\n8 4\n255\n"));
    assert_eq!(text.lines().count(), 3 + (8 * 4));
}

#[test]
fn output_image() {
    util::output_color_gradient();
}

#[test]
fn output_blue_white_gradient() {
    util::output_blue_white_gradient();
}

#[test]
fn gradient_stream_has_expected_first_line() {
    let out = util::output_color_gradient();
    let text = String::from_utf8(out).unwrap();
    assert!(text.starts_with("P3\n256 256\n255\n0, 255, 63\n"));
}

#[test]
fn blue_white_gradient_stream_has_expected_header() {
    let out = util::output_blue_white_gradient();
    let text = String::from_utf8(out).unwrap();
    assert!(text.starts_with("P3\n400 225\n255\n"));
}
