//! Scalar, vector, color and material behavior on concrete values.

use rustrays::colors::Color;
use rustrays::materials::Material;
use rustrays::primitives::HitRecord;
use rustrays::rays::Ray;
use rustrays::rng::Rng;
use rustrays::scalars::{Fx, FX_PI, FX_RAW_MAX, FX_SCALE};
use rustrays::util;
use rustrays::vectors::{Length, Vector3};

fn fxi(v: i64) -> Fx {
    Fx::from_int(v)
}

fn v3i(x: i64, y: i64, z: i64) -> Vector3 {
    Vector3::new(fxi(x), fxi(y), fxi(z))
}

#[test]
fn scalar_ratios_and_saturation() {
    assert_eq!(Fx::from_ratio(1, 2).raw(), FX_SCALE / 2);
    assert_eq!(Fx::from_int(3).raw(), 3 * FX_SCALE);
    // saturating construction and arithmetic
    assert_eq!(Fx::from_int(3_000_000_000).raw(), FX_RAW_MAX);
    assert_eq!(Fx::from_int(-3_000_000_000).raw(), -FX_RAW_MAX);
    // division by zero yields zero by definition
    assert_eq!(fxi(5).div(Fx::zero()).raw(), 0);
    // square roots of perfect squares are exact
    assert_eq!(fxi(4).sqrt().raw(), 2 * FX_SCALE);
    assert_eq!(fxi(-4).sqrt().raw(), 0);
    // rounding is toward zero
    assert_eq!(fxi(-3).div(fxi(2)).raw(), -3 * FX_SCALE / 2);
}

#[test]
fn degrees_to_radians_of_half_turn_is_pi() {
    assert_eq!(util::degrees_to_radians(fxi(180)).raw(), FX_PI);
    assert_eq!(util::degrees_to_radians(fxi(90)).raw(), FX_PI / 2);
}

#[test]
fn tangent_of_quarter_turn_is_near_one() {
    let theta = util::degrees_to_radians(fxi(90));
    let h = theta.div(fxi(2)).tan();
    let err = (h.raw() - FX_SCALE).abs();
    assert!(err < 1_000, "tan(pi/4) off by {err} raw units");
}

#[test]
fn unit_vector_length_is_one_within_epsilon() {
    let samples = [
        v3i(3, 4, 0),
        v3i(1, 1, 1),
        v3i(-7, 2, 9),
        v3i(100, -55, 31),
        Vector3::new(Fx::from_ratio(3, 2), Fx::from_ratio(-7, 5), Fx::from_ratio(1, 3)),
    ];
    for v in samples {
        let len = v.unit_vector().length();
        let approx = len.raw() as f64 / FX_SCALE as f64;
        assert!((approx - 1.0).abs() < 1e-6, "unit length was {approx}");
        assert!((len.raw() - FX_SCALE).abs() <= 8);
    }
    // the zero vector stays zero: its normalization is defined as zero
    let zero = Vector3::zero().unit_vector();
    assert_eq!(zero.length().raw(), 0);
}

#[test]
fn reflect_about_axis_is_exact() {
    let v = v3i(0, 0, -1);
    let n = v3i(0, 0, 1);
    let r = v.reflect(n);
    assert_eq!((r.x.raw(), r.y.raw(), r.z.raw()), (0, 0, FX_SCALE));
    // a grazing component parallel to the surface is kept
    let v2 = v3i(1, 0, -1);
    let r2 = v2.reflect(n);
    assert_eq!((r2.x.raw(), r2.y.raw(), r2.z.raw()), (FX_SCALE, 0, FX_SCALE));
}

#[test]
fn near_zero_threshold() {
    assert!(Vector3::new(Fx::from_raw(42), Fx::from_raw(-42), Fx::zero()).near_zero());
    assert!(!Vector3::new(Fx::from_raw(43), Fx::zero(), Fx::zero()).near_zero());
}

#[test]
fn cross_product_of_axes() {
    let x = v3i(1, 0, 0);
    let y = v3i(0, 1, 0);
    let z = x.cross(y);
    assert_eq!((z.x.raw(), z.y.raw(), z.z.raw()), (0, 0, FX_SCALE));
}

#[test]
fn color_quantize_clamps_and_scales() {
    let c = Color::new(fxi(1), Fx::zero(), Fx::from_ratio(1, 2));
    assert_eq!(c.quantize(256), (255, 0, 127));
    // negative radiance clamps to zero, overshoot clamps to the top level
    let d = Color::new(fxi(-2), fxi(9), Fx::from_ratio(999, 1000));
    assert_eq!(d.quantize(256), (0, 255, 255));
}

#[test]
fn gamma_correct_takes_square_roots() {
    let mut c = Color::new(fxi(4), Fx::from_ratio(1, 4), Fx::zero());
    c.gamma_correct();
    assert_eq!(c.r.raw(), 2 * FX_SCALE);
    assert_eq!(c.g.raw(), FX_SCALE / 2);
    assert_eq!(c.b.raw(), 0);
}

#[test]
fn attenuation_never_amplifies() {
    // repeated application of a bounded albedo decreases radiance monotonically
    let albedo = Color::new(Fx::from_ratio(1, 2), Fx::from_ratio(9, 10), fxi(1));
    let mut radiance = Color::new(fxi(1), fxi(1), fxi(1));
    let mut prev = radiance;
    for _bounce in 0..8 {
        radiance = albedo.mul(radiance);
        assert!(radiance.r.raw() <= prev.r.raw());
        assert!(radiance.g.raw() <= prev.g.raw());
        assert!(radiance.b.raw() <= prev.b.raw());
        assert!(radiance.r.raw() >= 0 && radiance.g.raw() >= 0 && radiance.b.raw() >= 0);
        prev = radiance;
    }
    // the half-gray channel halves exactly each bounce
    assert_eq!(radiance.r.raw(), FX_SCALE / 256);
}

fn head_on_record() -> (Ray, HitRecord) {
    let r = Ray::new(v3i(0, 0, 0), v3i(0, 0, -2));
    let rec = HitRecord {
        p: v3i(0, 0, -1),
        normal: v3i(0, 0, 1),
        t: fxi(1),
        front_face: true,
        material: 0,
    };
    (r, rec)
}

#[test]
fn metal_mirror_reflects_head_on_exactly() {
    let (r, rec) = head_on_record();
    let mirror = Material::Metal { albedo: Color::new(fxi(1), fxi(1), fxi(1)), fuzz: Fx::zero() };
    let mut rng = Rng::new(11);
    let (attenuation, scattered) = mirror.scatter(&r, &rec, &mut rng);
    assert_eq!(attenuation.r.raw(), FX_SCALE);
    // the scattered direction is the exact negation of the unit incoming one
    assert_eq!(
        (scattered.direction.x.raw(), scattered.direction.y.raw(), scattered.direction.z.raw()),
        (0, 0, FX_SCALE),
    );
}

#[test]
fn dielectric_unit_index_passes_head_on_ray_through() {
    let (r, rec) = head_on_record();
    let glass = Material::Dielectric {
        albedo: Color::new(fxi(1), fxi(1), fxi(1)),
        index_of_refraction: fxi(1),
    };
    let mut rng = Rng::new(99);
    let (_, entering) = glass.scatter(&r, &rec, &mut rng);
    assert_eq!(
        (entering.direction.x.raw(), entering.direction.y.raw(), entering.direction.z.raw()),
        (0, 0, -FX_SCALE),
    );
    // and the same on the way out, through the back face
    let back = HitRecord { front_face: false, ..rec };
    let (_, leaving) = glass.scatter(&r, &back, &mut rng);
    assert_eq!(
        (leaving.direction.x.raw(), leaving.direction.y.raw(), leaving.direction.z.raw()),
        (0, 0, -FX_SCALE),
    );
}

#[test]
fn diffuse_scatter_stays_near_normal() {
    let (r, rec) = head_on_record();
    let matte: Material = Default::default();
    let mut rng = Rng::new(5);
    for _draw in 0..16 {
        let (attenuation, scattered) = matte.scatter(&r, &rec, &mut rng);
        assert_eq!(attenuation.r.raw(), FX_SCALE / 2);
        // a degenerate cancellation is replaced by the normal itself
        assert!(!scattered.direction.near_zero());
    }
}

#[test]
fn random_draws_stay_in_their_regions() {
    let mut rng = Rng::new(123);
    for _draw in 0..64 {
        let u = util::rand(&mut rng);
        assert!(0 <= u.raw() && u.raw() < FX_SCALE);
        let x = util::rand_range(&mut rng, fxi(-3), fxi(5));
        assert!(-3 * FX_SCALE <= x.raw() && x.raw() < 5 * FX_SCALE);
        let p = util::rand_in_unit_sphere(&mut rng);
        assert!(p.length_squared().raw() < FX_SCALE);
        let d = rustrays::cameras::random_in_unit_disk(&mut rng);
        assert!(d.length_squared().raw() < FX_SCALE);
        assert_eq!(d.z.raw(), 0);
    }
}

#[test]
fn generator_is_reproducible() {
    let mut a = Rng::new(42);
    let mut b = Rng::new(42);
    for _draw in 0..32 {
        assert_eq!(a.next_unit().raw(), b.next_unit().raw());
    }
    let mut c = Rng::new(0);
    let mut d = Rng::new(0);
    assert_eq!(c.next_unit().raw(), d.next_unit().raw());
}
