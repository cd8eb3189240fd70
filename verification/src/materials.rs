//! The material capability: three surface behaviors that turn an
//! incoming ray and a hit into an attenuation and a scattered ray.

use crate::colors::{col, Color};
use crate::primitives::HitRecord;
use crate::rays::Ray;
use crate::rng::{rng_step, rng_unit_spec, Rng};
use crate::scalars::{
    fx_add_spec, fx_clip, fx_div_spec, fx_mul_spec, fx_neg_spec, fx_sqrt_spec, fx_sub_spec,
    lemma_fx_div_nonneg, lemma_fx_div_one, lemma_fx_mul_neg_right, lemma_fx_mul_one,
    lemma_fx_mul_zero, lemma_isqrt_square, mag, Fx, FX_SCALE,
};
use crate::util::{rand_in_unit_sphere, rand_in_unit_sphere_spec, rand_lamb_spec, rand_lamb_vector};
use crate::vectors::{
    lemma_unit_dot_bounds, lemma_unit_of_neg_unit, lemma_v3_dot_neg_left, v3_add_spec, v3_dot_spec,
    v3_length_sq_spec, v3_near_zero_spec, v3_neg_spec, v3_reflect_spec, v3_refract_spec,
    v3_scale_spec, v3_unit_spec,
};
use vstd::prelude::*;

verus! {

/// A surface behavior. Every variant always scatters: no variant signals
/// absorption by failure.
#[derive(Clone, Copy, PartialEq, Eq, Structural, Debug)]
pub enum Material {
    /// A matte surface: Lambertian scatter around the normal.
    Diffuse { albedo: Color },
    /// A mirror, perturbed by `fuzz` times a random point in the unit
    /// ball; `fuzz` zero is a perfect mirror.
    Metal { albedo: Color, fuzz: Fx },
    /// A clear surface that refracts where Snell's law allows and
    /// reflects otherwise, choosing stochastically by Schlick's
    /// reflectance approximation.
    Dielectric { albedo: Color, index_of_refraction: Fx },
}

/// The default material: a half-gray matte surface.
pub open spec fn default_material_spec() -> Material {
    Material::Diffuse {
        albedo: col(
            fx_div_spec(fx_clip(1 * FX_SCALE), fx_clip(2 * FX_SCALE)),
            fx_div_spec(fx_clip(1 * FX_SCALE), fx_clip(2 * FX_SCALE)),
            fx_div_spec(fx_clip(1 * FX_SCALE), fx_clip(2 * FX_SCALE)),
        ),
    }
}

/// Raw value of Schlick's reflectance approximation.
pub open spec fn reflectance_spec(cosine: int, ref_idx: int) -> int {
    let r0 = fx_div_spec(
        fx_sub_spec(FX_SCALE as int, ref_idx),
        fx_add_spec(FX_SCALE as int, ref_idx),
    );
    let r0r0 = fx_mul_spec(r0, r0);
    let omc = fx_sub_spec(FX_SCALE as int, cosine);
    let omc5 = fx_mul_spec(fx_mul_spec(fx_mul_spec(fx_mul_spec(omc, omc), omc), omc), omc);
    fx_add_spec(r0r0, fx_mul_spec(fx_sub_spec(FX_SCALE as int, r0r0), omc5))
}

/// What `scatter` returns for the given material, ray, hit and generator
/// state, with the state after.
pub open spec fn scatter_spec(m: Material, r: Ray, rec: HitRecord, s: u64) -> ((Color, Ray), u64) {
    match m {
        Material::Diffuse { albedo } => {
            let (lamb, s1) = rand_lamb_spec(s, rec.normal);
            let dir = if v3_near_zero_spec(lamb) {
                rec.normal
            } else {
                lamb
            };
            ((albedo, Ray { origin: rec.p, direction: dir }), s1)
        },
        Material::Metal { albedo, fuzz } => {
            let reflected = v3_reflect_spec(v3_unit_spec(r.direction), rec.normal);
            let (p, s1) = rand_in_unit_sphere_spec(s);
            (
                (
                    albedo,
                    Ray { origin: rec.p, direction: v3_add_spec(reflected, v3_scale_spec(p, fuzz@)) },
                ),
                s1,
            )
        },
        Material::Dielectric { albedo, index_of_refraction } => {
            let refraction_ratio = if rec.front_face {
                fx_div_spec(FX_SCALE as int, index_of_refraction@)
            } else {
                index_of_refraction@
            };
            let unit_direction = v3_unit_spec(r.direction);
            let d = v3_dot_spec(v3_neg_spec(unit_direction), rec.normal);
            let cos_theta = if d <= FX_SCALE as int {
                d
            } else {
                FX_SCALE as int
            };
            let sin_theta = fx_sqrt_spec(
                fx_sub_spec(FX_SCALE as int, fx_mul_spec(cos_theta, cos_theta)),
            );
            let cannot_refract = fx_mul_spec(refraction_ratio, sin_theta) > FX_SCALE as int;
            if cannot_refract {
                (
                    (
                        albedo,
                        Ray {
                            origin: rec.p,
                            direction: v3_reflect_spec(unit_direction, rec.normal),
                        },
                    ),
                    s,
                )
            } else if reflectance_spec(cos_theta, refraction_ratio) > rng_unit_spec(s) {
                (
                    (
                        albedo,
                        Ray {
                            origin: rec.p,
                            direction: v3_reflect_spec(unit_direction, rec.normal),
                        },
                    ),
                    rng_step(s),
                )
            } else {
                (
                    (
                        albedo,
                        Ray {
                            origin: rec.p,
                            direction: v3_refract_spec(unit_direction, rec.normal, refraction_ratio),
                        },
                    ),
                    rng_step(s),
                )
            }
        },
    }
}

/// The mirror law: a perfect mirror (`fuzz` zero) hit head-on along a
/// unit surface normal scatters the ray straight back, exactly: the
/// scattered direction is the negation of the incoming unit direction,
/// and the attenuation is the albedo.
pub proof fn lemma_metal_mirror_head_on(
    albedo: Color,
    fuzz: Fx,
    r: Ray,
    rec: HitRecord,
    s: u64,
)
    requires
        fuzz@ == 0,
        v3_dot_spec(rec.normal, rec.normal) == FX_SCALE as int,
        v3_unit_spec(r.direction) == v3_neg_spec(rec.normal),
    ensures
        scatter_spec(Material::Metal { albedo, fuzz }, r, rec, s).0.0 == albedo,
        scatter_spec(Material::Metal { albedo, fuzz }, r, rec, s).0.1.direction == rec.normal,
        scatter_spec(Material::Metal { albedo, fuzz }, r, rec, s).0.1.direction == v3_neg_spec(
            v3_unit_spec(r.direction),
        ),
{
    let n = rec.normal;
    lemma_unit_dot_bounds(n);
    let u = v3_unit_spec(r.direction);
    assert(u.x@ == -n.x@ && u.y@ == -n.y@ && u.z@ == -n.z@);
    lemma_v3_dot_neg_left(n, n);
    assert(v3_dot_spec(u, n) == -(FX_SCALE as int));
    lemma_fx_mul_neg_right(2 * FX_SCALE, FX_SCALE as int);
    lemma_fx_mul_one(2 * FX_SCALE);
    assert(fx_mul_spec(2 * FX_SCALE, -(FX_SCALE as int)) == -(2 * FX_SCALE));
    let scaled = v3_scale_spec(n, -(2 * FX_SCALE));
    lemma_fx_double(n.x@);
    lemma_fx_double(n.y@);
    lemma_fx_double(n.z@);
    lemma_fx_mul_neg_right(n.x@, 2 * FX_SCALE);
    lemma_fx_mul_neg_right(n.y@, 2 * FX_SCALE);
    lemma_fx_mul_neg_right(n.z@, 2 * FX_SCALE);
    assert(scaled.x@ == -2 * n.x@ && scaled.y@ == -2 * n.y@ && scaled.z@ == -2 * n.z@);
    let reflected = v3_reflect_spec(u, n);
    assert(reflected.x@ == n.x@ && reflected.y@ == n.y@ && reflected.z@ == n.z@);
    assert(reflected == n);
    let p = rand_in_unit_sphere_spec(s).0;
    lemma_fx_mul_zero(p.x@);
    lemma_fx_mul_zero(p.y@);
    lemma_fx_mul_zero(p.z@);
    let out = v3_add_spec(reflected, v3_scale_spec(p, fuzz@));
    assert(out == n);
    assert(v3_neg_spec(u) == n);
}

/// Scaling a value in range by two is exact.
proof fn lemma_fx_double(x: int)
    requires
        mag(x) <= FX_SCALE as int,
    ensures
        fx_mul_spec(x, 2 * FX_SCALE) == 2 * x,
{
    assert(mag(x) * (2 * FX_SCALE) / (FX_SCALE as int) == 2 * mag(x)) by (nonlinear_arith)
        requires
            mag(x) >= 0,
            FX_SCALE > 0,
    ;
}

/// The no-op dielectric law: at a refraction index of exactly one, a ray
/// that meets the surface head-on along a unit normal passes through
/// with its direction unchanged, entering (front face) and leaving (back
/// face) alike; the attenuation is the albedo.
pub proof fn lemma_dielectric_identity_head_on(
    albedo: Color,
    ior: Fx,
    r: Ray,
    rec: HitRecord,
    s: u64,
)
    requires
        ior@ == FX_SCALE as int,
        v3_dot_spec(rec.normal, rec.normal) == FX_SCALE as int,
        v3_unit_spec(r.direction) == v3_neg_spec(rec.normal),
    ensures
        scatter_spec(
            Material::Dielectric { albedo, index_of_refraction: ior },
            r,
            rec,
            s,
        ).0.0 == albedo,
        scatter_spec(
            Material::Dielectric { albedo, index_of_refraction: ior },
            r,
            rec,
            s,
        ).0.1.direction == v3_unit_spec(r.direction),
{
    let n = rec.normal;
    lemma_unit_dot_bounds(n);
    let u = v3_unit_spec(r.direction);
    assert(u.x@ == -n.x@ && u.y@ == -n.y@ && u.z@ == -n.z@);

    let ratio = if rec.front_face {
        fx_div_spec(FX_SCALE as int, ior@)
    } else {
        ior@
    };
    lemma_fx_div_one(FX_SCALE as int);
    assert(ratio == FX_SCALE as int);

    assert(v3_neg_spec(u) == n);
    assert(v3_dot_spec(v3_neg_spec(u), n) == FX_SCALE as int);
    let cos_theta: int = FX_SCALE as int;
    lemma_fx_mul_one(FX_SCALE as int);
    assert(fx_mul_spec(cos_theta, cos_theta) == FX_SCALE as int);
    assert(fx_sub_spec(FX_SCALE as int, FX_SCALE as int) == 0);
    assert(fx_sqrt_spec(0) == 0);
    lemma_fx_mul_zero(ratio);
    assert(!(fx_mul_spec(ratio, 0) > FX_SCALE as int));

    assert(reflectance_spec(cos_theta, ratio) == 0) by {
        assert(fx_sub_spec(FX_SCALE as int, ratio) == 0);
        lemma_fx_div_nonneg(0, fx_add_spec(FX_SCALE as int, ratio));
        assert(0 * (FX_SCALE as int) == 0) by (nonlinear_arith);
        assert(fx_div_spec(0, fx_add_spec(FX_SCALE as int, ratio)) == 0);
        lemma_fx_mul_zero(0);
        lemma_fx_mul_zero(fx_mul_spec(fx_mul_spec(fx_mul_spec(0, 0), 0), 0));
        lemma_fx_mul_zero(fx_sub_spec(FX_SCALE as int, 0));
    }
    assert(rng_unit_spec(s) >= 0);
    assert(!(reflectance_spec(cos_theta, ratio) > rng_unit_spec(s)));

    let refracted = v3_refract_spec(u, n, ratio);
    assert(refracted == u) by {
        lemma_fx_mul_one(n.x@);
        lemma_fx_mul_one(n.y@);
        lemma_fx_mul_one(n.z@);
        let scaled_n = v3_scale_spec(n, cos_theta);
        assert(scaled_n.x@ == n.x@ && scaled_n.y@ == n.y@ && scaled_n.z@ == n.z@);
        let summed = v3_add_spec(u, scaled_n);
        assert(summed.x@ == 0 && summed.y@ == 0 && summed.z@ == 0);
        lemma_fx_mul_zero(ratio);
        let r_out_perp = v3_scale_spec(summed, ratio);
        assert(r_out_perp.x@ == 0 && r_out_perp.y@ == 0 && r_out_perp.z@ == 0);
        lemma_fx_mul_zero(0);
        assert(v3_length_sq_spec(r_out_perp) == 0);
        assert(fx_sub_spec(FX_SCALE as int, 0) == FX_SCALE as int);
        assert(fx_clip(mag(FX_SCALE as int)) == FX_SCALE as int);
        assert(fx_sqrt_spec(FX_SCALE as int) == FX_SCALE as int) by {
            lemma_isqrt_square(FX_SCALE as nat);
            assert((FX_SCALE as int) * FX_SCALE == (FX_SCALE as nat) * (FX_SCALE as nat));
        }
        assert(fx_neg_spec(FX_SCALE as int) == -(FX_SCALE as int));
        lemma_fx_mul_neg_right(n.x@, FX_SCALE as int);
        lemma_fx_mul_neg_right(n.y@, FX_SCALE as int);
        lemma_fx_mul_neg_right(n.z@, FX_SCALE as int);
        let r_out_parallel = v3_scale_spec(n, -(FX_SCALE as int));
        assert(r_out_parallel.x@ == -n.x@ && r_out_parallel.y@ == -n.y@ && r_out_parallel.z@
            == -n.z@);
        let out = v3_add_spec(r_out_perp, r_out_parallel);
        assert(out.x@ == u.x@ && out.y@ == u.y@ && out.z@ == u.z@);
        assert(out =~= u);
    }
}

/// The no-op dielectric round trip: at a refraction index of exactly
/// one, a ray that enters head-on along a unit normal and leaves through
/// the far side exits with its direction unchanged. The entering scatter
/// keeps the unit incoming direction, and the leaving scatter, at the
/// far hit whose oriented normal again opposes the ray and so equals the
/// entry normal, keeps it once more.
pub proof fn lemma_dielectric_round_trip_head_on(
    albedo: Color,
    ior: Fx,
    r: Ray,
    rec_in: HitRecord,
    rec_out: HitRecord,
    s: u64,
    s2: u64,
)
    requires
        ior@ == FX_SCALE as int,
        v3_dot_spec(rec_in.normal, rec_in.normal) == FX_SCALE as int,
        v3_unit_spec(r.direction) == v3_neg_spec(rec_in.normal),
        rec_out.normal == rec_in.normal,
    ensures
        ({
            let m = Material::Dielectric { albedo, index_of_refraction: ior };
            let entered = scatter_spec(m, r, rec_in, s).0.1;
            let left = scatter_spec(m, entered, rec_out, s2).0.1;
            entered.direction == v3_unit_spec(r.direction) && left.direction == v3_unit_spec(
                r.direction,
            )
        }),
{
    let m = Material::Dielectric { albedo, index_of_refraction: ior };
    lemma_dielectric_identity_head_on(albedo, ior, r, rec_in, s);
    let entered = scatter_spec(m, r, rec_in, s).0.1;
    assert(entered.direction == v3_neg_spec(rec_in.normal));
    lemma_unit_of_neg_unit(rec_in.normal);
    assert(v3_unit_spec(entered.direction) == v3_neg_spec(rec_out.normal));
    lemma_dielectric_identity_head_on(albedo, ior, entered, rec_out, s2);
}

impl Material {
    /// A matte material with the given albedo.
    pub fn new(albedo: Color) -> (m: Material)
        ensures
            m == (Material::Diffuse { albedo }),
    {
        Material::Diffuse { albedo }
    }

    /// The attenuation and scattered ray this material produces for an
    /// incoming ray at a hit, drawing what randomness it needs from the
    /// generator.
    pub fn scatter(&self, r: &Ray, rec: &HitRecord, rng: &mut Rng) -> (out: (Color, Ray))
        ensures
            out == scatter_spec(*self, *r, *rec, old(rng).state).0,
            final(rng).state == scatter_spec(*self, *r, *rec, old(rng).state).1,
    {
        match self {
            Material::Diffuse { albedo } => {
                let mut scatter_dir = rand_lamb_vector(rng, rec);
                if scatter_dir.near_zero() {
                    scatter_dir = rec.normal;
                }
                let scattered = Ray { origin: rec.p, direction: scatter_dir };
                (*albedo, scattered)
            },
            Material::Metal { albedo, fuzz } => {
                let reflected = r.direction.unit_vector().reflect(rec.normal);
                let perturbed = reflected.add(rand_in_unit_sphere(rng).scale(*fuzz));
                let scattered = Ray { origin: rec.p, direction: perturbed };
                (*albedo, scattered)
            },
            Material::Dielectric { albedo, index_of_refraction } => {
                let refraction_ratio = if rec.front_face {
                    Fx::one().div(*index_of_refraction)
                } else {
                    *index_of_refraction
                };
                let unit_direction = r.direction.unit_vector();
                let cos_theta = unit_direction.neg().dot(rec.normal).min(Fx::one());
                let sin_theta = Fx::one().sub(cos_theta.mul(cos_theta)).sqrt();
                let cannot_refract = refraction_ratio.mul(sin_theta).gt(Fx::one());
                let must_reflect = if cannot_refract {
                    true
                } else {
                    Material::reflectance(cos_theta, refraction_ratio).gt(rng.next_unit())
                };
                if must_reflect {
                    let reflected = unit_direction.reflect(rec.normal);
                    let scattered = Ray { origin: rec.p, direction: reflected };
                    (*albedo, scattered)
                } else {
                    let refracted = unit_direction.refract(rec.normal, refraction_ratio);
                    let scattered = Ray { origin: rec.p, direction: refracted };
                    (*albedo, scattered)
                }
            },
        }
    }

    /// Schlick's approximation of the Fresnel reflectance for the given
    /// incidence cosine and refraction ratio.
    fn reflectance(cosine: Fx, ref_idx: Fx) -> (r: Fx)
        ensures
            r@ == reflectance_spec(cosine@, ref_idx@),
    {
        let r0 = Fx::one().sub(ref_idx).div(Fx::one().add(ref_idx));
        let r0r0 = r0.mul(r0);
        let omc = Fx::one().sub(cosine);
        let omc5 = omc.mul(omc).mul(omc).mul(omc).mul(omc);
        r0r0.add(Fx::one().sub(r0r0).mul(omc5))
    }
}

impl Default for Material {
    /// A half-gray matte material.
    fn default() -> (m: Material)
        ensures
            m == default_material_spec(),
    {
        let half = Fx::from_ratio(1, 2);
        Material::Diffuse { albedo: Color::new(half, half, half) }
    }
}

} // verus!
