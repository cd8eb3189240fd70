//! The geometry layer: the hit capability, the sphere primitive, and the
//! composite list that reports the nearest hit.

use crate::rays::{ray_at_spec, Ray};
use crate::scalars::{
    fx_add_spec, fx_clip, fx_div_spec, fx_mul_spec, fx_neg_spec, fx_sqrt_spec, fx_sub_spec, fxs,
    mag, Fx, FX_RAW_MAX, FX_SCALE,
};
use crate::vectors::{
    v3_div_fx_spec, v3_dot_spec, v3_length_sq_spec, v3_neg_spec, v3_scale_spec, v3_sub_spec,
    Length, Vector3,
};
use vstd::prelude::*;

verus! {

/// The result of a successful ray-geometry intersection: the hit point,
/// the unit surface normal oriented against the incoming ray, the ray
/// parameter, the face orientation, and the index of the material that
/// produced the hit in the scene's material storage.
#[derive(Clone, Copy, PartialEq, Eq, Structural, Debug)]
pub struct HitRecord {
    pub p: Vector3,
    pub normal: Vector3,
    pub t: Fx,
    pub front_face: bool,
    pub material: usize,
}

/// Something a ray can intersect.
pub trait Hittable {
    /// What `hit` returns for the given ray and parameter window.
    spec fn hit_spec(&self, r: Ray, t_min: int, t_max: int) -> Option<HitRecord>;

    /// The nearest intersection with the ray whose parameter lies in
    /// `[t_min, t_max]`, or nothing.
    fn hit(&self, r: &Ray, t_min: Fx, t_max: Fx) -> (res: Option<HitRecord>)
        ensures
            res == self.hit_spec(*r, t_min@, t_max@),
    ;
}

/// A sphere: a center, a radius, and the index of its material in the
/// scene's material storage. A negative radius is a deliberate modeling
/// device: it flips the outward normal inward, which turns the sphere
/// into the inner wall of a hollow shell.
#[derive(Clone, Copy, PartialEq, Eq, Structural, Debug)]
pub struct Sphere {
    pub center: Vector3,
    pub radius: Fx,
    pub material: usize,
}

/// The record a sphere builds for a hit at parameter `root`: the hit
/// point, the outward normal scaled by the radius's sign, oriented to
/// oppose the incoming ray, and the face flag saying which way it faced.
pub open spec fn sphere_record_spec(s: Sphere, r: Ray, root: int) -> HitRecord {
    let p = ray_at_spec(r, root);
    let outward = v3_div_fx_spec(v3_sub_spec(p, s.center), s.radius@);
    let front_face = v3_dot_spec(r.direction, outward) < 0;
    let normal = if front_face {
        outward
    } else {
        v3_neg_spec(outward)
    };
    HitRecord { p, normal, t: fxs(root), front_face, material: s.material }
}

/// Raw discriminant of the half-b quadratic for a ray and sphere.
pub open spec fn sphere_discriminant_spec(s: Sphere, r: Ray) -> int {
    let oc = v3_sub_spec(r.origin, s.center);
    let a = v3_length_sq_spec(r.direction);
    let half_b = v3_dot_spec(oc, r.direction);
    let c = fx_sub_spec(v3_length_sq_spec(oc), fx_mul_spec(s.radius@, s.radius@));
    fx_sub_spec(fx_mul_spec(half_b, half_b), fx_mul_spec(a, c))
}

/// Raw value of the smaller quadratic root.
pub open spec fn sphere_root0_spec(s: Sphere, r: Ray) -> int {
    let oc = v3_sub_spec(r.origin, s.center);
    let a = v3_length_sq_spec(r.direction);
    let half_b = v3_dot_spec(oc, r.direction);
    let sqrtd = fx_sqrt_spec(sphere_discriminant_spec(s, r));
    fx_div_spec(fx_sub_spec(fx_neg_spec(half_b), sqrtd), a)
}

/// Raw value of the larger quadratic root.
pub open spec fn sphere_root1_spec(s: Sphere, r: Ray) -> int {
    let oc = v3_sub_spec(r.origin, s.center);
    let a = v3_length_sq_spec(r.direction);
    let half_b = v3_dot_spec(oc, r.direction);
    let sqrtd = fx_sqrt_spec(sphere_discriminant_spec(s, r));
    fx_div_spec(fx_add_spec(fx_neg_spec(half_b), sqrtd), a)
}

/// What a sphere's `hit` returns: no real root means no hit; otherwise
/// the smaller root wins if it lies in the window, then the larger root
/// is tried, and a hit outside the window on both counts is no hit.
pub open spec fn sphere_hit_spec(s: Sphere, r: Ray, t_min: int, t_max: int) -> Option<HitRecord> {
    if sphere_discriminant_spec(s, r) < 0 {
        None
    } else {
        let root0 = sphere_root0_spec(s, r);
        let root1 = sphere_root1_spec(s, r);
        if !(root0 < t_min || t_max < root0) {
            Some(sphere_record_spec(s, r, root0))
        } else if !(root1 < t_min || t_max < root1) {
            Some(sphere_record_spec(s, r, root1))
        } else {
            None
        }
    }
}

impl Hittable for Sphere {
    open spec fn hit_spec(&self, r: Ray, t_min: int, t_max: int) -> Option<HitRecord> {
        sphere_hit_spec(*self, r, t_min, t_max)
    }

    fn hit(&self, r: &Ray, t_min: Fx, t_max: Fx) -> (res: Option<HitRecord>)
        ensures
            res == sphere_hit_spec(*self, *r, t_min@, t_max@),
    {
        let oc = r.origin.sub(self.center);
        let a = r.direction.length_squared();
        let half_b = oc.dot(r.direction);
        let c = oc.length_squared().sub(self.radius.mul(self.radius));

        let discriminant = half_b.mul(half_b).sub(a.mul(c));
        if discriminant.lt(Fx::zero()) {
            return None;
        }
        let sqrtd = discriminant.sqrt();

        let mut root = half_b.neg().sub(sqrtd).div(a);
        if root.lt(t_min) || t_max.lt(root) {
            root = half_b.neg().add(sqrtd).div(a);
            if root.lt(t_min) || t_max.lt(root) {
                return None;
            }
        }

        let p = r.at(root);
        let outward_normal = p.sub(self.center).div_fx(self.radius);
        let front_face = r.direction.dot(outward_normal).lt(Fx::zero());
        let normal = if front_face {
            outward_normal
        } else {
            outward_normal.neg()
        };
        Some(HitRecord { t: root, p, normal, front_face, material: self.material })
    }
}

/// The smaller root never exceeds the larger root.
pub proof fn lemma_sphere_roots_ordered(s: Sphere, r: Ray)
    ensures
        sphere_root0_spec(s, r) <= sphere_root1_spec(s, r),
{
    let oc = v3_sub_spec(r.origin, s.center);
    let a = v3_length_sq_spec(r.direction);
    crate::vectors::lemma_v3_length_sq_nonneg(r.direction);
    let half_b = v3_dot_spec(oc, r.direction);
    let sqrtd = fx_sqrt_spec(sphere_discriminant_spec(s, r));
    assert(sqrtd >= 0);
    let num0 = fx_sub_spec(fx_neg_spec(half_b), sqrtd);
    let num1 = fx_add_spec(fx_neg_spec(half_b), sqrtd);
    assert(num0 <= num1);
    crate::scalars::lemma_fx_div_monotone(num0, num1, a);
}

/// What a sphere reports for a window pins the record: the parameter is
/// one of the two roots, it lies inside the window, and the record is
/// the one built for that parameter.
pub proof fn lemma_sphere_hit_window(s: Sphere, r: Ray, lo: int, hi: int)
    requires
        -(FX_RAW_MAX as int) <= lo,
        hi <= FX_RAW_MAX as int,
    ensures
        sphere_hit_spec(s, r, lo, hi) matches Some(rec) ==> {
            &&& lo <= rec.t@ <= hi
            &&& rec == sphere_record_spec(s, r, rec.t@)
            &&& (rec.t@ == sphere_root0_spec(s, r) || rec.t@ == sphere_root1_spec(s, r))
            &&& rec.material == s.material
        },
{
    if sphere_hit_spec(s, r, lo, hi) is Some {
        let root0 = sphere_root0_spec(s, r);
        let root1 = sphere_root1_spec(s, r);
        if !(root0 < lo || hi < root0) {
            assert(fxs(root0)@ == root0);
        } else {
            assert(fxs(root1)@ == root1);
        }
    }
}

/// Narrowing the window's far end keeps a hit that still fits and drops
/// one that does not; it never invents a hit.
pub proof fn lemma_sphere_hit_narrow(s: Sphere, r: Ray, t_min: int, t_max: int, c: int)
    requires
        -(FX_RAW_MAX as int) <= t_min,
        t_max <= FX_RAW_MAX as int,
        c <= t_max,
    ensures
        sphere_hit_spec(s, r, t_min, t_max) is None ==> sphere_hit_spec(s, r, t_min, c) is None,
        sphere_hit_spec(s, r, t_min, t_max) matches Some(rec) ==> (rec.t@ <= c
            ==> sphere_hit_spec(s, r, t_min, c) == Some(rec)),
        sphere_hit_spec(s, r, t_min, t_max) matches Some(rec) ==> (rec.t@ > c ==> sphere_hit_spec(
            s,
            r,
            t_min,
            c,
        ) is None),
{
    lemma_sphere_roots_ordered(s, r);
    lemma_sphere_hit_window(s, r, t_min, t_max);
    if sphere_discriminant_spec(s, r) >= 0 {
        let root0 = sphere_root0_spec(s, r);
        let root1 = sphere_root1_spec(s, r);
        if !(root0 < t_min || t_max < root0) {
            assert(fxs(root0)@ == root0);
        } else if !(root1 < t_min || t_max < root1) {
            assert(fxs(root1)@ == root1);
            assert(root0 < t_min);
        }
    }
}

/// A ray that starts outside a sphere and points away from its center
/// reports no hit for any window of positive parameters: both quadratic
/// roots lie at or below zero.
pub proof fn lemma_sphere_miss_behind(s: Sphere, r: Ray, t_min: int, t_max: int)
    requires
        0 < t_min,
        v3_dot_spec(v3_sub_spec(r.origin, s.center), r.direction) > 0,
        fx_sub_spec(
            v3_length_sq_spec(v3_sub_spec(r.origin, s.center)),
            fx_mul_spec(s.radius@, s.radius@),
        ) > 0,
    ensures
        sphere_hit_spec(s, r, t_min, t_max) is None,
{
    let oc = v3_sub_spec(r.origin, s.center);
    let a = v3_length_sq_spec(r.direction);
    crate::vectors::lemma_v3_length_sq_nonneg(r.direction);
    let half_b = v3_dot_spec(oc, r.direction);
    let cterm = fx_sub_spec(v3_length_sq_spec(oc), fx_mul_spec(s.radius@, s.radius@));
    let disc = sphere_discriminant_spec(s, r);
    if disc >= 0 {
        let hbsq = fx_mul_spec(half_b, half_b);
        crate::scalars::lemma_fx_mul_nonneg(half_b, half_b);
        crate::scalars::lemma_fx_mul_nonneg(a, cterm);
        assert(disc <= hbsq);
        assert(hbsq == fx_clip(half_b * half_b / (FX_SCALE as int)));
        assert(0 <= half_b * half_b / (FX_SCALE as int));
        let sqrtd = fx_sqrt_spec(disc);
        assert(sqrtd <= half_b) by {
            assert(disc * FX_SCALE <= hbsq * (FX_SCALE as int)) by (nonlinear_arith)
                requires
                    disc <= hbsq,
                    FX_SCALE > 0,
            ;
            assert(hbsq * (FX_SCALE as int) <= half_b * half_b) by {
                assert(hbsq <= half_b * half_b / (FX_SCALE as int));
                assert(half_b * half_b / (FX_SCALE as int) * (FX_SCALE as int) <= half_b * half_b
                    && hbsq * (FX_SCALE as int) <= half_b * half_b / (FX_SCALE as int) * (
                FX_SCALE as int)) by (nonlinear_arith)
                    requires
                        0 <= half_b * half_b,
                        hbsq <= half_b * half_b / (FX_SCALE as int),
                        FX_SCALE > 0,
                ;
            }
            crate::scalars::lemma_isqrt_monotone((disc * FX_SCALE) as nat, (half_b * half_b) as nat);
            assert((half_b * half_b) as nat == (half_b as nat) * (half_b as nat))
                by (nonlinear_arith)
                requires
                    half_b > 0,
            ;
            crate::scalars::lemma_isqrt_square(half_b as nat);
        }
        let num0 = fx_sub_spec(fx_neg_spec(half_b), sqrtd);
        let num1 = fx_add_spec(fx_neg_spec(half_b), sqrtd);
        assert(num1 <= 0);
        assert(num0 <= 0);
        crate::scalars::lemma_fx_div_monotone(num0, 0, a);
        crate::scalars::lemma_fx_div_monotone(num1, 0, a);
        assert(fx_div_spec(0, a) == 0) by {
            if a != 0 {
                crate::scalars::lemma_fx_div_nonneg(0, a);
                assert(0 * (FX_SCALE as int) == 0) by (nonlinear_arith);
            }
        }
        assert(sphere_root0_spec(s, r) <= 0);
        assert(sphere_root1_spec(s, r) <= 0);
    }
}

/// A sphere of radius `rad` centered at the point the ray reaches at
/// parameter `c` reports a hit whose parameter is the analytic near root
/// `c - rad`, up to one raw unit, for a ray cast straight down the axis
/// with a unit direction; the record carries the sphere's material.
#[verifier::rlimit(100)]
pub proof fn lemma_sphere_hit_along_axis(s: Sphere, r: Ray, c: int, t_min: int, t_max: int)
    requires
        r.direction == crate::vectors::v3(0, 0, -(FX_SCALE as int)),
        s.center == ray_at_spec(r, c),
        FX_SCALE as int <= s.radius@,
        s.radius@ < c <= 0x2000_0000_0000,
        mag(r.origin.x@) <= 0x1000_0000_0000_0000,
        mag(r.origin.y@) <= 0x1000_0000_0000_0000,
        mag(r.origin.z@) <= 0x1000_0000_0000_0000,
        0 <= t_min <= c - s.radius@,
        c - s.radius@ + 1 <= t_max <= FX_RAW_MAX as int,
    ensures
        sphere_hit_spec(s, r, t_min, t_max) is Some,
        c - s.radius@ <= sphere_hit_spec(s, r, t_min, t_max).unwrap().t@ <= c - s.radius@ + 1,
        sphere_hit_spec(s, r, t_min, t_max).unwrap().material == s.material,
{
    let rad = s.radius@;
    let d = r.direction;
    assert(d.x@ == 0 && d.y@ == 0 && d.z@ == -(FX_SCALE as int));

    crate::scalars::lemma_fx_mul_zero(c);
    crate::scalars::lemma_fx_mul_neg_left(FX_SCALE as int, c);
    crate::scalars::lemma_fx_mul_one(c);
    let step = v3_scale_spec(d, c);
    assert(step.x@ == 0 && step.y@ == 0 && step.z@ == -c);
    assert(s.center.x@ == r.origin.x@ && s.center.y@ == r.origin.y@ && s.center.z@ == r.origin.z@
        - c);

    let oc = v3_sub_spec(r.origin, s.center);
    assert(oc.x@ == 0 && oc.y@ == 0 && oc.z@ == c);

    crate::scalars::lemma_fx_mul_zero(0);
    crate::scalars::lemma_fx_mul_neg_left(FX_SCALE as int, -(FX_SCALE as int));
    crate::scalars::lemma_fx_mul_neg_right(FX_SCALE as int, FX_SCALE as int);
    crate::scalars::lemma_fx_mul_one(FX_SCALE as int);
    let a = v3_length_sq_spec(d);
    assert(a == FX_SCALE as int);

    crate::scalars::lemma_fx_mul_neg_right(c, FX_SCALE as int);
    let half_b = v3_dot_spec(oc, d);
    assert(fx_mul_spec(c, -(FX_SCALE as int)) == -fx_mul_spec(c, FX_SCALE as int));
    assert(half_b == -c);

    crate::scalars::lemma_fx_mul_nonneg(c, c);
    crate::scalars::lemma_fx_mul_nonneg(rad, rad);
    let q = fx_mul_spec(c, c);
    let p = fx_mul_spec(rad, rad);
    assert(c * c <= 0x2000_0000_0000 * 0x2000_0000_0000int) by (nonlinear_arith)
        requires
            0 < c <= 0x2000_0000_0000,
    ;
    assert(c * c / (FX_SCALE as int) <= 0x2000_0000_0000 * 0x2000_0000_0000int / (FX_SCALE as int));
    assert(q == c * c / (FX_SCALE as int));
    assert(rad * rad <= c * c) by (nonlinear_arith)
        requires
            0 < rad <= c,
    ;
    assert(rad * rad / (FX_SCALE as int) <= c * c / (FX_SCALE as int));
    assert(0 <= rad * rad / (FX_SCALE as int));
    assert(p == rad * rad / (FX_SCALE as int));
    assert(v3_length_sq_spec(oc) == q);

    let cterm = fx_sub_spec(q, p);
    assert(cterm == q - p);
    crate::scalars::lemma_fx_mul_one(cterm);
    assert(fx_mul_spec(FX_SCALE as int, cterm) == cterm);

    crate::scalars::lemma_fx_mul_neg_left(c, -c);
    crate::scalars::lemma_fx_mul_neg_right(c, c);
    assert(fx_mul_spec(-c, -c) == q);
    let disc = sphere_discriminant_spec(s, r);
    assert(disc == fx_sub_spec(q, cterm));
    assert(disc == p);

    // the root of the scaled square of the radius is the radius, up to one
    let sqrtd = fx_sqrt_spec(disc);
    assert((p * FX_SCALE) as nat <= ((rad * rad) as nat)) by (nonlinear_arith)
        requires
            p == rad * rad / (FX_SCALE as int),
            0 <= rad * rad,
            FX_SCALE > 0,
    ;
    assert(sqrtd <= rad) by {
        crate::scalars::lemma_isqrt_monotone((p * FX_SCALE) as nat, (rad * rad) as nat);
        assert((rad * rad) as nat == (rad as nat) * (rad as nat)) by (nonlinear_arith)
            requires
                rad > 0,
        ;
        crate::scalars::lemma_isqrt_square(rad as nat);
    }
    assert(rad - 1 <= sqrtd) by {
        assert((rad - 1) * (rad - 1) <= p * FX_SCALE) by (nonlinear_arith)
            requires
                p == rad * rad / (FX_SCALE as int),
                FX_SCALE as int <= rad,
                FX_SCALE > 0,
                0 <= rad * rad,
        ;
        crate::scalars::lemma_isqrt_monotone(((rad - 1) * (rad - 1)) as nat, (p * FX_SCALE) as nat);
        assert(((rad - 1) * (rad - 1)) as nat == ((rad - 1) as nat) * ((rad - 1) as nat))
            by (nonlinear_arith)
            requires
                rad >= 1,
        ;
        crate::scalars::lemma_isqrt_square((rad - 1) as nat);
    }

    let num0 = fx_sub_spec(fx_neg_spec(half_b), sqrtd);
    assert(fx_neg_spec(half_b) == c);
    assert(num0 == c - sqrtd);
    crate::scalars::lemma_fx_div_one(num0);
    let root0 = sphere_root0_spec(s, r);
    assert(root0 == c - sqrtd);
    assert(c - rad <= root0 <= c - rad + 1);
    assert(!(root0 < t_min || t_max < root0));
    let rec = sphere_record_spec(s, r, root0);
    assert(rec.t@ == root0);
}

/// The nearest-hit property of a scan result: a miss means no member
/// hits the window; a hit is exactly what some member reports for the
/// full window, lies in the window, and no member reports a smaller
/// parameter.
pub open spec fn nearest_hit_props(objs: Seq<Sphere>, r: Ray, t_min: int, t_max: int) -> bool {
    match list_hit_spec(objs, r, t_min, t_max) {
        None => forall|i: int|
            0 <= i < objs.len() ==> #[trigger] sphere_hit_spec(objs[i], r, t_min, t_max) is None,
        Some(rec) => {
            &&& t_min <= rec.t@ <= t_max
            &&& exists|i: int|
                0 <= i < objs.len() && #[trigger] sphere_hit_spec(objs[i], r, t_min, t_max)
                    == Some(rec)
            &&& forall|i: int|
                0 <= i < objs.len() ==> match #[trigger] sphere_hit_spec(objs[i], r, t_min, t_max) {
                    Some(o) => rec.t@ <= o.t@,
                    None => true,
                }
        },
    }
}

/// One scan step keeps the nearest-hit property.
#[verifier::spinoff_prover]
#[verifier::rlimit(100)]
proof fn lemma_list_hit_step(objs: Seq<Sphere>, r: Ray, t_min: int, t_max: int)
    requires
        -(FX_RAW_MAX as int) <= t_min,
        t_max <= FX_RAW_MAX as int,
        objs.len() > 0,
        nearest_hit_props(objs.drop_last(), r, t_min, t_max),
    ensures
        nearest_hit_props(objs, r, t_min, t_max),
{
    let pre = objs.drop_last();
    let last = objs.last();
    let prefix = list_hit_spec(pre, r, t_min, t_max);
    let closest = match prefix {
        None => t_max,
        Some(rec) => rec.t@,
    };
    assert(closest <= t_max);
    lemma_sphere_hit_narrow(last, r, t_min, t_max, closest);
    lemma_sphere_hit_window(last, r, t_min, t_max);
    assert(forall|i: int| 0 <= i < pre.len() ==> pre[i] == objs[i]);
    match sphere_hit_spec(last, r, t_min, closest) {
        None => {
            assert(list_hit_spec(objs, r, t_min, t_max) == prefix);
            match prefix {
                None => {
                    assert(sphere_hit_spec(last, r, t_min, t_max) is None);
                    assert forall|i: int| 0 <= i < objs.len() implies #[trigger] sphere_hit_spec(
                        objs[i],
                        r,
                        t_min,
                        t_max,
                    ) is None by {
                        if i < objs.len() - 1 {
                            assert(objs[i] == pre[i]);
                        } else {
                            assert(objs[i] == last);
                        }
                    }
                },
                Some(rec) => {
                    let wi = choose|i: int|
                        0 <= i < pre.len() && #[trigger] sphere_hit_spec(pre[i], r, t_min, t_max)
                            == Some(rec);
                    assert(sphere_hit_spec(objs[wi], r, t_min, t_max) == Some(rec));
                    assert forall|i: int| 0 <= i < objs.len() implies match #[trigger] sphere_hit_spec(
                        objs[i],
                        r,
                        t_min,
                        t_max,
                    ) {
                        Some(o) => rec.t@ <= o.t@,
                        None => true,
                    } by {
                        if i < objs.len() - 1 {
                            assert(objs[i] == pre[i]);
                        } else {
                            assert(objs[i] == last);
                        }
                    }
                },
            }
        },
        Some(newrec) => {
            assert(list_hit_spec(objs, r, t_min, t_max) == Some(newrec));
            lemma_sphere_hit_window(last, r, t_min, closest);
            assert(sphere_hit_spec(last, r, t_min, t_max) == Some(newrec));
            assert(newrec.t@ <= closest);
            assert(sphere_hit_spec(objs[objs.len() - 1], r, t_min, t_max) == Some(newrec));
            assert forall|i: int| 0 <= i < objs.len() implies match #[trigger] sphere_hit_spec(
                objs[i],
                r,
                t_min,
                t_max,
            ) {
                Some(o) => newrec.t@ <= o.t@,
                None => true,
            } by {
                if i < objs.len() - 1 {
                    assert(objs[i] == pre[i]);
                } else {
                    assert(objs[i] == last);
                }
            }
        },
    }
}

/// The composite's hit is the nearest hit: when the scan reports
/// nothing, no member hits the window; when it reports a record, some
/// member reports exactly that record for the full window, and no member
/// reports a smaller parameter.
pub proof fn lemma_list_hit_nearest(objs: Seq<Sphere>, r: Ray, t_min: int, t_max: int)
    requires
        -(FX_RAW_MAX as int) <= t_min,
        t_max <= FX_RAW_MAX as int,
    ensures
        nearest_hit_props(objs, r, t_min, t_max),
    decreases objs.len(),
{
    if objs.len() > 0 {
        lemma_list_hit_nearest(objs.drop_last(), r, t_min, t_max);
        lemma_list_hit_step(objs, r, t_min, t_max);
    }
}

/// An ordered collection of spheres queried as one composite: it reports
/// the hit nearest along the ray; order affects only traversal cost.
#[derive(Debug)]
pub struct HittableList {
    pub hittables: Vec<Sphere>,
}

/// What the list's `hit` returns: a left-to-right scan that narrows the
/// window's far end to the best parameter seen so far.
pub open spec fn list_hit_spec(objs: Seq<Sphere>, r: Ray, t_min: int, t_max: int) -> Option<
    HitRecord,
>
    decreases objs.len(),
{
    if objs.len() == 0 {
        None
    } else {
        let prefix = list_hit_spec(objs.drop_last(), r, t_min, t_max);
        let closest = match prefix {
            None => t_max,
            Some(rec) => rec.t@,
        };
        match sphere_hit_spec(objs.last(), r, t_min, closest) {
            None => prefix,
            Some(rec) => Some(rec),
        }
    }
}

impl HittableList {
    /// An empty list.
    pub fn new() -> (l: HittableList)
        ensures
            l.hittables@ == Seq::<Sphere>::empty(),
    {
        HittableList { hittables: Vec::new() }
    }

    /// Removes every object.
    pub fn clear(&mut self)
        ensures
            final(self).hittables@ == Seq::<Sphere>::empty(),
    {
        self.hittables.clear();
    }

    /// Appends an object.
    pub fn add(&mut self, p: Sphere)
        ensures
            final(self).hittables@ == old(self).hittables@.push(p),
    {
        self.hittables.push(p);
    }
}

impl Hittable for HittableList {
    open spec fn hit_spec(&self, r: Ray, t_min: int, t_max: int) -> Option<HitRecord> {
        list_hit_spec(self.hittables@, r, t_min, t_max)
    }

    fn hit(&self, r: &Ray, t_min: Fx, t_max: Fx) -> (res: Option<HitRecord>)
        ensures
            res == list_hit_spec(self.hittables@, *r, t_min@, t_max@),
    {
        let mut temp_rec: Option<HitRecord> = None;
        let mut closest_so_far: Fx = t_max;
        let n = self.hittables.len();
        let mut i: usize = 0;
        while i < n
            invariant
                0 <= i <= n,
                n == self.hittables@.len(),
                temp_rec == list_hit_spec(self.hittables@.take(i as int), *r, t_min@, t_max@),
                closest_so_far@ == match temp_rec {
                    None => t_max@,
                    Some(rec) => rec.t@,
                },
            decreases n - i,
        {
            let hittable = &self.hittables[i];
            proof {
                assert(self.hittables@.take(i + 1).drop_last() =~= self.hittables@.take(i as int));
                assert(self.hittables@.take(i + 1).last() == self.hittables@[i as int]);
            }
            match hittable.hit(r, t_min, closest_so_far) {
                None => {},
                Some(hit_record) => {
                    closest_so_far = hit_record.t;
                    temp_rec = Some(hit_record);
                },
            }
            i = i + 1;
        }
        proof {
            assert(self.hittables@.take(n as int) =~= self.hittables@);
        }
        temp_rec
    }
}

} // verus!
