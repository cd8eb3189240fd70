//! The three-component vector type used for positions, directions, and
//! offsets, with the algebra the geometry and shading need.

use crate::colors::Color;
use crate::rng::{rng_step, rng_unit_spec, Rng};
use crate::scalars::{
    fx_add_spec, fx_clip, fx_div_spec, fx_mul_spec, fx_neg_spec, fx_sqrt_spec, fx_sub_spec, fxs,
    isqrt_spec, lemma_fx_div_one, lemma_fx_mul_neg_left, lemma_fx_mul_neg_right, mag, Fx,
    FX_RAW_MAX, FX_SCALE,
};
use vstd::prelude::*;

verus! {

/// Raw magnitude below which a component counts as zero: about `1e-8`.
pub const NEAR_ZERO_RAW: i64 = 43;

/// Something with a Euclidean length.
pub trait Length {
    /// Raw value of the length.
    spec fn length_spec(&self) -> int;

    /// Raw value of the squared length.
    spec fn length_squared_spec(&self) -> int;

    /// The length.
    fn length(&self) -> (r: Fx)
        ensures
            r@ == self.length_spec(),
    ;

    /// The squared length; avoids the square root where callers only
    /// compare.
    fn length_squared(&self) -> (r: Fx)
        ensures
            r@ == self.length_squared_spec(),
    ;
}

/// A three-component vector, also used as a position.
#[derive(Clone, Copy, PartialEq, Eq, Structural, Debug)]
pub struct Vector3 {
    pub x: Fx,
    pub y: Fx,
    pub z: Fx,
}

/// The vector with the given raw components, each saturated into range.
pub open spec fn v3(x: int, y: int, z: int) -> Vector3 {
    Vector3 { x: fxs(x), y: fxs(y), z: fxs(z) }
}

/// Componentwise sum.
pub open spec fn v3_add_spec(a: Vector3, b: Vector3) -> Vector3 {
    v3(fx_add_spec(a.x@, b.x@), fx_add_spec(a.y@, b.y@), fx_add_spec(a.z@, b.z@))
}

/// Componentwise difference.
pub open spec fn v3_sub_spec(a: Vector3, b: Vector3) -> Vector3 {
    v3(fx_sub_spec(a.x@, b.x@), fx_sub_spec(a.y@, b.y@), fx_sub_spec(a.z@, b.z@))
}

/// Componentwise product.
pub open spec fn v3_mul_spec(a: Vector3, b: Vector3) -> Vector3 {
    v3(fx_mul_spec(a.x@, b.x@), fx_mul_spec(a.y@, b.y@), fx_mul_spec(a.z@, b.z@))
}

/// Product with a scalar.
pub open spec fn v3_scale_spec(a: Vector3, s: int) -> Vector3 {
    v3(fx_mul_spec(a.x@, s), fx_mul_spec(a.y@, s), fx_mul_spec(a.z@, s))
}

/// Quotient by a scalar.
pub open spec fn v3_div_fx_spec(a: Vector3, s: int) -> Vector3 {
    v3(fx_div_spec(a.x@, s), fx_div_spec(a.y@, s), fx_div_spec(a.z@, s))
}

/// Componentwise negation.
pub open spec fn v3_neg_spec(a: Vector3) -> Vector3 {
    v3(fx_neg_spec(a.x@), fx_neg_spec(a.y@), fx_neg_spec(a.z@))
}

/// Raw value of the dot product.
pub open spec fn v3_dot_spec(a: Vector3, b: Vector3) -> int {
    fx_add_spec(
        fx_add_spec(fx_mul_spec(a.x@, b.x@), fx_mul_spec(a.y@, b.y@)),
        fx_mul_spec(a.z@, b.z@),
    )
}

/// The cross product.
pub open spec fn v3_cross_spec(a: Vector3, b: Vector3) -> Vector3 {
    v3(
        fx_sub_spec(fx_mul_spec(a.y@, b.z@), fx_mul_spec(a.z@, b.y@)),
        fx_sub_spec(fx_mul_spec(a.z@, b.x@), fx_mul_spec(a.x@, b.z@)),
        fx_sub_spec(fx_mul_spec(a.x@, b.y@), fx_mul_spec(a.y@, b.x@)),
    )
}

/// Raw value of the squared length.
pub open spec fn v3_length_sq_spec(a: Vector3) -> int {
    v3_dot_spec(a, a)
}

/// Raw value of the length.
pub open spec fn v3_length_spec(a: Vector3) -> int {
    fx_sqrt_spec(v3_length_sq_spec(a))
}

/// The vector scaled to length one by dividing through its own length;
/// the zero vector (whose length is zero) maps to the zero vector.
pub open spec fn v3_unit_spec(a: Vector3) -> Vector3 {
    v3_div_fx_spec(a, v3_length_spec(a))
}

/// Whether every component is below the near-zero threshold in magnitude.
pub open spec fn v3_near_zero_spec(a: Vector3) -> bool {
    mag(a.x@) < NEAR_ZERO_RAW && mag(a.y@) < NEAR_ZERO_RAW && mag(a.z@) < NEAR_ZERO_RAW
}

/// The mirror reflection of `v` about the normal `n`.
pub open spec fn v3_reflect_spec(v: Vector3, n: Vector3) -> Vector3 {
    v3_sub_spec(v, v3_scale_spec(n, fx_mul_spec(2 * FX_SCALE, v3_dot_spec(v, n))))
}

/// Snell-law refraction of the unit direction `uv` at a surface with
/// unit normal `n` and refraction ratio `etai_over_etat`.
pub open spec fn v3_refract_spec(uv: Vector3, n: Vector3, etai_over_etat: int) -> Vector3 {
    let cos_theta = if v3_dot_spec(v3_neg_spec(uv), n) <= FX_SCALE as int {
        v3_dot_spec(v3_neg_spec(uv), n)
    } else {
        FX_SCALE as int
    };
    let r_out_perp = v3_scale_spec(v3_add_spec(uv, v3_scale_spec(n, cos_theta)), etai_over_etat);
    let r_out_parallel = v3_scale_spec(
        n,
        fx_neg_spec(
            fx_sqrt_spec(fx_clip(mag(fx_sub_spec(FX_SCALE as int, v3_length_sq_spec(r_out_perp))))),
        ),
    );
    v3_add_spec(r_out_perp, r_out_parallel)
}

/// The vector drawn componentwise from three unit draws rescaled into
/// `[min, max)`, in x, y, z order.
pub open spec fn v3_rand_range_spec(s: u64, min: int, max: int) -> Vector3 {
    let d = fx_sub_spec(max, min);
    let x = fx_add_spec(min, fx_mul_spec(rng_unit_spec(s), d));
    let y = fx_add_spec(min, fx_mul_spec(rng_unit_spec(rng_step(s)), d));
    let z = fx_add_spec(min, fx_mul_spec(rng_unit_spec(rng_step(rng_step(s))), d));
    v3(x, y, z)
}

/// Whether every component's magnitude stays inside the symmetric raw
/// range, so that negation is exact.
pub open spec fn v3_in_range_spec(a: Vector3) -> bool {
    mag(a.x@) <= FX_RAW_MAX as int && mag(a.y@) <= FX_RAW_MAX as int && mag(a.z@) <= FX_RAW_MAX
        as int
}

/// Negating the left vector negates the dot product.
pub proof fn lemma_v3_dot_neg_left(a: Vector3, b: Vector3)
    requires
        v3_in_range_spec(a),
    ensures
        v3_dot_spec(v3_neg_spec(a), b) == -v3_dot_spec(a, b),
{
    lemma_fx_mul_neg_left(a.x@, b.x@);
    lemma_fx_mul_neg_left(a.y@, b.y@);
    lemma_fx_mul_neg_left(a.z@, b.z@);
}

/// A vector whose self dot product is exactly one has every component's
/// magnitude at most one.
pub proof fn lemma_unit_dot_bounds(n: Vector3)
    requires
        v3_dot_spec(n, n) == FX_SCALE as int,
    ensures
        mag(n.x@) <= FX_SCALE as int,
        mag(n.y@) <= FX_SCALE as int,
        mag(n.z@) <= FX_SCALE as int,
        v3_in_range_spec(n),
{
    lemma_fx_square_nonneg(n.x@);
    lemma_fx_square_nonneg(n.y@);
    lemma_fx_square_nonneg(n.z@);
    let t1 = fx_mul_spec(n.x@, n.x@);
    let t2 = fx_mul_spec(n.y@, n.y@);
    let t3 = fx_mul_spec(n.z@, n.z@);
    assert(fx_add_spec(fx_add_spec(t1, t2), t3) == FX_SCALE as int);
    assert(t1 + t2 <= FX_RAW_MAX as int && t1 + t2 + t3 <= FX_RAW_MAX as int);
    assert(t1 <= FX_SCALE as int && t2 <= FX_SCALE as int && t3 <= FX_SCALE as int);
    lemma_square_bound_from_term(n.x@, t1);
    lemma_square_bound_from_term(n.y@, t2);
    lemma_square_bound_from_term(n.z@, t3);
}

/// The negation of a vector whose self dot product is exactly one is its
/// own unit vector: negation keeps the squared length, the root of one
/// is one, and dividing by one is exact.
pub proof fn lemma_unit_of_neg_unit(n: Vector3)
    requires
        v3_dot_spec(n, n) == FX_SCALE as int,
    ensures
        v3_unit_spec(v3_neg_spec(n)) == v3_neg_spec(n),
{
    lemma_unit_dot_bounds(n);
    let m = v3_neg_spec(n);
    assert(m.x@ == -n.x@ && m.y@ == -n.y@ && m.z@ == -n.z@);
    lemma_fx_mul_neg_left(n.x@, m.x@);
    lemma_fx_mul_neg_right(n.x@, n.x@);
    lemma_fx_mul_neg_left(n.y@, m.y@);
    lemma_fx_mul_neg_right(n.y@, n.y@);
    lemma_fx_mul_neg_left(n.z@, m.z@);
    lemma_fx_mul_neg_right(n.z@, n.z@);
    assert(fx_mul_spec(m.x@, m.x@) == fx_mul_spec(n.x@, n.x@));
    assert(fx_mul_spec(m.y@, m.y@) == fx_mul_spec(n.y@, n.y@));
    assert(fx_mul_spec(m.z@, m.z@) == fx_mul_spec(n.z@, n.z@));
    assert(v3_length_sq_spec(m) == FX_SCALE as int);
    assert(v3_length_spec(m) == FX_SCALE as int) by {
        crate::scalars::lemma_isqrt_square(FX_SCALE as nat);
        assert((FX_SCALE as int) * FX_SCALE == (FX_SCALE as nat) * (FX_SCALE as nat));
    }
    lemma_fx_div_one(m.x@);
    lemma_fx_div_one(m.y@);
    lemma_fx_div_one(m.z@);
    assert(v3_unit_spec(m).x@ == m.x@ && v3_unit_spec(m).y@ == m.y@ && v3_unit_spec(m).z@ == m.z@);
    assert(v3_unit_spec(m) =~= m);
}

/// A squared length is nonnegative.
pub proof fn lemma_v3_length_sq_nonneg(a: Vector3)
    ensures
        0 <= v3_length_sq_spec(a),
{
    lemma_fx_square_nonneg(a.x@);
    lemma_fx_square_nonneg(a.y@);
    lemma_fx_square_nonneg(a.z@);
}

/// A self product is nonnegative.
proof fn lemma_fx_square_nonneg(x: int)
    ensures
        0 <= fx_mul_spec(x, x),
{
    assert(0 <= mag(x) * mag(x)) by (nonlinear_arith)
        requires
            0 <= mag(x),
    ;
    assert(0 <= mag(x) * mag(x) / (FX_SCALE as int));
}

/// A component whose scaled square is at most one has magnitude at most
/// one.
proof fn lemma_square_bound_from_term(x: int, t: int)
    requires
        t == fx_mul_spec(x, x),
        0 <= t <= FX_SCALE as int,
    ensures
        mag(x) <= FX_SCALE as int,
{
    let m = mag(x);
    assert(0 <= m * m) by (nonlinear_arith)
        requires
            0 <= m,
    ;
    if m * m / (FX_SCALE as int) > FX_RAW_MAX as int {
        assert(fx_clip(m * m / (FX_SCALE as int)) == FX_RAW_MAX as int);
        assert(false);
    }
    assert(t == m * m / (FX_SCALE as int));
    if m > FX_SCALE as int {
        assert((FX_SCALE as int + 1) * (FX_SCALE as int + 1) <= m * m) by (nonlinear_arith)
            requires
                FX_SCALE as int + 1 <= m,
        ;
        assert(m * m / (FX_SCALE as int) > FX_SCALE as int) by (nonlinear_arith)
            requires
                m * m >= (FX_SCALE as int + 1) * (FX_SCALE as int + 1),
                FX_SCALE > 0,
        ;
        assert(false);
    }
}

/// Floor division brackets the dividend.
proof fn lemma_floor_div_bounds(x: int, d: int)
    requires
        0 <= x,
        0 < d,
    ensures
        0 <= x / d,
        d * (x / d) <= x,
        x < d * (x / d) + d,
{
    vstd::arithmetic::div_mod::lemma_fundamental_div_mod(x, d);
    vstd::arithmetic::div_mod::lemma_mod_bound(x, d);
}

/// Normalizing scales the length to one, up to a few raw units: for any
/// vector of length at least one whose components stay below the square
/// root of the representable range, the length of its unit vector is one
/// to within eight units of `1 / FX_SCALE`. The zero vector is excluded:
/// its normalization is defined to be the zero vector.
#[verifier::spinoff_prover]
#[verifier::rlimit(100)]
pub proof fn lemma_unit_vector_length(v: Vector3)
    requires
        mag(v.x@) <= 0x2000_0000_0000,
        mag(v.y@) <= 0x2000_0000_0000,
        mag(v.z@) <= 0x2000_0000_0000,
        v3_length_spec(v) >= FX_SCALE as int,
    ensures
        FX_SCALE as int - 8 <= v3_length_spec(v3_unit_spec(v)) <= FX_SCALE as int + 8,
{
    let s: int = FX_SCALE as int;
    let m1 = mag(v.x@);
    let m2 = mag(v.y@);
    let m3 = mag(v.z@);

    // squared length: three exact floors of the squared components
    let t1 = fx_mul_spec(v.x@, v.x@);
    let t2 = fx_mul_spec(v.y@, v.y@);
    let t3 = fx_mul_spec(v.z@, v.z@);
    assert(m1 * m1 <= 0x2000_0000_0000 * 0x2000_0000_0000int && m2 * m2 <= 0x2000_0000_0000
        * 0x2000_0000_0000int && m3 * m3 <= 0x2000_0000_0000 * 0x2000_0000_0000int)
        by (nonlinear_arith)
        requires
            0 <= m1 <= 0x2000_0000_0000,
            0 <= m2 <= 0x2000_0000_0000,
            0 <= m3 <= 0x2000_0000_0000,
    ;
    lemma_floor_div_bounds(m1 * m1, s);
    lemma_floor_div_bounds(m2 * m2, s);
    lemma_floor_div_bounds(m3 * m3, s);
    assert(m1 * m1 / s <= 0x2000_0000_0000 * 0x2000_0000_0000int / s);
    assert(m2 * m2 / s <= 0x2000_0000_0000 * 0x2000_0000_0000int / s);
    assert(m3 * m3 / s <= 0x2000_0000_0000 * 0x2000_0000_0000int / s);
    assert(t1 == m1 * m1 / s && t2 == m2 * m2 / s && t3 == m3 * m3 / s);
    let ls = v3_length_sq_spec(v);
    assert(ls == t1 + t2 + t3);
    let big = m1 * m1 + m2 * m2 + m3 * m3;
    assert(s * ls <= big < s * ls + 3 * s) by {
        assert(s * (t1 + t2 + t3) == s * t1 + s * t2 + s * t3) by (nonlinear_arith);
    }

    // the computed length brackets the true squared length
    let len = v3_length_spec(v);
    assert(ls > 0);
    crate::scalars::lemma_isqrt_bounds((ls * s) as nat);
    assert(len * len <= ls * s < (len + 1) * (len + 1)) by {
        assert(len == isqrt_spec((ls * s) as nat) as int);
        assert(0 <= ls * s) by (nonlinear_arith)
            requires
                ls > 0,
                s > 0,
        ;
    }
    assert(len >= s);
    assert(big <= ls * s + 3 * s) by (nonlinear_arith)
        requires
            s * ls <= big < s * ls + 3 * s,
    ;
    assert(big < (len + 1) * (len + 1) + 3 * s);
    assert(len * len <= big) by {
        assert(ls * s == s * ls) by (nonlinear_arith);
    }

    // each component is at most the length plus a few units
    assert((len + 1) * (len + 1) + 3 * s <= (len + 3) * (len + 3)) by (nonlinear_arith)
        requires
            len >= s,
            s == 0x1_0000_0000,
    ;
    assert(m1 <= len + 3 && m2 <= len + 3 && m3 <= len + 3) by (nonlinear_arith)
        requires
            m1 * m1 <= (len + 3) * (len + 3),
            m2 * m2 <= (len + 3) * (len + 3),
            m3 * m3 <= (len + 3) * (len + 3),
            0 <= m1 && 0 <= m2 && 0 <= m3,
            len + 3 >= 0,
    ;

    // the normalized components: exact floors again, within one of s
    let u = v3_unit_spec(v);
    lemma_floor_div_bounds(m1 * s, len);
    lemma_floor_div_bounds(m2 * s, len);
    lemma_floor_div_bounds(m3 * s, len);
    let w1 = m1 * s / len;
    let w2 = m2 * s / len;
    let w3 = m3 * s / len;
    assert(w1 <= s + 3 && w2 <= s + 3 && w3 <= s + 3) by (nonlinear_arith)
        requires
            len * w1 <= m1 * s && len * w2 <= m2 * s && len * w3 <= m3 * s,
            m1 <= len + 3 && m2 <= len + 3 && m3 <= len + 3,
            len >= s,
            s == 0x1_0000_0000,
            0 <= w1 && 0 <= w2 && 0 <= w3,
    ;
    assert(mag(u.x@) == w1 && mag(u.y@) == w2 && mag(u.z@) == w3) by {
        assert(fx_div_spec(v.x@, len) == if v.x@ < 0 {
            -w1
        } else {
            w1
        });
        assert(fx_div_spec(v.y@, len) == if v.y@ < 0 {
            -w2
        } else {
            w2
        });
        assert(fx_div_spec(v.z@, len) == if v.z@ < 0 {
            -w3
        } else {
            w3
        });
    }

    // the unit vector's squared length is one up to a handful of units
    let wsq = w1 * w1 + w2 * w2 + w3 * w3;
    assert((len * len) * (w1 * w1) <= (s * s) * (m1 * m1)) by (nonlinear_arith)
        requires
            len * w1 <= m1 * s,
            0 <= len && 0 <= w1 && 0 <= m1 && 0 <= s,
    ;
    assert((len * len) * (w2 * w2) <= (s * s) * (m2 * m2)) by (nonlinear_arith)
        requires
            len * w2 <= m2 * s,
            0 <= len && 0 <= w2 && 0 <= m2 && 0 <= s,
    ;
    assert((len * len) * (w3 * w3) <= (s * s) * (m3 * m3)) by (nonlinear_arith)
        requires
            len * w3 <= m3 * s,
            0 <= len && 0 <= w3 && 0 <= m3 && 0 <= s,
    ;
    assert(wsq * (len * len) <= big * (s * s)) by (nonlinear_arith)
        requires
            (len * len) * (w1 * w1) <= (s * s) * (m1 * m1),
            (len * len) * (w2 * w2) <= (s * s) * (m2 * m2),
            (len * len) * (w3 * w3) <= (s * s) * (m3 * m3),
            wsq == w1 * w1 + w2 * w2 + w3 * w3,
            big == m1 * m1 + m2 * m2 + m3 * m3,
    ;
    assert(wsq <= (s + 4) * (s + 4) - 1) by {
        if wsq >= (s + 4) * (s + 4) {
            assert((s + 4) * (s + 4) * (len * len) > ((len + 1) * (len + 1) + 3 * s) * (s * s))
                by (nonlinear_arith)
                requires
                    len >= s,
                    s == 0x1_0000_0000,
            ;
            assert(wsq * (len * len) >= (s + 4) * (s + 4) * (len * len)) by (nonlinear_arith)
                requires
                    wsq >= (s + 4) * (s + 4),
                    len * len >= 0,
            ;
            assert(big * (s * s) < ((len + 1) * (len + 1) + 3 * s) * (s * s)) by (nonlinear_arith)
                requires
                    big < (len + 1) * (len + 1) + 3 * s,
                    s > 0,
            ;
            assert(false);
        }
    }
    assert(wsq > s * s - 6 * s - 21) by {
        assert(len * (w1 + 1) == len * w1 + len) by (nonlinear_arith);
        assert(len * (w2 + 1) == len * w2 + len) by (nonlinear_arith);
        assert(len * (w3 + 1) == len * w3 + len) by (nonlinear_arith);
        assert((s * s) * (m1 * m1) < (len * len) * ((w1 + 1) * (w1 + 1))) by (nonlinear_arith)
            requires
                m1 * s < len * (w1 + 1),
                0 <= m1 && 0 <= w1 && len > 0 && s > 0,
        ;
        assert((s * s) * (m2 * m2) < (len * len) * ((w2 + 1) * (w2 + 1))) by (nonlinear_arith)
            requires
                m2 * s < len * (w2 + 1),
                0 <= m2 && 0 <= w2 && len > 0 && s > 0,
        ;
        assert((s * s) * (m3 * m3) < (len * len) * ((w3 + 1) * (w3 + 1))) by (nonlinear_arith)
            requires
                m3 * s < len * (w3 + 1),
                0 <= m3 && 0 <= w3 && len > 0 && s > 0,
        ;
        assert(big * (s * s) < (wsq + 2 * (w1 + w2 + w3) + 3) * (len * len)) by (nonlinear_arith)
            requires
                (s * s) * (m1 * m1) < (len * len) * ((w1 + 1) * (w1 + 1)),
                (s * s) * (m2 * m2) < (len * len) * ((w2 + 1) * (w2 + 1)),
                (s * s) * (m3 * m3) < (len * len) * ((w3 + 1) * (w3 + 1)),
                wsq == w1 * w1 + w2 * w2 + w3 * w3,
                big == m1 * m1 + m2 * m2 + m3 * m3,
        ;
        assert(big * (s * s) < (wsq + 6 * s + 21) * (len * len)) by (nonlinear_arith)
            requires
                big * (s * s) < (wsq + 2 * (w1 + w2 + w3) + 3) * (len * len),
                w1 <= s + 3 && w2 <= s + 3 && w3 <= s + 3,
                len > 0,
        ;
        assert((len * len) * (s * s) <= big * (s * s)) by (nonlinear_arith)
            requires
                len * len <= big,
                s > 0,
        ;
        assert(s * s < wsq + 6 * s + 21) by (nonlinear_arith)
            requires
                (len * len) * (s * s) < (wsq + 6 * s + 21) * (len * len),
                len > 0,
        ;
    }

    // floor back down to the stored squared length of the unit vector
    let q1 = fx_mul_spec(u.x@, u.x@);
    let q2 = fx_mul_spec(u.y@, u.y@);
    let q3 = fx_mul_spec(u.z@, u.z@);
    lemma_floor_div_bounds(w1 * w1, s);
    lemma_floor_div_bounds(w2 * w2, s);
    lemma_floor_div_bounds(w3 * w3, s);
    assert(w1 * w1 <= (s + 4) * (s + 4) && w2 * w2 <= (s + 4) * (s + 4) && w3 * w3 <= (s + 4) * (s
        + 4)) by (nonlinear_arith)
        requires
            0 <= w1 <= s + 3 && 0 <= w2 <= s + 3 && 0 <= w3 <= s + 3,
            s > 0,
    ;
    assert(w1 * w1 / s <= (s + 4) * (s + 4) / s);
    assert(w2 * w2 / s <= (s + 4) * (s + 4) / s);
    assert(w3 * w3 / s <= (s + 4) * (s + 4) / s);
    assert((s + 4) * (s + 4) / s <= s + 9) by (nonlinear_arith)
        requires
            s == 0x1_0000_0000,
    ;
    assert(q1 == w1 * w1 / s && q2 == w2 * w2 / s && q3 == w3 * w3 / s);
    let lsu = v3_length_sq_spec(u);
    assert(lsu == q1 + q2 + q3);
    assert(s * lsu <= wsq < s * lsu + 3 * s) by {
        assert(s * (q1 + q2 + q3) == s * q1 + s * q2 + s * q3) by (nonlinear_arith);
    }
    assert(lsu <= s + 8) by (nonlinear_arith)
        requires
            s * lsu <= wsq,
            wsq <= (s + 4) * (s + 4) - 1,
            s == 0x1_0000_0000,
    ;
    assert(lsu >= s - 9) by (nonlinear_arith)
        requires
            wsq < s * lsu + 3 * s,
            wsq > s * s - 6 * s - 21,
            s == 0x1_0000_0000,
    ;

    // and the final square root lands within eight units of one
    let lenu = v3_length_spec(u);
    assert(lsu > 0);
    crate::scalars::lemma_isqrt_bounds((lsu * s) as nat);
    assert(0 <= lsu * s) by (nonlinear_arith)
        requires
            lsu > 0,
            s > 0,
    ;
    assert(lenu == isqrt_spec((lsu * s) as nat) as int);
    assert(lenu * lenu <= lsu * s < (lenu + 1) * (lenu + 1));
    assert(lenu <= s + 3) by (nonlinear_arith)
        requires
            lenu * lenu <= lsu * s,
            lsu <= s + 8,
            s == 0x1_0000_0000,
            lenu >= 0,
    ;
    assert(lenu >= s - 5) by (nonlinear_arith)
        requires
            lsu * s < (lenu + 1) * (lenu + 1),
            lsu >= s - 9,
            s == 0x1_0000_0000,
            lenu >= 0,
    ;
}

impl Length for Vector3 {
    open spec fn length_spec(&self) -> int {
        v3_length_spec(*self)
    }

    open spec fn length_squared_spec(&self) -> int {
        v3_length_sq_spec(*self)
    }

    fn length(&self) -> (r: Fx)
        ensures
            r@ == v3_length_spec(*self),
    {
        self.length_squared().sqrt()
    }

    fn length_squared(&self) -> (r: Fx)
        ensures
            r@ == v3_length_sq_spec(*self),
    {
        self.dot(*self)
    }
}

impl Vector3 {
    /// The vector with the given components.
    pub fn new(x: Fx, y: Fx, z: Fx) -> (r: Vector3)
        ensures
            r == (Vector3 { x, y, z }),
    {
        Vector3 { x, y, z }
    }

    /// The zero vector.
    pub fn zero() -> (r: Vector3)
        ensures
            r == v3(0, 0, 0),
    {
        Vector3 { x: Fx::zero(), y: Fx::zero(), z: Fx::zero() }
    }

    /// The vector with the color's channels as components.
    pub fn from_color(c: Color) -> (r: Vector3)
        ensures
            r == (Vector3 { x: c.r, y: c.g, z: c.b }),
    {
        Vector3 { x: c.r, y: c.g, z: c.b }
    }

    /// Componentwise sum.
    pub fn add(self, o: Vector3) -> (r: Vector3)
        ensures
            r == v3_add_spec(self, o),
    {
        Vector3 { x: self.x.add(o.x), y: self.y.add(o.y), z: self.z.add(o.z) }
    }

    /// Componentwise difference.
    pub fn sub(self, o: Vector3) -> (r: Vector3)
        ensures
            r == v3_sub_spec(self, o),
    {
        Vector3 { x: self.x.sub(o.x), y: self.y.sub(o.y), z: self.z.sub(o.z) }
    }

    /// Componentwise product.
    pub fn mul(self, o: Vector3) -> (r: Vector3)
        ensures
            r == v3_mul_spec(self, o),
    {
        Vector3 { x: self.x.mul(o.x), y: self.y.mul(o.y), z: self.z.mul(o.z) }
    }

    /// Product with a scalar.
    pub fn scale(self, s: Fx) -> (r: Vector3)
        ensures
            r == v3_scale_spec(self, s@),
    {
        Vector3 { x: self.x.mul(s), y: self.y.mul(s), z: self.z.mul(s) }
    }

    /// Quotient by a scalar; a zero scalar yields the zero vector.
    pub fn div_fx(self, s: Fx) -> (r: Vector3)
        ensures
            r == v3_div_fx_spec(self, s@),
    {
        Vector3 { x: self.x.div(s), y: self.y.div(s), z: self.z.div(s) }
    }

    /// Componentwise negation.
    pub fn neg(self) -> (r: Vector3)
        ensures
            r == v3_neg_spec(self),
    {
        Vector3 { x: self.x.neg(), y: self.y.neg(), z: self.z.neg() }
    }

    /// The dot product.
    pub fn dot(self, o: Vector3) -> (r: Fx)
        ensures
            r@ == v3_dot_spec(self, o),
    {
        self.x.mul(o.x).add(self.y.mul(o.y)).add(self.z.mul(o.z))
    }

    /// The cross product.
    pub fn cross(self, o: Vector3) -> (r: Vector3)
        ensures
            r == v3_cross_spec(self, o),
    {
        Vector3 {
            x: self.y.mul(o.z).sub(self.z.mul(o.y)),
            y: self.z.mul(o.x).sub(self.x.mul(o.z)),
            z: self.x.mul(o.y).sub(self.y.mul(o.x)),
        }
    }

    /// The vector scaled to length one; the zero vector stays zero.
    pub fn unit_vector(self) -> (r: Vector3)
        ensures
            r == v3_unit_spec(self),
    {
        self.div_fx(self.length())
    }

    /// Whether every component is below the near-zero threshold; used to
    /// catch degenerate scatter directions.
    pub fn near_zero(self) -> (r: bool)
        ensures
            r == v3_near_zero_spec(self),
    {
        let s = Fx::from_raw(NEAR_ZERO_RAW);
        self.x.abs().lt(s) && self.y.abs().lt(s) && self.z.abs().lt(s)
    }

    /// The mirror reflection of `self` about the normal `n`; exact when
    /// `n` has exactly unit length.
    pub fn reflect(self, n: Vector3) -> (r: Vector3)
        ensures
            r == v3_reflect_spec(self, n),
    {
        self.sub(n.scale(Fx::from_int(2).mul(self.dot(n))))
    }

    /// Snell-law refraction of `self` (assumed unit length) at a surface
    /// with unit normal `n` and refraction ratio `etai_over_etat`.
    pub fn refract(self, n: Vector3, etai_over_etat: Fx) -> (r: Vector3)
        ensures
            r == v3_refract_spec(self, n, etai_over_etat@),
    {
        let cos_theta = self.neg().dot(n).min(Fx::one());
        let r_out_perp = self.add(n.scale(cos_theta)).scale(etai_over_etat);
        let r_out_parallel = n.scale(
            Fx::one().sub(r_out_perp.length_squared()).abs().sqrt().neg(),
        );
        r_out_perp.add(r_out_parallel)
    }

    /// A vector with three unit draws as components.
    pub fn rand(rng: &mut Rng) -> (r: Vector3)
        ensures
            r == v3_rand_range_spec(old(rng).state, 0, FX_SCALE as int),
            final(rng).state == rng_step(rng_step(rng_step(old(rng).state))),
    {
        Vector3::rand_range(rng, Fx::zero(), Fx::one())
    }

    /// A vector with three draws rescaled into `[min, max)` as components.
    pub fn rand_range(rng: &mut Rng, min: Fx, max: Fx) -> (r: Vector3)
        ensures
            r == v3_rand_range_spec(old(rng).state, min@, max@),
            final(rng).state == rng_step(rng_step(rng_step(old(rng).state))),
    {
        let d = max.sub(min);
        let x = min.add(rng.next_unit().mul(d));
        let y = min.add(rng.next_unit().mul(d));
        let z = min.add(rng.next_unit().mul(d));
        Vector3 { x, y, z }
    }
}

} // verus!
