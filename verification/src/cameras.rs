//! The camera: maps normalized image-plane coordinates to world-space
//! rays, with look-from/look-at/up orientation, a vertical field of
//! view, and a thin-lens depth-of-field model.

use crate::rays::Ray;
use crate::rng::{rng_step, Rng};
use crate::scalars::{fx_clip, fx_div_spec, fx_mul_spec, fx_tan_spec, Fx, FX_SCALE};
use crate::util::{degrees_to_radians, degrees_to_radians_spec, rand_range, rand_range_spec, SAMPLE_TRIES};
use crate::vectors::{
    v3, v3_add_spec, v3_cross_spec, v3_div_fx_spec, v3_length_sq_spec, v3_length_spec,
    v3_scale_spec, v3_sub_spec, v3_unit_spec, Length, Vector3,
};
use crate::RenderError;
use vstd::prelude::*;

verus! {

/// An immutable camera frame, computed once from scene parameters.
#[derive(Clone, Copy, PartialEq, Eq, Structural, Debug)]
pub struct Camera {
    pub origin: Vector3,
    pub lower_left_corner: Vector3,
    pub horizontal: Vector3,
    pub vertical: Vector3,
    pub u: Vector3,
    pub v: Vector3,
    pub w: Vector3,
    pub lens_radius: Fx,
}

/// Raw value of the viewport half-height for a vertical field of view in
/// degrees: the tangent of half the angle.
pub open spec fn viewport_half_height_spec(vfov: int) -> int {
    fx_tan_spec(fx_div_spec(degrees_to_radians_spec(vfov), fx_clip(2 * FX_SCALE)))
}

/// Whether the camera parameters describe a real, nondegenerate frame:
/// the conditions under which construction succeeds.
pub open spec fn camera_valid_spec(
    lookfrom: Vector3,
    lookat: Vector3,
    vup: Vector3,
    vfov: int,
    aspect_ratio: int,
    aperture: int,
    focus_dist: int,
) -> bool {
    &&& 0 < vfov < 180 * FX_SCALE
    &&& aspect_ratio > 0
    &&& aperture >= 0
    &&& focus_dist > 0
    &&& viewport_half_height_spec(vfov) > 0
    &&& v3_length_spec(v3_sub_spec(lookfrom, lookat)) > 0
    &&& v3_length_spec(
        v3_cross_spec(vup, v3_unit_spec(v3_sub_spec(lookfrom, lookat))),
    ) > 0
}

/// The error construction reports for the given parameters: the first
/// check that fails, in the order the checks run.
pub open spec fn camera_error_spec(
    lookfrom: Vector3,
    lookat: Vector3,
    vup: Vector3,
    vfov: int,
    aspect_ratio: int,
    aperture: int,
    focus_dist: int,
) -> RenderError {
    if !(0 < vfov < 180 * FX_SCALE) {
        RenderError::InvalidFieldOfView
    } else if !(aspect_ratio > 0) {
        RenderError::InvalidAspectRatio
    } else if !(aperture >= 0) {
        RenderError::InvalidAperture
    } else if !(focus_dist > 0) {
        RenderError::InvalidFocusDistance
    } else if !(viewport_half_height_spec(vfov) > 0) {
        RenderError::DegenerateViewport
    } else {
        RenderError::DegenerateOrientation
    }
}

/// The frame a valid construction yields.
pub open spec fn camera_frame_spec(
    lookfrom: Vector3,
    lookat: Vector3,
    vup: Vector3,
    vfov: int,
    aspect_ratio: int,
    aperture: int,
    focus_dist: int,
) -> Camera {
    let h = viewport_half_height_spec(vfov);
    let viewport_height = fx_mul_spec(fx_clip(2 * FX_SCALE), h);
    let viewport_width = fx_mul_spec(aspect_ratio, viewport_height);
    let w = v3_unit_spec(v3_sub_spec(lookfrom, lookat));
    let u = v3_unit_spec(v3_cross_spec(vup, w));
    let v = v3_cross_spec(w, u);
    let horizontal = v3_scale_spec(u, fx_mul_spec(focus_dist, viewport_width));
    let vertical = v3_scale_spec(v, fx_mul_spec(focus_dist, viewport_height));
    let lower_left_corner = v3_sub_spec(
        v3_sub_spec(
            v3_sub_spec(lookfrom, v3_div_fx_spec(horizontal, fx_clip(2 * FX_SCALE))),
            v3_div_fx_spec(vertical, fx_clip(2 * FX_SCALE)),
        ),
        v3_scale_spec(w, focus_dist),
    );
    Camera {
        origin: lookfrom,
        lower_left_corner,
        horizontal,
        vertical,
        u,
        v,
        w,
        lens_radius: crate::scalars::fxs(fx_div_spec(aperture, fx_clip(2 * FX_SCALE))),
    }
}

/// The vector a bounded rejection draw inside the unit disk yields from
/// the given state with the given tries left, with the state after.
pub open spec fn unit_disk_draw_spec(s: u64, tries: nat) -> (Vector3, u64)
    decreases tries,
{
    let x = rand_range_spec(s, -(FX_SCALE as int), FX_SCALE as int);
    let y = rand_range_spec(rng_step(s), -(FX_SCALE as int), FX_SCALE as int);
    let p = v3(x, y, 0);
    let s2 = rng_step(rng_step(s));
    if v3_length_sq_spec(p) < FX_SCALE as int {
        (p, s2)
    } else if tries == 0 {
        (v3(0, 0, 0), s2)
    } else {
        unit_disk_draw_spec(s2, (tries - 1) as nat)
    }
}

/// What `random_in_unit_disk` yields from the given state.
pub open spec fn random_in_unit_disk_spec(s: u64) -> (Vector3, u64) {
    unit_disk_draw_spec(s, SAMPLE_TRIES as nat)
}

/// One bounded rejection draw in the disk's bounding square, retried
/// while it falls outside the disk, with the disk's center as the
/// fallback once the tries run out.
fn draw_in_unit_disk(rng: &mut Rng, tries: u32) -> (p: Vector3)
    ensures
        p == unit_disk_draw_spec(old(rng).state, tries as nat).0,
        final(rng).state == unit_disk_draw_spec(old(rng).state, tries as nat).1,
    decreases tries,
{
    let x = rand_range(rng, Fx::from_int(-1), Fx::one());
    let y = rand_range(rng, Fx::from_int(-1), Fx::one());
    let p = Vector3::new(x, y, Fx::zero());
    if p.length_squared().lt(Fx::one()) {
        p
    } else if tries == 0 {
        Vector3::zero()
    } else {
        draw_in_unit_disk(rng, tries - 1)
    }
}

/// Draws a point strictly inside the unit disk of the lens plane by
/// rejection sampling.
pub fn random_in_unit_disk(rng: &mut Rng) -> (p: Vector3)
    ensures
        p == random_in_unit_disk_spec(old(rng).state).0,
        final(rng).state == random_in_unit_disk_spec(old(rng).state).1,
{
    draw_in_unit_disk(rng, SAMPLE_TRIES)
}

/// The ray `get_ray` builds for normalized image coordinates and the
/// given generator state, with the state after.
pub open spec fn camera_get_ray_spec(cam: Camera, s: int, t: int, state: u64) -> (Ray, u64) {
    let (d, state1) = random_in_unit_disk_spec(state);
    let rd = v3_scale_spec(d, cam.lens_radius@);
    let offset = v3_add_spec(v3_scale_spec(cam.u, rd.x@), v3_scale_spec(cam.v, rd.y@));
    (
        Ray {
            origin: v3_add_spec(cam.origin, offset),
            direction: v3_sub_spec(
                v3_sub_spec(
                    v3_add_spec(
                        v3_add_spec(cam.lower_left_corner, v3_scale_spec(cam.horizontal, s)),
                        v3_scale_spec(cam.vertical, t),
                    ),
                    cam.origin,
                ),
                offset,
            ),
        },
        state1,
    )
}

impl Camera {
    /// A camera frame from scene parameters: look-from and look-at
    /// points, an up vector, a vertical field of view in degrees, an
    /// aspect ratio, an aperture diameter, and a focus distance. Fails
    /// fast with the first invalid or degenerate parameter; succeeds if
    /// and only if the parameters describe a real frame.
    pub fn new(
        lookfrom: Vector3,
        lookat: Vector3,
        vup: Vector3,
        vfov: Fx,
        aspect_ratio: Fx,
        aperture: Fx,
        focus_dist: Fx,
    ) -> (r: Result<Camera, RenderError>)
        ensures
            r is Ok <==> camera_valid_spec(
                lookfrom,
                lookat,
                vup,
                vfov@,
                aspect_ratio@,
                aperture@,
                focus_dist@,
            ),
            r matches Ok(cam) ==> cam == camera_frame_spec(
                lookfrom,
                lookat,
                vup,
                vfov@,
                aspect_ratio@,
                aperture@,
                focus_dist@,
            ),
            r matches Err(e) ==> e == camera_error_spec(
                lookfrom,
                lookat,
                vup,
                vfov@,
                aspect_ratio@,
                aperture@,
                focus_dist@,
            ),
    {
        if !(vfov.gt(Fx::zero()) && vfov.lt(Fx::from_int(180))) {
            return Err(RenderError::InvalidFieldOfView);
        }
        if !aspect_ratio.gt(Fx::zero()) {
            return Err(RenderError::InvalidAspectRatio);
        }
        if !aperture.ge(Fx::zero()) {
            return Err(RenderError::InvalidAperture);
        }
        if !focus_dist.gt(Fx::zero()) {
            return Err(RenderError::InvalidFocusDistance);
        }
        let theta = degrees_to_radians(vfov);
        let h = theta.div(Fx::from_int(2)).tan();
        if !h.gt(Fx::zero()) {
            return Err(RenderError::DegenerateViewport);
        }
        let viewport_height = Fx::from_int(2).mul(h);
        let viewport_width = aspect_ratio.mul(viewport_height);

        let gaze = lookfrom.sub(lookat);
        if !gaze.length().gt(Fx::zero()) {
            return Err(RenderError::DegenerateOrientation);
        }
        let w = gaze.unit_vector();
        let side = vup.cross(w);
        if !side.length().gt(Fx::zero()) {
            return Err(RenderError::DegenerateOrientation);
        }
        let u = side.unit_vector();
        let v = w.cross(u);

        let origin = lookfrom;
        let horizontal = u.scale(focus_dist.mul(viewport_width));
        let vertical = v.scale(focus_dist.mul(viewport_height));
        let two = Fx::from_int(2);
        let lower_left_corner = origin.sub(horizontal.div_fx(two)).sub(vertical.div_fx(two)).sub(
            w.scale(focus_dist),
        );

        let lens_radius = aperture.div(two);

        Ok(
            Camera {
                origin,
                lower_left_corner,
                horizontal,
                vertical,
                u,
                v,
                w,
                lens_radius,
            },
        )
    }

    /// The world-space ray through the image point `(s, t)`, with its
    /// origin jittered over the lens disk for depth of field.
    pub fn get_ray(&self, s: Fx, t: Fx, rng: &mut Rng) -> (r: Ray)
        ensures
            r == camera_get_ray_spec(*self, s@, t@, old(rng).state).0,
            final(rng).state == camera_get_ray_spec(*self, s@, t@, old(rng).state).1,
    {
        let rd = random_in_unit_disk(rng).scale(self.lens_radius);
        let offset = self.u.scale(rd.x).add(self.v.scale(rd.y));

        Ray {
            origin: self.origin.add(offset),
            direction: self.lower_left_corner.add(self.horizontal.scale(s)).add(
                self.vertical.scale(t),
            ).sub(self.origin).sub(offset),
        }
    }
}

} // verus!
