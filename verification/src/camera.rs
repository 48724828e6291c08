use crate::point::{
    cross_pt, diff_pt, half_pt, in_range, len_sq_spec, scale_pt, unit_pt, within, Point, Vec3,
};
use crate::ray::Ray;
use crate::utility::{fx_mul, fx_mul_spec, SCALE};
use vstd::math::abs;
use vstd::prelude::*;

verus! {

/// Largest component magnitude of the camera's user-set points.
pub const CAM_PT_MAX: i64 = 134217728;

/// A pinhole-with-aperture camera. The user sets the viewing fields; the
/// basis vectors, viewport extents and focus distance are recomputed from
/// them whenever one changes, so derived state is never stale.
#[derive(Clone, Copy, Debug, PartialEq, Eq, Structural)]
pub struct Camera {
    pub aspect_ratio: i64,
    pub view_h: i64,
    pub view_w: i64,
    pub origin: Point,
    pub lower_left: Point,
    pub x_axis: Vec3,
    pub y_axis: Vec3,
    pub look_from: Point,
    pub look_at: Point,
    pub vup: Vec3,
    pub lens_radius: i64,
    pub u: Vec3,
    pub v: Vec3,
    pub w: Vec3,
    pub focus_dist: i64,
}

/// The camera's user-set fields lie in the accepted ranges and the view
/// direction is usable.
pub open spec fn camera_user_wf(c: Camera) -> bool {
    &&& within(c.look_from, CAM_PT_MAX as int)
    &&& within(c.look_at, CAM_PT_MAX as int)
    &&& within(c.vup, CAM_PT_MAX as int)
    &&& len_sq_spec(diff_pt(c.look_from, c.look_at)) > 0
    &&& 0 < c.aspect_ratio <= 16 * SCALE as int
    &&& 0 < c.view_h <= 64 * SCALE as int
    &&& 0 <= c.lens_radius <= SCALE
}

/// The derived fields lie in the ranges the ray generator needs.
pub open spec fn camera_wf(c: Camera) -> bool {
    &&& camera_user_wf(c)
    &&& within(c.origin, 134479872int)
    &&& within(c.u, 2 * SCALE as int)
    &&& within(c.v, 2 * SCALE as int)
    &&& within(c.w, 2 * SCALE as int)
    &&& within(c.x_axis, 0x100_0000_0000)
    &&& within(c.y_axis, 0x100_0000_0000)
    &&& within(c.lower_left, 0x400_0000_0000)
}

/// The unit right-axis: the normalized cross product of the up vector and
/// the backward axis, or a fixed axis when the two are parallel.
pub open spec fn camera_u_spec(vup: Vec3, w: Vec3) -> Vec3 {
    let cru = cross_pt(vup, w);
    if len_sq_spec(cru) > 0 {
        unit_pt(cru)
    } else {
        Point { x: SCALE, y: 0i64, z: 0i64 }
    }
}

/// All derived fields as functions of the user-set fields.
pub open spec fn derived_spec(c: Camera) -> Camera {
    let gaze = diff_pt(c.look_from, c.look_at);
    let w = unit_pt(gaze);
    let u = camera_u_spec(c.vup, w);
    let v = cross_pt(w, u);
    let focus = crate::utility::sqrt_floor(len_sq_spec(gaze)) as i64;
    let origin = c.look_from;
    let view_w = fx_mul_spec(c.aspect_ratio as int, c.view_h as int) as i64;
    let x_axis = scale_pt(scale_pt(u, view_w as int), focus as int);
    let y_axis = scale_pt(scale_pt(v, c.view_h as int), focus as int);
    let lower_left = diff_pt(
        diff_pt(diff_pt(origin, half_pt(x_axis)), half_pt(y_axis)),
        scale_pt(w, focus as int),
    );
    Camera { view_w, lower_left, x_axis, y_axis, origin, w, u, v, focus_dist: focus, ..c }
}

/// Whether every lens-center ray of this camera is one the tracer
/// accepts, over the whole jittered image-coordinate range.
pub open spec fn center_rays_ok(c: Camera) -> bool {
    forall|x: int, y: int|
        0 <= x <= 2 * SCALE && 0 <= y <= 2 * SCALE ==> crate::ray::ray_wf(
            Ray { origin: c.origin, direction: #[trigger] center_direction_spec(c, x, y) },
        )
}

/// The direction of a ray through image coordinates `(x, y)` from the
/// lens center: `lower_left + x * x_axis + y * y_axis - origin`.
pub open spec fn center_direction_spec(c: Camera, x: int, y: int) -> Point {
    diff_pt(
        Point {
            x: (c.lower_left.x + fx_mul_spec(c.x_axis.x as int, x) + fx_mul_spec(
                c.y_axis.x as int,
                y,
            )) as i64,
            y: (c.lower_left.y + fx_mul_spec(c.x_axis.y as int, x) + fx_mul_spec(
                c.y_axis.y as int,
                y,
            )) as i64,
            z: (c.lower_left.z + fx_mul_spec(c.x_axis.z as int, x) + fx_mul_spec(
                c.y_axis.z as int,
                y,
            )) as i64,
        },
        c.origin,
    )
}

impl Camera {
    /// The camera the renderer starts from: a square viewport two units
    /// tall at unit focal distance.
    pub fn new() -> (c: Self)
        ensures
            c == Camera::default_spec(),
    {
        Camera {
            aspect_ratio: SCALE,
            view_h: 2 * SCALE,
            view_w: 2 * SCALE,
            origin: Point { x: 0, y: 0, z: 0 },
            x_axis: Point { x: 2 * SCALE, y: 0, z: 0 },
            y_axis: Point { x: 0, y: 2 * SCALE, z: 0 },
            lower_left: Point { x: -SCALE, y: -SCALE, z: -SCALE },
            look_from: Point { x: 0, y: 0, z: 0 },
            look_at: Point { x: SCALE, y: 0, z: -SCALE },
            vup: Point { x: 0, y: SCALE, z: 0 },
            lens_radius: SCALE,
            u: Point { x: 0, y: 0, z: 0 },
            v: Point { x: 0, y: 0, z: 0 },
            w: Point { x: 0, y: 0, z: 0 },
            focus_dist: 92681,
        }
    }

    /// The starting configuration as a value.
    pub open spec fn default_spec() -> Camera {
        Camera {
            aspect_ratio: SCALE as i64,
            view_h: (2 * SCALE) as i64,
            view_w: (2 * SCALE) as i64,
            origin: Point { x: 0i64, y: 0i64, z: 0i64 },
            x_axis: Point { x: (2 * SCALE) as i64, y: 0i64, z: 0i64 },
            y_axis: Point { x: 0i64, y: (2 * SCALE) as i64, z: 0i64 },
            lower_left: Point { x: (-SCALE) as i64, y: (-SCALE) as i64, z: (-SCALE) as i64 },
            look_from: Point { x: 0i64, y: 0i64, z: 0i64 },
            look_at: Point { x: SCALE as i64, y: 0i64, z: (-SCALE) as i64 },
            vup: Point { x: 0i64, y: SCALE as i64, z: 0i64 },
            lens_radius: SCALE as i64,
            u: Point { x: 0i64, y: 0i64, z: 0i64 },
            v: Point { x: 0i64, y: 0i64, z: 0i64 },
            w: Point { x: 0i64, y: 0i64, z: 0i64 },
            focus_dist: 92681i64,
        }
    }

    /// Recompute every derived field from the current user-set fields.
    #[verifier::rlimit(100)]
    #[verifier::spinoff_prover]
    fn update_dependent_components(self) -> (c: Self)
        requires
            camera_user_wf(self),
        ensures
            c == derived_spec(self),
            camera_wf(c),
    {
        let gaze = self.look_from.sub(self.look_at);
        proof {
            crate::point::lemma_dot_mag(gaze, gaze, 268435456, 268435456);
        }
        let w = gaze.unit();
        let cru = self.vup.cross(w);
        proof {
            crate::utility::lemma_fx_mul_mag(self.vup.y as int, w.z as int, 134217728, 65536);
            crate::utility::lemma_fx_mul_mag(self.vup.z as int, w.y as int, 134217728, 65536);
            crate::utility::lemma_fx_mul_mag(self.vup.z as int, w.x as int, 134217728, 65536);
            crate::utility::lemma_fx_mul_mag(self.vup.x as int, w.z as int, 134217728, 65536);
            crate::utility::lemma_fx_mul_mag(self.vup.x as int, w.y as int, 134217728, 65536);
            crate::utility::lemma_fx_mul_mag(self.vup.y as int, w.x as int, 134217728, 65536);
            crate::point::lemma_dot_mag(cru, cru, 268435456, 268435456);
        }
        let cru_ls: i128 = cru.len_sq();
        let u = if cru_ls > 0 {
            cru.unit()
        } else {
            Point { x: SCALE, y: 0, z: 0 }
        };
        proof {
            crate::utility::lemma_fx_mul_mag(w.y as int, u.z as int, 65536, 65536);
            crate::utility::lemma_fx_mul_mag(w.z as int, u.y as int, 65536, 65536);
            crate::utility::lemma_fx_mul_mag(w.z as int, u.x as int, 65536, 65536);
            crate::utility::lemma_fx_mul_mag(w.x as int, u.z as int, 65536, 65536);
            crate::utility::lemma_fx_mul_mag(w.x as int, u.y as int, 65536, 65536);
            crate::utility::lemma_fx_mul_mag(w.y as int, u.x as int, 65536, 65536);
        }
        let v = w.cross(u);
        let focus = gaze.len();
        proof {
            let f = focus as int;
            if f > 536870912 {
                assert(f * f > 536870912int * 536870912int) by (nonlinear_arith)
                    requires
                        f > 536870912,
                ;
            }
        }
        let origin = self.look_from;
        proof {
            crate::utility::lemma_fx_mul_mag(
                self.aspect_ratio as int,
                self.view_h as int,
                1048576,
                4194304,
            );
        }
        let view_w = fx_mul(self.aspect_ratio, self.view_h);
        proof {
            crate::utility::lemma_fx_mul_mag(u.x as int, view_w as int, 65536, 67108864);
            crate::utility::lemma_fx_mul_mag(u.y as int, view_w as int, 65536, 67108864);
            crate::utility::lemma_fx_mul_mag(u.z as int, view_w as int, 65536, 67108864);
            crate::utility::lemma_fx_mul_mag(v.x as int, self.view_h as int, 131072, 4194304);
            crate::utility::lemma_fx_mul_mag(v.y as int, self.view_h as int, 131072, 4194304);
            crate::utility::lemma_fx_mul_mag(v.z as int, self.view_h as int, 131072, 4194304);
        }
        let xa_unit = u.scale(view_w);
        let ya_unit = v.scale(self.view_h);
        proof {
            crate::utility::lemma_fx_mul_mag(xa_unit.x as int, focus as int, 67108864, 536870912);
            crate::utility::lemma_fx_mul_mag(xa_unit.y as int, focus as int, 67108864, 536870912);
            crate::utility::lemma_fx_mul_mag(xa_unit.z as int, focus as int, 67108864, 536870912);
            crate::utility::lemma_fx_mul_mag(ya_unit.x as int, focus as int, 8388608, 536870912);
            crate::utility::lemma_fx_mul_mag(ya_unit.y as int, focus as int, 8388608, 536870912);
            crate::utility::lemma_fx_mul_mag(ya_unit.z as int, focus as int, 8388608, 536870912);
            crate::utility::lemma_fx_mul_mag(w.x as int, focus as int, 65536, 536870912);
            crate::utility::lemma_fx_mul_mag(w.y as int, focus as int, 65536, 536870912);
            crate::utility::lemma_fx_mul_mag(w.z as int, focus as int, 65536, 536870912);
        }
        let x_axis = xa_unit.scale(focus);
        let y_axis = ya_unit.scale(focus);
        let half_x = Point { x: x_axis.x / 2, y: x_axis.y / 2, z: x_axis.z / 2 };
        let half_y = Point { x: y_axis.x / 2, y: y_axis.y / 2, z: y_axis.z / 2 };
        let lower_left = origin.sub(half_x).sub(half_y).sub(w.scale(focus));
        proof {
            let ds = derived_spec(self);
            assert(gaze == diff_pt(self.look_from, self.look_at));
            assert(w == ds.w);
            assert(u == ds.u);
            assert(v == ds.v);
            assert(focus == ds.focus_dist);
            assert(view_w == ds.view_w);
            assert(x_axis == ds.x_axis);
            assert(y_axis == ds.y_axis);
            assert(half_x == half_pt(x_axis));
            assert(half_y == half_pt(y_axis));
            assert(lower_left == ds.lower_left);
        }
        Camera { view_w, lower_left, x_axis, y_axis, origin, w, u, v, focus_dist: focus, ..self }
    }

    /// Change the width-to-height ratio of the viewport.
    pub fn aspect_ratio(self, aspect_ratio: i64) -> (c: Self)
        requires
            camera_user_wf(self),
            0 < aspect_ratio <= 16 * SCALE as int,
        ensures
            c == derived_spec(Camera { aspect_ratio, ..self }),
            camera_wf(c),
    {
        Camera { aspect_ratio, ..self }.update_dependent_components()
    }

    /// Change the viewport height.
    pub fn viewport_height(self, view_h: i64) -> (c: Self)
        requires
            camera_user_wf(self),
            0 < view_h <= 64 * SCALE as int,
        ensures
            c == derived_spec(Camera { view_h, ..self }),
            camera_wf(c),
    {
        Camera { view_h, ..self }.update_dependent_components()
    }

    /// Change the ray origin directly; the next recomputation derives the
    /// origin from the look-from point again.
    pub fn origin(self, origin: Point) -> (c: Self)
        requires
            camera_user_wf(self),
            within(origin, CAM_PT_MAX as int),
        ensures
            c == derived_spec(Camera { origin, ..self }),
            camera_wf(c),
    {
        Camera { origin, ..self }.update_dependent_components()
    }

    /// Change the focus distance directly; the next recomputation derives
    /// it from the look points again.
    pub fn focus_dist(self, dist: i64) -> (c: Self)
        requires
            camera_user_wf(self),
            0 <= dist,
        ensures
            c == derived_spec(Camera { focus_dist: dist, ..self }),
            camera_wf(c),
    {
        Camera { focus_dist: dist, ..self }.update_dependent_components()
    }

    /// Change the vertical field of view, given as the tangent of half the
    /// viewing angle: the viewport becomes twice that tall.
    pub fn vfov(self, tan_half: i64) -> (c: Self)
        requires
            camera_user_wf(self),
            0 < tan_half <= 32 * SCALE as int,
        ensures
            c == derived_spec(Camera { view_h: (2 * tan_half) as i64, ..self }),
            camera_wf(c),
    {
        Camera { view_h: 2 * tan_half, ..self }.update_dependent_components()
    }

    /// Change the point the camera looks at.
    pub fn look_at(self, lookat: Point) -> (c: Self)
        requires
            camera_user_wf(self),
            within(lookat, CAM_PT_MAX as int),
            len_sq_spec(diff_pt(self.look_from, lookat)) > 0,
        ensures
            c == derived_spec(Camera { look_at: lookat, ..self }),
            camera_wf(c),
    {
        Camera { look_at: lookat, ..self }.update_dependent_components()
    }

    /// Change the point the camera looks from.
    pub fn look_from(self, lookfrom: Point) -> (c: Self)
        requires
            camera_user_wf(self),
            within(lookfrom, CAM_PT_MAX as int),
            len_sq_spec(diff_pt(lookfrom, self.look_at)) > 0,
        ensures
            c == derived_spec(Camera { look_from: lookfrom, ..self }),
            camera_wf(c),
    {
        Camera { look_from: lookfrom, ..self }.update_dependent_components()
    }

    /// Change the lens radius (the aperture for defocus blur).
    pub fn lens_radius(self, radius: i64) -> (c: Self)
        requires
            camera_user_wf(self),
            0 <= radius <= SCALE,
        ensures
            c == derived_spec(Camera { lens_radius: radius, ..self }),
            camera_wf(c),
    {
        Camera { lens_radius: radius, ..self }.update_dependent_components()
    }

    /// A ray through normalized image coordinates, jittered over the lens
    /// disk for defocus blur. With a zero lens radius the ray is exactly
    /// the one through the lens center; whatever the lens sample, the lens
    /// offset cancels, so origin plus direction is always the same
    /// focal-plane point.
    #[verifier::rlimit(100)]
    #[verifier::spinoff_prover]
    pub fn get_ray(&self, x: i64, y: i64) -> (r: Ray)
        requires
            camera_wf(*self),
            0 <= x <= 2 * SCALE as int,
            0 <= y <= 2 * SCALE as int,
        ensures
            within(r.origin, 134742016int),
            within(r.direction, 0x4000_0000_0000),
            self.lens_radius == 0 ==> r.origin == self.origin && r.direction
                == center_direction_spec(*self, x as int, y as int),
            r.origin.x + r.direction.x == self.lower_left.x + fx_mul_spec(
                self.x_axis.x as int,
                x as int,
            ) + fx_mul_spec(self.y_axis.x as int, y as int),
            r.origin.y + r.direction.y == self.lower_left.y + fx_mul_spec(
                self.x_axis.y as int,
                x as int,
            ) + fx_mul_spec(self.y_axis.y as int, y as int),
            r.origin.z + r.direction.z == self.lower_left.z + fx_mul_spec(
                self.x_axis.z as int,
                x as int,
            ) + fx_mul_spec(self.y_axis.z as int, y as int),
    {
        let sample = Point::random_in_unit_disk();
        proof {
            crate::utility::lemma_fx_mul_mag(sample.x as int, self.lens_radius as int, 65536, 65536);
            crate::utility::lemma_fx_mul_mag(sample.y as int, self.lens_radius as int, 65536, 65536);
            crate::utility::lemma_fx_mul_mag(sample.z as int, self.lens_radius as int, 65536, 65536);
            if self.lens_radius == 0 {
                lemma_scale_zero(sample);
            }
        }
        let in_disk = sample.scale(self.lens_radius);
        proof {
            crate::utility::lemma_fx_mul_mag(self.u.x as int, in_disk.x as int, 131072, 65536);
            crate::utility::lemma_fx_mul_mag(self.u.y as int, in_disk.x as int, 131072, 65536);
            crate::utility::lemma_fx_mul_mag(self.u.z as int, in_disk.x as int, 131072, 65536);
            crate::utility::lemma_fx_mul_mag(self.v.x as int, in_disk.y as int, 131072, 65536);
            crate::utility::lemma_fx_mul_mag(self.v.y as int, in_disk.y as int, 131072, 65536);
            crate::utility::lemma_fx_mul_mag(self.v.z as int, in_disk.y as int, 131072, 65536);
            if self.lens_radius == 0 {
                lemma_scale_zero(self.u);
                lemma_scale_zero(self.v);
            }
        }
        let offset = self.u.scale(in_disk.x).add(self.v.scale(in_disk.y));
        proof {
            crate::utility::lemma_fx_mul_mag(self.x_axis.x as int, x as int, 0x100_0000_0000, 131072);
            crate::utility::lemma_fx_mul_mag(self.x_axis.y as int, x as int, 0x100_0000_0000, 131072);
            crate::utility::lemma_fx_mul_mag(self.x_axis.z as int, x as int, 0x100_0000_0000, 131072);
            crate::utility::lemma_fx_mul_mag(self.y_axis.x as int, y as int, 0x100_0000_0000, 131072);
            crate::utility::lemma_fx_mul_mag(self.y_axis.y as int, y as int, 0x100_0000_0000, 131072);
            crate::utility::lemma_fx_mul_mag(self.y_axis.z as int, y as int, 0x100_0000_0000, 131072);
        }
        let sx = self.x_axis.scale(x);
        let sy = self.y_axis.scale(y);
        let direction = self.lower_left.add(sx).add(sy).sub(self.origin).sub(offset);
        Ray::new(self.origin.add(offset), direction)
    }
}

/// Scaling any vector by a zero factor gives the zero vector.
proof fn lemma_scale_zero(v: Point)
    ensures
        fx_mul_spec(v.x as int, 0) == 0,
        fx_mul_spec(v.y as int, 0) == 0,
        fx_mul_spec(v.z as int, 0) == 0,
{
    assert((v.x as int) * 0 == 0 && (v.y as int) * 0 == 0 && (v.z as int) * 0 == 0)
        by (nonlinear_arith);
}

} // verus!
