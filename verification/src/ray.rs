use crate::collidable::CollidableVec;
use crate::color::{color_unit, Color};
use crate::material::{material_wf, Material, ScatterOutcome};
use crate::point::{dot_spec, in_range, len_sq_spec, neg_pt, unit_num, within, Point, Vec3, VMAX};
use crate::utility::{fx_mul, fx_mul_spec, SCALE};
use vstd::math::abs;
use vstd::prelude::*;

verus! {

/// Largest component magnitude a ray origin may have.
pub const PMAX: i64 = 134217728;

/// Largest component magnitude a ray direction may have.
pub const DMAX: i64 = 268435456;

/// Lower bound of the intersection interval while tracing: keeps a bounced
/// ray from re-hitting its own surface.
pub const T_EPS: i64 = 65;

/// Upper bound of the intersection interval while tracing.
pub const T_MAX: i64 = 1073741824;

/// Whether the outward geometric normal of a hit pointed against (front)
/// or with (back) the incoming ray.
#[derive(Clone, Copy, Debug, PartialEq, Eq, Structural)]
pub enum Facing {
    Front,
    Back,
}

/// A ray: an origin and a direction, both fixed-point triples.
#[derive(Clone, Copy, Debug, PartialEq, Eq, Structural)]
pub struct Ray {
    pub origin: Point,
    pub direction: Vec3,
}

/// A ray the tracer accepts: bounded components and a usable direction.
pub open spec fn ray_wf(r: Ray) -> bool {
    &&& within(r.origin, PMAX as int)
    &&& within(r.direction, DMAX as int)
    &&& len_sq_spec(r.direction) > 0
}

/// A surface hit: the point, the against-the-ray normal, the parametric
/// distance, which side was struck, and the surface's material.
#[derive(Clone, Copy, Debug, PartialEq, Eq, Structural)]
pub struct Collision {
    pub point: Point,
    pub normal: Vec3,
    pub dist: i64,
    pub facing: Facing,
    pub material: Material,
}

/// A hit record the materials accept: bounded fields and a sound material.
pub open spec fn collision_wf(c: Collision) -> bool {
    &&& within(c.point, PMAX as int)
    &&& within(c.normal, 262144)
    &&& 0 <= c.dist
    &&& material_wf(c.material)
}

/// The normal the front-facing convention picks: the outward normal where
/// it opposes the ray, its negation where it does not.
pub open spec fn oriented_normal(d: Vec3, outward: Vec3) -> Vec3 {
    if dot_spec(d, outward) < 0 {
        outward
    } else {
        neg_pt(outward)
    }
}

/// The components of the point a ray reaches at parameter `t`:
/// `origin + t * direction`.
pub open spec fn at_num(r: Ray, t: int) -> (int, int, int) {
    (
        r.origin.x + fx_mul_spec(t, r.direction.x as int),
        r.origin.y + fx_mul_spec(t, r.direction.y as int),
        r.origin.z + fx_mul_spec(t, r.direction.z as int),
    )
}

impl Collision {
    pub fn new(point: Point, normal: Vec3, dist: i64, facing: Facing, material: Material) -> (c:
        Self)
        ensures
            c == (Collision { point, normal, dist, facing, material }),
    {
        Collision { point, normal, dist, facing, material }
    }

    /// Orient the stored normal against the ray and record which side the
    /// outward normal was on.
    pub fn set_face_normal(&mut self, ray: &Ray, outward_normal: Vec3) -> (nothing: ())
        requires
            in_range(old(self).normal),
            in_range(ray.direction),
            within(outward_normal, VMAX as int),
        ensures
            final(self).normal == oriented_normal(ray.direction, outward_normal),
            final(self).facing == if dot_spec(ray.direction, outward_normal) < 0 {
                Facing::Front
            } else {
                Facing::Back
            },
            final(self).point == old(self).point,
            final(self).dist == old(self).dist,
            final(self).material == old(self).material,
    {
        let d: i128 = ray.direction.dot_product(outward_normal);
        if d < 0 {
            self.normal = outward_normal;
            self.facing = Facing::Front;
        } else {
            self.normal = outward_normal.neg();
            self.facing = Facing::Back;
        }
    }
}

/// The front-facing convention works: whenever the ray is not exactly
/// tangent to the surface, the oriented normal strictly opposes the ray
/// direction.
pub proof fn lemma_face_normal_opposes(d: Vec3, outward: Vec3)
    requires
        within(outward, VMAX as int),
        dot_spec(d, outward) != 0,
    ensures
        dot_spec(d, oriented_normal(d, outward)) < 0,
{
    if dot_spec(d, outward) >= 0 {
        crate::point::lemma_dot_neg(d, outward);
    }
}

impl Ray {
    pub fn new(origin: Point, direction: Vec3) -> (r: Self)
        ensures
            r == (Ray { origin, direction }),
    {
        Ray { origin, direction }
    }

    /// The point the ray reaches at parameter `t`.
    pub fn at(&self, t: i64) -> (p: Point)
        requires
            within(self.origin, PMAX as int),
            within(self.direction, DMAX as int),
            0 <= t <= T_MAX,
        ensures
            (p.x as int, p.y as int, p.z as int) == at_num(*self, t as int),
            within(p, 4398180728832),
    {
        proof {
            crate::utility::lemma_fx_mul_mag(t as int, self.direction.x as int, 1073741824, 268435456);
            crate::utility::lemma_fx_mul_mag(t as int, self.direction.y as int, 1073741824, 268435456);
            crate::utility::lemma_fx_mul_mag(t as int, self.direction.z as int, 1073741824, 268435456);
        }
        Point {
            x: self.origin.x + fx_mul(t, self.direction.x),
            y: self.origin.y + fx_mul(t, self.direction.y),
            z: self.origin.z + fx_mul(t, self.direction.z),
        }
    }

    /// The nearest intersection with the scene within `(t_min, t_max]`.
    pub fn collide(&self, other: &CollidableVec, t_min: i64, t_max: i64) -> (r: Option<Collision>)
        requires
            ray_wf(*self),
            crate::collidable::world_wf(*other),
            0 <= t_min <= t_max <= T_MAX,
        ensures
            r == crate::collidable::world_collide_spec(
                other.items@,
                *self,
                t_min,
                t_max,
                None::<Collision>,
            ),
            r matches Some(c) ==> t_min < c.dist <= t_max && collision_wf(c),
    {
        other.collide(self, t_min, t_max)
    }

    /// The background colour a ray that escapes the scene picks up: a
    /// vertical blend from white at the bottom to sky blue at the top.
    pub fn background(&self) -> (c: Color)
        requires
            ray_wf(*self),
        ensures
            c == background_spec(*self),
            color_unit(c),
            c.b == SCALE,
    {
        let u = self.direction.unit();
        let t: i64 = (u.y + SCALE) / 2;
        proof {
            vstd::arithmetic::div_mod::lemma_div_multiples_vanish(t as int, 65536);
            crate::utility::lemma_fx_mul_mag(t as int, 32768, 65536, 65536);
            crate::utility::lemma_fx_mul_mag(t as int, 45875, 65536, 65536);
            crate::utility::lemma_fx_mul_mag(t as int, 65536, 65536, 65536);
            lemma_blend_unit(t as int, 32768);
            lemma_blend_unit(t as int, 45875);
            lemma_blend_unit(t as int, 65536);
        }
        Color {
            r: (SCALE - t) + fx_mul(t, 32768),
            g: (SCALE - t) + fx_mul(t, 45875),
            b: (SCALE - t) + fx_mul(t, 65536),
        }
    }

    /// Trace the ray through the scene with the given bounce budget,
    /// multiplying attenuations along the path. A ray that leaves the
    /// representable range is treated as absorbed.
    pub fn do_color(&self, world: &CollidableVec, depth: u32) -> (c: Color)
        requires
            crate::collidable::world_wf(*world),
        ensures
            color_unit(c),
            depth == 0 ==> c == (Color { r: 0i64, g: 0i64, b: 0i64 }),
            depth > 0 && ray_wf(*self) && world.items@.len() == 0 ==> c == background_spec(*self)
                && c.b == SCALE,
            depth == 1 && ray_wf(*self) && (crate::collidable::world_collide_spec(
                world.items@,
                *self,
                T_EPS,
                T_MAX,
                None::<Collision>,
            ) is Some) ==> c == (Color { r: 0i64, g: 0i64, b: 0i64 }),
    {
        let mut attenuation = Color::white();
        let mut current: Ray = *self;
        let mut d: u32 = depth;
        loop
            invariant
                crate::collidable::world_wf(*world),
                color_unit(attenuation),
                d <= depth,
                world.items@.len() == 0 ==> d == depth && attenuation == (Color {
                    r: SCALE,
                    g: SCALE,
                    b: SCALE,
                }) && current == *self,
                depth == 1 && ray_wf(*self) && (crate::collidable::world_collide_spec(
                    world.items@,
                    *self,
                    T_EPS,
                    T_MAX,
                    None::<Collision>,
                ) is Some) ==> (d == depth && current == *self) || d == 0,
            decreases d,
        {
            if d == 0 {
                return Color::black();
            }
            if !current.in_trace_range() {
                return Color::black();
            }
            match current.collide(world, T_EPS, T_MAX) {
                Option::Some(collision) => {
                    let result = collision.material.scatter(&current, &collision);
                    match result.outcome {
                        ScatterOutcome::Scattered => {
                            attenuation = attenuation.mul(result.attenuation);
                            current = result.scattered_ray;
                            d = d - 1;
                        },
                        ScatterOutcome::Absorbed => {
                            return Color::black();
                        },
                    }
                },
                Option::None => {
                    let bg = current.background();
                    proof {
                        if world.items@.len() == 0 {
                            lemma_white_mul_identity(bg);
                        }
                    }
                    let shaded = attenuation.mul(bg);
                    return shaded;
                },
            }
        }
    }

    /// Whether the ray lies in the range the tracer accepts, decided at
    /// run time so that a degenerate bounce is recovered locally.
    pub fn in_trace_range(&self) -> (ok: bool)
        ensures
            ok == ray_wf(*self),
    {
        let o = self.origin;
        let dir = self.direction;
        if o.x < -PMAX || o.x > PMAX || o.y < -PMAX || o.y > PMAX || o.z < -PMAX || o.z > PMAX {
            return false;
        }
        if dir.x < -DMAX || dir.x > DMAX || dir.y < -DMAX || dir.y > DMAX || dir.z < -DMAX
            || dir.z > DMAX {
            return false;
        }
        let ls: i128 = dir.len_sq();
        ls > 0
    }

    /// Trace the ray with the full bounce budget.
    pub fn color(&self, world: &CollidableVec) -> (c: Color)
        requires
            crate::collidable::world_wf(*world),
        ensures
            color_unit(c),
            ray_wf(*self) && world.items@.len() == 0 ==> c == background_spec(*self),
    {
        self.do_color(world, 50)
    }
}

/// The background gradient: with `t` the direction's normalized height
/// mapped into `[0, 1]`, the blend `(1 - t) * white + t * sky_blue`.
pub open spec fn background_spec(r: Ray) -> Color {
    let uy = unit_num(r.direction).1;
    let t = (uy + SCALE) / 2;
    Color {
        r: ((SCALE - t) + fx_mul_spec(t, 32768)) as i64,
        g: ((SCALE - t) + fx_mul_spec(t, 45875)) as i64,
        b: ((SCALE - t) + fx_mul_spec(t, 65536)) as i64,
    }
}

/// A blend `(1 - t) + t * k` of unit quantities stays in `[0, 1]`.
proof fn lemma_blend_unit(t: int, k: int)
    requires
        0 <= t <= SCALE,
        0 <= k <= SCALE,
    ensures
        0 <= (SCALE - t) + fx_mul_spec(t, k) <= SCALE,
{
    assert(0 <= t * k <= t * 65536) by (nonlinear_arith)
        requires
            0 <= t <= 65536,
            0 <= k <= 65536,
    ;
    vstd::arithmetic::div_mod::lemma_div_is_ordered(0, t * k, 65536);
    vstd::arithmetic::div_mod::lemma_div_is_ordered(t * k, t * 65536, 65536);
    vstd::arithmetic::div_mod::lemma_div_multiples_vanish(t, 65536);
}

/// Multiplying a unit colour by white leaves it unchanged.
proof fn lemma_white_mul_identity(c: Color)
    requires
        color_unit(c),
    ensures
        fx_mul_spec(SCALE as int, c.r as int) == c.r,
        fx_mul_spec(SCALE as int, c.g as int) == c.g,
        fx_mul_spec(SCALE as int, c.b as int) == c.b,
{
    vstd::arithmetic::div_mod::lemma_div_multiples_vanish(c.r as int, 65536);
    vstd::arithmetic::div_mod::lemma_div_multiples_vanish(c.g as int, 65536);
    vstd::arithmetic::div_mod::lemma_div_multiples_vanish(c.b as int, 65536);
}

} // verus!
