use crate::color::{color_unit, Color};
use crate::point::{dot_spec, neg_pt, refract_cos, reflect_num, refract_num, unit_pt, within, Point, Vec3};
use crate::ray::{collision_wf, ray_wf, Collision, Facing, Ray};
use crate::utility::{fx_div, fx_div_spec, fx_mul, fx_mul_spec, isqrt, rand, SCALE};
use vstd::math::abs;
use vstd::prelude::*;

verus! {

/// Smallest index of refraction accepted, one sixteenth.
pub const IR_MIN: i64 = 4096;

/// Largest index of refraction accepted, sixteen.
pub const IR_MAX: i64 = 1048576;

/// Whether a material handed a scattered ray back or absorbed the path.
#[derive(Clone, Copy, Debug, PartialEq, Eq, Structural)]
pub enum ScatterOutcome {
    Scattered,
    Absorbed,
}

/// What a material did with an incoming ray: the outcome, the colour
/// attenuation, and the continuation ray.
#[derive(Clone, Copy, Debug, PartialEq, Eq, Structural)]
pub struct ScatterResult {
    pub outcome: ScatterOutcome,
    pub attenuation: Color,
    pub scattered_ray: Ray,
}

/// A diffuse surface with a fixed albedo.
#[derive(Clone, Copy, Debug, PartialEq, Eq, Structural)]
pub struct Lambertian {
    pub albedo: Color,
}

/// A reflective surface with a fixed albedo and a fuzz radius in `[0, 1]`.
#[derive(Clone, Copy, Debug, PartialEq, Eq, Structural)]
pub struct Metal {
    pub albedo: Color,
    pub fuzz: i64,
}

/// A refractive surface with a fixed index of refraction.
#[derive(Clone, Copy, Debug, PartialEq, Eq, Structural)]
pub struct Dielectric {
    pub ir: i64,
}

/// The closed set of materials the renderer dispatches over.
#[derive(Clone, Copy, Debug, PartialEq, Eq, Structural)]
pub enum Material {
    Lambertian(Lambertian),
    Metal(Metal),
    Dielectric(Dielectric),
}

pub open spec fn lambertian_wf(l: Lambertian) -> bool {
    color_unit(l.albedo)
}

pub open spec fn metal_wf(m: Metal) -> bool {
    &&& color_unit(m.albedo)
    &&& 0 <= m.fuzz <= SCALE
}

pub open spec fn dielectric_wf(d: Dielectric) -> bool {
    IR_MIN <= d.ir <= IR_MAX
}

pub open spec fn material_wf(m: Material) -> bool {
    match m {
        Material::Lambertian(l) => lambertian_wf(l),
        Material::Metal(mt) => metal_wf(mt),
        Material::Dielectric(d) => dielectric_wf(d),
    }
}

/// The refraction ratio a dielectric uses: the reciprocal of its index on
/// a front hit (entering), the index itself on a back hit (leaving).
pub open spec fn dielectric_ratio(d: Dielectric, facing: Facing) -> int {
    match facing {
        Facing::Front => fx_div_spec(SCALE as int, d.ir as int),
        Facing::Back => d.ir as int,
    }
}

/// The diffuse bounce direction a drawn unit vector produces: the normal
/// plus the draw, or the normal alone when the sum degenerates.
pub open spec fn diffuse_bounce(n: Vec3, rv: Vec3) -> Vec3 {
    let sum = Point { x: (n.x + rv.x) as i64, y: (n.y + rv.y) as i64, z: (n.z + rv.z) as i64 };
    if within(sum, crate::point::EPSILON - 1) {
        n
    } else {
        sum
    }
}

/// The scattered direction of a diffuse surface is the bounce of some
/// drawn unit vector.
pub open spec fn lambertian_direction_ok(res: ScatterResult, collision: Collision) -> bool {
    exists|rv: Vec3|
        within(rv, SCALE as int) && res.scattered_ray.direction == #[trigger] diffuse_bounce(
            collision.normal,
            rv,
        )
}

/// The scattered direction of a metal surface is the mirror reflection of
/// the normalized incoming direction, perturbed by some drawn unit vector
/// scaled by the fuzz radius.
pub open spec fn metal_direction_ok(
    res: ScatterResult,
    ray_in: Ray,
    collision: Collision,
    m: Metal,
) -> bool {
    let (rx, ry, rz) = reflect_num(unit_pt(ray_in.direction), collision.normal);
    let dir = res.scattered_ray.direction;
    exists|rv: Vec3|
        within(rv, SCALE as int) && (dir.x as int, dir.y as int, dir.z as int) == (
        rx + #[trigger] fx_mul_spec(rv.x as int, m.fuzz as int),
        ry + fx_mul_spec(rv.y as int, m.fuzz as int),
        rz + fx_mul_spec(rv.z as int, m.fuzz as int),
        )
}

impl Lambertian {
    pub fn new(albedo: Color) -> (l: Self)
        requires
            color_unit(albedo),
        ensures
            l.albedo == albedo,
            lambertian_wf(l),
    {
        Lambertian { albedo }
    }

    /// Diffuse scattering: bounce along the normal plus a random unit
    /// vector, falling back to the normal itself when the sum degenerates.
    /// A diffuse surface never absorbs and attenuates by its albedo.
    pub fn scatter(&self, ray_in: &Ray, collision: &Collision) -> (res: ScatterResult)
        requires
            lambertian_wf(*self),
            collision_wf(*collision),
        ensures
            res.outcome == ScatterOutcome::Scattered,
            res.attenuation == self.albedo,
            res.scattered_ray.origin == collision.point,
            within(res.scattered_ray.direction, 327680),
            res.scattered_ray.direction == collision.normal || !within(
                res.scattered_ray.direction,
                7,
            ),
            lambertian_direction_ok(res, *collision),
    {
        let rv = Vec3::random_unit_vector();
        let mut direction = collision.normal.add(rv);
        if direction.is_near_zero() {
            direction = collision.normal;
        }
        proof {
            assert(within(rv, SCALE as int) && direction == diffuse_bounce(collision.normal, rv));
        }
        ScatterResult {
            outcome: ScatterOutcome::Scattered,
            attenuation: self.albedo,
            scattered_ray: Ray::new(collision.point, direction),
        }
    }
}

impl Metal {
    /// The fuzz radius is clamped into `[0, 1]` at construction.
    pub fn new(albedo: Color, fuzz: i64) -> (m: Self)
        requires
            color_unit(albedo),
        ensures
            m.albedo == albedo,
            m.fuzz == if fuzz < 0 {
                0i64
            } else if fuzz > SCALE {
                SCALE
            } else {
                fuzz
            },
            metal_wf(m),
    {
        Metal { albedo, fuzz: crate::utility::clamp(fuzz, 0, SCALE) }
    }

    /// Specular scattering: mirror the incoming direction about the normal
    /// and perturb it by a random vector scaled by the fuzz radius. The
    /// path continues only while the perturbed direction still points away
    /// from the surface; with zero fuzz the direction is the exact mirror
    /// reflection.
    pub fn scatter(&self, ray_in: &Ray, collision: &Collision) -> (res: ScatterResult)
        requires
            metal_wf(*self),
            collision_wf(*collision),
            ray_wf(*ray_in),
        ensures
            res.attenuation == self.albedo,
            res.scattered_ray.origin == collision.point,
            within(res.scattered_ray.direction, 268500992),
            (res.outcome == ScatterOutcome::Scattered) == (dot_spec(
                res.scattered_ray.direction,
                collision.normal,
            ) > 0),
            self.fuzz == 0 ==> (
            res.scattered_ray.direction.x as int,
            res.scattered_ray.direction.y as int,
            res.scattered_ray.direction.z as int,
            ) == reflect_num(unit_pt(ray_in.direction), collision.normal),
            metal_direction_ok(res, *ray_in, *collision, *self),
    {
        let u = ray_in.direction.unit();
        proof {
            assert(u == unit_pt(ray_in.direction));
        }
        let reflected = u.reflect(collision.normal);
        let rv = Vec3::random_unit_vector();
        proof {
            crate::utility::lemma_fx_mul_mag(rv.x as int, self.fuzz as int, 65536, 65536);
            crate::utility::lemma_fx_mul_mag(rv.y as int, self.fuzz as int, 65536, 65536);
            crate::utility::lemma_fx_mul_mag(rv.z as int, self.fuzz as int, 65536, 65536);
            if self.fuzz == 0 {
                assert((rv.x as int) * 0 == 0 && (rv.y as int) * 0 == 0 && (rv.z as int) * 0
                    == 0) by (nonlinear_arith);
                assert(crate::utility::fx_mul_spec(rv.x as int, 0) == 0);
                assert(crate::utility::fx_mul_spec(rv.y as int, 0) == 0);
                assert(crate::utility::fx_mul_spec(rv.z as int, 0) == 0);
            }
        }
        let direction = reflected.add(rv.scale(self.fuzz));
        proof {
            let (rx, ry, rz) = reflect_num(unit_pt(ray_in.direction), collision.normal);
            assert(within(rv, SCALE as int) && (direction.x as int, direction.y as int,
            direction.z as int) == (
                rx + fx_mul_spec(rv.x as int, self.fuzz as int),
                ry + fx_mul_spec(rv.y as int, self.fuzz as int),
                rz + fx_mul_spec(rv.z as int, self.fuzz as int),
            ));
        }
        let d: i128 = direction.dot_product(collision.normal);
        let outcome = if d > 0 {
            ScatterOutcome::Scattered
        } else {
            ScatterOutcome::Absorbed
        };
        ScatterResult {
            outcome,
            attenuation: self.albedo,
            scattered_ray: Ray::new(collision.point, direction),
        }
    }
}

impl Dielectric {
    pub fn new(ir: i64) -> (d: Self)
        requires
            IR_MIN <= ir <= IR_MAX,
        ensures
            d.ir == ir,
            dielectric_wf(d),
    {
        Dielectric { ir }
    }

    /// The Schlick approximation of Fresnel reflectance:
    /// `r0 + (1 - r0) (1 - cos)^5` with `r0 = ((1 - idx) / (1 + idx))^2`.
    pub fn schlick_approximation(cosine: i64, idx: i64) -> (r: i64)
        requires
            -786432 <= cosine <= SCALE,
            0 < idx <= IR_MAX,
        ensures
            r as int == schlick_spec(cosine as int, idx as int),
    {
        proof {
            lemma_ratio_unit((SCALE - idx) as int, (SCALE + idx) as int);
        }
        let r0: i64 = fx_div(SCALE - idx, SCALE + idx);
        proof {
            lemma_sq_unit(r0 as int);
        }
        let r0sq: i64 = fx_mul(r0, r0);
        let t: i64 = SCALE - cosine;
        proof {
            crate::utility::lemma_fx_mul_mag(t as int, t as int, 851968, 851968);
            crate::utility::lemma_fx_mul_mag(
                fx_mul_spec(t as int, t as int),
                fx_mul_spec(t as int, t as int),
                11075584,
                11075584,
            );
            crate::utility::lemma_fx_mul_mag(
                fx_mul_spec(fx_mul_spec(t as int, t as int), fx_mul_spec(t as int, t as int)),
                t as int,
                1871773696,
                851968,
            );
        }
        let t2: i64 = fx_mul(t, t);
        let t4: i64 = fx_mul(t2, t2);
        let t5: i64 = fx_mul(t4, t);
        proof {
            crate::utility::lemma_fx_mul_mag((SCALE - r0sq) as int, t5 as int, 65536, 24333058048);
        }
        r0sq + fx_mul(SCALE - r0sq, t5)
    }

    /// Refractive scattering: reflect on total internal reflection or a
    /// reflectance-weighted random draw, refract otherwise. A dielectric
    /// never absorbs and attenuates by nothing (white).
    pub fn scatter(&self, ray_in: &Ray, collision: &Collision) -> (res: ScatterResult)
        requires
            dielectric_wf(*self),
            collision_wf(*collision),
            ray_wf(*ray_in),
        ensures
            res.outcome == ScatterOutcome::Scattered,
            res.attenuation == (Color { r: SCALE, g: SCALE, b: SCALE }),
            res.scattered_ray.origin == collision.point,
            within(res.scattered_ray.direction, 68719476736),
            dielectric_direction_ok(res, *ray_in, *collision, *self),
            dielectric_tir(
                unit_pt(ray_in.direction),
                collision.normal,
                dielectric_ratio(*self, collision.facing),
            ) ==> {
                let dir = res.scattered_ray.direction;
                (dir.x as int, dir.y as int, dir.z as int) == reflect_num(
                    unit_pt(ray_in.direction),
                    collision.normal,
                )
            },
            dielectric_refracts_when_clear(res, *ray_in, *collision, *self),
    {
        let rr: i64 = match collision.facing {
            Facing::Front => {
                proof {
                    vstd::arithmetic::div_mod::lemma_div_is_ordered_by_denominator(
                        4294967296,
                        self.ir as int,
                        1048576,
                    );
                    vstd::arithmetic::div_mod::lemma_div_is_ordered_by_denominator(
                        4294967296,
                        4096,
                        self.ir as int,
                    );
                    crate::utility::lemma_tdiv_bound(4294967296, self.ir as int, 4294967296);
                }
                fx_div(SCALE, self.ir)
            },
            Facing::Back => self.ir,
        };
        let u = ray_in.direction.unit();
        proof {
            assert(u == unit_pt(ray_in.direction));
        }
        let nu = u.neg();
        let d: i128 = nu.dot_product(collision.normal);
        proof {
            assert(nu == neg_pt(u));
            crate::point::lemma_dot_neg_left(u, collision.normal);
            crate::point::lemma_dot_mag(nu, collision.normal, 65536, 262144);
            crate::utility::lemma_tdiv_bound(d as int, 65536, 51539607552);
        }
        let mut cos: i64 = (d / 65536) as i64;
        if cos > SCALE {
            cos = SCALE;
        }
        assert(cos as int == refract_cos(u, collision.normal));
        proof {
            crate::utility::lemma_fx_mul_mag(cos as int, cos as int, 786432, 786432);
        }
        let cossq: i64 = fx_mul(cos, cos);
        proof {
            assert((cos as int) * (cos as int) >= 0) by (nonlinear_arith);
            vstd::arithmetic::div_mod::lemma_div_is_ordered(
                0,
                (cos as int) * (cos as int),
                65536,
            );
        }
        let k: i64 = if SCALE > cossq {
            SCALE - cossq
        } else {
            0
        };
        let sin64: u64 = isqrt((k as u128) * 65536);
        proof {
            let g = sin64 as int;
            if g > 65536 {
                assert(g * g > 65536int * 65536int) by (nonlinear_arith)
                    requires
                        g > 65536,
                ;
            }
        }
        let sin: i64 = sin64 as i64;
        assert(sin as int == dielectric_sin(u, collision.normal));
        proof {
            crate::utility::lemma_fx_mul_mag(rr as int, sin as int, 1048576, 65536);
        }
        let cannot_refract = fx_mul(rr, sin) > SCALE;
        assert(cannot_refract == dielectric_tir(u, collision.normal, rr as int));
        let reflectance = Dielectric::schlick_approximation(cos, rr);
        let draw = rand();
        let direction: Vec3 = if cannot_refract || reflectance > draw {
            u.reflect(collision.normal)
        } else {
            u.refract(collision.normal, rr)
        };
        ScatterResult {
            outcome: ScatterOutcome::Scattered,
            attenuation: Color::white(),
            scattered_ray: Ray::new(collision.point, direction),
        }
    }
}

/// The sine the refraction test uses: `sqrt(1 - cos^2)` in fixed point,
/// with a negative radicand floored to zero.
pub open spec fn dielectric_sin(u: Point, n: Point) -> int {
    let c = refract_cos(u, n);
    let csq = fx_mul_spec(c, c);
    let k = if csq < SCALE {
        SCALE - csq
    } else {
        0
    };
    crate::utility::sqrt_floor(k * 65536)
}

/// Total internal reflection: no refracted direction exists because
/// `ratio * sin` exceeds one.
pub open spec fn dielectric_tir(u: Point, n: Point, rr: int) -> bool {
    fx_mul_spec(rr, dielectric_sin(u, n)) > SCALE
}

/// When neither total internal reflection nor the Schlick reflectance can
/// force a reflection (the reflectance is not positive, so it exceeds no
/// uniform draw), the dielectric must refract.
pub open spec fn dielectric_refracts_when_clear(
    res: ScatterResult,
    ray_in: Ray,
    collision: Collision,
    d: Dielectric,
) -> bool {
    let u = unit_pt(ray_in.direction);
    let rr = dielectric_ratio(d, collision.facing);
    let dir = res.scattered_ray.direction;
    !dielectric_tir(u, collision.normal, rr) && schlick_spec(refract_cos(u, collision.normal), rr)
        <= 0 ==> (dir.x as int, dir.y as int, dir.z as int) == refract_num(u, collision.normal, rr)
}

/// The scattered direction of a dielectric is the mirror reflection or the
/// Snell refraction of the normalized incoming direction, at the ratio its
/// facing picks.
pub open spec fn dielectric_direction_ok(
    res: ScatterResult,
    ray_in: Ray,
    collision: Collision,
    d: Dielectric,
) -> bool {
    let u = unit_pt(ray_in.direction);
    let rr = dielectric_ratio(d, collision.facing);
    let dir = res.scattered_ray.direction;
    ||| (dir.x as int, dir.y as int, dir.z as int) == reflect_num(u, collision.normal)
    ||| (dir.x as int, dir.y as int, dir.z as int) == refract_num(u, collision.normal, rr)
}

/// The Schlick reflectance in fixed point, mirroring the executable steps.
pub open spec fn schlick_spec(cosine: int, idx: int) -> int {
    let r0a = fx_div_spec(SCALE - idx, SCALE + idx);
    let r0sq = fx_mul_spec(r0a, r0a);
    let t = SCALE - cosine;
    let t5 = fx_mul_spec(fx_mul_spec(fx_mul_spec(t, t), fx_mul_spec(t, t)), t);
    r0sq + fx_mul_spec(SCALE - r0sq, t5)
}

impl Material {
    /// Dispatch to the hit surface's scattering model.
    pub fn scatter(&self, ray_in: &Ray, collision: &Collision) -> (res: ScatterResult)
        requires
            material_wf(*self),
            collision_wf(*collision),
            ray_wf(*ray_in),
        ensures
            color_unit(res.attenuation),
            res.scattered_ray.origin == collision.point,
            within(res.scattered_ray.direction, 68719476736),
            self matches Material::Lambertian(l) ==> res.outcome == ScatterOutcome::Scattered
                && res.attenuation == l.albedo,
            self matches Material::Dielectric(d) ==> res.outcome == ScatterOutcome::Scattered
                && res.attenuation == (Color { r: SCALE, g: SCALE, b: SCALE }),
            self matches Material::Metal(m) ==> res.attenuation == m.albedo && (res.outcome
                == ScatterOutcome::Scattered) == (dot_spec(
                res.scattered_ray.direction,
                collision.normal,
            ) > 0),
    {
        match self {
            Material::Lambertian(l) => l.scatter(ray_in, collision),
            Material::Metal(m) => m.scatter(ray_in, collision),
            Material::Dielectric(d) => d.scatter(ray_in, collision),
        }
    }
}

/// A quotient of a numerator no larger than its positive denominator stays
/// within one.
proof fn lemma_ratio_unit(a: int, b: int)
    requires
        b > 0,
        abs(a) <= b,
    ensures
        abs(fx_div_spec(a, b)) <= SCALE,
{
    assert(abs(a * 65536) <= b * 65536) by (nonlinear_arith)
        requires
            abs(a) <= b,
            b > 0,
    ;
    crate::utility::lemma_tdiv_bound(a * 65536, b, b * 65536);
    vstd::arithmetic::div_mod::lemma_div_multiples_vanish(65536, b);
}

/// The fixed-point square of a scalar within one lies in `[0, 1]`.
proof fn lemma_sq_unit(a: int)
    requires
        abs(a) <= SCALE,
    ensures
        0 <= fx_mul_spec(a, a) <= SCALE,
        abs(a * a) <= 4294967296,
{
    assert(0 <= a * a <= 4294967296) by (nonlinear_arith)
        requires
            abs(a) <= 65536,
    ;
    vstd::arithmetic::div_mod::lemma_div_is_ordered(0, a * a, 65536);
    vstd::arithmetic::div_mod::lemma_div_is_ordered(a * a, 4294967296, 65536);
}

} // verus!
