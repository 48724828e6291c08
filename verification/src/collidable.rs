use crate::material::{material_wf, Material};
use crate::point::{dot_spec, len_sq_spec, within, Point};
use crate::ray::{collision_wf, oriented_normal, ray_wf, Collision, Facing, Ray, T_MAX};
use crate::utility::{isqrt, sqrt_floor, tdiv, SCALE};
use vstd::math::abs;
use vstd::prelude::*;

verus! {

/// Largest component magnitude of a sphere's center.
pub const CENTER_MAX: i64 = 134217728;

/// A sphere: a center, a radius and the surface material.
#[derive(Clone, Copy, Debug, PartialEq, Eq, Structural)]
pub struct Sphere {
    pub center: Point,
    pub radius: i64,
    pub material: Material,
}

pub open spec fn sphere_wf(s: Sphere) -> bool {
    &&& within(s.center, CENTER_MAX as int)
    &&& 0 < s.radius <= CENTER_MAX
    &&& material_wf(s.material)
}

/// The closed set of primitives the renderer dispatches over.
#[derive(Clone, Copy, Debug, PartialEq, Eq, Structural)]
pub enum Collidable {
    Sphere(Sphere),
}

pub open spec fn collidable_wf(c: Collidable) -> bool {
    match c {
        Collidable::Sphere(s) => sphere_wf(s),
    }
}

/// The scene: an ordered collection of primitives.
pub struct CollidableVec {
    pub items: Vec<Collidable>,
}

pub open spec fn world_wf(w: CollidableVec) -> bool {
    forall|i: int| 0 <= i < w.items@.len() ==> collidable_wf(#[trigger] w.items@[i])
}

/// The collision record a sphere hit at parameter `root` produces, after
/// the range guard: the reached point, the outward normal scaled by the
/// reciprocal radius, oriented against the ray.
pub open spec fn sphere_hit_at(s: Sphere, ray: Ray, root: int) -> Option<Collision> {
    let (px, py, pz) = crate::ray::at_num(ray, root);
    let ox = tdiv((px - s.center.x) * 65536, s.radius as int);
    let oy = tdiv((py - s.center.y) * 65536, s.radius as int);
    let oz = tdiv((pz - s.center.z) * 65536, s.radius as int);
    if -134217728 <= px <= 134217728 && -134217728 <= py <= 134217728 && -134217728 <= pz
        <= 134217728 && -262144 <= ox <= 262144 && -262144 <= oy <= 262144 && -262144 <= oz
        <= 262144 {
        let p = Point { x: px as i64, y: py as i64, z: pz as i64 };
        let outward = Point { x: ox as i64, y: oy as i64, z: oz as i64 };
        Some(
            Collision {
                point: p,
                normal: oriented_normal(ray.direction, outward),
                dist: root as i64,
                facing: if dot_spec(ray.direction, outward) < 0 {
                    Facing::Front
                } else {
                    Facing::Back
                },
                material: s.material,
            },
        )
    } else {
        None
    }
}

/// The nearest intersection of a ray with a sphere within `(t_min, t_max]`:
/// solve the quadratic, try the smaller root first, then the larger.
pub open spec fn sphere_collide_spec(s: Sphere, ray: Ray, t_min: i64, t_max: i64) -> Option<
    Collision,
> {
    let oc = Point {
        x: (ray.origin.x - s.center.x) as i64,
        y: (ray.origin.y - s.center.y) as i64,
        z: (ray.origin.z - s.center.z) as i64,
    };
    let a = len_sq_spec(ray.direction);
    let b = dot_spec(oc, ray.direction);
    let c = len_sq_spec(oc) - s.radius * s.radius;
    let disc = b * b - a * c;
    if disc < 0 {
        None
    } else {
        let sq = sqrt_floor(disc);
        let root1 = tdiv((-b - sq) * 65536, a);
        let root2 = tdiv((-b + sq) * 65536, a);
        if t_min < root1 && root1 <= t_max {
            sphere_hit_at(s, ray, root1)
        } else if t_min < root2 && root2 <= t_max {
            sphere_hit_at(s, ray, root2)
        } else {
            None
        }
    }
}

pub open spec fn collide_spec(c: Collidable, ray: Ray, t_min: i64, t_max: i64) -> Option<
    Collision,
> {
    match c {
        Collidable::Sphere(s) => sphere_collide_spec(s, ray, t_min, t_max),
    }
}

/// The closest hit a left-to-right scan produces, shrinking the far bound
/// to the best distance found so far.
pub open spec fn world_collide_spec(
    items: Seq<Collidable>,
    ray: Ray,
    t_min: i64,
    closest: i64,
    best: Option<Collision>,
) -> Option<Collision>
    decreases items.len(),
{
    if items.len() == 0 {
        best
    } else {
        match collide_spec(items[0], ray, t_min, closest) {
            Some(c) => world_collide_spec(
                items.subrange(1, items.len() as int),
                ray,
                t_min,
                c.dist,
                Some(c),
            ),
            None => world_collide_spec(
                items.subrange(1, items.len() as int),
                ray,
                t_min,
                closest,
                best,
            ),
        }
    }
}

impl Sphere {
    pub fn new(center: Point, radius: i64, material: Material) -> (s: Self)
        requires
            within(center, CENTER_MAX as int),
            0 < radius <= CENTER_MAX,
            material_wf(material),
        ensures
            s == (Sphere { center, radius, material }),
            sphere_wf(s),
    {
        Sphere { center, radius, material }
    }

    pub fn boxed(center: Point, radius: i64, material: Material) -> (b: Box<Self>)
        requires
            within(center, CENTER_MAX as int),
            0 < radius <= CENTER_MAX,
            material_wf(material),
        ensures
            *b == (Sphere { center, radius, material }),
    {
        Box::new(Self::new(center, radius, material))
    }

    /// The nearest intersection with this sphere within `(t_min, t_max]`,
    /// or nothing. A hit whose fields leave the representable range also
    /// reports nothing.
    pub fn collide(&self, ray: &Ray, t_min: i64, t_max: i64) -> (r: Option<Collision>)
        requires
            sphere_wf(*self),
            ray_wf(*ray),
            0 <= t_min <= t_max <= T_MAX,
        ensures
            r == sphere_collide_spec(*self, *ray, t_min, t_max),
            r matches Some(col) ==> t_min < col.dist <= t_max && collision_wf(col),
    {
        let oc = ray.origin.sub(self.center);
        let a: i128 = ray.direction.len_sq();
        let b: i128 = oc.dot_product(ray.direction);
        proof {
            crate::point::lemma_dot_mag(oc, ray.direction, 268435456, 268435456);
            crate::point::lemma_dot_mag(ray.direction, ray.direction, 268435456, 268435456);
            crate::point::lemma_dot_mag(oc, oc, 268435456, 268435456);
            lemma_mul_mag(self.radius as int, self.radius as int, 134217728, 134217728);
        }
        let radius2: i128 = (self.radius as i128) * (self.radius as i128);
        let c: i128 = oc.len_sq() - radius2;
        proof {
            lemma_mul_mag(b as int, b as int, 216172782113783808, 216172782113783808);
            lemma_mul_mag(a as int, c as int, 216172782113783808, 234187180623265792);
        }
        let disc: i128 = b * b - a * c;
        if disc < 0 {
            None
        } else {
            let sqd: u64 = isqrt(disc as u128);
            proof {
                let g = sqd as int;
                if g > 0x1000_0000_0000_0000 {
                    assert(g * g > 0x1000_0000_0000_0000int * 0x1000_0000_0000_0000int)
                        by (nonlinear_arith)
                        requires
                            g > 0x1000_0000_0000_0000,
                    ;
                }
            }
            let num1: i128 = -b - (sqd as i128);
            let num2: i128 = -b + (sqd as i128);
            let root1: i128 = num1 * 65536 / a;
            let root2: i128 = num2 * 65536 / a;
            if (t_min as i128) < root1 && root1 <= (t_max as i128) {
                self.hit_at(ray, root1 as i64)
            } else if (t_min as i128) < root2 && root2 <= (t_max as i128) {
                self.hit_at(ray, root2 as i64)
            } else {
                None
            }
        }
    }

    /// Build the hit record at a root already known to lie in the
    /// interval, guarding the representable range.
    fn hit_at(&self, ray: &Ray, root: i64) -> (r: Option<Collision>)
        requires
            sphere_wf(*self),
            ray_wf(*ray),
            0 < root <= T_MAX,
        ensures
            r == sphere_hit_at(*self, *ray, root as int),
            r matches Some(col) ==> col.dist == root && collision_wf(col),
    {
        let p = ray.at(root);
        let ox: i128 = ((p.x as i128) - (self.center.x as i128)) * 65536 / (self.radius as i128);
        let oy: i128 = ((p.y as i128) - (self.center.y as i128)) * 65536 / (self.radius as i128);
        let oz: i128 = ((p.z as i128) - (self.center.z as i128)) * 65536 / (self.radius as i128);
        if p.x < -134217728 || p.x > 134217728 || p.y < -134217728 || p.y > 134217728 || p.z
            < -134217728 || p.z > 134217728 {
            return None;
        }
        if ox < -262144 || ox > 262144 || oy < -262144 || oy > 262144 || oz < -262144 || oz
            > 262144 {
            return None;
        }
        let outward = Point { x: ox as i64, y: oy as i64, z: oz as i64 };
        let mut collision = Collision::new(p, outward, root, Facing::Front, self.material);
        collision.set_face_normal(ray, outward);
        Some(collision)
    }
}

impl Collidable {
    pub fn collide(&self, ray: &Ray, t_min: i64, t_max: i64) -> (r: Option<Collision>)
        requires
            collidable_wf(*self),
            ray_wf(*ray),
            0 <= t_min <= t_max <= T_MAX,
        ensures
            r == collide_spec(*self, *ray, t_min, t_max),
            r matches Some(col) ==> t_min < col.dist <= t_max && collision_wf(col),
    {
        match self {
            Collidable::Sphere(s) => s.collide(ray, t_min, t_max),
        }
    }
}

impl CollidableVec {
    pub fn new() -> (w: Self)
        ensures
            w.items@.len() == 0,
            world_wf(w),
    {
        CollidableVec { items: Vec::new() }
    }

    /// Scan every primitive, shrinking the far bound to the closest hit
    /// found so far, and keep the overall closest hit.
    pub fn collide(&self, ray: &Ray, t_min: i64, t_max: i64) -> (r: Option<Collision>)
        requires
            world_wf(*self),
            ray_wf(*ray),
            0 <= t_min <= t_max <= T_MAX,
        ensures
            r == world_collide_spec(self.items@, *ray, t_min, t_max, None::<Collision>),
            r matches Some(col) ==> t_min < col.dist <= t_max && collision_wf(col),
    {
        let mut closest: i64 = t_max;
        let mut best: Option<Collision> = None;
        let n: usize = self.items.len();
        let mut i: usize = 0;
        proof {
            assert(self.items@.subrange(0, self.items@.len() as int) =~= self.items@);
        }
        while i < n
            invariant
                world_wf(*self),
                ray_wf(*ray),
                n == self.items@.len(),
                0 <= i <= n,
                0 <= t_min <= closest <= t_max <= T_MAX,
                best matches Some(col) ==> t_min < col.dist <= t_max && col.dist == closest
                    && collision_wf(col),
                best is None ==> closest == t_max,
                world_collide_spec(self.items@, *ray, t_min, t_max, None::<Collision>)
                    == world_collide_spec(
                    self.items@.subrange(i as int, n as int),
                    *ray,
                    t_min,
                    closest,
                    best,
                ),
            decreases n - i,
        {
            let ghost pre = self.items@.subrange(i as int, n as int);
            match self.items[i].collide(ray, t_min, closest) {
                Option::Some(collision) => {
                    proof {
                        assert(pre[0] == self.items@[i as int]);
                        assert(pre.subrange(1, pre.len() as int) =~= self.items@.subrange(
                            i as int + 1,
                            n as int,
                        ));
                    }
                    closest = collision.dist;
                    best = Some(collision);
                },
                Option::None => {
                    proof {
                        assert(pre[0] == self.items@[i as int]);
                        assert(pre.subrange(1, pre.len() as int) =~= self.items@.subrange(
                            i as int + 1,
                            n as int,
                        ));
                    }
                },
            }
            i = i + 1;
        }
        best
    }
}

/// Add a primitive to the scene.
pub fn add_to_world(world: &mut CollidableVec, object: Collidable) -> (nothing: ())
    requires
        world_wf(*old(world)),
        collidable_wf(object),
    ensures
        final(world).items@ == old(world).items@.push(object),
        world_wf(*final(world)),
{
    world.items.push(object);
}

/// Bounds on both factors bound a product.
proof fn lemma_mul_mag(x: int, y: int, mx: int, my: int)
    requires
        abs(x) <= mx,
        abs(y) <= my,
    ensures
        abs(x * y) <= mx * my,
{
    assert(abs(x * y) <= mx * my) by (nonlinear_arith)
        requires
            abs(x) <= mx,
            abs(y) <= my,
    ;
}

} // verus!
