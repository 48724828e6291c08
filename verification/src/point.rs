use crate::utility::{
    fx_mul, fx_mul_spec, isqrt, rand, rand_range, sqrt_floor, tdiv, SCALE,
};
use vstd::math::abs;
use vstd::prelude::*;

verus! {

/// Largest component magnitude the vector operations accept.
pub const VMAX: i64 = 0x1000_0000_0000;

/// Components below this many fixed-point steps count as zero for the
/// degenerate-direction test.
pub const EPSILON: i64 = 8;

/// A position, direction or colour triple; each component is a fixed-point
/// scalar counted in units of `1 / SCALE`.
#[derive(Clone, Copy, Debug, PartialEq, Eq, Structural)]
pub struct Point {
    pub x: i64,
    pub y: i64,
    pub z: i64,
}

pub type Vec3 = Point;

/// All components lie within the accepted range.
pub open spec fn in_range(v: Point) -> bool {
    &&& -VMAX <= v.x <= VMAX
    &&& -VMAX <= v.y <= VMAX
    &&& -VMAX <= v.z <= VMAX
}

/// All components lie within the given magnitude.
pub open spec fn within(v: Point, m: int) -> bool {
    &&& -m <= v.x <= m
    &&& -m <= v.y <= m
    &&& -m <= v.z <= m
}

/// The raw dot product, carrying scale `SCALE * SCALE`.
pub open spec fn dot_spec(a: Point, b: Point) -> int {
    a.x * b.x + a.y * b.y + a.z * b.z
}

/// The raw squared length, carrying scale `SCALE * SCALE`.
pub open spec fn len_sq_spec(v: Point) -> int {
    dot_spec(v, v)
}

/// The components of the mirror reflection of `v` in the normal `n`,
/// `v - 2 (v . n) n`, with the product rounded toward zero once.
pub open spec fn reflect_num(v: Point, n: Point) -> (int, int, int) {
    let d = dot_spec(v, n);
    let s2 = 4294967296int;
    (
        v.x - tdiv(2 * d * n.x, s2),
        v.y - tdiv(2 * d * n.y, s2),
        v.z - tdiv(2 * d * n.z, s2),
    )
}

/// The cosine the refraction formula uses: `min(-(v . n) / SCALE, SCALE)`.
pub open spec fn refract_cos(v: Point, n: Point) -> int {
    let c = tdiv(-dot_spec(v, n), SCALE as int);
    if c > SCALE {
        SCALE as int
    } else {
        c
    }
}

/// The perpendicular part of the refracted direction,
/// `ratio * (v + cos * n)`, componentwise in fixed point.
pub open spec fn refract_perp(v: Point, n: Point, ratio: int) -> (int, int, int) {
    let c = refract_cos(v, n);
    (
        fx_mul_spec(ratio, v.x + fx_mul_spec(c, n.x as int)),
        fx_mul_spec(ratio, v.y + fx_mul_spec(c, n.y as int)),
        fx_mul_spec(ratio, v.z + fx_mul_spec(c, n.z as int)),
    )
}

/// The magnitude of the parallel part of the refracted direction:
/// `sqrt(|1 - |perp|^2|)` in fixed point.
pub open spec fn refract_par(v: Point, n: Point, ratio: int) -> int {
    let (px, py, pz) = refract_perp(v, n, ratio);
    let ls = px * px + py * py + pz * pz;
    let k = 4294967296int - ls;
    sqrt_floor(abs(k) as int)
}

/// The components of the refracted direction by Snell's decomposition:
/// the perpendicular part minus `sqrt(|1 - |perp|^2|) * n`.
pub open spec fn refract_num(v: Point, n: Point, ratio: int) -> (int, int, int) {
    let (px, py, pz) = refract_perp(v, n, ratio);
    let par = refract_par(v, n, ratio);
    (
        px - fx_mul_spec(par, n.x as int),
        py - fx_mul_spec(par, n.y as int),
        pz - fx_mul_spec(par, n.z as int),
    )
}

/// The components of a normalized vector: `v * SCALE / sqrt(v . v)`.
pub open spec fn unit_num(v: Point) -> (int, int, int) {
    let root = sqrt_floor(len_sq_spec(v));
    (
        tdiv(v.x * (SCALE as int), root),
        tdiv(v.y * (SCALE as int), root),
        tdiv(v.z * (SCALE as int), root),
    )
}

/// The normalized vector as a `Point` value.
pub open spec fn unit_pt(v: Point) -> Point {
    let (a, b, c) = unit_num(v);
    Point { x: a as i64, y: b as i64, z: c as i64 }
}

/// The componentwise difference as a `Point` value.
pub open spec fn diff_pt(a: Point, b: Point) -> Point {
    Point { x: (a.x - b.x) as i64, y: (a.y - b.y) as i64, z: (a.z - b.z) as i64 }
}

/// The componentwise fixed-point scaling as a `Point` value.
pub open spec fn scale_pt(a: Point, s: int) -> Point {
    Point {
        x: fx_mul_spec(a.x as int, s) as i64,
        y: fx_mul_spec(a.y as int, s) as i64,
        z: fx_mul_spec(a.z as int, s) as i64,
    }
}

/// The cross product as a `Point` value, each product rounded toward zero.
pub open spec fn cross_pt(a: Point, b: Point) -> Point {
    Point {
        x: (fx_mul_spec(a.y as int, b.z as int) - fx_mul_spec(a.z as int, b.y as int)) as i64,
        y: (fx_mul_spec(a.z as int, b.x as int) - fx_mul_spec(a.x as int, b.z as int)) as i64,
        z: (fx_mul_spec(a.x as int, b.y as int) - fx_mul_spec(a.y as int, b.x as int)) as i64,
    }
}

/// The componentwise halving as a `Point` value, rounded toward zero.
pub open spec fn half_pt(a: Point) -> Point {
    Point { x: tdiv(a.x as int, 2) as i64, y: tdiv(a.y as int, 2) as i64, z: tdiv(a.z as int, 2) as i64 }
}

/// The componentwise negation as a `Point` value.
pub open spec fn neg_pt(v: Point) -> Point {
    Point { x: -v.x as i64, y: -v.y as i64, z: -v.z as i64 }
}

/// Negating the first argument negates a dot product.
pub proof fn lemma_dot_neg_left(a: Point, b: Point)
    requires
        within(a, VMAX as int),
    ensures
        dot_spec(neg_pt(a), b) == -dot_spec(a, b),
{
    let na = neg_pt(a);
    assert(na.x == -(a.x as int) && na.y == -(a.y as int) && na.z == -(a.z as int));
    assert(na.x * b.x == -(a.x * b.x) && na.y * b.y == -(a.y * b.y) && na.z * b.z == -(a.z
        * b.z)) by (nonlinear_arith)
        requires
            na.x == -(a.x as int) && na.y == -(a.y as int) && na.z == -(a.z as int),
    ;
}

/// Negating one argument negates a dot product.
pub proof fn lemma_dot_neg(a: Point, b: Point)
    requires
        within(b, VMAX as int),
    ensures
        dot_spec(a, neg_pt(b)) == -dot_spec(a, b),
{
    let nb = neg_pt(b);
    assert(nb.x == -(b.x as int) && nb.y == -(b.y as int) && nb.z == -(b.z as int));
    assert(a.x * nb.x == -(a.x * b.x) && a.y * nb.y == -(a.y * b.y) && a.z * nb.z == -(a.z
        * b.z)) by (nonlinear_arith)
        requires
            nb.x == -(b.x as int) && nb.y == -(b.y as int) && nb.z == -(b.z as int),
    ;
}

impl Point {
    pub fn new(x: i64, y: i64, z: i64) -> (r: Self)
        ensures
            r == (Point { x, y, z }),
    {
        Point { x, y, z }
    }

    pub fn all(val: i64) -> (r: Self)
        ensures
            r == (Point { x: val, y: val, z: val }),
    {
        Point::new(val, val, val)
    }

    pub fn origin() -> (r: Self)
        ensures
            r == (Point { x: 0i64, y: 0i64, z: 0i64 }),
    {
        Point::all(0)
    }

    pub fn from_x(x: i64) -> (r: Self)
        ensures
            r == (Point { x, y: 0i64, z: 0i64 }),
    {
        Point::new(x, 0, 0)
    }

    pub fn from_y(y: i64) -> (r: Self)
        ensures
            r == (Point { x: 0i64, y, z: 0i64 }),
    {
        Point::new(0, y, 0)
    }

    pub fn from_z(z: i64) -> (r: Self)
        ensures
            r == (Point { x: 0i64, y: 0i64, z }),
    {
        Point::new(0, 0, z)
    }

    /// A vector with each component drawn uniformly from `[0, 1)`.
    pub fn random() -> (r: Self)
        ensures
            within(r, SCALE as int),
            r.x >= 0 && r.y >= 0 && r.z >= 0,
    {
        Point::new(rand(), rand(), rand())
    }

    /// A vector with each component drawn uniformly from `[min, max)`.
    pub fn random_range(min: i64, max: i64) -> (r: Self)
        requires
            min < max,
        ensures
            min <= r.x < max,
            min <= r.y < max,
            min <= r.z < max,
    {
        Point::new(rand_range(min, max), rand_range(min, max), rand_range(min, max))
    }

    /// Rejection sampling: a nonzero vector strictly inside the unit sphere.
    /// The number of draws is capped; if every draw is rejected (vanishingly
    /// unlikely), a fixed interior direction stands in.
    pub fn random_in_unit_sphere() -> (r: Self)
        ensures
            0 < len_sq_spec(r) < (SCALE as int) * (SCALE as int),
            within(r, SCALE as int),
    {
        let mut attempts: u32 = 10000;
        while attempts > 0
            decreases attempts,
        {
            let v = Point::random_range(-SCALE, SCALE);
            let ls: i128 = v.len_sq();
            if 0 < ls && ls < (SCALE as i128) * (SCALE as i128) {
                return v;
            }
            attempts = attempts - 1;
        }
        let fallback = Point::new(SCALE / 2, 0, 0);
        assert(len_sq_spec(fallback) == 32768int * 32768int);
        fallback
    }

    /// Rejection sampling: a vector in the unit disk of the x-y plane.
    /// The number of draws is capped; if every draw is rejected (vanishingly
    /// unlikely), the disk's center stands in.
    pub fn random_in_unit_disk() -> (r: Self)
        ensures
            len_sq_spec(r) < (SCALE as int) * (SCALE as int),
            r.z == 0,
            within(r, SCALE as int),
    {
        let mut attempts: u32 = 10000;
        while attempts > 0
            decreases attempts,
        {
            let p = Point::new(rand_range(-SCALE, SCALE), rand_range(-SCALE, SCALE), 0);
            let ls: i128 = p.len_sq();
            if ls < (SCALE as i128) * (SCALE as i128) {
                return p;
            }
            attempts = attempts - 1;
        }
        let center = Point::new(0, 0, 0);
        assert(len_sq_spec(center) == 0);
        center
    }

    /// A unit-sphere sample normalized to (approximately) unit length:
    /// the normalization of some nonzero interior sample.
    pub fn random_unit_vector() -> (r: Self)
        ensures
            within(r, SCALE as int),
            exists|v: Point|
                0 < len_sq_spec(v) < (SCALE as int) * (SCALE as int) && within(v, SCALE as int)
                    && r == #[trigger] unit_pt(v),
    {
        let v = Point::random_in_unit_sphere();
        let u = v.unit();
        proof {
            assert(u == unit_pt(v));
            assert(0 < len_sq_spec(v) < (SCALE as int) * (SCALE as int) && within(v, SCALE as int)
                && u == unit_pt(v));
        }
        u
    }

    /// The raw dot product, carrying scale `SCALE * SCALE`.
    pub fn dot_product(&self, rhs: Point) -> (r: i128)
        requires
            in_range(*self),
            in_range(rhs),
        ensures
            r as int == dot_spec(*self, rhs),
            -3 * (VMAX as int) * (VMAX as int) <= r as int <= 3 * (VMAX as int) * (VMAX as int),
    {
        proof {
            lemma_dot_mag(*self, rhs, VMAX as int, VMAX as int);
        }
        (self.x as i128) * (rhs.x as i128) + (self.y as i128) * (rhs.y as i128)
            + (self.z as i128) * (rhs.z as i128)
    }

    /// The raw squared length, carrying scale `SCALE * SCALE`.
    pub fn len_sq(&self) -> (r: i128)
        requires
            in_range(*self),
        ensures
            r as int == len_sq_spec(*self),
            r >= 0,
    {
        proof {
            lemma_len_sq_nonneg(*self);
        }
        self.dot_product(*self)
    }

    /// The length in fixed point: the integer square root of the raw
    /// squared length.
    pub fn len(&self) -> (r: i64)
        requires
            in_range(*self),
        ensures
            r as int == sqrt_floor(len_sq_spec(*self)),
            (r as int) * (r as int) <= len_sq_spec(*self),
            len_sq_spec(*self) < (r as int + 1) * (r as int + 1),
            0 <= r as int <= 0x2000_0000_0000,
    {
        proof {
            lemma_len_sq_nonneg(*self);
            lemma_len_sq_upper(*self);
        }
        let ls: i128 = self.len_sq();
        let root: u64 = isqrt(ls as u128);
        proof {
            let n = ls as int;
            let r = root as int;
            if r > 0x2000_0000_0000 {
                assert(r * r > 0x2000_0000_0000int * 0x2000_0000_0000int) by (nonlinear_arith)
                    requires
                        r > 0x2000_0000_0000,
                ;
            }
        }
        root as i64
    }

    /// Normalization: each component becomes `c * SCALE / len`. The zero
    /// vector is excluded; every result component has magnitude at most
    /// `SCALE`.
    pub fn unit(&self) -> (r: Self)
        requires
            in_range(*self),
            len_sq_spec(*self) > 0,
        ensures
            (r.x as int, r.y as int, r.z as int) == unit_num(*self),
            within(r, SCALE as int),
    {
        let root: i64 = self.len();
        proof {
            let n = len_sq_spec(*self);
            let l = root as int;
            assert(l >= 1) by {
                if l == 0 {
                    assert(n < (l + 1) * (l + 1));
                    assert(n < 1);
                }
            }
            lemma_component_le_root(*self, l);
            lemma_unit_component_bound(self.x as int, l);
            lemma_unit_component_bound(self.y as int, l);
            lemma_unit_component_bound(self.z as int, l);
        }
        let rx: i128 = (self.x as i128) * (SCALE as i128) / (root as i128);
        let ry: i128 = (self.y as i128) * (SCALE as i128) / (root as i128);
        let rz: i128 = (self.z as i128) * (SCALE as i128) / (root as i128);
        Point { x: rx as i64, y: ry as i64, z: rz as i64 }
    }

    /// All components are smaller than `EPSILON` steps in magnitude.
    pub fn is_near_zero(&self) -> (r: bool)
        requires
            in_range(*self),
        ensures
            r == within(*self, EPSILON - 1),
    {
        let ax: i64 = if self.x < 0 { -self.x } else { self.x };
        let ay: i64 = if self.y < 0 { -self.y } else { self.y };
        let az: i64 = if self.z < 0 { -self.z } else { self.z };
        ax < EPSILON && ay < EPSILON && az < EPSILON
    }

    /// Mirror reflection `v - 2 (v . n) n`, rounded toward zero once.
    pub fn reflect(&self, rhs: Point) -> (r: Self)
        requires
            within(*self, 8 * SCALE as int),
            within(rhs, 8 * SCALE as int),
        ensures
            (r.x as int, r.y as int, r.z as int) == reflect_num(*self, rhs),
            within(r, 4096 * SCALE as int),
    {
        let d: i128 = self.dot_product(rhs);
        let s2: i128 = 4294967296;
        proof {
            lemma_dot_mag(*self, rhs, 524288, 524288);
            lemma_reflect_term_bound(d as int, rhs.x as int);
            lemma_reflect_term_bound(d as int, rhs.y as int);
            lemma_reflect_term_bound(d as int, rhs.z as int);
        }
        let tx: i128 = 2 * d * (rhs.x as i128) / s2;
        let ty: i128 = 2 * d * (rhs.y as i128) / s2;
        let tz: i128 = 2 * d * (rhs.z as i128) / s2;
        Point {
            x: self.x - tx as i64,
            y: self.y - ty as i64,
            z: self.z - tz as i64,
        }
    }

    /// Snell refraction of `self` about the normal `rhs` with the given
    /// refraction ratio, all in fixed point.
    pub fn refract(&self, rhs: Point, refraction_ratio: i64) -> (r: Self)
        requires
            within(*self, 2 * SCALE as int),
            within(rhs, 8 * SCALE as int),
            0 < refraction_ratio <= 16 * SCALE as int,
        ensures
            (r.x as int, r.y as int, r.z as int) == refract_num(*self, rhs, refraction_ratio as int),
            within(r, 68719476736),
    {
        let d: i128 = self.dot_product(rhs);
        proof {
            lemma_dot_mag(*self, rhs, 131072, 524288);
            crate::utility::lemma_tdiv_bound(-(d as int), 65536, 206158430208);
        }
        let mut cos: i64 = ((-d) / (SCALE as i128)) as i64;
        if cos > SCALE {
            cos = SCALE;
        }
        assert(cos as int == refract_cos(*self, rhs));
        assert(abs(cos as int) <= 3145728);
        proof {
            crate::utility::lemma_fx_mul_mag(cos as int, rhs.x as int, 3145728, 524288);
            crate::utility::lemma_fx_mul_mag(cos as int, rhs.y as int, 3145728, 524288);
            crate::utility::lemma_fx_mul_mag(cos as int, rhs.z as int, 3145728, 524288);
        }
        let ix: i64 = fx_mul(cos, rhs.x);
        let iy: i64 = fx_mul(cos, rhs.y);
        let iz: i64 = fx_mul(cos, rhs.z);
        proof {
            crate::utility::lemma_fx_mul_mag(
                refraction_ratio as int,
                (self.x + ix) as int,
                1048576,
                25296896,
            );
            crate::utility::lemma_fx_mul_mag(
                refraction_ratio as int,
                (self.y + iy) as int,
                1048576,
                25296896,
            );
            crate::utility::lemma_fx_mul_mag(
                refraction_ratio as int,
                (self.z + iz) as int,
                1048576,
                25296896,
            );
        }
        let px: i64 = fx_mul(refraction_ratio, self.x + ix);
        let py: i64 = fx_mul(refraction_ratio, self.y + iy);
        let pz: i64 = fx_mul(refraction_ratio, self.z + iz);
        let perp = Point { x: px, y: py, z: pz };
        proof {
            lemma_dot_mag(perp, perp, 404750336, 404750336);
        }
        let ls: i128 = perp.len_sq();
        let s2: i128 = 4294967296;
        let k: i128 = s2 - ls;
        let ka: u128 = if k < 0 { (-k) as u128 } else { k as u128 };
        let par64: u64 = isqrt(ka);
        proof {
            let p = par64 as int;
            assert(ka as int <= 18938212577185890304);
            assert(p * p <= ka as int);
            if p > 4400000000 {
                assert(p * p > 4400000000int * 4400000000int) by (nonlinear_arith)
                    requires
                        p > 4400000000,
                ;
            }
            crate::utility::lemma_fx_mul_mag(p, rhs.x as int, 4400000000, 524288);
            crate::utility::lemma_fx_mul_mag(p, rhs.y as int, 4400000000, 524288);
            crate::utility::lemma_fx_mul_mag(p, rhs.z as int, 4400000000, 524288);
        }
        let par: i64 = par64 as i64;
        let fx2: i64 = fx_mul(par, rhs.x);
        let fy2: i64 = fx_mul(par, rhs.y);
        let fz2: i64 = fx_mul(par, rhs.z);
        Point { x: px - fx2, y: py - fy2, z: pz - fz2 }
    }

    /// Componentwise sum.
    pub fn add(&self, rhs: Point) -> (r: Self)
        requires
            in_range(*self),
            in_range(rhs),
        ensures
            r.x == self.x + rhs.x,
            r.y == self.y + rhs.y,
            r.z == self.z + rhs.z,
    {
        Point { x: self.x + rhs.x, y: self.y + rhs.y, z: self.z + rhs.z }
    }

    /// Componentwise negation.
    pub fn neg(&self) -> (r: Self)
        requires
            in_range(*self),
        ensures
            r.x == -self.x,
            r.y == -self.y,
            r.z == -self.z,
    {
        Point { x: -self.x, y: -self.y, z: -self.z }
    }

    /// Componentwise difference.
    pub fn sub(&self, rhs: Point) -> (r: Self)
        requires
            in_range(*self),
            in_range(rhs),
        ensures
            r.x == self.x - rhs.x,
            r.y == self.y - rhs.y,
            r.z == self.z - rhs.z,
    {
        Point { x: self.x - rhs.x, y: self.y - rhs.y, z: self.z - rhs.z }
    }

    /// Componentwise fixed-point product.
    pub fn mul(&self, rhs: Point) -> (r: Self)
        requires
            abs((self.x as int) * (rhs.x as int)) <= crate::utility::FXMAX * SCALE,
            abs((self.y as int) * (rhs.y as int)) <= crate::utility::FXMAX * SCALE,
            abs((self.z as int) * (rhs.z as int)) <= crate::utility::FXMAX * SCALE,
        ensures
            r.x as int == fx_mul_spec(self.x as int, rhs.x as int),
            r.y as int == fx_mul_spec(self.y as int, rhs.y as int),
            r.z as int == fx_mul_spec(self.z as int, rhs.z as int),
    {
        Point {
            x: fx_mul(self.x, rhs.x),
            y: fx_mul(self.y, rhs.y),
            z: fx_mul(self.z, rhs.z),
        }
    }

    /// Scaling by a fixed-point scalar.
    pub fn scale(&self, s: i64) -> (r: Self)
        requires
            abs((self.x as int) * (s as int)) <= crate::utility::FXMAX * SCALE,
            abs((self.y as int) * (s as int)) <= crate::utility::FXMAX * SCALE,
            abs((self.z as int) * (s as int)) <= crate::utility::FXMAX * SCALE,
        ensures
            r.x as int == fx_mul_spec(self.x as int, s as int),
            r.y as int == fx_mul_spec(self.y as int, s as int),
            r.z as int == fx_mul_spec(self.z as int, s as int),
    {
        Point { x: fx_mul(self.x, s), y: fx_mul(self.y, s), z: fx_mul(self.z, s) }
    }

    /// Division by a positive fixed-point scalar.
    pub fn div_scalar(&self, s: i64) -> (r: Self)
        requires
            s > 0,
            within(*self, crate::utility::DIVMAX as int),
        ensures
            r.x as int == crate::utility::fx_div_spec(self.x as int, s as int),
            r.y as int == crate::utility::fx_div_spec(self.y as int, s as int),
            r.z as int == crate::utility::fx_div_spec(self.z as int, s as int),
    {
        Point {
            x: crate::utility::fx_div(self.x, s),
            y: crate::utility::fx_div(self.y, s),
            z: crate::utility::fx_div(self.z, s),
        }
    }

    /// The cross product, each product rounded toward zero.
    pub fn cross(&self, rhs: Point) -> (r: Self)
        requires
            within(*self, 0x40_0000_0000),
            within(rhs, 0x40_0000_0000),
        ensures
            r.x as int == fx_mul_spec(self.y as int, rhs.z as int) - fx_mul_spec(
                self.z as int,
                rhs.y as int,
            ),
            r.y as int == fx_mul_spec(self.z as int, rhs.x as int) - fx_mul_spec(
                self.x as int,
                rhs.z as int,
            ),
            r.z as int == fx_mul_spec(self.x as int, rhs.y as int) - fx_mul_spec(
                self.y as int,
                rhs.x as int,
            ),
    {
        proof {
            let m: int = 0x40_0000_0000;
            crate::utility::lemma_fx_mul_mag(self.y as int, rhs.z as int, m, m);
            crate::utility::lemma_fx_mul_mag(self.z as int, rhs.y as int, m, m);
            crate::utility::lemma_fx_mul_mag(self.z as int, rhs.x as int, m, m);
            crate::utility::lemma_fx_mul_mag(self.x as int, rhs.z as int, m, m);
            crate::utility::lemma_fx_mul_mag(self.x as int, rhs.y as int, m, m);
            crate::utility::lemma_fx_mul_mag(self.y as int, rhs.x as int, m, m);
        }
        Point {
            x: fx_mul(self.y, rhs.z) - fx_mul(self.z, rhs.y),
            y: fx_mul(self.z, rhs.x) - fx_mul(self.x, rhs.z),
            z: fx_mul(self.x, rhs.y) - fx_mul(self.y, rhs.x),
        }
    }
}

/// Componentwise magnitude bounds bound a dot product and its three
/// products.
pub proof fn lemma_dot_mag(a: Point, b: Point, ma: int, mb: int)
    requires
        within(a, ma),
        within(b, mb),
    ensures
        abs(dot_spec(a, b)) <= 3 * ma * mb,
        abs(a.x * b.x) <= ma * mb,
        abs(a.y * b.y) <= ma * mb,
        abs(a.z * b.z) <= ma * mb,
{
    assert(abs(a.x * b.x) <= ma * mb && abs(a.y * b.y) <= ma * mb && abs(a.z * b.z) <= ma * mb)
        by (nonlinear_arith)
        requires
            within(a, ma),
            within(b, mb),
    ;
    assert(3 * ma * mb == ma * mb + ma * mb + ma * mb) by (nonlinear_arith);
}

/// A squared length is never negative.
pub proof fn lemma_len_sq_nonneg(v: Point)
    ensures
        len_sq_spec(v) >= 0,
        v.x * v.x <= len_sq_spec(v),
        v.y * v.y <= len_sq_spec(v),
        v.z * v.z <= len_sq_spec(v),
{
    assert(v.x * v.x >= 0 && v.y * v.y >= 0 && v.z * v.z >= 0) by (nonlinear_arith);
}

/// A squared length of an in-range vector is at most `3 * VMAX * VMAX`.
pub proof fn lemma_len_sq_upper(v: Point)
    requires
        in_range(v),
    ensures
        len_sq_spec(v) <= 3 * (VMAX as int) * (VMAX as int),
{
    assert(len_sq_spec(v) <= 3 * (VMAX as int) * (VMAX as int)) by (nonlinear_arith)
        requires
            in_range(v),
            VMAX == 0x1000_0000_0000i64,
    ;
}

/// No component exceeds the square root of the squared length.
proof fn lemma_component_le_root(v: Point, l: int)
    requires
        l >= 0,
        len_sq_spec(v) < (l + 1) * (l + 1),
    ensures
        -l <= v.x <= l,
        -l <= v.y <= l,
        -l <= v.z <= l,
{
    lemma_len_sq_nonneg(v);
    assert(-l <= v.x <= l && -l <= v.y <= l && -l <= v.z <= l) by (nonlinear_arith)
        requires
            l >= 0,
            v.x * v.x < (l + 1) * (l + 1),
            v.y * v.y < (l + 1) * (l + 1),
            v.z * v.z < (l + 1) * (l + 1),
    ;
}

/// A component at most the root keeps `c * SCALE / root` within `SCALE`.
proof fn lemma_unit_component_bound(c: int, l: int)
    requires
        l >= 1,
        -l <= c <= l,
    ensures
        -SCALE <= tdiv(c * (SCALE as int), l) <= SCALE,
{
    assert(abs(c * (SCALE as int)) <= l * (SCALE as int)) by (nonlinear_arith)
        requires
            -l <= c <= l,
            l >= 1,
    ;
    crate::utility::lemma_tdiv_bound(c * (SCALE as int), l, l * (SCALE as int));
    vstd::arithmetic::div_mod::lemma_div_multiples_vanish(SCALE as int, l);
}

/// The rounded reflection correction term stays small for near-unit inputs.
proof fn lemma_reflect_term_bound(d: int, c: int)
    requires
        abs(d) <= 824633720832,
        abs(c) <= 524288,
    ensures
        abs(2 * d * c) <= 864691128455135232,
        abs(tdiv(2 * d * c, 4294967296)) <= 201326592,
{
    assert(abs(2 * d * c) <= 864691128455135232) by (nonlinear_arith)
        requires
            abs(d) <= 824633720832,
            abs(c) <= 524288,
    ;
    crate::utility::lemma_tdiv_bound(2 * d * c, 4294967296, 864691128455135232);
}

/// Multiplication distributes over a three-term sum.
proof fn lemma_distrib3(k: int, p: int, q: int, r: int)
    ensures
        k * p + k * q + k * r == k * (p + q + r),
{
    assert(k * p + k * q + k * r == k * (p + q + r)) by (nonlinear_arith);
}

/// Reflection preserves squared length exactly: over exact scaled integers,
/// with `s2` the normal's squared length, the reflected vector
/// `s2 * v - 2 (v . n) n` has squared length `s2 * s2 * (v . v)`.
pub proof fn lemma_reflect_preserves_len_sq(v: Point, n: Point, d: int, s2: int)
    requires
        d == dot_spec(v, n),
        s2 == len_sq_spec(n),
    ensures
        (s2 * v.x - 2 * d * n.x) * (s2 * v.x - 2 * d * n.x) + (s2 * v.y - 2 * d * n.y) * (s2 * v.y
            - 2 * d * n.y) + (s2 * v.z - 2 * d * n.z) * (s2 * v.z - 2 * d * n.z) == s2 * s2
            * len_sq_spec(v),
{
    let vx = v.x as int;
    let vy = v.y as int;
    let vz = v.z as int;
    let nx = n.x as int;
    let ny = n.y as int;
    let nz = n.z as int;
    lemma_reflect_component(s2, d, vx, nx);
    lemma_reflect_component(s2, d, vy, ny);
    lemma_reflect_component(s2, d, vz, nz);
    lemma_distrib3(s2 * s2, vx * vx, vy * vy, vz * vz);
    lemma_distrib3(4 * s2 * d, vx * nx, vy * ny, vz * nz);
    lemma_distrib3(4 * d * d, nx * nx, ny * ny, nz * nz);
    assert(4 * s2 * d * d == 4 * d * d * s2) by (nonlinear_arith);
}

/// One component of the reflection expansion:
/// `(s2 v - 2 d n)^2 == s2^2 v^2 - 4 s2 d (v n) + 4 d^2 n^2`.
#[verifier::rlimit(100)]
proof fn lemma_reflect_component(s2: int, d: int, c: int, m: int)
    ensures
        (s2 * c - 2 * d * m) * (s2 * c - 2 * d * m) == s2 * s2 * (c * c) - 4 * s2 * d * (c * m) + 4
            * d * d * (m * m),
{
    let a = s2 * c;
    let b = 2 * d * m;
    assert((a - b) * (a - b) == a * a - 2 * (a * b) + b * b) by (nonlinear_arith);
    assert((s2 * c) * (s2 * c) == s2 * s2 * (c * c)) by (nonlinear_arith);
    assert(2 * ((s2 * c) * (2 * d * m)) == 4 * s2 * d * (c * m)) by (nonlinear_arith);
    assert((2 * d * m) * (2 * d * m) == 4 * d * d * (m * m)) by (nonlinear_arith);
}

/// Index-matched refraction is a no-op: for exactly unit incoming direction
/// `u` and normal `n` (both of squared length `s2`) with cosine `c`, the
/// perpendicular part `s2 * u + c * n` misses exactly `c * c * s2` of the
/// full squared length, so the parallel coefficient is exactly `c`, and
/// recomposing gives back `s2 * u`: the direction is unchanged.
pub proof fn lemma_index_matched_refraction(u: Point, n: Point, c: int, s2: int)
    requires
        len_sq_spec(u) == s2,
        len_sq_spec(n) == s2,
        dot_spec(u, n) == -c,
    ensures
        s2 * s2 * s2 - ((s2 * u.x + c * n.x) * (s2 * u.x + c * n.x) + (s2 * u.y + c * n.y) * (s2
            * u.y + c * n.y) + (s2 * u.z + c * n.z) * (s2 * u.z + c * n.z)) == c * c * s2,
        (s2 * u.x + c * n.x) - c * n.x == s2 * u.x,
        (s2 * u.y + c * n.y) - c * n.y == s2 * u.y,
        (s2 * u.z + c * n.z) - c * n.z == s2 * u.z,
{
    let ux = u.x as int;
    let uy = u.y as int;
    let uz = u.z as int;
    let nx = n.x as int;
    let ny = n.y as int;
    let nz = n.z as int;
    lemma_perp_component(s2, c, ux, nx);
    lemma_perp_component(s2, c, uy, ny);
    lemma_perp_component(s2, c, uz, nz);
    lemma_distrib3(s2 * s2, ux * ux, uy * uy, uz * uz);
    lemma_distrib3(2 * s2 * c, ux * nx, uy * ny, uz * nz);
    lemma_distrib3(c * c, nx * nx, ny * ny, nz * nz);
    assert(2 * s2 * c * (-c) == -2 * (c * c * s2)) by (nonlinear_arith);
    assert(s2 * s2 * s2 == s2 * s2 * s2);
}

/// One component of the perpendicular-part expansion:
/// `(s2 u + c n)^2 == s2^2 u^2 + 2 s2 c (u n) + c^2 n^2`.
#[verifier::rlimit(100)]
proof fn lemma_perp_component(s2: int, c: int, a: int, m: int)
    ensures
        (s2 * a + c * m) * (s2 * a + c * m) == s2 * s2 * (a * a) + 2 * s2 * c * (a * m) + c * c * (
        m * m),
{
    let p = s2 * a;
    let q = c * m;
    assert((p + q) * (p + q) == p * p + 2 * (p * q) + q * q) by (nonlinear_arith);
    assert((s2 * a) * (s2 * a) == s2 * s2 * (a * a)) by (nonlinear_arith);
    assert(2 * ((s2 * a) * (c * m)) == 2 * s2 * c * (a * m)) by (nonlinear_arith);
    assert((c * m) * (c * m) == c * c * (m * m)) by (nonlinear_arith);
}

} // verus!
