use vstd::prelude::*;

use crate::scalar::Scalar;
use crate::scalar::lemma_abs_mul_le;

verus! {

// Homogeneous integer geometry.
//
// A point is a 4-tuple (x, y, z, w) with w > 0, denoting (x/w, y/w, z/w);
// a direction is a nonzero 3-tuple (x, y, z) meaningful up to a positive
// factor.  Every predicate below is an exact integer condition, invariant
// under those scalings, so no normalization (and no square root) is ever
// needed.

/// A location in 3D space, in homogeneous integer coordinates.
#[derive(Clone, Copy, Debug)]
pub struct Point {
    pub x: i128,
    pub y: i128,
    pub z: i128,
    pub w: i128,
}

/// A spatial direction: a nonzero integer vector, up to positive scale.
#[derive(Clone, Copy, Debug)]
pub struct Direction {
    pub x: i128,
    pub y: i128,
    pub z: i128,
}

impl Point {
    pub open spec fn wf(&self) -> bool {
        self.w > 0
    }

    /// All coordinates at most `b` in magnitude.
    pub open spec fn bounded(&self, b: int) -> bool {
        -b <= self.x <= b && -b <= self.y <= b && -b <= self.z <= b && 0 < self.w <= b
    }

    /// `self` denotes the affine point (x, y, z) given as fractions.
    pub open spec fn denotes(&self, x: Scalar, y: Scalar, z: Scalar) -> bool {
        self.x * x.d == x.n * self.w
        && self.y * y.d == y.n * self.w
        && self.z * z.d == z.n * self.w
    }

    /// Same affine point (cross-multiplied coordinate equality).
    pub open spec fn eqv_spec(&self, other: &Point) -> bool {
        self.x * other.w == other.x * self.w
        && self.y * other.w == other.y * self.w
        && self.z * other.w == other.z * self.w
    }

    /// The point (x, y, z), each coordinate an exact fraction.
    pub fn new(x: Scalar, y: Scalar, z: Scalar) -> (r: Point)
        requires
            x.wf() && y.wf() && z.wf(),
            x.bounded(0x1000) && y.bounded(0x1000) && z.bounded(0x1000),
        ensures
            r.wf(),
            r.denotes(x, y, z),
            r.bounded(0x1000_0000_0000),
    {
        proof {
            lemma_homog3(x.n as int, x.d as int, y.n as int, y.d as int,
                z.n as int, z.d as int, 0x1000);
        }
        let r = Point {
            x: x.n * y.d * z.d,
            y: y.n * x.d * z.d,
            z: z.n * x.d * y.d,
            w: x.d * y.d * z.d,
        };
        proof {
            lemma_homog3_denotes(x.n as int, x.d as int, y.n as int, y.d as int,
                z.n as int, z.d as int);
        }
        r
    }

    /// The origin (0, 0, 0).
    pub fn origin() -> (r: Point)
        ensures
            r.wf(),
            r.x == 0 && r.y == 0 && r.z == 0 && r.w == 1,
    {
        Point { x: 0, y: 0, z: 0, w: 1 }
    }

    /// Exact equality of the denoted points.
    pub fn eqv(&self, other: &Point) -> (r: bool)
        requires
            self.wf() && other.wf(),
            self.bounded(0x8000_0000_0000_0000),
            other.bounded(0x8000_0000_0000_0000),
        ensures
            r == self.eqv_spec(other),
    {
        proof {
            lemma_pair_products_bounded(self.x as int, self.y as int, self.z as int, self.w as int,
                other.x as int, other.y as int, other.z as int, other.w as int,
                0x8000_0000_0000_0000, 0x8000_0000_0000_0000);
        }
        self.x * other.w == other.x * self.w
        && self.y * other.w == other.y * self.w
        && self.z * other.w == other.z * self.w
    }
}

impl Direction {
    pub open spec fn wf(&self) -> bool {
        !(self.x == 0 && self.y == 0 && self.z == 0)
    }

    pub open spec fn bounded(&self, b: int) -> bool {
        -b <= self.x <= b && -b <= self.y <= b && -b <= self.z <= b
    }

    /// `self` is the vector (x, y, z) of fractions, scaled by the positive
    /// common factor `x.d * y.d * z.d`.
    pub open spec fn denotes(&self, x: Scalar, y: Scalar, z: Scalar) -> bool {
        self.x * x.d == x.n * (x.d * y.d * z.d)
        && self.y * y.d == y.n * (x.d * y.d * z.d)
        && self.z * z.d == z.n * (x.d * y.d * z.d)
    }

    /// The directions are parallel (possibly opposite): zero cross product.
    pub open spec fn parallel(&self, other: &Direction) -> bool {
        self.y * other.z == self.z * other.y
        && self.z * other.x == self.x * other.z
        && self.x * other.y == self.y * other.x
    }

    /// Same direction: parallel and pointing the same way.
    pub open spec fn eqv_spec(&self, other: &Direction) -> bool {
        self.parallel(other)
        && self.x * other.x + self.y * other.y + self.z * other.z > 0
    }

    /// The direction of the vector (x, y, z), each an exact fraction.
    pub fn new(x: Scalar, y: Scalar, z: Scalar) -> (r: Result<Direction, &'static str>)
        requires
            x.wf() && y.wf() && z.wf(),
            x.bounded(0x1000) && y.bounded(0x1000) && z.bounded(0x1000),
        ensures
            match r {
                Result::Ok(dir) => {
                    &&& dir.wf()
                    &&& dir.denotes(x, y, z)
                    &&& dir.bounded(0x1000_0000_0000)
                    &&& !(x.n == 0 && y.n == 0 && z.n == 0)
                },
                Result::Err(_) => x.n == 0 && y.n == 0 && z.n == 0,
            },
    {
        if x.n == 0 && y.n == 0 && z.n == 0 {
            return Result::Err("direction undefined: zero-length vector");
        }
        proof {
            lemma_homog3(x.n as int, x.d as int, y.n as int, y.d as int,
                z.n as int, z.d as int, 0x1000);
            lemma_homog3_denotes(x.n as int, x.d as int, y.n as int, y.d as int,
                z.n as int, z.d as int);
            lemma_homog3_nonzero(x.n as int, x.d as int, y.n as int, y.d as int,
                z.n as int, z.d as int);
        }
        Result::Ok(Direction {
            x: x.n * y.d * z.d,
            y: y.n * x.d * z.d,
            z: z.n * x.d * y.d,
        })
    }

    /// The direction of an integer vector.
    pub fn from_ints(x: i64, y: i64, z: i64) -> (r: Result<Direction, &'static str>)
        ensures
            match r {
                Result::Ok(dir) => {
                    &&& dir.wf()
                    &&& dir.x == x && dir.y == y && dir.z == z
                },
                Result::Err(_) => x == 0 && y == 0 && z == 0,
            },
    {
        if x == 0 && y == 0 && z == 0 {
            return Result::Err("direction undefined: zero-length vector");
        }
        Result::Ok(Direction { x: x as i128, y: y as i128, z: z as i128 })
    }

    /// Exact equality of directions (parallel and same orientation).
    pub fn eqv(&self, other: &Direction) -> (r: bool)
        requires
            self.bounded(0x4000_0000_0000_0000),
            other.bounded(0x4000_0000_0000_0000),
        ensures
            r == self.eqv_spec(other),
    {
        proof {
            lemma_pair_products_bounded(self.x as int, self.y as int, self.z as int, 1,
                other.x as int, other.y as int, other.z as int, 1,
                0x4000_0000_0000_0000, 0x4000_0000_0000_0000);
        }
        self.y * other.z == self.z * other.y
        && self.z * other.x == self.x * other.z
        && self.x * other.y == self.y * other.x
        && self.x * other.x + self.y * other.y + self.z * other.z > 0
    }
}

/// An infinite plane: the points (x, y, z, w) with `a x + b y + c z == e w`.
///
/// The 4-tuple is meaningful up to a positive factor; (a, b, c) is the
/// normal direction.  [`Plane::new`] takes an offset `d` measured against
/// the given normal vector, so for a normal of unit length `d` is the
/// signed distance from the origin.
#[derive(Clone, Copy, Debug)]
pub struct Plane {
    pub a: i128,
    pub b: i128,
    pub c: i128,
    pub e: i128,
}

/// An infinite line through `origin` along `direction`.
#[derive(Clone, Copy, Debug)]
pub struct Line {
    pub origin: Point,
    pub direction: Direction,
}

/// A half-infinite line from `origin` along `direction`.
#[derive(Clone, Copy, Debug)]
pub struct Ray {
    pub origin: Point,
    pub direction: Direction,
}

/// A bounded line from `start` to `end`; the endpoints must differ.
#[derive(Clone, Copy, Debug)]
pub struct LineSegment {
    pub start: Point,
    pub end: Point,
}

impl Plane {
    pub open spec fn wf(&self) -> bool {
        !(self.a == 0 && self.b == 0 && self.c == 0)
    }

    pub open spec fn bounded(&self, bound: int) -> bool {
        -bound <= self.a <= bound && -bound <= self.b <= bound
        && -bound <= self.c <= bound && -bound <= self.e <= bound
    }

    /// The point `q` satisfies the plane equation.
    pub open spec fn contains_point_spec(&self, q: &Point) -> bool {
        self.a * q.x + self.b * q.y + self.c * q.z == self.e * q.w
    }

    /// The direction `dir` is parallel to the plane.
    pub open spec fn parallel_dir_spec(&self, dir: &Direction) -> bool {
        self.a * dir.x + self.b * dir.y + self.c * dir.z == 0
    }

    pub open spec fn contains_line_spec(&self, l: &Line) -> bool {
        self.contains_point_spec(&l.origin) && self.parallel_dir_spec(&l.direction)
    }

    pub open spec fn contains_ray_spec(&self, r: &Ray) -> bool {
        self.contains_point_spec(&r.origin) && self.parallel_dir_spec(&r.direction)
    }

    /// Same plane with the same orientation: proportional 4-tuples with
    /// the normals pointing the same way.
    pub open spec fn eqv_spec(&self, other: &Plane) -> bool {
        self.a * other.b == self.b * other.a
        && self.a * other.c == self.c * other.a
        && self.b * other.c == self.c * other.b
        && self.a * other.e == self.e * other.a
        && self.b * other.e == self.e * other.b
        && self.c * other.e == self.e * other.c
        && self.a * other.a + self.b * other.b + self.c * other.c > 0
    }

    /// The plane with the given normal whose offset along that normal
    /// vector is `d` (the signed distance for a normal of unit length).
    pub fn new(normal: Direction, d: Scalar) -> (r: Plane)
        requires
            normal.wf(),
            d.wf(),
            normal.bounded(0x1000_0000_0000),
            d.bounded(0x1000),
        ensures
            r.wf(),
            r.a == normal.x * d.d && r.b == normal.y * d.d && r.c == normal.z * d.d,
            r.e == d.n,
            r.bounded(0x1_0000_0000_0000_0000),
    {
        proof {
            lemma_pair_products_bounded(normal.x as int, normal.y as int, normal.z as int, 1,
                d.d as int, d.n as int, 1, 1, 0x1000_0000_0000, 0x1000);
            lemma_scale_nonzero(normal.x as int, normal.y as int, normal.z as int, d.d as int);
        }
        Plane { a: normal.x * d.d, b: normal.y * d.d, c: normal.z * d.d, e: d.n }
    }

    /// The plane through `origin` with the given normal.
    pub fn from_origin_normal(origin: Point, normal: Direction) -> (r: Plane)
        requires
            origin.wf(),
            normal.wf(),
            origin.bounded(0x1000_0000_0000),
            normal.bounded(0x1000_0000_0000),
        ensures
            r.wf(),
            r.contains_point_spec(&origin),
            r.a == normal.x * origin.w && r.b == normal.y * origin.w && r.c == normal.z * origin.w,
            r.e == normal.x * origin.x + normal.y * origin.y + normal.z * origin.z,
            r.bounded(0x400_0000_0000_0000_0000_0000),
    {
        proof {
            lemma_dot3_bound(normal.x as int, normal.y as int, normal.z as int,
                origin.x as int, origin.y as int, origin.z as int,
                0x1000_0000_0000, 0x1000_0000_0000);
            lemma_pair_products_bounded(normal.x as int, normal.y as int, normal.z as int, 1,
                origin.w as int, 1, 1, 1, 0x1000_0000_0000, 0x1000_0000_0000);
            lemma_scale_nonzero(normal.x as int, normal.y as int, normal.z as int,
                origin.w as int);
        }
        let r = Plane {
            a: normal.x * origin.w,
            b: normal.y * origin.w,
            c: normal.z * origin.w,
            e: normal.x * origin.x + normal.y * origin.y + normal.z * origin.z,
        };
        proof {
            lemma_from_origin_normal_contains(normal.x as int, normal.y as int, normal.z as int,
                origin.x as int, origin.y as int, origin.z as int, origin.w as int);
        }
        r
    }

    /// The plane containing `line` and the direction `dir`; fails when the
    /// two directions are colinear (the cross product vanishes).
    pub fn from_line_dir(line: &Line, dir: &Direction) -> (r: Result<Plane, &'static str>)
        requires
            line.wf(),
            dir.wf(),
            line.origin.bounded(0x4000_0000),
            line.direction.bounded(0x4000_0000),
            dir.bounded(0x4000_0000),
        ensures
            match r {
                Result::Ok(p) => {
                    &&& p.wf()
                    &&& p.contains_line_spec(line)
                    &&& p.parallel_dir_spec(dir)
                    &&& !line.direction.parallel(dir)
                    &&& p.bounded(0x2000_0000_0000_0000_0000_0000)
                },
                Result::Err(_) => line.direction.parallel(dir),
            },
    {
        proof {
            lemma_cross_bound(line.direction.x as int, line.direction.y as int,
                line.direction.z as int, dir.x as int, dir.y as int, dir.z as int,
                0x4000_0000, 0x4000_0000);
        }
        let nx = line.direction.y * dir.z - line.direction.z * dir.y;
        let ny = line.direction.z * dir.x - line.direction.x * dir.z;
        let nz = line.direction.x * dir.y - line.direction.y * dir.x;
        if nx == 0 && ny == 0 && nz == 0 {
            return Result::Err("plane undefined: line and direction are colinear");
        }
        let normal = Direction { x: nx, y: ny, z: nz };
        proof {
            lemma_dot3_bound(nx as int, ny as int, nz as int,
                line.origin.x as int, line.origin.y as int, line.origin.z as int,
                0x2000_0000_0000_0000, 0x4000_0000);
            lemma_pair_products_bounded(nx as int, ny as int, nz as int, 1,
                line.origin.w as int, 1, 1, 1, 0x2000_0000_0000_0000, 0x4000_0000);
            lemma_scale_nonzero(nx as int, ny as int, nz as int, line.origin.w as int);
        }
        let p = Plane {
            a: nx * line.origin.w,
            b: ny * line.origin.w,
            c: nz * line.origin.w,
            e: nx * line.origin.x + ny * line.origin.y + nz * line.origin.z,
        };
        proof {
            lemma_from_origin_normal_contains(nx as int, ny as int, nz as int,
                line.origin.x as int, line.origin.y as int, line.origin.z as int,
                line.origin.w as int);
            lemma_cross_orthogonal(line.direction.x as int, line.direction.y as int,
                line.direction.z as int, dir.x as int, dir.y as int, dir.z as int,
                line.origin.w as int);
        }
        Result::Ok(p)
    }

    /// The plane containing `line` and the point `q`; fails when `q` lies
    /// on the line (no unique plane).
    pub fn from_line_point(line: &Line, q: &Point) -> (r: Result<Plane, &'static str>)
        requires
            line.wf(),
            q.wf(),
            line.origin.bounded(0x8000),
            line.direction.bounded(0x8000),
            q.bounded(0x8000),
        ensures
            match r {
                Result::Ok(p) => {
                    &&& p.wf()
                    &&& p.contains_line_spec(line)
                    &&& p.contains_point_spec(q)
                    &&& !line.contains_point_spec(q)
                    &&& p.bounded(0x2000_0000_0000_0000_0000_0000)
                },
                Result::Err(_) => line.contains_point_spec(q),
            },
    {
        proof {
            lemma_pair_products_bounded(q.x as int, q.y as int, q.z as int, q.w as int,
                line.origin.x as int, line.origin.y as int, line.origin.z as int,
                line.origin.w as int, 0x8000, 0x8000);
        }
        // Offset from the line origin to q, cleared of denominators.
        let ox = q.x * line.origin.w - line.origin.x * q.w;
        let oy = q.y * line.origin.w - line.origin.y * q.w;
        let oz = q.z * line.origin.w - line.origin.z * q.w;
        proof {
            lemma_cross_bound(line.direction.x as int, line.direction.y as int,
                line.direction.z as int, ox as int, oy as int, oz as int,
                0x8000, 0x2_0000_0000);
        }
        let nx = line.direction.y * oz - line.direction.z * oy;
        let ny = line.direction.z * ox - line.direction.x * oz;
        let nz = line.direction.x * oy - line.direction.y * ox;
        if nx == 0 && ny == 0 && nz == 0 {
            return Result::Err("plane undefined: point lies on the line");
        }
        proof {
            lemma_dot3_bound(nx as int, ny as int, nz as int,
                line.origin.x as int, line.origin.y as int, line.origin.z as int,
                0x8_0000_0000_0000, 0x8000);
            lemma_pair_products_bounded(nx as int, ny as int, nz as int, 1,
                line.origin.w as int, 1, 1, 1, 0x8_0000_0000_0000, 0x8000);
            lemma_scale_nonzero(nx as int, ny as int, nz as int, line.origin.w as int);
        }
        let p = Plane {
            a: nx * line.origin.w,
            b: ny * line.origin.w,
            c: nz * line.origin.w,
            e: nx * line.origin.x + ny * line.origin.y + nz * line.origin.z,
        };
        proof {
            lemma_from_origin_normal_contains(nx as int, ny as int, nz as int,
                line.origin.x as int, line.origin.y as int, line.origin.z as int,
                line.origin.w as int);
            lemma_cross_orthogonal(line.direction.x as int, line.direction.y as int,
                line.direction.z as int, ox as int, oy as int, oz as int,
                line.origin.w as int);
            lemma_from_line_point_contains(
                line.direction.x as int, line.direction.y as int, line.direction.z as int,
                line.origin.x as int, line.origin.y as int, line.origin.z as int,
                line.origin.w as int,
                q.x as int, q.y as int, q.z as int, q.w as int);
        }
        Result::Ok(p)
    }

    /// The normal direction of the plane.
    pub fn normal(&self) -> (r: Direction)
        requires
            self.wf(),
        ensures
            r.wf(),
            r.x == self.a && r.y == self.b && r.z == self.c,
    {
        Direction { x: self.a, y: self.b, z: self.c }
    }

    /// The point of the plane closest to the coordinate origin (the
    /// projection of the origin onto the plane).
    pub fn origin(&self) -> (r: Point)
        requires
            self.wf(),
            self.bounded(0x2000_0000),
        ensures
            r.wf(),
            self.contains_point_spec(&r),
            r.x == self.a * self.e && r.y == self.b * self.e && r.z == self.c * self.e,
            r.w == self.a * self.a + self.b * self.b + self.c * self.c,
            r.bounded(0x4000_0000_0000_0000),
    {
        proof {
            lemma_dot3_bound(self.a as int, self.b as int, self.c as int,
                self.a as int, self.b as int, self.c as int, 0x2000_0000, 0x2000_0000);
            lemma_pair_products_bounded(self.a as int, self.b as int, self.c as int, 1,
                self.e as int, 1, 1, 1, 0x2000_0000, 0x2000_0000);
            lemma_norm_sq_positive(self.a as int, self.b as int, self.c as int);
            lemma_plane_origin_contains(self.a as int, self.b as int, self.c as int,
                self.e as int);
        }
        Point {
            x: self.a * self.e,
            y: self.b * self.e,
            z: self.c * self.e,
            w: self.a * self.a + self.b * self.b + self.c * self.c,
        }
    }

    /// Whether the point satisfies the plane equation.
    pub fn contains_point(&self, q: &Point) -> (r: bool)
        requires
            self.bounded(0x2000_0000_0000_0000_0000_0000),
            q.bounded(0x4000_0000),
        ensures
            r == self.contains_point_spec(q),
    {
        proof {
            lemma_dot3_bound(self.a as int, self.b as int, self.c as int,
                q.x as int, q.y as int, q.z as int,
                0x2000_0000_0000_0000_0000_0000, 0x4000_0000);
            lemma_abs_mul_le(self.e as int, q.w as int,
                0x2000_0000_0000_0000_0000_0000, 0x4000_0000);
        }
        self.a * q.x + self.b * q.y + self.c * q.z == self.e * q.w
    }

    /// Whether the direction is parallel to the plane.
    pub fn parallel_dir(&self, dir: &Direction) -> (r: bool)
        requires
            self.bounded(0x2000_0000_0000_0000_0000_0000),
            dir.bounded(0x4000_0000),
        ensures
            r == self.parallel_dir_spec(dir),
    {
        proof {
            lemma_dot3_bound(self.a as int, self.b as int, self.c as int,
                dir.x as int, dir.y as int, dir.z as int,
                0x2000_0000_0000_0000_0000_0000, 0x4000_0000);
        }
        self.a * dir.x + self.b * dir.y + self.c * dir.z == 0
    }

    /// Whether the whole line lies in the plane.
    pub fn contains_line(&self, l: &Line) -> (r: bool)
        requires
            self.bounded(0x2000_0000_0000_0000_0000_0000),
            l.origin.bounded(0x4000_0000),
            l.direction.bounded(0x4000_0000),
        ensures
            r == self.contains_line_spec(l),
    {
        self.contains_point(&l.origin) && self.parallel_dir(&l.direction)
    }

    /// Whether the whole ray lies in the plane.
    pub fn contains_ray(&self, ray: &Ray) -> (r: bool)
        requires
            self.bounded(0x2000_0000_0000_0000_0000_0000),
            ray.origin.bounded(0x4000_0000),
            ray.direction.bounded(0x4000_0000),
        ensures
            r == self.contains_ray_spec(ray),
    {
        self.contains_point(&ray.origin) && self.parallel_dir(&ray.direction)
    }

    /// Whether both endpoints of the segment lie in the plane.
    pub fn contains_segment(&self, s: &LineSegment) -> (r: bool)
        requires
            self.bounded(0x2000_0000_0000_0000_0000_0000),
            s.start.bounded(0x4000_0000),
            s.end.bounded(0x4000_0000),
        ensures
            r == (self.contains_point_spec(&s.start) && self.contains_point_spec(&s.end)),
    {
        self.contains_point(&s.start) && self.contains_point(&s.end)
    }

    /// Exact equality of oriented planes.
    pub fn eqv(&self, other: &Plane) -> (r: bool)
        requires
            self.bounded(0x2000_0000_0000_0000),
            other.bounded(0x2000_0000_0000_0000),
        ensures
            r == self.eqv_spec(other),
    {
        proof {
            lemma_pair_products_bounded(self.a as int, self.b as int, self.c as int,
                self.e as int, other.a as int, other.b as int, other.c as int,
                other.e as int, 0x2000_0000_0000_0000, 0x2000_0000_0000_0000);
        }
        self.a * other.b == self.b * other.a
        && self.a * other.c == self.c * other.a
        && self.b * other.c == self.c * other.b
        && self.a * other.e == self.e * other.a
        && self.b * other.e == self.e * other.b
        && self.c * other.e == self.e * other.c
        && self.a * other.a + self.b * other.b + self.c * other.c > 0
    }
}

impl Line {
    pub open spec fn wf(&self) -> bool {
        self.origin.wf() && self.direction.wf()
    }

    /// The point `q` lies on the line: the offset from the origin to `q`
    /// (cleared of denominators) has zero cross product with the direction.
    pub open spec fn contains_point_spec(&self, q: &Point) -> bool {
        let ox = q.x * self.origin.w - self.origin.x * q.w;
        let oy = q.y * self.origin.w - self.origin.y * q.w;
        let oz = q.z * self.origin.w - self.origin.z * q.w;
        oy * self.direction.z == oz * self.direction.y
        && oz * self.direction.x == ox * self.direction.z
        && ox * self.direction.y == oy * self.direction.x
    }

    /// Same line, up to parameterization: parallel directions and each
    /// origin on the other line.
    pub open spec fn eqv_spec(&self, other: &Line) -> bool {
        self.direction.parallel(&other.direction) && self.contains_point_spec(&other.origin)
    }

    pub fn new(origin: Point, direction: Direction) -> (r: Line)
        requires
            origin.wf(),
            direction.wf(),
        ensures
            r.wf(),
            r.origin == origin,
            r.direction == direction,
    {
        Line { origin, direction }
    }

    pub fn origin(&self) -> (r: Point)
        ensures
            r == self.origin,
    {
        Point { x: self.origin.x, y: self.origin.y, z: self.origin.z, w: self.origin.w }
    }

    pub fn direction(&self) -> (r: Direction)
        ensures
            r == self.direction,
    {
        Direction { x: self.direction.x, y: self.direction.y, z: self.direction.z }
    }

    /// Whether the point lies on the line.
    pub fn contains_point(&self, q: &Point) -> (r: bool)
        requires
            self.origin.bounded(0x4000_0000),
            self.direction.bounded(0x4000_0000),
            q.bounded(0x4000_0000),
        ensures
            r == self.contains_point_spec(q),
    {
        proof {
            lemma_pair_products_bounded(q.x as int, q.y as int, q.z as int, q.w as int,
                self.origin.x as int, self.origin.y as int, self.origin.z as int,
                self.origin.w as int, 0x4000_0000, 0x4000_0000);
        }
        let ox = q.x * self.origin.w - self.origin.x * q.w;
        let oy = q.y * self.origin.w - self.origin.y * q.w;
        let oz = q.z * self.origin.w - self.origin.z * q.w;
        proof {
            lemma_pair_products_bounded(ox as int, oy as int, oz as int, 1,
                self.direction.x as int, self.direction.y as int, self.direction.z as int, 1,
                0x8000_0000_0000_0000, 0x4000_0000);
        }
        oy * self.direction.z == oz * self.direction.y
        && oz * self.direction.x == ox * self.direction.z
        && ox * self.direction.y == oy * self.direction.x
    }

    /// Exact equality of lines, up to parameterization.
    pub fn eqv(&self, other: &Line) -> (r: bool)
        requires
            self.origin.bounded(0x4000_0000),
            self.direction.bounded(0x4000_0000),
            other.origin.bounded(0x4000_0000),
            other.direction.bounded(0x4000_0000),
        ensures
            r == self.eqv_spec(other),
    {
        proof {
            lemma_pair_products_bounded(self.direction.x as int, self.direction.y as int,
                self.direction.z as int, 1, other.direction.x as int,
                other.direction.y as int, other.direction.z as int, 1,
                0x4000_0000, 0x4000_0000);
        }
        let dirs_parallel = self.direction.y * other.direction.z
                == self.direction.z * other.direction.y
            && self.direction.z * other.direction.x == self.direction.x * other.direction.z
            && self.direction.x * other.direction.y == self.direction.y * other.direction.x;
        dirs_parallel && self.contains_point(&other.origin)
    }
}

impl Ray {
    pub open spec fn wf(&self) -> bool {
        self.origin.wf() && self.direction.wf()
    }

    /// The ray, seen as a whole line.
    pub open spec fn line_spec(&self) -> Line {
        Line { origin: self.origin, direction: self.direction }
    }

    /// The point `q` lies on the ray: on the line, on the forward side.
    pub open spec fn contains_point_spec(&self, q: &Point) -> bool {
        let ox = q.x * self.origin.w - self.origin.x * q.w;
        let oy = q.y * self.origin.w - self.origin.y * q.w;
        let oz = q.z * self.origin.w - self.origin.z * q.w;
        self.line_spec().contains_point_spec(q)
        && ox * self.direction.x + oy * self.direction.y + oz * self.direction.z >= 0
    }

    /// Same ray: same origin point and same (oriented) direction.
    pub open spec fn eqv_spec(&self, other: &Ray) -> bool {
        self.origin.eqv_spec(&other.origin) && self.direction.eqv_spec(&other.direction)
    }

    pub fn new(origin: Point, direction: Direction) -> (r: Ray)
        requires
            origin.wf(),
            direction.wf(),
        ensures
            r.wf(),
            r.origin == origin,
            r.direction == direction,
    {
        Ray { origin, direction }
    }

    pub fn origin(&self) -> (r: Point)
        ensures
            r == self.origin,
    {
        Point { x: self.origin.x, y: self.origin.y, z: self.origin.z, w: self.origin.w }
    }

    pub fn direction(&self) -> (r: Direction)
        ensures
            r == self.direction,
    {
        Direction { x: self.direction.x, y: self.direction.y, z: self.direction.z }
    }

    /// Exact equality of rays.
    pub fn eqv(&self, other: &Ray) -> (r: bool)
        requires
            self.origin.wf() && other.origin.wf(),
            self.origin.bounded(0x4000_0000_0000_0000),
            other.origin.bounded(0x4000_0000_0000_0000),
            self.direction.bounded(0x4000_0000_0000_0000),
            other.direction.bounded(0x4000_0000_0000_0000),
        ensures
            r == self.eqv_spec(other),
    {
        self.origin.eqv(&other.origin) && self.direction.eqv(&other.direction)
    }
}

impl LineSegment {
    pub open spec fn wf(&self) -> bool {
        self.start.wf() && self.end.wf() && !self.start.eqv_spec(&self.end)
    }

    /// The segment between two distinct points; fails when they coincide
    /// (the direction would be undefined).
    pub fn new(start: Point, end: Point) -> (r: Result<LineSegment, &'static str>)
        requires
            start.wf(),
            end.wf(),
            start.bounded(0x4000_0000_0000_0000),
            end.bounded(0x4000_0000_0000_0000),
        ensures
            match r {
                Result::Ok(s) => s.wf() && s.start == start && s.end == end,
                Result::Err(_) => start.eqv_spec(&end),
            },
    {
        if start.eqv(&end) {
            return Result::Err("segment undefined: endpoints coincide");
        }
        Result::Ok(LineSegment { start, end })
    }

    pub fn start(&self) -> (r: Point)
        ensures
            r == self.start,
    {
        Point { x: self.start.x, y: self.start.y, z: self.start.z, w: self.start.w }
    }

    pub fn end(&self) -> (r: Point)
        ensures
            r == self.end,
    {
        Point { x: self.end.x, y: self.end.y, z: self.end.z, w: self.end.w }
    }

    /// The direction from `start` to `end`.
    pub fn direction(&self) -> (r: Direction)
        requires
            self.wf(),
            self.start.bounded(0x4000_0000_0000_0000),
            self.end.bounded(0x4000_0000_0000_0000),
        ensures
            r.wf(),
            r.x == self.end.x * self.start.w - self.start.x * self.end.w,
            r.y == self.end.y * self.start.w - self.start.y * self.end.w,
            r.z == self.end.z * self.start.w - self.start.z * self.end.w,
    {
        proof {
            lemma_pair_products_bounded(self.end.x as int, self.end.y as int,
                self.end.z as int, self.end.w as int, self.start.x as int,
                self.start.y as int, self.start.z as int, self.start.w as int,
                0x4000_0000_0000_0000, 0x4000_0000_0000_0000);
        }
        Direction {
            x: self.end.x * self.start.w - self.start.x * self.end.w,
            y: self.end.y * self.start.w - self.start.y * self.end.w,
            z: self.end.z * self.start.w - self.start.z * self.end.w,
        }
    }
}

/// A geometric primitive, for the generic intersection entry point.
#[derive(Clone, Copy, Debug)]
pub enum Object {
    Point(Point),
    Line(Line),
    Ray(Ray),
    Plane(Plane),
    LineSegment(LineSegment),
}

/// The result of an intersection: a point, a whole line, or a whole ray.
#[derive(Clone, Copy, Debug)]
pub enum Intersection {
    Point(Point),
    Line(Line),
    Ray(Ray),
}

/// Bounds for clearing three fractional coordinates to one denominator.
proof fn lemma_homog3(xn: int, xd: int, yn: int, yd: int, zn: int, zd: int, b: int)
    by (nonlinear_arith)
    requires
        0 <= b,
        -b <= xn <= b && 0 < xd <= b,
        -b <= yn <= b && 0 < yd <= b,
        -b <= zn <= b && 0 < zd <= b,
    ensures
        0 < xd * yd <= b * b && 0 < xd * yd * zd <= b * b * b,
        -(b * b) <= xn * yd <= b * b && -(b * b * b) <= xn * yd * zd <= b * b * b,
        -(b * b) <= yn * xd <= b * b && -(b * b * b) <= yn * xd * zd <= b * b * b,
        -(b * b) <= zn * xd <= b * b && -(b * b * b) <= zn * xd * yd <= b * b * b,
{
}

/// The cleared coordinates denote the same fractions.
proof fn lemma_homog3_denotes(xn: int, xd: int, yn: int, yd: int, zn: int, zd: int)
    by (nonlinear_arith)
    ensures
        (xn * yd * zd) * xd == xn * (xd * yd * zd),
        (yn * xd * zd) * yd == yn * (xd * yd * zd),
        (zn * xd * yd) * zd == zn * (xd * yd * zd),
{
}

/// Clearing denominators of a nonzero vector keeps it nonzero.
proof fn lemma_homog3_nonzero(xn: int, xd: int, yn: int, yd: int, zn: int, zd: int)
    by (nonlinear_arith)
    requires
        xd > 0 && yd > 0 && zd > 0,
        !(xn == 0 && yn == 0 && zn == 0),
    ensures
        !(xn * yd * zd == 0 && yn * xd * zd == 0 && zn * xd * yd == 0),
{
}

/// Each product and the 3-term dot product of two bounded triples is bounded.
pub(crate) proof fn lemma_dot3_bound(
    a0: int, a1: int, a2: int,
    b0: int, b1: int, b2: int,
    ba: int, bb: int,
)
    by (nonlinear_arith)
    requires
        0 <= ba && 0 <= bb,
        -ba <= a0 <= ba && -ba <= a1 <= ba && -ba <= a2 <= ba,
        -bb <= b0 <= bb && -bb <= b1 <= bb && -bb <= b2 <= bb,
    ensures
        -(ba * bb) <= a0 * b0 <= ba * bb,
        -(ba * bb) <= a1 * b1 <= ba * bb,
        -(ba * bb) <= a2 * b2 <= ba * bb,
        -(3 * ba * bb) <= a0 * b0 + a1 * b1 + a2 * b2 <= 3 * ba * bb,
{
}

/// Each product and each component of the cross product of two bounded
/// triples is bounded.
pub(crate) proof fn lemma_cross_bound(
    a0: int, a1: int, a2: int,
    b0: int, b1: int, b2: int,
    ba: int, bb: int,
)
    by (nonlinear_arith)
    requires
        0 <= ba && 0 <= bb,
        -ba <= a0 <= ba && -ba <= a1 <= ba && -ba <= a2 <= ba,
        -bb <= b0 <= bb && -bb <= b1 <= bb && -bb <= b2 <= bb,
    ensures
        -(ba * bb) <= a0 * b1 <= ba * bb && -(ba * bb) <= a0 * b2 <= ba * bb,
        -(ba * bb) <= a1 * b0 <= ba * bb && -(ba * bb) <= a1 * b2 <= ba * bb,
        -(ba * bb) <= a2 * b0 <= ba * bb && -(ba * bb) <= a2 * b1 <= ba * bb,
        -(2 * ba * bb) <= a1 * b2 - a2 * b1 <= 2 * ba * bb,
        -(2 * ba * bb) <= a2 * b0 - a0 * b2 <= 2 * ba * bb,
        -(2 * ba * bb) <= a0 * b1 - a1 * b0 <= 2 * ba * bb,
{
}

/// Scaling a nonzero triple by a positive factor keeps it nonzero.
proof fn lemma_scale_nonzero(x: int, y: int, z: int, s: int)
    by (nonlinear_arith)
    requires
        s > 0,
        !(x == 0 && y == 0 && z == 0),
    ensures
        !(x * s == 0 && y * s == 0 && z * s == 0),
{
}

/// A nonzero triple has a positive squared norm.
proof fn lemma_norm_sq_positive(a: int, b: int, c: int)
    by (nonlinear_arith)
    requires
        !(a == 0 && b == 0 && c == 0),
    ensures
        a * a + b * b + c * c > 0,
{
}

/// The plane built from an origin and a normal contains that origin.
/// Reassociation facts for a product of three factors.
pub(crate) proof fn lemma_mul_reassoc(a: int, b: int, s: int)
    by (nonlinear_arith)
    ensures
        (a * s) * b == (a * b) * s,
        a * (b * s) == (a * b) * s,
{
}

/// Right-distribution of a sum of three terms over a factor.
pub(crate) proof fn lemma_distribute3(p1: int, p2: int, p3: int, s: int)
    by (nonlinear_arith)
    ensures
        (p1 + p2 + p3) * s == p1 * s + p2 * s + p3 * s,
{
}

/// Distribution of a factor over sums and differences.
pub(crate) proof fn lemma_distribute2(a: int, p: int, q: int)
    by (nonlinear_arith)
    ensures
        a * (p + q) == a * p + a * q,
        (p + q) * a == p * a + q * a,
        a * (p - q) == a * p - a * q,
        (p - q) * a == p * a - q * a,
{
}

/// Swapping the outer factors of a triple product.
pub(crate) proof fn lemma_swap_outer(p: int, q: int, r: int)
    by (nonlinear_arith)
    ensures
        (p * q) * r == (r * q) * p,
{
}

/// Swapping the last two factors of a triple product.
pub(crate) proof fn lemma_swap_inner(p: int, q: int, r: int)
    by (nonlinear_arith)
    ensures
        (p * q) * r == (p * r) * q,
{
}

/// Commutativity of multiplication.
pub(crate) proof fn lemma_mul_comm(a: int, b: int)
    by (nonlinear_arith)
    ensures
        a * b == b * a,
{
}

/// Negation distributes over multiplication.
pub(crate) proof fn lemma_mul_neg(a: int, b: int)
    by (nonlinear_arith)
    ensures
        (-a) * b == -(a * b),
        a * (-b) == -(a * b),
{
}

/// Two factors scaled by the same value cross-multiply equally.
pub(crate) proof fn lemma_swap_scaled(p: int, q: int, s: int)
    by (nonlinear_arith)
    ensures
        (p * s) * q == (q * s) * p,
{
}

/// The cross product of two vectors is orthogonal to both.
proof fn lemma_cross_dot_zero(
    ax: int, ay: int, az: int,
    bx: int, by: int, bz: int,
)
    ensures
        (ay * bz - az * by) * ax + (az * bx - ax * bz) * ay + (ax * by - ay * bx) * az == 0,
        (ay * bz - az * by) * bx + (az * bx - ax * bz) * by + (ax * by - ay * bx) * bz == 0,
{
    lemma_distribute2(ax, ay * bz, az * by);
    lemma_distribute2(ay, az * bx, ax * bz);
    lemma_distribute2(az, ax * by, ay * bx);
    lemma_swap_outer(ay, bz, ax);
    lemma_swap_outer(az, by, ax);
    lemma_swap_outer(az, bx, ay);
    lemma_distribute2(bx, ay * bz, az * by);
    lemma_distribute2(by, az * bx, ax * bz);
    lemma_distribute2(bz, ax * by, ay * bx);
    lemma_swap_inner(ay, bz, bx);
    lemma_swap_inner(az, by, bx);
    lemma_swap_inner(ax, bz, by);
}

/// Scaling the normal triple of a vanishing dot product keeps it vanishing.
proof fn lemma_scaled_dot_zero(
    n1: int, n2: int, n3: int,
    b1: int, b2: int, b3: int,
    s: int,
)
    requires
        n1 * b1 + n2 * b2 + n3 * b3 == 0,
    ensures
        (n1 * s) * b1 + (n2 * s) * b2 + (n3 * s) * b3 == 0,
{
    lemma_mul_reassoc(n1, b1, s);
    lemma_mul_reassoc(n2, b2, s);
    lemma_mul_reassoc(n3, b3, s);
    lemma_distribute3(n1 * b1, n2 * b2, n3 * b3, s);
}

/// The plane built from an origin and a normal contains that origin.
proof fn lemma_from_origin_normal_contains(
    nx: int, ny: int, nz: int,
    ox: int, oy: int, oz: int, ow: int,
)
    ensures
        (nx * ow) * ox + (ny * ow) * oy + (nz * ow) * oz
            == (nx * ox + ny * oy + nz * oz) * ow,
{
    lemma_mul_reassoc(nx, ox, ow);
    lemma_mul_reassoc(ny, oy, ow);
    lemma_mul_reassoc(nz, oz, ow);
    lemma_distribute3(nx * ox, ny * oy, nz * oz, ow);
}

/// The cross product of two vectors is orthogonal to both, also after
/// scaling it by `ow`.
proof fn lemma_cross_orthogonal(
    dx: int, dy: int, dz: int,
    ux: int, uy: int, uz: int,
    ow: int,
)
    ensures
        ((dy * uz - dz * uy) * ow) * dx + ((dz * ux - dx * uz) * ow) * dy
            + ((dx * uy - dy * ux) * ow) * dz == 0,
        ((dy * uz - dz * uy) * ow) * ux + ((dz * ux - dx * uz) * ow) * uy
            + ((dx * uy - dy * ux) * ow) * uz == 0,
{
    lemma_cross_dot_zero(dx, dy, dz, ux, uy, uz);
    lemma_scaled_dot_zero(dy * uz - dz * uy, dz * ux - dx * uz, dx * uy - dy * ux,
        dx, dy, dz, ow);
    lemma_scaled_dot_zero(dy * uz - dz * uy, dz * ux - dx * uz, dx * uy - dy * ux,
        ux, uy, uz, ow);
}

/// The plane built from a line and an outside point contains that point.
///
/// With offset `u = q * ow - o * qw` and normal `n = d x u`, anchored at
/// `o`:  `n . (q * ow) = n . u + (n . o) * qw = (n . o) * qw`.
proof fn lemma_from_line_point_contains(
    dx: int, dy: int, dz: int,
    ox: int, oy: int, oz: int, ow: int,
    qx: int, qy: int, qz: int, qw: int,
)
    ensures
        ({
            let ux = qx * ow - ox * qw;
            let uy = qy * ow - oy * qw;
            let uz = qz * ow - oz * qw;
            let nx = dy * uz - dz * uy;
            let ny = dz * ux - dx * uz;
            let nz = dx * uy - dy * ux;
            (nx * ow) * qx + (ny * ow) * qy + (nz * ow) * qz
                == (nx * ox + ny * oy + nz * oz) * qw
        }),
{
    let ux = qx * ow - ox * qw;
    let uy = qy * ow - oy * qw;
    let uz = qz * ow - oz * qw;
    let nx = dy * uz - dz * uy;
    let ny = dz * ux - dx * uz;
    let nz = dx * uy - dy * ux;
    // n is orthogonal to u.
    lemma_cross_dot_zero(dx, dy, dz, ux, uy, uz);
    assert(nx * ux + ny * uy + nz * uz == 0);
    // n . (q * ow) == n . u + (n . o) * qw, componentwise.
    lemma_distribute2(nx, qx * ow, ox * qw);
    lemma_distribute2(ny, qy * ow, oy * qw);
    lemma_distribute2(nz, qz * ow, oz * qw);
    assert(nx * (qx * ow) == nx * ux + nx * (ox * qw));
    assert(ny * (qy * ow) == ny * uy + ny * (oy * qw));
    assert(nz * (qz * ow) == nz * uz + nz * (oz * qw));
    // Reassociate both sides.
    lemma_mul_reassoc(nx, qx, ow);
    lemma_mul_reassoc(ny, qy, ow);
    lemma_mul_reassoc(nz, qz, ow);
    lemma_mul_reassoc(nx, ox, qw);
    lemma_mul_reassoc(ny, oy, qw);
    lemma_mul_reassoc(nz, oz, qw);
    lemma_distribute3(nx * ox, ny * oy, nz * oz, qw);
}

/// The projection of the coordinate origin onto a plane lies on the plane.
proof fn lemma_plane_origin_contains(a: int, b: int, c: int, e: int)
    ensures
        a * (a * e) + b * (b * e) + c * (c * e) == e * (a * a + b * b + c * c),
{
    lemma_mul_reassoc(a, a, e);
    lemma_mul_reassoc(b, b, e);
    lemma_mul_reassoc(c, c, e);
    lemma_distribute3(a * a, b * b, c * c, e);
    assert((a * a + b * b + c * c) * e == e * (a * a + b * b + c * c))
        by (nonlinear_arith);
}

/// All pairwise products of two bounded quadruples fit in the bound product.
pub(crate) proof fn lemma_pair_products_bounded(
    a0: int, a1: int, a2: int, a3: int,
    b0: int, b1: int, b2: int, b3: int,
    ba: int, bb: int,
)
    by (nonlinear_arith)
    requires
        0 <= ba && 0 <= bb,
        -ba <= a0 <= ba && -ba <= a1 <= ba && -ba <= a2 <= ba && -ba <= a3 <= ba,
        -bb <= b0 <= bb && -bb <= b1 <= bb && -bb <= b2 <= bb && -bb <= b3 <= bb,
    ensures
        -(ba * bb) <= a0 * b0 <= ba * bb && -(ba * bb) <= a0 * b1 <= ba * bb,
        -(ba * bb) <= a0 * b2 <= ba * bb && -(ba * bb) <= a0 * b3 <= ba * bb,
        -(ba * bb) <= a1 * b0 <= ba * bb && -(ba * bb) <= a1 * b1 <= ba * bb,
        -(ba * bb) <= a1 * b2 <= ba * bb && -(ba * bb) <= a1 * b3 <= ba * bb,
        -(ba * bb) <= a2 * b0 <= ba * bb && -(ba * bb) <= a2 * b1 <= ba * bb,
        -(ba * bb) <= a2 * b2 <= ba * bb && -(ba * bb) <= a2 * b3 <= ba * bb,
        -(ba * bb) <= a3 * b0 <= ba * bb && -(ba * bb) <= a3 * b1 <= ba * bb,
        -(ba * bb) <= a3 * b2 <= ba * bb && -(ba * bb) <= a3 * b3 <= ba * bb,
{
}

} // verus!
