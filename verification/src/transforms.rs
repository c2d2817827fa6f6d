use vstd::prelude::*;

use crate::base::Point;
use crate::scalar::lemma_abs_mul_le;

verus! {

// Rigid transforms: a rotation and a translation.
//
// A rotation is an integer quaternion, meaningful up to a nonzero factor:
// the sandwich product q v q* divides by the squared norm, which the
// homogeneous representation absorbs, so every rational rotation is exact
// here with no unit-norm constraint.

/// The mathematical value of a rotation: an integer quaternion.
pub ghost struct QuatModel {
    pub w: int,
    pub x: int,
    pub y: int,
    pub z: int,
}

/// Quaternion product.
pub open spec fn q_mul(a: QuatModel, b: QuatModel) -> QuatModel {
    QuatModel {
        w: a.w * b.w - a.x * b.x - a.y * b.y - a.z * b.z,
        x: a.w * b.x + a.x * b.w + a.y * b.z - a.z * b.y,
        y: a.w * b.y - a.x * b.z + a.y * b.w + a.z * b.x,
        z: a.w * b.z + a.x * b.y - a.y * b.x + a.z * b.w,
    }
}

/// Quaternion conjugate.
pub open spec fn q_conj(a: QuatModel) -> QuatModel {
    QuatModel { w: a.w, x: -a.x, y: -a.y, z: -a.z }
}

/// Squared quaternion norm.
pub open spec fn q_norm2(a: QuatModel) -> int {
    a.w * a.w + a.x * a.x + a.y * a.y + a.z * a.z
}

/// The vector part of `q (0, v) q*`: the rotation of `v` scaled by the
/// squared norm of `q`.
pub open spec fn rot_tuple(q: QuatModel, v: (int, int, int)) -> (int, int, int) {
    let t = q_mul(q, QuatModel { w: 0, x: v.0, y: v.1, z: v.2 });
    let u = q_mul(t, q_conj(q));
    (u.x, u.y, u.z)
}

/// A rigid transform applied to a homogeneous point (x, y, z, w):
/// rotate, then translate.
pub open spec fn apply_model(
    q: QuatModel, tv: (int, int, int, int), p: (int, int, int, int),
) -> (int, int, int, int) {
    let r = rot_tuple(q, (p.0, p.1, p.2));
    let n = q_norm2(q);
    (
        r.0 * tv.3 + n * p.3 * tv.0,
        r.1 * tv.3 + n * p.3 * tv.1,
        r.2 * tv.3 + n * p.3 * tv.2,
        n * p.3 * tv.3,
    )
}

/// The inverse transform: the conjugate rotation, and the negated
/// translation carried through it.
pub open spec fn inverse_model(q: QuatModel, tv: (int, int, int, int))
    -> (QuatModel, (int, int, int, int)) {
    let r = rot_tuple(q_conj(q), (-tv.0, -tv.1, -tv.2));
    (q_conj(q), (r.0, r.1, r.2, q_norm2(q) * tv.3))
}

/// A rotation: a nonzero integer quaternion, up to scale.
#[derive(Clone, Copy, Debug)]
pub struct Rotation {
    pub w: i128,
    pub x: i128,
    pub y: i128,
    pub z: i128,
}

/// A displacement in homogeneous integer coordinates.
#[derive(Clone, Copy, Debug)]
pub struct Vector {
    pub x: i128,
    pub y: i128,
    pub z: i128,
    pub w: i128,
}

/// A rigid transform: rotate by `rotation`, then move by `translation`.
#[derive(Clone, Copy, Debug)]
pub struct Transform {
    pub rotation: Rotation,
    pub translation: Vector,
}

/// A camera or object pose: its rotation and its position.
#[derive(Clone, Copy, Debug)]
pub struct Pose {
    pub rotation: Rotation,
    pub origin: Point,
}

impl Rotation {
    pub open spec fn wf(&self) -> bool {
        !(self.w == 0 && self.x == 0 && self.y == 0 && self.z == 0)
    }

    pub open spec fn bounded(&self, b: int) -> bool {
        -b <= self.w <= b && -b <= self.x <= b && -b <= self.y <= b && -b <= self.z <= b
    }

    pub open spec fn model(&self) -> QuatModel {
        QuatModel { w: self.w as int, x: self.x as int, y: self.y as int, z: self.z as int }
    }

    /// The rotation with quaternion components (w, x, y, z); fails on the
    /// zero quaternion.
    pub fn new(w: i64, x: i64, y: i64, z: i64) -> (r: Result<Rotation, &'static str>)
        ensures
            match r {
                Result::Ok(q) => q.wf() && q.w == w && q.x == x && q.y == y && q.z == z,
                Result::Err(_) => w == 0 && x == 0 && y == 0 && z == 0,
            },
    {
        if w == 0 && x == 0 && y == 0 && z == 0 {
            return Result::Err("rotation undefined: zero quaternion");
        }
        Result::Ok(Rotation { w: w as i128, x: x as i128, y: y as i128, z: z as i128 })
    }

    /// The identity rotation.
    pub fn identity() -> (r: Rotation)
        ensures
            r.wf(),
            r.w == 1 && r.x == 0 && r.y == 0 && r.z == 0,
    {
        Rotation { w: 1, x: 0, y: 0, z: 0 }
    }

    /// The inverse rotation: the conjugate quaternion.
    pub fn conjugate(&self) -> (r: Rotation)
        requires
            self.wf(),
            self.bounded(0x10_0000),
        ensures
            r.wf(),
            r.model() == q_conj(self.model()),
    {
        Rotation { w: self.w, x: -self.x, y: -self.y, z: -self.z }
    }
}

impl Vector {
    pub open spec fn wf(&self) -> bool {
        self.w > 0
    }

    pub open spec fn bounded(&self, b: int) -> bool {
        -b <= self.x <= b && -b <= self.y <= b && -b <= self.z <= b && 0 < self.w <= b
    }

    pub open spec fn model(&self) -> (int, int, int, int) {
        (self.x as int, self.y as int, self.z as int, self.w as int)
    }

    /// Same displacement: cross-multiplied coordinate equality.
    pub open spec fn eqv_spec(&self, other: &Vector) -> bool {
        self.x * other.w == other.x * self.w
        && self.y * other.w == other.y * self.w
        && self.z * other.w == other.z * self.w
    }

    /// Exact equality of the denoted displacements.
    pub fn eqv(&self, other: &Vector) -> (r: bool)
        requires
            self.wf() && other.wf(),
            self.bounded(0x4000_0000_0000_0000),
            other.bounded(0x4000_0000_0000_0000),
        ensures
            r == self.eqv_spec(other),
    {
        proof {
            crate::base::lemma_pair_products_bounded(
                self.x as int, self.y as int, self.z as int, self.w as int,
                other.x as int, other.y as int, other.z as int, other.w as int,
                0x4000_0000_0000_0000, 0x4000_0000_0000_0000);
        }
        self.x * other.w == other.x * self.w
        && self.y * other.w == other.y * self.w
        && self.z * other.w == other.z * self.w
    }

    /// The zero displacement.
    pub fn zero() -> (r: Vector)
        ensures
            r.wf(),
            r.x == 0 && r.y == 0 && r.z == 0 && r.w == 1,
    {
        Vector { x: 0, y: 0, z: 0, w: 1 }
    }

    /// An integer displacement.
    pub fn from_ints(x: i64, y: i64, z: i64) -> (r: Vector)
        ensures
            r.wf(),
            r.x == x && r.y == y && r.z == z && r.w == 1,
    {
        Vector { x: x as i128, y: y as i128, z: z as i128, w: 1 }
    }
}

impl Transform {
    pub open spec fn wf(&self) -> bool {
        self.rotation.wf() && self.translation.wf()
    }

    pub open spec fn bounded(&self, b: int) -> bool {
        self.rotation.bounded(b) && self.translation.bounded(b)
    }

    pub fn new(rotation: Rotation, translation: Vector) -> (r: Transform)
        requires
            rotation.wf(),
            translation.wf(),
        ensures
            r.wf(),
            r.rotation == rotation,
            r.translation == translation,
    {
        Transform { rotation, translation }
    }

    /// The identity transform.
    pub fn identity() -> (r: Transform)
        ensures
            r.wf(),
            r.rotation.model() == (Rotation { w: 1, x: 0, y: 0, z: 0 }).model(),
            r.translation.x == 0 && r.translation.y == 0 && r.translation.z == 0,
            r.translation.w == 1,
    {
        Transform { rotation: Rotation::identity(), translation: Vector::zero() }
    }

    /// The inverse transform.
    pub fn inverse(&self) -> (r: Transform)
        requires
            self.wf(),
            self.bounded(0x10_0000),
        ensures
            r.wf(),
            (r.rotation.model(), r.translation.model())
                == inverse_model(self.rotation.model(), self.translation.model()),
    {
        proof {
            lemma_rot_bounds(self.rotation.w as int, self.rotation.x as int,
                self.rotation.y as int, self.rotation.z as int,
                -(self.translation.x as int), -(self.translation.y as int),
                -(self.translation.z as int), 0x10_0000, 0x10_0000);
            lemma_norm2_pos(self.rotation.w as int, self.rotation.x as int,
                self.rotation.y as int, self.rotation.z as int, 0x10_0000);
            lemma_abs_mul_le(self.rotation.w as int, self.rotation.w as int, 0x10_0000, 0x10_0000);
            lemma_abs_mul_le(self.rotation.x as int, self.rotation.x as int, 0x10_0000, 0x10_0000);
            lemma_abs_mul_le(self.rotation.y as int, self.rotation.y as int, 0x10_0000, 0x10_0000);
            lemma_abs_mul_le(self.rotation.z as int, self.rotation.z as int, 0x10_0000, 0x10_0000);
            lemma_abs_mul_le(q_norm2(self.rotation.model()),
                self.translation.w as int, 0x4_0000_0000_0000, 0x10_0000);
        }
        let q = self.rotation.conjugate();
        let (rx, ry, rz) = rotate_coords(&q, -self.translation.x, -self.translation.y,
            -self.translation.z);
        let n = self.rotation.w * self.rotation.w + self.rotation.x * self.rotation.x
            + self.rotation.y * self.rotation.y + self.rotation.z * self.rotation.z;
        proof {
            assert((n as int) * self.translation.w > 0) by (nonlinear_arith)
                requires n > 0 && self.translation.w > 0;
        }
        Transform {
            rotation: q,
            translation: Vector { x: rx, y: ry, z: rz, w: n * self.translation.w },
        }
    }

    /// Apply the transform to a point: rotate, then translate.
    pub fn apply_point(&self, p: &Point) -> (r: Point)
        requires
            self.wf(),
            p.wf(),
            self.rotation.bounded(0x10_0000),
            self.translation.bounded(0x1000_0000),
            p.bounded(0x10_0000),
        ensures
            r.wf(),
            (r.x as int, r.y as int, r.z as int, r.w as int)
                == apply_model(self.rotation.model(), self.translation.model(),
                    (p.x as int, p.y as int, p.z as int, p.w as int)),
    {
        apply_to_coords(self, p.x, p.y, p.z, p.w)
    }

    /// Undo the transform on a point.
    pub fn unapply_point(&self, p: &Point) -> (r: Point)
        requires
            self.wf(),
            p.wf(),
            self.bounded(0x100),
            p.bounded(0x10_0000),
        ensures
            r.wf(),
            ({
                let inv = inverse_model(self.rotation.model(), self.translation.model());
                (r.x as int, r.y as int, r.z as int, r.w as int)
                    == apply_model(inv.0, inv.1, (p.x as int, p.y as int, p.z as int,
                        p.w as int))
            }),
    {
        proof {
            lemma_inverse_small(self.rotation.w as int, self.rotation.x as int,
                self.rotation.y as int, self.rotation.z as int,
                self.translation.x as int, self.translation.y as int,
                self.translation.z as int, self.translation.w as int);
        }
        let inv = self.inverse();
        inv.apply_point(p)
    }

    /// Compose: this transform applied after `inner` (rotate by both,
    /// with this transform's motion last).
    pub fn compose(&self, inner: &Transform) -> (r: Transform)
        requires
            self.wf(),
            inner.wf(),
            self.bounded(0x10_0000),
            inner.bounded(0x10_0000),
        ensures
            r.rotation.model() == q_mul(self.rotation.model(), inner.rotation.model()),
            (r.translation.x as int, r.translation.y as int, r.translation.z as int,
                r.translation.w as int)
                == apply_model(self.rotation.model(), self.translation.model(),
                    inner.translation.model()),
            r.translation.wf(),
    {
        proof {
            lemma_qmul_bounds(self.rotation.w as int, self.rotation.x as int,
                self.rotation.y as int, self.rotation.z as int,
                inner.rotation.w as int, inner.rotation.x as int,
                inner.rotation.y as int, inner.rotation.z as int, 0x10_0000, 0x10_0000);
        }
        let a = &self.rotation;
        let b = &inner.rotation;
        let q = Rotation {
            w: a.w * b.w - a.x * b.x - a.y * b.y - a.z * b.z,
            x: a.w * b.x + a.x * b.w + a.y * b.z - a.z * b.y,
            y: a.w * b.y - a.x * b.z + a.y * b.w + a.z * b.x,
            z: a.w * b.z + a.x * b.y - a.y * b.x + a.z * b.w,
        };
        let moved = apply_to_coords(self, inner.translation.x, inner.translation.y,
            inner.translation.z, inner.translation.w);
        Transform {
            rotation: q,
            translation: Vector { x: moved.x, y: moved.y, z: moved.z, w: moved.w },
        }
    }
}

impl Pose {
    pub open spec fn wf(&self) -> bool {
        self.rotation.wf() && self.origin.wf()
    }

    pub fn new(rotation: Rotation, origin: Point) -> (r: Pose)
        requires
            rotation.wf(),
            origin.wf(),
        ensures
            r.wf(),
            r.rotation == rotation,
            r.origin == origin,
    {
        Pose { rotation, origin }
    }

    /// The pose at the coordinate origin with no rotation.
    pub fn identity() -> (r: Pose)
        ensures
            r.wf(),
            r.rotation.w == 1 && r.rotation.x == 0 && r.rotation.y == 0
                && r.rotation.z == 0,
            r.origin.x == 0 && r.origin.y == 0 && r.origin.z == 0 && r.origin.w == 1,
    {
        Pose { rotation: Rotation::identity(), origin: Point::origin() }
    }

    /// Carry a point into this pose's frame.
    pub fn transform_into(&self, point: &Point) -> (r: Point)
        requires
            self.wf(),
            point.wf(),
            self.rotation.bounded(0x10_0000),
            self.origin.bounded(0x10_0000),
            point.bounded(0x10_0000),
        ensures
            r.wf(),
            (r.x as int, r.y as int, r.z as int, r.w as int)
                == apply_model(self.rotation.model(),
                    (self.origin.x as int, self.origin.y as int, self.origin.z as int,
                        self.origin.w as int),
                    (point.x as int, point.y as int, point.z as int, point.w as int)),
    {
        let t = Transform {
            rotation: self.rotation,
            translation: Vector { x: self.origin.x, y: self.origin.y, z: self.origin.z,
                w: self.origin.w },
        };
        t.apply_point(point)
    }

    /// Move the pose by a transform: the rotation composes, the origin
    /// moves.
    pub fn transform(&self, t: &Transform) -> (r: Pose)
        requires
            self.wf(),
            t.wf(),
            self.rotation.bounded(0x10_0000),
            self.origin.bounded(0x10_0000),
            t.bounded(0x10_0000),
        ensures
            r.rotation.model() == q_mul(t.rotation.model(), self.rotation.model()),
            (r.origin.x as int, r.origin.y as int, r.origin.z as int, r.origin.w as int)
                == apply_model(t.rotation.model(), t.translation.model(),
                    (self.origin.x as int, self.origin.y as int, self.origin.z as int,
                        self.origin.w as int)),
            r.origin.wf(),
    {
        proof {
            lemma_qmul_bounds(t.rotation.w as int, t.rotation.x as int,
                t.rotation.y as int, t.rotation.z as int,
                self.rotation.w as int, self.rotation.x as int,
                self.rotation.y as int, self.rotation.z as int, 0x10_0000, 0x10_0000);
        }
        let a = &t.rotation;
        let b = &self.rotation;
        let q = Rotation {
            w: a.w * b.w - a.x * b.x - a.y * b.y - a.z * b.z,
            x: a.w * b.x + a.x * b.w + a.y * b.z - a.z * b.y,
            y: a.w * b.y - a.x * b.z + a.y * b.w + a.z * b.x,
            z: a.w * b.z + a.x * b.y - a.y * b.x + a.z * b.w,
        };
        let moved = t.apply_point(&self.origin);
        Pose { rotation: q, origin: moved }
    }
}

/// One component of quaternion associativity.
proof fn lemma_qmul_assoc_w(aw: int, ax: int, ay: int, az: int, bw: int, bx: int, by: int, bz: int, cw: int, cx: int, cy: int, cz: int)
    ensures
        ((((((((aw * bw) - (ax * bx)) - (ay * by)) - (az * bz)) * cw) - (((((aw * bx) + (ax * bw)) + (ay * bz)) - (az * by)) * cx)) - (((((aw * by) - (ax * bz)) + (ay * bw)) + (az * bx)) * cy)) - (((((aw * bz) + (ax * by)) - (ay * bx)) + (az * bw)) * cz))
            == ((((aw * ((((bw * cw) - (bx * cx)) - (by * cy)) - (bz * cz))) - (ax * ((((bw * cx) + (bx * cw)) + (by * cz)) - (bz * cy)))) - (ay * ((((bw * cy) - (bx * cz)) + (by * cw)) + (bz * cx)))) - (az * ((((bw * cz) + (bx * cy)) - (by * cx)) + (bz * cw)))),
{
    crate::base::lemma_mul_neg(aw, bw);
    crate::base::lemma_mul_neg((-aw), bw);
    crate::base::lemma_mul_neg(ax, bx);
    crate::base::lemma_mul_neg((-ax), bx);
    crate::base::lemma_mul_neg(ay, by);
    crate::base::lemma_mul_neg((-ay), by);
    crate::base::lemma_mul_neg(az, bz);
    crate::base::lemma_mul_neg((-az), bz);
    crate::base::lemma_distribute2(cw, (((aw * bw) - (ax * bx)) - (ay * by)), (az * bz));
    crate::base::lemma_distribute2(cw, ((aw * bw) - (ax * bx)), (ay * by));
    crate::base::lemma_distribute2(cw, (aw * bw), (ax * bx));
    crate::base::lemma_mul_neg((aw * bw), cw);
    crate::base::lemma_mul_neg((-(aw * bw)), cw);
    crate::base::lemma_mul_neg((ax * bx), cw);
    crate::base::lemma_mul_neg((-(ax * bx)), cw);
    crate::base::lemma_mul_neg((ay * by), cw);
    crate::base::lemma_mul_neg((-(ay * by)), cw);
    crate::base::lemma_mul_neg((az * bz), cw);
    crate::base::lemma_mul_neg((-(az * bz)), cw);
    crate::base::lemma_mul_neg(aw, bx);
    crate::base::lemma_mul_neg((-aw), bx);
    crate::base::lemma_mul_neg(ax, bw);
    crate::base::lemma_mul_neg((-ax), bw);
    crate::base::lemma_mul_neg(ay, bz);
    crate::base::lemma_mul_neg((-ay), bz);
    crate::base::lemma_mul_neg(az, by);
    crate::base::lemma_mul_neg((-az), by);
    crate::base::lemma_distribute2(cx, (((aw * bx) + (ax * bw)) + (ay * bz)), (az * by));
    crate::base::lemma_distribute2(cx, ((aw * bx) + (ax * bw)), (ay * bz));
    crate::base::lemma_distribute2(cx, (aw * bx), (ax * bw));
    crate::base::lemma_mul_neg((aw * bx), cx);
    crate::base::lemma_mul_neg((-(aw * bx)), cx);
    crate::base::lemma_mul_neg((ax * bw), cx);
    crate::base::lemma_mul_neg((-(ax * bw)), cx);
    crate::base::lemma_mul_neg((ay * bz), cx);
    crate::base::lemma_mul_neg((-(ay * bz)), cx);
    crate::base::lemma_mul_neg((az * by), cx);
    crate::base::lemma_mul_neg((-(az * by)), cx);
    crate::base::lemma_mul_neg(aw, by);
    crate::base::lemma_mul_neg((-aw), by);
    crate::base::lemma_mul_neg(ax, bz);
    crate::base::lemma_mul_neg((-ax), bz);
    crate::base::lemma_mul_neg(ay, bw);
    crate::base::lemma_mul_neg((-ay), bw);
    crate::base::lemma_mul_neg(az, bx);
    crate::base::lemma_mul_neg((-az), bx);
    crate::base::lemma_distribute2(cy, (((aw * by) - (ax * bz)) + (ay * bw)), (az * bx));
    crate::base::lemma_distribute2(cy, ((aw * by) - (ax * bz)), (ay * bw));
    crate::base::lemma_distribute2(cy, (aw * by), (ax * bz));
    crate::base::lemma_mul_neg((aw * by), cy);
    crate::base::lemma_mul_neg((-(aw * by)), cy);
    crate::base::lemma_mul_neg((ax * bz), cy);
    crate::base::lemma_mul_neg((-(ax * bz)), cy);
    crate::base::lemma_mul_neg((ay * bw), cy);
    crate::base::lemma_mul_neg((-(ay * bw)), cy);
    crate::base::lemma_mul_neg((az * bx), cy);
    crate::base::lemma_mul_neg((-(az * bx)), cy);
    crate::base::lemma_mul_neg(aw, bz);
    crate::base::lemma_mul_neg((-aw), bz);
    crate::base::lemma_mul_neg(ax, by);
    crate::base::lemma_mul_neg((-ax), by);
    crate::base::lemma_mul_neg(ay, bx);
    crate::base::lemma_mul_neg((-ay), bx);
    crate::base::lemma_mul_neg(az, bw);
    crate::base::lemma_mul_neg((-az), bw);
    crate::base::lemma_distribute2(cz, (((aw * bz) + (ax * by)) - (ay * bx)), (az * bw));
    crate::base::lemma_distribute2(cz, ((aw * bz) + (ax * by)), (ay * bx));
    crate::base::lemma_distribute2(cz, (aw * bz), (ax * by));
    crate::base::lemma_mul_neg((aw * bz), cz);
    crate::base::lemma_mul_neg((-(aw * bz)), cz);
    crate::base::lemma_mul_neg((ax * by), cz);
    crate::base::lemma_mul_neg((-(ax * by)), cz);
    crate::base::lemma_mul_neg((ay * bx), cz);
    crate::base::lemma_mul_neg((-(ay * bx)), cz);
    crate::base::lemma_mul_neg((az * bw), cz);
    crate::base::lemma_mul_neg((-(az * bw)), cz);
    crate::base::lemma_mul_neg(bw, cw);
    crate::base::lemma_mul_neg((-bw), cw);
    crate::base::lemma_mul_neg(bx, cx);
    crate::base::lemma_mul_neg((-bx), cx);
    crate::base::lemma_mul_neg(by, cy);
    crate::base::lemma_mul_neg((-by), cy);
    crate::base::lemma_mul_neg(bz, cz);
    crate::base::lemma_mul_neg((-bz), cz);
    crate::base::lemma_distribute2(aw, (((bw * cw) - (bx * cx)) - (by * cy)), (bz * cz));
    crate::base::lemma_distribute2(aw, ((bw * cw) - (bx * cx)), (by * cy));
    crate::base::lemma_distribute2(aw, (bw * cw), (bx * cx));
    crate::base::lemma_mul_neg(aw, (bw * cw));
    crate::base::lemma_mul_neg((-aw), (bw * cw));
    crate::base::lemma_mul_neg(aw, (bx * cx));
    crate::base::lemma_mul_neg((-aw), (bx * cx));
    crate::base::lemma_mul_neg(aw, (by * cy));
    crate::base::lemma_mul_neg((-aw), (by * cy));
    crate::base::lemma_mul_neg(aw, (bz * cz));
    crate::base::lemma_mul_neg((-aw), (bz * cz));
    crate::base::lemma_mul_neg(bw, cx);
    crate::base::lemma_mul_neg((-bw), cx);
    crate::base::lemma_mul_neg(bx, cw);
    crate::base::lemma_mul_neg((-bx), cw);
    crate::base::lemma_mul_neg(by, cz);
    crate::base::lemma_mul_neg((-by), cz);
    crate::base::lemma_mul_neg(bz, cy);
    crate::base::lemma_mul_neg((-bz), cy);
    crate::base::lemma_distribute2(ax, (((bw * cx) + (bx * cw)) + (by * cz)), (bz * cy));
    crate::base::lemma_distribute2(ax, ((bw * cx) + (bx * cw)), (by * cz));
    crate::base::lemma_distribute2(ax, (bw * cx), (bx * cw));
    crate::base::lemma_mul_neg(ax, (bw * cx));
    crate::base::lemma_mul_neg((-ax), (bw * cx));
    crate::base::lemma_mul_neg(ax, (bx * cw));
    crate::base::lemma_mul_neg((-ax), (bx * cw));
    crate::base::lemma_mul_neg(ax, (by * cz));
    crate::base::lemma_mul_neg((-ax), (by * cz));
    crate::base::lemma_mul_neg(ax, (bz * cy));
    crate::base::lemma_mul_neg((-ax), (bz * cy));
    crate::base::lemma_mul_neg(bw, cy);
    crate::base::lemma_mul_neg((-bw), cy);
    crate::base::lemma_mul_neg(bx, cz);
    crate::base::lemma_mul_neg((-bx), cz);
    crate::base::lemma_mul_neg(by, cw);
    crate::base::lemma_mul_neg((-by), cw);
    crate::base::lemma_mul_neg(bz, cx);
    crate::base::lemma_mul_neg((-bz), cx);
    crate::base::lemma_distribute2(ay, (((bw * cy) - (bx * cz)) + (by * cw)), (bz * cx));
    crate::base::lemma_distribute2(ay, ((bw * cy) - (bx * cz)), (by * cw));
    crate::base::lemma_distribute2(ay, (bw * cy), (bx * cz));
    crate::base::lemma_mul_neg(ay, (bw * cy));
    crate::base::lemma_mul_neg((-ay), (bw * cy));
    crate::base::lemma_mul_neg(ay, (bx * cz));
    crate::base::lemma_mul_neg((-ay), (bx * cz));
    crate::base::lemma_mul_neg(ay, (by * cw));
    crate::base::lemma_mul_neg((-ay), (by * cw));
    crate::base::lemma_mul_neg(ay, (bz * cx));
    crate::base::lemma_mul_neg((-ay), (bz * cx));
    crate::base::lemma_mul_neg(bw, cz);
    crate::base::lemma_mul_neg((-bw), cz);
    crate::base::lemma_mul_neg(bx, cy);
    crate::base::lemma_mul_neg((-bx), cy);
    crate::base::lemma_mul_neg(by, cx);
    crate::base::lemma_mul_neg((-by), cx);
    crate::base::lemma_mul_neg(bz, cw);
    crate::base::lemma_mul_neg((-bz), cw);
    crate::base::lemma_distribute2(az, (((bw * cz) + (bx * cy)) - (by * cx)), (bz * cw));
    crate::base::lemma_distribute2(az, ((bw * cz) + (bx * cy)), (by * cx));
    crate::base::lemma_distribute2(az, (bw * cz), (bx * cy));
    crate::base::lemma_mul_neg(az, (bw * cz));
    crate::base::lemma_mul_neg((-az), (bw * cz));
    crate::base::lemma_mul_neg(az, (bx * cy));
    crate::base::lemma_mul_neg((-az), (bx * cy));
    crate::base::lemma_mul_neg(az, (by * cx));
    crate::base::lemma_mul_neg((-az), (by * cx));
    crate::base::lemma_mul_neg(az, (bz * cw));
    crate::base::lemma_mul_neg((-az), (bz * cw));
    crate::base::lemma_mul_reassoc(aw, bw, cw);
    crate::base::lemma_mul_reassoc(aw, bx, cx);
    crate::base::lemma_mul_reassoc(aw, by, cy);
    crate::base::lemma_mul_reassoc(aw, bz, cz);
    crate::base::lemma_mul_reassoc(ax, bw, cx);
    crate::base::lemma_mul_reassoc(ax, bx, cw);
    crate::base::lemma_mul_reassoc(ax, by, cz);
    crate::base::lemma_mul_reassoc(ax, bz, cy);
    crate::base::lemma_mul_reassoc(ay, bw, cy);
    crate::base::lemma_mul_reassoc(ay, bx, cz);
    crate::base::lemma_mul_reassoc(ay, by, cw);
    crate::base::lemma_mul_reassoc(ay, bz, cx);
    crate::base::lemma_mul_reassoc(az, bw, cz);
    crate::base::lemma_mul_reassoc(az, bx, cy);
    crate::base::lemma_mul_reassoc(az, by, cx);
    crate::base::lemma_mul_reassoc(az, bz, cw);
}

/// One component of quaternion associativity.
proof fn lemma_qmul_assoc_x(aw: int, ax: int, ay: int, az: int, bw: int, bx: int, by: int, bz: int, cw: int, cx: int, cy: int, cz: int)
    ensures
        ((((((((aw * bw) - (ax * bx)) - (ay * by)) - (az * bz)) * cx) + (((((aw * bx) + (ax * bw)) + (ay * bz)) - (az * by)) * cw)) + (((((aw * by) - (ax * bz)) + (ay * bw)) + (az * bx)) * cz)) - (((((aw * bz) + (ax * by)) - (ay * bx)) + (az * bw)) * cy))
            == ((((aw * ((((bw * cx) + (bx * cw)) + (by * cz)) - (bz * cy))) + (ax * ((((bw * cw) - (bx * cx)) - (by * cy)) - (bz * cz)))) + (ay * ((((bw * cz) + (bx * cy)) - (by * cx)) + (bz * cw)))) - (az * ((((bw * cy) - (bx * cz)) + (by * cw)) + (bz * cx)))),
{
    crate::base::lemma_mul_neg(aw, bw);
    crate::base::lemma_mul_neg((-aw), bw);
    crate::base::lemma_mul_neg(ax, bx);
    crate::base::lemma_mul_neg((-ax), bx);
    crate::base::lemma_mul_neg(ay, by);
    crate::base::lemma_mul_neg((-ay), by);
    crate::base::lemma_mul_neg(az, bz);
    crate::base::lemma_mul_neg((-az), bz);
    crate::base::lemma_distribute2(cx, (((aw * bw) - (ax * bx)) - (ay * by)), (az * bz));
    crate::base::lemma_distribute2(cx, ((aw * bw) - (ax * bx)), (ay * by));
    crate::base::lemma_distribute2(cx, (aw * bw), (ax * bx));
    crate::base::lemma_mul_neg((aw * bw), cx);
    crate::base::lemma_mul_neg((-(aw * bw)), cx);
    crate::base::lemma_mul_neg((ax * bx), cx);
    crate::base::lemma_mul_neg((-(ax * bx)), cx);
    crate::base::lemma_mul_neg((ay * by), cx);
    crate::base::lemma_mul_neg((-(ay * by)), cx);
    crate::base::lemma_mul_neg((az * bz), cx);
    crate::base::lemma_mul_neg((-(az * bz)), cx);
    crate::base::lemma_mul_neg(aw, bx);
    crate::base::lemma_mul_neg((-aw), bx);
    crate::base::lemma_mul_neg(ax, bw);
    crate::base::lemma_mul_neg((-ax), bw);
    crate::base::lemma_mul_neg(ay, bz);
    crate::base::lemma_mul_neg((-ay), bz);
    crate::base::lemma_mul_neg(az, by);
    crate::base::lemma_mul_neg((-az), by);
    crate::base::lemma_distribute2(cw, (((aw * bx) + (ax * bw)) + (ay * bz)), (az * by));
    crate::base::lemma_distribute2(cw, ((aw * bx) + (ax * bw)), (ay * bz));
    crate::base::lemma_distribute2(cw, (aw * bx), (ax * bw));
    crate::base::lemma_mul_neg((aw * bx), cw);
    crate::base::lemma_mul_neg((-(aw * bx)), cw);
    crate::base::lemma_mul_neg((ax * bw), cw);
    crate::base::lemma_mul_neg((-(ax * bw)), cw);
    crate::base::lemma_mul_neg((ay * bz), cw);
    crate::base::lemma_mul_neg((-(ay * bz)), cw);
    crate::base::lemma_mul_neg((az * by), cw);
    crate::base::lemma_mul_neg((-(az * by)), cw);
    crate::base::lemma_mul_neg(aw, by);
    crate::base::lemma_mul_neg((-aw), by);
    crate::base::lemma_mul_neg(ax, bz);
    crate::base::lemma_mul_neg((-ax), bz);
    crate::base::lemma_mul_neg(ay, bw);
    crate::base::lemma_mul_neg((-ay), bw);
    crate::base::lemma_mul_neg(az, bx);
    crate::base::lemma_mul_neg((-az), bx);
    crate::base::lemma_distribute2(cz, (((aw * by) - (ax * bz)) + (ay * bw)), (az * bx));
    crate::base::lemma_distribute2(cz, ((aw * by) - (ax * bz)), (ay * bw));
    crate::base::lemma_distribute2(cz, (aw * by), (ax * bz));
    crate::base::lemma_mul_neg((aw * by), cz);
    crate::base::lemma_mul_neg((-(aw * by)), cz);
    crate::base::lemma_mul_neg((ax * bz), cz);
    crate::base::lemma_mul_neg((-(ax * bz)), cz);
    crate::base::lemma_mul_neg((ay * bw), cz);
    crate::base::lemma_mul_neg((-(ay * bw)), cz);
    crate::base::lemma_mul_neg((az * bx), cz);
    crate::base::lemma_mul_neg((-(az * bx)), cz);
    crate::base::lemma_mul_neg(aw, bz);
    crate::base::lemma_mul_neg((-aw), bz);
    crate::base::lemma_mul_neg(ax, by);
    crate::base::lemma_mul_neg((-ax), by);
    crate::base::lemma_mul_neg(ay, bx);
    crate::base::lemma_mul_neg((-ay), bx);
    crate::base::lemma_mul_neg(az, bw);
    crate::base::lemma_mul_neg((-az), bw);
    crate::base::lemma_distribute2(cy, (((aw * bz) + (ax * by)) - (ay * bx)), (az * bw));
    crate::base::lemma_distribute2(cy, ((aw * bz) + (ax * by)), (ay * bx));
    crate::base::lemma_distribute2(cy, (aw * bz), (ax * by));
    crate::base::lemma_mul_neg((aw * bz), cy);
    crate::base::lemma_mul_neg((-(aw * bz)), cy);
    crate::base::lemma_mul_neg((ax * by), cy);
    crate::base::lemma_mul_neg((-(ax * by)), cy);
    crate::base::lemma_mul_neg((ay * bx), cy);
    crate::base::lemma_mul_neg((-(ay * bx)), cy);
    crate::base::lemma_mul_neg((az * bw), cy);
    crate::base::lemma_mul_neg((-(az * bw)), cy);
    crate::base::lemma_mul_neg(bw, cx);
    crate::base::lemma_mul_neg((-bw), cx);
    crate::base::lemma_mul_neg(bx, cw);
    crate::base::lemma_mul_neg((-bx), cw);
    crate::base::lemma_mul_neg(by, cz);
    crate::base::lemma_mul_neg((-by), cz);
    crate::base::lemma_mul_neg(bz, cy);
    crate::base::lemma_mul_neg((-bz), cy);
    crate::base::lemma_distribute2(aw, (((bw * cx) + (bx * cw)) + (by * cz)), (bz * cy));
    crate::base::lemma_distribute2(aw, ((bw * cx) + (bx * cw)), (by * cz));
    crate::base::lemma_distribute2(aw, (bw * cx), (bx * cw));
    crate::base::lemma_mul_neg(aw, (bw * cx));
    crate::base::lemma_mul_neg((-aw), (bw * cx));
    crate::base::lemma_mul_neg(aw, (bx * cw));
    crate::base::lemma_mul_neg((-aw), (bx * cw));
    crate::base::lemma_mul_neg(aw, (by * cz));
    crate::base::lemma_mul_neg((-aw), (by * cz));
    crate::base::lemma_mul_neg(aw, (bz * cy));
    crate::base::lemma_mul_neg((-aw), (bz * cy));
    crate::base::lemma_mul_neg(bw, cw);
    crate::base::lemma_mul_neg((-bw), cw);
    crate::base::lemma_mul_neg(bx, cx);
    crate::base::lemma_mul_neg((-bx), cx);
    crate::base::lemma_mul_neg(by, cy);
    crate::base::lemma_mul_neg((-by), cy);
    crate::base::lemma_mul_neg(bz, cz);
    crate::base::lemma_mul_neg((-bz), cz);
    crate::base::lemma_distribute2(ax, (((bw * cw) - (bx * cx)) - (by * cy)), (bz * cz));
    crate::base::lemma_distribute2(ax, ((bw * cw) - (bx * cx)), (by * cy));
    crate::base::lemma_distribute2(ax, (bw * cw), (bx * cx));
    crate::base::lemma_mul_neg(ax, (bw * cw));
    crate::base::lemma_mul_neg((-ax), (bw * cw));
    crate::base::lemma_mul_neg(ax, (bx * cx));
    crate::base::lemma_mul_neg((-ax), (bx * cx));
    crate::base::lemma_mul_neg(ax, (by * cy));
    crate::base::lemma_mul_neg((-ax), (by * cy));
    crate::base::lemma_mul_neg(ax, (bz * cz));
    crate::base::lemma_mul_neg((-ax), (bz * cz));
    crate::base::lemma_mul_neg(bw, cz);
    crate::base::lemma_mul_neg((-bw), cz);
    crate::base::lemma_mul_neg(bx, cy);
    crate::base::lemma_mul_neg((-bx), cy);
    crate::base::lemma_mul_neg(by, cx);
    crate::base::lemma_mul_neg((-by), cx);
    crate::base::lemma_mul_neg(bz, cw);
    crate::base::lemma_mul_neg((-bz), cw);
    crate::base::lemma_distribute2(ay, (((bw * cz) + (bx * cy)) - (by * cx)), (bz * cw));
    crate::base::lemma_distribute2(ay, ((bw * cz) + (bx * cy)), (by * cx));
    crate::base::lemma_distribute2(ay, (bw * cz), (bx * cy));
    crate::base::lemma_mul_neg(ay, (bw * cz));
    crate::base::lemma_mul_neg((-ay), (bw * cz));
    crate::base::lemma_mul_neg(ay, (bx * cy));
    crate::base::lemma_mul_neg((-ay), (bx * cy));
    crate::base::lemma_mul_neg(ay, (by * cx));
    crate::base::lemma_mul_neg((-ay), (by * cx));
    crate::base::lemma_mul_neg(ay, (bz * cw));
    crate::base::lemma_mul_neg((-ay), (bz * cw));
    crate::base::lemma_mul_neg(bw, cy);
    crate::base::lemma_mul_neg((-bw), cy);
    crate::base::lemma_mul_neg(bx, cz);
    crate::base::lemma_mul_neg((-bx), cz);
    crate::base::lemma_mul_neg(by, cw);
    crate::base::lemma_mul_neg((-by), cw);
    crate::base::lemma_mul_neg(bz, cx);
    crate::base::lemma_mul_neg((-bz), cx);
    crate::base::lemma_distribute2(az, (((bw * cy) - (bx * cz)) + (by * cw)), (bz * cx));
    crate::base::lemma_distribute2(az, ((bw * cy) - (bx * cz)), (by * cw));
    crate::base::lemma_distribute2(az, (bw * cy), (bx * cz));
    crate::base::lemma_mul_neg(az, (bw * cy));
    crate::base::lemma_mul_neg((-az), (bw * cy));
    crate::base::lemma_mul_neg(az, (bx * cz));
    crate::base::lemma_mul_neg((-az), (bx * cz));
    crate::base::lemma_mul_neg(az, (by * cw));
    crate::base::lemma_mul_neg((-az), (by * cw));
    crate::base::lemma_mul_neg(az, (bz * cx));
    crate::base::lemma_mul_neg((-az), (bz * cx));
    crate::base::lemma_mul_reassoc(aw, bw, cx);
    crate::base::lemma_mul_reassoc(aw, bx, cw);
    crate::base::lemma_mul_reassoc(aw, by, cz);
    crate::base::lemma_mul_reassoc(aw, bz, cy);
    crate::base::lemma_mul_reassoc(ax, bw, cw);
    crate::base::lemma_mul_reassoc(ax, bx, cx);
    crate::base::lemma_mul_reassoc(ax, by, cy);
    crate::base::lemma_mul_reassoc(ax, bz, cz);
    crate::base::lemma_mul_reassoc(ay, bw, cz);
    crate::base::lemma_mul_reassoc(ay, bx, cy);
    crate::base::lemma_mul_reassoc(ay, by, cx);
    crate::base::lemma_mul_reassoc(ay, bz, cw);
    crate::base::lemma_mul_reassoc(az, bw, cy);
    crate::base::lemma_mul_reassoc(az, bx, cz);
    crate::base::lemma_mul_reassoc(az, by, cw);
    crate::base::lemma_mul_reassoc(az, bz, cx);
}

/// One component of quaternion associativity.
proof fn lemma_qmul_assoc_y(aw: int, ax: int, ay: int, az: int, bw: int, bx: int, by: int, bz: int, cw: int, cx: int, cy: int, cz: int)
    ensures
        ((((((((aw * bw) - (ax * bx)) - (ay * by)) - (az * bz)) * cy) - (((((aw * bx) + (ax * bw)) + (ay * bz)) - (az * by)) * cz)) + (((((aw * by) - (ax * bz)) + (ay * bw)) + (az * bx)) * cw)) + (((((aw * bz) + (ax * by)) - (ay * bx)) + (az * bw)) * cx))
            == ((((aw * ((((bw * cy) - (bx * cz)) + (by * cw)) + (bz * cx))) - (ax * ((((bw * cz) + (bx * cy)) - (by * cx)) + (bz * cw)))) + (ay * ((((bw * cw) - (bx * cx)) - (by * cy)) - (bz * cz)))) + (az * ((((bw * cx) + (bx * cw)) + (by * cz)) - (bz * cy)))),
{
    crate::base::lemma_mul_neg(aw, bw);
    crate::base::lemma_mul_neg((-aw), bw);
    crate::base::lemma_mul_neg(ax, bx);
    crate::base::lemma_mul_neg((-ax), bx);
    crate::base::lemma_mul_neg(ay, by);
    crate::base::lemma_mul_neg((-ay), by);
    crate::base::lemma_mul_neg(az, bz);
    crate::base::lemma_mul_neg((-az), bz);
    crate::base::lemma_distribute2(cy, (((aw * bw) - (ax * bx)) - (ay * by)), (az * bz));
    crate::base::lemma_distribute2(cy, ((aw * bw) - (ax * bx)), (ay * by));
    crate::base::lemma_distribute2(cy, (aw * bw), (ax * bx));
    crate::base::lemma_mul_neg((aw * bw), cy);
    crate::base::lemma_mul_neg((-(aw * bw)), cy);
    crate::base::lemma_mul_neg((ax * bx), cy);
    crate::base::lemma_mul_neg((-(ax * bx)), cy);
    crate::base::lemma_mul_neg((ay * by), cy);
    crate::base::lemma_mul_neg((-(ay * by)), cy);
    crate::base::lemma_mul_neg((az * bz), cy);
    crate::base::lemma_mul_neg((-(az * bz)), cy);
    crate::base::lemma_mul_neg(aw, bx);
    crate::base::lemma_mul_neg((-aw), bx);
    crate::base::lemma_mul_neg(ax, bw);
    crate::base::lemma_mul_neg((-ax), bw);
    crate::base::lemma_mul_neg(ay, bz);
    crate::base::lemma_mul_neg((-ay), bz);
    crate::base::lemma_mul_neg(az, by);
    crate::base::lemma_mul_neg((-az), by);
    crate::base::lemma_distribute2(cz, (((aw * bx) + (ax * bw)) + (ay * bz)), (az * by));
    crate::base::lemma_distribute2(cz, ((aw * bx) + (ax * bw)), (ay * bz));
    crate::base::lemma_distribute2(cz, (aw * bx), (ax * bw));
    crate::base::lemma_mul_neg((aw * bx), cz);
    crate::base::lemma_mul_neg((-(aw * bx)), cz);
    crate::base::lemma_mul_neg((ax * bw), cz);
    crate::base::lemma_mul_neg((-(ax * bw)), cz);
    crate::base::lemma_mul_neg((ay * bz), cz);
    crate::base::lemma_mul_neg((-(ay * bz)), cz);
    crate::base::lemma_mul_neg((az * by), cz);
    crate::base::lemma_mul_neg((-(az * by)), cz);
    crate::base::lemma_mul_neg(aw, by);
    crate::base::lemma_mul_neg((-aw), by);
    crate::base::lemma_mul_neg(ax, bz);
    crate::base::lemma_mul_neg((-ax), bz);
    crate::base::lemma_mul_neg(ay, bw);
    crate::base::lemma_mul_neg((-ay), bw);
    crate::base::lemma_mul_neg(az, bx);
    crate::base::lemma_mul_neg((-az), bx);
    crate::base::lemma_distribute2(cw, (((aw * by) - (ax * bz)) + (ay * bw)), (az * bx));
    crate::base::lemma_distribute2(cw, ((aw * by) - (ax * bz)), (ay * bw));
    crate::base::lemma_distribute2(cw, (aw * by), (ax * bz));
    crate::base::lemma_mul_neg((aw * by), cw);
    crate::base::lemma_mul_neg((-(aw * by)), cw);
    crate::base::lemma_mul_neg((ax * bz), cw);
    crate::base::lemma_mul_neg((-(ax * bz)), cw);
    crate::base::lemma_mul_neg((ay * bw), cw);
    crate::base::lemma_mul_neg((-(ay * bw)), cw);
    crate::base::lemma_mul_neg((az * bx), cw);
    crate::base::lemma_mul_neg((-(az * bx)), cw);
    crate::base::lemma_mul_neg(aw, bz);
    crate::base::lemma_mul_neg((-aw), bz);
    crate::base::lemma_mul_neg(ax, by);
    crate::base::lemma_mul_neg((-ax), by);
    crate::base::lemma_mul_neg(ay, bx);
    crate::base::lemma_mul_neg((-ay), bx);
    crate::base::lemma_mul_neg(az, bw);
    crate::base::lemma_mul_neg((-az), bw);
    crate::base::lemma_distribute2(cx, (((aw * bz) + (ax * by)) - (ay * bx)), (az * bw));
    crate::base::lemma_distribute2(cx, ((aw * bz) + (ax * by)), (ay * bx));
    crate::base::lemma_distribute2(cx, (aw * bz), (ax * by));
    crate::base::lemma_mul_neg((aw * bz), cx);
    crate::base::lemma_mul_neg((-(aw * bz)), cx);
    crate::base::lemma_mul_neg((ax * by), cx);
    crate::base::lemma_mul_neg((-(ax * by)), cx);
    crate::base::lemma_mul_neg((ay * bx), cx);
    crate::base::lemma_mul_neg((-(ay * bx)), cx);
    crate::base::lemma_mul_neg((az * bw), cx);
    crate::base::lemma_mul_neg((-(az * bw)), cx);
    crate::base::lemma_mul_neg(bw, cy);
    crate::base::lemma_mul_neg((-bw), cy);
    crate::base::lemma_mul_neg(bx, cz);
    crate::base::lemma_mul_neg((-bx), cz);
    crate::base::lemma_mul_neg(by, cw);
    crate::base::lemma_mul_neg((-by), cw);
    crate::base::lemma_mul_neg(bz, cx);
    crate::base::lemma_mul_neg((-bz), cx);
    crate::base::lemma_distribute2(aw, (((bw * cy) - (bx * cz)) + (by * cw)), (bz * cx));
    crate::base::lemma_distribute2(aw, ((bw * cy) - (bx * cz)), (by * cw));
    crate::base::lemma_distribute2(aw, (bw * cy), (bx * cz));
    crate::base::lemma_mul_neg(aw, (bw * cy));
    crate::base::lemma_mul_neg((-aw), (bw * cy));
    crate::base::lemma_mul_neg(aw, (bx * cz));
    crate::base::lemma_mul_neg((-aw), (bx * cz));
    crate::base::lemma_mul_neg(aw, (by * cw));
    crate::base::lemma_mul_neg((-aw), (by * cw));
    crate::base::lemma_mul_neg(aw, (bz * cx));
    crate::base::lemma_mul_neg((-aw), (bz * cx));
    crate::base::lemma_mul_neg(bw, cz);
    crate::base::lemma_mul_neg((-bw), cz);
    crate::base::lemma_mul_neg(bx, cy);
    crate::base::lemma_mul_neg((-bx), cy);
    crate::base::lemma_mul_neg(by, cx);
    crate::base::lemma_mul_neg((-by), cx);
    crate::base::lemma_mul_neg(bz, cw);
    crate::base::lemma_mul_neg((-bz), cw);
    crate::base::lemma_distribute2(ax, (((bw * cz) + (bx * cy)) - (by * cx)), (bz * cw));
    crate::base::lemma_distribute2(ax, ((bw * cz) + (bx * cy)), (by * cx));
    crate::base::lemma_distribute2(ax, (bw * cz), (bx * cy));
    crate::base::lemma_mul_neg(ax, (bw * cz));
    crate::base::lemma_mul_neg((-ax), (bw * cz));
    crate::base::lemma_mul_neg(ax, (bx * cy));
    crate::base::lemma_mul_neg((-ax), (bx * cy));
    crate::base::lemma_mul_neg(ax, (by * cx));
    crate::base::lemma_mul_neg((-ax), (by * cx));
    crate::base::lemma_mul_neg(ax, (bz * cw));
    crate::base::lemma_mul_neg((-ax), (bz * cw));
    crate::base::lemma_mul_neg(bw, cw);
    crate::base::lemma_mul_neg((-bw), cw);
    crate::base::lemma_mul_neg(bx, cx);
    crate::base::lemma_mul_neg((-bx), cx);
    crate::base::lemma_mul_neg(by, cy);
    crate::base::lemma_mul_neg((-by), cy);
    crate::base::lemma_mul_neg(bz, cz);
    crate::base::lemma_mul_neg((-bz), cz);
    crate::base::lemma_distribute2(ay, (((bw * cw) - (bx * cx)) - (by * cy)), (bz * cz));
    crate::base::lemma_distribute2(ay, ((bw * cw) - (bx * cx)), (by * cy));
    crate::base::lemma_distribute2(ay, (bw * cw), (bx * cx));
    crate::base::lemma_mul_neg(ay, (bw * cw));
    crate::base::lemma_mul_neg((-ay), (bw * cw));
    crate::base::lemma_mul_neg(ay, (bx * cx));
    crate::base::lemma_mul_neg((-ay), (bx * cx));
    crate::base::lemma_mul_neg(ay, (by * cy));
    crate::base::lemma_mul_neg((-ay), (by * cy));
    crate::base::lemma_mul_neg(ay, (bz * cz));
    crate::base::lemma_mul_neg((-ay), (bz * cz));
    crate::base::lemma_mul_neg(bw, cx);
    crate::base::lemma_mul_neg((-bw), cx);
    crate::base::lemma_mul_neg(bx, cw);
    crate::base::lemma_mul_neg((-bx), cw);
    crate::base::lemma_mul_neg(by, cz);
    crate::base::lemma_mul_neg((-by), cz);
    crate::base::lemma_mul_neg(bz, cy);
    crate::base::lemma_mul_neg((-bz), cy);
    crate::base::lemma_distribute2(az, (((bw * cx) + (bx * cw)) + (by * cz)), (bz * cy));
    crate::base::lemma_distribute2(az, ((bw * cx) + (bx * cw)), (by * cz));
    crate::base::lemma_distribute2(az, (bw * cx), (bx * cw));
    crate::base::lemma_mul_neg(az, (bw * cx));
    crate::base::lemma_mul_neg((-az), (bw * cx));
    crate::base::lemma_mul_neg(az, (bx * cw));
    crate::base::lemma_mul_neg((-az), (bx * cw));
    crate::base::lemma_mul_neg(az, (by * cz));
    crate::base::lemma_mul_neg((-az), (by * cz));
    crate::base::lemma_mul_neg(az, (bz * cy));
    crate::base::lemma_mul_neg((-az), (bz * cy));
    crate::base::lemma_mul_reassoc(aw, bw, cy);
    crate::base::lemma_mul_reassoc(aw, bx, cz);
    crate::base::lemma_mul_reassoc(aw, by, cw);
    crate::base::lemma_mul_reassoc(aw, bz, cx);
    crate::base::lemma_mul_reassoc(ax, bw, cz);
    crate::base::lemma_mul_reassoc(ax, bx, cy);
    crate::base::lemma_mul_reassoc(ax, by, cx);
    crate::base::lemma_mul_reassoc(ax, bz, cw);
    crate::base::lemma_mul_reassoc(ay, bw, cw);
    crate::base::lemma_mul_reassoc(ay, bx, cx);
    crate::base::lemma_mul_reassoc(ay, by, cy);
    crate::base::lemma_mul_reassoc(ay, bz, cz);
    crate::base::lemma_mul_reassoc(az, bw, cx);
    crate::base::lemma_mul_reassoc(az, bx, cw);
    crate::base::lemma_mul_reassoc(az, by, cz);
    crate::base::lemma_mul_reassoc(az, bz, cy);
}

/// One component of quaternion associativity.
proof fn lemma_qmul_assoc_z(aw: int, ax: int, ay: int, az: int, bw: int, bx: int, by: int, bz: int, cw: int, cx: int, cy: int, cz: int)
    ensures
        ((((((((aw * bw) - (ax * bx)) - (ay * by)) - (az * bz)) * cz) + (((((aw * bx) + (ax * bw)) + (ay * bz)) - (az * by)) * cy)) - (((((aw * by) - (ax * bz)) + (ay * bw)) + (az * bx)) * cx)) + (((((aw * bz) + (ax * by)) - (ay * bx)) + (az * bw)) * cw))
            == ((((aw * ((((bw * cz) + (bx * cy)) - (by * cx)) + (bz * cw))) + (ax * ((((bw * cy) - (bx * cz)) + (by * cw)) + (bz * cx)))) - (ay * ((((bw * cx) + (bx * cw)) + (by * cz)) - (bz * cy)))) + (az * ((((bw * cw) - (bx * cx)) - (by * cy)) - (bz * cz)))),
{
    crate::base::lemma_mul_neg(aw, bw);
    crate::base::lemma_mul_neg((-aw), bw);
    crate::base::lemma_mul_neg(ax, bx);
    crate::base::lemma_mul_neg((-ax), bx);
    crate::base::lemma_mul_neg(ay, by);
    crate::base::lemma_mul_neg((-ay), by);
    crate::base::lemma_mul_neg(az, bz);
    crate::base::lemma_mul_neg((-az), bz);
    crate::base::lemma_distribute2(cz, (((aw * bw) - (ax * bx)) - (ay * by)), (az * bz));
    crate::base::lemma_distribute2(cz, ((aw * bw) - (ax * bx)), (ay * by));
    crate::base::lemma_distribute2(cz, (aw * bw), (ax * bx));
    crate::base::lemma_mul_neg((aw * bw), cz);
    crate::base::lemma_mul_neg((-(aw * bw)), cz);
    crate::base::lemma_mul_neg((ax * bx), cz);
    crate::base::lemma_mul_neg((-(ax * bx)), cz);
    crate::base::lemma_mul_neg((ay * by), cz);
    crate::base::lemma_mul_neg((-(ay * by)), cz);
    crate::base::lemma_mul_neg((az * bz), cz);
    crate::base::lemma_mul_neg((-(az * bz)), cz);
    crate::base::lemma_mul_neg(aw, bx);
    crate::base::lemma_mul_neg((-aw), bx);
    crate::base::lemma_mul_neg(ax, bw);
    crate::base::lemma_mul_neg((-ax), bw);
    crate::base::lemma_mul_neg(ay, bz);
    crate::base::lemma_mul_neg((-ay), bz);
    crate::base::lemma_mul_neg(az, by);
    crate::base::lemma_mul_neg((-az), by);
    crate::base::lemma_distribute2(cy, (((aw * bx) + (ax * bw)) + (ay * bz)), (az * by));
    crate::base::lemma_distribute2(cy, ((aw * bx) + (ax * bw)), (ay * bz));
    crate::base::lemma_distribute2(cy, (aw * bx), (ax * bw));
    crate::base::lemma_mul_neg((aw * bx), cy);
    crate::base::lemma_mul_neg((-(aw * bx)), cy);
    crate::base::lemma_mul_neg((ax * bw), cy);
    crate::base::lemma_mul_neg((-(ax * bw)), cy);
    crate::base::lemma_mul_neg((ay * bz), cy);
    crate::base::lemma_mul_neg((-(ay * bz)), cy);
    crate::base::lemma_mul_neg((az * by), cy);
    crate::base::lemma_mul_neg((-(az * by)), cy);
    crate::base::lemma_mul_neg(aw, by);
    crate::base::lemma_mul_neg((-aw), by);
    crate::base::lemma_mul_neg(ax, bz);
    crate::base::lemma_mul_neg((-ax), bz);
    crate::base::lemma_mul_neg(ay, bw);
    crate::base::lemma_mul_neg((-ay), bw);
    crate::base::lemma_mul_neg(az, bx);
    crate::base::lemma_mul_neg((-az), bx);
    crate::base::lemma_distribute2(cx, (((aw * by) - (ax * bz)) + (ay * bw)), (az * bx));
    crate::base::lemma_distribute2(cx, ((aw * by) - (ax * bz)), (ay * bw));
    crate::base::lemma_distribute2(cx, (aw * by), (ax * bz));
    crate::base::lemma_mul_neg((aw * by), cx);
    crate::base::lemma_mul_neg((-(aw * by)), cx);
    crate::base::lemma_mul_neg((ax * bz), cx);
    crate::base::lemma_mul_neg((-(ax * bz)), cx);
    crate::base::lemma_mul_neg((ay * bw), cx);
    crate::base::lemma_mul_neg((-(ay * bw)), cx);
    crate::base::lemma_mul_neg((az * bx), cx);
    crate::base::lemma_mul_neg((-(az * bx)), cx);
    crate::base::lemma_mul_neg(aw, bz);
    crate::base::lemma_mul_neg((-aw), bz);
    crate::base::lemma_mul_neg(ax, by);
    crate::base::lemma_mul_neg((-ax), by);
    crate::base::lemma_mul_neg(ay, bx);
    crate::base::lemma_mul_neg((-ay), bx);
    crate::base::lemma_mul_neg(az, bw);
    crate::base::lemma_mul_neg((-az), bw);
    crate::base::lemma_distribute2(cw, (((aw * bz) + (ax * by)) - (ay * bx)), (az * bw));
    crate::base::lemma_distribute2(cw, ((aw * bz) + (ax * by)), (ay * bx));
    crate::base::lemma_distribute2(cw, (aw * bz), (ax * by));
    crate::base::lemma_mul_neg((aw * bz), cw);
    crate::base::lemma_mul_neg((-(aw * bz)), cw);
    crate::base::lemma_mul_neg((ax * by), cw);
    crate::base::lemma_mul_neg((-(ax * by)), cw);
    crate::base::lemma_mul_neg((ay * bx), cw);
    crate::base::lemma_mul_neg((-(ay * bx)), cw);
    crate::base::lemma_mul_neg((az * bw), cw);
    crate::base::lemma_mul_neg((-(az * bw)), cw);
    crate::base::lemma_mul_neg(bw, cz);
    crate::base::lemma_mul_neg((-bw), cz);
    crate::base::lemma_mul_neg(bx, cy);
    crate::base::lemma_mul_neg((-bx), cy);
    crate::base::lemma_mul_neg(by, cx);
    crate::base::lemma_mul_neg((-by), cx);
    crate::base::lemma_mul_neg(bz, cw);
    crate::base::lemma_mul_neg((-bz), cw);
    crate::base::lemma_distribute2(aw, (((bw * cz) + (bx * cy)) - (by * cx)), (bz * cw));
    crate::base::lemma_distribute2(aw, ((bw * cz) + (bx * cy)), (by * cx));
    crate::base::lemma_distribute2(aw, (bw * cz), (bx * cy));
    crate::base::lemma_mul_neg(aw, (bw * cz));
    crate::base::lemma_mul_neg((-aw), (bw * cz));
    crate::base::lemma_mul_neg(aw, (bx * cy));
    crate::base::lemma_mul_neg((-aw), (bx * cy));
    crate::base::lemma_mul_neg(aw, (by * cx));
    crate::base::lemma_mul_neg((-aw), (by * cx));
    crate::base::lemma_mul_neg(aw, (bz * cw));
    crate::base::lemma_mul_neg((-aw), (bz * cw));
    crate::base::lemma_mul_neg(bw, cy);
    crate::base::lemma_mul_neg((-bw), cy);
    crate::base::lemma_mul_neg(bx, cz);
    crate::base::lemma_mul_neg((-bx), cz);
    crate::base::lemma_mul_neg(by, cw);
    crate::base::lemma_mul_neg((-by), cw);
    crate::base::lemma_mul_neg(bz, cx);
    crate::base::lemma_mul_neg((-bz), cx);
    crate::base::lemma_distribute2(ax, (((bw * cy) - (bx * cz)) + (by * cw)), (bz * cx));
    crate::base::lemma_distribute2(ax, ((bw * cy) - (bx * cz)), (by * cw));
    crate::base::lemma_distribute2(ax, (bw * cy), (bx * cz));
    crate::base::lemma_mul_neg(ax, (bw * cy));
    crate::base::lemma_mul_neg((-ax), (bw * cy));
    crate::base::lemma_mul_neg(ax, (bx * cz));
    crate::base::lemma_mul_neg((-ax), (bx * cz));
    crate::base::lemma_mul_neg(ax, (by * cw));
    crate::base::lemma_mul_neg((-ax), (by * cw));
    crate::base::lemma_mul_neg(ax, (bz * cx));
    crate::base::lemma_mul_neg((-ax), (bz * cx));
    crate::base::lemma_mul_neg(bw, cx);
    crate::base::lemma_mul_neg((-bw), cx);
    crate::base::lemma_mul_neg(bx, cw);
    crate::base::lemma_mul_neg((-bx), cw);
    crate::base::lemma_mul_neg(by, cz);
    crate::base::lemma_mul_neg((-by), cz);
    crate::base::lemma_mul_neg(bz, cy);
    crate::base::lemma_mul_neg((-bz), cy);
    crate::base::lemma_distribute2(ay, (((bw * cx) + (bx * cw)) + (by * cz)), (bz * cy));
    crate::base::lemma_distribute2(ay, ((bw * cx) + (bx * cw)), (by * cz));
    crate::base::lemma_distribute2(ay, (bw * cx), (bx * cw));
    crate::base::lemma_mul_neg(ay, (bw * cx));
    crate::base::lemma_mul_neg((-ay), (bw * cx));
    crate::base::lemma_mul_neg(ay, (bx * cw));
    crate::base::lemma_mul_neg((-ay), (bx * cw));
    crate::base::lemma_mul_neg(ay, (by * cz));
    crate::base::lemma_mul_neg((-ay), (by * cz));
    crate::base::lemma_mul_neg(ay, (bz * cy));
    crate::base::lemma_mul_neg((-ay), (bz * cy));
    crate::base::lemma_mul_neg(bw, cw);
    crate::base::lemma_mul_neg((-bw), cw);
    crate::base::lemma_mul_neg(bx, cx);
    crate::base::lemma_mul_neg((-bx), cx);
    crate::base::lemma_mul_neg(by, cy);
    crate::base::lemma_mul_neg((-by), cy);
    crate::base::lemma_mul_neg(bz, cz);
    crate::base::lemma_mul_neg((-bz), cz);
    crate::base::lemma_distribute2(az, (((bw * cw) - (bx * cx)) - (by * cy)), (bz * cz));
    crate::base::lemma_distribute2(az, ((bw * cw) - (bx * cx)), (by * cy));
    crate::base::lemma_distribute2(az, (bw * cw), (bx * cx));
    crate::base::lemma_mul_neg(az, (bw * cw));
    crate::base::lemma_mul_neg((-az), (bw * cw));
    crate::base::lemma_mul_neg(az, (bx * cx));
    crate::base::lemma_mul_neg((-az), (bx * cx));
    crate::base::lemma_mul_neg(az, (by * cy));
    crate::base::lemma_mul_neg((-az), (by * cy));
    crate::base::lemma_mul_neg(az, (bz * cz));
    crate::base::lemma_mul_neg((-az), (bz * cz));
    crate::base::lemma_mul_reassoc(aw, bw, cz);
    crate::base::lemma_mul_reassoc(aw, bx, cy);
    crate::base::lemma_mul_reassoc(aw, by, cx);
    crate::base::lemma_mul_reassoc(aw, bz, cw);
    crate::base::lemma_mul_reassoc(ax, bw, cy);
    crate::base::lemma_mul_reassoc(ax, bx, cz);
    crate::base::lemma_mul_reassoc(ax, by, cw);
    crate::base::lemma_mul_reassoc(ax, bz, cx);
    crate::base::lemma_mul_reassoc(ay, bw, cx);
    crate::base::lemma_mul_reassoc(ay, bx, cw);
    crate::base::lemma_mul_reassoc(ay, by, cz);
    crate::base::lemma_mul_reassoc(ay, bz, cy);
    crate::base::lemma_mul_reassoc(az, bw, cw);
    crate::base::lemma_mul_reassoc(az, bx, cx);
    crate::base::lemma_mul_reassoc(az, by, cy);
    crate::base::lemma_mul_reassoc(az, bz, cz);
}

/// A quaternion times its conjugate is the scalar squared norm.
proof fn lemma_qconj_product(qw: int, qx: int, qy: int, qz: int)
    ensures
        ((((qw * qw) - (qx * (-qx))) - (qy * (-qy))) - (qz * (-qz))) == ((((qw * qw) + (qx * qx)) + (qy * qy)) + (qz * qz)),
        ((((qw * (-qx)) + (qx * qw)) + (qy * (-qz))) - (qz * (-qy))) == 0,
        ((((qw * (-qy)) - (qx * (-qz))) + (qy * qw)) + (qz * (-qx))) == 0,
        ((((qw * (-qz)) + (qx * (-qy))) - (qy * (-qx))) + (qz * qw)) == 0,
{
    crate::base::lemma_mul_neg(qw, qw);
    crate::base::lemma_mul_neg((-qw), qw);
    crate::base::lemma_mul_neg(qx, qx);
    crate::base::lemma_mul_neg((-qx), qx);
    crate::base::lemma_mul_neg(qy, qy);
    crate::base::lemma_mul_neg((-qy), qy);
    crate::base::lemma_mul_neg(qz, qz);
    crate::base::lemma_mul_neg((-qz), qz);
    crate::base::lemma_mul_neg(qw, qx);
    crate::base::lemma_mul_neg((-qw), qx);
    crate::base::lemma_mul_neg(qx, qw);
    crate::base::lemma_mul_neg((-qx), qw);
    crate::base::lemma_mul_neg(qy, qz);
    crate::base::lemma_mul_neg((-qy), qz);
    crate::base::lemma_mul_neg(qz, qy);
    crate::base::lemma_mul_neg((-qz), qy);
    crate::base::lemma_mul_comm(qx, qw);
    crate::base::lemma_mul_comm(qz, qy);
    crate::base::lemma_mul_neg(qw, qy);
    crate::base::lemma_mul_neg((-qw), qy);
    crate::base::lemma_mul_neg(qx, qz);
    crate::base::lemma_mul_neg((-qx), qz);
    crate::base::lemma_mul_neg(qy, qw);
    crate::base::lemma_mul_neg((-qy), qw);
    crate::base::lemma_mul_neg(qz, qx);
    crate::base::lemma_mul_neg((-qz), qx);
    crate::base::lemma_mul_comm(qy, qw);
    crate::base::lemma_mul_comm(qz, qx);
    crate::base::lemma_mul_neg(qw, qz);
    crate::base::lemma_mul_neg((-qw), qz);
    crate::base::lemma_mul_neg(qx, qy);
    crate::base::lemma_mul_neg((-qx), qy);
    crate::base::lemma_mul_neg(qy, qx);
    crate::base::lemma_mul_neg((-qy), qx);
    crate::base::lemma_mul_neg(qz, qw);
    crate::base::lemma_mul_neg((-qz), qw);
    crate::base::lemma_mul_comm(qy, qx);
    crate::base::lemma_mul_comm(qz, qw);
}

/// The scalar part of `q* p q` is the scalar part of `p` scaled by the
/// squared norm.
proof fn lemma_sandwich_scalar(qw: int, qx: int, qy: int, qz: int, pw: int, px: int, py: int, pz: int)
    ensures
        ((((((((qw * pw) - ((-qx) * px)) - ((-qy) * py)) - ((-qz) * pz)) * qw) - (((((qw * px) + ((-qx) * pw)) + ((-qy) * pz)) - ((-qz) * py)) * qx)) - (((((qw * py) - ((-qx) * pz)) + ((-qy) * pw)) + ((-qz) * px)) * qy)) - (((((qw * pz) + ((-qx) * py)) - ((-qy) * px)) + ((-qz) * pw)) * qz)) == (pw * ((((qw * qw) + (qx * qx)) + (qy * qy)) + (qz * qz))),
{
    crate::base::lemma_mul_neg(qw, pw);
    crate::base::lemma_mul_neg((-qw), pw);
    crate::base::lemma_mul_neg(qx, px);
    crate::base::lemma_mul_neg((-qx), px);
    crate::base::lemma_mul_neg(qy, py);
    crate::base::lemma_mul_neg((-qy), py);
    crate::base::lemma_mul_neg(qz, pz);
    crate::base::lemma_mul_neg((-qz), pz);
    crate::base::lemma_distribute2(qw, (((qw * pw) - ((-qx) * px)) - ((-qy) * py)), ((-qz) * pz));
    crate::base::lemma_distribute2(qw, ((qw * pw) - ((-qx) * px)), ((-qy) * py));
    crate::base::lemma_distribute2(qw, (qw * pw), ((-qx) * px));
    crate::base::lemma_mul_neg((qw * pw), qw);
    crate::base::lemma_mul_neg((-(qw * pw)), qw);
    crate::base::lemma_mul_neg((qx * px), qw);
    crate::base::lemma_mul_neg((-(qx * px)), qw);
    crate::base::lemma_mul_neg((qy * py), qw);
    crate::base::lemma_mul_neg((-(qy * py)), qw);
    crate::base::lemma_mul_neg((qz * pz), qw);
    crate::base::lemma_mul_neg((-(qz * pz)), qw);
    crate::base::lemma_mul_neg(qw, px);
    crate::base::lemma_mul_neg((-qw), px);
    crate::base::lemma_mul_neg(qx, pw);
    crate::base::lemma_mul_neg((-qx), pw);
    crate::base::lemma_mul_neg(qy, pz);
    crate::base::lemma_mul_neg((-qy), pz);
    crate::base::lemma_mul_neg(qz, py);
    crate::base::lemma_mul_neg((-qz), py);
    crate::base::lemma_distribute2(qx, (((qw * px) + ((-qx) * pw)) + ((-qy) * pz)), ((-qz) * py));
    crate::base::lemma_distribute2(qx, ((qw * px) + ((-qx) * pw)), ((-qy) * pz));
    crate::base::lemma_distribute2(qx, (qw * px), ((-qx) * pw));
    crate::base::lemma_mul_neg((qw * px), qx);
    crate::base::lemma_mul_neg((-(qw * px)), qx);
    crate::base::lemma_mul_neg((qx * pw), qx);
    crate::base::lemma_mul_neg((-(qx * pw)), qx);
    crate::base::lemma_mul_neg((qy * pz), qx);
    crate::base::lemma_mul_neg((-(qy * pz)), qx);
    crate::base::lemma_mul_neg((qz * py), qx);
    crate::base::lemma_mul_neg((-(qz * py)), qx);
    crate::base::lemma_mul_neg(qw, py);
    crate::base::lemma_mul_neg((-qw), py);
    crate::base::lemma_mul_neg(qx, pz);
    crate::base::lemma_mul_neg((-qx), pz);
    crate::base::lemma_mul_neg(qy, pw);
    crate::base::lemma_mul_neg((-qy), pw);
    crate::base::lemma_mul_neg(qz, px);
    crate::base::lemma_mul_neg((-qz), px);
    crate::base::lemma_distribute2(qy, (((qw * py) - ((-qx) * pz)) + ((-qy) * pw)), ((-qz) * px));
    crate::base::lemma_distribute2(qy, ((qw * py) - ((-qx) * pz)), ((-qy) * pw));
    crate::base::lemma_distribute2(qy, (qw * py), ((-qx) * pz));
    crate::base::lemma_mul_neg((qw * py), qy);
    crate::base::lemma_mul_neg((-(qw * py)), qy);
    crate::base::lemma_mul_neg((qx * pz), qy);
    crate::base::lemma_mul_neg((-(qx * pz)), qy);
    crate::base::lemma_mul_neg((qy * pw), qy);
    crate::base::lemma_mul_neg((-(qy * pw)), qy);
    crate::base::lemma_mul_neg((qz * px), qy);
    crate::base::lemma_mul_neg((-(qz * px)), qy);
    crate::base::lemma_mul_neg(qw, pz);
    crate::base::lemma_mul_neg((-qw), pz);
    crate::base::lemma_mul_neg(qx, py);
    crate::base::lemma_mul_neg((-qx), py);
    crate::base::lemma_mul_neg(qy, px);
    crate::base::lemma_mul_neg((-qy), px);
    crate::base::lemma_mul_neg(qz, pw);
    crate::base::lemma_mul_neg((-qz), pw);
    crate::base::lemma_distribute2(qz, (((qw * pz) + ((-qx) * py)) - ((-qy) * px)), ((-qz) * pw));
    crate::base::lemma_distribute2(qz, ((qw * pz) + ((-qx) * py)), ((-qy) * px));
    crate::base::lemma_distribute2(qz, (qw * pz), ((-qx) * py));
    crate::base::lemma_mul_neg((qw * pz), qz);
    crate::base::lemma_mul_neg((-(qw * pz)), qz);
    crate::base::lemma_mul_neg((qx * py), qz);
    crate::base::lemma_mul_neg((-(qx * py)), qz);
    crate::base::lemma_mul_neg((qy * px), qz);
    crate::base::lemma_mul_neg((-(qy * px)), qz);
    crate::base::lemma_mul_neg((qz * pw), qz);
    crate::base::lemma_mul_neg((-(qz * pw)), qz);
    crate::base::lemma_mul_neg(qw, qw);
    crate::base::lemma_mul_neg((-qw), qw);
    crate::base::lemma_mul_neg(qx, qx);
    crate::base::lemma_mul_neg((-qx), qx);
    crate::base::lemma_mul_neg(qy, qy);
    crate::base::lemma_mul_neg((-qy), qy);
    crate::base::lemma_mul_neg(qz, qz);
    crate::base::lemma_mul_neg((-qz), qz);
    crate::base::lemma_distribute2(pw, (((qw * qw) + (qx * qx)) + (qy * qy)), (qz * qz));
    crate::base::lemma_distribute2(pw, ((qw * qw) + (qx * qx)), (qy * qy));
    crate::base::lemma_distribute2(pw, (qw * qw), (qx * qx));
    crate::base::lemma_mul_neg(pw, (qw * qw));
    crate::base::lemma_mul_neg((-pw), (qw * qw));
    crate::base::lemma_mul_neg(pw, (qx * qx));
    crate::base::lemma_mul_neg((-pw), (qx * qx));
    crate::base::lemma_mul_neg(pw, (qy * qy));
    crate::base::lemma_mul_neg((-pw), (qy * qy));
    crate::base::lemma_mul_neg(pw, (qz * qz));
    crate::base::lemma_mul_neg((-pw), (qz * qz));
    crate::base::lemma_mul_comm(qw, pw);
    crate::base::lemma_mul_comm(qx, px);
    crate::base::lemma_swap_inner(px, qx, qw);
    crate::base::lemma_mul_comm(qy, py);
    crate::base::lemma_swap_inner(py, qy, qw);
    crate::base::lemma_mul_comm(qz, pz);
    crate::base::lemma_swap_inner(pz, qz, qw);
    crate::base::lemma_mul_comm(qw, px);
    crate::base::lemma_mul_comm(qx, pw);
    crate::base::lemma_mul_comm(qy, pz);
    crate::base::lemma_swap_inner(pz, qy, qx);
    crate::base::lemma_mul_comm(qz, py);
    crate::base::lemma_swap_inner(py, qz, qx);
    crate::base::lemma_mul_comm(qw, py);
    crate::base::lemma_mul_comm(qx, pz);
    crate::base::lemma_mul_comm(qy, pw);
    crate::base::lemma_mul_comm(qz, px);
    crate::base::lemma_swap_inner(px, qz, qy);
    crate::base::lemma_mul_comm(qw, pz);
    crate::base::lemma_mul_comm(qx, py);
    crate::base::lemma_mul_comm(qy, px);
    crate::base::lemma_mul_comm(qz, pw);
    crate::base::lemma_mul_reassoc(pw, qw, qw);
    crate::base::lemma_mul_reassoc(pw, qx, qx);
    crate::base::lemma_mul_reassoc(pw, qy, qy);
    crate::base::lemma_mul_reassoc(pw, qz, qz);
}

/// Negating the right factor negates every component of the product.
proof fn lemma_qmul_neg_right(aw: int, ax: int, ay: int, az: int, bw: int, bx: int, by: int, bz: int)
    ensures
        ((((aw * (-bw)) - (ax * (-bx))) - (ay * (-by))) - (az * (-bz))) == (-((((aw * bw) - (ax * bx)) - (ay * by)) - (az * bz))),
        ((((aw * (-bx)) + (ax * (-bw))) + (ay * (-bz))) - (az * (-by))) == (-((((aw * bx) + (ax * bw)) + (ay * bz)) - (az * by))),
        ((((aw * (-by)) - (ax * (-bz))) + (ay * (-bw))) + (az * (-bx))) == (-((((aw * by) - (ax * bz)) + (ay * bw)) + (az * bx))),
        ((((aw * (-bz)) + (ax * (-by))) - (ay * (-bx))) + (az * (-bw))) == (-((((aw * bz) + (ax * by)) - (ay * bx)) + (az * bw))),
{
    crate::base::lemma_mul_neg(aw, bw);
    crate::base::lemma_mul_neg((-aw), bw);
    crate::base::lemma_mul_neg(ax, bx);
    crate::base::lemma_mul_neg((-ax), bx);
    crate::base::lemma_mul_neg(ay, by);
    crate::base::lemma_mul_neg((-ay), by);
    crate::base::lemma_mul_neg(az, bz);
    crate::base::lemma_mul_neg((-az), bz);
    crate::base::lemma_mul_neg(aw, bx);
    crate::base::lemma_mul_neg((-aw), bx);
    crate::base::lemma_mul_neg(ax, bw);
    crate::base::lemma_mul_neg((-ax), bw);
    crate::base::lemma_mul_neg(ay, bz);
    crate::base::lemma_mul_neg((-ay), bz);
    crate::base::lemma_mul_neg(az, by);
    crate::base::lemma_mul_neg((-az), by);
    crate::base::lemma_mul_neg(aw, by);
    crate::base::lemma_mul_neg((-aw), by);
    crate::base::lemma_mul_neg(ax, bz);
    crate::base::lemma_mul_neg((-ax), bz);
    crate::base::lemma_mul_neg(ay, bw);
    crate::base::lemma_mul_neg((-ay), bw);
    crate::base::lemma_mul_neg(az, bx);
    crate::base::lemma_mul_neg((-az), bx);
    crate::base::lemma_mul_neg(aw, bz);
    crate::base::lemma_mul_neg((-aw), bz);
    crate::base::lemma_mul_neg(ax, by);
    crate::base::lemma_mul_neg((-ax), by);
    crate::base::lemma_mul_neg(ay, bx);
    crate::base::lemma_mul_neg((-ay), bx);
    crate::base::lemma_mul_neg(az, bw);
    crate::base::lemma_mul_neg((-az), bw);
}

/// Negating the left factor negates every component of the product.
proof fn lemma_qmul_neg_left(aw: int, ax: int, ay: int, az: int, bw: int, bx: int, by: int, bz: int)
    ensures
        (((((-aw) * bw) - ((-ax) * bx)) - ((-ay) * by)) - ((-az) * bz)) == (-((((aw * bw) - (ax * bx)) - (ay * by)) - (az * bz))),
        (((((-aw) * bx) + ((-ax) * bw)) + ((-ay) * bz)) - ((-az) * by)) == (-((((aw * bx) + (ax * bw)) + (ay * bz)) - (az * by))),
        (((((-aw) * by) - ((-ax) * bz)) + ((-ay) * bw)) + ((-az) * bx)) == (-((((aw * by) - (ax * bz)) + (ay * bw)) + (az * bx))),
        (((((-aw) * bz) + ((-ax) * by)) - ((-ay) * bx)) + ((-az) * bw)) == (-((((aw * bz) + (ax * by)) - (ay * bx)) + (az * bw))),
{
    crate::base::lemma_mul_neg(aw, bw);
    crate::base::lemma_mul_neg((-aw), bw);
    crate::base::lemma_mul_neg(ax, bx);
    crate::base::lemma_mul_neg((-ax), bx);
    crate::base::lemma_mul_neg(ay, by);
    crate::base::lemma_mul_neg((-ay), by);
    crate::base::lemma_mul_neg(az, bz);
    crate::base::lemma_mul_neg((-az), bz);
    crate::base::lemma_mul_neg(aw, bx);
    crate::base::lemma_mul_neg((-aw), bx);
    crate::base::lemma_mul_neg(ax, bw);
    crate::base::lemma_mul_neg((-ax), bw);
    crate::base::lemma_mul_neg(ay, bz);
    crate::base::lemma_mul_neg((-ay), bz);
    crate::base::lemma_mul_neg(az, by);
    crate::base::lemma_mul_neg((-az), by);
    crate::base::lemma_mul_neg(aw, by);
    crate::base::lemma_mul_neg((-aw), by);
    crate::base::lemma_mul_neg(ax, bz);
    crate::base::lemma_mul_neg((-ax), bz);
    crate::base::lemma_mul_neg(ay, bw);
    crate::base::lemma_mul_neg((-ay), bw);
    crate::base::lemma_mul_neg(az, bx);
    crate::base::lemma_mul_neg((-az), bx);
    crate::base::lemma_mul_neg(aw, bz);
    crate::base::lemma_mul_neg((-aw), bz);
    crate::base::lemma_mul_neg(ax, by);
    crate::base::lemma_mul_neg((-ax), by);
    crate::base::lemma_mul_neg(ay, bx);
    crate::base::lemma_mul_neg((-ay), bx);
    crate::base::lemma_mul_neg(az, bw);
    crate::base::lemma_mul_neg((-az), bw);
}

/// The conjugate has the same squared norm.
proof fn lemma_norm_conj(qw: int, qx: int, qy: int, qz: int)
    ensures
        ((((qw * qw) + ((-qx) * (-qx))) + ((-qy) * (-qy))) + ((-qz) * (-qz))) == ((((qw * qw) + (qx * qx)) + (qy * qy)) + (qz * qz)),
{
    crate::base::lemma_mul_neg(qw, qw);
    crate::base::lemma_mul_neg((-qw), qw);
    crate::base::lemma_mul_neg(qx, (-qx));
    crate::base::lemma_mul_neg(qx, qx);
    crate::base::lemma_mul_neg((-qx), qx);
    crate::base::lemma_mul_neg(qy, (-qy));
    crate::base::lemma_mul_neg(qy, qy);
    crate::base::lemma_mul_neg((-qy), qy);
    crate::base::lemma_mul_neg(qz, (-qz));
    crate::base::lemma_mul_neg(qz, qz);
    crate::base::lemma_mul_neg((-qz), qz);
}

/// The scaled translation component cross-multiplies back to the
/// original.
proof fn lemma_p8_cross(n: int, t: int, w: int)
    ensures
        ((n * t) * n) * w == t * (n * (n * w)),
{
    crate::base::lemma_mul_neg(n, t);
    crate::base::lemma_mul_neg((-n), t);
    crate::base::lemma_mul_neg((n * t), n);
    crate::base::lemma_mul_neg((-(n * t)), n);
    crate::base::lemma_mul_neg(((n * t) * n), w);
    crate::base::lemma_mul_neg((-((n * t) * n)), w);
    crate::base::lemma_mul_neg(n, w);
    crate::base::lemma_mul_neg((-n), w);
    crate::base::lemma_mul_neg(n, (n * w));
    crate::base::lemma_mul_neg((-n), (n * w));
    crate::base::lemma_mul_neg(t, (n * (n * w)));
    crate::base::lemma_mul_neg((-t), (n * (n * w)));
    crate::base::lemma_swap_inner(n, t, n);
    crate::base::lemma_mul_reassoc(n, n, w);
    crate::base::lemma_mul_reassoc(t, (n * n), w);
    crate::base::lemma_mul_reassoc(t, n, n);
    crate::base::lemma_mul_comm(t, n);
}

/// Quaternion multiplication is associative.
proof fn lemma_qmul_assoc(a: QuatModel, b: QuatModel, c: QuatModel)
    ensures
        q_mul(q_mul(a, b), c) == q_mul(a, q_mul(b, c)),
{
    lemma_qmul_assoc_w(a.w, a.x, a.y, a.z, b.w, b.x, b.y, b.z, c.w, c.x, c.y, c.z);
    lemma_qmul_assoc_x(a.w, a.x, a.y, a.z, b.w, b.x, b.y, b.z, c.w, c.x, c.y, c.z);
    lemma_qmul_assoc_y(a.w, a.x, a.y, a.z, b.w, b.x, b.y, b.z, c.w, c.x, c.y, c.z);
    lemma_qmul_assoc_z(a.w, a.x, a.y, a.z, b.w, b.x, b.y, b.z, c.w, c.x, c.y, c.z);
}

/// A quaternion times its conjugate is the scalar squared norm, as a
/// quaternion.
proof fn lemma_qmul_conj_struct(q: QuatModel)
    ensures
        q_mul(q, q_conj(q)) == (QuatModel { w: q_norm2(q), x: 0, y: 0, z: 0 }),
{
    lemma_qconj_product(q.w, q.x, q.y, q.z);
}

/// Inverting a transform twice restores it: the rotation quaternion comes
/// back component for component, and the translation comes back as the
/// same displacement (equal up to the positive homogeneous factor, which
/// becomes the fourth power of the quaternion norm).
pub proof fn lemma_transform_inverse_involution(q: QuatModel, tv: (int, int, int, int))
    requires
        !(q.w == 0 && q.x == 0 && q.y == 0 && q.z == 0),
        tv.3 > 0,
    ensures
        ({
            let inv1 = inverse_model(q, tv);
            let inv2 = inverse_model(inv1.0, inv1.1);
            &&& inv2.0 == q
            &&& inv2.1.3 > 0
            &&& inv2.1.0 * tv.3 == tv.0 * inv2.1.3
            &&& inv2.1.1 * tv.3 == tv.1 * inv2.1.3
            &&& inv2.1.2 * tv.3 == tv.2 * inv2.1.3
        }),
{
    let n = q_norm2(q);
    let qc = q_conj(q);
    let p0 = QuatModel { w: 0, x: -tv.0, y: -tv.1, z: -tv.2 };
    assert(q_conj(qc) == q);
    let a = q_mul(qc, p0);
    let b = q_mul(a, q);
    assert(rot_tuple(qc, (-tv.0, -tv.1, -tv.2)) == (b.x, b.y, b.z));
    // The vector carried through the conjugate stays a pure quaternion.
    lemma_sandwich_scalar(q.w, q.x, q.y, q.z, p0.w, p0.x, p0.y, p0.z);
    assert(b.w == 0);
    // The second inversion carries the negated vector through q itself.
    let nb = QuatModel { w: 0, x: -b.x, y: -b.y, z: -b.z };
    assert(nb == (QuatModel { w: -b.w, x: -b.x, y: -b.y, z: -b.z }));
    lemma_qmul_neg_right(q.w, q.x, q.y, q.z, b.w, b.x, b.y, b.z);
    let m1 = q_mul(q, b);
    let t2 = q_mul(q, nb);
    assert(t2 == (QuatModel { w: -m1.w, x: -m1.x, y: -m1.y, z: -m1.z }));
    lemma_qmul_neg_left(m1.w, m1.x, m1.y, m1.z, qc.w, qc.x, qc.y, qc.z);
    let m2 = q_mul(m1, qc);
    assert(q_mul(t2, qc) == (QuatModel { w: -m2.w, x: -m2.x, y: -m2.y, z: -m2.z }));
    // Reassociate q (q* p q) q* into (q q*) p (q q*).
    lemma_qmul_assoc(q, a, q);
    lemma_qmul_assoc(q, qc, p0);
    lemma_qmul_conj_struct(q);
    let sq = QuatModel { w: n, x: 0, y: 0, z: 0 };
    assert(q_mul(sq, p0) == (QuatModel { w: 0, x: n * p0.x, y: n * p0.y, z: n * p0.z }));
    let s = QuatModel { w: 0, x: n * p0.x, y: n * p0.y, z: n * p0.z };
    assert(q_mul(q, a) == s);
    assert(m1 == q_mul(s, q));
    lemma_qmul_assoc(s, q, qc);
    assert(q_mul(s, sq) == (QuatModel { w: 0, x: (n * p0.x) * n, y: (n * p0.y) * n,
        z: (n * p0.z) * n }));
    assert(m2 == (QuatModel { w: 0, x: (n * p0.x) * n, y: (n * p0.y) * n,
        z: (n * p0.z) * n }));
    // Unfold the second rotation to the negated sandwich.
    let inv1 = inverse_model(q, tv);
    let inv2 = inverse_model(inv1.0, inv1.1);
    assert(inv2.1.0 == -((n * p0.x) * n));
    assert(inv2.1.1 == -((n * p0.y) * n));
    assert(inv2.1.2 == -((n * p0.z) * n));
    // -(n (-t) n) == (n t) n, componentwise.
    crate::base::lemma_mul_neg(n, tv.0);
    crate::base::lemma_mul_neg(n, tv.1);
    crate::base::lemma_mul_neg(n, tv.2);
    crate::base::lemma_mul_neg(n * tv.0, n);
    crate::base::lemma_mul_neg(n * tv.1, n);
    crate::base::lemma_mul_neg(n * tv.2, n);
    // The weight of the doubly-inverted translation.
    lemma_norm_conj(q.w, q.x, q.y, q.z);
    assert(inv2.1.3 == n * (n * tv.3));
    // Cross-multiplied equality with the original translation.
    lemma_p8_cross(n, tv.0, tv.3);
    lemma_p8_cross(n, tv.1, tv.3);
    lemma_p8_cross(n, tv.2, tv.3);
    // Positivity of the weight.
    assert(n > 0) by (nonlinear_arith)
        requires n == q.w * q.w + q.x * q.x + q.y * q.y + q.z * q.z
            && !(q.w == 0 && q.x == 0 && q.y == 0 && q.z == 0);
    assert(n * tv.3 > 0) by (nonlinear_arith)
        requires n > 0 && tv.3 > 0;
    assert(n * (n * tv.3) > 0) by (nonlinear_arith)
        requires n > 0 && n * tv.3 > 0;
}


/// The rotated coordinates of (vx, vy, vz) under `q` (scaled by the
/// squared norm of `q`).
fn rotate_coords(q: &Rotation, vx: i128, vy: i128, vz: i128) -> (r: (i128, i128, i128))
    requires
        q.bounded(0x10_0000),
        -0x10_0000 <= vx <= 0x10_0000,
        -0x10_0000 <= vy <= 0x10_0000,
        -0x10_0000 <= vz <= 0x10_0000,
    ensures
        (r.0 as int, r.1 as int, r.2 as int)
            == rot_tuple(q.model(), (vx as int, vy as int, vz as int)),
        -0x1_0000_0000_0000_0000 <= r.0 <= 0x1_0000_0000_0000_0000,
        -0x1_0000_0000_0000_0000 <= r.1 <= 0x1_0000_0000_0000_0000,
        -0x1_0000_0000_0000_0000 <= r.2 <= 0x1_0000_0000_0000_0000,
    {
    proof {
        lemma_rot_bounds(q.w as int, q.x as int, q.y as int, q.z as int,
            vx as int, vy as int, vz as int, 0x10_0000, 0x10_0000);
    }
    let tw = -(q.x * vx) - q.y * vy - q.z * vz;
    let tx = q.w * vx + q.y * vz - q.z * vy;
    let ty = q.w * vy - q.x * vz + q.z * vx;
    let tz = q.w * vz + q.x * vy - q.y * vx;
    let ux = tw * (-q.x) + tx * q.w + ty * (-q.z) - tz * (-q.y);
    let uy = tw * (-q.y) - tx * (-q.z) + ty * q.w + tz * (-q.x);
    let uz = tw * (-q.z) + tx * (-q.y) - ty * (-q.x) + tz * q.w;
    (ux, uy, uz)
}

/// Apply a transform to homogeneous coordinates.
fn apply_to_coords(t: &Transform, px: i128, py: i128, pz: i128, pw: i128) -> (r: Point)
    requires
        t.wf(),
        t.rotation.bounded(0x10_0000),
        t.translation.bounded(0x1000_0000),
        -0x10_0000 <= px <= 0x10_0000,
        -0x10_0000 <= py <= 0x10_0000,
        -0x10_0000 <= pz <= 0x10_0000,
        0 < pw <= 0x10_0000,
    ensures
        r.wf(),
        (r.x as int, r.y as int, r.z as int, r.w as int)
            == apply_model(t.rotation.model(), t.translation.model(),
                (px as int, py as int, pz as int, pw as int)),
    {
    let (rx, ry, rz) = rotate_coords(&t.rotation, px, py, pz);
    proof {
        lemma_norm2_pos(t.rotation.w as int, t.rotation.x as int, t.rotation.y as int,
            t.rotation.z as int, 0x10_0000);
        lemma_abs_mul_le(t.rotation.w as int, t.rotation.w as int, 0x10_0000, 0x10_0000);
        lemma_abs_mul_le(t.rotation.x as int, t.rotation.x as int, 0x10_0000, 0x10_0000);
        lemma_abs_mul_le(t.rotation.y as int, t.rotation.y as int, 0x10_0000, 0x10_0000);
        lemma_abs_mul_le(t.rotation.z as int, t.rotation.z as int, 0x10_0000, 0x10_0000);
        lemma_apply_bounds(rx as int, ry as int, rz as int,
            q_norm2(t.rotation.model()), pw as int, t.translation.x as int,
            t.translation.y as int, t.translation.z as int, t.translation.w as int);
    }
    let n = t.rotation.w * t.rotation.w + t.rotation.x * t.rotation.x
        + t.rotation.y * t.rotation.y + t.rotation.z * t.rotation.z;
    Point {
        x: rx * t.translation.w + n * pw * t.translation.x,
        y: ry * t.translation.w + n * pw * t.translation.y,
        z: rz * t.translation.w + n * pw * t.translation.z,
        w: n * pw * t.translation.w,
    }
}

/// Bounds for the quaternion sandwich intermediates.
proof fn lemma_rot_bounds(
    qw: int, qx: int, qy: int, qz: int,
    vx: int, vy: int, vz: int,
    bq: int, bv: int,
)
    requires
        0 <= bq && 0 <= bv,
        -bq <= qw <= bq && -bq <= qx <= bq && -bq <= qy <= bq && -bq <= qz <= bq,
        -bv <= vx <= bv && -bv <= vy <= bv && -bv <= vz <= bv,
    ensures
        ({
            let tw = -(qx * vx) - qy * vy - qz * vz;
            let tx = qw * vx + qy * vz - qz * vy;
            let ty = qw * vy - qx * vz + qz * vx;
            let tz = qw * vz + qx * vy - qy * vx;
            &&& -(bq * bv) <= qx * vx <= bq * bv && -(bq * bv) <= qy * vy <= bq * bv
            &&& -(bq * bv) <= qz * vz <= bq * bv && -(bq * bv) <= qw * vx <= bq * bv
            &&& -(bq * bv) <= qy * vz <= bq * bv && -(bq * bv) <= qz * vy <= bq * bv
            &&& -(bq * bv) <= qw * vy <= bq * bv && -(bq * bv) <= qx * vz <= bq * bv
            &&& -(bq * bv) <= qz * vx <= bq * bv && -(bq * bv) <= qw * vz <= bq * bv
            &&& -(bq * bv) <= qx * vy <= bq * bv && -(bq * bv) <= qy * vx <= bq * bv
            &&& -((3 * (bq * bv)) * bq) <= tw * (-qx) <= (3 * (bq * bv)) * bq
            &&& -((3 * (bq * bv)) * bq) <= tw * (-qy) <= (3 * (bq * bv)) * bq
            &&& -((3 * (bq * bv)) * bq) <= tw * (-qz) <= (3 * (bq * bv)) * bq
            &&& -((3 * (bq * bv)) * bq) <= tx * qw <= (3 * (bq * bv)) * bq
            &&& -((3 * (bq * bv)) * bq) <= tx * (-qz) <= (3 * (bq * bv)) * bq
            &&& -((3 * (bq * bv)) * bq) <= tx * (-qy) <= (3 * (bq * bv)) * bq
            &&& -((3 * (bq * bv)) * bq) <= ty * (-qz) <= (3 * (bq * bv)) * bq
            &&& -((3 * (bq * bv)) * bq) <= ty * qw <= (3 * (bq * bv)) * bq
            &&& -((3 * (bq * bv)) * bq) <= ty * (-qx) <= (3 * (bq * bv)) * bq
            &&& -((3 * (bq * bv)) * bq) <= tz * (-qy) <= (3 * (bq * bv)) * bq
            &&& -((3 * (bq * bv)) * bq) <= tz * (-qx) <= (3 * (bq * bv)) * bq
            &&& -((3 * (bq * bv)) * bq) <= tz * qw <= (3 * (bq * bv)) * bq
        }),
{
    assert(0 <= bq * bv) by (nonlinear_arith)
        requires 0 <= bq && 0 <= bv;
    lemma_abs_mul_le(qx, vx, bq, bv);
    lemma_abs_mul_le(qy, vy, bq, bv);
    lemma_abs_mul_le(qz, vz, bq, bv);
    lemma_abs_mul_le(qw, vx, bq, bv);
    lemma_abs_mul_le(qy, vz, bq, bv);
    lemma_abs_mul_le(qz, vy, bq, bv);
    lemma_abs_mul_le(qw, vy, bq, bv);
    lemma_abs_mul_le(qx, vz, bq, bv);
    lemma_abs_mul_le(qz, vx, bq, bv);
    lemma_abs_mul_le(qw, vz, bq, bv);
    lemma_abs_mul_le(qx, vy, bq, bv);
    lemma_abs_mul_le(qy, vx, bq, bv);
    let tw = -(qx * vx) - qy * vy - qz * vz;
    let tx = qw * vx + qy * vz - qz * vy;
    let ty = qw * vy - qx * vz + qz * vx;
    let tz = qw * vz + qx * vy - qy * vx;
    lemma_abs_mul_le(tw, -qx, 3 * (bq * bv), bq);
    lemma_abs_mul_le(tw, -qy, 3 * (bq * bv), bq);
    lemma_abs_mul_le(tw, -qz, 3 * (bq * bv), bq);
    lemma_abs_mul_le(tx, qw, 3 * (bq * bv), bq);
    lemma_abs_mul_le(tx, -qz, 3 * (bq * bv), bq);
    lemma_abs_mul_le(tx, -qy, 3 * (bq * bv), bq);
    lemma_abs_mul_le(ty, -qz, 3 * (bq * bv), bq);
    lemma_abs_mul_le(ty, qw, 3 * (bq * bv), bq);
    lemma_abs_mul_le(ty, -qx, 3 * (bq * bv), bq);
    lemma_abs_mul_le(tz, -qy, 3 * (bq * bv), bq);
    lemma_abs_mul_le(tz, -qx, 3 * (bq * bv), bq);
    lemma_abs_mul_le(tz, qw, 3 * (bq * bv), bq);
}

/// A nonzero quaternion has a positive squared norm, bounded by its
/// component bound.
proof fn lemma_norm2_pos(qw: int, qx: int, qy: int, qz: int, bq: int)
    by (nonlinear_arith)
    requires
        0 <= bq,
        -bq <= qw <= bq && -bq <= qx <= bq && -bq <= qy <= bq && -bq <= qz <= bq,
        !(qw == 0 && qx == 0 && qy == 0 && qz == 0),
    ensures
        0 < qw * qw + qx * qx + qy * qy + qz * qz <= 4 * bq * bq,
{
}

/// Bounds for the translate step of a transform application.
proof fn lemma_apply_bounds(
    rx: int, ry: int, rz: int, n: int, pw: int,
    tx: int, ty: int, tz: int, tw: int,
)
    requires
        -0x1_0000_0000_0000_0000 <= rx <= 0x1_0000_0000_0000_0000,
        -0x1_0000_0000_0000_0000 <= ry <= 0x1_0000_0000_0000_0000,
        -0x1_0000_0000_0000_0000 <= rz <= 0x1_0000_0000_0000_0000,
        0 < n <= 0x10_0000_0000_0000,
        0 < pw <= 0x10_0000,
        -0x1000_0000 <= tx <= 0x1000_0000 && -0x1000_0000 <= ty <= 0x1000_0000,
        -0x1000_0000 <= tz <= 0x1000_0000 && 0 < tw <= 0x1000_0000,
    ensures
        -0x2_0000_0000_0000_0000_0000_0000 <= rx * tw <= 0x2_0000_0000_0000_0000_0000_0000,
        -0x2_0000_0000_0000_0000_0000_0000 <= ry * tw <= 0x2_0000_0000_0000_0000_0000_0000,
        -0x2_0000_0000_0000_0000_0000_0000 <= rz * tw <= 0x2_0000_0000_0000_0000_0000_0000,
        -0x2_0000_0000_0000_0000_0000_0000 <= n * pw <= 0x2_0000_0000_0000_0000_0000_0000,
        -0x2_0000_0000_0000_0000_0000_0000_0000 <= n * pw * tx
            <= 0x2_0000_0000_0000_0000_0000_0000_0000,
        -0x2_0000_0000_0000_0000_0000_0000_0000 <= n * pw * ty
            <= 0x2_0000_0000_0000_0000_0000_0000_0000,
        -0x2_0000_0000_0000_0000_0000_0000_0000 <= n * pw * tz
            <= 0x2_0000_0000_0000_0000_0000_0000_0000,
        0 < n * pw * tw <= 0x2_0000_0000_0000_0000_0000_0000_0000,
{
    lemma_abs_mul_le(rx, tw, 0x1_0000_0000_0000_0000, 0x1000_0000);
    lemma_abs_mul_le(ry, tw, 0x1_0000_0000_0000_0000, 0x1000_0000);
    lemma_abs_mul_le(rz, tw, 0x1_0000_0000_0000_0000, 0x1000_0000);
    lemma_abs_mul_le(n, pw, 0x10_0000_0000_0000, 0x10_0000);
    lemma_abs_mul_le(n * pw, tx, 0x100_0000_0000_0000_0000, 0x1000_0000);
    lemma_abs_mul_le(n * pw, ty, 0x100_0000_0000_0000_0000, 0x1000_0000);
    lemma_abs_mul_le(n * pw, tz, 0x100_0000_0000_0000_0000, 0x1000_0000);
    lemma_abs_mul_le(n * pw, tw, 0x100_0000_0000_0000_0000, 0x1000_0000);
    assert(n * pw > 0) by (nonlinear_arith)
        requires n > 0 && pw > 0;
    assert(n * pw * tw > 0) by (nonlinear_arith)
        requires n * pw > 0 && tw > 0;
}

/// Bounds for a quaternion product.
proof fn lemma_qmul_bounds(
    aw: int, ax: int, ay: int, az: int,
    bw: int, bx: int, by: int, bz: int,
    ba: int, bb: int,
)
    requires
        0 <= ba && 0 <= bb,
        -ba <= aw <= ba && -ba <= ax <= ba && -ba <= ay <= ba && -ba <= az <= ba,
        -bb <= bw <= bb && -bb <= bx <= bb && -bb <= by <= bb && -bb <= bz <= bb,
    ensures
        -(ba * bb) <= aw * bw <= ba * bb && -(ba * bb) <= ax * bx <= ba * bb,
        -(ba * bb) <= ay * by <= ba * bb && -(ba * bb) <= az * bz <= ba * bb,
        -(ba * bb) <= aw * bx <= ba * bb && -(ba * bb) <= ax * bw <= ba * bb,
        -(ba * bb) <= ay * bz <= ba * bb && -(ba * bb) <= az * by <= ba * bb,
        -(ba * bb) <= aw * by <= ba * bb && -(ba * bb) <= ax * bz <= ba * bb,
        -(ba * bb) <= ay * bw <= ba * bb && -(ba * bb) <= az * bx <= ba * bb,
        -(ba * bb) <= aw * bz <= ba * bb && -(ba * bb) <= ax * by <= ba * bb,
        -(ba * bb) <= ay * bx <= ba * bb && -(ba * bb) <= az * bw <= ba * bb,
{
    lemma_abs_mul_le(aw, bw, ba, bb);
    lemma_abs_mul_le(ax, bx, ba, bb);
    lemma_abs_mul_le(ay, by, ba, bb);
    lemma_abs_mul_le(az, bz, ba, bb);
    lemma_abs_mul_le(aw, bx, ba, bb);
    lemma_abs_mul_le(ax, bw, ba, bb);
    lemma_abs_mul_le(ay, bz, ba, bb);
    lemma_abs_mul_le(az, by, ba, bb);
    lemma_abs_mul_le(aw, by, ba, bb);
    lemma_abs_mul_le(ax, bz, ba, bb);
    lemma_abs_mul_le(ay, bw, ba, bb);
    lemma_abs_mul_le(az, bx, ba, bb);
    lemma_abs_mul_le(aw, bz, ba, bb);
    lemma_abs_mul_le(ax, by, ba, bb);
    lemma_abs_mul_le(ay, bx, ba, bb);
    lemma_abs_mul_le(az, bw, ba, bb);
}

/// The inverse of a small transform stays within the bounds that
/// [`Transform::apply_point`] asks for.
proof fn lemma_inverse_small(
    qw: int, qx: int, qy: int, qz: int,
    tx: int, ty: int, tz: int, tw: int,
)
    requires
        -0x100 <= qw <= 0x100 && -0x100 <= qx <= 0x100,
        -0x100 <= qy <= 0x100 && -0x100 <= qz <= 0x100,
        -0x100 <= tx <= 0x100 && -0x100 <= ty <= 0x100,
        -0x100 <= tz <= 0x100 && 0 < tw <= 0x100,
        !(qw == 0 && qx == 0 && qy == 0 && qz == 0),
    ensures
        ({
            let inv = inverse_model(QuatModel { w: qw, x: qx, y: qy, z: qz },
                (tx, ty, tz, tw));
            &&& -0x1000_0000 <= inv.1.0 <= 0x1000_0000
            &&& -0x1000_0000 <= inv.1.1 <= 0x1000_0000
            &&& -0x1000_0000 <= inv.1.2 <= 0x1000_0000
            &&& 0 < inv.1.3 <= 0x1000_0000
        }),
{
    lemma_rot_bounds(qw, -qx, -qy, -qz, -tx, -ty, -tz, 0x100, 0x100);
    lemma_norm2_pos(qw, qx, qy, qz, 0x100);
    lemma_abs_mul_le(qw * qw + qx * qx + qy * qy + qz * qz, tw, 0x4_0000, 0x100);
    assert((qw * qw + qx * qx + qy * qy + qz * qz) * tw > 0) by (nonlinear_arith)
        requires qw * qw + qx * qx + qy * qy + qz * qz > 0 && tw > 0;
}

} // verus!
