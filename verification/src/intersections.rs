use vstd::prelude::*;

use crate::base::Direction;
use crate::base::Intersection;
use crate::base::Line;
use crate::base::Object;
use crate::base::Plane;
use crate::base::Point;
use crate::base::Ray;
use crate::base::lemma_dot3_bound;
use crate::base::lemma_pair_products_bounded;
use crate::scalar::lemma_abs_mul_le;

verus! {

// Intersections of lines and rays with planes.
//
// For a line P(t) = O + t D and a plane with normal N and offset E the
// parameter of the crossing is t = gap / dn with dn = D . N and
// gap = E w_O - N . O (both cleared of denominators).  dn == 0 means the
// line is parallel to the plane, gap == 0 that its origin lies in it; the
// case analysis below is exact, never approximate.

/// The dot product of a plane's normal with a direction; zero exactly
/// when the direction is parallel to the plane.
pub open spec fn dir_normal_dot(p: &Plane, d: &Direction) -> int {
    p.a * d.x + p.b * d.y + p.c * d.z
}

/// How far a point is from satisfying the plane equation (scaled by the
/// positive denominators); zero exactly when the point lies in the plane.
pub open spec fn plane_gap(p: &Plane, q: &Point) -> int {
    p.e * q.w - (p.a * q.x + p.b * q.y + p.c * q.z)
}

/// Intersect an infinite line with a plane.
///
/// Returns the whole line when it lies in the plane, nothing when it is
/// parallel and outside, and otherwise the unique crossing point.
pub fn intersect_line_plane(l: &Line, p: &Plane) -> (r: Option<Intersection>)
    requires
        l.wf(),
        p.wf(),
        l.origin.bounded(0x10_0000_0000),
        l.direction.bounded(0x10_0000_0000),
        p.bounded(0x8_0000_0000_0000),
    ensures
        match r {
            Option::Some(Intersection::Line(ll)) => ll == *l && p.contains_line_spec(l),
            Option::Some(Intersection::Point(q)) => {
                &&& q.wf()
                &&& p.contains_point_spec(&q)
                &&& l.contains_point_spec(&q)
                &&& !p.parallel_dir_spec(&l.direction)
                &&& q.bounded(0x4000_0000_0000_0000_0000_0000_0000_0000)
            },
            Option::Some(Intersection::Ray(_)) => false,
            Option::None => p.parallel_dir_spec(&l.direction)
                && !p.contains_point_spec(&l.origin),
        },
        r is Some <==> (!p.parallel_dir_spec(&l.direction)
            || p.contains_point_spec(&l.origin)),
{
    let (dn, gap) = plane_line_params(l.origin, l.direction, p);
    if dn == 0 {
        if gap == 0 {
            Option::Some(Intersection::Line(*l))
        } else {
            Option::None
        }
    } else {
        let q = line_plane_hit_point(l.origin, l.direction, p, dn, gap);
        Option::Some(Intersection::Point(q))
    }
}

/// Intersect a ray with a plane.
///
/// Returns the whole ray when it lies in the plane, its origin when only
/// the origin touches the plane, the unique forward crossing point when
/// there is one, and nothing when the plane is behind the ray or parallel
/// to it.
#[verifier::rlimit(40)]
pub fn intersect_ray_plane(ray: &Ray, p: &Plane) -> (r: Option<Intersection>)
    requires
        ray.wf(),
        p.wf(),
        ray.origin.bounded(0x10_0000_0000),
        ray.direction.bounded(0x10_0000_0000),
        p.bounded(0x8_0000_0000_0000),
    ensures
        ray_plane_post(ray, p, r),
        r is Some <==> (p.contains_point_spec(&ray.origin)
            || (!p.parallel_dir_spec(&ray.direction)
                && plane_gap(p, &ray.origin) * dir_normal_dot(p, &ray.direction) > 0)),
{
    let (dn, gap) = plane_line_params(ray.origin, ray.direction, p);
    if gap == 0 {
        if dn == 0 {
            Option::Some(Intersection::Ray(*ray))
        } else {
            Option::Some(Intersection::Point(ray.origin))
        }
    } else {
        if dn == 0 {
            proof {
                lemma_mul_sign_zero(gap as int, dn as int);
            }
            Option::None
        } else if (gap > 0 && dn > 0) || (gap < 0 && dn < 0) {
            proof {
                lemma_mul_sign(gap as int, dn as int);
            }
            let q = line_plane_hit_point(ray.origin, ray.direction, p, dn, gap);
            proof {
                lemma_hit_point_forward(ray.origin.x as int, ray.origin.y as int,
                    ray.origin.z as int, ray.origin.w as int,
                    ray.direction.x as int, ray.direction.y as int,
                    ray.direction.z as int, dn as int, gap as int);
            }
            Option::Some(Intersection::Point(q))
        } else {
            proof {
                lemma_mul_sign(gap as int, dn as int);
            }
            Option::None
        }
    }
}

/// Intersect two geometric primitives.
///
/// Only line-plane and ray-plane pairs (in either order) are supported;
/// every other combination yields nothing.
pub fn intersect(a: Object, b: Object) -> (r: Option<Intersection>)
    requires
        intersect_req(&a, &b),
    ensures
        match (a, b) {
            (Object::Line(l), Object::Plane(p)) => line_plane_post(&l, &p, &r),
            (Object::Plane(p), Object::Line(l)) => line_plane_post(&l, &p, &r),
            (Object::Ray(ray), Object::Plane(p)) => ray_plane_post(&ray, &p, r),
            (Object::Plane(p), Object::Ray(ray)) => ray_plane_post(&ray, &p, r),
            _ => r is None,
        },
{
    match (a, b) {
        (Object::Line(l), Object::Plane(p)) => intersect_line_plane(&l, &p),
        (Object::Plane(p), Object::Line(l)) => intersect_line_plane(&l, &p),
        (Object::Ray(ray), Object::Plane(p)) => intersect_ray_plane(&ray, &p),
        (Object::Plane(p), Object::Ray(ray)) => intersect_ray_plane(&ray, &p),
        _ => Option::None,
    }
}

/// Input bounds for [`intersect`], on the pairs it supports.
pub open spec fn intersect_req(a: &Object, b: &Object) -> bool {
    match (a, b) {
        (Object::Line(l), Object::Plane(p)) => pair_req(l.origin, l.direction, *p) && l.wf()
            && p.wf(),
        (Object::Plane(p), Object::Line(l)) => pair_req(l.origin, l.direction, *p) && l.wf()
            && p.wf(),
        (Object::Ray(ray), Object::Plane(p)) => pair_req(ray.origin, ray.direction, *p)
            && ray.wf() && p.wf(),
        (Object::Plane(p), Object::Ray(ray)) => pair_req(ray.origin, ray.direction, *p)
            && ray.wf() && p.wf(),
        _ => true,
    }
}

pub open spec fn pair_req(origin: Point, direction: Direction, p: Plane) -> bool {
    origin.bounded(0x10_0000_0000) && direction.bounded(0x10_0000_0000)
        && p.bounded(0x8_0000_0000_0000)
}

/// What [`intersect_line_plane`] guarantees, for reuse by [`intersect`].
pub open spec fn line_plane_post(l: &Line, p: &Plane, r: &Option<Intersection>) -> bool {
    match r {
        Option::Some(Intersection::Line(ll)) => ll == l && p.contains_line_spec(l),
        Option::Some(Intersection::Point(q)) => q.wf() && p.contains_point_spec(&q)
            && l.contains_point_spec(&q) && !p.parallel_dir_spec(&l.direction),
        Option::Some(Intersection::Ray(_)) => false,
        Option::None => p.parallel_dir_spec(&l.direction)
            && !p.contains_point_spec(&l.origin),
    }
}

/// Everything [`intersect_ray_plane`] guarantees of its result.
pub open spec fn ray_plane_post(ray: &Ray, p: &Plane, r: Option<Intersection>) -> bool {
    match r {
        Option::Some(Intersection::Ray(rr)) => rr == *ray && p.contains_ray_spec(ray),
        Option::Some(Intersection::Point(q)) => q.wf() && p.contains_point_spec(&q)
            && ray.contains_point_spec(&q) && !p.contains_ray_spec(ray)
            && q.bounded(0x4000_0000_0000_0000_0000_0000_0000_0000),
        Option::Some(Intersection::Line(_)) => false,
        Option::None => !p.contains_point_spec(&ray.origin)
            && (p.parallel_dir_spec(&ray.direction)
                || plane_gap(p, &ray.origin) * dir_normal_dot(p, &ray.direction) < 0),
    }
}

/// Compute `dn` and `gap` for a line (or ray) against a plane.
fn plane_line_params(origin: Point, direction: Direction, p: &Plane) -> (r: (i128, i128))
    requires
        origin.wf(),
        origin.bounded(0x10_0000_0000),
        direction.bounded(0x10_0000_0000),
        p.bounded(0x8_0000_0000_0000),
    ensures
        r.0 == dir_normal_dot(p, &direction),
        r.1 == plane_gap(p, &origin),
        -0x200_0000_0000_0000_0000_0000 <= r.0 <= 0x200_0000_0000_0000_0000_0000,
        -0x200_0000_0000_0000_0000_0000 <= r.1 <= 0x200_0000_0000_0000_0000_0000,
        (r.0 == 0) == p.parallel_dir_spec(&direction),
        (r.1 == 0) == p.contains_point_spec(&origin),
{
    proof {
        lemma_dot3_bound(p.a as int, p.b as int, p.c as int,
            direction.x as int, direction.y as int, direction.z as int,
            0x8_0000_0000_0000, 0x10_0000_0000);
        lemma_dot3_bound(p.a as int, p.b as int, p.c as int,
            origin.x as int, origin.y as int, origin.z as int,
            0x8_0000_0000_0000, 0x10_0000_0000);
        lemma_abs_mul_le(p.e as int, origin.w as int, 0x8_0000_0000_0000, 0x10_0000_0000);
    }
    let dn = p.a * direction.x + p.b * direction.y + p.c * direction.z;
    let gap = p.e * origin.w - (p.a * origin.x + p.b * origin.y + p.c * origin.z);
    (dn, gap)
}

/// The crossing point of a non-parallel line with a plane, with a positive
/// homogeneous weight.
fn line_plane_hit_point(origin: Point, direction: Direction, p: &Plane, dn: i128, gap: i128)
    -> (q: Point)
    requires
        origin.wf(),
        origin.bounded(0x10_0000_0000),
        direction.bounded(0x10_0000_0000),
        p.bounded(0x8_0000_0000_0000),
        dn == dir_normal_dot(p, &direction),
        gap == plane_gap(p, &origin),
        dn != 0,
    ensures
        q.wf(),
        p.contains_point_spec(&q),
        (Line { origin, direction }).contains_point_spec(&q),
        q.bounded(0x4000_0000_0000_0000_0000_0000_0000_0000),
        hit_point_shape(&q, &origin, &direction, dn as int, gap as int),
{
    proof {
        lemma_dot3_bound(p.a as int, p.b as int, p.c as int,
            direction.x as int, direction.y as int, direction.z as int,
            0x8_0000_0000_0000, 0x10_0000_0000);
        lemma_dot3_bound(p.a as int, p.b as int, p.c as int,
            origin.x as int, origin.y as int, origin.z as int,
            0x8_0000_0000_0000, 0x10_0000_0000);
        lemma_abs_mul_le(p.e as int, origin.w as int, 0x8_0000_0000_0000, 0x10_0000_0000);
        lemma_pair_products_bounded(origin.x as int, origin.y as int, origin.z as int,
            origin.w as int, dn as int, gap as int, 1, 1,
            0x10_0000_0000, 0x200_0000_0000_0000_0000_0000);
        lemma_pair_products_bounded(direction.x as int, direction.y as int,
            direction.z as int, 1, dn as int, gap as int, 1, 1,
            0x10_0000_0000, 0x200_0000_0000_0000_0000_0000);
    }
    let hx = origin.x * dn + direction.x * gap;
    let hy = origin.y * dn + direction.y * gap;
    let hz = origin.z * dn + direction.z * gap;
    let hw = origin.w * dn;
    proof {
        lemma_hit_point_on_plane(p.a as int, p.b as int, p.c as int, p.e as int,
            origin.x as int, origin.y as int, origin.z as int, origin.w as int,
            direction.x as int, direction.y as int, direction.z as int);
        lemma_hit_point_on_line(origin.x as int, origin.y as int, origin.z as int,
            origin.w as int, direction.x as int, direction.y as int, direction.z as int,
            dn as int, gap as int);
        lemma_mul_sign(origin.w as int, dn as int);
    }
    if dn > 0 {
        Point { x: hx, y: hy, z: hz, w: hw }
    } else {
        proof {
            lemma_neg_point_specs(p.a as int, p.b as int, p.c as int, p.e as int,
                origin.x as int, origin.y as int, origin.z as int, origin.w as int,
                direction.x as int, direction.y as int, direction.z as int,
                hx as int, hy as int, hz as int, hw as int);
        }
        Point { x: -hx, y: -hy, z: -hz, w: -hw }
    }
}

/// The shape of the crossing point: the line point at parameter
/// `gap / dn`, possibly negated so that the weight stays positive.
pub open spec fn hit_point_shape(
    q: &Point, origin: &Point, direction: &Direction, dn: int, gap: int,
) -> bool {
    if dn > 0 {
        q.x == origin.x * dn + direction.x * gap
        && q.y == origin.y * dn + direction.y * gap
        && q.z == origin.z * dn + direction.z * gap
        && q.w == origin.w * dn
    } else {
        q.x == -(origin.x * dn + direction.x * gap)
        && q.y == -(origin.y * dn + direction.y * gap)
        && q.z == -(origin.z * dn + direction.z * gap)
        && q.w == -(origin.w * dn)
    }
}

// ---------------------------------------------------------------------------
// Proof support.

/// Signs of a product of two nonzero factors.
proof fn lemma_mul_sign(a: int, b: int)
    by (nonlinear_arith)
    ensures
        (a > 0 && b > 0) ==> a * b > 0,
        (a < 0 && b < 0) ==> a * b > 0,
        (a > 0 && b < 0) ==> a * b < 0,
        (a < 0 && b > 0) ==> a * b < 0,
        (a > 0 && b >= 0) ==> a * b >= 0,
{
}

/// A product with a zero factor vanishes.
proof fn lemma_mul_sign_zero(a: int, b: int)
    by (nonlinear_arith)
    ensures
        b == 0 ==> a * b == 0,
        a == 0 ==> a * b == 0,
{
}

/// The hit point satisfies the plane equation:
/// `N . (O dn + D gap) = (N . O) dn + dn gap = (E w - gap) dn + dn gap = E w dn`.
proof fn lemma_hit_point_on_plane(
    pa: int, pb: int, pc: int, pe: int,
    ox: int, oy: int, oz: int, ow: int,
    dx: int, dy: int, dz: int,
)
    ensures
        ({
            let dn = pa * dx + pb * dy + pc * dz;
            let gap = pe * ow - (pa * ox + pb * oy + pc * oz);
            pa * (ox * dn + dx * gap) + pb * (oy * dn + dy * gap)
                + pc * (oz * dn + dz * gap) == pe * (ow * dn)
        }),
{
    let dn = pa * dx + pb * dy + pc * dz;
    let gap = pe * ow - (pa * ox + pb * oy + pc * oz);
    crate::base::lemma_distribute2(pa, ox * dn, dx * gap);
    crate::base::lemma_distribute2(pb, oy * dn, dy * gap);
    crate::base::lemma_distribute2(pc, oz * dn, dz * gap);
    crate::base::lemma_mul_reassoc(pa, ox, dn);
    crate::base::lemma_mul_reassoc(pb, oy, dn);
    crate::base::lemma_mul_reassoc(pc, oz, dn);
    crate::base::lemma_mul_reassoc(pa, dx, gap);
    crate::base::lemma_mul_reassoc(pb, dy, gap);
    crate::base::lemma_mul_reassoc(pc, dz, gap);
    crate::base::lemma_distribute3(pa * ox, pb * oy, pc * oz, dn);
    crate::base::lemma_distribute3(pa * dx, pb * dy, pc * dz, gap);
    // (N . O) dn == (E ow - gap) dn and dn * gap == gap * dn.
    crate::base::lemma_distribute2(dn, pe * ow, gap);
    crate::base::lemma_mul_comm(dn, gap);
    crate::base::lemma_mul_reassoc(pe, ow, dn);
}

/// The offset from the line origin to the hit point is the direction
/// scaled by `gap * ow`, so the hit point lies on the line.
proof fn lemma_hit_point_on_line(
    ox: int, oy: int, oz: int, ow: int,
    dx: int, dy: int, dz: int,
    dn: int, gap: int,
)
    ensures
        ({
            let hx = ox * dn + dx * gap;
            let hy = oy * dn + dy * gap;
            let hz = oz * dn + dz * gap;
            let hw = ow * dn;
            let ux = hx * ow - ox * hw;
            let uy = hy * ow - oy * hw;
            let uz = hz * ow - oz * hw;
            uy * dz == uz * dy && uz * dx == ux * dz && ux * dy == uy * dx
        }),
{
    let hx = ox * dn + dx * gap;
    let hy = oy * dn + dy * gap;
    let hz = oz * dn + dz * gap;
    let hw = ow * dn;
    // Each offset component is d_i * (gap * ow).
    lemma_offset_component(ox, dx, ow, dn, gap);
    lemma_offset_component(oy, dy, ow, dn, gap);
    lemma_offset_component(oz, dz, ow, dn, gap);
    assert(hx * ow - ox * hw == dx * (gap * ow));
    assert(hy * ow - oy * hw == dy * (gap * ow));
    assert(hz * ow - oz * hw == dz * (gap * ow));
    crate::base::lemma_swap_scaled(dy, dz, gap * ow);
    crate::base::lemma_swap_scaled(dz, dx, gap * ow);
    crate::base::lemma_swap_scaled(dx, dy, gap * ow);
}

/// One component of the hit-point offset:
/// `(o dn + d gap) ow - o (ow dn) == d (gap ow)`.
proof fn lemma_offset_component(o: int, d: int, ow: int, dn: int, gap: int)
    ensures
        (o * dn + d * gap) * ow - o * (ow * dn) == d * (gap * ow),
{
    crate::base::lemma_distribute2(ow, o * dn, d * gap);
    assert((o * dn + d * gap) * ow == ow * (o * dn) + ow * (d * gap))
        by (nonlinear_arith);
    assert(ow * (o * dn) == o * (ow * dn)) by (nonlinear_arith);
    assert(ow * (d * gap) == d * (gap * ow)) by (nonlinear_arith);
}

/// When `gap` and `dn` have the same sign, the hit point lies forward
/// along the ray: the offset dot the direction is nonnegative.
proof fn lemma_hit_point_forward(
    ox: int, oy: int, oz: int, ow: int,
    dx: int, dy: int, dz: int,
    dn: int, gap: int,
)
    requires
        ow > 0,
        gap * dn > 0,
        dn != 0,
    ensures
        ({
            let q = hit_point_tuple(ox, oy, oz, ow, dx, dy, dz, dn, gap);
            let ux = q.0 * ow - ox * q.3;
            let uy = q.1 * ow - oy * q.3;
            let uz = q.2 * ow - oz * q.3;
            ux * dx + uy * dy + uz * dz >= 0
        }),
{
    lemma_offset_component(ox, dx, ow, dn, gap);
    lemma_offset_component(oy, dy, ow, dn, gap);
    lemma_offset_component(oz, dz, ow, dn, gap);
    lemma_self_dot_sign(dx, dy, dz, gap * ow);
    if dn > 0 {
        assert(gap > 0) by (nonlinear_arith)
            requires gap * dn > 0 && dn > 0;
        assert(gap * ow > 0) by (nonlinear_arith)
            requires gap > 0 && ow > 0;
    } else {
        assert(gap < 0) by (nonlinear_arith)
            requires gap * dn > 0 && dn < 0;
        assert(gap * ow < 0) by (nonlinear_arith)
            requires gap < 0 && ow > 0;
        // The sign-normalized tuple negates every component; rewrite each
        // offset as the negation of the direction scaled by gap * ow.
        crate::base::lemma_mul_neg(ox * dn + dx * gap, ow);
        crate::base::lemma_mul_neg(oy * dn + dy * gap, ow);
        crate::base::lemma_mul_neg(oz * dn + dz * gap, ow);
        crate::base::lemma_mul_neg(ox, ow * dn);
        crate::base::lemma_mul_neg(oy, ow * dn);
        crate::base::lemma_mul_neg(oz, ow * dn);
        crate::base::lemma_mul_neg(dx * (gap * ow), dx);
        crate::base::lemma_mul_neg(dy * (gap * ow), dy);
        crate::base::lemma_mul_neg(dz * (gap * ow), dz);
    }
}

/// The homogeneous hit-point tuple, sign-normalized.
pub open spec fn hit_point_tuple(
    ox: int, oy: int, oz: int, ow: int,
    dx: int, dy: int, dz: int,
    dn: int, gap: int,
) -> (int, int, int, int) {
    if dn > 0 {
        (ox * dn + dx * gap, oy * dn + dy * gap, oz * dn + dz * gap, ow * dn)
    } else {
        (-(ox * dn + dx * gap), -(oy * dn + dy * gap), -(oz * dn + dz * gap), -(ow * dn))
    }
}

/// The dot product of a direction with itself scaled by `m` has the sign
/// of `m`.
proof fn lemma_self_dot_sign(dx: int, dy: int, dz: int, m: int)
    by (nonlinear_arith)
    ensures
        m >= 0 ==> (dx * m) * dx + (dy * m) * dy + (dz * m) * dz >= 0,
        m <= 0 ==> (dx * m) * dx + (dy * m) * dy + (dz * m) * dz <= 0,
        m >= 0 ==> dx * m * dx + dy * m * dy + dz * m * dz >= 0,
        m <= 0 ==> dx * m * dx + dy * m * dy + dz * m * dz <= 0,
{
}

/// Negating a homogeneous point tuple preserves the plane equation and
/// the on-line cross conditions.
proof fn lemma_neg_point_specs(
    pa: int, pb: int, pc: int, pe: int,
    ox: int, oy: int, oz: int, ow: int,
    dx: int, dy: int, dz: int,
    hx: int, hy: int, hz: int, hw: int,
)
    requires
        pa * hx + pb * hy + pc * hz == pe * hw,
        (hy * ow - oy * hw) * dz == (hz * ow - oz * hw) * dy,
        (hz * ow - oz * hw) * dx == (hx * ow - ox * hw) * dz,
        (hx * ow - ox * hw) * dy == (hy * ow - oy * hw) * dx,
    ensures
        pa * (-hx) + pb * (-hy) + pc * (-hz) == pe * (-hw),
        ((-hy) * ow - oy * (-hw)) * dz == ((-hz) * ow - oz * (-hw)) * dy,
        ((-hz) * ow - oz * (-hw)) * dx == ((-hx) * ow - ox * (-hw)) * dz,
        ((-hx) * ow - ox * (-hw)) * dy == ((-hy) * ow - oy * (-hw)) * dx,
{
    crate::base::lemma_mul_neg(pa, hx);
    crate::base::lemma_mul_neg(pb, hy);
    crate::base::lemma_mul_neg(pc, hz);
    crate::base::lemma_mul_neg(pe, hw);
    crate::base::lemma_mul_neg(hy, ow);
    crate::base::lemma_mul_neg(hz, ow);
    crate::base::lemma_mul_neg(hx, ow);
    crate::base::lemma_mul_neg(oy, hw);
    crate::base::lemma_mul_neg(oz, hw);
    crate::base::lemma_mul_neg(ox, hw);
    crate::base::lemma_mul_neg(hy * ow - oy * hw, dz);
    crate::base::lemma_mul_neg(hz * ow - oz * hw, dy);
    crate::base::lemma_mul_neg(hz * ow - oz * hw, dx);
    crate::base::lemma_mul_neg(hx * ow - ox * hw, dz);
    crate::base::lemma_mul_neg(hx * ow - ox * hw, dy);
    crate::base::lemma_mul_neg(hy * ow - oy * hw, dx);
}

} // verus!
