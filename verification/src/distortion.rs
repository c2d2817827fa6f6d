use vstd::prelude::*;

use crate::camera::CameraRay;
use crate::camera::RayModel;
use crate::scalar::Scalar;
use crate::scalar::lemma_abs_mul_le;

verus! {

/// A lens-distortion model: a map from an undistorted camera ray to the
/// ray a real lens would produce, in normalized-ray (not pixel) space.
pub trait CameraDistortion: Sized {
    /// The inputs on which `distort` may be called (machine bounds and
    /// the model's own well-formedness).
    spec fn distort_req(&self, ray: RayModel) -> bool;

    /// The exact homogeneous result of the distortion map.
    spec fn distort_model(&self, ray: RayModel) -> RayModel;

    fn distort(&self, ray: &CameraRay) -> (r: CameraRay)
        requires
            ray.wf(),
            self.distort_req(ray.model()),
        ensures
            r.wf(),
            r.model() == self.distort_model(ray.model()),
    ;
}

/// The identity distortion: a perfect lens.
pub struct Ideal {}

impl CameraDistortion for Ideal {
    open spec fn distort_req(&self, ray: RayModel) -> bool {
        true
    }

    /// The ray itself: `Ideal` distorts nothing.
    open spec fn distort_model(&self, ray: RayModel) -> RayModel {
        ray
    }

    fn distort(&self, ray: &CameraRay) -> (r: CameraRay)
    {
        *ray
    }
}

/// Radial-tangential (plumb-bob) distortion with radial coefficients
/// k1, k2, k3 and tangential coefficients p1, p2.
///
/// The five coefficients are stored as exact integers over one shared
/// positive denominator `den`, so the distortion map is an exact
/// polynomial on homogeneous rays.
pub struct PlumbBob {
    pub k1: i128,
    pub k2: i128,
    pub p1: i128,
    pub p2: i128,
    pub k3: i128,
    pub den: i128,
}

impl PlumbBob {
    pub open spec fn wf(&self) -> bool {
        0 < self.den <= 0x4000_0000
        && -0x4000_0000 <= self.k1 <= 0x4000_0000
        && -0x4000_0000 <= self.k2 <= 0x4000_0000
        && -0x4000_0000 <= self.p1 <= 0x4000_0000
        && -0x4000_0000 <= self.p2 <= 0x4000_0000
        && -0x4000_0000 <= self.k3 <= 0x4000_0000
    }

    /// The stored integers denote the five given coefficients.
    pub open spec fn denotes(&self, k1: Scalar, k2: Scalar, p1: Scalar, p2: Scalar,
        k3: Scalar) -> bool {
        self.k1 * k1.d == k1.n * self.den
        && self.k2 * k2.d == k2.n * self.den
        && self.p1 * p1.d == p1.n * self.den
        && self.p2 * p2.d == p2.n * self.den
        && self.k3 * k3.d == k3.n * self.den
    }


    /// The even powers used by the distortion polynomial: for the
    /// perspective-divided coordinates (x, y), the exact fractions
    /// (x^2, y^2, x y, r^2, r^4, r^6) with r^2 = x^2 + y^2.
    pub fn params(x: Scalar, y: Scalar)
        -> (r: (Scalar, Scalar, Scalar, Scalar, Scalar, Scalar))
        requires
            x.wf() && y.wf(),
            x.bounded(0x200) && y.bounded(0x200),
        ensures
            r.0.wf() && r.1.wf() && r.2.wf() && r.3.wf() && r.4.wf() && r.5.wf(),
            r.0.n == x.n * x.n && r.0.d == x.d * x.d,
            r.1.n == y.n * y.n && r.1.d == y.d * y.d,
            r.2.n == x.n * y.n && r.2.d == x.d * y.d,
            r.3.n == x.n * x.n * (y.d * y.d) + y.n * y.n * (x.d * x.d),
            r.3.d == x.d * x.d * (y.d * y.d),
            r.4.n == r.3.n * r.3.n && r.4.d == r.3.d * r.3.d,
            r.5.n == r.4.n * r.3.n && r.5.d == r.4.d * r.3.d,
    {
        proof {
            lemma_params_bounds(x.n as int, x.d as int, y.n as int, y.d as int);
        }
        let x2 = Scalar { n: x.n * x.n, d: x.d * x.d };
        let y2 = Scalar { n: y.n * y.n, d: y.d * y.d };
        let xy = Scalar { n: x.n * y.n, d: x.d * y.d };
        let r2 = Scalar { n: x2.n * y2.d + y2.n * x2.d, d: x2.d * y2.d };
        let r4 = Scalar { n: r2.n * r2.n, d: r2.d * r2.d };
        let r6 = Scalar { n: r4.n * r2.n, d: r4.d * r2.d };
        (x2, y2, xy, r2, r4, r6)
    }

    /// A plumb-bob model from its five coefficients.
    pub fn new(k1: Scalar, k2: Scalar, p1: Scalar, p2: Scalar, k3: Scalar)
        -> (r: PlumbBob)
        requires
            k1.wf() && k2.wf() && p1.wf() && p2.wf() && k3.wf(),
            k1.bounded(0x40) && k2.bounded(0x40) && p1.bounded(0x40)
                && p2.bounded(0x40) && k3.bounded(0x40),
        ensures
            r.wf(),
            r.denotes(k1, k2, p1, p2, k3),
            (r.k1 == 0) == (k1.n == 0),
            (r.k2 == 0) == (k2.n == 0),
            (r.p1 == 0) == (p1.n == 0),
            (r.p2 == 0) == (p2.n == 0),
            (r.k3 == 0) == (k3.n == 0),
    {
        proof {
            lemma_common_den(k1.n as int, k1.d as int, k2.n as int, k2.d as int,
                p1.n as int, p1.d as int, p2.n as int, p2.d as int,
                k3.n as int, k3.d as int);
        }
        let den = k1.d * k2.d * p1.d * p2.d * k3.d;
        PlumbBob {
            k1: k1.n * (k2.d * p1.d * p2.d * k3.d),
            k2: k2.n * (k1.d * p1.d * p2.d * k3.d),
            p1: p1.n * (k1.d * k2.d * p2.d * k3.d),
            p2: p2.n * (k1.d * k2.d * p1.d * k3.d),
            k3: k3.n * (k1.d * k2.d * p1.d * p2.d),
            den,
        }
    }
}

impl CameraDistortion for PlumbBob {
    open spec fn distort_req(&self, ray: RayModel) -> bool {
        self.wf() && ray.bounded(0x1000)
    }

    /// The plumb-bob map on the homogeneous ray (x, y, z), everything
    /// over the output weight `den * z^7`:
    /// with r^2 = (x^2 + y^2) / z^2,
    /// radial  = 1 + k1 r^2 + k2 r^4 + k3 r^6,
    /// tangential_x = 2 p1 xy/z^2 + p2 (r^2 + 2 x^2/z^2),
    /// tangential_y = p1 (r^2 + 2 y^2/z^2) + 2 p2 xy/z^2,
    /// the result is (radial * x/z + tangential_x,
    ///                radial * y/z + tangential_y, 1).
    open spec fn distort_model(&self, ray: RayModel) -> RayModel {
        let x2 = ray.x * ray.x;
        let y2 = ray.y * ray.y;
        let rr = x2 + y2;
        let z2 = ray.z * ray.z;
        let z4 = z2 * z2;
        let z6 = z4 * z2;
        let rr2 = rr * rr;
        let rr3 = rr2 * rr;
        let rad = self.den * z6 + self.k1 * (z4 * rr) + self.k2 * (z2 * rr2)
            + self.k3 * rr3;
        let tx = 2 * self.p1 * (ray.x * ray.y) + self.p2 * (rr + 2 * x2);
        let ty = self.p1 * (rr + 2 * y2) + 2 * self.p2 * (ray.x * ray.y);
        let z5 = z4 * ray.z;
        RayModel {
            x: rad * ray.x + tx * z5,
            y: rad * ray.y + ty * z5,
            z: self.den * (z6 * ray.z),
        }
    }

    fn distort(&self, ray: &CameraRay) -> (r: CameraRay)
    {
        proof {
            lemma_plumb_distort_bounds(self.k1 as int, self.k2 as int, self.p1 as int,
                self.p2 as int, self.k3 as int, self.den as int,
                ray.x as int, ray.y as int, ray.z as int);
        }
        let x2 = ray.x * ray.x;
        let y2 = ray.y * ray.y;
        let rr = x2 + y2;
        let z2 = ray.z * ray.z;
        let z4 = z2 * z2;
        let z6 = z4 * z2;
        let rr2 = rr * rr;
        let rr3 = rr2 * rr;
        let rad = self.den * z6 + self.k1 * (z4 * rr) + self.k2 * (z2 * rr2)
            + self.k3 * rr3;
        let tx = 2 * self.p1 * (ray.x * ray.y) + self.p2 * (rr + 2 * x2);
        let ty = self.p1 * (rr + 2 * y2) + 2 * self.p2 * (ray.x * ray.y);
        let z5 = z4 * ray.z;
        CameraRay {
            x: rad * ray.x + tx * z5,
            y: rad * ray.y + ty * z5,
            z: self.den * (z6 * ray.z),
        }
    }
}

/// A plumb-bob model with all five coefficients zero distorts nothing:
/// its result is the input ray scaled by the positive factor `den * z^6`.
pub proof fn lemma_plumb_bob_zero_identity(pb: PlumbBob, ray: RayModel)
    requires
        pb.wf(),
        ray.wf(),
        pb.k1 == 0 && pb.k2 == 0 && pb.p1 == 0 && pb.p2 == 0 && pb.k3 == 0,
    ensures
        pb.distort_model(ray).wf(),
        pb.distort_model(ray).eqv(ray),
{
    let x2 = ray.x * ray.x;
    let y2 = ray.y * ray.y;
    let rr = x2 + y2;
    let z2 = ray.z * ray.z;
    let z4 = z2 * z2;
    let z6 = z4 * z2;
    let z5 = z4 * ray.z;
    let rad = pb.den * z6;
    // All coefficient terms vanish, so the radial factor is den z^6 and
    // the tangential terms are zero.
    assert(0 * (z4 * rr) == 0) by (nonlinear_arith);
    assert(0 * (z2 * (rr * rr)) == 0) by (nonlinear_arith);
    assert(0 * ((rr * rr) * rr) == 0) by (nonlinear_arith);
    assert((2 * 0) * (ray.x * ray.y) == 0) by (nonlinear_arith);
    assert(0 * (rr + 2 * x2) == 0) by (nonlinear_arith);
    assert(0 * (rr + 2 * y2) == 0) by (nonlinear_arith);
    assert(0 * z5 == 0) by (nonlinear_arith);
    // The result is ((den z^6) x, (den z^6) y, (den z^6) z).
    assert(pb.den * (z6 * ray.z) == rad * ray.z) by (nonlinear_arith)
        requires rad == pb.den * z6;
    // Cross-multiplied equality with the input ray.
    crate::base::lemma_swap_inner(rad, ray.x, ray.z);
    crate::base::lemma_swap_inner(rad, ray.y, ray.z);
    crate::base::lemma_mul_comm(rad * ray.z, ray.x);
    crate::base::lemma_mul_comm(rad * ray.z, ray.y);
    // Positive weight.
    assert(z2 > 0) by (nonlinear_arith)
        requires z2 == ray.z * ray.z && ray.z > 0;
    assert(z4 > 0) by (nonlinear_arith)
        requires z4 == z2 * z2 && z2 > 0;
    assert(z6 > 0) by (nonlinear_arith)
        requires z6 == z4 * z2 && z4 > 0 && z2 > 0;
    assert(pb.den * (z6 * ray.z) > 0) by (nonlinear_arith)
        requires pb.den > 0 && z6 > 0 && ray.z > 0;
}

/// Common-denominator bounds for five fractions with components in
/// [-64, 64].
proof fn lemma_common_den(
    an: int, ad: int, bn: int, bd: int, cn: int, cd: int,
    dn: int, dd: int, en: int, ed: int,
)
    by (nonlinear_arith)
    requires
        -0x40 <= an <= 0x40 && 0 < ad <= 0x40,
        -0x40 <= bn <= 0x40 && 0 < bd <= 0x40,
        -0x40 <= cn <= 0x40 && 0 < cd <= 0x40,
        -0x40 <= dn <= 0x40 && 0 < dd <= 0x40,
        -0x40 <= en <= 0x40 && 0 < ed <= 0x40,
    ensures
        0 < ad * bd <= 0x1000 && 0 < ad * bd * cd <= 0x4_0000,
        0 < ad * bd * cd * dd <= 0x100_0000,
        0 < ad * bd * cd * dd * ed <= 0x4000_0000,
        0 < bd * cd <= 0x1000 && 0 < bd * cd * dd <= 0x4_0000
            && 0 < bd * cd * dd * ed <= 0x100_0000,
        0 < ad * cd <= 0x1000 && 0 < ad * cd * dd <= 0x4_0000
            && 0 < ad * cd * dd * ed <= 0x100_0000,
        0 < ad * bd * dd <= 0x4_0000 && 0 < ad * bd * dd * ed <= 0x100_0000,
        0 < ad * bd * cd * ed <= 0x100_0000,
        -0x4000_0000 <= an * (bd * cd * dd * ed) <= 0x4000_0000,
        -0x4000_0000 <= bn * (ad * cd * dd * ed) <= 0x4000_0000,
        -0x4000_0000 <= cn * (ad * bd * dd * ed) <= 0x4000_0000,
        -0x4000_0000 <= dn * (ad * bd * cd * ed) <= 0x4000_0000,
        -0x4000_0000 <= en * (ad * bd * cd * dd) <= 0x4000_0000,
        (an * (bd * cd * dd * ed)) * ad == an * (ad * bd * cd * dd * ed),
        (bn * (ad * cd * dd * ed)) * bd == bn * (ad * bd * cd * dd * ed),
        (cn * (ad * bd * dd * ed)) * cd == cn * (ad * bd * cd * dd * ed),
        (dn * (ad * bd * cd * ed)) * dd == dn * (ad * bd * cd * dd * ed),
        (en * (ad * bd * cd * dd)) * ed == en * (ad * bd * cd * dd * ed),
        (an * (bd * cd * dd * ed) == 0) == (an == 0),
        (bn * (ad * cd * dd * ed) == 0) == (bn == 0),
        (cn * (ad * bd * dd * ed) == 0) == (cn == 0),
        (dn * (ad * bd * cd * ed) == 0) == (dn == 0),
        (en * (ad * bd * cd * dd) == 0) == (en == 0),
{
}

/// Magnitude bounds for every intermediate of the plumb-bob map, for
/// coefficients within 2^30 and a ray within 2^12.
proof fn lemma_plumb_distort_bounds(
    k1: int, k2: int, p1: int, p2: int, k3: int, den: int,
    x: int, y: int, z: int,
)
    requires
        0 < den <= 0x4000_0000,
        -0x4000_0000 <= k1 <= 0x4000_0000 && -0x4000_0000 <= k2 <= 0x4000_0000,
        -0x4000_0000 <= p1 <= 0x4000_0000 && -0x4000_0000 <= p2 <= 0x4000_0000,
        -0x4000_0000 <= k3 <= 0x4000_0000,
        -0x1000 <= x <= 0x1000 && -0x1000 <= y <= 0x1000 && 0 < z <= 0x1000,
    ensures
        ({
            let x2 = x * x;
            let y2 = y * y;
            let rr = x2 + y2;
            let z2 = z * z;
            let z4 = z2 * z2;
            let z6 = z4 * z2;
            let rr2 = rr * rr;
            let rr3 = rr2 * rr;
            let rad = den * z6 + k1 * (z4 * rr) + k2 * (z2 * rr2) + k3 * rr3;
            let tx = 2 * p1 * (x * y) + p2 * (rr + 2 * x2);
            let ty = p1 * (rr + 2 * y2) + 2 * p2 * (x * y);
            let z5 = z4 * z;
            &&& 0 <= x2 <= 0x100_0000 && 0 <= y2 <= 0x100_0000
            &&& 0 < z2 <= 0x100_0000 && 0 < z4 <= 0x1_0000_0000_0000
            &&& 0 < z6 <= 0x100_0000_0000_0000_0000
            &&& 0 <= rr2 <= 0x4_0000_0000_0000
            &&& 0 <= rr3 <= 0x800_0000_0000_0000_0000
            &&& -0x200_0000_0000_0000_0000 <= z4 * rr <= 0x200_0000_0000_0000_0000
            &&& -0x400_0000_0000_0000_0000 <= z2 * rr2 <= 0x400_0000_0000_0000_0000
            &&& -0x100_0000_0000_0000_0000_0000_0000 <= den * z6
                <= 0x100_0000_0000_0000_0000_0000_0000
            &&& -0x100_0000_0000_0000_0000_0000_0000 <= k1 * (z4 * rr)
                <= 0x100_0000_0000_0000_0000_0000_0000
            &&& -0x100_0000_0000_0000_0000_0000_0000 <= k2 * (z2 * rr2)
                <= 0x100_0000_0000_0000_0000_0000_0000
            &&& -0x200_0000_0000_0000_0000_0000_0000 <= k3 * rr3
                <= 0x200_0000_0000_0000_0000_0000_0000
            &&& -0x400_0000_0000_0000_0000_0000_0000 <= rad
                <= 0x400_0000_0000_0000_0000_0000_0000
            &&& -0x100_0000 <= x * y <= 0x100_0000
            &&& -0x100_0000_0000_0000 <= (2 * p1) * (x * y) <= 0x100_0000_0000_0000
            &&& -0x100_0000_0000_0000 <= (2 * p2) * (x * y) <= 0x100_0000_0000_0000
            &&& -0x100_0000_0000_0000 <= p2 * (rr + 2 * x2) <= 0x100_0000_0000_0000
            &&& -0x100_0000_0000_0000 <= p1 * (rr + 2 * y2) <= 0x100_0000_0000_0000
            &&& -0x200_0000_0000_0000 <= tx <= 0x200_0000_0000_0000
            &&& -0x200_0000_0000_0000 <= ty <= 0x200_0000_0000_0000
            &&& 0 < z5 <= 0x1000_0000_0000_0000
            &&& -0x40_0000_0000_0000_0000_0000_0000_0000 <= rad * x
                <= 0x40_0000_0000_0000_0000_0000_0000_0000
            &&& -0x40_0000_0000_0000_0000_0000_0000_0000 <= rad * y
                <= 0x40_0000_0000_0000_0000_0000_0000_0000
            &&& -0x40_0000_0000_0000_0000_0000_0000_0000 <= tx * z5
                <= 0x40_0000_0000_0000_0000_0000_0000_0000
            &&& -0x40_0000_0000_0000_0000_0000_0000_0000 <= ty * z5
                <= 0x40_0000_0000_0000_0000_0000_0000_0000
            &&& 0 < z6 * z <= 0x10_0000_0000_0000_0000_0000
            &&& 0 < den * (z6 * z) <= 0x4_0000_0000_0000_0000_0000_0000_0000
        }),
{
    let x2 = x * x;
    let y2 = y * y;
    let rr = x2 + y2;
    let z2 = z * z;
    let z4 = z2 * z2;
    let z6 = z4 * z2;
    let rr2 = rr * rr;
    let rr3 = rr2 * rr;
    assert(0 <= x * x <= 0x100_0000 && 0 <= y * y <= 0x100_0000
        && 0 < z * z <= 0x100_0000) by (nonlinear_arith)
        requires -0x1000 <= x <= 0x1000 && -0x1000 <= y <= 0x1000 && 0 < z <= 0x1000;
    assert(0 < z2 * z2 <= 0x1_0000_0000_0000) by (nonlinear_arith)
        requires 0 < z2 <= 0x100_0000;
    assert(0 < z4 * z2 <= 0x100_0000_0000_0000_0000) by (nonlinear_arith)
        requires 0 < z4 <= 0x1_0000_0000_0000 && 0 < z2 <= 0x100_0000;
    assert(0 <= rr * rr <= 0x4_0000_0000_0000) by (nonlinear_arith)
        requires 0 <= rr <= 0x200_0000;
    assert(0 <= rr2 * rr <= 0x800_0000_0000_0000_0000) by (nonlinear_arith)
        requires 0 <= rr2 <= 0x4_0000_0000_0000 && 0 <= rr <= 0x200_0000;
    assert(0 < z4 * z <= 0x1000_0000_0000_0000) by (nonlinear_arith)
        requires 0 < z4 <= 0x1_0000_0000_0000 && 0 < z <= 0x1000;
    lemma_abs_mul_le(den, z6, 0x4000_0000, 0x100_0000_0000_0000_0000);
    lemma_abs_mul_le(z4, rr, 0x1_0000_0000_0000, 0x200_0000);
    lemma_abs_mul_le(k1, z4 * rr, 0x4000_0000, 0x200_0000_0000_0000_0000);
    lemma_abs_mul_le(z2, rr2, 0x100_0000, 0x4_0000_0000_0000);
    lemma_abs_mul_le(k2, z2 * rr2, 0x4000_0000, 0x400_0000_0000_0000_0000);
    lemma_abs_mul_le(k3, rr3, 0x4000_0000, 0x800_0000_0000_0000_0000);
    lemma_abs_mul_le(x, y, 0x1000, 0x1000);
    lemma_abs_mul_le(2 * p1, x * y, 0x8000_0000, 0x100_0000);
    lemma_abs_mul_le(p2, rr + 2 * x2, 0x4000_0000, 0x400_0000);
    lemma_abs_mul_le(p1, rr + 2 * y2, 0x4000_0000, 0x400_0000);
    lemma_abs_mul_le(2 * p2, x * y, 0x8000_0000, 0x100_0000);
    let rad = den * z6 + k1 * (z4 * rr) + k2 * (z2 * rr2) + k3 * rr3;
    let tx = 2 * p1 * (x * y) + p2 * (rr + 2 * x2);
    let ty = p1 * (rr + 2 * y2) + 2 * p2 * (x * y);
    let z5 = z4 * z;
    lemma_abs_mul_le(rad, x, 0x400_0000_0000_0000_0000_0000_0000, 0x1000);
    lemma_abs_mul_le(rad, y, 0x400_0000_0000_0000_0000_0000_0000, 0x1000);
    lemma_abs_mul_le(tx, z5, 0x200_0000_0000_0000, 0x1000_0000_0000_0000);
    lemma_abs_mul_le(ty, z5, 0x200_0000_0000_0000, 0x1000_0000_0000_0000);
    assert(0 < z6 * z <= 0x10_0000_0000_0000_0000_0000) by (nonlinear_arith)
        requires 0 < z6 <= 0x100_0000_0000_0000_0000 && 0 < z <= 0x1000;
    assert(0 < den * (z6 * z) <= 0x4_0000_0000_0000_0000_0000_0000_0000)
        by (nonlinear_arith)
        requires 0 < den <= 0x4000_0000 && 0 < z6 * z <= 0x10_0000_0000_0000_0000_0000;
}


/// Magnitude bounds for the even-power fractions of [`PlumbBob::params`].
proof fn lemma_params_bounds(xn: int, xd: int, yn: int, yd: int)
    requires
        -0x200 <= xn <= 0x200 && 0 < xd <= 0x200,
        -0x200 <= yn <= 0x200 && 0 < yd <= 0x200,
    ensures
        0 <= xn * xn <= 0x4_0000 && 0 < xd * xd <= 0x4_0000,
        0 <= yn * yn <= 0x4_0000 && 0 < yd * yd <= 0x4_0000,
        -0x4_0000 <= xn * yn <= 0x4_0000 && 0 < xd * yd <= 0x4_0000,
        -0x10_0000_0000 <= xn * xn * (yd * yd) <= 0x10_0000_0000,
        -0x10_0000_0000 <= yn * yn * (xd * xd) <= 0x10_0000_0000,
        0 < xd * xd * (yd * yd) <= 0x10_0000_0000,
        ({
            let r2n = xn * xn * (yd * yd) + yn * yn * (xd * xd);
            let r2d = xd * xd * (yd * yd);
            &&& -0x400_0000_0000_0000_0000_0000 <= r2n * r2n
                <= 0x400_0000_0000_0000_0000_0000
            &&& 0 < r2d * r2d <= 0x400_0000_0000_0000_0000_0000
            &&& -0x100_0000_0000_0000_0000_0000_0000_0000 <= (r2n * r2n) * r2n
                <= 0x100_0000_0000_0000_0000_0000_0000_0000
            &&& 0 < (r2d * r2d) * r2d <= 0x100_0000_0000_0000_0000_0000_0000_0000
        }),
{
    lemma_abs_mul_le(xn, xn, 0x200, 0x200);
    lemma_abs_mul_le(yn, yn, 0x200, 0x200);
    lemma_abs_mul_le(xn, yn, 0x200, 0x200);
    assert(0 < xd * xd <= 0x4_0000) by (nonlinear_arith)
        requires 0 < xd <= 0x200;
    assert(0 < yd * yd <= 0x4_0000) by (nonlinear_arith)
        requires 0 < yd <= 0x200;
    assert(0 < xd * yd <= 0x4_0000) by (nonlinear_arith)
        requires 0 < xd <= 0x200 && 0 < yd <= 0x200;
    assert(0 <= xn * xn) by (nonlinear_arith);
    assert(0 <= yn * yn) by (nonlinear_arith);
    lemma_abs_mul_le(xn * xn, yd * yd, 0x4_0000, 0x4_0000);
    lemma_abs_mul_le(yn * yn, xd * xd, 0x4_0000, 0x4_0000);
    assert(0 < (xd * xd) * (yd * yd) <= 0x10_0000_0000) by (nonlinear_arith)
        requires 0 < xd * xd <= 0x4_0000 && 0 < yd * yd <= 0x4_0000;
    let r2n = xn * xn * (yd * yd) + yn * yn * (xd * xd);
    let r2d = xd * xd * (yd * yd);
    lemma_abs_mul_le(r2n, r2n, 0x20_0000_0000, 0x20_0000_0000);
    assert(0 < r2d * r2d <= 0x400_0000_0000_0000_0000_0000) by (nonlinear_arith)
        requires 0 < r2d <= 0x10_0000_0000;
    lemma_abs_mul_le(r2n * r2n, r2n, 0x4000_0000_0000_0000_0000, 0x20_0000_0000);
    assert(0 < (r2d * r2d) * r2d <= 0x100_0000_0000_0000_0000_0000_0000_0000)
        by (nonlinear_arith)
        requires 0 < r2d * r2d <= 0x400_0000_0000_0000_0000_0000
            && 0 < r2d <= 0x10_0000_0000;
}

} // verus!
