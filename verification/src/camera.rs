use vstd::prelude::*;

use crate::distortion::CameraDistortion;
use crate::projection::CameraProjection;
use crate::scalar::Scalar;

verus! {

/// A location in image-pixel space: a column and a row coordinate.
///
/// The coordinates are continuous (`Scalar`) while unresolved and integer
/// (`u32`) once resolved by [`PixelIndex::nearest`].
#[derive(Clone, Copy, Debug)]
pub struct PixelIndex<T>(pub T, pub T);

/// The mathematical value of a camera ray: a homogeneous integer triple
/// with positive `z`, denoting the direction (x/z, y/z, 1).
pub ghost struct RayModel {
    pub x: int,
    pub y: int,
    pub z: int,
}

impl RayModel {
    pub open spec fn wf(&self) -> bool {
        self.z > 0
    }

    pub open spec fn bounded(&self, b: int) -> bool {
        -b <= self.x <= b && -b <= self.y <= b && 0 < self.z <= b
    }

    /// Same ray: equal perspective-divided coordinates.
    pub open spec fn eqv(&self, other: RayModel) -> bool {
        self.x * other.z == other.x * self.z && self.y * other.z == other.y * self.z
    }
}

/// The mathematical value of a continuous pixel location: two exact
/// fractions.
pub ghost struct PixModel {
    pub un: int,
    pub ud: int,
    pub vn: int,
    pub vd: int,
}

impl PixModel {
    pub open spec fn wf(&self) -> bool {
        self.ud > 0 && self.vd > 0
    }

    /// Same pixel location: both coordinates cross-multiply equally.
    pub open spec fn eqv(&self, other: PixModel) -> bool {
        self.un * other.ud == other.un * self.ud && self.vn * other.vd == other.vn * self.vd
    }
}

/// A normalized optical ray from the camera center, as a homogeneous
/// integer triple (x, y, z) with z > 0, denoting the direction
/// (x/z, y/z, 1).  The triple is meaningful up to a positive factor;
/// equality is [`CameraRay::eqv`].
#[derive(Clone, Copy, Debug)]
pub struct CameraRay {
    pub x: i128,
    pub y: i128,
    pub z: i128,
}

impl CameraRay {
    pub open spec fn wf(&self) -> bool {
        self.z > 0
    }

    pub open spec fn model(&self) -> RayModel {
        RayModel { x: self.x as int, y: self.y as int, z: self.z as int }
    }

    pub open spec fn bounded(&self, b: int) -> bool {
        self.model().bounded(b)
    }

    pub open spec fn eqv_spec(&self, other: &CameraRay) -> bool {
        self.model().eqv(other.model())
    }

    /// The ray toward (x, y, z); fails when z is not positive (the
    /// direction would not point in front of the camera).
    pub fn new(x: Scalar, y: Scalar, z: Scalar) -> (r: Result<CameraRay, &'static str>)
        requires
            x.wf() && y.wf() && z.wf(),
            x.bounded(0x1000) && y.bounded(0x1000) && z.bounded(0x1000),
        ensures
            match r {
                Result::Ok(ray) => {
                    &&& ray.wf()
                    &&& z.n > 0
                    &&& ray.x == x.n * y.d * z.d
                    &&& ray.y == y.n * x.d * z.d
                    &&& ray.z == z.n * x.d * y.d
                    &&& ray.bounded(0x1000_0000_0000)
                },
                Result::Err(_) => z.n <= 0,
            },
    {
        if z.n <= 0 {
            return Result::Err("ray undefined: direction does not point in front of the camera");
        }
        proof {
            lemma_clear3_bounds(x.n as int, x.d as int, y.n as int, y.d as int,
                z.n as int, z.d as int, 0x1000);
        }
        Result::Ok(CameraRay { x: x.n * y.d * z.d, y: y.n * x.d * z.d, z: z.n * x.d * y.d })
    }

    /// The ray from the camera center toward a 3D point; fails when the
    /// point is not in front of the camera (z not positive).
    pub fn from_point(p: &crate::base::Point) -> (r: Result<CameraRay, &'static str>)
        requires
            p.wf(),
        ensures
            match r {
                Result::Ok(ray) => {
                    &&& ray.wf()
                    &&& p.z > 0
                    &&& ray.x == p.x && ray.y == p.y && ray.z == p.z
                },
                Result::Err(_) => p.z <= 0,
            },
    {
        if p.z <= 0 {
            return Result::Err("point must be in front of camera");
        }
        Result::Ok(CameraRay { x: p.x, y: p.y, z: p.z })
    }

    /// The perspective-divided x coordinate, as an exact fraction.
    pub fn x(&self) -> (r: Scalar)
        requires
            self.wf(),
        ensures
            r.wf(),
            r.n == self.x && r.d == self.z,
    {
        Scalar { n: self.x, d: self.z }
    }

    /// The perspective-divided y coordinate, as an exact fraction.
    pub fn y(&self) -> (r: Scalar)
        requires
            self.wf(),
        ensures
            r.wf(),
            r.n == self.y && r.d == self.z,
    {
        Scalar { n: self.y, d: self.z }
    }

    /// Both perspective-divided coordinates.
    pub fn xy(&self) -> (r: (Scalar, Scalar))
        requires
            self.wf(),
        ensures
            r.0.wf() && r.1.wf(),
            r.0.n == self.x && r.0.d == self.z,
            r.1.n == self.y && r.1.d == self.z,
    {
        (self.x(), self.y())
    }

    /// Exact equality of the denoted directions.
    pub fn eqv(&self, other: &CameraRay) -> (r: bool)
        requires
            self.wf() && other.wf(),
            self.bounded(0x8000_0000_0000_0000),
            other.bounded(0x8000_0000_0000_0000),
        ensures
            r == self.eqv_spec(other),
    {
        proof {
            crate::base::lemma_pair_products_bounded(
                self.x as int, self.y as int, self.z as int, 1,
                other.x as int, other.y as int, other.z as int, 1,
                0x8000_0000_0000_0000, 0x8000_0000_0000_0000);
        }
        self.x * other.z == other.x * self.z && self.y * other.z == other.y * self.z
    }
}

impl PixelIndex<Scalar> {
    pub open spec fn wf(&self) -> bool {
        self.0.wf() && self.1.wf()
    }

    pub open spec fn model(&self) -> PixModel {
        PixModel {
            un: self.0.n as int,
            ud: self.0.d as int,
            vn: self.1.n as int,
            vd: self.1.d as int,
        }
    }

    pub fn x(&self) -> (r: &Scalar)
        ensures
            r == &self.0,
    {
        &self.0
    }

    pub fn y(&self) -> (r: &Scalar)
        ensures
            r == &self.1,
    {
        &self.1
    }

    /// Exact equality of the denoted pixel locations.
    pub fn eqv(&self, other: &PixelIndex<Scalar>) -> (r: bool)
        requires
            self.wf() && other.wf(),
            self.0.bounded(0x8000_0000_0000_0000),
            self.1.bounded(0x8000_0000_0000_0000),
            other.0.bounded(0x8000_0000_0000_0000),
            other.1.bounded(0x8000_0000_0000_0000),
        ensures
            r == self.model().eqv(other.model()),
    {
        self.0.eqv(&other.0) && self.1.eqv(&other.1)
    }

    /// The nearest integer pixel: each coordinate rounded to the nearest
    /// integer, ties away from zero, then clamped into the `u32` range
    /// (negative coordinates saturate to 0).
    pub fn nearest(self) -> (r: PixelIndex<u32>)
        requires
            self.wf(),
            self.0.bounded(0x1_0000_0000_0000_0000_0000_0000_0000),
            self.1.bounded(0x1_0000_0000_0000_0000_0000_0000_0000),
        ensures
            r.0 == clamp_u32(round_half_away(self.0.n as int, self.0.d as int)),
            r.1 == clamp_u32(round_half_away(self.1.n as int, self.1.d as int)),
    {
        PixelIndex(round_scalar_to_u32(&self.0), round_scalar_to_u32(&self.1))
    }
}

/// Rounding to the nearest integer, ties away from zero.
pub open spec fn round_half_away(n: int, d: int) -> int {
    if n >= 0 {
        (2 * n + d) / (2 * d)
    } else {
        -((2 * (-n) + d) / (2 * d))
    }
}

/// Clamping into the `u32` range.
pub open spec fn clamp_u32(v: int) -> int {
    if v < 0 {
        0
    } else if v > 0xFFFF_FFFF {
        0xFFFF_FFFF
    } else {
        v
    }
}

/// One rounded, clamped coordinate.
fn round_scalar_to_u32(s: &Scalar) -> (r: u32)
    requires
        s.wf(),
        s.bounded(0x1_0000_0000_0000_0000_0000_0000_0000),
    ensures
        r == clamp_u32(round_half_away(s.n as int, s.d as int)),
{
    if s.n < 0 {
        proof {
            vstd::arithmetic::div_mod::lemma_div_pos_is_pos(
                2 * (-(s.n as int)) + s.d, 2 * (s.d as int));
        }
        return 0u32;
    }
    let num = (2 * s.n) as u128;
    let den = (2 * s.d) as u128;
    let q2 = (num + (s.d as u128)) / den;
    proof {
        assert(q2 == (2 * s.n + s.d) / (2 * (s.d as int))) by {
            assert((2 * (s.n as int) + s.d) >= 0);
        };
        vstd::arithmetic::div_mod::lemma_div_pos_is_pos(2 * (s.n as int) + s.d,
            2 * (s.d as int));
    }
    if q2 > 0xFFFF_FFFF {
        0xFFFF_FFFFu32
    } else {
        q2 as u32
    }
}

/// A full optical model: one projection composed with one distortion.
///
/// `project` distorts the ray and maps it through the projection;
/// `unproject` undoes the projection alone.  Distortion generally has no
/// closed-form inverse, so the unprojected ray is the undistorted ray:
/// that asymmetry is part of this type's contract, not an approximation.
pub struct CameraModel<T, V> {
    projection: T,
    distortion: V,
}

impl<T: CameraProjection, V: CameraDistortion> CameraModel<T, V> {
    pub closed spec fn spec_projection(&self) -> T {
        self.projection
    }

    pub closed spec fn spec_distortion(&self) -> V {
        self.distortion
    }

    pub fn new(projection: T, distortion: V) -> (r: CameraModel<T, V>)
        ensures
            r.spec_projection() == projection,
            r.spec_distortion() == distortion,
    {
        CameraModel { projection, distortion }
    }

    pub fn distortion(&self) -> (r: &V)
        ensures
            r == &self.spec_distortion(),
    {
        &self.distortion
    }

    pub fn projection(&self) -> (r: &T)
        ensures
            r == &self.spec_projection(),
    {
        &self.projection
    }

    /// Distort the ray, then project it to a pixel location.
    pub fn project(&self, ray: &CameraRay) -> (r: PixelIndex<Scalar>)
        requires
            ray.wf(),
            self.spec_distortion().distort_req(ray.model()),
            self.spec_projection().project_req(
                self.spec_distortion().distort_model(ray.model())),
        ensures
            r.wf(),
            r.model() == self.spec_projection().project_model(
                self.spec_distortion().distort_model(ray.model())),
    {
        let distorted = self.distortion.distort(ray);
        self.projection.project(&distorted)
    }

    /// Undo the projection alone: the result is the undistorted ray (the
    /// distortion is not inverted; see the type's documentation).
    pub fn unproject(&self, px: &PixelIndex<Scalar>) -> (r: Result<CameraRay, &'static str>)
        requires
            px.wf(),
            self.spec_projection().unproject_req(px.model()),
        ensures
            match r {
                Result::Ok(ray) => ray.wf() && self.spec_projection().unproject_ok()
                    && ray.model() == self.spec_projection().unproject_model(px.model()),
                Result::Err(_) => !self.spec_projection().unproject_ok(),
            },
            r is Ok <==> self.spec_projection().unproject_ok(),
    {
        self.projection.unproject(px)
    }
}

/// Bounds for clearing three fractions to a homogeneous integer triple.
proof fn lemma_clear3_bounds(xn: int, xd: int, yn: int, yd: int, zn: int, zd: int, b: int)
    by (nonlinear_arith)
    requires
        0 <= b,
        -b <= xn <= b && 0 < xd <= b,
        -b <= yn <= b && 0 < yd <= b,
        0 < zn <= b && 0 < zd <= b,
    ensures
        -(b * b) <= xn * yd <= b * b && -(b * b * b) <= xn * yd * zd <= b * b * b,
        -(b * b) <= yn * xd <= b * b && -(b * b * b) <= yn * xd * zd <= b * b * b,
        0 < zn * xd <= b * b && 0 < zn * xd * yd <= b * b * b,
{
}


/// A camera: a full optical model placed in the world at a pose.
pub struct Camera<T, V> {
    model: CameraModel<T, V>,
    view: crate::transforms::Pose,
}

impl<T: CameraProjection, V: CameraDistortion> Camera<T, V> {
    pub closed spec fn spec_model(&self) -> CameraModel<T, V> {
        self.model
    }

    pub closed spec fn spec_pose(&self) -> crate::transforms::Pose {
        self.view
    }

    pub fn new(model: CameraModel<T, V>, view: crate::transforms::Pose)
        -> (r: Camera<T, V>)
        ensures
            r.spec_model() == model,
            r.spec_pose() == view,
    {
        Camera { model, view }
    }

    pub fn pose(&self) -> (r: &crate::transforms::Pose)
        ensures
            r == &self.spec_pose(),
    {
        &self.view
    }

    pub fn model(&self) -> (r: &CameraModel<T, V>)
        ensures
            r == &self.spec_model(),
    {
        &self.model
    }
}

} // verus!
