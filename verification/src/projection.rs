use vstd::prelude::*;

use crate::camera::CameraRay;
use crate::camera::PixModel;
use crate::camera::PixelIndex;
use crate::camera::RayModel;
use crate::scalar::Scalar;
use crate::scalar::lemma_abs_mul_le;

verus! {

/// A projection model: the exact map between a camera ray and a
/// continuous pixel location, governed by the intrinsic parameters
/// fx, fy (focal lengths), cx, cy (principal point) and skew.
pub trait CameraProjection: Sized {
    /// The inputs on which `project` may be called (machine bounds and
    /// the model's own well-formedness).
    spec fn project_req(&self, ray: RayModel) -> bool;

    /// The exact pixel location that the ray projects to.
    spec fn project_model(&self, ray: RayModel) -> PixModel;

    /// The inputs on which `unproject` may be called.
    spec fn unproject_req(&self, px: PixModel) -> bool;

    /// Whether unprojection is defined at all (both focal lengths
    /// nonzero); when it is not, `unproject` reports a configuration
    /// error instead of dividing by zero.
    spec fn unproject_ok(&self) -> bool;

    /// The exact ray that the pixel location unprojects to.
    spec fn unproject_model(&self, px: PixModel) -> RayModel;

    fn project(&self, ray: &CameraRay) -> (r: PixelIndex<Scalar>)
        requires
            ray.wf(),
            self.project_req(ray.model()),
        ensures
            r.wf(),
            r.model() == self.project_model(ray.model()),
    ;

    fn unproject(&self, px: &PixelIndex<Scalar>) -> (r: Result<CameraRay, &'static str>)
        requires
            px.wf(),
            self.unproject_req(px.model()),
        ensures
            match r {
                Result::Ok(ray) => ray.wf() && self.unproject_ok()
                    && ray.model() == self.unproject_model(px.model()),
                Result::Err(_) => !self.unproject_ok(),
            },
            r is Ok <==> self.unproject_ok(),
    ;
}

/// Linear (pinhole) camera intrinsics, each parameter an exact fraction.
#[derive(Clone, Copy, Debug)]
pub struct Pinhole {
    pub fx: Scalar,
    pub fy: Scalar,
    pub cx: Scalar,
    pub cy: Scalar,
    pub skew: Scalar,
}

impl Pinhole {
    pub open spec fn wf(&self) -> bool {
        self.fx.wf() && self.fy.wf() && self.cx.wf() && self.cy.wf() && self.skew.wf()
    }

    pub open spec fn params_bounded(&self, b: int) -> bool {
        self.fx.bounded(b) && self.fy.bounded(b) && self.cx.bounded(b)
        && self.cy.bounded(b) && self.skew.bounded(b)
    }

    pub fn new(fx: Scalar, fy: Scalar, cx: Scalar, cy: Scalar, skew: Scalar)
        -> (r: Pinhole)
        ensures
            r.fx == fx && r.fy == fy && r.cx == cx && r.cy == cy && r.skew == skew,
    {
        Pinhole { fx, fy, cx, cy, skew }
    }

    /// Intrinsics for an image of the given resolution whose horizontal
    /// and vertical fields of view have the given half-angle tangents:
    /// fx = width / (2 tx), fy = height / (2 ty), the principal point at
    /// the image center, no skew.  Fails when a tangent is zero.
    pub fn from_resolution_tan(resolution: (u32, u32), half_fov_tan: (Scalar, Scalar))
        -> (r: Result<Pinhole, &'static str>)
        requires
            half_fov_tan.0.wf() && half_fov_tan.1.wf(),
            half_fov_tan.0.bounded(0x40) && half_fov_tan.1.bounded(0x40),
            resolution.0 <= 0x400 && resolution.1 <= 0x400,
        ensures
            match r {
                Result::Ok(ph) => {
                    &&& ph.wf()
                    &&& ph.params_bounded(0x1_0000)
                    &&& fx_denotes(ph.fx, resolution.0 as int, half_fov_tan.0)
                    &&& fx_denotes(ph.fy, resolution.1 as int, half_fov_tan.1)
                    &&& ph.cx.n == resolution.0 && ph.cx.d == 2
                    &&& ph.cy.n == resolution.1 && ph.cy.d == 2
                    &&& ph.skew.n == 0 && ph.skew.d == 1
                },
                Result::Err(_) => half_fov_tan.0.n == 0 || half_fov_tan.1.n == 0,
            },
    {
        let (width, height) = resolution;
        let (tx, ty) = half_fov_tan;
        if tx.n == 0 || ty.n == 0 {
            return Result::Err("field of view undefined: zero half-angle tangent");
        }
        let fx = focal_from_tan(width, tx);
        let fy = focal_from_tan(height, ty);
        Result::Ok(Pinhole {
            fx,
            fy,
            cx: Scalar { n: width as i128, d: 2 },
            cy: Scalar { n: height as i128, d: 2 },
            skew: Scalar { n: 0, d: 1 },
        })
    }
}

/// `f` is the fraction `extent / (2 t)`: cross-multiplied,
/// `f.n * (2 t.n) == extent * t.d * f.d`.
pub open spec fn fx_denotes(f: Scalar, extent: int, t: Scalar) -> bool {
    f.n * (2 * t.n) == (extent * t.d) * f.d
}

/// The focal length `extent / (2 t)`, brought to a positive denominator.
fn focal_from_tan(extent: u32, t: Scalar) -> (r: Scalar)
    requires
        t.wf(),
        t.bounded(0x40),
        t.n != 0,
        extent <= 0x400,
    ensures
        r.wf(),
        r.bounded(0x1_0000),
        fx_denotes(r, extent as int, t),
{
    proof {
        lemma_abs_mul_le(extent as int, t.d as int, 0x400, 0x40);
    }
    if t.n > 0 {
        Scalar { n: (extent as i128) * t.d, d: 2 * t.n }
    } else {
        proof {
            crate::base::lemma_mul_neg((extent as i128 * t.d) as int, 2 * (t.n as int));
        }
        Scalar { n: -((extent as i128) * t.d), d: -(2 * t.n) }
    }
}

impl CameraProjection for Pinhole {
    open spec fn project_req(&self, ray: RayModel) -> bool {
        self.wf() && self.params_bounded(0x1_0000) && ray.wf()
        && ray.bounded(0x1000_0000_0000_0000_0000)
    }

    /// u = fx x/z + skew y/z + cx and v = fy y/z + cy, as exact
    /// fractions over the denominators fx.d skew.d cx.d z and
    /// fy.d cy.d z.
    open spec fn project_model(&self, ray: RayModel) -> PixModel {
        PixModel {
            un: self.fx.n * ray.x * self.skew.d * self.cx.d
                + self.skew.n * ray.y * self.fx.d * self.cx.d
                + self.cx.n * ray.z * self.fx.d * self.skew.d,
            ud: self.fx.d * self.skew.d * self.cx.d * ray.z,
            vn: self.fy.n * ray.y * self.cy.d + self.cy.n * ray.z * self.fy.d,
            vd: self.fy.d * self.cy.d * ray.z,
        }
    }

    open spec fn unproject_req(&self, px: PixModel) -> bool {
        self.wf() && self.params_bounded(0x1_0000) && px.wf()
        && -0x1_0000 <= px.un <= 0x1_0000 && px.ud <= 0x1_0000
        && -0x1_0000 <= px.vn <= 0x1_0000 && px.vd <= 0x1_0000
    }

    open spec fn unproject_ok(&self) -> bool {
        self.fx.n != 0 && self.fy.n != 0
    }

    /// The inverse of the linear map: y/z = (v - cy) / fy and
    /// x/z = (u - cx - skew (y/z)) / fx, as one homogeneous triple with
    /// the weight's sign normalized to be positive.
    open spec fn unproject_model(&self, px: PixModel) -> RayModel {
        let ny = (px.vn * self.cy.d - self.cy.n * px.vd) * self.fy.d;
        let dy = px.vd * self.cy.d * self.fy.n;
        let nx = ((px.un * self.cx.d - self.cx.n * px.ud) * self.skew.d * dy
            - self.skew.n * ny * px.ud * self.cx.d) * self.fx.d;
        let k = px.ud * self.cx.d * self.skew.d * self.fx.n;
        let zz = k * dy;
        if zz > 0 {
            RayModel { x: nx, y: ny * k, z: zz }
        } else {
            RayModel { x: -nx, y: -(ny * k), z: -zz }
        }
    }

    fn project(&self, ray: &CameraRay) -> (r: PixelIndex<Scalar>)
    {
        proof {
            lemma_project_bounds(self.fx.n as int, self.fx.d as int, self.skew.n as int,
                self.skew.d as int, self.cx.n as int, self.cx.d as int,
                self.fy.n as int, self.fy.d as int, self.cy.n as int, self.cy.d as int,
                ray.x as int, ray.y as int, ray.z as int);
        }
        let un = self.fx.n * ray.x * self.skew.d * self.cx.d
            + self.skew.n * ray.y * self.fx.d * self.cx.d
            + self.cx.n * ray.z * self.fx.d * self.skew.d;
        let ud = self.fx.d * self.skew.d * self.cx.d * ray.z;
        let vn = self.fy.n * ray.y * self.cy.d + self.cy.n * ray.z * self.fy.d;
        let vd = self.fy.d * self.cy.d * ray.z;
        PixelIndex(Scalar { n: un, d: ud }, Scalar { n: vn, d: vd })
    }

    fn unproject(&self, px: &PixelIndex<Scalar>) -> (r: Result<CameraRay, &'static str>)
    {
        if self.fx.n == 0 || self.fy.n == 0 {
            return Result::Err("cannot unproject: a focal length is zero");
        }
        proof {
            lemma_unproject_bounds(self.fx.n as int, self.fx.d as int,
                self.skew.n as int, self.skew.d as int, self.cx.n as int,
                self.cx.d as int, self.fy.n as int, self.fy.d as int,
                self.cy.n as int, self.cy.d as int, px.0.n as int, px.0.d as int,
                px.1.n as int, px.1.d as int);
        }
        let ny = (px.1.n * self.cy.d - self.cy.n * px.1.d) * self.fy.d;
        let dy = px.1.d * self.cy.d * self.fy.n;
        let nx = ((px.0.n * self.cx.d - self.cx.n * px.0.d) * self.skew.d * dy
            - self.skew.n * ny * px.0.d * self.cx.d) * self.fx.d;
        let k = px.0.d * self.cx.d * self.skew.d * self.fx.n;
        let zz = k * dy;
        if zz > 0 {
            Result::Ok(CameraRay { x: nx, y: ny * k, z: zz })
        } else {
            Result::Ok(CameraRay { x: -nx, y: -(ny * k), z: -zz })
        }
    }
}

/// Magnitude bounds for the pinhole projection formulas.
proof fn lemma_project_bounds(
    fn_: int, fd: int, sn: int, sd: int, cn: int, cd: int,
    gn: int, gd: int, en: int, ed: int,
    x: int, y: int, z: int,
)
    requires
        -0x1_0000 <= fn_ <= 0x1_0000 && 0 < fd <= 0x1_0000,
        -0x1_0000 <= sn <= 0x1_0000 && 0 < sd <= 0x1_0000,
        -0x1_0000 <= cn <= 0x1_0000 && 0 < cd <= 0x1_0000,
        -0x1_0000 <= gn <= 0x1_0000 && 0 < gd <= 0x1_0000,
        -0x1_0000 <= en <= 0x1_0000 && 0 < ed <= 0x1_0000,
        -0x1000_0000_0000_0000_0000 <= x <= 0x1000_0000_0000_0000_0000,
        -0x1000_0000_0000_0000_0000 <= y <= 0x1000_0000_0000_0000_0000,
        0 < z <= 0x1000_0000_0000_0000_0000,
    ensures
        ({
            let b1: int = 0x1000_0000_0000_0000_0000_0000_0000_0000;
            &&& -b1 <= fn_ * x * sd * cd <= b1
            &&& -b1 <= sn * y * fd * cd <= b1
            &&& -b1 <= cn * z * fd * sd <= b1
            &&& 0 < fd * sd * cd * z <= b1
            &&& -b1 <= fn_ * x <= b1 && -b1 <= fn_ * x * sd <= b1
            &&& -b1 <= sn * y <= b1 && -b1 <= sn * y * fd <= b1
            &&& -b1 <= cn * z <= b1 && -b1 <= cn * z * fd <= b1
            &&& 0 < fd * sd <= b1 && 0 < fd * sd * cd <= b1
            &&& -b1 <= gn * y <= b1 && -b1 <= gn * y * ed <= b1
            &&& -b1 <= en * z <= b1 && -b1 <= en * z * gd <= b1
            &&& 0 < gd * ed <= b1 && 0 < gd * ed * z <= b1
        }),
{
    lemma_abs_mul_le(fn_, x, 0x1_0000, 0x1000_0000_0000_0000_0000);
    lemma_abs_mul_le(fn_ * x, sd, 0x1000_0000_0000_0000_0000_0000, 0x1_0000);
    lemma_abs_mul_le(fn_ * x * sd, cd, 0x1000_0000_0000_0000_0000_0000_0000,
        0x1_0000);
    lemma_abs_mul_le(sn, y, 0x1_0000, 0x1000_0000_0000_0000_0000);
    lemma_abs_mul_le(sn * y, fd, 0x1000_0000_0000_0000_0000_0000, 0x1_0000);
    lemma_abs_mul_le(sn * y * fd, cd, 0x1000_0000_0000_0000_0000_0000_0000,
        0x1_0000);
    lemma_abs_mul_le(cn, z, 0x1_0000, 0x1000_0000_0000_0000_0000);
    lemma_abs_mul_le(cn * z, fd, 0x1000_0000_0000_0000_0000_0000, 0x1_0000);
    lemma_abs_mul_le(cn * z * fd, sd, 0x1000_0000_0000_0000_0000_0000_0000,
        0x1_0000);
    assert(0 < fd * sd <= 0x1_0000_0000) by (nonlinear_arith)
        requires 0 < fd <= 0x1_0000 && 0 < sd <= 0x1_0000;
    assert(0 < fd * sd * cd <= 0x1_0000_0000_0000) by (nonlinear_arith)
        requires 0 < fd * sd <= 0x1_0000_0000 && 0 < cd <= 0x1_0000;
    assert(0 < fd * sd * cd * z <= 0x1000_0000_0000_0000_0000_0000_0000_0000)
        by (nonlinear_arith)
        requires 0 < fd * sd * cd <= 0x1_0000_0000_0000
            && 0 < z <= 0x1000_0000_0000_0000_0000;
    lemma_abs_mul_le(gn, y, 0x1_0000, 0x1000_0000_0000_0000_0000);
    lemma_abs_mul_le(gn * y, ed, 0x1000_0000_0000_0000_0000_0000, 0x1_0000);
    lemma_abs_mul_le(en, z, 0x1_0000, 0x1000_0000_0000_0000_0000);
    lemma_abs_mul_le(en * z, gd, 0x1000_0000_0000_0000_0000_0000, 0x1_0000);
    assert(0 < gd * ed <= 0x1_0000_0000) by (nonlinear_arith)
        requires 0 < gd <= 0x1_0000 && 0 < ed <= 0x1_0000;
    assert(0 < gd * ed * z <= 0x1000_0000_0000_0000_0000_0000_0000)
        by (nonlinear_arith)
        requires 0 < gd * ed <= 0x1_0000_0000 && 0 < z <= 0x1000_0000_0000_0000_0000;
}

/// Magnitude bounds for the pinhole unprojection formulas, plus the sign
/// facts for the homogeneous weight.
proof fn lemma_unproject_bounds(
    fn_: int, fd: int, sn: int, sd: int, cn: int, cd: int,
    gn: int, gd: int, en: int, ed: int,
    un: int, ud: int, vn: int, vd: int,
)
    requires
        -0x1_0000 <= fn_ <= 0x1_0000 && 0 < fd <= 0x1_0000,
        -0x1_0000 <= sn <= 0x1_0000 && 0 < sd <= 0x1_0000,
        -0x1_0000 <= cn <= 0x1_0000 && 0 < cd <= 0x1_0000,
        -0x1_0000 <= gn <= 0x1_0000 && 0 < gd <= 0x1_0000,
        -0x1_0000 <= en <= 0x1_0000 && 0 < ed <= 0x1_0000,
        -0x1_0000 <= un <= 0x1_0000 && 0 < ud <= 0x1_0000,
        -0x1_0000 <= vn <= 0x1_0000 && 0 < vd <= 0x1_0000,
        fn_ != 0,
        gn != 0,
    ensures
        ({
            let ny = (vn * ed - en * vd) * gd;
            let dy = vd * ed * gn;
            let nx = ((un * cd - cn * ud) * sd * dy - sn * ny * ud * cd) * fd;
            let k = ud * cd * sd * fn_;
            let zz = k * dy;
            &&& -0x1_0000_0000 <= vn * ed <= 0x1_0000_0000
            &&& -0x1_0000_0000 <= en * vd <= 0x1_0000_0000
            &&& -0x1_0000_0000 <= un * cd <= 0x1_0000_0000
            &&& -0x1_0000_0000 <= cn * ud <= 0x1_0000_0000
            &&& -0x1_0000_0000 <= vd * ed <= 0x1_0000_0000
            &&& -0x1_0000_0000 <= ud * cd <= 0x1_0000_0000
            &&& -0x1_0000_0000_0000 <= ud * cd * sd <= 0x1_0000_0000_0000
            &&& -0x2_0000_0000_0000_0000 <= sn * ny <= 0x2_0000_0000_0000_0000
            &&& -0x2_0000_0000_0000_0000_0000 <= sn * ny * ud
                <= 0x2_0000_0000_0000_0000_0000
            &&& -0x2_0000_0000 <= vn * ed - en * vd <= 0x2_0000_0000
            &&& -0x2_0000_0000_0000 <= ny <= 0x2_0000_0000_0000
            &&& -0x1_0000_0000_0000 <= dy <= 0x1_0000_0000_0000 && dy != 0
            &&& -0x2_0000_0000 <= un * cd - cn * ud <= 0x2_0000_0000
            &&& -0x2_0000_0000_0000 <= (un * cd - cn * ud) * sd <= 0x2_0000_0000_0000
            &&& -0x2_0000_0000_0000_0000_0000_0000_0000
                <= (un * cd - cn * ud) * sd * dy
                <= 0x2_0000_0000_0000_0000_0000_0000_0000
            &&& -0x2_0000_0000_0000_0000_0000_0000_0000 <= sn * ny * ud * cd
                <= 0x2_0000_0000_0000_0000_0000_0000_0000
            &&& -0x8_0000_0000_0000_0000_0000_0000_0000 <= nx
                <= 0x8_0000_0000_0000_0000_0000_0000_0000_0
            &&& -0x1_0000_0000_0000_0000 <= k <= 0x1_0000_0000_0000_0000 && k != 0
            &&& -0x2_0000_0000_0000_0000_0000_0000_0000_0 <= ny * k
                <= 0x2_0000_0000_0000_0000_0000_0000_0000_0
            &&& -0x1_0000_0000_0000_0000_0000_0000_0000 <= zz
                <= 0x1_0000_0000_0000_0000_0000_0000_0000
            &&& zz != 0
        }),
{
    let ny = (vn * ed - en * vd) * gd;
    let dy = vd * ed * gn;
    lemma_abs_mul_le(vn, ed, 0x1_0000, 0x1_0000);
    lemma_abs_mul_le(en, vd, 0x1_0000, 0x1_0000);
    lemma_abs_mul_le(vn * ed - en * vd, gd, 0x2_0000_0000, 0x1_0000);
    lemma_abs_mul_le(vd, ed, 0x1_0000, 0x1_0000);
    lemma_abs_mul_le(vd * ed, gn, 0x1_0000_0000, 0x1_0000);
    assert(vd * ed > 0) by (nonlinear_arith)
        requires vd > 0 && ed > 0;
    assert(dy != 0) by (nonlinear_arith)
        requires dy == vd * ed * gn && vd * ed > 0 && gn != 0;
    lemma_abs_mul_le(un, cd, 0x1_0000, 0x1_0000);
    lemma_abs_mul_le(cn, ud, 0x1_0000, 0x1_0000);
    lemma_abs_mul_le(un * cd - cn * ud, sd, 0x2_0000_0000, 0x1_0000);
    lemma_abs_mul_le((un * cd - cn * ud) * sd, dy, 0x2_0000_0000_0000,
        0x1_0000_0000_0000);
    lemma_abs_mul_le(sn, ny, 0x1_0000, 0x2_0000_0000_0000);
    lemma_abs_mul_le(sn * ny, ud, 0x2_0000_0000_0000_0000, 0x1_0000);
    lemma_abs_mul_le(sn * ny * ud, cd, 0x2_0000_0000_0000_0000_0000, 0x1_0000);
    lemma_abs_mul_le((un * cd - cn * ud) * sd * dy - sn * ny * ud * cd, fd,
        0x8_0000_0000_0000_0000_0000_0000, 0x1_0000);
    lemma_abs_mul_le(ud, cd, 0x1_0000, 0x1_0000);
    lemma_abs_mul_le(ud * cd, sd, 0x1_0000_0000, 0x1_0000);
    lemma_abs_mul_le(ud * cd * sd, fn_, 0x1_0000_0000_0000, 0x1_0000);
    let k = ud * cd * sd * fn_;
    assert(ud * cd > 0) by (nonlinear_arith)
        requires ud > 0 && cd > 0;
    assert(ud * cd * sd > 0) by (nonlinear_arith)
        requires ud * cd > 0 && sd > 0;
    assert(k != 0) by (nonlinear_arith)
        requires k == ud * cd * sd * fn_ && ud * cd * sd > 0 && fn_ != 0;
    lemma_abs_mul_le(ny, k, 0x2_0000_0000_0000, 0x1_0000_0000_0000_0000);
    lemma_abs_mul_le(k, dy, 0x1_0000_0000_0000_0000, 0x1_0000_0000_0000);
    assert(k * dy != 0) by (nonlinear_arith)
        requires k != 0 && dy != 0;
    assert(ny == (vn * ed - en * vd) * gd);
}


/// Projection recovers the pixel that was unprojected: for any pinhole
/// intrinsics with nonzero focal lengths and any pixel location,
/// `project(unproject(px))` is exactly `px` — the linear map and its
/// inverse compose to the identity, with no error bound.
pub proof fn lemma_pinhole_pixel_round_trip(ph: Pinhole, px: PixModel)
    requires
        ph.wf(),
        px.wf(),
        ph.fx.n != 0,
        ph.fy.n != 0,
    ensures
        ph.unproject_model(px).wf(),
        ph.project_model(ph.unproject_model(px)).wf(),
        ph.project_model(ph.unproject_model(px)).eqv(px),
{
    let f = ph.fx.n as int;
    let bigf = ph.fx.d as int;
    let s = ph.skew.n as int;
    let bigs = ph.skew.d as int;
    let c = ph.cx.n as int;
    let bigc = ph.cx.d as int;
    let g = ph.fy.n as int;
    let bigg = ph.fy.d as int;
    let e = ph.cy.n as int;
    let bige = ph.cy.d as int;
    let ny = (px.vn * bige - e * px.vd) * bigg;
    let dy = px.vd * bige * g;
    let nx = ((px.un * bigc - c * px.ud) * bigs * dy - s * ny * px.ud * bigc) * bigf;
    let k = px.ud * bigc * bigs * f;
    let zz = k * dy;
    let yy = ny * k;
    // The homogeneous weight is nonzero.
    assert(px.vd * bige > 0) by (nonlinear_arith)
        requires px.vd > 0 && bige > 0;
    assert(dy != 0) by (nonlinear_arith)
        requires dy == px.vd * bige * g && px.vd * bige > 0 && g != 0;
    assert(px.ud * bigc > 0) by (nonlinear_arith)
        requires px.ud > 0 && bigc > 0;
    assert(px.ud * bigc * bigs > 0) by (nonlinear_arith)
        requires px.ud * bigc > 0 && bigs > 0;
    assert(k != 0) by (nonlinear_arith)
        requires k == px.ud * bigc * bigs * f && px.ud * bigc * bigs > 0 && f != 0;
    assert(zz != 0) by (nonlinear_arith)
        requires zz == k * dy && k != 0 && dy != 0;
    lemma_rt_u(f, bigf, s, bigs, c, bigc, px.un as int, px.ud as int, ny, dy);
    lemma_rt_v(g, bigg, e, bige, px.vn as int, px.vd as int, k, ny, dy, yy, zz);
    if zz > 0 {
        assert(bigf * bigs * bigc * zz > 0) by (nonlinear_arith)
            requires bigf > 0 && bigs > 0 && bigc > 0 && zz > 0;
        assert(bigg * bige * zz > 0) by (nonlinear_arith)
            requires bigg > 0 && bige > 0 && zz > 0;
    } else {
        // The sign-normalized ray negates every component; each product
        // in the projection flips sign with it.
        lemma_neg_factor(f, nx, bigs, bigc);
        lemma_neg_factor(s, yy, bigf, bigc);
        lemma_neg_factor(c, zz, bigf, bigs);
        crate::base::lemma_mul_neg(bigf * bigs * bigc, zz);
        crate::base::lemma_mul_neg(f * nx * bigs * bigc + s * yy * bigf * bigc
            + c * zz * bigf * bigs, px.ud as int);
        crate::base::lemma_mul_neg(px.un as int, bigf * bigs * bigc * zz);
        lemma_neg3_factor(g, yy, bige);
        lemma_neg3_factor(e, zz, bigg);
        crate::base::lemma_mul_neg(g * yy * bige + e * zz * bigg, px.vd as int);
        crate::base::lemma_mul_neg(bigg * bige, zz);
        crate::base::lemma_mul_neg(px.vn as int, bigg * bige * zz);
        assert(bigf * bigs * bigc * (-zz) > 0) by (nonlinear_arith)
            requires bigf > 0 && bigs > 0 && bigc > 0 && zz < 0;
        assert(bigg * bige * (-zz) > 0) by (nonlinear_arith)
            requires bigg > 0 && bige > 0 && zz < 0;
    }
}

/// The u coordinate of the pixel round trip, cleared of denominators:
/// a pure polynomial identity.
proof fn lemma_rt_u(
    f: int, bigf: int, s: int, bigs: int, c: int, bigc: int,
    un: int, ud: int, ny: int, dy: int,
)
    ensures
        (f * (((un * bigc - c * ud) * bigs * dy - s * ny * ud * bigc) * bigf)
                * bigs * bigc
            + s * (ny * (ud * bigc * bigs * f)) * bigf * bigc
            + c * ((ud * bigc * bigs * f) * dy) * bigf * bigs) * ud
            == un * (bigf * bigs * bigc * ((ud * bigc * bigs * f) * dy)),
{
    crate::base::lemma_mul_reassoc(f, (un * bigc - c * ud) * bigs * dy - s * ny * ud * bigc, bigf);
    crate::base::lemma_distribute2(f, (un * bigc - c * ud) * bigs * dy, s * ny * ud * bigc);
    crate::base::lemma_mul_reassoc(f, (un * bigc - c * ud) * bigs, dy);
    crate::base::lemma_mul_reassoc(f, un * bigc - c * ud, bigs);
    crate::base::lemma_distribute2(f, un * bigc, c * ud);
    crate::base::lemma_distribute2(bigs, f * (un * bigc), f * (c * ud));
    crate::base::lemma_distribute2(dy, f * (un * bigc) * bigs, f * (c * ud) * bigs);
    crate::base::lemma_distribute2(bigf, f * ((un * bigc - c * ud) * bigs * dy), f * (s * ny * ud * bigc));
    crate::base::lemma_distribute2(bigf, f * (un * bigc) * bigs * dy, f * (c * ud) * bigs * dy);
    crate::base::lemma_distribute2(bigs, f * (un * bigc) * bigs * dy * bigf, f * (c * ud) * bigs * dy * bigf);
    crate::base::lemma_distribute2(bigs, f * ((un * bigc - c * ud) * bigs * dy) * bigf, f * (s * ny * ud * bigc) * bigf);
    crate::base::lemma_distribute2(bigc, f * (un * bigc) * bigs * dy * bigf * bigs, f * (c * ud) * bigs * dy * bigf * bigs);
    crate::base::lemma_distribute2(bigc, f * ((un * bigc - c * ud) * bigs * dy) * bigf * bigs, f * (s * ny * ud * bigc) * bigf * bigs);
    crate::base::lemma_mul_reassoc(ny, ((ud * bigc) * bigs), f);
    crate::base::lemma_mul_reassoc(ny, (ud * bigc), bigs);
    crate::base::lemma_mul_reassoc(ny, ud, bigc);
    crate::base::lemma_mul_reassoc(s, (((ny * ud) * bigc) * bigs), f);
    crate::base::lemma_mul_reassoc(s, ((ny * ud) * bigc), bigs);
    crate::base::lemma_mul_reassoc(s, (ny * ud), bigc);
    crate::base::lemma_mul_reassoc(s, ny, ud);
    crate::base::lemma_mul_reassoc(f, ((s * ny) * ud), bigc);
    crate::base::lemma_mul_reassoc(f, (s * ny), ud);
    crate::base::lemma_mul_reassoc(f, s, ny);
    crate::base::lemma_mul_comm(s, ny);
    crate::base::lemma_swap_inner((ny * s), ud, bigc);
    crate::base::lemma_swap_inner(((ny * s) * bigc), ud, bigs);
    crate::base::lemma_swap_inner((((ny * s) * bigc) * bigs), ud, f);
    crate::base::lemma_swap_inner(((((ny * s) * bigc) * bigs) * f), ud, bigf);
    crate::base::lemma_swap_inner((((((ny * s) * bigc) * bigs) * f) * bigf), ud, bigc);
    crate::base::lemma_swap_inner(ny, s, bigc);
    crate::base::lemma_swap_inner((ny * bigc), s, bigs);
    crate::base::lemma_swap_inner(((ny * bigc) * bigs), s, f);
    crate::base::lemma_swap_inner((((ny * bigc) * bigs) * f), s, bigf);
    crate::base::lemma_swap_inner(((((ny * bigc) * bigs) * f) * bigf), s, bigc);
    crate::base::lemma_mul_comm(ny, bigc);
    crate::base::lemma_swap_inner(bigc, ny, bigs);
    crate::base::lemma_swap_inner((bigc * bigs), ny, f);
    crate::base::lemma_swap_inner(((bigc * bigs) * f), ny, bigf);
    crate::base::lemma_swap_inner((((bigc * bigs) * f) * bigf), ny, bigc);
    crate::base::lemma_swap_inner((bigc * bigs), f, bigf);
    crate::base::lemma_swap_inner(((bigc * bigs) * bigf), f, bigc);
    crate::base::lemma_swap_inner(bigc, bigs, bigf);
    crate::base::lemma_swap_inner((bigc * bigf), bigs, bigc);
    crate::base::lemma_swap_inner(bigc, bigf, bigc);
    crate::base::lemma_swap_inner(f, s, ny);
    crate::base::lemma_swap_inner(((f * ny) * s), ud, bigc);
    crate::base::lemma_swap_inner((((f * ny) * s) * bigc), ud, bigf);
    crate::base::lemma_swap_inner(((((f * ny) * s) * bigc) * bigf), ud, bigs);
    crate::base::lemma_swap_inner((((((f * ny) * s) * bigc) * bigf) * bigs), ud, bigc);
    crate::base::lemma_swap_inner((f * ny), s, bigc);
    crate::base::lemma_swap_inner(((f * ny) * bigc), s, bigf);
    crate::base::lemma_swap_inner((((f * ny) * bigc) * bigf), s, bigs);
    crate::base::lemma_swap_inner(((((f * ny) * bigc) * bigf) * bigs), s, bigc);
    crate::base::lemma_swap_inner(f, ny, bigc);
    crate::base::lemma_swap_inner((f * bigc), ny, bigf);
    crate::base::lemma_swap_inner(((f * bigc) * bigf), ny, bigs);
    crate::base::lemma_swap_inner((((f * bigc) * bigf) * bigs), ny, bigc);
    crate::base::lemma_mul_comm(f, bigc);
    crate::base::lemma_swap_inner(bigc, f, bigf);
    crate::base::lemma_swap_inner((bigc * bigf), f, bigs);
    crate::base::lemma_swap_inner(((bigc * bigf) * bigs), f, bigc);
    crate::base::lemma_swap_inner((bigc * bigf), bigs, bigc);
    crate::base::lemma_swap_inner(bigc, bigf, bigc);
    crate::base::lemma_mul_reassoc(c, (((ud * bigc) * bigs) * f), dy);
    crate::base::lemma_mul_reassoc(c, ((ud * bigc) * bigs), f);
    crate::base::lemma_mul_reassoc(c, (ud * bigc), bigs);
    crate::base::lemma_mul_reassoc(c, ud, bigc);
    crate::base::lemma_mul_reassoc(f, c, ud);
    crate::base::lemma_swap_inner(c, ud, bigc);
    crate::base::lemma_swap_inner((c * bigc), ud, bigs);
    crate::base::lemma_swap_inner(((c * bigc) * bigs), ud, f);
    crate::base::lemma_swap_inner((((c * bigc) * bigs) * f), ud, dy);
    crate::base::lemma_swap_inner(((((c * bigc) * bigs) * f) * dy), ud, bigf);
    crate::base::lemma_swap_inner((((((c * bigc) * bigs) * f) * dy) * bigf), ud, bigs);
    crate::base::lemma_mul_comm(c, bigc);
    crate::base::lemma_swap_inner(bigc, c, bigs);
    crate::base::lemma_swap_inner(((bigc * bigs) * c), f, dy);
    crate::base::lemma_swap_inner((((bigc * bigs) * c) * dy), f, bigf);
    crate::base::lemma_swap_inner(((((bigc * bigs) * c) * dy) * bigf), f, bigs);
    crate::base::lemma_swap_inner(((bigc * bigs) * c), dy, bigf);
    crate::base::lemma_swap_inner((((bigc * bigs) * c) * bigf), dy, bigs);
    crate::base::lemma_swap_inner((bigc * bigs), c, bigf);
    crate::base::lemma_swap_inner(((bigc * bigs) * bigf), c, bigs);
    crate::base::lemma_swap_inner(bigc, bigs, bigf);
    crate::base::lemma_mul_comm(f, c);
    crate::base::lemma_swap_inner((c * f), ud, bigs);
    crate::base::lemma_swap_inner(((c * f) * bigs), ud, dy);
    crate::base::lemma_swap_inner((((c * f) * bigs) * dy), ud, bigf);
    crate::base::lemma_swap_inner(((((c * f) * bigs) * dy) * bigf), ud, bigs);
    crate::base::lemma_swap_inner((((((c * f) * bigs) * dy) * bigf) * bigs), ud, bigc);
    crate::base::lemma_swap_inner(c, f, bigs);
    crate::base::lemma_swap_inner((c * bigs), f, dy);
    crate::base::lemma_swap_inner(((c * bigs) * dy), f, bigf);
    crate::base::lemma_swap_inner((((c * bigs) * dy) * bigf), f, bigs);
    crate::base::lemma_swap_inner(((((c * bigs) * dy) * bigf) * bigs), f, bigc);
    crate::base::lemma_mul_comm(c, bigs);
    crate::base::lemma_swap_inner((bigs * c), dy, bigf);
    crate::base::lemma_swap_inner(((bigs * c) * bigf), dy, bigs);
    crate::base::lemma_swap_inner((((bigs * c) * bigf) * bigs), dy, bigc);
    crate::base::lemma_swap_inner(bigs, c, bigf);
    crate::base::lemma_swap_inner((bigs * bigf), c, bigs);
    crate::base::lemma_swap_inner(((bigs * bigf) * bigs), c, bigc);
    crate::base::lemma_mul_comm(bigs, bigf);
    crate::base::lemma_swap_inner((bigf * bigs), bigs, bigc);
    crate::base::lemma_swap_inner(bigf, bigs, bigc);
    crate::base::lemma_mul_comm(bigf, bigc);
    crate::base::lemma_mul_reassoc(f, un, bigc);
    crate::base::lemma_mul_reassoc(((bigf * bigs) * bigc), (((ud * bigc) * bigs) * f), dy);
    crate::base::lemma_mul_reassoc(((bigf * bigs) * bigc), ((ud * bigc) * bigs), f);
    crate::base::lemma_mul_reassoc(((bigf * bigs) * bigc), (ud * bigc), bigs);
    crate::base::lemma_mul_reassoc(((bigf * bigs) * bigc), ud, bigc);
    crate::base::lemma_mul_reassoc(un, ((((((bigf * bigs) * bigc) * ud) * bigc) * bigs) * f), dy);
    crate::base::lemma_mul_reassoc(un, (((((bigf * bigs) * bigc) * ud) * bigc) * bigs), f);
    crate::base::lemma_mul_reassoc(un, ((((bigf * bigs) * bigc) * ud) * bigc), bigs);
    crate::base::lemma_mul_reassoc(un, (((bigf * bigs) * bigc) * ud), bigc);
    crate::base::lemma_mul_reassoc(un, ((bigf * bigs) * bigc), ud);
    crate::base::lemma_mul_reassoc(un, (bigf * bigs), bigc);
    crate::base::lemma_mul_reassoc(un, bigf, bigs);
    crate::base::lemma_swap_inner(f, un, bigc);
    crate::base::lemma_swap_inner((f * bigc), un, bigs);
    crate::base::lemma_swap_inner(((f * bigc) * bigs), un, dy);
    crate::base::lemma_swap_inner((((f * bigc) * bigs) * dy), un, bigf);
    crate::base::lemma_swap_inner(((((f * bigc) * bigs) * dy) * bigf), un, bigs);
    crate::base::lemma_swap_inner((((((f * bigc) * bigs) * dy) * bigf) * bigs), un, bigc);
    crate::base::lemma_swap_inner(((((((f * bigc) * bigs) * dy) * bigf) * bigs) * bigc), un, ud);
    crate::base::lemma_mul_comm(f, bigc);
    crate::base::lemma_swap_inner(bigc, f, bigs);
    crate::base::lemma_swap_inner((bigc * bigs), f, dy);
    crate::base::lemma_swap_inner(((bigc * bigs) * dy), f, bigf);
    crate::base::lemma_swap_inner((((bigc * bigs) * dy) * bigf), f, bigs);
    crate::base::lemma_swap_inner(((((bigc * bigs) * dy) * bigf) * bigs), f, bigc);
    crate::base::lemma_swap_inner((bigc * bigs), dy, bigf);
    crate::base::lemma_swap_inner(((bigc * bigs) * bigf), dy, bigs);
    crate::base::lemma_swap_inner((((bigc * bigs) * bigf) * bigs), dy, bigc);
    crate::base::lemma_swap_inner(bigc, bigs, bigf);
    crate::base::lemma_swap_inner(((bigc * bigf) * bigs), bigs, bigc);
    crate::base::lemma_swap_inner((bigc * bigf), bigs, bigc);
    crate::base::lemma_swap_inner(bigc, bigf, bigc);
    crate::base::lemma_mul_comm(un, bigf);
    crate::base::lemma_swap_inner(bigf, un, bigs);
    crate::base::lemma_swap_inner((bigf * bigs), un, bigc);
    crate::base::lemma_swap_inner(((bigf * bigs) * bigc), un, ud);
    crate::base::lemma_swap_inner((((bigf * bigs) * bigc) * ud), un, bigc);
    crate::base::lemma_swap_inner(((((bigf * bigs) * bigc) * ud) * bigc), un, bigs);
    crate::base::lemma_swap_inner((((((bigf * bigs) * bigc) * ud) * bigc) * bigs), un, f);
    crate::base::lemma_swap_inner(((((((bigf * bigs) * bigc) * ud) * bigc) * bigs) * f), un, dy);
    crate::base::lemma_swap_inner(bigf, bigs, bigc);
    crate::base::lemma_swap_inner(((bigf * bigc) * bigs), ud, bigc);
    crate::base::lemma_swap_inner((((bigf * bigc) * bigs) * bigc), ud, bigs);
    crate::base::lemma_swap_inner(((((bigf * bigc) * bigs) * bigc) * bigs), ud, f);
    crate::base::lemma_swap_inner((((((bigf * bigc) * bigs) * bigc) * bigs) * f), ud, dy);
    crate::base::lemma_mul_comm(bigf, bigc);
    crate::base::lemma_swap_inner((bigc * bigf), bigs, bigc);
    crate::base::lemma_swap_inner(((((bigc * bigf) * bigc) * bigs) * bigs), f, dy);
    crate::base::lemma_swap_inner(bigc, bigf, bigc);
    crate::base::lemma_distribute3(f * (((un * bigc - c * ud) * bigs * dy - s * ny * ud * bigc) * bigf) * bigs * bigc, s * (ny * (ud * bigc * bigs * f)) * bigf * bigc, c * ((ud * bigc * bigs * f) * dy) * bigf * bigs, ud);
    crate::base::lemma_distribute2(ud, ((((((f * (un * bigc)) * bigs) * dy) * bigf) * bigs) * bigc) - ((((((f * (c * ud)) * bigs) * dy) * bigf) * bigs) * bigc), ((((f * (((s * ny) * ud) * bigc)) * bigf) * bigs) * bigc));
    crate::base::lemma_distribute2(ud, ((((((f * (un * bigc)) * bigs) * dy) * bigf) * bigs) * bigc), ((((((f * (c * ud)) * bigs) * dy) * bigf) * bigs) * bigc));
}

/// The v coordinate of the pixel round trip, cleared of denominators.
proof fn lemma_rt_v(
    g: int, bigg: int, e: int, bige: int,
    vn: int, vd: int, k: int, ny: int, dy: int, yy: int, zz: int,
)
    requires
        ny == (vn * bige - e * vd) * bigg,
        dy == vd * bige * g,
        yy == ny * k,
        zz == k * dy,
    ensures
        (g * yy * bige + e * zz * bigg) * vd == vn * (bigg * bige * zz),
{
    crate::base::lemma_mul_reassoc(g, ny, k);
    crate::base::lemma_mul_reassoc(g, vn * bige - e * vd, bigg);
    crate::base::lemma_distribute2(g, vn * bige, e * vd);
    crate::base::lemma_distribute2(bigg, g * (vn * bige), g * (e * vd));
    crate::base::lemma_distribute2(k, g * (vn * bige) * bigg, g * (e * vd) * bigg);
    crate::base::lemma_distribute2(bige, g * (vn * bige) * bigg * k, g * (e * vd) * bigg * k);
    crate::base::lemma_mul_reassoc(k, (vd * bige), g);
    crate::base::lemma_mul_reassoc(k, vd, bige);
    crate::base::lemma_mul_reassoc(e, ((k * vd) * bige), g);
    crate::base::lemma_mul_reassoc(e, (k * vd), bige);
    crate::base::lemma_mul_reassoc(e, k, vd);
    crate::base::lemma_mul_reassoc(g, e, vd);
    crate::base::lemma_swap_inner((e * k), vd, bige);
    crate::base::lemma_swap_inner(((e * k) * bige), vd, g);
    crate::base::lemma_swap_inner((((e * k) * bige) * g), vd, bigg);
    crate::base::lemma_swap_inner(e, k, bige);
    crate::base::lemma_swap_inner((e * bige), k, g);
    crate::base::lemma_swap_inner(((e * bige) * g), k, bigg);
    crate::base::lemma_mul_comm(e, bige);
    crate::base::lemma_swap_inner((bige * e), g, bigg);
    crate::base::lemma_swap_inner(bige, e, bigg);
    crate::base::lemma_mul_comm(g, e);
    crate::base::lemma_swap_inner((e * g), vd, bigg);
    crate::base::lemma_swap_inner(((e * g) * bigg), vd, k);
    crate::base::lemma_swap_inner((((e * g) * bigg) * k), vd, bige);
    crate::base::lemma_swap_inner(e, g, bigg);
    crate::base::lemma_swap_inner(((e * bigg) * g), k, bige);
    crate::base::lemma_mul_comm(e, bigg);
    crate::base::lemma_swap_inner((bigg * e), g, bige);
    crate::base::lemma_swap_inner(bigg, e, bige);
    crate::base::lemma_mul_comm(bigg, bige);
    crate::base::lemma_distribute2(vd, g * yy * bige, e * zz * bigg);
    crate::base::lemma_distribute2(vd, ((((g * (vn * bige)) * bigg) * k) * bige), ((((g * (e * vd)) * bigg) * k) * bige));
    crate::base::lemma_mul_reassoc(g, vn, bige);
    crate::base::lemma_mul_reassoc(k, (vd * bige), g);
    crate::base::lemma_mul_reassoc(k, vd, bige);
    crate::base::lemma_mul_reassoc((bigg * bige), ((k * vd) * bige), g);
    crate::base::lemma_mul_reassoc((bigg * bige), (k * vd), bige);
    crate::base::lemma_mul_reassoc((bigg * bige), k, vd);
    crate::base::lemma_mul_reassoc(vn, ((((bigg * bige) * k) * vd) * bige), g);
    crate::base::lemma_mul_reassoc(vn, (((bigg * bige) * k) * vd), bige);
    crate::base::lemma_mul_reassoc(vn, ((bigg * bige) * k), vd);
    crate::base::lemma_mul_reassoc(vn, (bigg * bige), k);
    crate::base::lemma_mul_reassoc(vn, bigg, bige);
    crate::base::lemma_swap_inner(g, vn, bige);
    crate::base::lemma_swap_inner((g * bige), vn, bigg);
    crate::base::lemma_swap_inner(((g * bige) * bigg), vn, k);
    crate::base::lemma_swap_inner((((g * bige) * bigg) * k), vn, bige);
    crate::base::lemma_swap_inner(((((g * bige) * bigg) * k) * bige), vn, vd);
    crate::base::lemma_mul_comm(g, bige);
    crate::base::lemma_swap_inner(bige, g, bigg);
    crate::base::lemma_swap_inner(((bige * bigg) * g), k, bige);
    crate::base::lemma_swap_inner((bige * bigg), g, bige);
    crate::base::lemma_swap_inner(bige, bigg, bige);
    crate::base::lemma_mul_comm(vn, bigg);
    crate::base::lemma_swap_inner(bigg, vn, bige);
    crate::base::lemma_swap_inner((bigg * bige), vn, k);
    crate::base::lemma_swap_inner(((bigg * bige) * k), vn, vd);
    crate::base::lemma_swap_inner((((bigg * bige) * k) * vd), vn, bige);
    crate::base::lemma_swap_inner(((((bigg * bige) * k) * vd) * bige), vn, g);
    crate::base::lemma_mul_comm(bigg, bige);
    crate::base::lemma_swap_inner(((bige * bigg) * k), vd, bige);
    crate::base::lemma_swap_inner((((bige * bigg) * k) * bige), vd, g);
    crate::base::lemma_swap_inner((bige * bigg), k, bige);
    crate::base::lemma_swap_inner(((bige * bigg) * bige), k, g);
    crate::base::lemma_swap_inner(bige, bigg, bige);
}

/// A negated second factor flips the sign of a four-factor product.
proof fn lemma_neg_factor(a: int, b: int, p: int, q: int)
    by (nonlinear_arith)
    ensures
        a * (-b) * p * q == -(a * b * p * q),
{
}

/// A negated second factor flips the sign of a three-factor product.
proof fn lemma_neg3_factor(a: int, b: int, p: int)
    by (nonlinear_arith)
    ensures
        a * (-b) * p == -(a * b * p),
{
}

/// Unprojection recovers the ray that was projected: for any pinhole
/// intrinsics with nonzero focal lengths and any ray in front of the
/// camera, `unproject(project(ray))` is exactly the same direction.
pub proof fn lemma_pinhole_ray_round_trip(ph: Pinhole, ray: RayModel)
    requires
        ph.wf(),
        ray.wf(),
        ph.fx.n != 0,
        ph.fy.n != 0,
    ensures
        ph.unproject_model(ph.project_model(ray)).wf(),
        ph.unproject_model(ph.project_model(ray)).eqv(ray),
{
    let f = ph.fx.n as int;
    let bigf = ph.fx.d as int;
    let s = ph.skew.n as int;
    let bigs = ph.skew.d as int;
    let c = ph.cx.n as int;
    let bigc = ph.cx.d as int;
    let g = ph.fy.n as int;
    let bigg = ph.fy.d as int;
    let e = ph.cy.n as int;
    let bige = ph.cy.d as int;
    let x = ray.x;
    let y = ray.y;
    let z = ray.z;
    let px = ph.project_model(ray);
    let ny = (px.vn * bige - e * px.vd) * bigg;
    let dy = px.vd * bige * g;
    let nx = ((px.un * bigc - c * px.ud) * bigs * dy - s * ny * px.ud * bigc) * bigf;
    let k = px.ud * bigc * bigs * f;
    let zz = k * dy;
    // Closed forms after substituting the projected pixel.
    lemma_rt2_ny(g, bigg, e, bige, y, z);
    assert(ny == g * y * bige * bige * bigg);
    lemma_rt2_nx(f, bigf, s, bigs, c, bigc, g, bigg, e, bige, x, y, z);
    assert(nx == f * x * bigs * bigc * bigc * bigs * dy * bigf);
    // The two cross-equalities.
    lemma_rt2_y_goal(g, bigg, bige, y, z, k);
    lemma_rt2_x_goal(f, bigf, s, bigs, c, bigc, x, z, dy);
    // The weight is nonzero.
    assert(px.ud > 0) by (nonlinear_arith)
        requires px.ud == bigf * bigs * bigc * z && bigf > 0 && bigs > 0 && bigc > 0
            && z > 0;
    assert(px.vd > 0) by (nonlinear_arith)
        requires px.vd == bigg * bige * z && bigg > 0 && bige > 0 && z > 0;
    assert(px.vd * bige > 0) by (nonlinear_arith)
        requires px.vd > 0 && bige > 0;
    assert(dy != 0) by (nonlinear_arith)
        requires dy == px.vd * bige * g && px.vd * bige > 0 && g != 0;
    assert(px.ud * bigc > 0) by (nonlinear_arith)
        requires px.ud > 0 && bigc > 0;
    assert(px.ud * bigc * bigs > 0) by (nonlinear_arith)
        requires px.ud * bigc > 0 && bigs > 0;
    assert(k != 0) by (nonlinear_arith)
        requires k == px.ud * bigc * bigs * f && px.ud * bigc * bigs > 0 && f != 0;
    assert(zz != 0) by (nonlinear_arith)
        requires zz == k * dy && k != 0 && dy != 0;
    if zz > 0 {
    } else {
        crate::base::lemma_mul_neg(nx, z);
        crate::base::lemma_mul_neg(ny * k, z);
        crate::base::lemma_mul_neg(x, zz);
        crate::base::lemma_mul_neg(y, zz);
    }
}

/// After projecting, the unprojection's y numerator collapses:
/// `ny == g y E^2 G`.
proof fn lemma_rt2_ny(g: int, bigg: int, e: int, bige: int, y: int, z: int)
    ensures
        ((g * y * bige + e * z * bigg) * bige - e * (bigg * bige * z)) * bigg
            == g * y * bige * bige * bigg,
{
    crate::base::lemma_distribute2(bige, g * y * bige, e * z * bigg);
    crate::base::lemma_mul_reassoc(e, (bigg * bige), z);
    crate::base::lemma_mul_reassoc(e, bigg, bige);
    crate::base::lemma_swap_inner(e, z, bigg);
    crate::base::lemma_swap_inner((e * bigg), z, bige);
    crate::base::lemma_mul_comm(e, bigg);
    crate::base::lemma_swap_inner(bigg, e, bige);
    crate::base::lemma_mul_comm(bigg, bige);
    crate::base::lemma_mul_comm(e, bigg);
    crate::base::lemma_swap_inner(bigg, e, bige);
    crate::base::lemma_mul_comm(bigg, bige);
    crate::base::lemma_distribute2(bigg, g * y * bige * bige, e * z * bigg * bige);
    crate::base::lemma_swap_inner(g, y, bige);
    crate::base::lemma_swap_inner((g * bige), y, bige);
    crate::base::lemma_swap_inner(((g * bige) * bige), y, bigg);
    crate::base::lemma_mul_comm(g, bige);
    crate::base::lemma_swap_inner(bige, g, bige);
    crate::base::lemma_swap_inner((bige * bige), g, bigg);
    crate::base::lemma_swap_inner(g, y, bige);
    crate::base::lemma_swap_inner((g * bige), y, bige);
    crate::base::lemma_swap_inner(((g * bige) * bige), y, bigg);
    crate::base::lemma_mul_comm(g, bige);
    crate::base::lemma_swap_inner(bige, g, bige);
    crate::base::lemma_swap_inner((bige * bige), g, bigg);
}

/// After projecting, the unprojection's x numerator collapses to
/// `f x S^2 C^2 dy F`: a pure polynomial identity.
proof fn lemma_rt2_nx(
    f: int, bigf: int, s: int, bigs: int, c: int, bigc: int,
    g: int, bigg: int, e: int, bige: int,
    x: int, y: int, z: int,
)
    ensures
        (((f * x * bigs * bigc + s * y * bigf * bigc + c * z * bigf * bigs) * bigc
            - c * (bigf * bigs * bigc * z)) * bigs
                * ((bigg * bige * z) * bige * g)
            - s * (g * y * bige * bige * bigg) * (bigf * bigs * bigc * z) * bigc)
                * bigf
            == f * x * bigs * bigc * bigc * bigs * ((bigg * bige * z) * bige * g)
                * bigf,
{
    crate::base::lemma_distribute3((((f * x) * bigs) * bigc), (((s * y) * bigf) * bigc), (((c * z) * bigf) * bigs), bigc);
    crate::base::lemma_mul_reassoc(c, ((bigf * bigs) * bigc), z);
    crate::base::lemma_mul_reassoc(c, (bigf * bigs), bigc);
    crate::base::lemma_mul_reassoc(c, bigf, bigs);
    crate::base::lemma_swap_inner(c, z, bigf);
    crate::base::lemma_swap_inner((c * bigf), z, bigs);
    crate::base::lemma_swap_inner(((c * bigf) * bigs), z, bigc);
    crate::base::lemma_mul_comm(c, bigf);
    crate::base::lemma_swap_inner(bigf, c, bigs);
    crate::base::lemma_swap_inner((bigf * bigs), c, bigc);
    crate::base::lemma_swap_inner(bigf, bigs, bigc);
    crate::base::lemma_mul_comm(bigf, bigc);
    crate::base::lemma_mul_comm(c, bigf);
    crate::base::lemma_swap_inner(bigf, c, bigs);
    crate::base::lemma_swap_inner((bigf * bigs), c, bigc);
    crate::base::lemma_swap_inner(bigf, bigs, bigc);
    crate::base::lemma_mul_comm(bigf, bigc);
    crate::base::lemma_distribute2(bigs, ((((f * x) * bigs) * bigc) * bigc), ((((s * y) * bigf) * bigc) * bigc));
    crate::base::lemma_distribute2(((((bigg * bige) * z) * bige) * g), (((((f * x) * bigs) * bigc) * bigc) * bigs), (((((s * y) * bigf) * bigc) * bigc) * bigs));
    crate::base::lemma_mul_reassoc((((((s * y) * bigf) * bigc) * bigc) * bigs), (((bigg * bige) * z) * bige), g);
    crate::base::lemma_mul_reassoc((((((s * y) * bigf) * bigc) * bigc) * bigs), ((bigg * bige) * z), bige);
    crate::base::lemma_mul_reassoc((((((s * y) * bigf) * bigc) * bigc) * bigs), (bigg * bige), z);
    crate::base::lemma_mul_reassoc((((((s * y) * bigf) * bigc) * bigc) * bigs), bigg, bige);
    crate::base::lemma_mul_reassoc(s, (((g * y) * bige) * bige), bigg);
    crate::base::lemma_mul_reassoc(s, ((g * y) * bige), bige);
    crate::base::lemma_mul_reassoc(s, (g * y), bige);
    crate::base::lemma_mul_reassoc(s, g, y);
    crate::base::lemma_mul_reassoc((((((s * g) * y) * bige) * bige) * bigg), ((bigf * bigs) * bigc), z);
    crate::base::lemma_mul_reassoc((((((s * g) * y) * bige) * bige) * bigg), (bigf * bigs), bigc);
    crate::base::lemma_mul_reassoc((((((s * g) * y) * bige) * bige) * bigg), bigf, bigs);
    crate::base::lemma_swap_inner(s, y, bigf);
    crate::base::lemma_swap_inner((s * bigf), y, bigc);
    crate::base::lemma_swap_inner(((s * bigf) * bigc), y, bigc);
    crate::base::lemma_swap_inner((((s * bigf) * bigc) * bigc), y, bigs);
    crate::base::lemma_swap_inner(((((s * bigf) * bigc) * bigc) * bigs), y, bigg);
    crate::base::lemma_swap_inner((((((s * bigf) * bigc) * bigc) * bigs) * bigg), y, bige);
    crate::base::lemma_swap_inner((((((((s * bigf) * bigc) * bigc) * bigs) * bigg) * bige) * y), z, bige);
    crate::base::lemma_swap_inner(((((((((s * bigf) * bigc) * bigc) * bigs) * bigg) * bige) * y) * bige), z, g);
    crate::base::lemma_mul_comm(s, bigf);
    crate::base::lemma_swap_inner(bigf, s, bigc);
    crate::base::lemma_swap_inner((bigf * bigc), s, bigc);
    crate::base::lemma_swap_inner(((bigf * bigc) * bigc), s, bigs);
    crate::base::lemma_swap_inner((((bigf * bigc) * bigc) * bigs), s, bigg);
    crate::base::lemma_swap_inner(((((bigf * bigc) * bigc) * bigs) * bigg), s, bige);
    crate::base::lemma_swap_inner(((((((bigf * bigc) * bigc) * bigs) * bigg) * bige) * s), y, bige);
    crate::base::lemma_swap_inner((((((((bigf * bigc) * bigc) * bigs) * bigg) * bige) * s) * bige), y, g);
    crate::base::lemma_mul_comm(bigf, bigc);
    crate::base::lemma_swap_inner(bigc, bigf, bigc);
    crate::base::lemma_swap_inner(((bigc * bigc) * bigf), bigs, bigg);
    crate::base::lemma_swap_inner((((bigc * bigc) * bigf) * bigg), bigs, bige);
    crate::base::lemma_swap_inner((((((bigc * bigc) * bigf) * bigg) * bige) * bigs), s, bige);
    crate::base::lemma_swap_inner(((((((bigc * bigc) * bigf) * bigg) * bige) * bigs) * bige), s, g);
    crate::base::lemma_swap_inner(((bigc * bigc) * bigf), bigg, bige);
    crate::base::lemma_swap_inner(((((bigc * bigc) * bigf) * bige) * bigg), bigs, bige);
    crate::base::lemma_swap_inner((bigc * bigc), bigf, bige);
    crate::base::lemma_swap_inner((((bigc * bigc) * bige) * bigf), bigg, bige);
    crate::base::lemma_swap_inner(((bigc * bigc) * bige), bigf, bige);
    crate::base::lemma_mul_comm(s, g);
    crate::base::lemma_swap_inner((g * s), y, bige);
    crate::base::lemma_swap_inner(((g * s) * bige), y, bige);
    crate::base::lemma_swap_inner((((g * s) * bige) * bige), y, bigg);
    crate::base::lemma_swap_inner(((((g * s) * bige) * bige) * bigg), y, bigf);
    crate::base::lemma_swap_inner((((((g * s) * bige) * bige) * bigg) * bigf), y, bigs);
    crate::base::lemma_swap_inner(((((((g * s) * bige) * bige) * bigg) * bigf) * bigs), y, bigc);
    crate::base::lemma_swap_inner(((((((((g * s) * bige) * bige) * bigg) * bigf) * bigs) * bigc) * y), z, bigc);
    crate::base::lemma_swap_inner(g, s, bige);
    crate::base::lemma_swap_inner((g * bige), s, bige);
    crate::base::lemma_swap_inner(((g * bige) * bige), s, bigg);
    crate::base::lemma_swap_inner((((g * bige) * bige) * bigg), s, bigf);
    crate::base::lemma_swap_inner(((((g * bige) * bige) * bigg) * bigf), s, bigs);
    crate::base::lemma_swap_inner((((((g * bige) * bige) * bigg) * bigf) * bigs), s, bigc);
    crate::base::lemma_swap_inner((((((((g * bige) * bige) * bigg) * bigf) * bigs) * bigc) * s), y, bigc);
    crate::base::lemma_mul_comm(g, bige);
    crate::base::lemma_swap_inner(bige, g, bige);
    crate::base::lemma_swap_inner((bige * bige), g, bigg);
    crate::base::lemma_swap_inner(((bige * bige) * bigg), g, bigf);
    crate::base::lemma_swap_inner((((bige * bige) * bigg) * bigf), g, bigs);
    crate::base::lemma_swap_inner(((((bige * bige) * bigg) * bigf) * bigs), g, bigc);
    crate::base::lemma_swap_inner(((((((bige * bige) * bigg) * bigf) * bigs) * bigc) * g), s, bigc);
    crate::base::lemma_swap_inner((bige * bige), bigg, bigf);
    crate::base::lemma_swap_inner((((bige * bige) * bigf) * bigg), bigs, bigc);
    crate::base::lemma_swap_inner((((((bige * bige) * bigf) * bigg) * bigc) * bigs), g, bigc);
    crate::base::lemma_swap_inner(((bige * bige) * bigf), bigg, bigc);
    crate::base::lemma_swap_inner(((((bige * bige) * bigf) * bigc) * bigg), bigs, bigc);
    crate::base::lemma_swap_inner((bige * bige), bigf, bigc);
    crate::base::lemma_swap_inner((((bige * bige) * bigc) * bigf), bigg, bigc);
    crate::base::lemma_swap_inner(bige, bige, bigc);
    crate::base::lemma_swap_inner(((bige * bigc) * bige), bigf, bigc);
    crate::base::lemma_mul_comm(bige, bigc);
    crate::base::lemma_swap_inner((bigc * bige), bige, bigc);
    crate::base::lemma_swap_inner(bigc, bige, bigc);
    crate::base::lemma_mul_reassoc((((((f * x) * bigs) * bigc) * bigc) * bigs), (((bigg * bige) * z) * bige), g);
    crate::base::lemma_mul_reassoc((((((f * x) * bigs) * bigc) * bigc) * bigs), ((bigg * bige) * z), bige);
    crate::base::lemma_mul_reassoc((((((f * x) * bigs) * bigc) * bigc) * bigs), (bigg * bige), z);
    crate::base::lemma_mul_reassoc((((((f * x) * bigs) * bigc) * bigc) * bigs), bigg, bige);
    crate::base::lemma_mul_reassoc((((((f * x) * bigs) * bigc) * bigc) * bigs), (((bigg * bige) * z) * bige), g);
    crate::base::lemma_mul_reassoc((((((f * x) * bigs) * bigc) * bigc) * bigs), ((bigg * bige) * z), bige);
    crate::base::lemma_mul_reassoc((((((f * x) * bigs) * bigc) * bigc) * bigs), (bigg * bige), z);
    crate::base::lemma_mul_reassoc((((((f * x) * bigs) * bigc) * bigc) * bigs), bigg, bige);
    crate::base::lemma_swap_inner(f, x, bigs);
    crate::base::lemma_swap_inner((f * bigs), x, bigc);
    crate::base::lemma_swap_inner(((f * bigs) * bigc), x, bigc);
    crate::base::lemma_swap_inner((((f * bigs) * bigc) * bigc), x, bigs);
    crate::base::lemma_swap_inner(((((f * bigs) * bigc) * bigc) * bigs), x, bigg);
    crate::base::lemma_swap_inner((((((f * bigs) * bigc) * bigc) * bigs) * bigg), x, bige);
    crate::base::lemma_swap_inner((((((((f * bigs) * bigc) * bigc) * bigs) * bigg) * bige) * x), z, bige);
    crate::base::lemma_swap_inner(((((((((f * bigs) * bigc) * bigc) * bigs) * bigg) * bige) * x) * bige), z, g);
    crate::base::lemma_swap_inner((((((((((f * bigs) * bigc) * bigc) * bigs) * bigg) * bige) * x) * bige) * g), z, bigf);
    crate::base::lemma_mul_comm(f, bigs);
    crate::base::lemma_swap_inner(bigs, f, bigc);
    crate::base::lemma_swap_inner((bigs * bigc), f, bigc);
    crate::base::lemma_swap_inner(((bigs * bigc) * bigc), f, bigs);
    crate::base::lemma_swap_inner((((bigs * bigc) * bigc) * bigs), f, bigg);
    crate::base::lemma_swap_inner(((((bigs * bigc) * bigc) * bigs) * bigg), f, bige);
    crate::base::lemma_swap_inner(((((((bigs * bigc) * bigc) * bigs) * bigg) * bige) * f), x, bige);
    crate::base::lemma_swap_inner((((((((bigs * bigc) * bigc) * bigs) * bigg) * bige) * f) * bige), x, g);
    crate::base::lemma_swap_inner(((((((((bigs * bigc) * bigc) * bigs) * bigg) * bige) * f) * bige) * g), x, bigf);
    crate::base::lemma_mul_comm(bigs, bigc);
    crate::base::lemma_swap_inner(bigc, bigs, bigc);
    crate::base::lemma_swap_inner(((bigc * bigc) * bigs), bigs, bigg);
    crate::base::lemma_swap_inner((((bigc * bigc) * bigs) * bigg), bigs, bige);
    crate::base::lemma_swap_inner((((((bigc * bigc) * bigs) * bigg) * bige) * bigs), f, bige);
    crate::base::lemma_swap_inner((((((((bigc * bigc) * bigs) * bigg) * bige) * bigs) * bige) * f), g, bigf);
    crate::base::lemma_swap_inner((bigc * bigc), bigs, bigg);
    crate::base::lemma_swap_inner(((bigc * bigc) * bigg), bigs, bige);
    crate::base::lemma_swap_inner(((((bigc * bigc) * bigg) * bige) * bigs), bigs, bige);
    crate::base::lemma_swap_inner(((((((bigc * bigc) * bigg) * bige) * bigs) * bige) * bigs), f, bigf);
    crate::base::lemma_swap_inner((bigc * bigc), bigg, bige);
    crate::base::lemma_swap_inner((((bigc * bigc) * bige) * bigg), bigs, bige);
    crate::base::lemma_swap_inner((((((bigc * bigc) * bige) * bigg) * bige) * bigs), bigs, bigf);
    crate::base::lemma_swap_inner(((bigc * bigc) * bige), bigg, bige);
    crate::base::lemma_swap_inner(((((bigc * bigc) * bige) * bige) * bigg), bigs, bigf);
    crate::base::lemma_swap_inner((((bigc * bigc) * bige) * bige), bigg, bigf);
    crate::base::lemma_swap_inner(f, x, bigs);
    crate::base::lemma_swap_inner((f * bigs), x, bigc);
    crate::base::lemma_swap_inner(((f * bigs) * bigc), x, bigc);
    crate::base::lemma_swap_inner((((f * bigs) * bigc) * bigc), x, bigs);
    crate::base::lemma_swap_inner(((((f * bigs) * bigc) * bigc) * bigs), x, bigg);
    crate::base::lemma_swap_inner((((((f * bigs) * bigc) * bigc) * bigs) * bigg), x, bige);
    crate::base::lemma_swap_inner((((((((f * bigs) * bigc) * bigc) * bigs) * bigg) * bige) * x), z, bige);
    crate::base::lemma_swap_inner(((((((((f * bigs) * bigc) * bigc) * bigs) * bigg) * bige) * x) * bige), z, g);
    crate::base::lemma_swap_inner((((((((((f * bigs) * bigc) * bigc) * bigs) * bigg) * bige) * x) * bige) * g), z, bigf);
    crate::base::lemma_mul_comm(f, bigs);
    crate::base::lemma_swap_inner(bigs, f, bigc);
    crate::base::lemma_swap_inner((bigs * bigc), f, bigc);
    crate::base::lemma_swap_inner(((bigs * bigc) * bigc), f, bigs);
    crate::base::lemma_swap_inner((((bigs * bigc) * bigc) * bigs), f, bigg);
    crate::base::lemma_swap_inner(((((bigs * bigc) * bigc) * bigs) * bigg), f, bige);
    crate::base::lemma_swap_inner(((((((bigs * bigc) * bigc) * bigs) * bigg) * bige) * f), x, bige);
    crate::base::lemma_swap_inner((((((((bigs * bigc) * bigc) * bigs) * bigg) * bige) * f) * bige), x, g);
    crate::base::lemma_swap_inner(((((((((bigs * bigc) * bigc) * bigs) * bigg) * bige) * f) * bige) * g), x, bigf);
    crate::base::lemma_mul_comm(bigs, bigc);
    crate::base::lemma_swap_inner(bigc, bigs, bigc);
    crate::base::lemma_swap_inner(((bigc * bigc) * bigs), bigs, bigg);
    crate::base::lemma_swap_inner((((bigc * bigc) * bigs) * bigg), bigs, bige);
    crate::base::lemma_swap_inner((((((bigc * bigc) * bigs) * bigg) * bige) * bigs), f, bige);
    crate::base::lemma_swap_inner((((((((bigc * bigc) * bigs) * bigg) * bige) * bigs) * bige) * f), g, bigf);
    crate::base::lemma_swap_inner((bigc * bigc), bigs, bigg);
    crate::base::lemma_swap_inner(((bigc * bigc) * bigg), bigs, bige);
    crate::base::lemma_swap_inner(((((bigc * bigc) * bigg) * bige) * bigs), bigs, bige);
    crate::base::lemma_swap_inner(((((((bigc * bigc) * bigg) * bige) * bigs) * bige) * bigs), f, bigf);
    crate::base::lemma_swap_inner((bigc * bigc), bigg, bige);
    crate::base::lemma_swap_inner((((bigc * bigc) * bige) * bigg), bigs, bige);
    crate::base::lemma_swap_inner((((((bigc * bigc) * bige) * bigg) * bige) * bigs), bigs, bigf);
    crate::base::lemma_swap_inner(((bigc * bigc) * bige), bigg, bige);
    crate::base::lemma_swap_inner(((((bigc * bigc) * bige) * bige) * bigg), bigs, bigf);
    crate::base::lemma_swap_inner((((bigc * bigc) * bige) * bige), bigg, bigf);
}

/// The y cross-equality of the ray round trip: a pure identity.
proof fn lemma_rt2_y_goal(
    g: int, bigg: int, bige: int, y: int, z: int, k: int,
)
    ensures
        ((g * y * bige * bige * bigg) * k) * z
            == y * (k * ((bigg * bige * z) * bige * g)),
{
    crate::base::lemma_mul_reassoc(k, (((bigg * bige) * z) * bige), g);
    crate::base::lemma_mul_reassoc(k, ((bigg * bige) * z), bige);
    crate::base::lemma_mul_reassoc(k, (bigg * bige), z);
    crate::base::lemma_mul_reassoc(k, bigg, bige);
    crate::base::lemma_mul_reassoc(y, ((((k * bigg) * bige) * z) * bige), g);
    crate::base::lemma_mul_reassoc(y, (((k * bigg) * bige) * z), bige);
    crate::base::lemma_mul_reassoc(y, ((k * bigg) * bige), z);
    crate::base::lemma_mul_reassoc(y, (k * bigg), bige);
    crate::base::lemma_mul_reassoc(y, k, bigg);
    crate::base::lemma_swap_inner(g, y, bige);
    crate::base::lemma_swap_inner((g * bige), y, bige);
    crate::base::lemma_swap_inner(((g * bige) * bige), y, bigg);
    crate::base::lemma_swap_inner((((g * bige) * bige) * bigg), y, k);
    crate::base::lemma_mul_comm(g, bige);
    crate::base::lemma_swap_inner(bige, g, bige);
    crate::base::lemma_swap_inner((bige * bige), g, bigg);
    crate::base::lemma_mul_comm(y, k);
    crate::base::lemma_swap_inner(k, y, bigg);
    crate::base::lemma_swap_inner((k * bigg), y, bige);
    crate::base::lemma_swap_inner((((k * bigg) * bige) * y), z, bige);
    crate::base::lemma_swap_inner(((((k * bigg) * bige) * y) * bige), z, g);
    crate::base::lemma_mul_comm(k, bigg);
    crate::base::lemma_swap_inner(bigg, k, bige);
    crate::base::lemma_swap_inner(((bigg * bige) * k), y, bige);
    crate::base::lemma_swap_inner((((bigg * bige) * k) * bige), y, g);
    crate::base::lemma_mul_comm(bigg, bige);
    crate::base::lemma_swap_inner((bige * bigg), k, bige);
    crate::base::lemma_swap_inner(((bige * bigg) * bige), k, g);
    crate::base::lemma_swap_inner(bige, bigg, bige);
}

/// The x cross-equality of the ray round trip: a pure identity.
proof fn lemma_rt2_x_goal(
    f: int, bigf: int, s: int, bigs: int, c: int, bigc: int,
    x: int, z: int, dy: int,
)
    ensures
        (f * x * bigs * bigc * bigc * bigs * dy * bigf) * z
            == x * ((((bigf * bigs * bigc * z) * bigc * bigs * f)) * dy),
{
    crate::base::lemma_mul_reassoc(x, ((((((bigf * bigs) * bigc) * z) * bigc) * bigs) * f), dy);
    crate::base::lemma_mul_reassoc(x, (((((bigf * bigs) * bigc) * z) * bigc) * bigs), f);
    crate::base::lemma_mul_reassoc(x, ((((bigf * bigs) * bigc) * z) * bigc), bigs);
    crate::base::lemma_mul_reassoc(x, (((bigf * bigs) * bigc) * z), bigc);
    crate::base::lemma_mul_reassoc(x, ((bigf * bigs) * bigc), z);
    crate::base::lemma_mul_reassoc(x, (bigf * bigs), bigc);
    crate::base::lemma_mul_reassoc(x, bigf, bigs);
    crate::base::lemma_swap_inner(f, x, bigs);
    crate::base::lemma_swap_inner((f * bigs), x, bigc);
    crate::base::lemma_swap_inner(((f * bigs) * bigc), x, bigc);
    crate::base::lemma_swap_inner((((f * bigs) * bigc) * bigc), x, bigs);
    crate::base::lemma_swap_inner(((((f * bigs) * bigc) * bigc) * bigs), x, dy);
    crate::base::lemma_swap_inner((((((f * bigs) * bigc) * bigc) * bigs) * dy), x, bigf);
    crate::base::lemma_mul_comm(f, bigs);
    crate::base::lemma_swap_inner(bigs, f, bigc);
    crate::base::lemma_swap_inner((bigs * bigc), f, bigc);
    crate::base::lemma_swap_inner(((bigs * bigc) * bigc), f, bigs);
    crate::base::lemma_swap_inner((((bigs * bigc) * bigc) * bigs), f, dy);
    crate::base::lemma_swap_inner(((((bigs * bigc) * bigc) * bigs) * dy), f, bigf);
    crate::base::lemma_mul_comm(bigs, bigc);
    crate::base::lemma_swap_inner(bigc, bigs, bigc);
    crate::base::lemma_swap_inner((((bigc * bigc) * bigs) * bigs), dy, bigf);
    crate::base::lemma_swap_inner(((bigc * bigc) * bigs), bigs, bigf);
    crate::base::lemma_swap_inner((bigc * bigc), bigs, bigf);
    crate::base::lemma_mul_comm(x, bigf);
    crate::base::lemma_swap_inner(bigf, x, bigs);
    crate::base::lemma_swap_inner((bigf * bigs), x, bigc);
    crate::base::lemma_swap_inner((((bigf * bigs) * bigc) * x), z, bigc);
    crate::base::lemma_swap_inner(((((bigf * bigs) * bigc) * x) * bigc), z, bigs);
    crate::base::lemma_swap_inner((((((bigf * bigs) * bigc) * x) * bigc) * bigs), z, f);
    crate::base::lemma_swap_inner(((((((bigf * bigs) * bigc) * x) * bigc) * bigs) * f), z, dy);
    crate::base::lemma_swap_inner(bigf, bigs, bigc);
    crate::base::lemma_swap_inner(((bigf * bigc) * bigs), x, bigc);
    crate::base::lemma_swap_inner((((bigf * bigc) * bigs) * bigc), x, bigs);
    crate::base::lemma_swap_inner(((((bigf * bigc) * bigs) * bigc) * bigs), x, f);
    crate::base::lemma_swap_inner((((((bigf * bigc) * bigs) * bigc) * bigs) * f), x, dy);
    crate::base::lemma_mul_comm(bigf, bigc);
    crate::base::lemma_swap_inner((bigc * bigf), bigs, bigc);
    crate::base::lemma_swap_inner(((((bigc * bigf) * bigc) * bigs) * bigs), f, dy);
    crate::base::lemma_swap_inner(bigc, bigf, bigc);
}


/// Equidistant fisheye intrinsics.
///
/// The angular half of the fisheye map — from a unit ray to the angle
/// pair (theta_x, theta_y) and back — runs through inverse trigonometric
/// functions and stays with the caller.  The intrinsic half, the linear
/// map between angle pairs and pixels, is exact here: u = fx theta_x +
/// skew theta_y + cx and v = fy theta_y + cy.  A ray exactly along the
/// optical axis has the angle pair (0, 0), which this map sends to the
/// principal point exactly; see
/// [`lemma_fisheye_axis_maps_to_principal_point`].
#[derive(Clone, Copy, Debug)]
pub struct Fisheye {
    pub fx: Scalar,
    pub fy: Scalar,
    pub cx: Scalar,
    pub cy: Scalar,
    pub skew: Scalar,
}

impl Fisheye {
    pub open spec fn wf(&self) -> bool {
        self.fx.wf() && self.fy.wf() && self.cx.wf() && self.cy.wf() && self.skew.wf()
    }

    pub open spec fn params_bounded(&self, b: int) -> bool {
        self.fx.bounded(b) && self.fy.bounded(b) && self.cx.bounded(b)
        && self.cy.bounded(b) && self.skew.bounded(b)
    }

    /// The exact pixel location of the angle pair, as numerators over the
    /// shared denominators.
    pub open spec fn theta_pixel_model(&self, tx: Scalar, ty: Scalar) -> PixModel {
        PixModel {
            un: self.fx.n * tx.n * self.skew.d * ty.d * self.cx.d
                + self.skew.n * ty.n * self.fx.d * tx.d * self.cx.d
                + self.cx.n * self.fx.d * tx.d * self.skew.d * ty.d,
            ud: self.fx.d * tx.d * self.skew.d * ty.d * self.cx.d,
            vn: self.fy.n * ty.n * self.cy.d + self.cy.n * self.fy.d * ty.d,
            vd: self.fy.d * ty.d * self.cy.d,
        }
    }

    pub fn new(fx: Scalar, fy: Scalar, cx: Scalar, cy: Scalar, skew: Scalar)
        -> (r: Fisheye)
        ensures
            r.fx == fx && r.fy == fy && r.cx == cx && r.cy == cy && r.skew == skew,
    {
        Fisheye { fx, fy, cx, cy, skew }
    }

    /// Map an angle pair to its pixel location.
    pub fn project_theta(&self, theta: &(Scalar, Scalar)) -> (r: PixelIndex<Scalar>)
        requires
            self.wf(),
            theta.0.wf() && theta.1.wf(),
            self.params_bounded(0x1_0000),
            theta.0.bounded(0x1_0000) && theta.1.bounded(0x1_0000),
        ensures
            r.wf(),
            r.model() == self.theta_pixel_model(theta.0, theta.1),
    {
        proof {
            lemma_theta_project_bounds(self.fx.n as int, self.fx.d as int,
                self.skew.n as int, self.skew.d as int, self.cx.n as int,
                self.cx.d as int, self.fy.n as int, self.fy.d as int,
                self.cy.n as int, self.cy.d as int, theta.0.n as int,
                theta.0.d as int, theta.1.n as int, theta.1.d as int);
        }
        let un = self.fx.n * theta.0.n * self.skew.d * theta.1.d * self.cx.d
            + self.skew.n * theta.1.n * self.fx.d * theta.0.d * self.cx.d
            + self.cx.n * self.fx.d * theta.0.d * self.skew.d * theta.1.d;
        let ud = self.fx.d * theta.0.d * self.skew.d * theta.1.d * self.cx.d;
        let vn = self.fy.n * theta.1.n * self.cy.d + self.cy.n * self.fy.d * theta.1.d;
        let vd = self.fy.d * theta.1.d * self.cy.d;
        PixelIndex(Scalar { n: un, d: ud }, Scalar { n: vn, d: vd })
    }

    /// Map a pixel location back to its angle pair; fails exactly when a
    /// focal length is zero.  The results are pinned by cross-multiplied
    /// equations: theta_y = (v - cy) / fy and
    /// theta_x = (u - cx - skew theta_y) / fx.
    pub fn unproject_theta(&self, px: &PixelIndex<Scalar>)
        -> (r: Result<(Scalar, Scalar), &'static str>)
        requires
            self.wf(),
            px.wf(),
            self.params_bounded(0x1_0000),
            px.0.bounded(0x1_0000) && px.1.bounded(0x1_0000),
        ensures
            match r {
                Result::Ok(theta) => {
                    &&& self.fx.n != 0 && self.fy.n != 0
                    &&& theta.0.wf() && theta.1.wf()
                    &&& theta.1.n * (px.1.d * self.cy.d * self.fy.n)
                        == ((px.1.n * self.cy.d - self.cy.n * px.1.d) * self.fy.d)
                            * theta.1.d
                    &&& theta.0.n * (px.0.d * self.cx.d * self.skew.d * self.fx.n
                            * theta.1.d)
                        == (((px.0.n * self.cx.d - self.cx.n * px.0.d) * self.skew.d
                                * theta.1.d
                            - self.skew.n * theta.1.n * px.0.d * self.cx.d)
                                * self.fx.d) * theta.0.d
                },
                Result::Err(_) => self.fx.n == 0 || self.fy.n == 0,
            },
    {
        if self.fx.n == 0 || self.fy.n == 0 {
            return Result::Err("cannot unproject: a focal length is zero");
        }
        proof {
            lemma_unproject_bounds(self.fx.n as int, self.fx.d as int,
                self.skew.n as int, self.skew.d as int, self.cx.n as int,
                self.cx.d as int, self.fy.n as int, self.fy.d as int,
                self.cy.n as int, self.cy.d as int, px.0.n as int, px.0.d as int,
                px.1.n as int, px.1.d as int);
        }
        let tyn = (px.1.n * self.cy.d - self.cy.n * px.1.d) * self.fy.d;
        let tyd = px.1.d * self.cy.d * self.fy.n;
        let ty = if tyd > 0 {
            Scalar { n: tyn, d: tyd }
        } else {
            proof {
                crate::base::lemma_mul_neg(tyn as int, tyd as int);
                crate::base::lemma_mul_comm(-(tyn as int), tyd as int);
                crate::base::lemma_mul_comm(tyn as int, -(tyd as int));
                crate::base::lemma_mul_neg(tyd as int, tyn as int);
            }
            Scalar { n: -tyn, d: -tyd }
        };
        proof {
            lemma_fisheye_tx_bounds(self.fx.n as int, self.fx.d as int,
                self.skew.n as int, self.skew.d as int, self.cx.n as int,
                self.cx.d as int, px.0.n as int, px.0.d as int, ty.n as int,
                ty.d as int);
        }
        let txn = ((px.0.n * self.cx.d - self.cx.n * px.0.d) * self.skew.d * ty.d
            - self.skew.n * ty.n * px.0.d * self.cx.d) * self.fx.d;
        let txd = px.0.d * self.cx.d * self.skew.d * self.fx.n * ty.d;
        let tx = if txd > 0 {
            Scalar { n: txn, d: txd }
        } else {
            proof {
                crate::base::lemma_mul_neg(txn as int, txd as int);
                crate::base::lemma_mul_comm(-(txn as int), txd as int);
                crate::base::lemma_mul_comm(txn as int, -(txd as int));
                crate::base::lemma_mul_neg(txd as int, txn as int);
            }
            Scalar { n: -txn, d: -txd }
        };
        Result::Ok((tx, ty))
    }
}

/// Magnitude bounds for the fisheye theta_x computation.
proof fn lemma_fisheye_tx_bounds(
    f: int, bigf: int, s: int, bigs: int, c: int, bigc: int,
    un: int, ud: int, tyn: int, tyd: int,
)
    requires
        -0x1_0000 <= f <= 0x1_0000 && 0 < bigf <= 0x1_0000,
        -0x1_0000 <= s <= 0x1_0000 && 0 < bigs <= 0x1_0000,
        -0x1_0000 <= c <= 0x1_0000 && 0 < bigc <= 0x1_0000,
        -0x1_0000 <= un <= 0x1_0000 && 0 < ud <= 0x1_0000,
        -0x2_0000_0000_0000 <= tyn <= 0x2_0000_0000_0000,
        0 < tyd <= 0x1_0000_0000_0000,
        f != 0,
    ensures
        ({
            let b2: int = 0x100_0000_0000_0000_0000_0000_0000_0000;
            let txn = ((un * bigc - c * ud) * bigs * tyd - s * tyn * ud * bigc) * bigf;
            let txd = ud * bigc * bigs * f * tyd;
            &&& -0x1_0000_0000 <= un * bigc <= 0x1_0000_0000
            &&& -0x1_0000_0000 <= c * ud <= 0x1_0000_0000
            &&& -b2 <= (un * bigc - c * ud) * bigs <= b2
            &&& -b2 <= (un * bigc - c * ud) * bigs * tyd <= b2
            &&& -b2 <= s * tyn <= b2 && -b2 <= s * tyn * ud <= b2
            &&& -b2 <= s * tyn * ud * bigc <= b2
            &&& -b2 <= txn <= b2
            &&& -b2 <= ud * bigc <= b2 && -b2 <= ud * bigc * bigs <= b2
            &&& -b2 <= ud * bigc * bigs * f <= b2
            &&& -b2 <= txd <= b2 && txd != 0
        }),
{
    lemma_abs_mul_le(un, bigc, 0x1_0000, 0x1_0000);
    lemma_abs_mul_le(c, ud, 0x1_0000, 0x1_0000);
    lemma_abs_mul_le(un * bigc - c * ud, bigs, 0x2_0000_0000, 0x1_0000);
    lemma_abs_mul_le((un * bigc - c * ud) * bigs, tyd, 0x2_0000_0000_0000,
        0x1_0000_0000_0000);
    lemma_abs_mul_le(s, tyn, 0x1_0000, 0x2_0000_0000_0000);
    lemma_abs_mul_le(s * tyn, ud, 0x2_0000_0000_0000_0000, 0x1_0000);
    lemma_abs_mul_le(s * tyn * ud, bigc, 0x2_0000_0000_0000_0000_0000, 0x1_0000);
    lemma_abs_mul_le((un * bigc - c * ud) * bigs * tyd - s * tyn * ud * bigc, bigf,
        0x8_0000_0000_0000_0000_0000_0000, 0x1_0000);
    lemma_abs_mul_le(ud, bigc, 0x1_0000, 0x1_0000);
    lemma_abs_mul_le(ud * bigc, bigs, 0x1_0000_0000, 0x1_0000);
    lemma_abs_mul_le(ud * bigc * bigs, f, 0x1_0000_0000_0000, 0x1_0000);
    lemma_abs_mul_le(ud * bigc * bigs * f, tyd, 0x1_0000_0000_0000_0000,
        0x1_0000_0000_0000);
    assert(ud * bigc > 0) by (nonlinear_arith)
        requires ud > 0 && bigc > 0;
    assert(ud * bigc * bigs > 0) by (nonlinear_arith)
        requires ud * bigc > 0 && bigs > 0;
    assert(ud * bigc * bigs * f != 0) by (nonlinear_arith)
        requires ud * bigc * bigs > 0 && f != 0;
    assert(ud * bigc * bigs * f * tyd != 0) by (nonlinear_arith)
        requires ud * bigc * bigs * f != 0 && tyd > 0;
}

/// The angle pair (0, 0) — a ray exactly along the optical axis — maps
/// to exactly the principal point (cx, cy), with no degenerate case.
pub proof fn lemma_fisheye_axis_maps_to_principal_point(
    fe: Fisheye, tx: Scalar, ty: Scalar,
)
    requires
        fe.wf(),
        tx.wf() && ty.wf(),
        tx.n == 0,
        ty.n == 0,
    ensures
        fe.theta_pixel_model(tx, ty).wf(),
        fe.theta_pixel_model(tx, ty).un * fe.cx.d
            == fe.cx.n * fe.theta_pixel_model(tx, ty).ud,
        fe.theta_pixel_model(tx, ty).vn * fe.cy.d
            == fe.cy.n * fe.theta_pixel_model(tx, ty).vd,
{
    let f = fe.fx.n as int;
    let bigf = fe.fx.d as int;
    let s = fe.skew.n as int;
    let bigs = fe.skew.d as int;
    let c = fe.cx.n as int;
    let bigc = fe.cx.d as int;
    let g = fe.fy.n as int;
    let bigg = fe.fy.d as int;
    let e = fe.cy.n as int;
    let bige = fe.cy.d as int;
    let ad = tx.d as int;
    let bd = ty.d as int;
    // Both numerator terms that carry an angle vanish.
    assert(f * tx.n * bigs * bd * bigc == 0) by (nonlinear_arith)
        requires tx.n == 0;
    assert(s * ty.n * bigf * ad * bigc == 0) by (nonlinear_arith)
        requires ty.n == 0;
    assert(g * ty.n * bige == 0) by (nonlinear_arith)
        requires ty.n == 0;
    // What remains is cx and cy scaled by the shared positive denominator.
    crate::base::lemma_mul_reassoc(c * bigf * ad * bigs, bd, bigc);
    crate::base::lemma_swap_inner(c * bigf * ad * bigs, bd, bigc);
    lemma_fisheye_center_u(f, bigf, s, bigs, c, bigc, ad, bd);
    lemma_fisheye_center_v(g, bigg, e, bige, bd);
    assert(bigf * ad > 0) by (nonlinear_arith)
        requires bigf > 0 && ad > 0;
    assert(bigf * ad * bigs > 0) by (nonlinear_arith)
        requires bigf * ad > 0 && bigs > 0;
    assert(bigf * ad * bigs * bd > 0) by (nonlinear_arith)
        requires bigf * ad * bigs > 0 && bd > 0;
    assert(bigf * ad * bigs * bd * bigc > 0) by (nonlinear_arith)
        requires bigf * ad * bigs * bd > 0 && bigc > 0;
    assert(bigg * bd > 0) by (nonlinear_arith)
        requires bigg > 0 && bd > 0;
    assert(bigg * bd * bige > 0) by (nonlinear_arith)
        requires bigg * bd > 0 && bige > 0;
}

/// The u numerator of the on-axis fisheye pixel matches cx.
proof fn lemma_fisheye_center_u(
    f: int, bigf: int, s: int, bigs: int, c: int, bigc: int, ad: int, bd: int,
)
    by (nonlinear_arith)
    ensures
        (c * bigf * ad * bigs * bd) * bigc == c * (bigf * ad * bigs * bd * bigc),
{
}

/// The v numerator of the on-axis fisheye pixel matches cy.
proof fn lemma_fisheye_center_v(g: int, bigg: int, e: int, bige: int, bd: int)
    by (nonlinear_arith)
    ensures
        (e * bigg * bd) * bige == e * (bigg * bd * bige),
{
}

/// Magnitude bounds for the fisheye theta projection.
proof fn lemma_theta_project_bounds(
    f: int, bigf: int, s: int, bigs: int, c: int, bigc: int,
    g: int, bigg: int, e: int, bige: int,
    an: int, ad: int, bn: int, bd: int,
)
    requires
        -0x1_0000 <= f <= 0x1_0000 && 0 < bigf <= 0x1_0000,
        -0x1_0000 <= s <= 0x1_0000 && 0 < bigs <= 0x1_0000,
        -0x1_0000 <= c <= 0x1_0000 && 0 < bigc <= 0x1_0000,
        -0x1_0000 <= g <= 0x1_0000 && 0 < bigg <= 0x1_0000,
        -0x1_0000 <= e <= 0x1_0000 && 0 < bige <= 0x1_0000,
        -0x1_0000 <= an <= 0x1_0000 && 0 < ad <= 0x1_0000,
        -0x1_0000 <= bn <= 0x1_0000 && 0 < bd <= 0x1_0000,
    ensures
        ({
            let b1: int = 0x1_0000_0000_0000_0000_0000;
            &&& -b1 <= f * an <= b1 && -b1 <= f * an * bigs <= b1
            &&& -b1 <= f * an * bigs * bd <= b1 && -b1 <= f * an * bigs * bd * bigc <= b1
            &&& -b1 <= s * bn <= b1 && -b1 <= s * bn * bigf <= b1
            &&& -b1 <= s * bn * bigf * ad <= b1 && -b1 <= s * bn * bigf * ad * bigc <= b1
            &&& -b1 <= c * bigf <= b1 && -b1 <= c * bigf * ad <= b1
            &&& -b1 <= c * bigf * ad * bigs <= b1 && -b1 <= c * bigf * ad * bigs * bd <= b1
            &&& 0 < bigf * ad <= b1 && 0 < bigf * ad * bigs <= b1
            &&& 0 < bigf * ad * bigs * bd <= b1 && 0 < bigf * ad * bigs * bd * bigc <= b1
            &&& -b1 <= g * bn <= b1 && -b1 <= g * bn * bige <= b1
            &&& -b1 <= e * bigg <= b1 && -b1 <= e * bigg * bd <= b1
            &&& 0 < bigg * bd <= b1 && 0 < bigg * bd * bige <= b1
        }),
{
    lemma_abs_mul_le(f, an, 0x1_0000, 0x1_0000);
    lemma_abs_mul_le(f * an, bigs, 0x1_0000_0000, 0x1_0000);
    lemma_abs_mul_le(f * an * bigs, bd, 0x1_0000_0000_0000, 0x1_0000);
    lemma_abs_mul_le(f * an * bigs * bd, bigc, 0x1_0000_0000_0000_0000, 0x1_0000);
    lemma_abs_mul_le(s, bn, 0x1_0000, 0x1_0000);
    lemma_abs_mul_le(s * bn, bigf, 0x1_0000_0000, 0x1_0000);
    lemma_abs_mul_le(s * bn * bigf, ad, 0x1_0000_0000_0000, 0x1_0000);
    lemma_abs_mul_le(s * bn * bigf * ad, bigc, 0x1_0000_0000_0000_0000, 0x1_0000);
    lemma_abs_mul_le(c, bigf, 0x1_0000, 0x1_0000);
    lemma_abs_mul_le(c * bigf, ad, 0x1_0000_0000, 0x1_0000);
    lemma_abs_mul_le(c * bigf * ad, bigs, 0x1_0000_0000_0000, 0x1_0000);
    lemma_abs_mul_le(c * bigf * ad * bigs, bd, 0x1_0000_0000_0000_0000, 0x1_0000);
    assert(0 < bigf * ad <= 0x1_0000_0000) by (nonlinear_arith)
        requires 0 < bigf <= 0x1_0000 && 0 < ad <= 0x1_0000;
    assert(0 < bigf * ad * bigs <= 0x1_0000_0000_0000) by (nonlinear_arith)
        requires 0 < bigf * ad <= 0x1_0000_0000 && 0 < bigs <= 0x1_0000;
    assert(0 < bigf * ad * bigs * bd <= 0x1_0000_0000_0000_0000) by (nonlinear_arith)
        requires 0 < bigf * ad * bigs <= 0x1_0000_0000_0000 && 0 < bd <= 0x1_0000;
    assert(0 < bigf * ad * bigs * bd * bigc <= 0x1_0000_0000_0000_0000_0000)
        by (nonlinear_arith)
        requires 0 < bigf * ad * bigs * bd <= 0x1_0000_0000_0000_0000
            && 0 < bigc <= 0x1_0000;
    lemma_abs_mul_le(g, bn, 0x1_0000, 0x1_0000);
    lemma_abs_mul_le(g * bn, bige, 0x1_0000_0000, 0x1_0000);
    lemma_abs_mul_le(e, bigg, 0x1_0000, 0x1_0000);
    lemma_abs_mul_le(e * bigg, bd, 0x1_0000_0000, 0x1_0000);
    assert(0 < bigg * bd <= 0x1_0000_0000) by (nonlinear_arith)
        requires 0 < bigg <= 0x1_0000 && 0 < bd <= 0x1_0000;
    assert(0 < bigg * bd * bige <= 0x1_0000_0000_0000) by (nonlinear_arith)
        requires 0 < bigg * bd <= 0x1_0000_0000 && 0 < bige <= 0x1_0000;
}

} // verus!
