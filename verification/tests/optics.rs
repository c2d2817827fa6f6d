use camera_models::CameraDistortion;
use camera_models::CameraModel;
use camera_models::CameraProjection;
use camera_models::CameraRay;
use camera_models::Fisheye;
use camera_models::Ideal;
use camera_models::Pinhole;
use camera_models::PixelIndex;
use camera_models::PlumbBob;
use camera_models::Point;
use camera_models::Scalar;

fn s(n: i64) -> Scalar {
    Scalar::from_int(n)
}

fn ray(x: i64, y: i64, z: i64) -> CameraRay {
    CameraRay::new(s(x), s(y), s(z)).unwrap()
}

fn zero_plumb() -> PlumbBob {
    PlumbBob::new(s(0), s(0), s(0), s(0), s(0))
}

#[test]
fn test_plumb() {
    let p = zero_plumb();
    let p2 = p.distort(&ray(1, 1, 1));
    assert!(p2.eqv(&ray(1, 1, 1)));
}

#[test]
fn test_roundtrip() {
    let p = zero_plumb();
    let p2 = p.distort(&ray(1, 1, 1));
    let p3 = p.distort(&p2);
    assert!(p3.eqv(&ray(1, 1, 1)));
}

#[test]
fn ideal_distorts_nothing() {
    let r = ray(3, -2, 5);
    let d = Ideal {}.distort(&r);
    assert!(d.x == r.x && d.y == r.y && d.z == r.z);
}

#[test]
fn plumb_bob_radial_exact() {
    // k1 = 1, everything else 0, on the ray (1, 1, 1):
    // r^2 = 2, radial = 1 + 2 = 3, no tangential part.
    let p = PlumbBob::new(s(1), s(0), s(0), s(0), s(0));
    let d = p.distort(&ray(1, 1, 1));
    assert!(d.eqv(&ray(3, 3, 1)));
}

#[test]
fn plumb_bob_tangential_exact() {
    // p1 = 1, everything else 0, on the ray (1, 1, 1):
    // tangential_x = 2 * 1 * 1 = 2, tangential_y = r^2 + 2 = 4,
    // radial = 1, so the result is (1 + 2, 1 + 4) = (3, 5).
    let p = PlumbBob::new(s(0), s(0), s(1), s(0), s(0));
    let d = p.distort(&ray(1, 1, 1));
    assert!(d.eqv(&ray(3, 5, 1)));
}

#[test]
fn pinhole_project_formula() {
    // u = fx x + skew y + cx = 2*1 + 1*2 + 10 = 14, v = fy y + cy = 3*2 + 20 = 26.
    let ph = Pinhole::new(s(2), s(3), s(10), s(20), s(1));
    let px = ph.project(&ray(1, 2, 1));
    assert!(px.x().eqv(&s(14)));
    assert!(px.y().eqv(&s(26)));
}

#[test]
fn pinhole_unproject_formula() {
    // y = (26 - 20) / 3 = 2, x = (12 - 10) / 2 = 1.
    let ph = Pinhole::new(s(2), s(3), s(10), s(20), s(0));
    let r = ph.unproject(&PixelIndex(s(12), s(26))).unwrap();
    assert!(r.eqv(&ray(1, 2, 1)));
}

#[test]
fn pinhole_pixel_round_trip_exact() {
    let ph = Pinhole::new(s(2), s(3), s(10), s(20), s(1));
    for (u, v) in [(0, 0), (12, 26), (-3, 7), (100, 41)] {
        let px = PixelIndex(s(u), s(v));
        let r = ph.unproject(&px).unwrap();
        let back = ph.project(&r);
        assert!(back.eqv(&PixelIndex(s(u), s(v))));
    }
}

#[test]
fn pinhole_ray_round_trip_exact() {
    let ph = Pinhole::new(s(2), s(3), s(10), s(20), s(1));
    for (x, y, z) in [(0, 0, 1), (1, 2, 1), (-3, 4, 2), (7, -5, 3)] {
        let r = ray(x, y, z);
        let px = ph.project(&r);
        let back = ph.unproject(&px).unwrap();
        assert!(back.eqv(&r));
    }
}

#[test]
fn pinhole_unproject_zero_focal_fails() {
    let ph = Pinhole::new(s(0), s(3), s(10), s(20), s(0));
    assert!(ph.unproject(&PixelIndex(s(1), s(1))).is_err());
    let ph = Pinhole::new(s(2), s(0), s(10), s(20), s(0));
    assert!(ph.unproject(&PixelIndex(s(1), s(1))).is_err());
}

#[test]
fn pinhole_from_resolution_tan() {
    // Half-angle tangent 1 on both axes (a 90 degree field of view):
    // fx = 640 / 2 = 320, fy = 240, center at (320, 240).
    let ph = Pinhole::from_resolution_tan((640, 480), (s(1), s(1))).unwrap();
    assert!(ph.fx.eqv(&s(320)));
    assert!(ph.fy.eqv(&s(240)));
    assert!(ph.cx.eqv(&s(320)));
    assert!(ph.cy.eqv(&s(240)));
    assert!(ph.skew.eqv(&s(0)));
    assert!(Pinhole::from_resolution_tan((640, 480), (s(0), s(1))).is_err());
}

#[test]
fn camera_model_composes() {
    let ph = Pinhole::new(s(2), s(3), s(10), s(20), s(0));
    let cam = CameraModel::new(ph, zero_plumb());
    let px = cam.project(&ray(1, 2, 1));
    // With zero distortion coefficients the composition is the bare
    // pinhole map.
    assert!(px.x().eqv(&s(12)));
    assert!(px.y().eqv(&s(26)));
    let back = cam.unproject(&px).unwrap();
    assert!(back.eqv(&ray(1, 2, 1)));
    assert!(cam.projection().fx.eqv(&s(2)));
}

#[test]
fn camera_ray_accessors() {
    let r = CameraRay::new(s(3), s(4), s(2)).unwrap();
    assert!(r.x().eqv(&Scalar::new(3, 2)));
    assert!(r.y().eqv(&Scalar::new(2, 1)));
    let (x, y) = r.xy();
    assert!(x.eqv(&Scalar::new(3, 2)) && y.eqv(&s(2)));
    assert!(CameraRay::new(s(1), s(1), s(0)).is_err());
    assert!(CameraRay::new(s(1), s(1), s(-1)).is_err());
}

#[test]
fn camera_ray_from_point() {
    let p = Point::new(s(1), s(2), s(4));
    let r = CameraRay::from_point(&p).unwrap();
    assert!(r.eqv(&ray(1, 2, 4)));
    let behind = Point::new(s(1), s(2), s(-1));
    assert!(CameraRay::from_point(&behind).is_err());
}

#[test]
fn nearest_rounds_half_away_and_saturates() {
    // 3/2 rounds to 2 (ties away from zero); -1/2 saturates to 0.
    let px = PixelIndex(Scalar::new(3, 2), Scalar::new(-1, 2));
    let n = px.nearest();
    assert_eq!(n.0, 2);
    assert_eq!(n.1, 0);
    let px = PixelIndex(Scalar::new(7, 4), Scalar::new(-9, 2));
    let n = px.nearest();
    assert_eq!(n.0, 2);
    assert_eq!(n.1, 0);
    let px = PixelIndex(Scalar::new(5, 2), s(7));
    let n = px.nearest();
    assert_eq!(n.0, 3);
    assert_eq!(n.1, 7);
    // Far beyond the pixel range: saturates at the top.
    let px = PixelIndex(Scalar::from_int(0x1_0000_0000), s(0));
    assert_eq!(px.nearest().0, u32::MAX);
}

#[test]
fn scalar_equality_is_exact() {
    assert!(Scalar::new(1, 2).eqv(&Scalar::new(2, 4)));
    assert!(Scalar::new(1, -2).eqv(&Scalar::new(-1, 2)));
    assert!(!Scalar::new(1, 3).eqv(&Scalar::new(1, 2)));
}

#[test]
fn fisheye_axis_maps_to_principal_point() {
    // A ray exactly along the optical axis has the angle pair (0, 0);
    // it lands exactly on the principal point, with no degenerate case.
    let fe = Fisheye::new(s(2), s(3), s(10), s(20), s(1));
    let px = fe.project_theta(&(s(0), s(0)));
    assert!(px.x().eqv(&s(10)));
    assert!(px.y().eqv(&s(20)));
}

#[test]
fn fisheye_theta_round_trip() {
    let fe = Fisheye::new(s(2), s(3), s(10), s(20), s(1));
    let theta = (Scalar::new(1, 2), Scalar::new(-1, 3));
    let px = fe.project_theta(&theta);
    let back = fe.unproject_theta(&px).unwrap();
    assert!(back.0.eqv(&theta.0));
    assert!(back.1.eqv(&theta.1));
    let zero_focal = Fisheye::new(s(0), s(3), s(10), s(20), s(0));
    assert!(zero_focal.unproject_theta(&px).is_err());
}

#[test]
fn plumb_bob_params_exact() {
    // For (x, y) = (1/2, 1): x^2 = 1/4, y^2 = 1, x y = 1/2, r^2 = 5/4,
    // r^4 = 25/16, r^6 = 125/64.
    let (x2, y2, xy, r2, r4, r6) = PlumbBob::params(Scalar::new(1, 2), s(1));
    assert!(x2.eqv(&Scalar::new(1, 4)));
    assert!(y2.eqv(&s(1)));
    assert!(xy.eqv(&Scalar::new(1, 2)));
    assert!(r2.eqv(&Scalar::new(5, 4)));
    assert!(r4.eqv(&Scalar::new(25, 16)));
    assert!(r6.eqv(&Scalar::new(125, 64)));
}
