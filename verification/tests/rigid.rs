use camera_models::Camera;
use camera_models::CameraModel;
use camera_models::Ideal;
use camera_models::Pinhole;
use camera_models::Point;
use camera_models::Pose;
use camera_models::Rotation;
use camera_models::Scalar;
use camera_models::Transform;
use camera_models::Vector;

fn s(n: i64) -> Scalar {
    Scalar::from_int(n)
}

fn pt(x: i64, y: i64, z: i64) -> Point {
    Point::new(s(x), s(y), s(z))
}

#[test]
fn test_pose_new() {
    // A rotation about the z axis, as an exact integer quaternion.
    let rotation = Rotation::new(2, 0, 0, 1).unwrap();
    let translation = pt(1, 2, 3);
    let pose = Pose::new(rotation, translation);
    assert!(pose.rotation.w == 2 && pose.rotation.x == 0 && pose.rotation.y == 0
        && pose.rotation.z == 1);
    assert!(pose.origin.eqv(&pt(1, 2, 3)));
}

#[test]
fn test_pose_identity() {
    let pose = Pose::identity();
    let id = Rotation::identity();
    assert!(pose.rotation.w == id.w && pose.rotation.x == id.x
        && pose.rotation.y == id.y && pose.rotation.z == id.z);
    assert!(pose.origin.eqv(&Point::origin()));
}

#[test]
fn test_transforming() {
    let p1 = Pose::identity();
    let t1 = Transform::new(Rotation::identity(), Vector::from_ints(1, 0, 0));
    let moved = p1.transform(&t1);
    assert!(moved.origin.eqv(&pt(1, 0, 0)));
    assert!(moved.rotation.w == 1 && moved.rotation.x == 0 && moved.rotation.y == 0
        && moved.rotation.z == 0);
}

#[test]
fn geometry_test_transforming() {
    let p1 = Pose::identity();
    let t1 = Transform::new(Rotation::identity(), Vector::from_ints(1, 0, 0));
    let moved = t1.apply_point(&p1.origin);
    assert!(moved.eqv(&pt(1, 0, 0)));
    assert!(moved.eqv(&p1.transform(&t1).origin));
}

#[test]
fn transform_rotates_exactly() {
    // The quaternion (0, 0, 0, 1) is a half turn about the z axis:
    // (1, 2, 3) goes to (-1, -2, 3).
    let rot = Rotation::new(0, 0, 0, 1).unwrap();
    let t = Transform::new(rot, Vector::from_ints(0, 0, 0));
    let moved = t.apply_point(&pt(1, 2, 3));
    assert!(moved.eqv(&pt(-1, -2, 3)));
}

#[test]
fn transform_inverse_restores() {
    // Inverting a pure translation negates it; inverting twice restores
    // the transform, rotation and translation alike.
    let t = Transform::new(Rotation::identity(), Vector::from_ints(1, 2, 3));
    let inv = t.inverse();
    assert!(inv.translation.eqv(&Vector::from_ints(-1, -2, -3)));
    let back = inv.inverse();
    assert!(back.translation.eqv(&t.translation));
    assert!(back.rotation.w == t.rotation.w && back.rotation.x == t.rotation.x
        && back.rotation.y == t.rotation.y && back.rotation.z == t.rotation.z);
    // The same holds with a nontrivial rotation.
    let rot = Rotation::new(1, 0, 1, 0).unwrap();
    let t2 = Transform::new(rot, Vector::from_ints(4, 5, 6));
    let back2 = t2.inverse().inverse();
    assert!(back2.rotation.w == t2.rotation.w && back2.rotation.x == t2.rotation.x
        && back2.rotation.y == t2.rotation.y && back2.rotation.z == t2.rotation.z);
    assert!(back2.translation.eqv(&t2.translation));
}

#[test]
fn transform_unapply_undoes_apply() {
    let rot = Rotation::new(1, 0, 1, 0).unwrap();
    let t = Transform::new(rot, Vector::from_ints(1, 2, 3));
    let p = pt(4, 5, 6);
    let moved = t.apply_point(&p);
    let back = t.unapply_point(&moved);
    assert!(back.eqv(&p));
}

#[test]
fn pose_transform_into() {
    let pose = Pose::new(Rotation::identity(), pt(1, 2, 3));
    let moved = pose.transform_into(&pt(1, 1, 1));
    assert!(moved.eqv(&pt(2, 3, 4)));
}

#[test]
fn camera_holds_model_and_pose() {
    let ph = Pinhole::new(s(2), s(3), s(10), s(20), s(0));
    let cam = Camera::new(CameraModel::new(ph, Ideal {}), Pose::identity());
    assert!(cam.pose().origin.eqv(&Point::origin()));
    assert!(cam.model().projection().fx.eqv(&s(2)));
}

#[test]
fn transform_compose_concrete() {
    let a = Transform::new(Rotation::identity(), Vector::from_ints(1, 0, 0));
    let b = Transform::new(Rotation::identity(), Vector::from_ints(0, 2, 0));
    let c = a.compose(&b);
    assert!(c.translation.eqv(&Vector::from_ints(1, 2, 0)));
}
