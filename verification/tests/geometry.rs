use camera_models::Direction;
use camera_models::Intersection;
use camera_models::Line;
use camera_models::LineSegment;
use camera_models::Object;
use camera_models::Plane;
use camera_models::Point;
use camera_models::Ray;
use camera_models::Scalar;
use camera_models::intersect;
use camera_models::intersect_line_plane;
use camera_models::intersect_ray_plane;

fn s(n: i64) -> Scalar {
    Scalar::from_int(n)
}

fn pt(x: i64, y: i64, z: i64) -> Point {
    Point::new(s(x), s(y), s(z))
}

fn dir(x: i64, y: i64, z: i64) -> Direction {
    Direction::from_ints(x, y, z).unwrap()
}

#[test]
fn test_intersect_line_plane() {
    let line = Line::new(pt(0, 0, 0), dir(1, 0, 0));
    let plane = Plane::new(dir(0, 1, 0), s(0));
    let intersection = intersect_line_plane(&line, &plane);
    assert!(matches!(intersection, Some(Intersection::Line(_line))));

    let line = Line::new(pt(0, 0, 0), dir(0, 1, 0));
    let plane = Plane::new(dir(0, 1, 0), s(0));
    let intersection = intersect_line_plane(&line, &plane);
    assert!(matches!(intersection, Some(Intersection::Point(_))));
}

#[test]
fn test_intersect_ray_plane() {
    let ray = Ray::new(pt(0, 0, 0), dir(1, 0, 0));
    let plane = Plane::new(dir(1, 0, 0), s(0));
    let intersection = intersect_ray_plane(&ray, &plane);
    match intersection {
        Some(Intersection::Point(point)) => {
            assert!(point.eqv(&pt(0, 0, 0)));
        }
        other => panic!(
            "Expected ray-plane intersection as a Point at origin, got other {:?}",
            other
        ),
    }
    // ray orthogonal to the plane normal but outside the plane
    let ray = Ray::new(pt(0, 0, 0), dir(1, 1, 0));
    let plane = Plane::new(dir(0, 0, 1), s(1));
    let intersection = intersect_ray_plane(&ray, &plane);
    assert!(matches!(intersection, None));

    // ray inside plane
    let ray = Ray::new(pt(0, 0, 0), dir(1, 1, 0));
    let plane = Plane::new(dir(0, 0, 1), s(0));
    let intersection = intersect_ray_plane(&ray, &plane);
    match intersection {
        Some(Intersection::Ray(rr)) => assert!(rr.eqv(&ray)),
        other => panic!("expected the whole ray, got {:?}", other),
    }
}

#[test]
fn test_plane_new() {
    let normal = dir(1, 0, 0);
    let d = s(1);
    let plane = Plane::new(normal, d);
    assert!(plane.normal().eqv(&dir(1, 0, 0)));
    assert!(plane.origin().eqv(&pt(1, 0, 0)));
}

#[test]
fn test_plane_from_origin_normal() {
    let origin = pt(1, 2, 3);
    let normal = dir(1, 1, 1);
    let plane = Plane::from_origin_normal(origin, normal);
    assert!(plane.normal().eqv(&dir(1, 1, 1)));
    assert!(plane.origin().eqv(&pt(2, 2, 2)));
}

#[test]
fn test_plane_from_line_dir() {
    let line = Line::new(pt(1, 2, 3), dir(1, 0, 0));
    let d = dir(0, 1, 0);
    let plane = Plane::from_line_dir(&line, &d).unwrap();
    assert!(plane.normal().eqv(&dir(0, 0, 1)));
    assert!(plane.origin().eqv(&pt(0, 0, 3)));
}

#[test]
fn test_plane_from_line_point() {
    let line = Line::new(pt(1, 2, 3), dir(1, 0, 0));
    let point = pt(1, 3, 3);
    let plane = Plane::from_line_point(&line, &point).unwrap();
    assert!(plane.normal().eqv(&dir(0, 0, 1)));
    assert!(plane.origin().eqv(&pt(0, 0, 3)));
}

#[test]
fn test_ray_new() {
    let origin = pt(1, 2, 3);
    let direction = dir(1, 0, 0);
    let ray = Ray::new(origin, direction);
    assert!(ray.origin().eqv(&pt(1, 2, 3)));
    assert!(ray.direction().eqv(&dir(1, 0, 0)));
}

#[test]
fn test_line_new() {
    let origin = pt(1, 2, 3);
    let direction = dir(1, 0, 0);
    let line = Line::new(origin, direction);
    assert!(line.origin().eqv(&pt(1, 2, 3)));
    assert!(line.direction().eqv(&dir(1, 0, 0)));
}

#[test]
fn test_line_segment_new() {
    let start = pt(1, 2, 3);
    let end = pt(4, 5, 6);
    let line_segment = LineSegment::new(start, end).unwrap();
    assert!(line_segment.start().eqv(&pt(1, 2, 3)));
    assert!(line_segment.end().eqv(&pt(4, 5, 6)));
    assert!(line_segment.direction().eqv(&dir(1, 1, 1)));
}

#[test]
fn test_line_equality() {
    let line1 = Line::new(pt(0, 0, 0), dir(1, 1, 1));
    let line2 = Line::new(pt(0, 0, 0), dir(1, 1, 1));
    assert_eq!(line1.eqv(&line2), true);

    let line3 = Line::new(pt(1, 1, 1), dir(1, 1, 1));
    assert_eq!(line1.eqv(&line3), true);

    let line4 = Line::new(pt(1, 0, 0), dir(1, 0, 0));
    assert_eq!(line1.eqv(&line4), false);
}

#[test]
fn degenerate_constructors_fail() {
    assert!(Direction::from_ints(0, 0, 0).is_err());
    assert!(Direction::new(s(0), s(0), s(0)).is_err());
    assert!(LineSegment::new(pt(1, 2, 3), pt(1, 2, 3)).is_err());
    // colinear direction: no unique plane
    let line = Line::new(pt(0, 0, 0), dir(2, 0, 0));
    assert!(Plane::from_line_dir(&line, &dir(1, 0, 0)).is_err());
    // point on the line: no unique plane
    assert!(Plane::from_line_point(&line, &pt(5, 0, 0)).is_err());
}

#[test]
fn fractional_coordinates_are_exact() {
    // The point (1/2, 1/3, 1/6) lies on the plane x + y + z = 1.
    let p = Point::new(Scalar::new(1, 2), Scalar::new(1, 3), Scalar::new(1, 6));
    let plane = Plane::new(dir(1, 1, 1), s(1));
    assert!(plane.contains_point(&p));
    // And (1/2, 1/3, 1/5) does not.
    let q = Point::new(Scalar::new(1, 2), Scalar::new(1, 3), Scalar::new(1, 5));
    assert!(!plane.contains_point(&q));
}

#[test]
fn intersect_dispatch() {
    let line = Line::new(pt(0, 0, 0), dir(0, 1, 0));
    let plane = Plane::new(dir(0, 1, 0), s(0));
    assert!(matches!(
        intersect(Object::Plane(plane), Object::Line(line)),
        Some(Intersection::Point(_))
    ));
    let ray = Ray::new(pt(0, 0, 0), dir(0, 1, 0));
    assert!(matches!(
        intersect(Object::Ray(ray), Object::Plane(plane)),
        Some(Intersection::Point(_))
    ));
    assert!(intersect(Object::Point(pt(0, 0, 0)), Object::Point(pt(0, 0, 0))).is_none());
}

#[test]
fn ray_plane_behind_camera() {
    // The plane x = 1 is in front: a forward hit.
    let ray = Ray::new(pt(0, 0, 0), dir(1, 0, 0));
    let ahead = Plane::new(dir(1, 0, 0), s(1));
    match intersect_ray_plane(&ray, &ahead) {
        Some(Intersection::Point(p)) => assert!(p.eqv(&pt(1, 0, 0))),
        other => panic!("expected a point, got {:?}", other),
    }
    // The plane x = -1 is behind: no intersection.
    let behind = Plane::new(dir(1, 0, 0), Scalar::new(-1, 1));
    assert!(intersect_ray_plane(&ray, &behind).is_none());
}
