//! Exact camera-model and 3D-geometry library.
//!
//! Every quantity is an exact rational, carried either as a [`Scalar`]
//! fraction or in a homogeneous integer representation (a tuple of integer
//! coordinates meaningful up to a positive common factor).  This makes the
//! optical pipeline — distortion composed with projection — and the geometric
//! intersection algorithms exact, so their algebraic laws are proved rather
//! than approximated.

mod base;
mod camera;
mod distortion;
mod projection;
mod intersections;
mod scalar;
mod transforms;

pub use base::Direction;
pub use base::Intersection;
pub use base::Line;
pub use base::LineSegment;
pub use base::Object;
pub use base::Plane;
pub use base::Point;
pub use base::Ray;
pub use camera::CameraRay;
pub use camera::PixModel;
pub use camera::Camera;
pub use camera::CameraModel;
pub use camera::PixelIndex;
pub use camera::RayModel;
pub use distortion::CameraDistortion;
pub use distortion::Ideal;
pub use distortion::PlumbBob;
pub use distortion::lemma_plumb_bob_zero_identity;
pub use projection::CameraProjection;
pub use projection::Fisheye;
pub use projection::Pinhole;
pub use projection::lemma_fisheye_axis_maps_to_principal_point;
pub use projection::lemma_pinhole_pixel_round_trip;
pub use projection::lemma_pinhole_ray_round_trip;
pub use intersections::intersect;
pub use intersections::intersect_line_plane;
pub use intersections::intersect_ray_plane;
pub use scalar::Scalar;
pub use transforms::Pose;
pub use transforms::QuatModel;
pub use transforms::Rotation;
pub use transforms::Transform;
pub use transforms::Vector;
pub use transforms::apply_model;
pub use transforms::inverse_model;
pub use transforms::lemma_transform_inverse_involution;
pub use transforms::q_conj;
pub use transforms::q_mul;
pub use transforms::q_norm2;
pub use transforms::rot_tuple;
