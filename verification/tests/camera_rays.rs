//! Camera construction and ray casting: builder validation, the setters'
//! exact arithmetic, and the center-ray round trip.

use raytracer::camera::{CameraError, PerspectiveCameraBuilder};
use raytracer::fixed::SCALE;
use raytracer::math::Vec3;

#[test]
fn build_rejects_missing_translation() {
    let r = PerspectiveCameraBuilder::default().build();
    assert_eq!(r.unwrap_err(), CameraError::MissingTranslation);
}

#[test]
fn build_rejects_missing_look_at() {
    let r = PerspectiveCameraBuilder::default()
        .translation(Vec3::new(0, 0, 5 * SCALE))
        .build();
    assert_eq!(r.unwrap_err(), CameraError::MissingLookAt);
}

#[test]
fn build_rejects_eye_at_target() {
    let eye = Vec3::new(SCALE, SCALE, SCALE);
    let r = PerspectiveCameraBuilder::default().translation(eye).look_at(eye).build();
    assert_eq!(r.unwrap_err(), CameraError::DegenerateLookAt);
}

#[test]
fn build_rejects_view_parallel_to_world_up() {
    let r = PerspectiveCameraBuilder::default()
        .translation(Vec3::new(0, 0, 0))
        .look_at(Vec3::new(0, 5 * SCALE, 0))
        .build();
    assert_eq!(r.unwrap_err(), CameraError::DegenerateLookAt);
}

#[test]
fn build_rejects_nonpositive_focal_length() {
    let r = PerspectiveCameraBuilder::default()
        .translation(Vec3::new(0, 0, 5 * SCALE))
        .look_at(Vec3::new(0, 0, 0))
        .focal_length(0)
        .build();
    assert_eq!(r.unwrap_err(), CameraError::InvalidFocalLength);
}

#[test]
fn build_rejects_zero_aspect_ratio() {
    let r = PerspectiveCameraBuilder::default()
        .translation(Vec3::new(0, 0, 5 * SCALE))
        .look_at(Vec3::new(0, 0, 0))
        .aspect_frac(0, 1)
        .build();
    assert_eq!(r.unwrap_err(), CameraError::InvalidAspectRatio);
}

#[test]
fn build_rejects_zero_image_dimension() {
    let r = PerspectiveCameraBuilder::default()
        .translation(Vec3::new(0, 0, 5 * SCALE))
        .look_at(Vec3::new(0, 0, 0))
        .image_size(0, 32)
        .build();
    assert_eq!(r.unwrap_err(), CameraError::InvalidImageSize);
}

#[test]
fn build_rejects_out_of_range_translation() {
    let r = PerspectiveCameraBuilder::default()
        .translation(Vec3::new(i64::MAX / 2, 0, 0))
        .look_at(Vec3::new(0, 0, 0))
        .build();
    assert_eq!(r.unwrap_err(), CameraError::TranslationOutOfRange);
}

#[test]
fn build_rejects_out_of_range_look_at_target() {
    let r = PerspectiveCameraBuilder::default()
        .translation(Vec3::new(0, 0, 5 * SCALE))
        .look_at(Vec3::new(0, i64::MIN / 2, 0))
        .build();
    assert_eq!(r.unwrap_err(), CameraError::LookAtOutOfRange);
}

#[test]
fn aspect_frac_is_a_fixed_point_quotient() {
    let b = PerspectiveCameraBuilder::default().aspect_frac(16, 9);
    assert_eq!(b.aspect_ratio, 16 * SCALE / 9);
    let b = PerspectiveCameraBuilder::default().aspect_frac(1, 1);
    assert_eq!(b.aspect_ratio, SCALE);
}

#[test]
fn focal_lenght_mm_converts_to_world_units() {
    let b = PerspectiveCameraBuilder::default().focal_lenght_mm(2000);
    assert_eq!(b.focal_length, 2 * SCALE);
    let b = PerspectiveCameraBuilder::default().focal_lenght_mm(500);
    assert_eq!(b.focal_length, SCALE / 2);
}

#[test]
fn look_at_derives_the_expected_basis() {
    let cam = PerspectiveCameraBuilder::default()
        .translation(Vec3::new(0, 0, 5 * SCALE))
        .look_at(Vec3::new(0, 0, 0))
        .build()
        .expect("camera");
    assert_eq!((cam.forward.x, cam.forward.y, cam.forward.z), (0, 0, -SCALE));
    assert_eq!((cam.right.x, cam.right.y, cam.right.z), (SCALE, 0, 0));
    assert_eq!((cam.up.x, cam.up.y, cam.up.z), (0, SCALE, 0));
}

#[test]
fn center_cast_round_trip_lands_on_the_target() {
    // The ray through the image center of a camera looking at the origin
    // from (0, 0, 5), extended by the known distance 5, lands exactly on
    // the target.
    let cam = PerspectiveCameraBuilder::default()
        .translation(Vec3::new(0, 0, 5 * SCALE))
        .look_at(Vec3::new(0, 0, 0))
        .build()
        .expect("camera");
    let caster = cam.ray_caster();
    let ray = caster.cast(SCALE / 2, SCALE / 2).expect("center ray");
    let o = ray.origin();
    assert_eq!((o.x, o.y, o.z), (0, 0, 5 * SCALE));
    let d = ray.direction();
    assert_eq!((d.x, d.y, d.z), (0, 0, -SCALE));
    let p = ray.at(5 * SCALE);
    assert_eq!((p.x, p.y, p.z), (0, 0, 0));
}

#[test]
fn cast_flips_the_vertical_axis() {
    let cam = PerspectiveCameraBuilder::default()
        .translation(Vec3::new(0, 0, 5 * SCALE))
        .look_at(Vec3::new(0, 0, 0))
        .build()
        .expect("camera");
    let caster = cam.ray_caster();
    // Top of the image (v = 0) casts upward in world space.
    let top = caster.cast(SCALE / 2, 0).expect("top ray");
    assert!(top.direction().y > 0);
    // Bottom of the image (v = 1) casts downward.
    let bottom = caster.cast(SCALE / 2, SCALE).expect("bottom ray");
    assert!(bottom.direction().y < 0);
}
