//! The closed-form solvers on concrete geometry, including the boundary
//! behavior of the parameter interval.

use raytracer::algorithms::{sphere_intersection, triangle_intersection};
use raytracer::fixed::SCALE;
use raytracer::hittable::{Sphere, Triangle};
use raytracer::math::Vec3;
use raytracer::ray::{Face, Ray};

fn unit_z_neg() -> Vec3 {
    Vec3::new(0, 0, -SCALE)
}

#[test]
fn sphere_aimed_at_center_gives_ordered_roots() {
    // Camera five units out on +Z, unit sphere at the origin: roots 4 and 6.
    let origin = Vec3::new(0, 0, 5 * SCALE);
    let center = Vec3::new(0, 0, 0);
    let (t0, t1) = sphere_intersection(&origin, &unit_z_neg(), &center, SCALE)
        .expect("ray aimed at the center hits");
    assert_eq!((t0, t1), (4 * SCALE, 6 * SCALE));
    assert!(t0 < t1);
}

#[test]
fn sphere_missed_at_perpendicular_offset_two() {
    // Offset 2 above the axis, radius 1: no intersection.
    let origin = Vec3::new(0, 2 * SCALE, 5 * SCALE);
    let center = Vec3::new(0, 0, 0);
    assert!(sphere_intersection(&origin, &unit_z_neg(), &center, SCALE).is_none());
}

#[test]
fn sphere_grazing_ray_counts_as_miss() {
    // Offset exactly the radius: the discriminant is zero, no hit.
    let origin = Vec3::new(0, SCALE, 5 * SCALE);
    let center = Vec3::new(0, 0, 0);
    assert!(sphere_intersection(&origin, &unit_z_neg(), &center, SCALE).is_none());
}

#[test]
fn sphere_hit_reports_t0_and_front_face() {
    let sphere = Sphere { center: Vec3::new(0, 0, 0), radius: SCALE };
    let ray = Ray::new(Vec3::new(0, 0, 5 * SCALE), unit_z_neg());
    let si = sphere.hit(&ray, 0, 100 * SCALE).expect("hit");
    assert_eq!(si.t, 4 * SCALE);
    assert_eq!((si.point.x, si.point.y, si.point.z), (0, 0, SCALE));
    assert_eq!((si.normal.x, si.normal.y, si.normal.z), (0, 0, SCALE));
    assert_eq!(si.face, Face::Front);
}

#[test]
fn sphere_hit_interval_is_closed_and_falls_back_to_t1() {
    let sphere = Sphere { center: Vec3::new(0, 0, 0), radius: SCALE };
    let ray = Ray::new(Vec3::new(0, 0, 5 * SCALE), unit_z_neg());
    // t0 = 4 exactly on the upper boundary: included.
    let si = sphere.hit(&ray, 0, 4 * SCALE).expect("boundary hit");
    assert_eq!(si.t, 4 * SCALE);
    // t0 just out of range: the far root 6 is reported instead.
    let si = sphere.hit(&ray, 4 * SCALE + 1, 100 * SCALE).expect("far root");
    assert_eq!(si.t, 6 * SCALE);
    // Both roots out of range: no hit.
    assert!(sphere.hit(&ray, 0, 4 * SCALE - 1).is_none());
}

#[test]
fn sphere_hit_from_inside_reports_back_face() {
    let sphere = Sphere { center: Vec3::new(0, 0, 0), radius: SCALE };
    let ray = Ray::new(Vec3::new(0, 0, 0), unit_z_neg());
    let si = sphere.hit(&ray, 0, 100 * SCALE).expect("inside hit");
    assert_eq!(si.t, SCALE);
    assert_eq!((si.normal.x, si.normal.y, si.normal.z), (0, 0, -SCALE));
    assert_eq!(si.face, Face::Back);
}

fn plane_triangle() -> (Vec3, Vec3, Vec3) {
    // A triangle in the plane z = -2 around the axis.
    (
        Vec3::new(-2 * SCALE, -2 * SCALE, -2 * SCALE),
        Vec3::new(2 * SCALE, -2 * SCALE, -2 * SCALE),
        Vec3::new(0, 2 * SCALE, -2 * SCALE),
    )
}

#[test]
fn triangle_hit_through_interior_point_along_normal() {
    let (v0, v1, v2) = plane_triangle();
    let origin = Vec3::new(0, 0, 0);
    let t = triangle_intersection(&origin, &unit_z_neg(), &v0, &v1, &v2)
        .expect("interior hit");
    assert_eq!(t, 2 * SCALE);
}

#[test]
fn triangle_parallel_ray_never_hits() {
    let (v0, v1, v2) = plane_triangle();
    let in_plane = Vec3::new(SCALE, 0, 0);
    // Parallel direction: no hit from any origin, inside the plane or not.
    for origin in [
        Vec3::new(0, 0, 0),
        Vec3::new(0, 0, -2 * SCALE),
        Vec3::new(-7 * SCALE, 3 * SCALE, 5 * SCALE),
    ] {
        assert!(triangle_intersection(&origin, &in_plane, &v0, &v1, &v2).is_none());
    }
}

#[test]
fn triangle_missed_outside_its_edges() {
    let (v0, v1, v2) = plane_triangle();
    // Far above the triangle: the barycentric test rejects.
    let origin = Vec3::new(0, 5 * SCALE, 0);
    assert!(triangle_intersection(&origin, &unit_z_neg(), &v0, &v1, &v2).is_none());
}

#[test]
fn triangle_behind_origin_is_not_hit() {
    let (v0, v1, v2) = plane_triangle();
    // Looking away from the plane: a line intersection only.
    let origin = Vec3::new(0, 0, -4 * SCALE);
    assert!(triangle_intersection(&origin, &unit_z_neg(), &v0, &v1, &v2).is_none());
}

#[test]
fn triangle_constructor_derives_unit_normal() {
    let (v0, v1, v2) = plane_triangle();
    let tri = Triangle::new(v0, v1, v2).expect("proper triangle");
    assert_eq!((tri.normal.x, tri.normal.y, tri.normal.z), (0, 0, SCALE));
}

#[test]
fn triangle_constructor_rejects_collinear_vertices() {
    let v0 = Vec3::new(0, 0, 0);
    let v1 = Vec3::new(SCALE, 0, 0);
    let v2 = Vec3::new(2 * SCALE, 0, 0);
    assert!(Triangle::new(v0, v1, v2).is_none());
}

#[test]
fn triangle_hit_uses_face_normal() {
    let (v0, v1, v2) = plane_triangle();
    let tri = Triangle::new(v0, v1, v2).expect("proper triangle");
    let ray = Ray::new(Vec3::new(0, 0, 0), unit_z_neg());
    let si = tri.hit(&ray, 0, 100 * SCALE).expect("hit");
    assert_eq!(si.t, 2 * SCALE);
    assert_eq!((si.normal.x, si.normal.y, si.normal.z), (0, 0, SCALE));
    assert_eq!(si.face, Face::Front);
}
