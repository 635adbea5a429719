//! Aggregate hit tests: the scene returns the global nearest hit, however
//! its children are ordered or nested.

use raytracer::fixed::SCALE;
use raytracer::hittable::{Mesh, Scene, Sphere, Triangle};
use raytracer::math::Vec3;
use raytracer::ray::Ray;

fn axis_ray() -> Ray {
    Ray::new(Vec3::new(0, 0, 0), Vec3::new(0, 0, -SCALE))
}

fn near_sphere() -> Sphere {
    // First hit at t = 2 along the -Z axis.
    Sphere { center: Vec3::new(0, 0, -3 * SCALE), radius: SCALE }
}

fn far_sphere() -> Sphere {
    // First hit at t = 5 along the -Z axis.
    Sphere { center: Vec3::new(0, 0, -6 * SCALE), radius: SCALE }
}

fn mid_triangle() -> Triangle {
    // A triangle crossing the axis at z = -4: hit at t = 4.
    Triangle::new(
        Vec3::new(-2 * SCALE, -2 * SCALE, -4 * SCALE),
        Vec3::new(2 * SCALE, -2 * SCALE, -4 * SCALE),
        Vec3::new(0, 2 * SCALE, -4 * SCALE),
    )
    .expect("proper triangle")
}

#[test]
fn scene_returns_global_minimum_t() {
    let scene = Scene {
        spheres: vec![far_sphere(), near_sphere()],
        meshes: vec![Mesh { faces: vec![mid_triangle()] }],
    };
    let si = scene.hit(&axis_ray(), 0, 100 * SCALE).expect("scene hit");
    assert_eq!(si.t, 2 * SCALE);
}

#[test]
fn scene_hit_is_independent_of_child_order() {
    let a = Scene {
        spheres: vec![near_sphere(), far_sphere()],
        meshes: vec![Mesh { faces: vec![mid_triangle()] }],
    };
    let b = Scene {
        spheres: vec![far_sphere(), near_sphere()],
        meshes: vec![Mesh { faces: vec![mid_triangle()] }],
    };
    let ra = a.hit(&axis_ray(), 0, 100 * SCALE).expect("hit");
    let rb = b.hit(&axis_ray(), 0, 100 * SCALE).expect("hit");
    assert_eq!(ra, rb);
}

#[test]
fn scene_reduces_the_same_flattened_or_nested() {
    let t1 = mid_triangle();
    let t2 = Triangle::new(
        Vec3::new(-2 * SCALE, -2 * SCALE, -7 * SCALE),
        Vec3::new(2 * SCALE, -2 * SCALE, -7 * SCALE),
        Vec3::new(0, 2 * SCALE, -7 * SCALE),
    )
    .expect("proper triangle");
    let flat = Scene { spheres: vec![], meshes: vec![Mesh { faces: vec![t1, t2] }] };
    let nested = Scene {
        spheres: vec![],
        meshes: vec![Mesh { faces: vec![t1] }, Mesh { faces: vec![t2] }],
    };
    let rf = flat.hit(&axis_ray(), 0, 100 * SCALE).expect("hit");
    let rn = nested.hit(&axis_ray(), 0, 100 * SCALE).expect("hit");
    assert_eq!(rf, rn);
    assert_eq!(rf.t, 4 * SCALE);
}

#[test]
fn scene_nearer_child_shadows_farther_one() {
    // The triangle at t = 4 wins over the sphere at t = 5 but loses to the
    // sphere at t = 2.
    let scene = Scene {
        spheres: vec![far_sphere()],
        meshes: vec![Mesh { faces: vec![mid_triangle()] }],
    };
    let si = scene.hit(&axis_ray(), 0, 100 * SCALE).expect("hit");
    assert_eq!(si.t, 4 * SCALE);
}

#[test]
fn empty_scene_has_no_hit() {
    let scene = Scene { spheres: vec![], meshes: vec![] };
    assert!(scene.hit(&axis_ray(), 0, 100 * SCALE).is_none());
}

#[test]
fn scene_respects_the_parameter_interval() {
    let scene = Scene { spheres: vec![near_sphere(), far_sphere()], meshes: vec![] };
    // In [3, 100] the near sphere's entry root 2 is excluded, but its exit
    // root 4 still beats the far sphere's entry at 5.
    let si = scene.hit(&axis_ray(), 3 * SCALE, 100 * SCALE).expect("hit");
    assert_eq!(si.t, 4 * SCALE);
    // From 9/2 on, only the far sphere remains.
    let si = scene.hit(&axis_ray(), 9 * SCALE / 2, 100 * SCALE).expect("hit");
    assert_eq!(si.t, 5 * SCALE);
}
