//! Vector and color arithmetic on known fixed-point values.

use raytracer::fixed::SCALE;
use raytracer::math::{Color, Rgba8, Vec3};

#[test]
fn vec3_componentwise_ops() {
    let a = Vec3::new(SCALE, 2 * SCALE, 3 * SCALE);
    let b = Vec3::new(4 * SCALE, 5 * SCALE, 6 * SCALE);
    let s = a.add(b);
    assert_eq!((s.x, s.y, s.z), (5 * SCALE, 7 * SCALE, 9 * SCALE));
    let d = b.sub(a);
    assert_eq!((d.x, d.y, d.z), (3 * SCALE, 3 * SCALE, 3 * SCALE));
    let t = a.scale(2 * SCALE);
    assert_eq!((t.x, t.y, t.z), (2 * SCALE, 4 * SCALE, 6 * SCALE));
}

#[test]
fn dot_product_exact() {
    let a = Vec3::new(SCALE, 2 * SCALE, 3 * SCALE);
    let b = Vec3::new(4 * SCALE, 5 * SCALE, 6 * SCALE);
    // 1*4 + 2*5 + 3*6 = 32
    assert_eq!(a.dot(b), 32 * SCALE);
    let x = Vec3::new(SCALE, 0, 0);
    let y = Vec3::new(0, SCALE, 0);
    assert_eq!(x.dot(y), 0);
}

#[test]
fn cross_product_right_handed() {
    let x = Vec3::new(SCALE, 0, 0);
    let y = Vec3::new(0, SCALE, 0);
    let z = x.cross(y);
    assert_eq!((z.x, z.y, z.z), (0, 0, SCALE));
    let w = y.cross(x);
    assert_eq!((w.x, w.y, w.z), (0, 0, -SCALE));
}

#[test]
fn length_of_three_four_five() {
    let v = Vec3::new(3 * SCALE, 4 * SCALE, 0);
    assert_eq!(v.len_squared(), 25 * SCALE);
    assert_eq!(v.len(), 5 * SCALE);
}

#[test]
fn unit_normalizes_within_tolerance() {
    let v = Vec3::new(3 * SCALE, 4 * SCALE, 0);
    let u = v.unit().expect("normalizable vector");
    // 3/5 and 4/5 in fixed point, rounded down.
    assert_eq!((u.x, u.y, u.z), (39321, 52428, 0));
    let n2 = u.dot(u);
    assert!(SCALE - 64 <= n2 && n2 <= SCALE + 64);
}

#[test]
fn unit_of_zero_vector_is_none() {
    assert!(Vec3::new(0, 0, 0).unit().is_none());
}

#[test]
fn unit_of_axis_is_exact() {
    let u = Vec3::new(0, 0, -5 * SCALE).unit().expect("axis vector");
    assert_eq!((u.x, u.y, u.z), (0, 0, -SCALE));
}

#[test]
fn color_mul_and_add() {
    let a = Color::new(SCALE, SCALE / 2, 0);
    let b = Color::new(SCALE / 2, SCALE / 2, SCALE);
    let m = a.mul(b);
    assert_eq!((m.r, m.g, m.b), (SCALE / 2, SCALE / 4, 0));
    let s = a.add(b);
    assert_eq!((s.r, s.g, s.b), (3 * SCALE / 2, SCALE, SCALE));
    let d = s.div_n(2);
    assert_eq!((d.r, d.g, d.b), (3 * SCALE / 4, SCALE / 2, SCALE / 2));
}

#[test]
fn clip_exposure_gamma_two_takes_square_roots() {
    let c = Color::new(SCALE, SCALE / 4, 0);
    let px = c.clip_exposure(2);
    // sqrt(1) = 1 -> 255; sqrt(1/4) = 1/2 -> 127; sqrt(0) = 0 -> 0.
    assert_eq!(px, Rgba8 { r: 255, g: 127, b: 0, a: 255 });
}

#[test]
fn clip_exposure_gamma_one_is_linear() {
    let c = Color::new(SCALE / 4, SCALE, SCALE / 2);
    let px = c.clip_exposure(1);
    assert_eq!(px, Rgba8 { r: 63, g: 255, b: 127, a: 255 });
}

#[test]
fn clip_exposure_clamps_out_of_range_channels() {
    let c = Color::new(-5 * SCALE, 2 * SCALE, SCALE);
    let px = c.clip_exposure(2);
    assert_eq!(px, Rgba8 { r: 0, g: 255, b: 255, a: 255 });
}
