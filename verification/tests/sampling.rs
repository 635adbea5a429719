//! The samplers and the random source: seeded determinism, the ambient
//! fallback, the debug-normal color, and the whole-pipeline scenario.

use raytracer::camera::PerspectiveCameraBuilder;
use raytracer::fixed::SCALE;
use raytracer::hittable::{Scene, Sphere};
use raytracer::material::{DebugNormalMaterial, Material};
use raytracer::math::{Color, Rgba8, Vec3};
use raytracer::ray::Ray;
use raytracer::renderer::{render_pixel, DebugNormalRenderer};
use raytracer::rng::rng_from_seed;
use raytracer::sampler::{NormalSampler, SimpleSampler};

fn unit_sphere_scene() -> Scene {
    Scene {
        spheres: vec![Sphere { center: Vec3::new(0, 0, 0), radius: SCALE }],
        meshes: vec![],
    }
}

fn camera_on_z_axis() -> raytracer::camera::PerspectiveCamera {
    PerspectiveCameraBuilder::default()
        .translation(Vec3::new(0, 0, 5 * SCALE))
        .look_at(Vec3::new(0, 0, 0))
        .build()
        .expect("camera")
}

#[test]
fn unit_sphere_center_ray_hits_at_four() {
    // The full scenario: unit sphere at the origin, camera at (0, 0, 5)
    // looking at the origin; the center ray hits at t = 4, point (0, 0, 1),
    // normal (0, 0, 1).
    let caster = camera_on_z_axis().ray_caster();
    let ray = caster.cast(SCALE / 2, SCALE / 2).expect("center ray");
    let si = unit_sphere_scene().hit(&ray, 0, 100 * SCALE).expect("hit");
    assert_eq!(si.t, 4 * SCALE);
    assert_eq!((si.point.x, si.point.y, si.point.z), (0, 0, SCALE));
    assert_eq!((si.normal.x, si.normal.y, si.normal.z), (0, 0, SCALE));
}

#[test]
fn escaping_ray_yields_exactly_the_ambient_light() {
    let empty = Scene { spheres: vec![], meshes: vec![] };
    let sampler = SimpleSampler { subsamples: 1, max_depth: 0, ..Default::default() };
    let caster = camera_on_z_axis().ray_caster();
    let mut rng = rng_from_seed(7);
    let c = sampler.sample(&empty, &caster, SCALE / 2, SCALE / 2, &mut rng);
    assert_eq!(c, sampler.ambient_light);
}

#[test]
fn escaping_ray_yields_the_ambient_light_at_any_subsample_count() {
    let empty = Scene { spheres: vec![], meshes: vec![] };
    let sampler = SimpleSampler {
        subsamples: 17,
        ambient_light: Color::new(SCALE / 2, SCALE / 4, SCALE / 8),
        ..Default::default()
    };
    let caster = camera_on_z_axis().ray_caster();
    let mut rng = rng_from_seed(7);
    let c = sampler.sample(&empty, &caster, SCALE / 4, 3 * SCALE / 4, &mut rng);
    assert_eq!(c, sampler.ambient_light);
}

#[test]
fn exhausted_depth_absorbs_as_black() {
    let sampler = SimpleSampler { subsamples: 1, max_depth: 0, ..Default::default() };
    let ray = Ray::new(Vec3::new(0, 0, 5 * SCALE), Vec3::new(0, 0, -SCALE));
    let mut rng = rng_from_seed(7);
    let c = sampler.inner_sample(&unit_sphere_scene(), &ray, 0, &mut rng);
    assert_eq!(c, Color::new(0, 0, 0));
}

#[test]
fn debug_normal_material_sees_the_normal_color() {
    // The +Z normal at the hit point maps to (1/2, 1/2, 1) per channel.
    let sampler = NormalSampler;
    let ray = Ray::new(Vec3::new(0, 0, 5 * SCALE), Vec3::new(0, 0, -SCALE));
    let px = sampler.sample(&ray, &unit_sphere_scene());
    assert_eq!(px, Rgba8 { r: 127, g: 127, b: 255, a: 255 });
}

#[test]
fn normal_sampler_miss_is_transparent_black() {
    let sampler = NormalSampler;
    let empty = Scene { spheres: vec![], meshes: vec![] };
    let ray = Ray::new(Vec3::new(0, 0, 5 * SCALE), Vec3::new(0, 0, -SCALE));
    assert_eq!(sampler.sample(&ray, &empty), Rgba8 { r: 0, g: 0, b: 0, a: 0 });
}

#[test]
fn sampling_is_deterministic_under_a_fixed_seed() {
    let sampler = SimpleSampler { subsamples: 5, max_depth: 3, ..Default::default() };
    let caster = camera_on_z_axis().ray_caster();
    let scene = unit_sphere_scene();
    let mut rng_a = rng_from_seed(42);
    let mut rng_b = rng_from_seed(42);
    let a = sampler.sample(&scene, &caster, SCALE / 2, SCALE / 2, &mut rng_a);
    let b = sampler.sample(&scene, &caster, SCALE / 2, SCALE / 2, &mut rng_b);
    assert_eq!(a, b);
}

#[test]
fn debug_material_estimate_is_attenuation_times_bounce() {
    // With the debug-normal material the estimator is deterministic: each
    // bounce leaves along the normal, escaping on the second step, so with
    // depth 1 the pixel is the normal color times the ambient light.
    let sampler = SimpleSampler {
        subsamples: 1,
        max_depth: 1,
        ambient_light: Color::new(SCALE, SCALE, SCALE),
        material: Material::DebugNormal(DebugNormalMaterial),
    };
    let ray = Ray::new(Vec3::new(0, 0, 5 * SCALE), Vec3::new(0, 0, -SCALE));
    let mut rng = rng_from_seed(9);
    let c = sampler.inner_sample(&unit_sphere_scene(), &ray, 1, &mut rng);
    // The normal (0, 0, 1) maps to (1/2, 1/2, 1); times white ambient.
    assert_eq!(c, Color::new(SCALE / 2, SCALE / 2, SCALE));
}

#[test]
fn debug_material_pixel_is_normal_color_times_ambient() {
    // Under the debug-normal material the whole estimator is deterministic:
    // the center ray hits at normal (0, 0, 1), the bounce along the normal
    // escapes, and every subsample repeats the same value, so the mean is
    // exactly the normal color times the white ambient light.
    let sampler = SimpleSampler {
        subsamples: 3,
        max_depth: 2,
        ambient_light: Color::new(SCALE, SCALE, SCALE),
        material: Material::DebugNormal(DebugNormalMaterial),
    };
    let caster = camera_on_z_axis().ray_caster();
    let mut rng = rng_from_seed(11);
    let c = sampler.sample(&unit_sphere_scene(), &caster, SCALE / 2, SCALE / 2, &mut rng);
    assert_eq!(c, Color::new(SCALE / 2, SCALE / 2, SCALE));
}

#[test]
fn random_unit_vectors_are_unit_and_vary() {
    let mut rng = rng_from_seed(1234);
    let mut previous: Option<Vec3> = None;
    let mut saw_change = false;
    for _ in 0..16 {
        let v = raytracer::algorithms::random_unit_vector(&mut rng);
        let n2 = v.dot(v);
        assert!(SCALE - 64 <= n2 && n2 <= SCALE + 64);
        if let Some(p) = previous {
            if p != v {
                saw_change = true;
            }
        }
        previous = Some(v);
    }
    // A working random source does not keep handing the same direction out.
    assert!(saw_change);
}

#[test]
fn random_points_stay_inside_the_unit_sphere() {
    let mut rng = rng_from_seed(99);
    for _ in 0..32 {
        let p = raytracer::algorithms::random_in_unit_sphere(&mut rng);
        let n2 = p.dot(p);
        assert!(1024 <= n2 && n2 < SCALE);
    }
}

#[test]
fn render_pixel_of_empty_scene_is_tone_mapped_ambient() {
    let empty = Scene { spheres: vec![], meshes: vec![] };
    let sampler = SimpleSampler::default();
    let caster = camera_on_z_axis().ray_caster();
    let mut rng = rng_from_seed(5);
    let px = render_pixel(&sampler, &caster, &empty, 3, 2, 8, 8, &mut rng);
    // White ambient light tone-maps to a white pixel.
    assert_eq!(px, Rgba8 { r: 255, g: 255, b: 255, a: 255 });
}

#[test]
fn debug_renderer_shades_hit_normals_and_sky() {
    let renderer = DebugNormalRenderer::new();
    let caster = camera_on_z_axis().ray_caster();
    let scene = unit_sphere_scene();
    // A 2x2 image: pixel (1, 1) maps to the image center and hits.
    let center = renderer.render_pixel(&caster, &scene, 1, 1, 2, 2);
    assert_eq!((center.r, center.g, center.b), (127, 127, 255));
    // The top-left corner misses and looks up: light sky gray.
    let corner = renderer.render_pixel(&caster, &scene, 0, 0, 2, 2);
    assert_eq!((corner.r, corner.g, corner.b), (0xaa, 0xaa, 0xaa));
}
