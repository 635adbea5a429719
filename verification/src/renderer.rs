//! Per-pixel rendering.
//!
//! The outer loops that walk the image, the pixel buffers and the progress
//! reporting belong to the embedding application; this module computes one
//! pixel at a time.  [`render_pixel`] is the Monte-Carlo path — estimate,
//! then clip exposure — and [`DebugNormalRenderer`] shades hit normals with
//! a simple sky/ground background.

use vstd::prelude::*;

verus! {

use vstd::arithmetic::div_mod::lemma_div_pos_is_pos;
use crate::fixed::{SCALE, lemma_abs_mul_le, lemma_fdiv_in_bound};
use crate::math::{Rgba8, Rgb8, dotw, is_unit, unit_of, clip_channel};
use crate::hittable::{Scene, wf_scene, scene_hit_spec};
use crate::camera::{PerspectiveCameraCaster, wf_caster, cast_dir_vec};
use crate::material::{normal_channel, normal_byte};
use crate::sampler::{SimpleSampler, wf_sampler, primary_ray, T_FAR, T_NEAR};

/// A pixel coordinate mapped to the normalized image plane: `x / width` in
/// fixed point, top-left origin.
pub open spec fn pixel_coord(x: int, extent: int) -> int {
    (x * SCALE) / extent
}

/// Maps the pixel index `x` into `[0, 1)` on the image plane.
pub fn pixel_to_plane(x: u32, extent: u32) -> (u: i64)
    requires
        x < extent,
        extent <= 65536,
    ensures
        u == pixel_coord(x as int, extent as int),
        0 <= u < SCALE,
{
    proof {
        lemma_abs_mul_le(x as int, SCALE as int, extent as int - 1, SCALE as int);
        lemma_fdiv_in_bound(x as int * SCALE, extent as int, SCALE - 1);
        lemma_div_pos_is_pos(x as int * SCALE, extent as int);
    }
    ((x as i64) * SCALE) / (extent as i64)
}

/// Whether the primary ray for `(u, v)` escapes the scene: the cast is
/// degenerate, or the ray hits nothing within the far plane.
pub open spec fn primary_escapes(
    c: PerspectiveCameraCaster,
    sc: Scene,
    u: int,
    v: int,
) -> bool {
    let d0 = cast_dir_vec(c, u, v);
    !(dotw(d0, d0) > 0 && is_unit(unit_of(d0))) || scene_hit_spec(
        sc,
        primary_ray(c, u, v),
        T_NEAR as int,
        T_FAR as int,
    ) is None
}

/// Computes one pixel of the Monte-Carlo render: the sampler's estimate for
/// the pixel's image-plane point, tone-mapped with gamma-2 clip exposure.
/// A pixel whose primary ray escapes the scene is exactly the tone-mapped
/// ambient light.
pub fn render_pixel(
    sampler: &SimpleSampler,
    ray_caster: &PerspectiveCameraCaster,
    hittable: &Scene,
    x: u32,
    y: u32,
    width: u32,
    height: u32,
    rng: &mut rand::rngs::StdRng,
) -> (px: Rgba8)
    requires
        wf_sampler(*sampler),
        wf_caster(*ray_caster),
        wf_scene(*hittable),
        x < width <= 65536,
        y < height <= 65536,
    ensures
        px.a == 255,
        primary_escapes(
            *ray_caster,
            *hittable,
            pixel_coord(x as int, width as int),
            pixel_coord(y as int, height as int),
        ) ==> px == (Rgba8 {
            r: clip_channel(sampler.ambient_light.r as int, 2) as u8,
            g: clip_channel(sampler.ambient_light.g as int, 2) as u8,
            b: clip_channel(sampler.ambient_light.b as int, 2) as u8,
            a: 255,
        }),
{
    let u = pixel_to_plane(x, width);
    let v = pixel_to_plane(y, height);
    let c = sampler.sample(hittable, ray_caster, u, v, rng);
    c.clip_exposure(2)
}

/// The debug renderer: shades each pixel by the normal it hits.
pub struct DebugNormalRenderer;

/// What one debug pixel shows: the remapped hit normal; a light gray sky
/// for an escaping ray that points up; a darker gray ground otherwise,
/// which also covers the degenerate cast.
pub open spec fn debug_pixel_spec(
    c: PerspectiveCameraCaster,
    sc: Scene,
    u: int,
    v: int,
) -> Rgb8 {
    let d0 = cast_dir_vec(c, u, v);
    if dotw(d0, d0) > 0 && is_unit(unit_of(d0)) {
        let ray = primary_ray(c, u, v);
        match scene_hit_spec(sc, ray, 0, T_FAR as int) {
            Some(si) => Rgb8 {
                r: ((normal_channel(si.normal.x as int) * 255) / (SCALE as int)) as u8,
                g: ((normal_channel(si.normal.y as int) * 255) / (SCALE as int)) as u8,
                b: ((normal_channel(si.normal.z as int) * 255) / (SCALE as int)) as u8,
            },
            None => if ray.direction.y > 0 {
                Rgb8 { r: 0xaa, g: 0xaa, b: 0xaa }
            } else {
                Rgb8 { r: 0x77, g: 0x77, b: 0x77 }
            },
        }
    } else {
        Rgb8 { r: 0x77, g: 0x77, b: 0x77 }
    }
}

impl DebugNormalRenderer {
    /// Builds the debug renderer; it carries no state.
    pub fn new() -> (r: DebugNormalRenderer)
        ensures
            r == (DebugNormalRenderer),
    {
        DebugNormalRenderer
    }

    /// Computes one pixel of the debug render.
    pub fn render_pixel(
        &self,
        ray_caster: &PerspectiveCameraCaster,
        hittable: &Scene,
        x: u32,
        y: u32,
        width: u32,
        height: u32,
    ) -> (px: Rgb8)
        requires
            wf_caster(*ray_caster),
            wf_scene(*hittable),
            x < width <= 65536,
            y < height <= 65536,
        ensures
            px == debug_pixel_spec(
                *ray_caster,
                *hittable,
                pixel_coord(x as int, width as int),
                pixel_coord(y as int, height as int),
            ),
    {
        let u = pixel_to_plane(x, width);
        let v = pixel_to_plane(y, height);
        match ray_caster.cast(u, v) {
            None => Rgb8 { r: 0x77, g: 0x77, b: 0x77 },
            Some(ray) => {
                match hittable.hit(&ray, 0, T_FAR) {
                    Some(si) => Rgb8 {
                        r: normal_byte(si.normal.x),
                        g: normal_byte(si.normal.y),
                        b: normal_byte(si.normal.z),
                    },
                    None => {
                        let d = ray.direction();
                        if d.y > 0 {
                            Rgb8 { r: 0xaa, g: 0xaa, b: 0xaa }
                        } else {
                            Rgb8 { r: 0x77, g: 0x77, b: 0x77 }
                        }
                    },
                }
            },
        }
    }
}

} // verus!
