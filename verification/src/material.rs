//! Materials: the per-surface scatter policies.
//!
//! A material turns a [`SurfaceInteraction`] into an attenuation color and
//! a continuation ray.  The debug-normal material visualizes the surface
//! normal; the Lambertian material bounces into the hemisphere around the
//! normal using the injected random source.

use vstd::prelude::*;

verus! {

use crate::fixed::{SCALE, fdiv, div_floor, lemma_fdiv_abs_le, lemma_fdiv_in_bound};
use crate::math::{Vec3, Color, wf_color, clamp01};
use crate::ray::{Ray, wf_ray, SurfaceInteraction, wf_si};
use crate::algorithms::random_unit_vector;

/// A normal component remapped from `[-1, 1]` to `[0, 1]`:
/// `n / 2 + 1/2`, clamped into the channel range.
pub open spec fn normal_channel(n: int) -> int {
    clamp01(fdiv(n, 2) + 32768)
}

/// The color that visualizes a unit normal, channel by channel.
pub open spec fn debug_normal_color(n: Vec3) -> Color {
    Color {
        r: normal_channel(n.x as int) as i64,
        g: normal_channel(n.y as int) as i64,
        b: normal_channel(n.z as int) as i64,
    }
}

/// One remapped normal channel.
pub(crate) fn normal_chan(n: i64) -> (c: i64)
    ensures
        c == normal_channel(n as int),
        0 <= c <= SCALE,
{
    proof {
        lemma_fdiv_abs_le(n as int, 2);
    }
    let h = div_floor(n as i128, 2) as i64;
    let raw = h + 32768;
    if raw < 0 {
        0
    } else if raw > SCALE {
        SCALE
    } else {
        raw
    }
}

/// One remapped normal channel as an 8-bit value.
pub(crate) fn normal_byte(n: i64) -> (b: u8)
    ensures
        b == (normal_channel(n as int) * 255) / (SCALE as int),
{
    let c = normal_chan(n);
    proof {
        lemma_fdiv_in_bound(c * 255, SCALE as int, 255);
        vstd::arithmetic::div_mod::lemma_div_pos_is_pos(c * 255, SCALE as int);
    }
    ((c * 255) / SCALE) as u8
}

/// The debug material: no parameters, scatter visualizes the normal.
pub struct DebugNormalMaterial;

/// The diffuse material: bounces with the albedo as attenuation.
pub struct LambertianMaterial {
    pub albedo: Color,
}

/// The closed set of materials a surface can have.
pub enum Material {
    DebugNormal(DebugNormalMaterial),
    Lambertian(LambertianMaterial),
}

/// A well-formed material has a well-formed albedo.
pub open spec fn wf_material(m: Material) -> bool {
    match m {
        Material::DebugNormal(_) => true,
        Material::Lambertian(l) => wf_color(l.albedo),
    }
}

impl Material {
    /// Scatters the incoming ray at the interaction.  Both materials always
    /// continue: the debug material bounces along the normal itself and
    /// returns the normal remapped to a color; the Lambertian material
    /// bounces toward `normal + random_unit_vector()`, normalized — or
    /// along the bare normal in the degenerate case where that sum is too
    /// short to normalize — and returns its albedo.
    pub fn scatter(
        &self,
        interaction: &SurfaceInteraction,
        rng: &mut rand::rngs::StdRng,
    ) -> (r: (Color, Option<Ray>))
        requires
            wf_material(*self),
            wf_si(*interaction),
        ensures
            wf_color(r.0),
            r.1 is Some,
            r.1 is Some ==> wf_ray(r.1->0) && r.1->0.origin == interaction.point,
            self is DebugNormal ==> r.0 == debug_normal_color(interaction.normal)
                && r.1->0.direction == interaction.normal,
            self matches Material::Lambertian(l) ==> r.0 == l.albedo,
    {
        match self {
            Material::DebugNormal(_) => {
                let ray = Ray::new(interaction.point, interaction.normal);
                let color = Color::new(
                    normal_chan(interaction.normal.x),
                    normal_chan(interaction.normal.y),
                    normal_chan(interaction.normal.z),
                );
                (color, Some(ray))
            },
            Material::Lambertian(l) => {
                let bounce = random_unit_vector(rng);
                let d0 = interaction.normal.add(bounce);
                let dir = match d0.unit() {
                    Some(u) => u,
                    None => interaction.normal,
                };
                (l.albedo, Some(Ray::new(interaction.point, dir)))
            },
        }
    }
}

} // verus!
