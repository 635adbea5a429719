//! Samplers: from a primary ray to a pixel color.
//!
//! [`SimpleSampler`] is the recursive Monte-Carlo estimator: it casts one
//! primary ray per pixel, follows scattered bounces to a depth bound, falls
//! back to the ambient light when a ray escapes the scene, and averages the
//! independent trials.  [`NormalSampler`] is the single-evaluation debug
//! sampler that maps the hit normal straight to a pixel.

use vstd::prelude::*;

verus! {

use vstd::arithmetic::div_mod::{lemma_fundamental_div_mod_converse_div, lemma_div_pos_is_pos};
use crate::fixed::{SCALE, lemma_fdiv_in_bound};
use crate::math::{Color, wf_color, Rgba8};
use crate::ray::{Ray, wf_ray};
use crate::hittable::{Scene, wf_scene, scene_hit_spec};
use crate::camera::{PerspectiveCameraCaster, wf_caster, cast_dir_vec};
use crate::material::{Material, LambertianMaterial, wf_material, normal_channel};

/// The far clipping distance of the samplers: hits beyond 100 world units
/// are ignored.
pub const T_FAR: i64 = 6553600;

/// The near clipping distance of the recursive estimator: one least count,
/// so that a scattered ray does not re-hit its own surface point at `t = 0`
/// under the closed-interval hit rule.
pub const T_NEAR: i64 = 1;

/// The primary ray that a caster produces for the image-plane point
/// `(u, v)`, assuming the cast succeeds.
pub open spec fn primary_ray(c: PerspectiveCameraCaster, u: int, v: int) -> Ray {
    Ray {
        origin: c.origin,
        direction: crate::math::unit_of(cast_dir_vec(c, u, v)),
    }
}

/// What the estimator computes under the deterministic debug-normal
/// material: ambient light once the path escapes, black once the depth is
/// exhausted at a hit, and otherwise the normal-derived color times the
/// estimate along the bounce off the normal.
pub open spec fn debug_estimate(scene: Scene, r: Ray, depth: nat, ambient: Color) -> Color
    decreases depth,
{
    match scene_hit_spec(scene, r, T_NEAR as int, T_FAR as int) {
        None => ambient,
        Some(si) => {
            if depth == 0 {
                Color { r: 0, g: 0, b: 0 }
            } else {
                crate::math::color_mul(
                    crate::material::debug_normal_color(si.normal),
                    debug_estimate(
                        scene,
                        Ray { origin: si.point, direction: si.normal },
                        (depth - 1) as nat,
                        ambient,
                    ),
                )
            }
        },
    }
}

/// The debug estimate is a well-formed color whenever the ambient light is.
proof fn lemma_debug_estimate_wf(scene: Scene, r: Ray, depth: nat, ambient: Color)
    requires
        wf_color(ambient),
    ensures
        wf_color(debug_estimate(scene, r, depth, ambient)),
    decreases depth,
{
    match scene_hit_spec(scene, r, T_NEAR as int, T_FAR as int) {
        None => {},
        Some(si) => {
            if depth > 0 {
                let bounce = Ray { origin: si.point, direction: si.normal };
                lemma_debug_estimate_wf(scene, bounce, (depth - 1) as nat, ambient);
                let dc = crate::material::debug_normal_color(si.normal);
                let rest = debug_estimate(scene, bounce, (depth - 1) as nat, ambient);
                crate::math::lemma_channel_mul(dc.r as int, rest.r as int);
                crate::math::lemma_channel_mul(dc.g as int, rest.g as int);
                crate::math::lemma_channel_mul(dc.b as int, rest.b as int);
            }
        },
    }
}

/// The debug sampler: one hit test, no recursion, the normal as the color.
pub struct NormalSampler;

/// What the debug sampler answers: transparent black on a miss, the
/// remapped normal with opaque alpha on a hit.
pub open spec fn normal_sample_spec(ray: Ray, scene: Scene) -> Rgba8 {
    match scene_hit_spec(scene, ray, 0, T_FAR as int) {
        None => Rgba8 { r: 0, g: 0, b: 0, a: 0 },
        Some(si) => Rgba8 {
            r: ((normal_channel(si.normal.x as int) * 255) / (SCALE as int)) as u8,
            g: ((normal_channel(si.normal.y as int) * 255) / (SCALE as int)) as u8,
            b: ((normal_channel(si.normal.z as int) * 255) / (SCALE as int)) as u8,
            a: 255,
        },
    }
}

impl NormalSampler {
    /// Evaluates the pixel for one ray: the hit normal remapped to a color,
    /// or transparent black when the ray escapes.
    pub fn sample(&self, ray: &Ray, hittable: &Scene) -> (px: Rgba8)
        requires
            wf_ray(*ray),
            wf_scene(*hittable),
        ensures
            px == normal_sample_spec(*ray, *hittable),
    {
        match hittable.hit(ray, 0, T_FAR) {
            None => Rgba8 { r: 0, g: 0, b: 0, a: 0 },
            Some(si) => Rgba8 {
                r: crate::material::normal_byte(si.normal.x),
                g: crate::material::normal_byte(si.normal.y),
                b: crate::material::normal_byte(si.normal.z),
                a: 255,
            },
        }
    }
}

/// The recursive Monte-Carlo sampler: a depth-bounded estimator averaged
/// over independent subsamples.
pub struct SimpleSampler {
    /// How many bounces a path may take before it is absorbed as black.
    pub max_depth: u32,
    /// The radiance of a ray that escapes the scene.
    pub ambient_light: Color,
    /// How many independent trials are averaged per pixel.
    pub subsamples: u32,
    /// The scatter policy applied at every hit.
    pub material: Material,
}

/// A well-formed sampler: valid color and material, and a trial count that
/// is at least one and small enough to keep the accumulator in range.
pub open spec fn wf_sampler(s: SimpleSampler) -> bool {
    &&& wf_color(s.ambient_light)
    &&& wf_material(s.material)
    &&& 1 <= s.subsamples <= 65536
}

impl Default for SimpleSampler {
    /// The default estimator: three bounces, ten subsamples, white ambient
    /// light and a light blue Lambertian surface.
    fn default() -> (s: SimpleSampler)
        ensures
            s.max_depth == 3,
            s.ambient_light == (Color { r: SCALE as i64, g: SCALE as i64, b: SCALE as i64 }),
            s.subsamples == 10,
            s.material matches Material::Lambertian(l) && l.albedo == (Color {
                r: 39322,
                g: 52429,
                b: 58982,
            }),
            wf_sampler(s),
    {
        SimpleSampler {
            max_depth: 3,
            ambient_light: Color::new(SCALE, SCALE, SCALE),
            subsamples: 10,
            material: Material::Lambertian(
                LambertianMaterial { albedo: Color::new(39322, 52429, 58982) },
            ),
        }
    }
}

impl SimpleSampler {
    /// One estimator path: ambient light when the ray escapes the scene;
    /// otherwise scatter at the hit, absorbing as black once the depth is
    /// exhausted, else the attenuation times the recursive estimate along
    /// the scattered ray.
    pub fn inner_sample(
        &self,
        hittable: &Scene,
        ray: &Ray,
        depth: u32,
        rng: &mut rand::rngs::StdRng,
    ) -> (c: Color)
        requires
            wf_sampler(*self),
            wf_scene(*hittable),
            wf_ray(*ray),
        ensures
            wf_color(c),
            scene_hit_spec(*hittable, *ray, T_NEAR as int, T_FAR as int) is None ==> c == self.ambient_light,
            scene_hit_spec(*hittable, *ray, T_NEAR as int, T_FAR as int) is Some && depth == 0
                ==> c == (Color { r: 0, g: 0, b: 0 }),
            self.material is DebugNormal ==> c == debug_estimate(
                *hittable,
                *ray,
                depth as nat,
                self.ambient_light,
            ),
        decreases depth,
    {
        match hittable.hit(ray, T_NEAR, T_FAR) {
            None => self.ambient_light,
            Some(interaction) => {
                let (color, scattered) = self.material.scatter(&interaction, rng);
                match scattered {
                    Some(scattered_ray) => {
                        if depth > 0 {
                            color.mul(self.inner_sample(hittable, &scattered_ray, depth - 1, rng))
                        } else {
                            Color::new(0, 0, 0)
                        }
                    },
                    None => Color::new(0, 0, 0),
                }
            },
        }
    }

    /// The pixel estimate at the image-plane point `(u, v)`: the mean of
    /// `subsamples` independent estimator paths along the primary ray.  A
    /// ray that escapes the scene yields exactly the ambient light,
    /// whatever the number of trials; so does the degenerate cast that
    /// cannot produce a ray.
    pub fn sample(
        &self,
        hittable: &Scene,
        ray_caster: &PerspectiveCameraCaster,
        u: i64,
        v: i64,
        rng: &mut rand::rngs::StdRng,
    ) -> (c: Color)
        requires
            wf_sampler(*self),
            wf_scene(*hittable),
            wf_caster(*ray_caster),
            0 <= u <= SCALE,
            0 <= v <= SCALE,
        ensures
            wf_color(c),
            ({
                let d0 = cast_dir_vec(*ray_caster, u as int, v as int);
                crate::math::dotw(d0, d0) > 0 && crate::math::is_unit(crate::math::unit_of(d0))
                    && scene_hit_spec(
                    *hittable,
                    primary_ray(*ray_caster, u as int, v as int),
                    T_NEAR as int,
                    T_FAR as int,
                ) is None
            }) ==> c == self.ambient_light,
            ({
                let d0 = cast_dir_vec(*ray_caster, u as int, v as int);
                !(crate::math::dotw(d0, d0) > 0 && crate::math::is_unit(crate::math::unit_of(d0)))
            }) ==> c == self.ambient_light,
            ({
                let d0 = cast_dir_vec(*ray_caster, u as int, v as int);
                crate::math::dotw(d0, d0) > 0 && crate::math::is_unit(crate::math::unit_of(d0))
                    && self.material is DebugNormal
            }) ==> c == debug_estimate(
                *hittable,
                primary_ray(*ray_caster, u as int, v as int),
                self.max_depth as nat,
                self.ambient_light,
            ),
    {
        let ray = match ray_caster.cast(u, v) {
            None => {
                return self.ambient_light;
            },
            Some(r) => r,
        };
        proof {
            assert(ray == primary_ray(*ray_caster, u as int, v as int));
        }
        let mut acc = Color::new(0, 0, 0);
        let mut i: u32 = 0;
        while i < self.subsamples
            invariant
                i <= self.subsamples,
                self.subsamples <= 65536,
                wf_sampler(*self),
                wf_scene(*hittable),
                wf_ray(ray),
                0 <= acc.r <= i * SCALE,
                0 <= acc.g <= i * SCALE,
                0 <= acc.b <= i * SCALE,
                scene_hit_spec(*hittable, ray, T_NEAR as int, T_FAR as int) is None ==> acc.r == i
                    * self.ambient_light.r && acc.g == i * self.ambient_light.g && acc.b == i
                    * self.ambient_light.b,
                self.material is DebugNormal ==> ({
                    let de = debug_estimate(*hittable, ray, self.max_depth as nat, self.ambient_light);
                    acc.r == i * de.r && acc.g == i * de.g && acc.b == i * de.b
                }),
            decreases self.subsamples - i,
        {
            let s = self.inner_sample(hittable, &ray, self.max_depth, rng);
            proof {
                if self.material is DebugNormal {
                    let de = debug_estimate(
                        *hittable,
                        ray,
                        self.max_depth as nat,
                        self.ambient_light,
                    );
                    assert(acc.r + s.r == (i + 1) * de.r && acc.g + s.g == (i + 1) * de.g && acc.b
                        + s.b == (i + 1) * de.b) by (nonlinear_arith)
                        requires
                            acc.r == i * de.r,
                            acc.g == i * de.g,
                            acc.b == i * de.b,
                            s == de,
                    ;
                }
                if scene_hit_spec(*hittable, ray, T_NEAR as int, T_FAR as int) is None {
                    assert(acc.r + s.r == (i + 1) * self.ambient_light.r
                        && acc.g + s.g == (i + 1) * self.ambient_light.g
                        && acc.b + s.b == (i + 1) * self.ambient_light.b) by (nonlinear_arith)
                        requires
                            acc.r == i * self.ambient_light.r,
                            acc.g == i * self.ambient_light.g,
                            acc.b == i * self.ambient_light.b,
                            s == self.ambient_light,
                    ;
                }
            }
            acc = acc.add(s);
            i = i + 1;
        }
        proof {
            lemma_fdiv_in_bound(acc.r as int, self.subsamples as int, SCALE as int);
            lemma_fdiv_in_bound(acc.g as int, self.subsamples as int, SCALE as int);
            lemma_fdiv_in_bound(acc.b as int, self.subsamples as int, SCALE as int);
            lemma_div_pos_is_pos(acc.r as int, self.subsamples as int);
            lemma_div_pos_is_pos(acc.g as int, self.subsamples as int);
            lemma_div_pos_is_pos(acc.b as int, self.subsamples as int);
            if scene_hit_spec(*hittable, ray, T_NEAR as int, T_FAR as int) is None {
                lemma_mul_div_cancel(self.subsamples as int, self.ambient_light.r as int);
                lemma_mul_div_cancel(self.subsamples as int, self.ambient_light.g as int);
                lemma_mul_div_cancel(self.subsamples as int, self.ambient_light.b as int);
            }
            if self.material is DebugNormal {
                let de = debug_estimate(*hittable, ray, self.max_depth as nat, self.ambient_light);
                lemma_debug_estimate_wf(*hittable, ray, self.max_depth as nat, self.ambient_light);
                lemma_mul_div_cancel(self.subsamples as int, de.r as int);
                lemma_mul_div_cancel(self.subsamples as int, de.g as int);
                lemma_mul_div_cancel(self.subsamples as int, de.b as int);
            }
        }
        acc.div_n(self.subsamples)
    }
}

/// Dividing `n * a` back by `n` recovers `a`.
proof fn lemma_mul_div_cancel(n: int, a: int)
    requires
        n >= 1,
        a >= 0,
    ensures
        (n * a) / n == a,
{
    assert(n * a == a * n + 0) by (nonlinear_arith);
    lemma_fundamental_div_mod_converse_div(n * a, n, a, 0);
}

} // verus!
