//! The perspective camera and its ray caster.
//!
//! A camera is configured through [`PerspectiveCameraBuilder`] and built by
//! a validating constructor: every missing or out-of-range field, and every
//! degenerate look-at orientation, surfaces as a [`CameraError`] at build
//! time, before any pixel work begins.
//!
//! The image-plane convention of this crate: `cast(u, v)` takes normalized
//! coordinates in `[0, 1] x [0, 1]` (fixed point, so `[0, SCALE]`), with
//! the origin at the top-left corner of the image; increasing `v` moves
//! down in raster space, and the vertical axis is flipped so that it moves
//! down in world space as well.

use vstd::prelude::*;

verus! {

use crate::fixed::{SCALE, fdiv, sqrt_floor, wide_mul, div_floor, lemma_abs_mul_le, lemma_fdiv_in_bound};
use vstd::arithmetic::div_mod::lemma_fundamental_div_mod_converse_div;
use crate::math::{
    Vec3, bounded, dots, dotw, is_unit, vsub, vcross, vadd, vscale, unit_of,
    lemma_cross_bound, lemma_vscale_bound,
    COORD_MAX,
};
use crate::ray::{Ray, wf_ray};

/// Why a camera configuration was rejected at build time.
#[derive(Clone, Copy, Debug, PartialEq, Eq, Structural)]
pub enum CameraError {
    /// No world position was given.
    MissingTranslation,
    /// No look-at target was given.
    MissingLookAt,
    /// The world position lies outside the scene coordinate range.
    TranslationOutOfRange,
    /// The look-at target lies outside the scene coordinate range.
    LookAtOutOfRange,
    /// The focal length is not positive or is out of range.
    InvalidFocalLength,
    /// The aspect ratio is not positive or is out of range.
    InvalidAspectRatio,
    /// The image has a zero dimension.
    InvalidImageSize,
    /// The look-at orientation is degenerate: the eye coincides with the
    /// target, or the view direction is parallel to the world up axis.
    DegenerateLookAt,
}

/// The world up direction, `+Y`, used by the look-at derivation.
pub open spec fn world_up() -> Vec3 {
    Vec3 { x: 0, y: SCALE, z: 0 }
}

/// Largest accepted aspect ratio (16 in real units).
pub const ASPECT_MAX: i64 = 1048576;

/// A fully validated perspective camera: a world position, an orthonormal
/// look-at basis, and the intrinsic parameters.
#[derive(Clone, Copy, Debug)]
pub struct PerspectiveCamera {
    pub translation: Vec3,
    pub right: Vec3,
    pub up: Vec3,
    pub forward: Vec3,
    pub focal_length: i64,
    pub aspect_ratio: i64,
    pub image_width: u32,
    pub image_height: u32,
}

/// A well-formed camera: position in range, unit basis vectors, positive
/// intrinsics.
pub open spec fn wf_camera(c: PerspectiveCamera) -> bool {
    &&& bounded(c.translation, COORD_MAX as int)
    &&& bounded(c.right, SCALE as int) && is_unit(c.right)
    &&& bounded(c.up, SCALE as int) && is_unit(c.up)
    &&& bounded(c.forward, SCALE as int) && is_unit(c.forward)
    &&& 1 <= c.focal_length <= COORD_MAX
    &&& 1 <= c.aspect_ratio <= ASPECT_MAX
    &&& c.image_width >= 1
    &&& c.image_height >= 1
}

/// The camera configuration surface.  Fields default to a unit focal
/// length, square aspect and a one-pixel image; the position and the
/// look-at target have no default and must be supplied.
#[derive(Clone, Copy, Debug)]
pub struct PerspectiveCameraBuilder {
    pub aspect_ratio: i64,
    pub focal_length: i64,
    pub translation: Option<Vec3>,
    pub look_at_target: Option<Vec3>,
    pub image_width: u32,
    pub image_height: u32,
}

impl Default for PerspectiveCameraBuilder {
    /// The default configuration: unit focal length and aspect ratio, a
    /// one-pixel image, and no position or target yet.
    fn default() -> (b: PerspectiveCameraBuilder)
        ensures
            b.aspect_ratio == SCALE,
            b.focal_length == SCALE,
            b.translation is None,
            b.look_at_target is None,
            b.image_width == 1,
            b.image_height == 1,
    {
        PerspectiveCameraBuilder {
            aspect_ratio: SCALE,
            focal_length: SCALE,
            translation: None,
            look_at_target: None,
            image_width: 1,
            image_height: 1,
        }
    }
}

/// What building a configuration yields: the first failed validation in
/// order, or the camera with the look-at basis `forward` (eye to target),
/// `right` (forward x world up) and `up` (right x forward), each
/// normalized.  A normalization that fails — eye at the target, or a view
/// direction parallel to the world up axis — is a degenerate look-at.
pub open spec fn build_spec(b: PerspectiveCameraBuilder) -> Result<
    PerspectiveCamera,
    CameraError,
> {
    if b.translation is None {
        Err(CameraError::MissingTranslation)
    } else if b.look_at_target is None {
        Err(CameraError::MissingLookAt)
    } else if !bounded(b.translation->0, COORD_MAX as int) {
        Err(CameraError::TranslationOutOfRange)
    } else if !bounded(b.look_at_target->0, COORD_MAX as int) {
        Err(CameraError::LookAtOutOfRange)
    } else if !(1 <= b.focal_length <= COORD_MAX) {
        Err(CameraError::InvalidFocalLength)
    } else if !(1 <= b.aspect_ratio <= ASPECT_MAX) {
        Err(CameraError::InvalidAspectRatio)
    } else if b.image_width == 0 || b.image_height == 0 {
        Err(CameraError::InvalidImageSize)
    } else {
        let eye = b.translation->0;
        let fvec = vsub(b.look_at_target->0, eye);
        if !(dotw(fvec, fvec) > 0 && is_unit(unit_of(fvec))) {
            Err(CameraError::DegenerateLookAt)
        } else {
            let forward = unit_of(fvec);
            let rvec = vcross(forward, world_up());
            if !(dotw(rvec, rvec) > 0 && is_unit(unit_of(rvec))) {
                Err(CameraError::DegenerateLookAt)
            } else {
                let right = unit_of(rvec);
                let uvec = vcross(right, forward);
                if !(dotw(uvec, uvec) > 0 && is_unit(unit_of(uvec))) {
                    Err(CameraError::DegenerateLookAt)
                } else {
                    Ok(PerspectiveCamera {
                        translation: eye,
                        right,
                        up: unit_of(uvec),
                        forward,
                        focal_length: b.focal_length,
                        aspect_ratio: b.aspect_ratio,
                        image_width: b.image_width,
                        image_height: b.image_height,
                    })
                }
            }
        }
    }
}

impl PerspectiveCameraBuilder {
    /// Sets the output image dimensions in pixels.
    pub fn image_size(self, width: u32, height: u32) -> (b: PerspectiveCameraBuilder)
        ensures
            b == (PerspectiveCameraBuilder { image_width: width, image_height: height, ..self }),
    {
        PerspectiveCameraBuilder { image_width: width, image_height: height, ..self }
    }

    /// Sets the aspect ratio from an integer fraction, such as 16:9.
    pub fn aspect_frac(self, width: u32, height: u32) -> (b: PerspectiveCameraBuilder)
        requires
            height >= 1,
        ensures
            b == (PerspectiveCameraBuilder {
                aspect_ratio: ((width as int * SCALE) / (height as int)) as i64,
                ..self
            }),
    {
        let ratio = (width as i64 * SCALE) / (height as i64);
        PerspectiveCameraBuilder { aspect_ratio: ratio, ..self }
    }

    /// Sets the focal length, given in thousandths of a world unit.
    pub fn focal_lenght_mm(self, focal_lenght: u32) -> (b: PerspectiveCameraBuilder)
        ensures
            b == (PerspectiveCameraBuilder {
                focal_length: ((focal_lenght as int * SCALE) / 1000) as i64,
                ..self
            }),
    {
        let f = (focal_lenght as i64 * SCALE) / 1000;
        PerspectiveCameraBuilder { focal_length: f, ..self }
    }

    /// Sets the focal length directly, as a fixed-point world length.
    pub fn focal_length(self, focal_length: i64) -> (b: PerspectiveCameraBuilder)
        ensures
            b == (PerspectiveCameraBuilder { focal_length, ..self }),
    {
        PerspectiveCameraBuilder { focal_length, ..self }
    }

    /// Sets the camera's world position.
    pub fn translation(self, translation: Vec3) -> (b: PerspectiveCameraBuilder)
        ensures
            b == (PerspectiveCameraBuilder { translation: Some(translation), ..self }),
    {
        PerspectiveCameraBuilder { translation: Some(translation), ..self }
    }

    /// Points the camera at a world target; the orientation is derived at
    /// build time by the look-at rule with world up `+Y`.
    pub fn look_at(self, target: Vec3) -> (b: PerspectiveCameraBuilder)
        ensures
            b == (PerspectiveCameraBuilder { look_at_target: Some(target), ..self }),
    {
        PerspectiveCameraBuilder { look_at_target: Some(target), ..self }
    }

    /// Validates the configuration and builds the camera, failing fast with
    /// the first error in validation order.
    pub fn build(self) -> (r: Result<PerspectiveCamera, CameraError>)
        ensures
            r == build_spec(self),
            r is Ok ==> wf_camera(r->Ok_0),
    {
        let eye = match self.translation {
            None => {
                return Err(CameraError::MissingTranslation);
            },
            Some(t) => t,
        };
        let target = match self.look_at_target {
            None => {
                return Err(CameraError::MissingLookAt);
            },
            Some(t) => t,
        };
        if eye.x < -COORD_MAX || eye.x > COORD_MAX || eye.y < -COORD_MAX || eye.y > COORD_MAX
            || eye.z < -COORD_MAX || eye.z > COORD_MAX {
            return Err(CameraError::TranslationOutOfRange);
        }
        if target.x < -COORD_MAX || target.x > COORD_MAX || target.y < -COORD_MAX
            || target.y > COORD_MAX || target.z < -COORD_MAX || target.z > COORD_MAX {
            return Err(CameraError::LookAtOutOfRange);
        }
        if self.focal_length < 1 || self.focal_length > COORD_MAX {
            return Err(CameraError::InvalidFocalLength);
        }
        if self.aspect_ratio < 1 || self.aspect_ratio > ASPECT_MAX {
            return Err(CameraError::InvalidAspectRatio);
        }
        if self.image_width == 0 || self.image_height == 0 {
            return Err(CameraError::InvalidImageSize);
        }
        let fvec = target.sub(eye);
        let forward = match fvec.unit() {
            None => {
                return Err(CameraError::DegenerateLookAt);
            },
            Some(f) => f,
        };
        let wup = Vec3::new(0, SCALE, 0);
        proof {
            lemma_cross_bound(forward, wup, SCALE as int, SCALE as int);
        }
        let rvec = forward.cross(wup);
        let right = match rvec.unit() {
            None => {
                return Err(CameraError::DegenerateLookAt);
            },
            Some(rv) => rv,
        };
        proof {
            lemma_cross_bound(right, forward, SCALE as int, SCALE as int);
        }
        let uvec = right.cross(forward);
        let up = match uvec.unit() {
            None => {
                return Err(CameraError::DegenerateLookAt);
            },
            Some(u) => u,
        };
        Ok(PerspectiveCamera {
            translation: eye,
            right,
            up,
            forward,
            focal_length: self.focal_length,
            aspect_ratio: self.aspect_ratio,
            image_width: self.image_width,
            image_height: self.image_height,
        })
    }
}

/// The cached ray-casting state: the camera's position and basis, reused
/// for every pixel.
#[derive(Clone, Copy, Debug)]
pub struct PerspectiveCameraCaster {
    pub origin: Vec3,
    pub right: Vec3,
    pub up: Vec3,
    pub forward: Vec3,
    pub focal_length: i64,
    pub aspect_ratio: i64,
}

/// A well-formed caster mirrors the camera invariant.
pub open spec fn wf_caster(c: PerspectiveCameraCaster) -> bool {
    &&& bounded(c.origin, COORD_MAX as int)
    &&& bounded(c.right, SCALE as int) && is_unit(c.right)
    &&& bounded(c.up, SCALE as int) && is_unit(c.up)
    &&& bounded(c.forward, SCALE as int) && is_unit(c.forward)
    &&& 1 <= c.focal_length <= COORD_MAX
    &&& 1 <= c.aspect_ratio <= ASPECT_MAX
}

/// The unnormalized view direction for the image-plane point `(u, v)`:
/// `right * (u - 1/2) * aspect + up * (1/2 - v) + forward * focal_length`.
pub open spec fn cast_dir_vec(c: PerspectiveCameraCaster, u: int, v: int) -> Vec3 {
    let x = fdiv((u - 32768) * c.aspect_ratio, SCALE as int);
    let y = 32768 - v;
    vadd(vadd(vscale(c.right, x), vscale(c.up, y)), vscale(c.forward, c.focal_length as int))
}

/// The camera round trip at the image center: the ray cast through the
/// center of the image plane points exactly along the camera's forward
/// axis — the direction from the eye to the look-at target.  Stated for a
/// forward axis that is exactly unit at the fixed-point scale and a focal
/// length that is a whole number of world units; the horizontal and
/// vertical offsets vanish at the center, so the direction reduces to the
/// normalized forward axis with no rounding at all.
pub proof fn lemma_center_cast_is_forward(c: PerspectiveCameraCaster)
    requires
        wf_caster(c),
        dotw(c.forward, c.forward) == SCALE * SCALE,
        c.focal_length % SCALE == 0,
    ensures
        cast_dir_vec(c, 32768, 32768) == vscale(c.forward, c.focal_length as int),
        unit_of(cast_dir_vec(c, 32768, 32768)) == c.forward,
        is_unit(unit_of(cast_dir_vec(c, 32768, 32768))),
        dotw(cast_dir_vec(c, 32768, 32768), cast_dir_vec(c, 32768, 32768)) > 0,
{
    let f = c.forward;
    let focal = c.focal_length as int;
    let m = focal / (SCALE as int);
    vstd::arithmetic::div_mod::lemma_fundamental_div_mod(focal, SCALE as int);
    assert(focal == m * SCALE) by (nonlinear_arith)
        requires
            focal == (SCALE as int) * m + focal % (SCALE as int),
            focal % (SCALE as int) == 0,
    ;
    assert(m >= 1) by (nonlinear_arith)
        requires
            focal == m * SCALE,
            focal >= 1,
            SCALE == 65536,
    ;
    // The center offsets vanish, so the direction is forward scaled by the
    // focal length.
    let d0 = cast_dir_vec(c, 32768, 32768);
    assert((32768 - 32768) * c.aspect_ratio == 0);
    assert(fdiv(0, SCALE as int) == 0);
    assert(vscale(c.right, 0) == (Vec3 { x: 0, y: 0, z: 0 })) by {
        assert(c.right.x * 0 == 0) by (nonlinear_arith);
        assert(c.right.y * 0 == 0) by (nonlinear_arith);
        assert(c.right.z * 0 == 0) by (nonlinear_arith);
    }
    assert(vscale(c.up, 0) == (Vec3 { x: 0, y: 0, z: 0 })) by {
        assert(c.up.x * 0 == 0) by (nonlinear_arith);
        assert(c.up.y * 0 == 0) by (nonlinear_arith);
        assert(c.up.z * 0 == 0) by (nonlinear_arith);
    }
    assert(bounded(vscale(f, focal), 0x10000000000)) by {
        lemma_vscale_bound(f, focal, SCALE as int, COORD_MAX as int);
    }
    assert(d0 == vscale(f, focal));
    // Scaling by a whole number of units is exact.
    assert(f.x * focal == (f.x * m) * SCALE && f.y * focal == (f.y * m) * SCALE && f.z * focal == (
    f.z * m) * SCALE) by (nonlinear_arith)
        requires
            focal == m * SCALE,
    ;
    lemma_fundamental_div_mod_converse_div(f.x * focal, SCALE as int, f.x * m, 0);
    lemma_fundamental_div_mod_converse_div(f.y * focal, SCALE as int, f.y * m, 0);
    lemma_fundamental_div_mod_converse_div(f.z * focal, SCALE as int, f.z * m, 0);
    assert(d0.x == f.x * m && d0.y == f.y * m && d0.z == f.z * m) by {
        lemma_abs_mul_le(f.x as int, m, SCALE as int, 0x1000);
        lemma_abs_mul_le(f.y as int, m, SCALE as int, 0x1000);
        lemma_abs_mul_le(f.z as int, m, SCALE as int, 0x1000);
    }
    // The squared norm scales by m^2, so the square root is m * SCALE and
    // the normalization divides the scaling straight back out.
    let n = dotw(d0, d0);
    assert(d0.x * d0.x == (m * m) * (f.x * f.x)) by (nonlinear_arith)
        requires
            d0.x == f.x * m,
    ;
    assert(d0.y * d0.y == (m * m) * (f.y * f.y)) by (nonlinear_arith)
        requires
            d0.y == f.y * m,
    ;
    assert(d0.z * d0.z == (m * m) * (f.z * f.z)) by (nonlinear_arith)
        requires
            d0.z == f.z * m,
    ;
    assert(n == (m * m) * (SCALE * SCALE)) by (nonlinear_arith)
        requires
            n == d0.x * d0.x + d0.y * d0.y + d0.z * d0.z,
            d0.x * d0.x == (m * m) * (f.x * f.x),
            d0.y * d0.y == (m * m) * (f.y * f.y),
            d0.z * d0.z == (m * m) * (f.z * f.z),
            f.x * f.x + f.y * f.y + f.z * f.z == SCALE * SCALE,
    ;
    assert(n > 0) by (nonlinear_arith)
        requires
            n == (m * m) * (SCALE * SCALE),
            m >= 1,
            SCALE == 65536,
    ;
    assert((m * SCALE) * (m * SCALE) <= n && n < (m * SCALE + 1) * (m * SCALE + 1))
        by (nonlinear_arith)
        requires
            n == (m * m) * (SCALE * SCALE),
            m >= 1,
            SCALE == 65536,
    ;
    crate::fixed::lemma_sqrt_floor_unique(n, m * SCALE);
    let l = sqrt_floor(n);
    assert(l == m * SCALE);
    assert(d0.x * SCALE == f.x * (m * SCALE) && d0.y * SCALE == f.y * (m * SCALE) && d0.z * SCALE
        == f.z * (m * SCALE)) by (nonlinear_arith)
        requires
            d0.x == f.x * m && d0.y == f.y * m && d0.z == f.z * m,
    ;
    lemma_fundamental_div_mod_converse_div(d0.x * SCALE, m * SCALE, f.x as int, 0);
    lemma_fundamental_div_mod_converse_div(d0.y * SCALE, m * SCALE, f.y as int, 0);
    lemma_fundamental_div_mod_converse_div(d0.z * SCALE, m * SCALE, f.z as int, 0);
    assert(unit_of(d0) == f);
    assert(dots(f, f) == SCALE) by {
        lemma_fundamental_div_mod_converse_div(SCALE * SCALE, SCALE as int, SCALE as int, 0);
    }
}

impl PerspectiveCamera {
    /// Hands out the cached ray caster for this camera.
    pub fn ray_caster(&self) -> (c: PerspectiveCameraCaster)
        ensures
            c.origin == self.translation,
            c.right == self.right,
            c.up == self.up,
            c.forward == self.forward,
            c.focal_length == self.focal_length,
            c.aspect_ratio == self.aspect_ratio,
            wf_camera(*self) ==> wf_caster(c),
    {
        PerspectiveCameraCaster {
            origin: self.translation,
            right: self.right,
            up: self.up,
            forward: self.forward,
            focal_length: self.focal_length,
            aspect_ratio: self.aspect_ratio,
        }
    }
}

impl PerspectiveCameraCaster {
    /// Casts the ray for the normalized image-plane point `(u, v)`, both in
    /// `[0, SCALE]` with the top-left convention.  Returns `None` only when
    /// the mapped direction is too degenerate to normalize.
    pub fn cast(&self, u: i64, v: i64) -> (r: Option<Ray>)
        requires
            wf_caster(*self),
            0 <= u <= SCALE,
            0 <= v <= SCALE,
        ensures
            r is Some <==> ({
                let d0 = cast_dir_vec(*self, u as int, v as int);
                dotw(d0, d0) > 0 && is_unit(unit_of(d0))
            }),
            r is Some ==> r->0.origin == self.origin,
            r is Some ==> r->0.direction == unit_of(cast_dir_vec(*self, u as int, v as int)),
            r is Some ==> wf_ray(r->0),
    {
        proof {
            lemma_abs_mul_le((u - 32768) as int, self.aspect_ratio as int, 32768, ASPECT_MAX as int);
            lemma_fdiv_in_bound((u - 32768) * self.aspect_ratio, SCALE as int, 0x80000000);
        }
        let x = div_floor(wide_mul(u - 32768, self.aspect_ratio), SCALE as i128) as i64;
        let y = 32768 - v;
        proof {
            lemma_vscale_bound(self.right, x as int, SCALE as int, 0x80000000);
            lemma_vscale_bound(self.up, y as int, SCALE as int, SCALE as int);
            lemma_vscale_bound(self.forward, self.focal_length as int, SCALE as int, COORD_MAX as int);
        }
        let d0 = self.right.scale(x).add(self.up.scale(y)).add(self.forward.scale(self.focal_length));
        proof {
            assert(d0 == cast_dir_vec(*self, u as int, v as int));
        }
        match d0.unit() {
            None => None,
            Some(dir) => Some(Ray::new(self.origin, dir)),
        }
    }
}

} // verus!
