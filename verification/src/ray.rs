//! Rays and surface interactions.
//!
//! A [`Ray`] is an origin plus a unit direction; `at(t)` walks `t` units
//! along it.  A [`SurfaceInteraction`] records one successful intersection:
//! the hit point, the incoming direction, the surface normal, the parametric
//! distance, and on which face the ray arrived.

use vstd::prelude::*;

verus! {

use crate::fixed::{SCALE, fdiv, lemma_fdiv_in_bound, lemma_abs_mul_le};
use crate::math::{
    Vec3, bounded, dots, is_unit, lemma_dotw_bound,
    COORD_MAX, POINT_MAX, ORIGIN_MAX,
};

/// A ray with a unit direction.  Immutable once constructed; each primary
/// cast and each scattered bounce builds a fresh one.
#[derive(Clone, Copy, Debug)]
pub struct Ray {
    pub origin: Vec3,
    pub direction: Vec3,
}

/// A well-formed ray: the origin is in range and the direction is unit.
pub open spec fn wf_ray(r: Ray) -> bool {
    &&& bounded(r.origin, ORIGIN_MAX as int)
    &&& bounded(r.direction, SCALE as int)
    &&& is_unit(r.direction)
}

/// The point `origin + direction * t`, componentwise.
pub open spec fn ray_at(r: Ray, t: int) -> Vec3 {
    Vec3 {
        x: (r.origin.x + fdiv(r.direction.x * t, SCALE as int)) as i64,
        y: (r.origin.y + fdiv(r.direction.y * t, SCALE as int)) as i64,
        z: (r.origin.z + fdiv(r.direction.z * t, SCALE as int)) as i64,
    }
}

impl Ray {
    /// Builds a ray.  The direction must already be unit length — construct
    /// it with [`Vec3::unit`] — so that the unit invariant holds for every
    /// ray in the system.
    pub fn new(origin: Vec3, direction: Vec3) -> (r: Ray)
        requires
            bounded(origin, ORIGIN_MAX as int),
            bounded(direction, SCALE as int),
            is_unit(direction),
        ensures
            r.origin == origin,
            r.direction == direction,
            wf_ray(r),
    {
        Ray { origin, direction }
    }

    /// Returns the origin.
    pub fn origin(&self) -> (v: Vec3)
        ensures
            v == self.origin,
    {
        self.origin
    }

    /// Returns the unit direction.
    pub fn direction(&self) -> (v: Vec3)
        ensures
            v == self.direction,
    {
        self.direction
    }

    /// The point reached after walking `t` units along the ray.
    pub fn at(&self, t: i64) -> (p: Vec3)
        requires
            wf_ray(*self),
            -COORD_MAX <= t <= COORD_MAX,
        ensures
            p == ray_at(*self, t as int),
            bounded(p, ORIGIN_MAX as int + COORD_MAX as int + 1),
    {
        proof {
            lemma_abs_mul_le(self.direction.x as int, t as int, SCALE as int, COORD_MAX as int);
            lemma_abs_mul_le(self.direction.y as int, t as int, SCALE as int, COORD_MAX as int);
            lemma_abs_mul_le(self.direction.z as int, t as int, SCALE as int, COORD_MAX as int);
            lemma_fdiv_in_bound(self.direction.x * t, SCALE as int, COORD_MAX as int + 1);
            lemma_fdiv_in_bound(self.direction.y * t, SCALE as int, COORD_MAX as int + 1);
            lemma_fdiv_in_bound(self.direction.z * t, SCALE as int, COORD_MAX as int + 1);
        }
        self.origin.add(self.direction.scale(t))
    }
}

/// Every ray carries a unit direction: [`Ray::new`] admits only directions
/// whose squared norm is within [`crate::math::UNIT_TOL`] of one — the
/// certificate [`crate::math::Vec3::unit`] produces — and a ray never
/// changes after construction, so the invariant holds of every ray in the
/// system.
pub proof fn lemma_ray_direction_unit(r: Ray)
    requires
        wf_ray(r),
    ensures
        SCALE - crate::math::UNIT_TOL <= dots(r.direction, r.direction) <= SCALE
            + crate::math::UNIT_TOL,
{
}

/// Which face of a surface the ray arrived on.
#[derive(Clone, Copy, Debug, PartialEq, Eq, Structural)]
pub enum Face {
    Front,
    Back,
}

/// The face convention of this crate: the ray hits the front face when it
/// arrives against the outward normal, that is when `normal . direction` is
/// negative; otherwise it hits the back face.
pub open spec fn face_of(normal: Vec3, direction: Vec3) -> Face {
    if dots(normal, direction) < 0 {
        Face::Front
    } else {
        Face::Back
    }
}

/// The record of one successful intersection, consumed immediately by the
/// material and sampler step.
#[derive(Clone, Copy, Debug, PartialEq, Eq, Structural)]
pub struct SurfaceInteraction {
    /// The hit point on the surface.
    pub point: Vec3,
    /// The unit direction of the incoming ray.
    pub direction: Vec3,
    /// The unit outward surface normal at the hit point.
    pub normal: Vec3,
    /// The face the ray arrived on, derived from `normal . direction`.
    pub face: Face,
    /// The parametric distance of the hit along the ray.
    pub t: i64,
}

/// A well-formed interaction: the point is in range and both directions are
/// unit, with the face following the crate's sign convention.
pub open spec fn wf_si(si: SurfaceInteraction) -> bool {
    &&& bounded(si.point, POINT_MAX as int)
    &&& bounded(si.direction, SCALE as int)
    &&& bounded(si.normal, SCALE as int)
    &&& is_unit(si.direction)
    &&& is_unit(si.normal)
    &&& si.face == face_of(si.normal, si.direction)
    &&& 0 <= si.t <= COORD_MAX
}

impl SurfaceInteraction {
    /// Builds the interaction, deriving the face from the sign of
    /// `normal . direction`.
    pub fn new(point: Vec3, direction: Vec3, normal: Vec3, t: i64) -> (si: SurfaceInteraction)
        requires
            bounded(point, POINT_MAX as int),
            bounded(direction, SCALE as int),
            bounded(normal, SCALE as int),
            is_unit(direction),
            is_unit(normal),
            0 <= t <= COORD_MAX,
        ensures
            si.point == point,
            si.direction == direction,
            si.normal == normal,
            si.t == t,
            si.face == face_of(normal, direction),
            wf_si(si),
    {
        proof {
            lemma_dotw_bound(normal, direction, SCALE as int, SCALE as int);
        }
        let d = normal.dot(direction);
        let face = if d < 0 {
            Face::Front
        } else {
            Face::Back
        };
        SurfaceInteraction { point, direction, normal, face, t }
    }
}

} // verus!
