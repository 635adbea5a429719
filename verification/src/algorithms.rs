//! Closed-form intersection solvers.
//!
//! Ray–sphere reduces to a quadratic in the ray parameter `t`; ray–triangle
//! is the Möller–Trumbore barycentric test.  Both are pure functions with
//! exact contracts: the spec functions below mirror the fixed-point
//! computation step for step, and each solver returns a result if and only
//! if the mirrored conditions hold.

use vstd::prelude::*;

verus! {

use vstd::arithmetic::div_mod::{lemma_div_is_ordered, lemma_fundamental_div_mod, lemma_fundamental_div_mod_converse_div, lemma_mod_bound};
use crate::fixed::{
    SCALE, fdiv, sqrt_floor, wide_mul, div_floor, isqrt,
    lemma_abs_mul_le, lemma_fdiv_abs_le, lemma_fdiv_in_bound, lemma_sqrt_floor_bounds,
};
use crate::math::{
    Vec3, bounded, dots, dotw, vsub, vcross, is_unit,
    lemma_dotw_bound, lemma_cross_bound,
    COORD_MAX, ORIGIN_MAX,
};

/// Rejection threshold: quantities smaller than `EPSILON` (about `1.5e-5`
/// in real units) count as zero, both for the triangle's parallelism test
/// and for the minimum accepted hit distance.
pub const EPSILON: i64 = 1;

/// The squared norm `a = |D|^2` of the quadratic `a t^2 + 2 half_b t + c`.
pub open spec fn sphere_qa(direction: Vec3) -> int {
    dots(direction, direction)
}

/// The half cross term `half_b = (O - C) . D` of the quadratic.
pub open spec fn sphere_half_b(origin: Vec3, direction: Vec3, center: Vec3) -> int {
    dots(vsub(origin, center), direction)
}

/// The constant term `c = |O - C|^2 - r^2` of the quadratic.
pub open spec fn sphere_qc(origin: Vec3, center: Vec3, radius: int) -> int {
    dots(vsub(origin, center), vsub(origin, center)) - (radius * radius) / (SCALE as int)
}

/// The discriminant `half_b^2 - a * c` of the quadratic.
pub open spec fn sphere_disc(origin: Vec3, direction: Vec3, center: Vec3, radius: int) -> int {
    (sphere_half_b(origin, direction, center) * sphere_half_b(origin, direction, center)
        - sphere_qa(direction) * sphere_qc(origin, center, radius)) / (SCALE as int)
}

/// The smaller root `t0 = (-half_b - sqrt(disc)) / a`.
pub open spec fn sphere_t0(origin: Vec3, direction: Vec3, center: Vec3, radius: int) -> int {
    fdiv(
        (-sphere_half_b(origin, direction, center)
            - sqrt_floor(sphere_disc(origin, direction, center, radius) * SCALE)) * SCALE,
        sphere_qa(direction),
    )
}

/// The larger root `t1 = (-half_b + sqrt(disc)) / a`.
pub open spec fn sphere_t1(origin: Vec3, direction: Vec3, center: Vec3, radius: int) -> int {
    fdiv(
        (-sphere_half_b(origin, direction, center)
            + sqrt_floor(sphere_disc(origin, direction, center, radius) * SCALE)) * SCALE,
        sphere_qa(direction),
    )
}

/// Solves the ray–sphere quadratic.  Returns both roots, smaller first,
/// when the discriminant is strictly positive; a nonpositive discriminant
/// (the ray misses or only grazes) yields no intersection.
pub fn sphere_intersection(
    origin: &Vec3,
    direction: &Vec3,
    center: &Vec3,
    radius: i64,
) -> (r: Option<(i64, i64)>)
    requires
        bounded(*origin, ORIGIN_MAX as int),
        bounded(*direction, SCALE as int),
        bounded(*center, COORD_MAX as int),
        1 <= radius <= COORD_MAX,
        dots(*direction, *direction) >= 1,
    ensures
        r is Some <==> sphere_disc(*origin, *direction, *center, radius as int) > 0,
        r is Some ==> (r->0).0 == sphere_t0(*origin, *direction, *center, radius as int),
        r is Some ==> (r->0).1 == sphere_t1(*origin, *direction, *center, radius as int),
        r is Some ==> (r->0).0 <= (r->0).1,
{
    let oc = origin.sub(*center);
    proof {
        assert(oc == vsub(*origin, *center));
        lemma_dotw_bound(oc, *direction, 0x60000000, SCALE as int);
        lemma_fdiv_in_bound(dotw(oc, *direction), SCALE as int, 0x120000000);
        lemma_dotw_bound(*direction, *direction, SCALE as int, SCALE as int);
        lemma_fdiv_in_bound(dotw(*direction, *direction), SCALE as int, 0x30000);
        lemma_dotw_bound(oc, oc, 0x60000000, 0x60000000);
        lemma_fdiv_in_bound(dotw(oc, oc), SCALE as int, 0x6c0000000000);
        lemma_abs_mul_le(radius as int, radius as int, COORD_MAX as int, COORD_MAX as int);
        lemma_fdiv_in_bound(radius as int * radius as int, SCALE as int, 0x10000000000);
    }
    let half_b = oc.dot(*direction);
    let a = direction.dot(*direction);
    let rsq = div_floor(wide_mul(radius, radius), SCALE as i128) as i64;
    let cq = oc.dot(oc) - rsq;
    proof {
        lemma_abs_mul_le(half_b as int, half_b as int, 0x120000000, 0x120000000);
        lemma_abs_mul_le(a as int, cq as int, 0x30000, 0x6d0000000000);
        lemma_fdiv_in_bound(
            half_b as int * half_b as int - a as int * cq as int,
            SCALE as int,
            0x40000000000000,
        );
    }
    let numer: i128 = wide_mul(half_b, half_b) - wide_mul(a, cq);
    let disc = div_floor(numer, SCALE as i128) as i64;
    assert(disc == sphere_disc(*origin, *direction, *center, radius as int));
    if disc <= 0 {
        return None;
    }
    proof {
        assert(disc * SCALE >= 0) by (nonlinear_arith)
            requires
                disc >= 0,
                SCALE == 65536,
        ;
    }
    let discw: i128 = wide_mul(disc, SCALE);
    proof {
        lemma_abs_mul_le(disc as int, SCALE as int, 0x40000000000000, 0x10000);
    }
    let sq_u = isqrt(discw as u128);
    proof {
        assert(sq_u <= 0x800000000) by (nonlinear_arith)
            requires
                sq_u * sq_u <= 0x400000000000000000,
        ;
    }
    let sq = sq_u as i64;
    let num0: i128 = wide_mul(-half_b - sq, SCALE);
    let num1: i128 = wide_mul(-half_b + sq, SCALE);
    proof {
        lemma_fdiv_abs_le(num0 as int, a as int);
        lemma_fdiv_abs_le(num1 as int, a as int);
        lemma_div_is_ordered(num0 as int, num1 as int, a as int);
    }
    let t0 = div_floor(num0, a as i128) as i64;
    let t1 = div_floor(num1, a as i128) as i64;
    Some((t0, t1))
}

/// The first edge `v1 - v0` of a triangle.
pub open spec fn tri_edge1(v0: Vec3, v1: Vec3) -> Vec3 {
    vsub(v1, v0)
}

/// The second edge `v2 - v0` of a triangle.
pub open spec fn tri_edge2(v0: Vec3, v2: Vec3) -> Vec3 {
    vsub(v2, v0)
}

/// The Möller–Trumbore determinant `a = e1 . (D x e2)`: the scalar triple
/// product that vanishes exactly when the ray direction is parallel to the
/// triangle's plane.
pub open spec fn tri_det(direction: Vec3, v0: Vec3, v1: Vec3, v2: Vec3) -> int {
    dots(tri_edge1(v0, v1), vcross(direction, tri_edge2(v0, v2)))
}

/// The first barycentric coordinate `u = (s . h) / a`.
pub open spec fn tri_u(origin: Vec3, direction: Vec3, v0: Vec3, v1: Vec3, v2: Vec3) -> int {
    fdiv(
        dots(vsub(origin, v0), vcross(direction, tri_edge2(v0, v2))) * SCALE,
        tri_det(direction, v0, v1, v2),
    )
}

/// The second barycentric coordinate `v = (D . q) / a`.
pub open spec fn tri_v(origin: Vec3, direction: Vec3, v0: Vec3, v1: Vec3, v2: Vec3) -> int {
    fdiv(
        dots(direction, vcross(vsub(origin, v0), tri_edge1(v0, v1))) * SCALE,
        tri_det(direction, v0, v1, v2),
    )
}

/// The hit parameter `t = (e2 . q) / a`.
pub open spec fn tri_t(origin: Vec3, direction: Vec3, v0: Vec3, v1: Vec3, v2: Vec3) -> int {
    fdiv(
        dots(tri_edge2(v0, v2), vcross(vsub(origin, v0), tri_edge1(v0, v1))) * SCALE,
        tri_det(direction, v0, v1, v2),
    )
}

/// Whether the Möller–Trumbore test accepts the ray: the determinant is
/// nonzero, the barycentric coordinates lie inside the triangle, and the
/// hit parameter lies in `[EPSILON, COORD_MAX]`.
pub open spec fn tri_accepts(origin: Vec3, direction: Vec3, v0: Vec3, v1: Vec3, v2: Vec3) -> bool {
    &&& tri_det(direction, v0, v1, v2) != 0
    &&& 0 <= tri_u(origin, direction, v0, v1, v2) <= SCALE
    &&& 0 <= tri_v(origin, direction, v0, v1, v2)
    &&& tri_u(origin, direction, v0, v1, v2) + tri_v(origin, direction, v0, v1, v2) <= SCALE
    &&& EPSILON <= tri_t(origin, direction, v0, v1, v2) <= COORD_MAX
}

/// The Möller–Trumbore ray–triangle test.  Returns the hit parameter along
/// the ray exactly when [`tri_accepts`] holds; a ray parallel to the
/// triangle's plane (vanishing determinant) never hits, wherever its origin.
pub fn triangle_intersection(
    origin: &Vec3,
    direction: &Vec3,
    v0: &Vec3,
    v1: &Vec3,
    v2: &Vec3,
) -> (r: Option<i64>)
    requires
        bounded(*origin, ORIGIN_MAX as int),
        bounded(*direction, SCALE as int),
        bounded(*v0, COORD_MAX as int),
        bounded(*v1, COORD_MAX as int),
        bounded(*v2, COORD_MAX as int),
    ensures
        r is Some <==> tri_accepts(*origin, *direction, *v0, *v1, *v2),
        r is Some ==> r->0 == tri_t(*origin, *direction, *v0, *v1, *v2),
{
    let edge1 = v1.sub(*v0);
    let edge2 = v2.sub(*v0);
    proof {
        assert(edge1 == tri_edge1(*v0, *v1));
        assert(edge2 == tri_edge2(*v0, *v2));
        lemma_cross_bound(*direction, edge2, SCALE as int, 0x20000000);
    }
    let h = direction.cross(edge2);
    proof {
        assert(h == vcross(*direction, tri_edge2(*v0, *v2)));
        lemma_dotw_bound(edge1, h, 0x20000000, 0x40000001);
    }
    let a = edge1.dot(h);
    if a == 0 {
        // The ray is parallel to the triangle's plane.
        return None;
    }
    let s = origin.sub(*v0);
    proof {
        assert(s == vsub(*origin, *v0));
        lemma_dotw_bound(s, h, 0x60000000, 0x40000001);
        lemma_fdiv_abs_le(dots(s, h) * SCALE, a as int);
    }
    let num_u = s.dot(h);
    let uq: i128 = div_floor(wide_mul(num_u, SCALE), a as i128);
    if uq < 0 || uq > SCALE as i128 {
        return None;
    }
    proof {
        lemma_cross_bound(s, edge1, 0x60000000, 0x20000000);
    }
    let q = s.cross(edge1);
    proof {
        assert(q == vcross(vsub(*origin, *v0), tri_edge1(*v0, *v1)));
        lemma_dotw_bound(*direction, q, SCALE as int, 0x180000000001);
    }
    let num_v = direction.dot(q);
    proof {
        lemma_abs_mul_le(num_v as int, SCALE as int, 0x8000000000000000, 0x10000);
        lemma_fdiv_abs_le(num_v as int * SCALE, a as int);
    }
    let vq: i128 = div_floor(wide_mul(num_v, SCALE), a as i128);
    if vq < 0 || uq + vq > SCALE as i128 {
        return None;
    }
    proof {
        lemma_dotw_bound(edge2, q, 0x20000000, 0x180000000001);
    }
    let num_t = edge2.dot(q);
    let tq: i128 = div_floor(wide_mul(num_t, SCALE), a as i128);
    if tq < EPSILON as i128 || tq > COORD_MAX as i128 {
        // A line intersection behind the origin, at the origin, or out of
        // this crate's coordinate range is not a ray intersection.
        return None;
    }
    Some(tq as i64)
}

/// A ray whose origin lies outside the sphere and which is aimed exactly at
/// the sphere's center always intersects it, with two real roots in order:
/// the discriminant is positive, and `t0 < t1`.  The hypotheses pin the
/// aim down exactly: the direction is exactly unit (`|D|^2 == 1` with no
/// rounding), and the center offset is `-k * D` for a distance `k` beyond
/// the radius.  The radius must not vanish at the fixed-point resolution
/// (`radius * radius >= SCALE`): a sphere thinner than one least count can
/// be lost to rounding.
pub proof fn lemma_sphere_aimed_at_center_hits(
    origin: Vec3,
    direction: Vec3,
    center: Vec3,
    radius: int,
    k: int,
)
    requires
        dotw(direction, direction) == SCALE * SCALE,
        k >= 1,
        (origin.x - center.x) * SCALE == -(k * direction.x),
        (origin.y - center.y) * SCALE == -(k * direction.y),
        (origin.z - center.z) * SCALE == -(k * direction.z),
        256 <= radius <= COORD_MAX,
        k > radius,
        bounded(origin, ORIGIN_MAX as int),
        bounded(center, COORD_MAX as int),
    ensures
        sphere_disc(origin, direction, center, radius) > 0,
        sphere_t0(origin, direction, center, radius) < sphere_t1(origin, direction, center, radius),
{
    let oc = vsub(origin, center);
    assert(oc.x * SCALE == -(k * direction.x) && oc.y * SCALE == -(k * direction.y) && oc.z * SCALE
        == -(k * direction.z));
    let hbw = dotw(oc, direction);
    assert((oc.x * direction.x) * SCALE == -(k * (direction.x * direction.x))) by (nonlinear_arith)
        requires
            oc.x * SCALE == -(k * direction.x),
    ;
    assert((oc.y * direction.y) * SCALE == -(k * (direction.y * direction.y))) by (nonlinear_arith)
        requires
            oc.y * SCALE == -(k * direction.y),
    ;
    assert((oc.z * direction.z) * SCALE == -(k * (direction.z * direction.z))) by (nonlinear_arith)
        requires
            oc.z * SCALE == -(k * direction.z),
    ;
    assert(hbw * SCALE == -(k * (SCALE * SCALE))) by (nonlinear_arith)
        requires
            hbw == oc.x * direction.x + oc.y * direction.y + oc.z * direction.z,
            (oc.x * direction.x) * SCALE == -(k * (direction.x * direction.x)),
            (oc.y * direction.y) * SCALE == -(k * (direction.y * direction.y)),
            (oc.z * direction.z) * SCALE == -(k * (direction.z * direction.z)),
            direction.x * direction.x + direction.y * direction.y + direction.z * direction.z
                == SCALE * SCALE,
    ;
    assert(hbw == -(k * SCALE)) by (nonlinear_arith)
        requires
            hbw * SCALE == -(k * (SCALE * SCALE)),
            SCALE == 65536,
    ;
    let hb = sphere_half_b(origin, direction, center);
    lemma_fundamental_div_mod_converse_div(hbw, SCALE as int, -k, 0);
    assert(hb == -k);
    let ocw = dotw(oc, oc);
    assert((oc.x * oc.x) * (SCALE * SCALE) == (k * k) * (direction.x * direction.x))
        by (nonlinear_arith)
        requires
            oc.x * SCALE == -(k * direction.x),
    ;
    assert((oc.y * oc.y) * (SCALE * SCALE) == (k * k) * (direction.y * direction.y))
        by (nonlinear_arith)
        requires
            oc.y * SCALE == -(k * direction.y),
    ;
    assert((oc.z * oc.z) * (SCALE * SCALE) == (k * k) * (direction.z * direction.z))
        by (nonlinear_arith)
        requires
            oc.z * SCALE == -(k * direction.z),
    ;
    assert(ocw * (SCALE * SCALE) == (k * k) * (SCALE * SCALE)) by (nonlinear_arith)
        requires
            ocw == oc.x * oc.x + oc.y * oc.y + oc.z * oc.z,
            (oc.x * oc.x) * (SCALE * SCALE) == (k * k) * (direction.x * direction.x),
            (oc.y * oc.y) * (SCALE * SCALE) == (k * k) * (direction.y * direction.y),
            (oc.z * oc.z) * (SCALE * SCALE) == (k * k) * (direction.z * direction.z),
            direction.x * direction.x + direction.y * direction.y + direction.z * direction.z
                == SCALE * SCALE,
    ;
    assert(ocw == k * k) by (nonlinear_arith)
        requires
            ocw * (SCALE * SCALE) == (k * k) * (SCALE * SCALE),
            SCALE == 65536,
    ;
    let qa = sphere_qa(direction);
    lemma_fundamental_div_mod_converse_div(SCALE * SCALE, SCALE as int, SCALE as int, 0);
    assert(qa == SCALE);
    let cq = sphere_qc(origin, center, radius);
    assert(cq == (k * k) / (SCALE as int) - (radius * radius) / (SCALE as int));
    lemma_fundamental_div_mod(k * k, SCALE as int);
    lemma_mod_bound(k * k, SCALE as int);
    lemma_fundamental_div_mod(radius * radius, SCALE as int);
    lemma_mod_bound(radius * radius, SCALE as int);
    assert(radius * radius >= SCALE) by (nonlinear_arith)
        requires
            radius >= 256,
            SCALE == 65536,
    ;
    assert((radius * radius) / (SCALE as int) >= 1) by (nonlinear_arith)
        requires
            radius * radius == (SCALE as int) * ((radius * radius) / (SCALE as int)) + (radius
                * radius) % (SCALE as int),
            0 <= (radius * radius) % (SCALE as int) < (SCALE as int),
            radius * radius >= SCALE,
            SCALE == 65536,
    ;
    let hb2 = sphere_half_b(origin, direction, center) * sphere_half_b(origin, direction, center);
    assert(hb2 == k * k) by (nonlinear_arith)
        requires
            hb == -k,
            hb2 == hb * hb,
    ;
    let numer = hb2 - qa * cq;
    assert(numer == k * k - SCALE * cq) by (nonlinear_arith)
        requires
            hb2 == k * k,
            qa == SCALE,
            numer == hb2 - qa * cq,
    ;
    assert(numer >= SCALE) by (nonlinear_arith)
        requires
            numer == k * k - SCALE * ((k * k) / (SCALE as int) - (radius * radius) / (SCALE as int)),
            k * k == (SCALE as int) * ((k * k) / (SCALE as int)) + (k * k) % (SCALE as int),
            0 <= (k * k) % (SCALE as int),
            (radius * radius) / (SCALE as int) >= 1,
            SCALE == 65536,
    ;
    let disc = sphere_disc(origin, direction, center, radius);
    assert(disc == numer / (SCALE as int));
    lemma_fundamental_div_mod(numer, SCALE as int);
    lemma_mod_bound(numer, SCALE as int);
    assert(disc >= 1) by (nonlinear_arith)
        requires
            disc == numer / (SCALE as int),
            numer >= SCALE,
            numer == (SCALE as int) * (numer / (SCALE as int)) + numer % (SCALE as int),
            0 <= numer % (SCALE as int) < (SCALE as int),
            SCALE == 65536,
    ;
    assert(disc * SCALE >= SCALE) by (nonlinear_arith)
        requires
            disc >= 1,
            SCALE == 65536,
    ;
    lemma_sqrt_floor_bounds(disc * SCALE);
    let sq = sqrt_floor(disc * SCALE);
    assert(sq >= 1) by (nonlinear_arith)
        requires
            0 <= sq,
            disc * SCALE < (sq + 1) * (sq + 1),
            disc * SCALE >= SCALE,
            SCALE == 65536,
    ;
    let t0 = sphere_t0(origin, direction, center, radius);
    let t1 = sphere_t1(origin, direction, center, radius);
    assert((-hb - sq) * SCALE == (k - sq) * SCALE && (-hb + sq) * SCALE == (k + sq) * SCALE);
    lemma_fundamental_div_mod_converse_div((k - sq) * SCALE, SCALE as int, k - sq, 0);
    lemma_fundamental_div_mod_converse_div((k + sq) * SCALE, SCALE as int, k + sq, 0);
    assert(t0 == k - sq && t1 == k + sq);
}

/// A ray that passes a sphere at a perpendicular offset greater than the
/// radius never hits it: when the ray direction is orthogonal to the
/// center offset — the closest approach is at the origin — and the origin
/// lies strictly outside the sphere, the discriminant is negative.
pub proof fn lemma_sphere_perpendicular_miss(
    origin: Vec3,
    direction: Vec3,
    center: Vec3,
    radius: int,
)
    requires
        dots(direction, direction) >= 1,
        dotw(vsub(origin, center), direction) == 0,
        dots(vsub(origin, center), vsub(origin, center)) > (radius * radius) / (SCALE as int),
    ensures
        sphere_disc(origin, direction, center, radius) < 0,
{
    let qa = sphere_qa(direction);
    let cq = sphere_qc(origin, center, radius);
    let hb = sphere_half_b(origin, direction, center);
    assert(hb == 0);
    assert(qa * cq >= 1) by (nonlinear_arith)
        requires
            qa >= 1,
            cq >= 1,
    ;
    let numer = hb * hb - qa * cq;
    lemma_div_is_ordered(numer, -1, SCALE as int);
}

/// A ray parallel to a triangle's plane never hits it, wherever its origin
/// lies: parallelism in this solver is the vanishing of the determinant
/// `e1 . (D x e2)`, which does not involve the origin at all, and the test
/// accepts no ray with a vanishing determinant.
pub proof fn lemma_parallel_ray_never_hits(
    origin: Vec3,
    direction: Vec3,
    v0: Vec3,
    v1: Vec3,
    v2: Vec3,
)
    requires
        tri_det(direction, v0, v1, v2) == 0,
    ensures
        !tri_accepts(origin, direction, v0, v1, v2),
{
}

/// A ray through a triangle's centroid, perpendicular to its plane, hits
/// it: the Möller–Trumbore test accepts, so its barycentric coordinates lie
/// inside the triangle and its parameter is positive.  Stated for a
/// triangle in a constant-`z` plane with the ray running along the normal
/// axis; the margins keep the fixed-point rounding from tipping a
/// borderline case: the doubled area `A` is at least one square unit, and
/// the origin sits at least two units above the plane and at most half the
/// coordinate range away.
pub proof fn lemma_triangle_centroid_hit(
    origin: Vec3,
    direction: Vec3,
    v0: Vec3,
    v1: Vec3,
    v2: Vec3,
)
    requires
        bounded(origin, ORIGIN_MAX as int),
        bounded(v0, COORD_MAX as int),
        bounded(v1, COORD_MAX as int),
        bounded(v2, COORD_MAX as int),
        direction == (Vec3 { x: 0, y: 0, z: (-SCALE) as i64 }),
        v0.z == v1.z && v1.z == v2.z,
        3 * origin.x == v0.x + v1.x + v2.x,
        3 * origin.y == v0.y + v1.y + v2.y,
        (v1.x - v0.x) * (v2.y - v0.y) - (v1.y - v0.y) * (v2.x - v0.x) >= SCALE * SCALE,
        2 * SCALE <= origin.z - v0.z <= COORD_MAX / 2,
    ensures
        tri_accepts(origin, direction, v0, v1, v2),
        EPSILON <= tri_t(origin, direction, v0, v1, v2) <= COORD_MAX,
{
    let a1 = v1.x - v0.x;
    let b1 = v1.y - v0.y;
    let a2 = v2.x - v0.x;
    let b2 = v2.y - v0.y;
    let aa = a1 * b2 - b1 * a2;
    let sx = origin.x - v0.x;
    let sy = origin.y - v0.y;
    let sz = origin.z - v0.z;
    let e1 = tri_edge1(v0, v1);
    let e2 = tri_edge2(v0, v2);
    assert(e1 == (Vec3 { x: a1 as i64, y: b1 as i64, z: 0 }));
    assert(e2 == (Vec3 { x: a2 as i64, y: b2 as i64, z: 0 }));
    // The cross product with the axis direction just swaps coordinates.
    let h = vcross(direction, e2);
    assert(direction.y * e2.z - direction.z * e2.y == 65536 * b2) by (nonlinear_arith)
        requires
            direction.y == 0,
            direction.z == -65536,
            e2.z == 0,
            e2.y == b2,
    ;
    assert(direction.z * e2.x - direction.x * e2.z == -(65536 * a2)) by (nonlinear_arith)
        requires
            direction.x == 0,
            direction.z == -65536,
            e2.z == 0,
            e2.x == a2,
    ;
    assert(direction.x * e2.y - direction.y * e2.x == 0) by (nonlinear_arith)
        requires
            direction.x == 0,
            direction.y == 0,
    ;
    lemma_fundamental_div_mod_converse_div(65536 * b2, 65536, b2, 0);
    lemma_fundamental_div_mod_converse_div(-(65536 * a2), 65536, -a2, 0);
    lemma_fundamental_div_mod_converse_div(0, 65536, 0, 0);
    assert(h.x == b2);
    assert(h.y == -a2);
    assert(h.z == 0);
    assert(h == (Vec3 { x: b2 as i64, y: (-a2) as i64, z: 0 }));
    // The determinant is the doubled area over the scale.
    let det = tri_det(direction, v0, v1, v2);
    assert(dotw(e1, h) == aa) by (nonlinear_arith)
        requires
            dotw(e1, h) == e1.x * h.x + e1.y * h.y + e1.z * h.z,
            e1.x == a1,
            e1.y == b1,
            e1.z == 0,
            h.x == b2,
            h.y == -a2,
            h.z == 0,
            aa == a1 * b2 - b1 * a2,
    ;
    assert(det == aa / 65536);
    lemma_fundamental_div_mod(aa, 65536);
    lemma_mod_bound(aa, 65536);
    lemma_div_is_ordered(65536int * 65536, aa, 65536);
    lemma_fundamental_div_mod_converse_div(65536int * 65536, 65536, 65536, 0);
    assert(det >= 65536);
    // The centroid splits the first barycentric numerator to a third of
    // the doubled area.
    let s = vsub(origin, v0);
    assert(s == (Vec3 { x: sx as i64, y: sy as i64, z: sz as i64 }));
    let p = sx * b2 - sy * a2;
    assert(3 * p == aa) by (nonlinear_arith)
        requires
            3 * sx == a1 + a2,
            3 * sy == b1 + b2,
            aa == a1 * b2 - b1 * a2,
            p == sx * b2 - sy * a2,
    ;
    assert(p >= 1431655765);
    let n1 = dots(s, h);
    assert(dotw(s, h) == p) by (nonlinear_arith)
        requires
            dotw(s, h) == s.x * h.x + s.y * h.y + s.z * h.z,
            s.x == sx,
            s.y == sy,
            h.x == b2,
            h.y == -a2,
            h.z == 0,
            p == sx * b2 - sy * a2,
    ;
    assert(n1 == p / 65536);
    lemma_fundamental_div_mod(p, 65536);
    lemma_mod_bound(p, 65536);
    vstd::arithmetic::div_mod::lemma_div_pos_is_pos(p, 65536);
    let u = tri_u(origin, direction, v0, v1, v2);
    assert(u == fdiv(n1 * 65536, det));
    lemma_fundamental_div_mod(n1 * 65536, det);
    lemma_mod_bound(n1 * 65536, det);
    vstd::arithmetic::div_mod::lemma_div_pos_is_pos(n1 * 65536, det);
    lemma_div_is_ordered(p, aa, 65536);
    assert(n1 <= det);
    lemma_div_is_ordered(n1 * 65536, det * 65536, det);
    lemma_fundamental_div_mod_converse_div(det * 65536, det, 65536, 0);
    assert(0 <= u <= 65536);
    // The second barycentric numerator is the mirrored third.
    let q = vcross(s, e1);
    assert(s.y * e1.z - s.z * e1.y == -(sz * b1)) by (nonlinear_arith)
        requires
            s.y == sy,
            s.z == sz,
            e1.z == 0,
            e1.y == b1,
    ;
    assert(s.z * e1.x - s.x * e1.z == sz * a1) by (nonlinear_arith)
        requires
            s.z == sz,
            s.x == sx,
            e1.x == a1,
            e1.z == 0,
    ;
    assert(s.x * e1.y - s.y * e1.x == -p) by (nonlinear_arith)
        requires
            s.x == sx,
            s.y == sy,
            e1.x == a1,
            e1.y == b1,
            3 * sx == a1 + a2,
            3 * sy == b1 + b2,
            aa == a1 * b2 - b1 * a2,
            3 * p == aa,
            p == sx * b2 - sy * a2,
    ;
    let qz = (-p) / 65536;
    lemma_abs_mul_le(sx, b2, 0x60000000, 0x20000000);
    lemma_abs_mul_le(sy, a2, 0x60000000, 0x20000000);
    lemma_fdiv_abs_le(-p, 65536);
    assert(q.z == qz);
    let n2 = dots(direction, q);
    assert(dotw(direction, q) == -65536 * (q.z as int)) by (nonlinear_arith)
        requires
            dotw(direction, q) == direction.x * q.x + direction.y * q.y + direction.z * q.z,
            direction.x == 0,
            direction.y == 0,
            direction.z == -65536,
    ;
    lemma_fundamental_div_mod_converse_div(-65536 * (q.z as int), 65536, -(q.z as int), 0);
    assert(n2 == -(qz as int));
    lemma_fundamental_div_mod(-p, 65536);
    lemma_mod_bound(-p, 65536);
    lemma_div_is_ordered(-p, 0, 65536);
    assert((0int) / 65536 == 0) by (nonlinear_arith);
    assert(qz <= 0);
    assert(n2 >= 0);
    let v = tri_v(origin, direction, v0, v1, v2);
    assert(v == fdiv(n2 * 65536, det));
    lemma_fundamental_div_mod(n2 * 65536, det);
    lemma_mod_bound(n2 * 65536, det);
    vstd::arithmetic::div_mod::lemma_div_pos_is_pos(n2 * 65536, det);
    assert(v >= 0);
    // Together the two numerators stay below the determinant, so the
    // barycentric sum stays inside the triangle.
    assert(65536 * n2 <= p + 65535);
    assert(65536 * (n1 + n2) <= 2 * p + 65535);
    assert(65536 * det >= 3 * p - 65535);
    assert(n1 + n2 <= det);
    assert(u + v <= 65536) by (nonlinear_arith)
        requires
            n1 * 65536 == det * u + (n1 * 65536) % det,
            0 <= (n1 * 65536) % det < det,
            n2 * 65536 == det * v + (n2 * 65536) % det,
            0 <= (n2 * 65536) % det < det,
            n1 + n2 <= det,
            det >= 1,
    ;
    // The hit parameter: the numerator carries the height above the plane.
    let rho_x = (-(sz * b1)) % 65536;
    let rho_y = (sz * a1) % 65536;
    lemma_fundamental_div_mod(-(sz * b1), 65536);
    lemma_mod_bound(-(sz * b1), 65536);
    lemma_fundamental_div_mod(sz * a1, 65536);
    lemma_mod_bound(sz * a1, 65536);
    lemma_abs_mul_le(sz, b1, 0x60000000, 0x20000000);
    lemma_abs_mul_le(sz, a1, 0x60000000, 0x20000000);
    lemma_fdiv_abs_le(-(sz * b1), 65536);
    lemma_fdiv_abs_le(sz * a1, 65536);
    assert(q.x == (-(sz * b1)) / 65536 && q.y == (sz * a1) / 65536);
    let xx = a2 * (q.x as int) + b2 * (q.y as int);
    assert(dotw(e2, q) == xx) by (nonlinear_arith)
        requires
            dotw(e2, q) == e2.x * q.x + e2.y * q.y + e2.z * q.z,
            e2.x == a2,
            e2.y == b2,
            e2.z == 0,
            xx == a2 * q.x + b2 * q.y,
    ;
    assert(65536 * (a2 * (q.x as int)) == -(a2 * (sz * b1)) - a2 * rho_x) by (nonlinear_arith)
        requires
            -(sz * b1) == 65536 * (q.x as int) + rho_x,
    ;
    assert(65536 * (b2 * (q.y as int)) == b2 * (sz * a1) - b2 * rho_y) by (nonlinear_arith)
        requires
            sz * a1 == 65536 * (q.y as int) + rho_y,
    ;
    assert(b2 * (sz * a1) - a2 * (sz * b1) == sz * aa) by (nonlinear_arith)
        requires
            aa == a1 * b2 - b1 * a2,
    ;
    assert(65536 * xx == sz * aa - a2 * rho_x - b2 * rho_y);
    lemma_abs_mul_le(a2, rho_x, 0x20000000, 65536);
    lemma_abs_mul_le(b2, rho_y, 0x20000000, 65536);
    let n3 = dots(e2, q);
    assert(n3 == xx / 65536);
    lemma_fundamental_div_mod(xx, 65536);
    lemma_mod_bound(xx, 65536);
    let t = tri_t(origin, direction, v0, v1, v2);
    assert(t == fdiv(n3 * 65536, det));
    // Lower bound: the origin is at least two units up, so the numerator
    // clears the determinant and the parameter is at least one count.
    assert(sz * aa - aa >= 131071 * aa) by (nonlinear_arith)
        requires
            sz >= 131072,
            aa >= 0,
    ;
    assert(65536 * (65536 * n3) >= sz * aa - a2 * rho_x - b2 * rho_y - 65536 * 65536);
    assert(65536 * (65536 * n3) >= 65536 * det) by (nonlinear_arith)
        requires
            65536 * (65536 * n3) >= sz * aa - a2 * rho_x - b2 * rho_y - 65536 * 65536,
            sz * aa - aa >= 131071 * aa,
            aa >= 4294967296,
            -0x200000000000 <= a2 * rho_x <= 0x200000000000,
            -0x200000000000 <= b2 * rho_y <= 0x200000000000,
            65536 * det <= aa,
    ;
    assert(n3 * 65536 >= det);
    lemma_fundamental_div_mod(n3 * 65536, det);
    lemma_mod_bound(n3 * 65536, det);
    lemma_div_is_ordered(det, n3 * 65536, det);
    lemma_fundamental_div_mod_converse_div(det, det, 1, 0);
    assert(t >= 1);
    // Upper bound: the parameter tracks the height, which is at most half
    // the coordinate range, so it stays inside the range.
    assert(sz * aa <= 134217728 * aa) by (nonlinear_arith)
        requires
            sz <= 134217728,
            aa >= 0,
    ;
    assert(65536 * (65536 * n3) <= sz * aa + 0x400000000000);
    assert(det * t <= n3 * 65536);
    assert(65536 * (det * t) <= 65536 * (65536 * n3));
    assert((aa - 65535) * t <= (65536 * det) * t) by (nonlinear_arith)
        requires
            65536 * det >= aa - 65535,
            t >= 0,
    ;
    assert((65536 * det) * t == 65536 * (det * t)) by (nonlinear_arith);
    assert((aa - 65535) * t <= 134217728 * aa + 0x400000000000);
    assert(t <= 268435456) by (nonlinear_arith)
        requires
            (aa - 65535) * t <= 134217728 * aa + 0x400000000000,
            aa >= 4294967296,
            t >= 1,
    ;
}

/// Smallest accepted squared norm for a rejection-sampled point:
/// `SCALE / 64`, so the point is long enough to normalize reliably.
pub const MIN_SAMPLE_NORM2: i64 = 1024;

/// Draws a point inside the unit sphere by rejection sampling: each
/// coordinate is uniform in `[-1, 1)`, and the point is accepted when its
/// squared norm lies in `[MIN_SAMPLE_NORM2, 1)`.  As a guard against a
/// pathological generator the attempts are capped, with a fixed interior
/// point as the fallback.
pub fn random_in_unit_sphere(rng: &mut rand::rngs::StdRng) -> (v: Vec3)
    ensures
        MIN_SAMPLE_NORM2 <= dots(v, v) < SCALE,
        bounded(v, SCALE as int),
{
    let mut tries: u32 = 0;
    while tries < 64
        invariant
            tries <= 64,
        decreases 64 - tries,
    {
        let p = Vec3::new(
            crate::rng::gen_unit_range(rng),
            crate::rng::gen_unit_range(rng),
            crate::rng::gen_unit_range(rng),
        );
        let lsq = p.len_squared();
        if MIN_SAMPLE_NORM2 <= lsq && lsq < SCALE {
            return p;
        }
        tries = tries + 1;
    }
    let f = Vec3::new(0, 0, SCALE / 2);
    assert(f.z == 32768);
    assert(dotw(f, f) == 1073741824);
    f
}

/// Draws a unit direction: a rejection-sampled interior point, normalized.
/// The accepted point is long enough that the normalization always
/// certifies, so no fallback is needed here.
pub fn random_unit_vector(rng: &mut rand::rngs::StdRng) -> (v: Vec3)
    ensures
        is_unit(v),
        bounded(v, SCALE as int),
{
    let p = random_in_unit_sphere(rng);
    proof {
        lemma_fundamental_div_mod(dotw(p, p), SCALE as int);
        assert(dotw(p, p) >= 0x1000000) by (nonlinear_arith)
            requires
                dotw(p, p) == 65536 * (dotw(p, p) / 65536) + dotw(p, p) % 65536,
                dotw(p, p) / 65536 >= 1024,
                0 <= dotw(p, p) % 65536,
    ;
    }
    p.unit().unwrap()
}

} // verus!
