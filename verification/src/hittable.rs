//! Hittable geometry: spheres, triangles, meshes and scenes.
//!
//! Every shape answers `hit(ray, t_min, t_max)` with the closest
//! [`SurfaceInteraction`] in the closed parameter interval, or `None`.
//! Aggregates reduce their children with a nearest-intersection-wins rule:
//! the child with the smallest `t` is returned, the earlier child winning
//! ties, so a scene of meshes of triangles reduces to the same result as
//! the flattened list of its leaves.

use vstd::prelude::*;

verus! {

use crate::fixed::SCALE;
use crate::math::{
    Vec3, bounded, dotw, is_unit, vsub, vcross, unit_of,
    lemma_cross_bound,
    COORD_MAX, POINT_MAX,
};
use crate::ray::{Ray, ray_at, wf_ray, SurfaceInteraction, wf_si, face_of};
use crate::algorithms::{
    sphere_intersection, triangle_intersection,
    sphere_disc, sphere_t0, sphere_t1, tri_accepts, tri_t,
};

/// A sphere, described by its center and fixed-point radius.
#[derive(Clone, Copy, Debug)]
pub struct Sphere {
    pub center: Vec3,
    pub radius: i64,
}

/// A well-formed sphere: center in the scene range, radius positive.
pub open spec fn wf_sphere(s: Sphere) -> bool {
    &&& bounded(s.center, COORD_MAX as int)
    &&& 1 <= s.radius <= COORD_MAX
}

/// A valid parameter interval for a hit test.
pub open spec fn wf_range(t_min: int, t_max: int) -> bool {
    0 <= t_min <= t_max <= COORD_MAX
}

/// The interaction a sphere reports at parameter `t`: the point along the
/// ray, with the normalized radial direction as the outward normal.  The
/// hit is dropped when the point falls outside the certified range or its
/// radial direction fails to normalize.
pub open spec fn sphere_make(s: Sphere, r: Ray, t: int) -> Option<SurfaceInteraction> {
    let p = ray_at(r, t);
    let pc = vsub(p, s.center);
    if bounded(p, POINT_MAX as int) && dotw(pc, pc) > 0 && is_unit(unit_of(pc)) {
        Some(SurfaceInteraction {
            point: p,
            direction: r.direction,
            normal: unit_of(pc),
            face: face_of(unit_of(pc), r.direction),
            t: t as i64,
        })
    } else {
        None
    }
}

/// The sphere hit rule: of the two quadratic roots the smaller, `t0`, is
/// reported when it lies in `[t_min, t_max]`; otherwise `t1` is tried;
/// otherwise there is no hit.
pub open spec fn sphere_hit_spec(s: Sphere, r: Ray, t_min: int, t_max: int) -> Option<
    SurfaceInteraction,
> {
    if sphere_disc(r.origin, r.direction, s.center, s.radius as int) > 0 {
        let t0 = sphere_t0(r.origin, r.direction, s.center, s.radius as int);
        let t1 = sphere_t1(r.origin, r.direction, s.center, s.radius as int);
        if t_min <= t0 <= t_max {
            sphere_make(s, r, t0)
        } else if t_min <= t1 <= t_max {
            sphere_make(s, r, t1)
        } else {
            None
        }
    } else {
        None
    }
}

/// When the near root `t0` lies in the parameter interval, it is the root
/// the sphere reports: the far root is consulted only once `t0` falls
/// outside the interval.
pub proof fn lemma_sphere_hit_prefers_near_root(s: Sphere, r: Ray, t_min: int, t_max: int)
    requires
        sphere_disc(r.origin, r.direction, s.center, s.radius as int) > 0,
        t_min <= sphere_t0(r.origin, r.direction, s.center, s.radius as int) <= t_max,
    ensures
        sphere_hit_spec(s, r, t_min, t_max) == sphere_make(
            s,
            r,
            sphere_t0(r.origin, r.direction, s.center, s.radius as int),
        ),
{
}

impl Sphere {
    /// Tests the ray against the sphere over the closed interval
    /// `[t_min, t_max]`, preferring the smaller root.
    pub fn hit(&self, ray: &Ray, t_min: i64, t_max: i64) -> (r: Option<SurfaceInteraction>)
        requires
            wf_sphere(*self),
            wf_ray(*ray),
            wf_range(t_min as int, t_max as int),
        ensures
            r == sphere_hit_spec(*self, *ray, t_min as int, t_max as int),
            r is Some ==> wf_si(r->0) && t_min <= r->0.t <= t_max,
    {
        let o = ray.origin();
        let d = ray.direction();
        let roots = sphere_intersection(&o, &d, &self.center, self.radius);
        match roots {
            None => None,
            Some((t0, t1)) => {
                let t = if t_min <= t0 && t0 <= t_max {
                    t0
                } else if t_min <= t1 && t1 <= t_max {
                    t1
                } else {
                    return None;
                };
                let p = ray.at(t);
                if p.x < -POINT_MAX || p.x > POINT_MAX || p.y < -POINT_MAX || p.y > POINT_MAX
                    || p.z < -POINT_MAX || p.z > POINT_MAX {
                    return None;
                }
                let pc = p.sub(self.center);
                match pc.unit() {
                    None => None,
                    Some(n) => Some(SurfaceInteraction::new(p, d, n, t)),
                }
            },
        }
    }
}

/// A triangle with its precomputed unit face normal (flat shading).
#[derive(Clone, Copy, Debug)]
pub struct Triangle {
    pub v0: Vec3,
    pub v1: Vec3,
    pub v2: Vec3,
    pub normal: Vec3,
}

/// A well-formed triangle: vertices in the scene range and a unit normal.
pub open spec fn wf_triangle(t: Triangle) -> bool {
    &&& bounded(t.v0, COORD_MAX as int)
    &&& bounded(t.v1, COORD_MAX as int)
    &&& bounded(t.v2, COORD_MAX as int)
    &&& bounded(t.normal, SCALE as int)
    &&& is_unit(t.normal)
}

/// The face normal of a triangle: the normalized cross product of its
/// edges.
pub open spec fn triangle_normal(v0: Vec3, v1: Vec3, v2: Vec3) -> Vec3 {
    unit_of(vcross(vsub(v1, v0), vsub(v2, v0)))
}

/// The triangle hit rule: the Möller–Trumbore parameter when the test
/// accepts and the parameter lies in `[t_min, t_max]`, with the
/// precomputed face normal and the same certified point guard as the
/// sphere.
pub open spec fn triangle_hit_spec(tri: Triangle, r: Ray, t_min: int, t_max: int) -> Option<
    SurfaceInteraction,
> {
    if tri_accepts(r.origin, r.direction, tri.v0, tri.v1, tri.v2) {
        let t = tri_t(r.origin, r.direction, tri.v0, tri.v1, tri.v2);
        if t_min <= t <= t_max && bounded(ray_at(r, t), POINT_MAX as int) {
            Some(SurfaceInteraction {
                point: ray_at(r, t),
                direction: r.direction,
                normal: tri.normal,
                face: face_of(tri.normal, r.direction),
                t: t as i64,
            })
        } else {
            None
        }
    } else {
        None
    }
}

impl Triangle {
    /// Builds a triangle from three vertices, deriving the unit face normal
    /// from the edge cross product.  A degenerate triangle — collinear
    /// vertices, whose edge cross product is zero or too short to
    /// normalize — yields `None`.
    pub fn new(v0: Vec3, v1: Vec3, v2: Vec3) -> (r: Option<Triangle>)
        requires
            bounded(v0, COORD_MAX as int),
            bounded(v1, COORD_MAX as int),
            bounded(v2, COORD_MAX as int),
        ensures
            r is Some <==> ({
                let c = vcross(vsub(v1, v0), vsub(v2, v0));
                dotw(c, c) > 0 && is_unit(unit_of(c))
            }),
            r is Some ==> r->0 == (Triangle { v0, v1, v2, normal: triangle_normal(v0, v1, v2) }),
            r is Some ==> wf_triangle(r->0),
    {
        let e1 = v1.sub(v0);
        let e2 = v2.sub(v0);
        proof {
            lemma_cross_bound(e1, e2, 0x20000000, 0x20000000);
        }
        let c = e1.cross(e2);
        match c.unit() {
            None => None,
            Some(n) => Some(Triangle { v0, v1, v2, normal: n }),
        }
    }

    /// Tests the ray against the triangle over the closed interval
    /// `[t_min, t_max]` with the Möller–Trumbore solver.
    pub fn hit(&self, ray: &Ray, t_min: i64, t_max: i64) -> (r: Option<SurfaceInteraction>)
        requires
            wf_triangle(*self),
            wf_ray(*ray),
            wf_range(t_min as int, t_max as int),
        ensures
            r == triangle_hit_spec(*self, *ray, t_min as int, t_max as int),
            r is Some ==> wf_si(r->0) && t_min <= r->0.t <= t_max,
    {
        let o = ray.origin();
        let d = ray.direction();
        match triangle_intersection(&o, &d, &self.v0, &self.v1, &self.v2) {
            None => None,
            Some(t) => {
                if t < t_min || t > t_max {
                    return None;
                }
                let p = ray.at(t);
                if p.x < -POINT_MAX || p.x > POINT_MAX || p.y < -POINT_MAX || p.y > POINT_MAX
                    || p.z < -POINT_MAX || p.z > POINT_MAX {
                    return None;
                }
                Some(SurfaceInteraction::new(p, d, self.normal, t))
            },
        }
    }
}

/// The nearest-intersection-wins combiner: of two optional hits, the one
/// with the smaller `t`; the left operand — the earlier child — wins ties.
pub open spec fn closer_hit(
    a: Option<SurfaceInteraction>,
    b: Option<SurfaceInteraction>,
) -> Option<SurfaceInteraction> {
    match (a, b) {
        (Some(x), Some(y)) => if y.t < x.t {
            b
        } else {
            a
        },
        (Some(x), None) => a,
        (None, _) => b,
    }
}

/// The combined hit of the first `n` triangles of `faces`, children tested
/// in order and reduced with [`closer_hit`].
pub open spec fn mesh_hit_prefix(
    faces: Seq<Triangle>,
    r: Ray,
    t_min: int,
    t_max: int,
    n: int,
) -> Option<SurfaceInteraction>
    decreases n,
{
    if n <= 0 {
        None
    } else {
        closer_hit(
            mesh_hit_prefix(faces, r, t_min, t_max, n - 1),
            triangle_hit_spec(faces[n - 1], r, t_min, t_max),
        )
    }
}

/// A mesh: a list of triangles with one shared hit interface.
#[derive(Clone, Debug)]
pub struct Mesh {
    pub faces: Vec<Triangle>,
}

/// A well-formed mesh: every face is a well-formed triangle.
pub open spec fn wf_mesh(m: Mesh) -> bool {
    forall|i: int| 0 <= i < m.faces@.len() ==> wf_triangle(#[trigger] m.faces@[i])
}

/// The hit of a whole mesh: the nearest-wins reduction over all its faces.
pub open spec fn mesh_hit_spec(m: Mesh, r: Ray, t_min: int, t_max: int) -> Option<
    SurfaceInteraction,
> {
    mesh_hit_prefix(m.faces@, r, t_min, t_max, m.faces@.len() as int)
}

impl Mesh {
    /// Tests the ray against every face and returns the interaction with the
    /// smallest `t`, the earliest face winning ties.
    pub fn hit(&self, ray: &Ray, t_min: i64, t_max: i64) -> (r: Option<SurfaceInteraction>)
        requires
            wf_mesh(*self),
            wf_ray(*ray),
            wf_range(t_min as int, t_max as int),
        ensures
            r == mesh_hit_spec(*self, *ray, t_min as int, t_max as int),
            r is Some ==> wf_si(r->0) && t_min <= r->0.t <= t_max,
    {
        let mut best: Option<SurfaceInteraction> = None;
        let mut i: usize = 0;
        while i < self.faces.len()
            invariant
                i <= self.faces.len(),
                wf_mesh(*self),
                wf_ray(*ray),
                wf_range(t_min as int, t_max as int),
                best == mesh_hit_prefix(self.faces@, *ray, t_min as int, t_max as int, i as int),
                best is Some ==> wf_si(best->0) && t_min <= best->0.t <= t_max,
            decreases self.faces.len() - i,
        {
            let tri = self.faces[i];
            let h = tri.hit(ray, t_min, t_max);
            match h {
                Some(si) => {
                    match best {
                        Some(b) => {
                            if si.t < b.t {
                                best = Some(si);
                            }
                        },
                        None => {
                            best = Some(si);
                        },
                    }
                },
                None => {},
            }
            i = i + 1;
        }
        best
    }
}

/// The combined hit of the first `n` spheres, reduced with [`closer_hit`].
pub open spec fn spheres_hit_prefix(
    spheres: Seq<Sphere>,
    r: Ray,
    t_min: int,
    t_max: int,
    n: int,
) -> Option<SurfaceInteraction>
    decreases n,
{
    if n <= 0 {
        None
    } else {
        closer_hit(
            spheres_hit_prefix(spheres, r, t_min, t_max, n - 1),
            sphere_hit_spec(spheres[n - 1], r, t_min, t_max),
        )
    }
}

/// Folds the hits of the first `n` meshes into the accumulator `acc` with
/// [`closer_hit`].
pub open spec fn meshes_hit_from(
    acc: Option<SurfaceInteraction>,
    meshes: Seq<Mesh>,
    r: Ray,
    t_min: int,
    t_max: int,
    n: int,
) -> Option<SurfaceInteraction>
    decreases n,
{
    if n <= 0 {
        acc
    } else {
        closer_hit(
            meshes_hit_from(acc, meshes, r, t_min, t_max, n - 1),
            mesh_hit_spec(meshes[n - 1], r, t_min, t_max),
        )
    }
}

/// A scene: spheres and meshes, hit-tested as one aggregate.  The scene
/// exclusively owns its meshes, and each mesh its triangles.
#[derive(Clone, Debug)]
pub struct Scene {
    pub spheres: Vec<Sphere>,
    pub meshes: Vec<Mesh>,
}

/// A well-formed scene: every child is well formed.
pub open spec fn wf_scene(sc: Scene) -> bool {
    &&& forall|i: int| 0 <= i < sc.spheres@.len() ==> wf_sphere(#[trigger] sc.spheres@[i])
    &&& forall|j: int| 0 <= j < sc.meshes@.len() ==> wf_mesh(#[trigger] sc.meshes@[j])
}

/// The hit of the whole scene: spheres first, then meshes, reduced with
/// [`closer_hit`] — which, as [`lemma_scene_hit_global_min`] shows, is the
/// global minimum-`t` hit over every leaf, however the children are nested.
pub open spec fn scene_hit_spec(sc: Scene, r: Ray, t_min: int, t_max: int) -> Option<
    SurfaceInteraction,
> {
    meshes_hit_from(
        spheres_hit_prefix(sc.spheres@, r, t_min, t_max, sc.spheres@.len() as int),
        sc.meshes@,
        r,
        t_min,
        t_max,
        sc.meshes@.len() as int,
    )
}

impl Scene {
    /// Tests the ray against every child — every sphere, and every triangle
    /// of every mesh — and returns the interaction with the globally
    /// smallest `t`, the earliest child winning ties.
    pub fn hit(&self, ray: &Ray, t_min: i64, t_max: i64) -> (r: Option<SurfaceInteraction>)
        requires
            wf_scene(*self),
            wf_ray(*ray),
            wf_range(t_min as int, t_max as int),
        ensures
            r == scene_hit_spec(*self, *ray, t_min as int, t_max as int),
            r is Some ==> wf_si(r->0) && t_min <= r->0.t <= t_max,
    {
        let mut best: Option<SurfaceInteraction> = None;
        let mut i: usize = 0;
        while i < self.spheres.len()
            invariant
                i <= self.spheres.len(),
                wf_scene(*self),
                wf_ray(*ray),
                wf_range(t_min as int, t_max as int),
                best == spheres_hit_prefix(
                    self.spheres@,
                    *ray,
                    t_min as int,
                    t_max as int,
                    i as int,
                ),
                best is Some ==> wf_si(best->0) && t_min <= best->0.t <= t_max,
            decreases self.spheres.len() - i,
        {
            let s = self.spheres[i];
            let h = s.hit(ray, t_min, t_max);
            match h {
                Some(si) => {
                    match best {
                        Some(b) => {
                            if si.t < b.t {
                                best = Some(si);
                            }
                        },
                        None => {
                            best = Some(si);
                        },
                    }
                },
                None => {},
            }
            i = i + 1;
        }
        let ghost acc = best;
        let mut j: usize = 0;
        while j < self.meshes.len()
            invariant
                j <= self.meshes.len(),
                wf_scene(*self),
                wf_ray(*ray),
                wf_range(t_min as int, t_max as int),
                acc == spheres_hit_prefix(
                    self.spheres@,
                    *ray,
                    t_min as int,
                    t_max as int,
                    self.spheres@.len() as int,
                ),
                best == meshes_hit_from(acc, self.meshes@, *ray, t_min as int, t_max as int, j as int),
                best is Some ==> wf_si(best->0) && t_min <= best->0.t <= t_max,
            decreases self.meshes.len() - j,
        {
            let h = self.meshes[j].hit(ray, t_min, t_max);
            match h {
                Some(si) => {
                    match best {
                        Some(b) => {
                            if si.t < b.t {
                                best = Some(si);
                            }
                        },
                        None => {
                            best = Some(si);
                        },
                    }
                },
                None => {},
            }
            j = j + 1;
        }
        best
    }
}

/// The nearest-wins fold over a mesh's faces is the minimum over its faces:
/// it is `Some` exactly when some face hits, it equals one face's hit, and
/// no face's hit has a smaller `t`.
pub proof fn lemma_mesh_hit_prefix_props(
    faces: Seq<Triangle>,
    r: Ray,
    t_min: int,
    t_max: int,
    n: int,
)
    requires
        0 <= n <= faces.len(),
    ensures
        mesh_hit_prefix(faces, r, t_min, t_max, n) is Some <==> exists|k: int|
            0 <= k < n && (#[trigger] triangle_hit_spec(faces[k], r, t_min, t_max)) is Some,
        mesh_hit_prefix(faces, r, t_min, t_max, n) is Some ==> exists|k: int|
            0 <= k < n && #[trigger] triangle_hit_spec(faces[k], r, t_min, t_max)
                == mesh_hit_prefix(faces, r, t_min, t_max, n),
        forall|k: int|
            0 <= k < n && (#[trigger] triangle_hit_spec(faces[k], r, t_min, t_max)) is Some
                ==> mesh_hit_prefix(faces, r, t_min, t_max, n) is Some
                    && mesh_hit_prefix(faces, r, t_min, t_max, n)->0.t
                        <= triangle_hit_spec(faces[k], r, t_min, t_max)->0.t,
    decreases n,
{
    if n > 0 {
        lemma_mesh_hit_prefix_props(faces, r, t_min, t_max, n - 1);
        let prev = mesh_hit_prefix(faces, r, t_min, t_max, n - 1);
        let ch = triangle_hit_spec(faces[n - 1], r, t_min, t_max);
        let res = mesh_hit_prefix(faces, r, t_min, t_max, n);
        assert(res == closer_hit(prev, ch));
        if res is Some {
            if prev is Some && res == prev {
                let kp = choose|k: int|
                    0 <= k < n - 1 && #[trigger] triangle_hit_spec(faces[k], r, t_min, t_max)
                        == prev;
                assert(triangle_hit_spec(faces[kp], r, t_min, t_max) == res);
            } else {
                assert(triangle_hit_spec(faces[n - 1], r, t_min, t_max) == res);
            }
        }
    }
}

/// The nearest-wins fold over the spheres is the minimum over the spheres.
pub proof fn lemma_spheres_hit_prefix_props(
    spheres: Seq<Sphere>,
    r: Ray,
    t_min: int,
    t_max: int,
    n: int,
)
    requires
        0 <= n <= spheres.len(),
    ensures
        spheres_hit_prefix(spheres, r, t_min, t_max, n) is Some <==> exists|k: int|
            0 <= k < n && (#[trigger] sphere_hit_spec(spheres[k], r, t_min, t_max)) is Some,
        spheres_hit_prefix(spheres, r, t_min, t_max, n) is Some ==> exists|k: int|
            0 <= k < n && #[trigger] sphere_hit_spec(spheres[k], r, t_min, t_max)
                == spheres_hit_prefix(spheres, r, t_min, t_max, n),
        forall|k: int|
            0 <= k < n && (#[trigger] sphere_hit_spec(spheres[k], r, t_min, t_max)) is Some
                ==> spheres_hit_prefix(spheres, r, t_min, t_max, n) is Some
                    && spheres_hit_prefix(spheres, r, t_min, t_max, n)->0.t
                        <= sphere_hit_spec(spheres[k], r, t_min, t_max)->0.t,
    decreases n,
{
    if n > 0 {
        lemma_spheres_hit_prefix_props(spheres, r, t_min, t_max, n - 1);
        let prev = spheres_hit_prefix(spheres, r, t_min, t_max, n - 1);
        let ch = sphere_hit_spec(spheres[n - 1], r, t_min, t_max);
        let res = spheres_hit_prefix(spheres, r, t_min, t_max, n);
        assert(res == closer_hit(prev, ch));
        if res is Some {
            if prev is Some && res == prev {
                let kp = choose|k: int|
                    0 <= k < n - 1 && #[trigger] sphere_hit_spec(spheres[k], r, t_min, t_max)
                        == prev;
                assert(sphere_hit_spec(spheres[kp], r, t_min, t_max) == res);
            } else {
                assert(sphere_hit_spec(spheres[n - 1], r, t_min, t_max) == res);
            }
        }
    }
}

/// Folding mesh hits into an accumulator keeps the minimum: the result is
/// the accumulator or one mesh's hit, and is no farther than either.
pub proof fn lemma_meshes_hit_from_props(
    acc: Option<SurfaceInteraction>,
    meshes: Seq<Mesh>,
    r: Ray,
    t_min: int,
    t_max: int,
    n: int,
)
    requires
        0 <= n <= meshes.len(),
    ensures
        meshes_hit_from(acc, meshes, r, t_min, t_max, n) is Some <==> acc is Some || exists|j: int|
            0 <= j < n && (#[trigger] mesh_hit_spec(meshes[j], r, t_min, t_max)) is Some,
        meshes_hit_from(acc, meshes, r, t_min, t_max, n) is Some ==> meshes_hit_from(
            acc,
            meshes,
            r,
            t_min,
            t_max,
            n,
        ) == acc || exists|j: int|
            0 <= j < n && #[trigger] mesh_hit_spec(meshes[j], r, t_min, t_max)
                == meshes_hit_from(acc, meshes, r, t_min, t_max, n),
        acc is Some ==> meshes_hit_from(acc, meshes, r, t_min, t_max, n) is Some
            && meshes_hit_from(acc, meshes, r, t_min, t_max, n)->0.t <= acc->0.t,
        forall|j: int|
            0 <= j < n && (#[trigger] mesh_hit_spec(meshes[j], r, t_min, t_max)) is Some
                ==> meshes_hit_from(acc, meshes, r, t_min, t_max, n) is Some
                    && meshes_hit_from(acc, meshes, r, t_min, t_max, n)->0.t
                        <= mesh_hit_spec(meshes[j], r, t_min, t_max)->0.t,
    decreases n,
{
    if n > 0 {
        lemma_meshes_hit_from_props(acc, meshes, r, t_min, t_max, n - 1);
        let prev = meshes_hit_from(acc, meshes, r, t_min, t_max, n - 1);
        let ch = mesh_hit_spec(meshes[n - 1], r, t_min, t_max);
        let res = meshes_hit_from(acc, meshes, r, t_min, t_max, n);
        assert(res == closer_hit(prev, ch));
        if res is Some {
            if prev is Some && res == prev {
                if prev != acc {
                    let jp = choose|j: int|
                        0 <= j < n - 1 && #[trigger] mesh_hit_spec(meshes[j], r, t_min, t_max)
                            == prev;
                    assert(mesh_hit_spec(meshes[jp], r, t_min, t_max) == res);
                }
            } else {
                assert(mesh_hit_spec(meshes[n - 1], r, t_min, t_max) == res);
            }
        }
    }
}

/// The aggregate hit on a scene is the global minimum-`t` interaction over
/// all its leaves — every sphere, and every triangle of every mesh.  It
/// exists exactly when some leaf reports a hit; it equals the hit of one of
/// the leaves; and no leaf reports a strictly smaller `t`.  The reduction
/// is therefore independent of how the children are nested.
pub proof fn lemma_scene_hit_global_min(sc: Scene, r: Ray, t_min: int, t_max: int)
    ensures
        scene_hit_spec(sc, r, t_min, t_max) is Some <==> (exists|i: int|
            0 <= i < sc.spheres@.len() && (#[trigger] sphere_hit_spec(
                sc.spheres@[i],
                r,
                t_min,
                t_max,
            )) is Some) || (exists|j: int, k: int|
            0 <= j < sc.meshes@.len() && 0 <= k < sc.meshes@[j].faces@.len()
                && (#[trigger] triangle_hit_spec(
                sc.meshes@[j].faces@[k],
                r,
                t_min,
                t_max,
            )) is Some),
        forall|i: int|
            0 <= i < sc.spheres@.len() && (#[trigger] sphere_hit_spec(
                sc.spheres@[i],
                r,
                t_min,
                t_max,
            )) is Some ==> scene_hit_spec(sc, r, t_min, t_max) is Some && scene_hit_spec(
                sc,
                r,
                t_min,
                t_max,
            )->0.t <= sphere_hit_spec(sc.spheres@[i], r, t_min, t_max)->0.t,
        forall|j: int, k: int|
            0 <= j < sc.meshes@.len() && 0 <= k < sc.meshes@[j].faces@.len()
                && (#[trigger] triangle_hit_spec(sc.meshes@[j].faces@[k], r, t_min, t_max)) is Some
                ==> scene_hit_spec(sc, r, t_min, t_max) is Some && scene_hit_spec(
                sc,
                r,
                t_min,
                t_max,
            )->0.t <= triangle_hit_spec(sc.meshes@[j].faces@[k], r, t_min, t_max)->0.t,
        scene_hit_spec(sc, r, t_min, t_max) is Some ==> (exists|i: int|
            0 <= i < sc.spheres@.len() && #[trigger] sphere_hit_spec(
                sc.spheres@[i],
                r,
                t_min,
                t_max,
            ) == scene_hit_spec(sc, r, t_min, t_max)) || (exists|j: int, k: int|
            0 <= j < sc.meshes@.len() && 0 <= k < sc.meshes@[j].faces@.len()
                && #[trigger] triangle_hit_spec(sc.meshes@[j].faces@[k], r, t_min, t_max)
                == scene_hit_spec(sc, r, t_min, t_max)),
{
    let sp = spheres_hit_prefix(sc.spheres@, r, t_min, t_max, sc.spheres@.len() as int);
    let res = scene_hit_spec(sc, r, t_min, t_max);
    lemma_spheres_hit_prefix_props(sc.spheres@, r, t_min, t_max, sc.spheres@.len() as int);
    lemma_meshes_hit_from_props(sp, sc.meshes@, r, t_min, t_max, sc.meshes@.len() as int);
    assert forall|j: int| 0 <= j < sc.meshes@.len() implies (mesh_hit_spec(
        sc.meshes@[j],
        r,
        t_min,
        t_max,
    ) is Some <==> exists|k: int|
        0 <= k < sc.meshes@[j].faces@.len() && (#[trigger] triangle_hit_spec(
            sc.meshes@[j].faces@[k],
            r,
            t_min,
            t_max,
        )) is Some) by {
        lemma_mesh_hit_prefix_props(
            sc.meshes@[j].faces@,
            r,
            t_min,
            t_max,
            sc.meshes@[j].faces@.len() as int,
        );
    }
    assert forall|j: int, k: int|
        0 <= j < sc.meshes@.len() && 0 <= k < sc.meshes@[j].faces@.len()
            && (#[trigger] triangle_hit_spec(sc.meshes@[j].faces@[k], r, t_min, t_max)) is Some
        implies mesh_hit_spec(sc.meshes@[j], r, t_min, t_max) is Some && mesh_hit_spec(
        sc.meshes@[j],
        r,
        t_min,
        t_max,
    )->0.t <= triangle_hit_spec(sc.meshes@[j].faces@[k], r, t_min, t_max)->0.t by {
        lemma_mesh_hit_prefix_props(
            sc.meshes@[j].faces@,
            r,
            t_min,
            t_max,
            sc.meshes@[j].faces@.len() as int,
        );
    }
    if res is Some {
        if res == sp {
        } else {
            let jw = choose|j: int|
                0 <= j < sc.meshes@.len() && #[trigger] mesh_hit_spec(
                    sc.meshes@[j],
                    r,
                    t_min,
                    t_max,
                ) == res;
            lemma_mesh_hit_prefix_props(
                sc.meshes@[jw].faces@,
                r,
                t_min,
                t_max,
                sc.meshes@[jw].faces@.len() as int,
            );
            let kw = choose|k: int|
                0 <= k < sc.meshes@[jw].faces@.len() && #[trigger] triangle_hit_spec(
                    sc.meshes@[jw].faces@[k],
                    r,
                    t_min,
                    t_max,
                ) == mesh_hit_spec(sc.meshes@[jw], r, t_min, t_max);
            assert(triangle_hit_spec(sc.meshes@[jw].faces@[kw], r, t_min, t_max) == res);
        }
    }
}

} // verus!
