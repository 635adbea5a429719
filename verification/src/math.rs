//! Vectors and colors.
//!
//! [`Vec3`] is a fixed-point 3-vector used both for directions and for affine
//! positions.  Its contracts are exact: every operation states the integer
//! value of each component of its result.  [`Color`] is an RGB radiance
//! triple on the same scale, with `0` black and [`SCALE`] full intensity.

use vstd::prelude::*;

verus! {

use crate::fixed::{
    SCALE, fdiv, sqrt_floor, wide_mul, div_floor, isqrt,
    lemma_abs_mul_le, lemma_fdiv_in_bound,
};

/// Tolerance on the squared norm of a unit vector: a direction `d` counts as
/// unit when `|d.d - 1|` is at most `UNIT_TOL / SCALE` (about `1e-3`).
pub const UNIT_TOL: i64 = 64;

/// Bound on scene data: centers, vertices, camera positions and `t` ranges
/// must have magnitude at most `COORD_MAX` (4096 in real units).
pub const COORD_MAX: i64 = 268435456;

/// Bound on certified hit points; hit tests reject anything farther out.
pub const POINT_MAX: i64 = 536870912;

/// Bound on ray origins accepted by the hit tests.
pub const ORIGIN_MAX: i64 = 1073741824;

/// A fixed-point 3-vector: each component is the real value times [`SCALE`].
#[derive(Clone, Copy, Debug, PartialEq, Eq, Structural)]
pub struct Vec3 {
    pub x: i64,
    pub y: i64,
    pub z: i64,
}

/// Every component of `v` has magnitude at most `b`.
pub open spec fn bounded(v: Vec3, b: int) -> bool {
    &&& -b <= v.x <= b
    &&& -b <= v.y <= b
    &&& -b <= v.z <= b
}

/// The wide dot product: `SCALE * SCALE` times the real dot product.
pub open spec fn dotw(a: Vec3, b: Vec3) -> int {
    a.x * b.x + a.y * b.y + a.z * b.z
}

/// The fixed-point dot product of `a` and `b`.
pub open spec fn dots(a: Vec3, b: Vec3) -> int {
    dotw(a, b) / (SCALE as int)
}

/// A direction is unit when its squared norm is within tolerance of one.
pub open spec fn is_unit(v: Vec3) -> bool {
    SCALE - UNIT_TOL <= dots(v, v) <= SCALE + UNIT_TOL
}

/// Components of the fixed-point cross product.
pub open spec fn cross_x(a: Vec3, b: Vec3) -> int {
    (a.y * b.z - a.z * b.y) / (SCALE as int)
}

/// Components of the fixed-point cross product.
pub open spec fn cross_y(a: Vec3, b: Vec3) -> int {
    (a.z * b.x - a.x * b.z) / (SCALE as int)
}

/// Components of the fixed-point cross product.
pub open spec fn cross_z(a: Vec3, b: Vec3) -> int {
    (a.x * b.y - a.y * b.x) / (SCALE as int)
}

/// Components of the normalized vector: `v` scaled by `SCALE` over the
/// integer square root of its wide squared norm.
pub open spec fn unit_x(v: Vec3) -> int {
    fdiv(v.x * SCALE, sqrt_floor(dotw(v, v)))
}

/// Components of the normalized vector.
pub open spec fn unit_y(v: Vec3) -> int {
    fdiv(v.y * SCALE, sqrt_floor(dotw(v, v)))
}

/// Components of the normalized vector.
pub open spec fn unit_z(v: Vec3) -> int {
    fdiv(v.z * SCALE, sqrt_floor(dotw(v, v)))
}

/// The normalized vector, meaningful when `dotw(v, v) > 0`.
pub open spec fn unit_of(v: Vec3) -> Vec3 {
    Vec3 { x: unit_x(v) as i64, y: unit_y(v) as i64, z: unit_z(v) as i64 }
}

/// The componentwise difference `a - b`.
pub open spec fn vsub(a: Vec3, b: Vec3) -> Vec3 {
    Vec3 { x: (a.x - b.x) as i64, y: (a.y - b.y) as i64, z: (a.z - b.z) as i64 }
}

/// The componentwise sum `a + b`.
pub open spec fn vadd(a: Vec3, b: Vec3) -> Vec3 {
    Vec3 { x: (a.x + b.x) as i64, y: (a.y + b.y) as i64, z: (a.z + b.z) as i64 }
}

/// The vector `v` scaled by the fixed-point factor `k`.
pub open spec fn vscale(v: Vec3, k: int) -> Vec3 {
    Vec3 {
        x: fdiv(v.x * k, SCALE as int) as i64,
        y: fdiv(v.y * k, SCALE as int) as i64,
        z: fdiv(v.z * k, SCALE as int) as i64,
    }
}

/// The fixed-point cross product of `a` and `b`.
pub open spec fn vcross(a: Vec3, b: Vec3) -> Vec3 {
    Vec3 { x: cross_x(a, b) as i64, y: cross_y(a, b) as i64, z: cross_z(a, b) as i64 }
}

/// A square is nonnegative, so a wide squared norm is too.
pub proof fn lemma_norm2w_nonneg(v: Vec3)
    ensures
        dotw(v, v) >= 0,
        v.x * v.x <= dotw(v, v),
        v.y * v.y <= dotw(v, v),
        v.z * v.z <= dotw(v, v),
{
    assert(v.x * v.x >= 0 && v.y * v.y >= 0 && v.z * v.z >= 0) by (nonlinear_arith);
}

/// Componentwise bounds give a bound on the wide dot product.
pub proof fn lemma_dotw_bound(a: Vec3, b: Vec3, ba: int, bb: int)
    requires
        0 <= ba,
        0 <= bb,
        bounded(a, ba),
        bounded(b, bb),
    ensures
        -(3 * (ba * bb)) <= dotw(a, b) <= 3 * (ba * bb),
        -(ba * bb) <= a.x * b.x <= ba * bb,
        -(ba * bb) <= a.y * b.y <= ba * bb,
        -(ba * bb) <= a.z * b.z <= ba * bb,
{
    lemma_abs_mul_le(a.x as int, b.x as int, ba, bb);
    lemma_abs_mul_le(a.y as int, b.y as int, ba, bb);
    lemma_abs_mul_le(a.z as int, b.z as int, ba, bb);
}

/// Componentwise bounds give a bound on each cross-product component.
pub proof fn lemma_cross_bound(a: Vec3, b: Vec3, ba: int, bb: int)
    requires
        0 <= ba,
        0 <= bb,
        bounded(a, ba),
        bounded(b, bb),
    ensures
        -((2 * (ba * bb)) / (SCALE as int) + 1) <= cross_x(a, b)
            <= (2 * (ba * bb)) / (SCALE as int) + 1,
        -((2 * (ba * bb)) / (SCALE as int) + 1) <= cross_y(a, b)
            <= (2 * (ba * bb)) / (SCALE as int) + 1,
        -((2 * (ba * bb)) / (SCALE as int) + 1) <= cross_z(a, b)
            <= (2 * (ba * bb)) / (SCALE as int) + 1,
{
    lemma_abs_mul_le(a.y as int, b.z as int, ba, bb);
    lemma_abs_mul_le(a.z as int, b.y as int, ba, bb);
    lemma_abs_mul_le(a.z as int, b.x as int, ba, bb);
    lemma_abs_mul_le(a.x as int, b.z as int, ba, bb);
    lemma_abs_mul_le(a.x as int, b.y as int, ba, bb);
    lemma_abs_mul_le(a.y as int, b.x as int, ba, bb);
    let p = ba * bb;
    let m = (2 * p) / (SCALE as int) + 1;
    vstd::arithmetic::div_mod::lemma_fundamental_div_mod(2 * p, SCALE as int);
    vstd::arithmetic::div_mod::lemma_mod_bound(2 * p, SCALE as int);
    assert(m * (SCALE as int) >= 2 * p) by (nonlinear_arith)
        requires
            m == (2 * p) / (SCALE as int) + 1,
            2 * p == (SCALE as int) * ((2 * p) / (SCALE as int)) + (2 * p) % (SCALE as int),
            0 <= (2 * p) % (SCALE as int) < (SCALE as int),
            SCALE == 65536,
    ;
    lemma_fdiv_in_bound(a.y * b.z - a.z * b.y, SCALE as int, m);
    lemma_fdiv_in_bound(a.z * b.x - a.x * b.z, SCALE as int, m);
    lemma_fdiv_in_bound(a.x * b.y - a.y * b.x, SCALE as int, m);
}

/// Componentwise bounds give a bound on a scaled vector's components.
pub proof fn lemma_vscale_bound(v: Vec3, k: int, bv: int, bk: int)
    requires
        0 <= bv,
        0 <= bk,
        bounded(v, bv),
        -bk <= k <= bk,
    ensures
        -((bv * bk) / (SCALE as int) + 1) <= fdiv(v.x * k, SCALE as int)
            <= (bv * bk) / (SCALE as int) + 1,
        -((bv * bk) / (SCALE as int) + 1) <= fdiv(v.y * k, SCALE as int)
            <= (bv * bk) / (SCALE as int) + 1,
        -((bv * bk) / (SCALE as int) + 1) <= fdiv(v.z * k, SCALE as int)
            <= (bv * bk) / (SCALE as int) + 1,
{
    lemma_abs_mul_le(v.x as int, k, bv, bk);
    lemma_abs_mul_le(v.y as int, k, bv, bk);
    lemma_abs_mul_le(v.z as int, k, bv, bk);
    let p = bv * bk;
    let m = p / (SCALE as int) + 1;
    vstd::arithmetic::div_mod::lemma_fundamental_div_mod(p, SCALE as int);
    vstd::arithmetic::div_mod::lemma_mod_bound(p, SCALE as int);
    assert(m * (SCALE as int) >= p) by (nonlinear_arith)
        requires
            m == p / (SCALE as int) + 1,
            p == (SCALE as int) * (p / (SCALE as int)) + p % (SCALE as int),
            0 <= p % (SCALE as int) < (SCALE as int),
            SCALE == 65536,
    ;
    lemma_fdiv_in_bound(v.x * k, SCALE as int, m);
    lemma_fdiv_in_bound(v.y * k, SCALE as int, m);
    lemma_fdiv_in_bound(v.z * k, SCALE as int, m);
}

impl Vec3 {
    /// Builds the vector with the given fixed-point components.
    pub fn new(x: i64, y: i64, z: i64) -> (v: Vec3)
        ensures
            v == (Vec3 { x, y, z }),
    {
        Vec3 { x, y, z }
    }

    /// Componentwise sum.
    pub fn add(self, other: Vec3) -> (r: Vec3)
        requires
            bounded(self, 0x2000000000000000),
            bounded(other, 0x2000000000000000),
        ensures
            r.x == self.x + other.x,
            r.y == self.y + other.y,
            r.z == self.z + other.z,
    {
        Vec3 { x: self.x + other.x, y: self.y + other.y, z: self.z + other.z }
    }

    /// Componentwise difference.
    pub fn sub(self, other: Vec3) -> (r: Vec3)
        requires
            bounded(self, 0x2000000000000000),
            bounded(other, 0x2000000000000000),
        ensures
            r.x == self.x - other.x,
            r.y == self.y - other.y,
            r.z == self.z - other.z,
    {
        Vec3 { x: self.x - other.x, y: self.y - other.y, z: self.z - other.z }
    }

    /// Scales by the fixed-point factor `k`.
    pub fn scale(self, k: i64) -> (r: Vec3)
        requires
            bounded(self, 0x10000000000),
            -0x4000000000 <= k <= 0x4000000000,
        ensures
            r.x == fdiv(self.x * k, SCALE as int),
            r.y == fdiv(self.y * k, SCALE as int),
            r.z == fdiv(self.z * k, SCALE as int),
    {
        proof {
            lemma_abs_mul_le(self.x as int, k as int, 0x10000000000, 0x4000000000);
            lemma_abs_mul_le(self.y as int, k as int, 0x10000000000, 0x4000000000);
            lemma_abs_mul_le(self.z as int, k as int, 0x10000000000, 0x4000000000);
            lemma_fdiv_in_bound(self.x * k, SCALE as int, 0x4000000000000000);
            lemma_fdiv_in_bound(self.y * k, SCALE as int, 0x4000000000000000);
            lemma_fdiv_in_bound(self.z * k, SCALE as int, 0x4000000000000000);
        }
        Vec3 {
            x: div_floor(wide_mul(self.x, k), SCALE as i128) as i64,
            y: div_floor(wide_mul(self.y, k), SCALE as i128) as i64,
            z: div_floor(wide_mul(self.z, k), SCALE as i128) as i64,
        }
    }

    /// The fixed-point dot product.
    pub fn dot(&self, other: Vec3) -> (r: i64)
        requires
            bounded(*self, 0x400000000000),
            bounded(other, 0x400000000000),
            -(0xfffffffffffffff * (SCALE as int)) <= dotw(*self, other)
                <= 0xfffffffffffffff * (SCALE as int),
        ensures
            r == dots(*self, other),
    {
        proof {
            lemma_dotw_bound(*self, other, 0x400000000000, 0x400000000000);
            lemma_fdiv_in_bound(dotw(*self, other), SCALE as int, 0xfffffffffffffff);
        }
        let px = wide_mul(self.x, other.x);
        let py = wide_mul(self.y, other.y);
        let pz = wide_mul(self.z, other.z);
        let sum: i128 = px + py + pz;
        div_floor(sum, SCALE as i128) as i64
    }

    /// The fixed-point cross product.
    pub fn cross(&self, other: Vec3) -> (r: Vec3)
        requires
            bounded(*self, 0x100000000),
            bounded(other, 0x100000000),
        ensures
            r.x == cross_x(*self, other),
            r.y == cross_y(*self, other),
            r.z == cross_z(*self, other),
    {
        proof {
            lemma_abs_mul_le(self.y as int, other.z as int, 0x100000000, 0x100000000);
            lemma_abs_mul_le(self.z as int, other.y as int, 0x100000000, 0x100000000);
            lemma_abs_mul_le(self.z as int, other.x as int, 0x100000000, 0x100000000);
            lemma_abs_mul_le(self.x as int, other.z as int, 0x100000000, 0x100000000);
            lemma_abs_mul_le(self.x as int, other.y as int, 0x100000000, 0x100000000);
            lemma_abs_mul_le(self.y as int, other.x as int, 0x100000000, 0x100000000);
            lemma_fdiv_in_bound(self.y * other.z - self.z * other.y, SCALE as int, 0x4000000000000000);
            lemma_fdiv_in_bound(self.z * other.x - self.x * other.z, SCALE as int, 0x4000000000000000);
            lemma_fdiv_in_bound(self.x * other.y - self.y * other.x, SCALE as int, 0x4000000000000000);
        }
        Vec3 {
            x: div_floor(wide_mul(self.y, other.z) - wide_mul(self.z, other.y), SCALE as i128) as i64,
            y: div_floor(wide_mul(self.z, other.x) - wide_mul(self.x, other.z), SCALE as i128) as i64,
            z: div_floor(wide_mul(self.x, other.y) - wide_mul(self.y, other.x), SCALE as i128) as i64,
        }
    }

    /// The fixed-point squared length.
    pub fn len_squared(self) -> (r: i64)
        requires
            bounded(self, 0x40000000),
        ensures
            r == dots(self, self),
    {
        proof {
            lemma_dotw_bound(self, self, 0x40000000, 0x40000000);
        }
        self.dot(self)
    }

    /// The fixed-point length: the integer square root of the wide squared
    /// norm.
    pub fn len(self) -> (r: i64)
        requires
            bounded(self, 0x100000000000),
        ensures
            r == sqrt_floor(dotw(self, self)),
            r >= 0,
    {
        proof {
            lemma_norm2w_nonneg(self);
            lemma_dotw_bound(self, self, 0x100000000000, 0x100000000000);
        }
        let px = wide_mul(self.x, self.x);
        let py = wide_mul(self.y, self.y);
        let pz = wide_mul(self.z, self.z);
        let sumw: i128 = px + py + pz;
        let l: u64 = isqrt(sumw as u128);
        proof {
            assert(l < 0x10000000000000) by (nonlinear_arith)
                requires
                    l * l <= dotw(self, self),
                    dotw(self, self) <= 3 * (0x100000000000 * 0x100000000000),
            ;
        }
        l as i64
    }

    /// Normalizes `self` to unit length, or returns `None` when `self` is
    /// zero or too short for the normalized result to certify as unit.
    /// Success is owed whenever `self` is at least a sixteenth of a world
    /// unit long ([`lemma_unit_certifies`]).
    pub fn unit(self) -> (r: Option<Vec3>)
        requires
            bounded(self, 0x100000000000),
        ensures
            r is Some <==> dotw(self, self) > 0 && is_unit(unit_of(self)),
            r is Some ==> r->0 == unit_of(self),
            r is Some ==> is_unit(r->0),
            r is Some ==> bounded(r->0, SCALE as int),
            dotw(self, self) >= 0x1000000 ==> r is Some,
    {
        proof {
            if dotw(self, self) >= 0x1000000 {
                lemma_unit_certifies(self);
            }
        }
        proof {
            lemma_norm2w_nonneg(self);
            lemma_dotw_bound(self, self, 0x100000000000, 0x100000000000);
        }
        let px = wide_mul(self.x, self.x);
        let py = wide_mul(self.y, self.y);
        let pz = wide_mul(self.z, self.z);
        let sumw: i128 = px + py + pz;
        if sumw == 0 {
            return None;
        }
        let l: u64 = isqrt(sumw as u128);
        proof {
            assert(l >= 1) by (nonlinear_arith)
                requires
                    (sumw as u128) >= 1,
                    (sumw as u128) < (l + 1) * (l + 1),
            ;
            lemma_unit_component_in_bound(self.x as int, sumw as int, l as int);
            lemma_unit_component_in_bound(self.y as int, sumw as int, l as int);
            lemma_unit_component_in_bound(self.z as int, sumw as int, l as int);
        }
        let u = Vec3 {
            x: div_floor(wide_mul(self.x, SCALE), l as i128) as i64,
            y: div_floor(wide_mul(self.y, SCALE), l as i128) as i64,
            z: div_floor(wide_mul(self.z, SCALE), l as i128) as i64,
        };
        proof {
            lemma_dotw_bound(u, u, SCALE as int, SCALE as int);
        }
        let d = u.dot(u);
        if SCALE - UNIT_TOL <= d && d <= SCALE + UNIT_TOL {
            Some(u)
        } else {
            None
        }
    }
}

/// An RGB radiance triple on the fixed-point scale: `0` is black and
/// [`SCALE`] is full intensity in each channel.
#[derive(Clone, Copy, Debug, PartialEq, Eq, Structural)]
pub struct Color {
    pub r: i64,
    pub g: i64,
    pub b: i64,
}

/// An 8-bit RGBA pixel, ready for an image buffer.
#[derive(Clone, Copy, Debug, PartialEq, Eq, Structural)]
pub struct Rgba8 {
    pub r: u8,
    pub g: u8,
    pub b: u8,
    pub a: u8,
}

/// An 8-bit RGB pixel, ready for an image buffer without an alpha channel.
#[derive(Clone, Copy, Debug, PartialEq, Eq, Structural)]
pub struct Rgb8 {
    pub r: u8,
    pub g: u8,
    pub b: u8,
}

/// A well-formed color has each channel in `[0, SCALE]`.
pub open spec fn wf_color(c: Color) -> bool {
    &&& 0 <= c.r <= SCALE
    &&& 0 <= c.g <= SCALE
    &&& 0 <= c.b <= SCALE
}

/// The componentwise product of two colors, scaled back down.
pub open spec fn color_mul(a: Color, b: Color) -> Color {
    Color {
        r: ((a.r * b.r) / (SCALE as int)) as i64,
        g: ((a.g * b.g) / (SCALE as int)) as i64,
        b: ((a.b * b.b) / (SCALE as int)) as i64,
    }
}

/// Clamps a channel to `[0, SCALE]`.
pub open spec fn clamp01(x: int) -> int {
    if x < 0 {
        0
    } else if x > SCALE {
        SCALE as int
    } else {
        x
    }
}

/// The exposure mapping of one channel: clamp to `[0, 1]`, apply the gamma
/// root (`gamma` is 1 or 2), and scale to `[0, 255]`.
pub open spec fn clip_channel(x: int, gamma: int) -> int {
    let c = clamp01(x);
    let g = if gamma == 2 {
        sqrt_floor(c * SCALE)
    } else {
        c
    };
    (g * 255) / (SCALE as int)
}

/// One channel of the clip exposure mapping.
fn clip_chan(x: i64, gamma: u32) -> (byte: u8)
    requires
        gamma == 1 || gamma == 2,
    ensures
        byte == clip_channel(x as int, gamma as int),
{
    let c: i64 = if x < 0 {
        0
    } else if x > SCALE {
        SCALE
    } else {
        x
    };
    let g: i64 = if gamma == 2 {
        let s: u64 = isqrt((c * SCALE) as u128);
        proof {
            assert(s <= SCALE) by (nonlinear_arith)
                requires
                    s * s <= c * SCALE,
                    0 <= c <= SCALE,
                    SCALE == 65536,
            ;
        }
        s as i64
    } else {
        c
    };
    ((g * 255) / SCALE) as u8
}

impl Color {
    /// Builds the color with the given fixed-point channels.
    pub fn new(r: i64, g: i64, b: i64) -> (c: Color)
        ensures
            c == (Color { r, g, b }),
    {
        Color { r, g, b }
    }

    /// Componentwise product: attenuating one color by another.
    pub fn mul(self, rhs: Color) -> (c: Color)
        requires
            wf_color(self),
            wf_color(rhs),
        ensures
            c.r == (self.r * rhs.r) / (SCALE as int),
            c.g == (self.g * rhs.g) / (SCALE as int),
            c.b == (self.b * rhs.b) / (SCALE as int),
            c == color_mul(self, rhs),
            wf_color(c),
    {
        proof {
            lemma_channel_mul(self.r as int, rhs.r as int);
            lemma_channel_mul(self.g as int, rhs.g as int);
            lemma_channel_mul(self.b as int, rhs.b as int);
        }
        Color {
            r: div_floor(wide_mul(self.r, rhs.r), SCALE as i128) as i64,
            g: div_floor(wide_mul(self.g, rhs.g), SCALE as i128) as i64,
            b: div_floor(wide_mul(self.b, rhs.b), SCALE as i128) as i64,
        }
    }

    /// Componentwise sum: accumulating radiance.
    pub fn add(self, rhs: Color) -> (c: Color)
        requires
            -0x2000000000000000 <= self.r + rhs.r <= 0x2000000000000000,
            -0x2000000000000000 <= self.g + rhs.g <= 0x2000000000000000,
            -0x2000000000000000 <= self.b + rhs.b <= 0x2000000000000000,
        ensures
            c.r == self.r + rhs.r,
            c.g == self.g + rhs.g,
            c.b == self.b + rhs.b,
    {
        Color { r: self.r + rhs.r, g: self.g + rhs.g, b: self.b + rhs.b }
    }

    /// Divides each channel by `n`: the mean of `n` accumulated samples.
    pub fn div_n(self, n: u32) -> (c: Color)
        requires
            n >= 1,
            0 <= self.r,
            0 <= self.g,
            0 <= self.b,
        ensures
            c.r == (self.r as int) / (n as int),
            c.g == (self.g as int) / (n as int),
            c.b == (self.b as int) / (n as int),
    {
        Color { r: self.r / (n as i64), g: self.g / (n as i64), b: self.b / (n as i64) }
    }

    /// Maps the color to an 8-bit RGBA pixel: each channel is clamped to
    /// `[0, 1]`, taken to the power `1 / gamma` (`gamma` is 1 or 2), and
    /// scaled to `[0, 255]`; alpha is opaque.
    pub fn clip_exposure(self, gamma: u32) -> (px: Rgba8)
        requires
            gamma == 1 || gamma == 2,
        ensures
            px.r == clip_channel(self.r as int, gamma as int),
            px.g == clip_channel(self.g as int, gamma as int),
            px.b == clip_channel(self.b as int, gamma as int),
            px.a == 255,
    {
        Rgba8 {
            r: clip_chan(self.r, gamma),
            g: clip_chan(self.g, gamma),
            b: clip_chan(self.b, gamma),
            a: 255,
        }
    }
}

/// The product of two channels in `[0, SCALE]`, scaled back down, is again a
/// channel in `[0, SCALE]`.
pub proof fn lemma_channel_mul(a: int, b: int)
    requires
        0 <= a <= SCALE,
        0 <= b <= SCALE,
    ensures
        0 <= (a * b) / (SCALE as int) <= SCALE,
        -0x40000000000000000000000000000000 <= a * b <= 0x40000000000000000000000000000000,
{
    assert(0 <= a * b <= SCALE * SCALE) by (nonlinear_arith)
        requires
            0 <= a <= SCALE,
            0 <= b <= SCALE,
    ;
    vstd::arithmetic::div_mod::lemma_div_pos_is_pos(a * b, SCALE as int);
    lemma_fdiv_in_bound(a * b, SCALE as int, SCALE as int);
}

/// One component's part of the normalization error analysis: the division
/// remainder identity, the component bound, and the squared identity
/// `S^2 c^2 = l^2 u^2 + 2 l u r + r^2`.
proof fn lemma_unit_error_component(c: int, n: int, l: int)
    requires
        l >= 1,
        c * c <= n,
        n < (l + 1) * (l + 1),
    ensures
        ({
            let u = fdiv(c * SCALE, l);
            let r = (c * SCALE) % l;
            &&& c * SCALE == l * u + r
            &&& 0 <= r < l
            &&& -SCALE <= u <= SCALE
            &&& 4294967296 * (c * c) == l * l * (u * u) + 2 * (l * (u * r)) + r * r
            &&& -(SCALE * l) <= u * r <= SCALE * l
            &&& 0 <= r * r <= l * l
        }),
{
    let u = fdiv(c * SCALE, l);
    let r = (c * SCALE) % l;
    vstd::arithmetic::div_mod::lemma_fundamental_div_mod(c * SCALE, l);
    vstd::arithmetic::div_mod::lemma_mod_bound(c * SCALE, l);
    lemma_unit_component_in_bound(c, n, l);
    assert(c * SCALE == l * u + r) by (nonlinear_arith)
        requires
            c * SCALE == l * ((c * SCALE) / l) + (c * SCALE) % l,
            u == (c * SCALE) / l,
            r == (c * SCALE) % l,
            l >= 1,
    ;
    assert(4294967296 * (c * c) == l * l * (u * u) + 2 * (l * (u * r)) + r * r)
        by (nonlinear_arith)
        requires
            c * SCALE == l * u + r,
            SCALE == 65536,
    ;
    assert(-(SCALE * l) <= u * r <= SCALE * l) by (nonlinear_arith)
        requires
            -SCALE <= u <= SCALE,
            0 <= r < l,
    ;
    assert(0 <= r * r <= l * l) by (nonlinear_arith)
        requires
            0 <= r < l,
    ;
}

/// Normalization always certifies for a vector that is long enough: if
/// `|v|` is at least one sixteenth of a world unit, the normalized vector
/// is within the unit tolerance, so [`Vec3::unit`] cannot fail on it.
/// This pins the construction-time unit invariant down quantitatively:
/// the truncation error of the normalization is at most `38 / SCALE` above
/// and `7 / SCALE` below, well inside [`UNIT_TOL`].
pub proof fn lemma_unit_certifies(v: Vec3)
    requires
        bounded(v, 0x100000000000),
        dotw(v, v) >= 0x1000000,
    ensures
        dotw(v, v) > 0,
        is_unit(unit_of(v)),
        bounded(unit_of(v), SCALE as int),
{
    let n = dotw(v, v);
    lemma_norm2w_nonneg(v);
    crate::fixed::lemma_sqrt_floor_bounds(n);
    let l = sqrt_floor(n);
    assert(l >= 4096) by (nonlinear_arith)
        requires
            n >= 0x1000000,
            n < (l + 1) * (l + 1),
            l >= 0,
    ;
    lemma_unit_error_component(v.x as int, n, l);
    lemma_unit_error_component(v.y as int, n, l);
    lemma_unit_error_component(v.z as int, n, l);
    let ux = unit_x(v);
    let uy = unit_y(v);
    let uz = unit_z(v);
    let rx = (v.x * SCALE) % l;
    let ry = (v.y * SCALE) % l;
    let rz = (v.z * SCALE) % l;
    let usum = ux * ux + uy * uy + uz * uz;
    let w = ux * rx + uy * ry + uz * rz;
    let rsum = rx * rx + ry * ry + rz * rz;
    assert(4294967296 * n == l * l * usum + 2 * (l * w) + rsum) by (nonlinear_arith)
        requires
            n == v.x * v.x + v.y * v.y + v.z * v.z,
            4294967296 * (v.x * v.x) == l * l * (ux * ux) + 2 * (l * (ux * rx)) + rx * rx,
            4294967296 * (v.y * v.y) == l * l * (uy * uy) + 2 * (l * (uy * ry)) + ry * ry,
            4294967296 * (v.z * v.z) == l * l * (uz * uz) + 2 * (l * (uz * rz)) + rz * rz,
            usum == ux * ux + uy * uy + uz * uz,
            w == ux * rx + uy * ry + uz * rz,
            rsum == rx * rx + ry * ry + rz * rz,
    ;
    assert(usum >= 4294967296 - 7 * 65536) by (nonlinear_arith)
        requires
            4294967296 * n == l * l * usum + 2 * (l * w) + rsum,
            l * l <= n,
            -(3 * (65536 * l)) <= w <= 3 * (65536 * l),
            0 <= rsum <= 3 * (l * l),
            l >= 4096,
    ;
    assert(usum <= 4294967296 + 38 * 65536) by (nonlinear_arith)
        requires
            4294967296 * n == l * l * usum + 2 * (l * w) + rsum,
            n < (l + 1) * (l + 1),
            -(3 * (65536 * l)) <= w <= 3 * (65536 * l),
            0 <= rsum,
            l >= 4096,
    ;
    let u = unit_of(v);
    assert(u.x == ux && u.y == uy && u.z == uz);
    assert(dotw(u, u) == usum);
    vstd::arithmetic::div_mod::lemma_div_is_ordered(4294967296int - 7 * 65536, usum, SCALE as int);
    vstd::arithmetic::div_mod::lemma_div_is_ordered(usum, 4294967296int + 38 * 65536, SCALE as int);
    assert((4294967296 - 7 * 65536int) / 65536int == 65536 - 7) by (nonlinear_arith);
    assert((4294967296 + 38 * 65536int) / 65536int == 65536 + 38) by (nonlinear_arith);
}

/// A component of a vector divided by (the square root of) its own norm has
/// magnitude at most `SCALE`.
proof fn lemma_unit_component_in_bound(c: int, sumw: int, l: int)
    requires
        l >= 1,
        c * c <= sumw,
        sumw < (l + 1) * (l + 1),
    ensures
        -SCALE <= fdiv(c * SCALE, l) <= SCALE,
{
    assert(-l <= c <= l) by (nonlinear_arith)
        requires
            l >= 1,
            c * c <= sumw,
            sumw < (l + 1) * (l + 1),
    ;
    assert(-(SCALE * l) <= c * SCALE <= SCALE * l) by (nonlinear_arith)
        requires
            -l <= c <= l,
            SCALE == 65536,
    ;
    lemma_fdiv_in_bound(c * SCALE, l, SCALE as int);
}

} // verus!
