//! Fixed-point scalars.
//!
//! Every geometric quantity in this crate is a fixed-point number: an `i64`
//! value `x` stands for the real number `x / SCALE`.  The helpers here give
//! the exact integer semantics that the geometry contracts are written in:
//! floor division (`fdiv`) and the integer square root (`sqrt_floor`).

use vstd::prelude::*;

verus! {

use vstd::arithmetic::div_mod::{
    lemma_fundamental_div_mod,
    lemma_fundamental_div_mod_converse_div,
    lemma_mod_bound,
};

/// Fixed-point scale: an `i64` scalar `x` stands for the real number `x / SCALE`.
pub const SCALE: i64 = 65536;

/// Quotient of `a / b` rounded toward negative infinity, for `b != 0`.
///
/// For `b > 0` the spec-mode Euclidean `/` already rounds toward negative
/// infinity; a negative divisor is reduced to that case.
pub open spec fn fdiv(a: int, b: int) -> int {
    if b > 0 {
        a / b
    } else {
        (-a) / (-b)
    }
}

/// The integer square root: the greatest `r` with `r * r <= n`, for `n >= 0`.
pub open spec fn sqrt_floor(n: int) -> int {
    choose|r: int| 0 <= r && #[trigger] (r * r) <= n < (r + 1) * (r + 1)
}

/// `sqrt_floor` is pinned down by its defining inequalities: any `r` that
/// satisfies them is the integer square root.
pub proof fn lemma_sqrt_floor_unique(n: int, r: int)
    requires
        0 <= r,
        r * r <= n,
        n < (r + 1) * (r + 1),
    ensures
        sqrt_floor(n) == r,
{
    assert(0 <= r && r * r <= n < (r + 1) * (r + 1));
    let r2 = sqrt_floor(n);
    assert(0 <= r2 && r2 * r2 <= n < (r2 + 1) * (r2 + 1));
    assert(r2 == r) by (nonlinear_arith)
        requires
            0 <= r,
            r * r <= n,
            n < (r + 1) * (r + 1),
            0 <= r2,
            r2 * r2 <= n,
            n < (r2 + 1) * (r2 + 1),
    ;
}

/// The integer square root exists for every nonnegative `n`, and
/// `sqrt_floor` satisfies its defining inequalities there.
pub proof fn lemma_sqrt_floor_bounds(n: int)
    requires
        n >= 0,
    ensures
        sqrt_floor(n) >= 0,
        sqrt_floor(n) * sqrt_floor(n) <= n,
        n < (sqrt_floor(n) + 1) * (sqrt_floor(n) + 1),
    decreases n,
{
    if n == 0 {
        lemma_sqrt_floor_unique(0, 0);
    } else {
        lemma_sqrt_floor_bounds(n - 1);
        let r = sqrt_floor(n - 1);
        if (r + 1) * (r + 1) <= n {
            assert(n < (r + 2) * (r + 2)) by (nonlinear_arith)
                requires
                    r >= 0,
                    n - 1 < (r + 1) * (r + 1),
            ;
            lemma_sqrt_floor_unique(n, r + 1);
        } else {
            lemma_sqrt_floor_unique(n, r);
        }
    }
}

/// Bound on a product from bounds on its factors.
pub proof fn lemma_abs_mul_le(x: int, y: int, bx: int, by: int)
    requires
        -bx <= x <= bx,
        -by <= y <= by,
        0 <= bx,
        0 <= by,
    ensures
        -(bx * by) <= x * y <= bx * by,
{
    assert(-(bx * by) <= x * y <= bx * by) by (nonlinear_arith)
        requires
            -bx <= x <= bx,
            -by <= y <= by,
            0 <= bx,
            0 <= by,
    ;
}

/// Floor division shrinks magnitudes: `|fdiv(a, b)| <= |a|` once `|b| >= 1`.
pub proof fn lemma_fdiv_abs_le(a: int, b: int)
    requires
        b != 0,
    ensures
        -(if a < 0 { -a } else { a }) <= fdiv(a, b) <= (if a < 0 { -a } else { a }),
{
    let m = if a < 0 { -a } else { a };
    let d = if b > 0 { b } else { -b };
    let x = if b > 0 { a } else { -a };
    assert(fdiv(a, b) == x / d);
    lemma_fundamental_div_mod(x, d);
    lemma_mod_bound(x, d);
    assert(-m <= x / d <= m) by (nonlinear_arith)
        requires
            d >= 1,
            -m <= x <= m,
            x == d * (x / d) + (x % d),
            0 <= x % d < d,
    ;
}

/// A bound on the dividend gives the matching bound on the floor quotient:
/// `|a| <= m * b` implies `|fdiv(a, b)| <= m`.
pub proof fn lemma_fdiv_in_bound(a: int, b: int, m: int)
    requires
        b >= 1,
        0 <= m,
        -(m * b) <= a <= m * b,
    ensures
        -m <= fdiv(a, b) <= m,
{
    lemma_fundamental_div_mod(a, b);
    lemma_mod_bound(a, b);
    assert(-m <= a / b <= m) by (nonlinear_arith)
        requires
            b >= 1,
            0 <= m,
            -(m * b) <= a <= m * b,
            a == b * (a / b) + (a % b),
            0 <= a % b < b,
    ;
}

/// Relates the ceiling-style quotient `(m + n - 1) / n` on magnitudes to the
/// floor quotient of the negated dividend.
proof fn lemma_neg_ceil_div(m: int, n: int)
    requires
        m >= 1,
        n >= 1,
    ensures
        -((m + n - 1) / n) == (-m) / n,
{
    let q = m / n;
    let r = m % n;
    lemma_fundamental_div_mod(m, n);
    lemma_mod_bound(m, n);
    if r == 0 {
        assert(m + n - 1 == q * n + (n - 1)) by (nonlinear_arith)
            requires
                m == n * q + r,
                r == 0,
        ;
        lemma_fundamental_div_mod_converse_div(m + n - 1, n, q, n - 1);
        assert(-m == (-q) * n + 0) by (nonlinear_arith)
            requires
                m == n * q + r,
                r == 0,
        ;
        lemma_fundamental_div_mod_converse_div(-m, n, -q, 0);
    } else {
        assert(m + n - 1 == (q + 1) * n + (r - 1)) by (nonlinear_arith)
            requires
                m == n * q + r,
        ;
        lemma_fundamental_div_mod_converse_div(m + n - 1, n, q + 1, r - 1);
        assert(-m == (-q - 1) * n + (n - r)) by (nonlinear_arith)
            requires
                m == n * q + r,
        ;
        lemma_fundamental_div_mod_converse_div(-m, n, -q - 1, n - r);
    }
}

/// Full-width product of two `i64` scalars; never overflows an `i128`.
pub fn wide_mul(a: i64, b: i64) -> (r: i128)
    ensures
        r == a * b,
{
    proof {
        lemma_abs_mul_le(a as int, b as int, 0x8000000000000000, 0x8000000000000000);
    }
    (a as i128) * (b as i128)
}

/// Floor division on `i128` operands: rounds toward negative infinity,
/// matching [`fdiv`].
pub fn div_floor(a: i128, b: i128) -> (q: i128)
    requires
        b != 0,
        -0x40000000000000000000000000000000 <= a <= 0x40000000000000000000000000000000,
        -0x40000000000000000000000000000000 <= b <= 0x40000000000000000000000000000000,
    ensures
        q == fdiv(a as int, b as int),
{
    let (a2, b2): (i128, i128) = if b < 0 { (-a, -b) } else { (a, b) };
    assert(fdiv(a as int, b as int) == fdiv(a2 as int, b2 as int));
    if a2 >= 0 {
        a2 / b2
    } else {
        let m: u128 = (-a2) as u128;
        let n: u128 = b2 as u128;
        let qm: u128 = (m + n - 1) / n;
        proof {
            lemma_fundamental_div_mod((m + n - 1) as int, n as int);
            lemma_mod_bound((m + n - 1) as int, n as int);
            assert(qm <= m + n - 1) by (nonlinear_arith)
                requires
                    n >= 1,
                    m + n - 1 == n * (qm as int) + ((m + n - 1) as int % (n as int)),
                    0 <= (m + n - 1) as int % (n as int),
            ;
            lemma_neg_ceil_div(m as int, n as int);
        }
        -(qm as i128)
    }
}

/// Integer square root by bisection.
pub fn isqrt(n: u128) -> (r: u64)
    requires
        n < 0x1000000000000000000000000000000,
    ensures
        r * r <= n < (r + 1) * (r + 1),
        r == sqrt_floor(n as int),
{
    let mut lo: u64 = 0;
    let mut hi: u64 = 0x1000000000000000;
    while lo + 1 < hi
        invariant
            lo < hi <= 0x1000000000000000,
            lo * lo <= n,
            n < hi * hi,
        decreases hi - lo,
    {
        let mid: u64 = lo + (hi - lo) / 2;
        proof {
            lemma_abs_mul_le(mid as int, mid as int, 0x1000000000000000, 0x1000000000000000);
        }
        let m2: u128 = (mid as u128) * (mid as u128);
        if m2 <= n {
            lo = mid;
        } else {
            hi = mid;
        }
    }
    proof {
        lemma_sqrt_floor_unique(n as int, lo as int);
    }
    lo
}

} // verus!
