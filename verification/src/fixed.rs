//! Fixed-point scalars and vectors.
//!
//! A coordinate, a speed or a direction component is an `i32` counting
//! 1/256ths: `ONE` stands for one pixel, or for the length of a unit
//! direction.  Products of two such values are brought back to scale by
//! dividing by `ONE`, always rounding toward zero so that mirrored inputs
//! give mirrored results.

use vstd::prelude::*;

verus! {

/// The fixed-point representation of 1.
pub const ONE: i32 = 256;

/// A point or an extent in fixed-point world units.
#[derive(Clone, Copy, Debug, PartialEq, Eq, Structural)]
pub struct Vec2 {
    pub x: i32,
    pub y: i32,
}

/// A value that can be negated without leaving `i32`.
pub open spec fn negatable(v: i32) -> bool {
    v > i32::MIN
}

/// Whether `v` can be stored as a coordinate.
pub open spec fn in_coord_range(v: int) -> bool {
    i32::MIN <= v <= i32::MAX
}

/// `v` pulled into the coordinate range.
pub open spec fn clamp_coord(v: int) -> int {
    if v < i32::MIN {
        i32::MIN as int
    } else if v > i32::MAX {
        i32::MAX as int
    } else {
        v
    }
}

/// Division by a positive `b` that rounds toward zero.
pub open spec fn trunc_div(a: int, b: int) -> int {
    if a >= 0 {
        a / b
    } else {
        -((-a) / b)
    }
}

/// The fixed-point product of `a` and `b`.
pub open spec fn fx_mul(a: int, b: int) -> int {
    trunc_div(a * b, ONE as int)
}

/// Squared Euclidean distance between two points.
pub open spec fn dist_sq(a: Vec2, b: Vec2) -> int {
    (a.x - b.x) * (a.x - b.x) + (a.y - b.y) * (a.y - b.y)
}

/// `r` is the integer square root of `n`: the largest `r` with `r * r <= n`.
pub open spec fn is_sqrt(n: int, r: int) -> bool {
    0 <= r && r * r <= n < (r + 1) * (r + 1)
}

/// The integer square root of `n` (0 for negative `n`).
pub open spec fn int_sqrt(n: int) -> int
    decreases n,
{
    if n <= 0 {
        0
    } else {
        let r = int_sqrt(n - 1);
        if (r + 1) * (r + 1) <= n {
            r + 1
        } else {
            r
        }
    }
}

/// `int_sqrt` meets its defining inequality.
pub proof fn lemma_int_sqrt(n: int)
    requires
        0 <= n,
    ensures
        is_sqrt(n, int_sqrt(n)),
    decreases n,
{
    if n > 0 {
        lemma_int_sqrt(n - 1);
        let r = int_sqrt(n - 1);
        assert((r + 2) * (r + 2) > (r + 1) * (r + 1)) by (nonlinear_arith)
            requires
                0 <= r,
        ;
    }
}

/// Squaring is strictly monotonic on the non-negative integers.
pub proof fn lemma_square_lt(a: int, b: int)
    requires
        0 <= a,
        0 <= b,
        a * a < b * b,
    ensures
        a < b,
{
    if a >= b {
        assert(a * a >= b * b) by (nonlinear_arith)
            requires
                0 <= b <= a,
        ;
    }
}

/// The integer square root is unique.
pub proof fn lemma_sqrt_unique(n: int, r: int)
    requires
        is_sqrt(n, r),
    ensures
        r == int_sqrt(n),
{
    lemma_int_sqrt(n);
    let s = int_sqrt(n);
    lemma_square_lt(r, s + 1);
    lemma_square_lt(s, r + 1);
}

/// One component of the unit vector along a displacement of length `len`.
pub open spec fn unit_component(d: int, len: int) -> int {
    if len <= 0 {
        0
    } else {
        trunc_div(d * ONE, len)
    }
}

/// The fixed-point unit vector pointing from `from` toward `to`, or the
/// zero vector when the two points coincide.
pub open spec fn spec_direction(from: Vec2, to: Vec2) -> Vec2 {
    let dx = to.x - from.x;
    let dy = to.y - from.y;
    let len = int_sqrt(dx * dx + dy * dy);
    Vec2 { x: unit_component(dx, len) as i32, y: unit_component(dy, len) as i32 }
}

/// Computes the squared distance between `a` and `b`.
pub fn distance_sq(a: Vec2, b: Vec2) -> (r: u128)
    ensures
        r == dist_sq(a, b),
{
    let dx: i128 = a.x as i128 - b.x as i128;
    let dy: i128 = a.y as i128 - b.y as i128;
    assert(0 <= dx * dx <= 0x1_0000_0000_0000_0000) by (nonlinear_arith)
        requires
            -0x1_0000_0000 <= dx <= 0x1_0000_0000,
    ;
    assert(0 <= dy * dy <= 0x1_0000_0000_0000_0000) by (nonlinear_arith)
        requires
            -0x1_0000_0000 <= dy <= 0x1_0000_0000,
    ;
    (dx * dx + dy * dy) as u128
}

/// Computes the integer square root of `n` by bisection.
pub fn isqrt(n: u128) -> (r: u64)
    ensures
        r == int_sqrt(n as int),
        is_sqrt(n as int, r as int),
{
    let mut lo: u128 = 0;
    let mut hi: u128 = 0x1_0000_0000_0000_0000;
    assert(hi * hi > n) by (nonlinear_arith)
        requires
            hi == 0x1_0000_0000_0000_0000,
            n <= u128::MAX,
    ;
    while hi - lo > 1
        invariant
            lo < hi <= 0x1_0000_0000_0000_0000,
            lo * lo <= n < hi * hi,
        decreases hi - lo,
    {
        let mid: u128 = lo + (hi - lo) / 2;
        assert(mid * mid <= u128::MAX) by (nonlinear_arith)
            requires
                0 <= mid <= 0xFFFF_FFFF_FFFF_FFFF,
        ;
        if mid * mid <= n {
            lo = mid;
        } else {
            hi = mid;
        }
    }
    proof {
        lemma_sqrt_unique(n as int, lo as int);
    }
    lo as u64
}

/// Pulls `v` into the coordinate range.
pub fn clamp_to_coord(v: i128) -> (c: i32)
    ensures
        c == clamp_coord(v as int),
{
    if v < -2147483648 {
        -2147483648
    } else if v > 2147483647 {
        2147483647
    } else {
        v as i32
    }
}

/// Divides the signed `a` by the positive `b`, rounding toward zero.  The
/// one dividend that has no negative is left out.
pub fn div_toward_zero(a: i128, b: u128) -> (q: i128)
    requires
        b > 0,
        a > i128::MIN,
    ensures
        q == trunc_div(a as int, b as int),
        a >= 0 ==> 0 <= q <= a,
        a <= 0 ==> a <= q <= 0,
{
    if a >= 0 {
        let m: u128 = a as u128;
        let q: u128 = m / b;
        assert(q <= m) by (nonlinear_arith)
            requires
                q == m / b,
                b > 0,
        ;
        q as i128
    } else {
        let m: u128 = (-a) as u128;
        let q: u128 = m / b;
        assert(q <= m) by (nonlinear_arith)
            requires
                q == m / b,
                b > 0,
        ;
        -(q as i128)
    }
}

/// Multiplies two fixed-point values.
pub fn scale(a: i32, b: i32) -> (r: i64)
    ensures
        r == fx_mul(a as int, b as int),
{
    assert(-0x4000_0000_0000_0000 <= a * b <= 0x4000_0000_0000_0000) by (nonlinear_arith)
        requires
            -0x8000_0000 <= a <= 0x7FFF_FFFF,
            -0x8000_0000 <= b <= 0x7FFF_FFFF,
    ;
    let p: i128 = a as i128 * b as i128;
    let q = div_toward_zero(p, 256);
    q as i64
}

/// Computes the unit vector from `from` toward `to`.
pub fn direction(from: Vec2, to: Vec2) -> (d: Vec2)
    ensures
        d == spec_direction(from, to),
        -ONE <= d.x <= ONE,
        -ONE <= d.y <= ONE,
{
    let dx: i128 = to.x as i128 - from.x as i128;
    let dy: i128 = to.y as i128 - from.y as i128;
    assert(0 <= dx * dx <= 0x1_0000_0000_0000_0000) by (nonlinear_arith)
        requires
            -0x1_0000_0000 <= dx <= 0x1_0000_0000,
    ;
    assert(0 <= dy * dy <= 0x1_0000_0000_0000_0000) by (nonlinear_arith)
        requires
            -0x1_0000_0000 <= dy <= 0x1_0000_0000,
    ;
    let len = isqrt((dx * dx + dy * dy) as u128);
    if len == 0 {
        return Vec2 { x: 0, y: 0 };
    }
    proof {
        lemma_component_within_length(dx as int, dy as int, len as int);
        lemma_component_within_length(dy as int, dx as int, len as int);
    }
    let ux = div_toward_zero(dx * 256, len as u128);
    let uy = div_toward_zero(dy * 256, len as u128);
    proof {
        lemma_unit_bound(dx as int, len as int);
        lemma_unit_bound(dy as int, len as int);
    }
    Vec2 { x: ux as i32, y: uy as i32 }
}

/// A displacement's component is no longer than the displacement itself.
proof fn lemma_component_within_length(a: int, b: int, len: int)
    requires
        is_sqrt(a * a + b * b, len),
    ensures
        -len <= a <= len,
{
    assert(b * b >= 0) by (nonlinear_arith);
    if a >= 0 {
        lemma_square_lt(a, len + 1);
    } else {
        assert((-a) * (-a) == a * a) by (nonlinear_arith);
        lemma_square_lt(-a, len + 1);
    }
}

/// Scaling a component by `ONE` and dividing by the length stays within `ONE`.
proof fn lemma_unit_bound(d: int, len: int)
    requires
        len > 0,
        -len <= d <= len,
    ensures
        -ONE <= trunc_div(d * ONE, len) <= ONE,
{
    if d >= 0 {
        assert((d * 256) / len <= 256) by (nonlinear_arith)
            requires
                0 <= d <= len,
                len > 0,
        ;
        assert((d * 256) / len >= 0) by (nonlinear_arith)
            requires
                0 <= d,
                len > 0,
        ;
    } else {
        assert(((-(d * 256))) / len <= 256) by (nonlinear_arith)
            requires
                0 <= -d <= len,
                len > 0,
        ;
        assert(((-(d * 256))) / len >= 0) by (nonlinear_arith)
            requires
                0 <= -d,
                len > 0,
        ;
    }
}

} // verus!
