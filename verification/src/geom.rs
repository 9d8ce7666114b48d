//! Toroidal plane geometry: positions wrap at the world's half-extents,
//! and directions and distances take the shorter way around.

use vstd::prelude::*;
use crate::fixed::{div_tz, sqrt_floor, lemma_sqrt_floor_unique, lemma_sqrt_floor_monotonic,
    lemma_sqrt_floor_bracket, lemma_div_tz_bound, lemma_div_tz_magnitude, isqrt};

verus! {

/// A point or vector on the plane, in milli-units.
#[derive(Clone, Copy, PartialEq, Eq, Structural, Debug)]
pub struct Vec2m {
    pub x: i64,
    pub y: i64,
}

/// Wraps a coordinate into the band of half-extent `half`: a coordinate
/// beyond `half` re-enters at `-half`, one below `-half` re-enters at `half`.
pub open spec fn wrap_coord_spec(c: int, half: int) -> int {
    if c > half {
        -half
    } else if c < -half {
        half
    } else {
        c
    }
}

/// The shorter way from `from` to `to` along one axis of a torus whose
/// extent is `2 * half`.
pub open spec fn dir_coord_spec(from: int, to: int, half: int) -> int {
    let d = to - from;
    if d > half {
        d - 2 * half
    } else if d < -half {
        d + 2 * half
    } else {
        d
    }
}

/// The squared length of a vector.
pub open spec fn len2_spec(x: int, y: int) -> int {
    x * x + y * y
}

/// The length of a vector, rounded down.
pub open spec fn length_spec(x: int, y: int) -> int {
    sqrt_floor(len2_spec(x, y) as nat) as int
}

/// The wrap-aware displacement vector between two points.
pub open spec fn wrapped_direction_spec(from: Vec2m, to: Vec2m, half_w: int, half_h: int) -> (
    int,
    int,
) {
    (dir_coord_spec(from.x as int, to.x as int, half_w), dir_coord_spec(
        from.y as int,
        to.y as int,
        half_h,
    ))
}

/// The wrap-aware distance between two points.
pub open spec fn wrapped_distance_spec(from: Vec2m, to: Vec2m, half_w: int, half_h: int) -> int {
    let (dx, dy) = wrapped_direction_spec(from, to, half_w, half_h);
    sqrt_floor(len2_spec(dx, dy) as nat) as int
}

/// A vector rescaled to magnitude `s` (a zero vector stays zero); each
/// component is the exact truncating quotient `c * s / length`.
pub open spec fn unit_scaled_spec(x: int, y: int, s: int) -> (int, int) {
    let l = length_spec(x, y);
    if l == 0 {
        (0, 0)
    } else {
        (div_tz(x * s, l), div_tz(y * s, l))
    }
}

/// Exponential smoothing by one tenth: the value moves a tenth of the way
/// from `a` to `b`, truncating toward zero.
pub open spec fn lerp10_spec(a: int, b: int) -> int {
    a + div_tz(b - a, 10)
}

/// Toroidal wrap of one coordinate.
pub fn wrap_coord(c: i64, half: i64) -> (r: i64)
    requires
        0 <= half <= 0x4000_0000,
        -0x4000_0000_0000 <= c <= 0x4000_0000_0000,
    ensures
        r == wrap_coord_spec(c as int, half as int),
        -half <= r <= half,
{
    if c > half {
        -half
    } else if c < -half {
        half
    } else {
        c
    }
}

/// Wraps a position into the world band, per axis.
pub fn wrap_position(p: &mut Vec2m, half_w: i64, half_h: i64)
    requires
        0 <= half_w <= 0x4000_0000,
        0 <= half_h <= 0x4000_0000,
        -0x4000_0000_0000 <= old(p).x <= 0x4000_0000_0000,
        -0x4000_0000_0000 <= old(p).y <= 0x4000_0000_0000,
    ensures
        final(p).x == wrap_coord_spec(old(p).x as int, half_w as int),
        final(p).y == wrap_coord_spec(old(p).y as int, half_h as int),
        -half_w <= final(p).x <= half_w,
        -half_h <= final(p).y <= half_h,
{
    p.x = wrap_coord(p.x, half_w);
    p.y = wrap_coord(p.y, half_h);
}

/// Toroidal shortest displacement along one axis.
pub fn dir_coord(from: i64, to: i64, half: i64) -> (r: i64)
    requires
        0 <= half <= 0x4000_0000,
        -half <= from <= half,
        -half <= to <= half,
    ensures
        r == dir_coord_spec(from as int, to as int, half as int),
        -half <= r <= half,
{
    let d: i64 = to - from;
    if d > half {
        d - 2 * half
    } else if d < -half {
        d + 2 * half
    } else {
        d
    }
}

/// The shortest vector from `from` to `to` on the torus, accounting for
/// wrapping at the world boundaries.
pub fn wrapped_direction(from: Vec2m, to: Vec2m, half_w: i64, half_h: i64) -> (r: Vec2m)
    requires
        0 <= half_w <= 0x4000_0000,
        0 <= half_h <= 0x4000_0000,
        -half_w <= from.x <= half_w,
        -half_h <= from.y <= half_h,
        -half_w <= to.x <= half_w,
        -half_h <= to.y <= half_h,
    ensures
        (r.x as int, r.y as int) == wrapped_direction_spec(from, to, half_w as int, half_h as int),
        -half_w <= r.x <= half_w,
        -half_h <= r.y <= half_h,
{
    Vec2m { x: dir_coord(from.x, to.x, half_w), y: dir_coord(from.y, to.y, half_h) }
}

/// The length of a vector, rounded down.
pub fn length(x: i64, y: i64) -> (r: i64)
    requires
        -0x7000_0000 <= x <= 0x7000_0000,
        -0x7000_0000 <= y <= 0x7000_0000,
    ensures
        r == length_spec(x as int, y as int),
        0 <= r <= 0x1_0000_0000,
{
    proof {
        assert(0 <= x * x <= 0x7000_0000 * 0x7000_0000 && 0 <= y * y <= 0x7000_0000
            * 0x7000_0000) by (nonlinear_arith)
            requires
                -0x7000_0000 <= x <= 0x7000_0000,
                -0x7000_0000 <= y <= 0x7000_0000,
        ;
    }
    let sq: u64 = (x * x) as u64 + (y * y) as u64;
    proof {
        lemma_sqrt_floor_monotonic(sq as nat, 0xffff_ffff_ffff_ffffnat);
        assert(sqrt_floor(0xffff_ffff_ffff_ffffnat) == 0xffff_ffffnat) by {
            assert(0xffff_ffffnat * 0xffff_ffffnat <= 0xffff_ffff_ffff_ffffnat
                < 0x1_0000_0000nat * 0x1_0000_0000nat) by (nonlinear_arith);
            lemma_sqrt_floor_unique(0xffff_ffff_ffff_ffffnat, 0xffff_ffffnat);
        }
    }
    let r = isqrt(sq);
    r as i64
}

/// The shortest distance between two points on the torus.
pub fn wrapped_distance(from: Vec2m, to: Vec2m, half_w: i64, half_h: i64) -> (r: i64)
    requires
        0 <= half_w <= 0x4000_0000,
        0 <= half_h <= 0x4000_0000,
        -half_w <= from.x <= half_w,
        -half_h <= from.y <= half_h,
        -half_w <= to.x <= half_w,
        -half_h <= to.y <= half_h,
    ensures
        r == wrapped_distance_spec(from, to, half_w as int, half_h as int),
        0 <= r <= 0x1_0000_0000,
{
    let d = wrapped_direction(from, to, half_w, half_h);
    length(d.x, d.y)
}

/// Whether two points lie strictly within a given wrap-aware distance,
/// decided on squared distances so no square root is taken.
pub fn within_range(a: Vec2m, b: Vec2m, r: i64, half_w: i64, half_h: i64) -> (res: bool)
    requires
        0 <= half_w <= 0x4000_0000,
        0 <= half_h <= 0x4000_0000,
        -half_w <= a.x <= half_w,
        -half_h <= a.y <= half_h,
        -half_w <= b.x <= half_w,
        -half_h <= b.y <= half_h,
        0 <= r <= 2_000_000_000,
    ensures
        res == (wrapped_distance_spec(a, b, half_w as int, half_h as int) < r),
{
    let d = wrapped_direction(a, b, half_w, half_h);
    proof {
        assert(0 <= d.x * d.x <= 0x4000_0000 * 0x4000_0000 && 0 <= d.y * d.y <= 0x4000_0000
            * 0x4000_0000 && 0 <= (r as int) * r <= 2_000_000_000 * 2_000_000_000)
            by (nonlinear_arith)
            requires
                -0x4000_0000 <= d.x <= 0x4000_0000,
                -0x4000_0000 <= d.y <= 0x4000_0000,
                0 <= r <= 2_000_000_000,
        ;
        crate::fixed::lemma_sqrt_floor_below(
            (d.x * d.x + d.y * d.y) as nat,
            r as nat,
        );
    }
    let sq: u64 = (d.x * d.x) as u64 + (d.y * d.y) as u64;
    sq < (r * r) as u64
}

/// A component never exceeds the vector's length.
pub proof fn lemma_component_le_length(x: int, y: int)
    ensures
        length_spec(x, y) >= 0,
        -length_spec(x, y) <= x <= length_spec(x, y),
        -length_spec(x, y) <= y <= length_spec(x, y),
{
    let m = if x >= 0 {
        x
    } else {
        -x
    };
    let n = if y >= 0 {
        y
    } else {
        -y
    };
    assert(m * m == x * x && n * n == y * y && m * m >= 0 && n * n >= 0) by (nonlinear_arith)
        requires
            m == if x >= 0 { x } else { -x },
            n == if y >= 0 { y } else { -y },
    ;
    assert(m * m < (m + 1) * (m + 1) && n * n < (n + 1) * (n + 1)) by (nonlinear_arith)
        requires
            m >= 0,
            n >= 0,
    ;
    lemma_sqrt_floor_unique((m * m) as nat, m as nat);
    lemma_sqrt_floor_monotonic((m * m) as nat, (x * x + y * y) as nat);
    lemma_sqrt_floor_unique((n * n) as nat, n as nat);
    lemma_sqrt_floor_monotonic((n * n) as nat, (x * x + y * y) as nat);
}

/// A vector rescaled to magnitude `s`; components stay within `s`.
pub fn unit_scaled(x: i64, y: i64, s: i64) -> (r: (i64, i64))
    requires
        -0x7000_0000 <= x <= 0x7000_0000,
        -0x7000_0000 <= y <= 0x7000_0000,
        0 <= s <= 1_000_000,
    ensures
        (r.0 as int, r.1 as int) == unit_scaled_spec(x as int, y as int, s as int),
        -s <= r.0 <= s,
        -s <= r.1 <= s,
{
    let l = length(x, y);
    if l == 0 {
        (0, 0)
    } else {
        proof {
            lemma_component_le_length(x as int, y as int);
            assert(-(s * l) <= x * s <= s * l && -(s * l) <= y * s <= s * l)
                by (nonlinear_arith)
                requires
                    s >= 0,
                    -l <= x <= l,
                    -l <= y <= l,
            ;
            lemma_div_tz_bound((x * s) as int, l as int, s as int);
            lemma_div_tz_bound((y * s) as int, l as int, s as int);
            assert(s * l <= 1_000_000 * 0x1_0000_0000) by (nonlinear_arith)
                requires
                    0 <= s <= 1_000_000,
                    0 <= l <= 0x1_0000_0000,
            ;
        }
        let rx = crate::fixed::div_fx(x * s, l);
        let ry = crate::fixed::div_fx(y * s, l);
        (rx, ry)
    }
}

/// Exponential smoothing by one tenth; the result stays between the
/// endpoints.
pub fn lerp10(a: i64, b: i64) -> (r: i64)
    requires
        -0x1000_0000_0000 <= a <= 0x1000_0000_0000,
        -0x1000_0000_0000 <= b <= 0x1000_0000_0000,
    ensures
        r == lerp10_spec(a as int, b as int),
        a <= b ==> a <= r <= b,
        b <= a ==> b <= r <= a,
{
    proof {
        lemma_div_tz_magnitude(b - a, 10);
    }
    a + crate::fixed::div_fx(b - a, 10)
}

/// Wrapping is idempotent, and a wrapped coordinate always lies within the
/// half-extents.
pub proof fn lemma_wrap_idempotent(c: int, half: int)
    requires
        half >= 0,
    ensures
        wrap_coord_spec(wrap_coord_spec(c, half), half) == wrap_coord_spec(c, half),
        -half <= wrap_coord_spec(c, half) <= half,
{
}

/// Reversing the endpoints negates the wrap-aware displacement, per axis.
pub proof fn lemma_dir_coord_antisymmetric(a: int, b: int, half: int)
    requires
        half >= 0,
        -half <= a <= half,
        -half <= b <= half,
    ensures
        dir_coord_spec(b, a, half) == -dir_coord_spec(a, b, half),
{
}

/// The wrap-aware distance is symmetric in its endpoints.
pub proof fn lemma_wrapped_distance_symmetric(a: Vec2m, b: Vec2m, half_w: int, half_h: int)
    requires
        half_w >= 0,
        half_h >= 0,
        -half_w <= a.x <= half_w,
        -half_h <= a.y <= half_h,
        -half_w <= b.x <= half_w,
        -half_h <= b.y <= half_h,
    ensures
        wrapped_distance_spec(a, b, half_w, half_h) == wrapped_distance_spec(b, a, half_w, half_h),
{
    lemma_dir_coord_antisymmetric(a.x as int, b.x as int, half_w);
    lemma_dir_coord_antisymmetric(a.y as int, b.y as int, half_h);
    let dx = dir_coord_spec(a.x as int, b.x as int, half_w);
    let dy = dir_coord_spec(a.y as int, b.y as int, half_h);
    assert((-dx) * (-dx) == dx * dx && (-dy) * (-dy) == dy * dy) by (nonlinear_arith);
}

} // verus!
