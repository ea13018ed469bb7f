//! Fixed-point 3D geometry.
//!
//! World coordinates are carried as `i64` values with [`SCALE`] sub-units
//! per world unit.  Every operation here is exact integer arithmetic, so
//! contracts can pin results down completely: squared distances are exact,
//! the square root is the integer floor, and the segment-to-sphere test is
//! evaluated without any rounding by cross-multiplying the rational
//! closest-approach distance.

use vstd::prelude::*;

verus! {

use vstd::arithmetic::div_mod::lemma_fundamental_div_mod_converse;
use vstd::arithmetic::div_mod::lemma_div_is_ordered;

/// Fixed-point sub-units per world unit.
pub const SCALE: i64 = 1000;

/// Largest magnitude allowed for an input coordinate (800 000 world units).
pub const COORD_LIMIT: i64 = 800_000_000;

/// Largest magnitude a derived point coordinate may reach: an input
/// coordinate plus the longest ray offset.
pub const POINT_LIMIT: i64 = 810_000_000;

/// Upper bound on any squared distance between two in-limit points:
/// `3 * (2 * POINT_LIMIT)^2` rounded up.
pub const SQ_LIMIT: i64 = 7_900_000_000_000_000_000;

/// A 3D vector in fixed-point world coordinates (or, for voxel
/// coordinates, whole cell indices).
#[derive(Clone, Copy, PartialEq, Eq, Structural, Debug)]
pub struct Vec3 {
    pub x: i64,
    pub y: i64,
    pub z: i64,
}

/// Every component of `v` has magnitude at most `m`.
pub open spec fn within(v: Vec3, m: i64) -> bool {
    -m <= v.x <= m && -m <= v.y <= m && -m <= v.z <= m
}

/// `v` is a valid input coordinate.
pub open spec fn in_bounds(v: Vec3) -> bool {
    within(v, COORD_LIMIT)
}

/// `d` can serve as a direction: each fixed-point component has magnitude
/// at most one world unit, as a unit vector does.
pub open spec fn dir_bounded(d: Vec3) -> bool {
    within(d, SCALE)
}

/// Exact squared distance between `a` and `b`.
pub open spec fn sq_dist(a: Vec3, b: Vec3) -> int {
    (a.x - b.x) * (a.x - b.x) + (a.y - b.y) * (a.y - b.y) + (a.z - b.z) * (a.z - b.z)
}

/// Exact dot product of the difference vectors `p - q` and `r - s`.
pub open spec fn dot_diff(p: Vec3, q: Vec3, r: Vec3, s: Vec3) -> int {
    (p.x - q.x) * (r.x - s.x) + (p.y - q.y) * (r.y - s.y) + (p.z - q.z) * (r.z - s.z)
}

pub proof fn lemma_square_bound(d: int, m: int)
    by (nonlinear_arith)
    requires
        -m <= d <= m,
        0 <= m,
    ensures
        0 <= d * d <= m * m,
{
}

pub proof fn lemma_mul_bound(a: int, b: int, ma: int, mb: int)
    by (nonlinear_arith)
    requires
        -ma <= a <= ma,
        -mb <= b <= mb,
        0 <= ma,
        0 <= mb,
    ensures
        -(ma * mb) <= a * b <= ma * mb,
{
}

/// Exact squared distance, computed in machine integers.
pub fn dist_sqr(a: Vec3, b: Vec3) -> (r: i64)
    requires
        within(a, POINT_LIMIT),
        within(b, POINT_LIMIT),
    ensures
        r == sq_dist(a, b),
        0 <= r <= SQ_LIMIT,
{
    let dx = a.x - b.x;
    let dy = a.y - b.y;
    let dz = a.z - b.z;
    proof {
        lemma_square_bound(dx as int, 1_620_000_000);
        lemma_square_bound(dy as int, 1_620_000_000);
        lemma_square_bound(dz as int, 1_620_000_000);
    }
    dx * dx + dy * dy + dz * dz
}

/// Exact dot product of `p - q` and `r - s`, computed in machine integers.
pub fn dot_diff_exec(p: Vec3, q: Vec3, r: Vec3, s: Vec3) -> (d: i64)
    requires
        within(p, POINT_LIMIT),
        within(q, POINT_LIMIT),
        within(r, POINT_LIMIT),
        within(s, POINT_LIMIT),
    ensures
        d == dot_diff(p, q, r, s),
        -SQ_LIMIT <= d <= SQ_LIMIT,
{
    let ax = p.x - q.x;
    let ay = p.y - q.y;
    let az = p.z - q.z;
    let bx = r.x - s.x;
    let by = r.y - s.y;
    let bz = r.z - s.z;
    proof {
        lemma_mul_bound(ax as int, bx as int, 1_620_000_000, 1_620_000_000);
        lemma_mul_bound(ay as int, by as int, 1_620_000_000, 1_620_000_000);
        lemma_mul_bound(az as int, bz as int, 1_620_000_000, 1_620_000_000);
    }
    ax * bx + ay * by + az * bz
}

/// The floor of the real square root of `n`, characterised exactly.
pub open spec fn is_sqrt_floor(n: int, r: int) -> bool {
    0 <= r && r * r <= n && n < (r + 1) * (r + 1)
}

/// The unique integer square root of `n`.
pub open spec fn sqrt_floor(n: int) -> int {
    choose|r: int| is_sqrt_floor(n, r)
}

pub proof fn lemma_sqrt_floor_unique(n: int, r1: int, r2: int)
    by (nonlinear_arith)
    requires
        is_sqrt_floor(n, r1),
        is_sqrt_floor(n, r2),
    ensures
        r1 == r2,
{
}

/// If some `r` satisfies `is_sqrt_floor(n, r)`, then `sqrt_floor(n)` is it.
pub proof fn lemma_sqrt_floor_is(n: int, r: int)
    requires
        is_sqrt_floor(n, r),
    ensures
        sqrt_floor(n) == r,
{
    let w = choose|w: int| is_sqrt_floor(n, w);
    lemma_sqrt_floor_unique(n, w, r);
}

/// Integer square root by bisection.
pub fn isqrt(n: u64) -> (r: u64)
    requires
        n <= 9_000_000_000_000_000_000,
    ensures
        is_sqrt_floor(n as int, r as int),
        sqrt_floor(n as int) == r,
        r <= 3_000_000_000,
{
    let mut lo: u64 = 0;
    let mut hi: u64 = 3_000_000_001;
    proof {
        lemma_square_bound(3_000_000_001, 3_000_000_001);
        assert(3_000_000_001int * 3_000_000_001int > 9_000_000_000_000_000_000int)
            by (nonlinear_arith);
    }
    while hi - lo > 1
        invariant
            lo < hi <= 3_000_000_001,
            n <= 9_000_000_000_000_000_000,
            lo * lo <= n,
            n < hi * hi,
        decreases hi - lo,
    {
        let mid = lo + (hi - lo) / 2;
        proof {
            lemma_square_bound(mid as int, 3_000_000_001);
        }
        if mid * mid <= n {
            lo = mid;
        } else {
            hi = mid;
        }
    }
    proof {
        assert(hi == lo + 1);
        lemma_sqrt_floor_is(n as int, lo as int);
    }
    lo
}

/// Floor division of `a` by [`SCALE`], exact also for negative `a`.
pub fn div_floor_milli(a: i64) -> (q: i64)
    requires
        -4_000_000_000_000_000_000 <= a <= 4_000_000_000_000_000_000,
    ensures
        q == a as int / 1000,
{
    if a >= 0 {
        let q = a / 1000;
        q
    } else {
        let b = -a;
        let q0 = (b + 999) / 1000;
        proof {
            let qi = a as int / 1000;
            let ri = a as int % 1000;
            vstd::arithmetic::div_mod::lemma_fundamental_div_mod(a as int, 1000);
            vstd::arithmetic::div_mod::lemma_mod_bound(a as int, 1000);
            lemma_fundamental_div_mod_converse((b + 999) as int, 1000, -qi, 999 - ri);
            lemma_div_is_ordered(0, (b + 999) as int, 1000);
            lemma_div_is_ordered((b + 999) as int, 8_000_000_000_000_000_000, 1000);
        }
        -q0
    }
}

/// `cam + dir * t / SCALE`, componentwise, in exact fixed point.
pub open spec fn point_at_spec(cam: Vec3, dir: Vec3, t: int) -> Vec3 {
    Vec3 {
        x: (cam.x + (dir.x * t) / 1000) as i64,
        y: (cam.y + (dir.y * t) / 1000) as i64,
        z: (cam.z + (dir.z * t) / 1000) as i64,
    }
}

/// One component of a ray offset: `d * t / SCALE` with floor division.
fn ray_offset(d: i64, t: i64) -> (r: i64)
    requires
        -1000 <= d <= 1000,
        -2_000_000 <= t <= 2_000_000,
    ensures
        r == (d * t) as int / 1000,
        -2_000_000 <= r <= 2_000_000,
{
    proof {
        lemma_mul_bound(d as int, t as int, 1000, 2_000_000);
    }
    let p = d * t;
    let r = div_floor_milli(p);
    proof {
        lemma_div_is_ordered(-2_000_000_000, p as int, 1000);
        lemma_div_is_ordered(p as int, 2_000_000_000, 1000);
        assert(-2_000_000_000int / 1000 == -2_000_000) by (nonlinear_arith);
        assert(2_000_000_000int / 1000 == 2_000_000) by (nonlinear_arith);
    }
    r
}

/// The point a distance `t` (fixed point) along the ray from `cam` in
/// direction `dir`.
pub fn point_at(cam: Vec3, dir: Vec3, t: i64) -> (p: Vec3)
    requires
        in_bounds(cam),
        dir_bounded(dir),
        -2_000_000 <= t <= 2_000_000,
    ensures
        p == point_at_spec(cam, dir, t as int),
        within(p, POINT_LIMIT),
{
    let ox = ray_offset(dir.x, t);
    let oy = ray_offset(dir.y, t);
    let oz = ray_offset(dir.z, t);
    Vec3 { x: cam.x + ox, y: cam.y + oy, z: cam.z + oz }
}

/// The voxel cell containing a fixed-point world point.
pub open spec fn voxel_of_spec(p: Vec3) -> Vec3 {
    Vec3 { x: (p.x as int / 1000) as i64, y: (p.y as int / 1000) as i64, z: (p.z as int / 1000) as i64 }
}

/// Floors each fixed-point component down to its voxel index.
pub fn voxel_of(p: Vec3) -> (v: Vec3)
    requires
        within(p, POINT_LIMIT),
    ensures
        v == voxel_of_spec(p),
{
    Vec3 { x: div_floor_milli(p.x), y: div_floor_milli(p.y), z: div_floor_milli(p.z) }
}

/// Whether the sphere of radius `r` around `c` comes strictly closer than
/// `r` to the segment from `a` to `b`.
///
/// The closest point of the segment to `c` is `a + clamp(uv / vv, 0, 1) * (b - a)`
/// where `uv = (c - a) . (b - a)` and `vv = |b - a|^2`; the three branches
/// compare the exact squared distance to `r^2`, cross-multiplied by `vv` in
/// the interior case so that no division is needed.
pub open spec fn seg_sphere_hit(a: Vec3, b: Vec3, c: Vec3, r: int) -> bool {
    let uv = dot_diff(c, a, b, a);
    let vv = sq_dist(b, a);
    let uu = sq_dist(c, a);
    if uv <= 0 {
        uu < r * r
    } else if uv >= vv {
        sq_dist(c, b) < r * r
    } else {
        uu * vv - uv * uv < r * r * vv
    }
}

/// Exact segment-to-sphere intersection test.
pub fn seg_sphere_hit_exec(a: Vec3, b: Vec3, c: Vec3, r: i64) -> (hit: bool)
    requires
        within(a, POINT_LIMIT),
        within(b, POINT_LIMIT),
        within(c, POINT_LIMIT),
        0 <= r <= 10_000_000,
    ensures
        hit == seg_sphere_hit(a, b, c, r as int),
{
    let uv = dot_diff_exec(c, a, b, a);
    let vv = dist_sqr(b, a);
    let uu = dist_sqr(c, a);
    if uv <= 0 {
        proof {
            lemma_square_bound(r as int, 10_000_000);
        }
        uu < r * r
    } else if uv >= vv {
        let db = dist_sqr(c, b);
        proof {
            lemma_square_bound(r as int, 10_000_000);
        }
        db < r * r
    } else {
        proof {
            lemma_mul_bound(uu as int, vv as int, SQ_LIMIT as int, SQ_LIMIT as int);
            lemma_mul_bound(uv as int, uv as int, SQ_LIMIT as int, SQ_LIMIT as int);
            lemma_square_bound(r as int, 10_000_000);
            lemma_mul_bound((r * r) as int, vv as int, 100_000_000_000_000, SQ_LIMIT as int);
        }
        let lhs: i128 = (uu as i128) * (vv as i128) - (uv as i128) * (uv as i128);
        let rhs: i128 = ((r * r) as i128) * (vv as i128);
        lhs < rhs
    }
}

} // verus!
