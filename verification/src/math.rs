//! Spatial primitives on fixed-point (milli-unit) coordinates: vectors,
//! integer square root, direction normalization and ray-sphere intersection.

use vstd::prelude::*;

verus! {

/// One world unit in fixed-point milli-units.
pub const MILLI: i64 = 1000;

/// Largest coordinate magnitude the world admits (100 000 world units).
pub const COORD_MAX: i64 = 100_000_000;

/// Largest magnitude accepted for a raw direction component (1000 world units).
pub const DIR_MAX: i64 = 1_000_000;

/// Largest collider radius (1000 world units).
pub const RADIUS_MAX: i64 = 1_000_000;

#[derive(Clone, Copy, PartialEq, Eq, Structural, Debug)]
pub struct Vec3 {
    pub x: i64,
    pub y: i64,
    pub z: i64,
}

/// A point that lies inside the world's coordinate bounds.
pub open spec fn in_world(v: Vec3) -> bool {
    &&& -COORD_MAX <= v.x <= COORD_MAX
    &&& -COORD_MAX <= v.y <= COORD_MAX
    &&& -COORD_MAX <= v.z <= COORD_MAX
}

/// A direction whose components fit the raw-direction bound.
pub open spec fn dir_bounded(v: Vec3) -> bool {
    &&& -DIR_MAX <= v.x <= DIR_MAX
    &&& -DIR_MAX <= v.y <= DIR_MAX
    &&& -DIR_MAX <= v.z <= DIR_MAX
}

/// A direction with components no larger than one unit (normalized).
pub open spec fn unit_bounded(v: Vec3) -> bool {
    &&& -MILLI <= v.x <= MILLI
    &&& -MILLI <= v.y <= MILLI
    &&& -MILLI <= v.z <= MILLI
}

pub open spec fn dot(a: Vec3, b: Vec3) -> int {
    a.x * b.x + a.y * b.y + a.z * b.z
}

/// Truncating (round-toward-zero) division by a positive divisor, as the
/// executable code computes it.
pub open spec fn tdiv(a: int, b: int) -> int {
    if a >= 0 {
        a / b
    } else {
        -((-a) / b)
    }
}

/// `r` is the floor of the square root of `n`.
pub open spec fn is_sqrt_floor(n: int, r: int) -> bool {
    0 <= r && r * r <= n && n < (r + 1) * (r + 1)
}

pub open spec fn sqrt_floor(n: int) -> int {
    choose|r: int| is_sqrt_floor(n, r)
}

pub proof fn lemma_sqrt_floor_is(n: int, r: int)
    requires
        is_sqrt_floor(n, r),
    ensures
        sqrt_floor(n) == r,
{
    assert(is_sqrt_floor(n, sqrt_floor(n)));
    let q = sqrt_floor(n);
    if q < r {
        assert((q + 1) * (q + 1) <= r * r) by (nonlinear_arith)
            requires
                0 <= q,
                q < r;
    }
    if r < q {
        assert((r + 1) * (r + 1) <= q * q) by (nonlinear_arith)
            requires
                0 <= r,
                r < q;
    }
}

/// Floor of the integer square root, by binary search.
pub fn isqrt(n: u64) -> (r: u64)
    requires
        n < 0x4000_0000_0000_0000,
    ensures
        is_sqrt_floor(n as int, r as int),
        r as int == sqrt_floor(n as int),
        r <= 0x8000_0000u64,
{
    let mut lo: u64 = 0;
    let mut hi: u64 = 0x8000_0000;
    while lo + 1 < hi
        invariant
            lo < hi <= 0x8000_0000u64,
            (lo as int) * (lo as int) <= n as int,
            (n as int) < (hi as int) * (hi as int),
        decreases hi - lo,
    {
        let mid: u64 = lo + (hi - lo) / 2;
        assert((mid as int) * (mid as int) < 0x4000_0000_0000_0000) by (nonlinear_arith)
            requires
                0 <= (mid as int) && (mid as int) < 0x8000_0000;
        if mid * mid <= n {
            lo = mid;
        } else {
            hi = mid;
        }
    }
    proof {
        lemma_sqrt_floor_is(n as int, lo as int);
    }
    lo
}

/// Truncating division of a signed value by a positive divisor.
pub fn div_trunc(a: i64, b: i64) -> (q: i64)
    requires
        b > 0,
        a > i64::MIN,
    ensures
        q as int == tdiv(a as int, b as int),
{
    if a >= 0 {
        ((a as u64) / (b as u64)) as i64
    } else {
        proof {
            vstd::arithmetic::div_mod::lemma_div_pos_is_pos((-a) as int, b as int);
            vstd::arithmetic::div_mod::lemma_div_is_ordered_by_denominator((-a) as int, 1, b as int);
        }
        -((((-a) as u64) / (b as u64)) as i64)
    }
}

/// Truncating division of the product `a * b` by a positive divisor.
pub fn mul_div_trunc(a: i64, b: i64, d: i64) -> (q: i64)
    requires
        d > 0,
        b >= 0,
        i64::MIN < (a as int) * (b as int) <= i64::MAX,
    ensures
        q as int == tdiv((a as int) * (b as int), d as int),
{
    let p: i64 = a * b;
    div_trunc(p, d)
}

/// The quotient of a value bounded by `c * d` is bounded by `c`.
pub proof fn lemma_tdiv_bound(a: int, d: int, c: int)
    requires
        d > 0,
        c >= 0,
        -(c * d) <= a <= c * d,
    ensures
        -c <= tdiv(a, d) <= c,
{
    if a >= 0 {
        vstd::arithmetic::div_mod::lemma_div_pos_is_pos(a, d);
        vstd::arithmetic::div_mod::lemma_div_is_ordered(a, c * d, d);
        vstd::arithmetic::div_mod::lemma_div_by_multiple(c, d);
    } else {
        vstd::arithmetic::div_mod::lemma_div_pos_is_pos(-a, d);
        vstd::arithmetic::div_mod::lemma_div_is_ordered(-a, c * d, d);
        vstd::arithmetic::div_mod::lemma_div_by_multiple(c, d);
    }
}

/// No component of a vector exceeds the floor square root of its squared norm.
pub proof fn lemma_component_le_sqrt(x: int, n: int, m: int)
    requires
        x * x <= n,
        is_sqrt_floor(n, m),
    ensures
        -m <= x <= m,
{
    if x > m {
        assert((m + 1) * (m + 1) <= x * x) by (nonlinear_arith)
            requires
                0 <= m,
                m < x;
    }
    if x < -m {
        assert((m + 1) * (m + 1) <= x * x) by (nonlinear_arith)
            requires
                0 <= m,
                x < -m;
    }
}

/// The normalized form of a direction: each component scaled by
/// `MILLI / |d|`, with the zero vector mapped to itself.
pub open spec fn norm_spec(d: Vec3) -> Vec3 {
    let m = sqrt_floor(dot(d, d));
    if m == 0 {
        Vec3 { x: 0, y: 0, z: 0 }
    } else {
        Vec3 {
            x: tdiv(d.x * (MILLI as int), m) as i64,
            y: tdiv(d.y * (MILLI as int), m) as i64,
            z: tdiv(d.z * (MILLI as int), m) as i64,
        }
    }
}

/// Dot product of two vectors with bounded components.
pub fn dotp(a: Vec3, b: Vec3) -> (r: i64)
    requires
        -200_000_000 <= a.x <= 200_000_000,
        -200_000_000 <= a.y <= 200_000_000,
        -200_000_000 <= a.z <= 200_000_000,
        -200_000_000 <= b.x <= 200_000_000,
        -200_000_000 <= b.y <= 200_000_000,
        -200_000_000 <= b.z <= 200_000_000,
    ensures
        r as int == dot(a, b),
        -120_000_000_000_000_000 <= r as int <= 120_000_000_000_000_000,
{
    proof {
        assert(-40_000_000_000_000_000 <= (a.x as int) * (b.x as int) <= 40_000_000_000_000_000)
            by (nonlinear_arith)
            requires
                -200_000_000 <= a.x as int <= 200_000_000,
                -200_000_000 <= b.x as int <= 200_000_000;
        assert(-40_000_000_000_000_000 <= (a.y as int) * (b.y as int) <= 40_000_000_000_000_000)
            by (nonlinear_arith)
            requires
                -200_000_000 <= a.y as int <= 200_000_000,
                -200_000_000 <= b.y as int <= 200_000_000;
        assert(-40_000_000_000_000_000 <= (a.z as int) * (b.z as int) <= 40_000_000_000_000_000)
            by (nonlinear_arith)
            requires
                -200_000_000 <= a.z as int <= 200_000_000,
                -200_000_000 <= b.z as int <= 200_000_000;
    }
    a.x * b.x + a.y * b.y + a.z * b.z
}

/// Normalize a direction vector to unit length (in milli-units).
/// The zero vector yields the zero vector rather than a division by zero.
pub fn norm(d: Vec3) -> (r: Vec3)
    requires
        dir_bounded(d),
    ensures
        r == norm_spec(d),
        unit_bounded(r),
{
    proof {
        assert(0 <= (d.x as int) * (d.x as int) <= 1_000_000_000_000) by (nonlinear_arith)
            requires
                -1_000_000 <= d.x as int <= 1_000_000;
        assert(0 <= (d.y as int) * (d.y as int) <= 1_000_000_000_000) by (nonlinear_arith)
            requires
                -1_000_000 <= d.y as int <= 1_000_000;
        assert(0 <= (d.z as int) * (d.z as int) <= 1_000_000_000_000) by (nonlinear_arith)
            requires
                -1_000_000 <= d.z as int <= 1_000_000;
    }
    let n2: i64 = dotp(d, d);
    let m: u64 = isqrt(n2 as u64);
    if m == 0 {
        Vec3 { x: 0, y: 0, z: 0 }
    } else {
        proof {
            lemma_component_le_sqrt(d.x as int, dot(d, d), m as int);
            lemma_component_le_sqrt(d.y as int, dot(d, d), m as int);
            lemma_component_le_sqrt(d.z as int, dot(d, d), m as int);
            assert(-(m as int) * (MILLI as int) <= (d.x as int) * (MILLI as int) <= (m as int) * (
            MILLI as int)) by (nonlinear_arith)
                requires
                    -(m as int) <= d.x as int <= m as int;
            assert(-(m as int) * (MILLI as int) <= (d.y as int) * (MILLI as int) <= (m as int) * (
            MILLI as int)) by (nonlinear_arith)
                requires
                    -(m as int) <= d.y as int <= m as int;
            assert(-(m as int) * (MILLI as int) <= (d.z as int) * (MILLI as int) <= (m as int) * (
            MILLI as int)) by (nonlinear_arith)
                requires
                    -(m as int) <= d.z as int <= m as int;
            lemma_tdiv_bound((d.x as int) * (MILLI as int), m as int, MILLI as int);
            lemma_tdiv_bound((d.y as int) * (MILLI as int), m as int, MILLI as int);
            lemma_tdiv_bound((d.z as int) * (MILLI as int), m as int, MILLI as int);
        }
        Vec3 {
            x: mul_div_trunc(d.x, MILLI, m as i64),
            y: mul_div_trunc(d.y, MILLI, m as i64),
            z: mul_div_trunc(d.z, MILLI, m as i64),
        }
    }
}

/// Distance along a ray (origin `o`, unit-bounded direction `d`) to a sphere
/// (center `c`, radius `r`), in milli-units: the nearer non-negative root of
/// the quadratic, falling back to the farther root when the nearer is
/// negative, and nothing when the discriminant is negative or both roots are.
pub open spec fn ray_sphere_spec(o: Vec3, d: Vec3, c: Vec3, r: int) -> Option<int> {
    let ocx = o.x - c.x;
    let ocy = o.y - c.y;
    let ocz = o.z - c.z;
    let b = tdiv(ocx * d.x + ocy * d.y + ocz * d.z, MILLI as int);
    let cterm = ocx * ocx + ocy * ocy + ocz * ocz - r * r;
    let disc = b * b - cterm;
    if disc < 0 {
        None
    } else {
        let s = sqrt_floor(disc);
        if -b - s >= 0 {
            Some(-b - s)
        } else if -b + s >= 0 {
            Some(-b + s)
        } else {
            None
        }
    }
}

pub fn ray_sphere(o: Vec3, d: Vec3, c: Vec3, r: i64) -> (t: Option<i64>)
    requires
        in_world(o),
        in_world(c),
        unit_bounded(d),
        0 <= r <= RADIUS_MAX,
    ensures
        (match (t, ray_sphere_spec(o, d, c, r as int)) {
            (Some(te), Some(ts)) => te as int == ts && te >= 0,
            (None, None) => true,
            _ => false,
        }),
{
    let oc = Vec3 { x: o.x - c.x, y: o.y - c.y, z: o.z - c.z };
    proof {
        assert(-200_000_000_000 <= (oc.x as int) * (d.x as int) <= 200_000_000_000)
            by (nonlinear_arith)
            requires
                -200_000_000 <= oc.x as int <= 200_000_000,
                -1000 <= d.x as int <= 1000;
        assert(-200_000_000_000 <= (oc.y as int) * (d.y as int) <= 200_000_000_000)
            by (nonlinear_arith)
            requires
                -200_000_000 <= oc.y as int <= 200_000_000,
                -1000 <= d.y as int <= 1000;
        assert(-200_000_000_000 <= (oc.z as int) * (d.z as int) <= 200_000_000_000)
            by (nonlinear_arith)
            requires
                -200_000_000 <= oc.z as int <= 200_000_000,
                -1000 <= d.z as int <= 1000;
    }
    let bm = dotp(oc, d);
    proof {
        lemma_tdiv_bound(bm as int, MILLI as int, 600_000_000);
    }
    let b = div_trunc(bm, MILLI);
    let c2 = dotp(oc, oc);
    proof {
        assert(0 <= (r as int) * (r as int) <= 1_000_000_000_000) by (nonlinear_arith)
            requires
                0 <= r as int <= 1_000_000;
        assert((b as int) * (b as int) <= 360_000_000_000_000_000) by (nonlinear_arith)
            requires
                -600_000_000 <= b as int <= 600_000_000;
        assert((b as int) * (b as int) >= 0) by (nonlinear_arith);
    }
    let rr = r * r;
    let cterm = c2 - rr;
    let bb = b * b;
    let disc = bb - cterm;
    if disc < 0 {
        return None;
    }
    let s = isqrt(disc as u64) as i64;
    let t1 = -b - s;
    if t1 >= 0 {
        Some(t1)
    } else {
        let t2 = -b + s;
        if t2 >= 0 {
            Some(t2)
        } else {
            None
        }
    }
}

} // verus!
