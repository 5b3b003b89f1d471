//! Fixed-point vectors and the exact arithmetic the simulation moves with.
use vstd::prelude::*;

verus! {

/// Fixed-point steps per world unit.
pub const UNIT: i64 = 1000;

/// Largest absolute coordinate of any simulated position.
pub const WORLD_LIMIT: i64 = 1_000_000_000;

/// Nanoseconds per second.
pub const NANOS_PER_SECOND: u64 = 1_000_000_000;

/// A point on the ground plane: `x` is the world x axis, `y` the world z axis.
#[derive(Clone, Copy, Debug, PartialEq, Eq, Structural)]
pub struct Vec2 {
    pub x: i64,
    pub y: i64,
}

/// A point or offset in world space, `y` pointing up.
#[derive(Clone, Copy, Debug, PartialEq, Eq, Structural)]
pub struct Vec3 {
    pub x: i64,
    pub y: i64,
    pub z: i64,
}

pub open spec fn in_world(c: int) -> bool {
    -WORLD_LIMIT <= c <= WORLD_LIMIT
}

impl Vec2 {
    pub open spec fn wf(self) -> bool {
        in_world(self.x as int) && in_world(self.y as int)
    }

    pub fn new(x: i64, y: i64) -> (r: Vec2)
        ensures
            r.x == x,
            r.y == y,
    {
        Vec2 { x, y }
    }
}

impl Vec3 {
    pub open spec fn wf(self) -> bool {
        in_world(self.x as int) && in_world(self.y as int) && in_world(self.z as int)
    }

    pub fn new(x: i64, y: i64, z: i64) -> (r: Vec3)
        ensures
            r.x == x,
            r.y == y,
            r.z == z,
    {
        Vec3 { x, y, z }
    }
}

pub open spec fn clamp_spec(c: int) -> int {
    if c < -WORLD_LIMIT {
        -WORLD_LIMIT as int
    } else if c > WORLD_LIMIT {
        WORLD_LIMIT as int
    } else {
        c
    }
}

/// Clamps one coordinate into the world.
pub fn clamp_coord(c: i64) -> (r: i64)
    ensures
        r == clamp_spec(c as int),
        in_world(r as int),
{
    if c < -WORLD_LIMIT {
        -WORLD_LIMIT
    } else if c > WORLD_LIMIT {
        WORLD_LIMIT
    } else {
        c
    }
}

pub open spec fn dist_sq3(a: Vec3, b: Vec3) -> int {
    (a.x - b.x) * (a.x - b.x) + (a.y - b.y) * (a.y - b.y) + (a.z - b.z) * (a.z - b.z)
}

pub open spec fn len_sq2(x: int, y: int) -> int {
    x * x + y * y
}

pub open spec fn len_sq3(x: int, y: int, z: int) -> int {
    x * x + y * y + z * z
}

/// `c * c` for a difference of two in-world coordinates.
fn square_diff(a: i64, b: i64) -> (r: u128)
    requires
        in_world(a as int),
        in_world(b as int),
    ensures
        r == (a - b) * (a - b),
        r <= 4 * WORLD_LIMIT * WORLD_LIMIT,
{
    let d: i128 = (a as i128) - (b as i128);
    assert(d * d <= 4 * WORLD_LIMIT * WORLD_LIMIT) by (nonlinear_arith)
        requires
            -2 * WORLD_LIMIT <= d <= 2 * WORLD_LIMIT,
    ;
    assert(0 <= d * d) by (nonlinear_arith);
    (d * d) as u128
}

/// Squared Euclidean distance between two in-world points.
pub fn distance_squared(a: &Vec3, b: &Vec3) -> (r: u128)
    requires
        a.wf(),
        b.wf(),
    ensures
        r == dist_sq3(*a, *b),
{
    square_diff(a.x, b.x) + square_diff(a.y, b.y) + square_diff(a.z, b.z)
}

pub open spec fn is_floor_sqrt(r: int, n: int) -> bool {
    0 <= r && r * r <= n < (r + 1) * (r + 1)
}

/// The floor of the square root of a non-negative number.
pub open spec fn floor_sqrt(n: int) -> int {
    choose|r: int| is_floor_sqrt(r, n)
}

proof fn lemma_floor_sqrt_unique(r: int, n: int)
    requires
        is_floor_sqrt(r, n),
    ensures
        floor_sqrt(n) == r,
{
    let s = floor_sqrt(n);
    assert(is_floor_sqrt(s, n));
    if s < r {
        assert((s + 1) * (s + 1) <= r * r) by (nonlinear_arith)
            requires
                0 <= s < r,
        ;
    } else if r < s {
        assert((r + 1) * (r + 1) <= s * s) by (nonlinear_arith)
            requires
                0 <= r < s,
        ;
    }
}

/// Floor of the square root.
pub fn isqrt(n: u128) -> (r: u64)
    ensures
        r * r <= n < (r + 1) * (r + 1),
        r == floor_sqrt(n as int),
{
    let mut lo: u128 = 0;
    let mut hi: u128 = 0x1_0000_0000_0000_0000;
    assert(n < hi * hi) by (nonlinear_arith)
        requires
            hi == 0x1_0000_0000_0000_0000u128,
            n <= u128::MAX,
    ;
    while hi - lo > 1
        invariant
            lo < hi <= 0x1_0000_0000_0000_0000u128,
            lo * lo <= n < hi * hi,
        decreases hi - lo,
    {
        let mid: u128 = lo + (hi - lo) / 2;
        assert(mid * mid <= u128::MAX) by (nonlinear_arith)
            requires
                mid < 0x1_0000_0000_0000_0000u128,
        ;
        if mid * mid <= n {
            lo = mid;
        } else {
            hi = mid;
        }
    }
    proof {
        lemma_floor_sqrt_unique(lo as int, n as int);
    }
    lo as u64
}

/// Largest distance anything moves in one tick.
pub const MAX_STEP: u128 = 1_000_000_000_000;

/// `c * step / len` rounded toward zero.
pub open spec fn scale_spec(c: int, step: int, len: int) -> int {
    if c >= 0 {
        c * step / len
    } else {
        -((-c) * step / len)
    }
}

/// One component of a move of length `step` along a vector of length `len`.
pub fn scale_component(c: i64, step: u128, len: u64) -> (r: i64)
    requires
        0 < len,
        -(len as int) <= c <= len,
        step <= MAX_STEP,
    ensures
        r == scale_spec(c as int, step as int, len as int),
        -(step as int) <= r <= step,
        step <= len ==> -(c as int) <= r <= c || c as int <= r <= -(c as int),
        c >= 0 ==> r >= 0,
        c <= 0 ==> r <= 0,
{
    let mag: u128 = if c >= 0 {
        c as u128
    } else {
        (-(c as i128)) as u128
    };
    assert(mag * step <= 0x1_0000_0000_0000_0000u128 * MAX_STEP) by (nonlinear_arith)
        requires
            mag <= len,
            len < 0x1_0000_0000_0000_0000u128,
            step <= MAX_STEP,
    ;
    let q: u128 = mag * step / (len as u128);
    assert(q <= step) by (nonlinear_arith)
        requires
            q == mag * step / (len as int),
            0 <= mag <= len,
            0 < len,
            0 <= step,
    ;
    assert(mag == 0 ==> q == 0) by (nonlinear_arith)
        requires
            q == mag * step / (len as int),
            0 < len,
    ;
    assert(step <= len ==> q <= mag) by (nonlinear_arith)
        requires
            q == mag * step / (len as int),
            0 <= mag,
            0 < len,
            0 <= step,
    ;
    if c >= 0 {
        q as i64
    } else {
        -(q as i64)
    }
}

/// Whether a coordinate is within the span of two in-world coordinates apart.
pub open spec fn in_span(c: int) -> bool {
    -2 * WORLD_LIMIT <= c <= 2 * WORLD_LIMIT
}

/// `c * c` for a component of an offset between in-world points.
pub fn square(c: i64) -> (r: u128)
    requires
        in_span(c as int),
    ensures
        r == c * c,
        r <= 4_000_000_000_000_000_000u128,
{
    let w: i128 = c as i128;
    assert(0 <= w * w <= 4_000_000_000_000_000_000) by (nonlinear_arith)
        requires
            -2_000_000_000 <= w <= 2_000_000_000,
    ;
    (w * w) as u128
}

/// The unit vector along `v`, in fixed point: each component is scaled to
/// `UNIT` over the vector's length (rounded down) and rounded toward zero.
/// The zero vector stays zero.
pub open spec fn unit_of(v: Vec3) -> Vec3 {
    let len = floor_sqrt(len_sq3(v.x as int, v.y as int, v.z as int));
    if len == 0 {
        v
    } else {
        Vec3 {
            x: scale_spec(v.x as int, UNIT as int, len) as i64,
            y: scale_spec(v.y as int, UNIT as int, len) as i64,
            z: scale_spec(v.z as int, UNIT as int, len) as i64,
        }
    }
}

/// Normalizes an offset between in-world points to a fixed-point unit vector.
pub fn normalize(v: &Vec3) -> (r: Vec3)
    requires
        in_span(v.x as int),
        in_span(v.y as int),
        in_span(v.z as int),
    ensures
        r == unit_of(*v),
        -UNIT <= r.x <= UNIT,
        -UNIT <= r.y <= UNIT,
        -UNIT <= r.z <= UNIT,
{
    let sx = square(v.x);
    let sy = square(v.y);
    let sz = square(v.z);
    let len = isqrt(sx + sy + sz);
    if len == 0 {
        proof {
            let n = sx + sy + sz;
            assert(v.x == 0 && v.y == 0 && v.z == 0) by (nonlinear_arith)
                requires
                    n == v.x * v.x + v.y * v.y + v.z * v.z,
                    n < (len + 1) * (len + 1),
                    len == 0,
            ;
        }
        return *v;
    }
    proof {
        let n = sx + sy + sz;
        assert(-(len as int) <= v.x <= len && -(len as int) <= v.y <= len && -(len as int) <= v.z
            <= len) by (nonlinear_arith)
            requires
                n == v.x * v.x + v.y * v.y + v.z * v.z,
                0 <= v.x * v.x,
                0 <= v.y * v.y,
                0 <= v.z * v.z,
                n < (len + 1) * (len + 1),
                0 <= len,
        ;
    }
    let unit: u128 = UNIT as u128;
    Vec3 {
        x: scale_component(v.x, unit, len),
        y: scale_component(v.y, unit, len),
        z: scale_component(v.z, unit, len),
    }
}

} // verus!
