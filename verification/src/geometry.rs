//! Points of the integer lattice and the distances between them.

use vstd::prelude::*;

verus! {

/// How many lattice steps make one world unit.
pub const UNIT: u32 = 1000;

/// How many clock steps make one second.
pub const NANOS_PER_SECOND: u64 = 1_000_000_000;

/// A point, or a displacement, in thousandths of a world unit.
#[derive(Clone, Copy, Debug, PartialEq, Eq, Structural)]
pub struct Vec3 {
    pub x: i32,
    pub y: i32,
    pub z: i32,
}

/// The square of `a - b`.
pub open spec fn square_of_difference(a: int, b: int) -> int {
    (a - b) * (a - b)
}

proof fn lemma_square_of_difference_bound(a: i32, b: i32)
    ensures
        0 <= square_of_difference(a as int, b as int) <= 0xffff_ffff * 0xffff_ffff,
{
    let d = a as int - b as int;
    assert(0 <= d * d <= 0xffff_ffff * 0xffff_ffff) by (nonlinear_arith)
        requires
            -0xffff_ffff <= d <= 0xffff_ffff,
    ;
}

fn squared_gap(a: i32, b: i32) -> (r: u128)
    ensures
        r == square_of_difference(a as int, b as int),
{
    let d: i64 = a as i64 - b as i64;
    let m: u64 = if d < 0 { (-d) as u64 } else { d as u64 };
    proof {
        lemma_square_of_difference_bound(a, b);
        assert(m as int * m as int == d as int * d as int) by (nonlinear_arith)
            requires
                m as int == d as int || m as int == -(d as int),
        ;
    }
    (m as u128) * (m as u128)
}

impl Vec3 {
    /// The point reached from here by going `length` along `direction`, a
    /// vector of length one given in thousandths.
    pub open spec fn spec_offset(self, direction: Vec3, length: i32) -> Vec3 {
        Vec3 {
            x: spec_displaced(self.x, direction.x, length),
            y: spec_displaced(self.y, direction.y, length),
            z: spec_displaced(self.z, direction.z, length),
        }
    }

    /// The point reached from here by going `length` along `direction`.
    pub fn offset(&self, direction: &Vec3, length: i32) -> (r: Vec3)
        ensures
            r == self.spec_offset(*direction, length),
    {
        Vec3 {
            x: displaced(self.x, direction.x, length),
            y: displaced(self.y, direction.y, length),
            z: displaced(self.z, direction.z, length),
        }
    }

    /// The squared straight-line distance between two points.
    pub open spec fn spec_distance_squared(self, other: Vec3) -> int {
        square_of_difference(self.x as int, other.x as int) + square_of_difference(
            self.y as int,
            other.y as int,
        ) + square_of_difference(self.z as int, other.z as int)
    }

    /// The squared straight-line distance between two points.
    pub fn distance_squared(&self, other: &Vec3) -> (r: u128)
        ensures
            r == self.spec_distance_squared(*other),
            r <= 3 * (0xffff_ffff * 0xffff_ffff),
    {
        proof {
            lemma_square_of_difference_bound(self.x, other.x);
            lemma_square_of_difference_bound(self.y, other.y);
            lemma_square_of_difference_bound(self.z, other.z);
        }
        squared_gap(self.x, other.x) + squared_gap(self.y, other.y) + squared_gap(self.z, other.z)
    }

    /// The straight-line distance between two points, rounded down.
    pub open spec fn spec_distance(self, other: Vec3) -> int {
        spec_isqrt(self.spec_distance_squared(other))
    }

    /// The straight-line distance between two points, rounded down.
    pub fn distance(&self, other: &Vec3) -> (r: u64)
        ensures
            r == self.spec_distance(*other),
            r < 0x2_0000_0000,
    {
        let squared = self.distance_squared(other);
        let r = isqrt(squared);
        assert(r < 0x2_0000_0000) by (nonlinear_arith)
            requires
                r * r <= squared,
                squared <= 3 * (0xffff_ffff * 0xffff_ffff),
        ;
        r
    }
}

/// Whether `r` is the square root of `n`, rounded down.
pub open spec fn is_root(n: int, r: int) -> bool {
    0 <= r && r * r <= n < (r + 1) * (r + 1)
}

/// The square root of `n`, rounded down.
pub open spec fn spec_isqrt(n: int) -> int {
    choose|r: int| is_root(n, r)
}

/// A number has at most one rounded-down square root.
pub proof fn lemma_root_unique(n: int, a: int, b: int)
    requires
        is_root(n, a),
        is_root(n, b),
    ensures
        a == b,
{
    if a < b {
        assert((a + 1) * (a + 1) <= b * b) by (nonlinear_arith)
            requires
                0 <= a,
                a + 1 <= b,
        ;
    } else if b < a {
        assert((b + 1) * (b + 1) <= a * a) by (nonlinear_arith)
            requires
                0 <= b,
                b + 1 <= a,
        ;
    }
}

/// Every number that is not negative has a rounded-down square root.
pub proof fn lemma_isqrt_exists(n: int)
    requires
        0 <= n,
    ensures
        is_root(n, spec_isqrt(n)),
    decreases n,
{
    if n == 0 {
        assert(is_root(0, 0));
    } else {
        lemma_isqrt_exists(n - 1);
        let r = spec_isqrt(n - 1);
        if (r + 1) * (r + 1) <= n {
            assert(n < (r + 2) * (r + 2)) by (nonlinear_arith)
                requires
                    (r + 1) * (r + 1) == n,
                    0 <= r,
            ;
            assert(is_root(n, r + 1));
        } else {
            assert(is_root(n, r));
        }
    }
}

/// Whatever passes for the rounded-down square root of `n` is `spec_isqrt(n)`.
pub proof fn lemma_isqrt(n: int, r: int)
    requires
        is_root(n, r),
    ensures
        spec_isqrt(n) == r,
{
    lemma_root_unique(n, r, spec_isqrt(n));
}

/// The square root of `n`, rounded down.
pub fn isqrt(n: u128) -> (r: u64)
    ensures
        is_root(n as int, r as int),
        r == spec_isqrt(n as int),
{
    let mut low: u128 = 0;
    let mut high: u128 = 0x1_0000_0000_0000_0000;
    while high - low > 1
        invariant
            low < high <= 0x1_0000_0000_0000_0000,
            low * low <= n < high * high,
        decreases high - low,
    {
        let mid: u128 = low + (high - low) / 2;
        assert(mid * mid <= 0xffff_ffff_ffff_ffff * 0xffff_ffff_ffff_ffff) by (nonlinear_arith)
            requires
                0 <= mid <= 0xffff_ffff_ffff_ffff,
        ;
        if mid * mid <= n {
            low = mid;
        } else {
            high = mid;
        }
    }
    proof {
        lemma_isqrt(n as int, low as int);
    }
    low as u64
}

/// The distance covered at `speed`, in thousandths of a unit per second,
/// during `delta` nanoseconds: rounded down, and no more than the largest
/// distance that can be held.
pub open spec fn spec_travel(speed: u32, delta: u64) -> u64 {
    if speed * delta / (NANOS_PER_SECOND as int) > u64::MAX {
        u64::MAX
    } else {
        (speed * delta / (NANOS_PER_SECOND as int)) as u64
    }
}

/// The distance covered at `speed` during `delta` nanoseconds.
pub fn travel(speed: u32, delta: u64) -> (r: u64)
    ensures
        r == spec_travel(speed, delta),
{
    assert(0 <= speed * delta <= 0xffff_ffff * 0xffff_ffff_ffff_ffff) by (nonlinear_arith)
        requires
            0 <= speed <= 0xffff_ffff,
            0 <= delta <= 0xffff_ffff_ffff_ffff,
    ;
    let covered: u128 = (speed as u128) * (delta as u128) / (NANOS_PER_SECOND as u128);
    if covered > u64::MAX as u128 {
        u64::MAX
    } else {
        covered as u64
    }
}

/// The quotient of `a` by `b`, rounded toward zero.
pub open spec fn trunc_div(a: int, b: int) -> int
    recommends
        b > 0,
{
    if a >= 0 {
        a / b
    } else {
        -((-a) / b)
    }
}

/// The coordinate nearest to `v` that a point can hold.
pub open spec fn clamp_coordinate(v: int) -> i32 {
    if v < i32::MIN {
        i32::MIN
    } else if v > i32::MAX {
        i32::MAX
    } else {
        v as i32
    }
}

/// One coordinate of a point displaced along a direction: `from` plus
/// `length` times the direction's coordinate, the direction being given in
/// thousandths, rounded toward zero and kept within what a point can hold.
pub open spec fn spec_displaced(from: i32, direction: i32, length: i32) -> i32 {
    clamp_coordinate(from + trunc_div(direction * length, UNIT as int))
}

fn displaced(from: i32, direction: i32, length: i32) -> (r: i32)
    ensures
        r == spec_displaced(from, direction, length),
{
    assert(-0x8000_0000 * 0x8000_0000 <= direction * length <= 0x8000_0000 * 0x8000_0000)
        by (nonlinear_arith)
        requires
            -0x8000_0000 <= direction <= 0x8000_0000,
            -0x8000_0000 <= length <= 0x8000_0000,
    ;
    let product: i64 = (direction as i64) * (length as i64);
    let moved: i64 = from as i64 + product / (UNIT as i64);
    if moved < i32::MIN as i64 {
        i32::MIN
    } else if moved > i32::MAX as i64 {
        i32::MAX
    } else {
        moved as i32
    }
}

/// Whether `b` lies closer to `a` than `radius`: the squared distance is
/// strictly less than the squared radius.
pub open spec fn spec_within(a: Vec3, b: Vec3, radius: u32) -> bool {
    a.spec_distance_squared(b) < radius * radius
}

/// Whether `b` lies closer to `a` than `radius`; a point exactly `radius`
/// away does not.
pub fn within(a: &Vec3, b: &Vec3, radius: u32) -> (r: bool)
    ensures
        r == spec_within(*a, *b, radius),
{
    assert(radius * radius <= 0xffff_ffff * 0xffff_ffff) by (nonlinear_arith)
        requires
            0 <= radius <= 0xffff_ffff,
    ;
    a.distance_squared(b) < (radius as u128) * (radius as u128)
}

} // verus!
