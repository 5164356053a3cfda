//! Fixed-point scalars and 2D vectors.
use vstd::prelude::*;

verus! {

/// One world unit, in raw fixed-point units (24 fractional bits).
pub const SCALE: i64 = 16777216;

/// Largest magnitude of a stored coordinate: 2^41 raw units, that is
/// 131072 world units. Results beyond it saturate at the bound.
pub const LIMIT: i64 = 2199023255552;

/// `v` saturated to `[-LIMIT, LIMIT]`.
pub open spec fn clamp(v: int) -> int {
    if v > LIMIT {
        LIMIT as int
    } else if v < -LIMIT {
        -LIMIT
    } else {
        v
    }
}

pub open spec fn in_range(v: int) -> bool {
    -LIMIT <= v <= LIMIT
}

/// Quotient of `a` by a positive `b`, rounded toward zero.
pub open spec fn div_trunc(a: int, b: int) -> int {
    if a >= 0 {
        a / b
    } else {
        -((-a) / b)
    }
}

/// `v` saturated to the coordinate range.
pub fn clamp_wide(v: i128) -> (r: i64)
    ensures
        r == clamp(v as int),
{
    if v > LIMIT as i128 {
        LIMIT
    } else if v < -(LIMIT as i128) {
        -LIMIT
    } else {
        v as i64
    }
}

/// Quotient rounded toward zero.
pub fn div_trunc_wide(a: i128, b: i128) -> (r: i128)
    requires
        b > 0,
        a > i128::MIN,
    ensures
        r == div_trunc(a as int, b as int),
{
    if a >= 0 {
        a / b
    } else {
        -((-a) / b)
    }
}

/// A 2D vector of fixed-point coordinates.
#[derive(Clone, Copy, Debug, PartialEq, Eq, Structural)]
pub struct Vector2 {
    pub x: i64,
    pub y: i64,
}

impl Vector2 {
    pub open spec fn wf(self) -> bool {
        in_range(self.x as int) && in_range(self.y as int)
    }

    pub fn new(x: i64, y: i64) -> (r: Vector2)
        ensures
            r.x == x,
            r.y == y,
    {
        Vector2 { x, y }
    }

    pub fn zero() -> (r: Vector2)
        ensures
            r.x == 0,
            r.y == 0,
    {
        Vector2 { x: 0, y: 0 }
    }

    /// Both coordinates are within twice the coordinate range: what a
    /// difference of two stored vectors can reach.
    pub open spec fn wf_offset(self) -> bool {
        -2 * LIMIT <= self.x <= 2 * LIMIT && -2 * LIMIT <= self.y <= 2 * LIMIT
    }

    /// Exact difference `self - o`.
    pub fn sub(self, o: Vector2) -> (r: Vector2)
        requires
            self.wf(),
            o.wf(),
        ensures
            r.x == self.x - o.x,
            r.y == self.y - o.y,
            r.wf_offset(),
    {
        Vector2 { x: self.x - o.x, y: self.y - o.y }
    }

    /// `self + o`, each coordinate saturated to the coordinate range.
    pub fn add_clamped(self, o: Vector2) -> (r: Vector2)
        ensures
            r == sum_clamped(self, o),
            r.wf(),
    {
        Vector2 {
            x: clamp_wide(self.x as i128 + o.x as i128),
            y: clamp_wide(self.y as i128 + o.y as i128),
        }
    }

    /// Exact dot product, in raw units squared.
    pub fn dot(self, o: Vector2) -> (r: i128)
        requires
            self.wf_offset(),
            o.wf_offset(),
        ensures
            r == dot(self, o),
            -8 * LIMIT * LIMIT <= r <= 8 * LIMIT * LIMIT,
    {
        proof {
            lemma_mul_bounded(self.x as int, o.x as int);
            lemma_mul_bounded(self.y as int, o.y as int);
        }
        (self.x as i128) * (o.x as i128) + (self.y as i128) * (o.y as i128)
    }
}

/// `a + b`, each coordinate saturated to the coordinate range.
pub open spec fn sum_clamped(a: Vector2, b: Vector2) -> Vector2 {
    Vector2 { x: clamp(a.x + b.x) as i64, y: clamp(a.y + b.y) as i64 }
}

pub open spec fn dot(a: Vector2, b: Vector2) -> int {
    a.x * b.x + a.y * b.y
}

pub open spec fn abs(v: int) -> int {
    if v < 0 {
        -v
    } else {
        v
    }
}

/// Product of two offset coordinates stays below 2^84.
pub proof fn lemma_mul_bounded(a: int, b: int)
    requires
        -2 * LIMIT <= a <= 2 * LIMIT,
        -2 * LIMIT <= b <= 2 * LIMIT,
    ensures
        -4 * LIMIT * LIMIT <= a * b <= 4 * LIMIT * LIMIT,
{
    assert(-4 * LIMIT * LIMIT <= a * b <= 4 * LIMIT * LIMIT) by (nonlinear_arith)
        requires
            -2 * LIMIT <= a <= 2 * LIMIT,
            -2 * LIMIT <= b <= 2 * LIMIT,
    ;
}

} // verus!
