use vstd::prelude::*;
use crate::int_math::{sqrt_floor, isqrt, div_floor_i128};

verus! {

/// A plane vector with fixed-point (integer) components. All geometry in
/// this crate is carried out exactly on integer coordinates; the caller
/// picks the physical length of one unit.
#[derive(Debug, Clone, Copy, PartialEq, Eq, Structural)]
pub struct Vector2 {
    pub x: i64,
    pub y: i64,
}

/// The squared Euclidean norm of `(x, y)`.
pub open spec fn norm_sq(x: int, y: int) -> int {
    x * x + y * y
}

/// The floor of the Euclidean distance between two points.
pub open spec fn dist_floor(a: Vector2, b: Vector2) -> nat {
    sqrt_floor(norm_sq(a.x - b.x, a.y - b.y) as nat)
}

/// Squares of values in `[-2^31, 2^31]` fit comfortably: their sum fits
/// in a `u64`.
pub proof fn lemma_norm_sq_bound(x: int, y: int)
    requires
        -0x8000_0000 <= x <= 0x8000_0000,
        -0x8000_0000 <= y <= 0x8000_0000,
    ensures
        0 <= norm_sq(x, y) <= 0x8000_0000_0000_0000,
        0 <= x * x <= 0x4000_0000_0000_0000,
        0 <= y * y <= 0x4000_0000_0000_0000,
{
    assert(0 <= x * x <= 0x4000_0000_0000_0000) by (nonlinear_arith)
        requires
            -0x8000_0000 <= x <= 0x8000_0000,
    ;
    assert(0 <= y * y <= 0x4000_0000_0000_0000) by (nonlinear_arith)
        requires
            -0x8000_0000 <= y <= 0x8000_0000,
    ;
}

impl Vector2 {
    pub fn new(x: i64, y: i64) -> (v: Vector2)
        ensures
            v.x == x,
            v.y == y,
    {
        Vector2 { x, y }
    }

    /// Component-wise sum.
    pub fn add(&self, other: &Vector2) -> (v: Vector2)
        requires
            i64::MIN <= self.x + other.x <= i64::MAX,
            i64::MIN <= self.y + other.y <= i64::MAX,
        ensures
            v.x == self.x + other.x,
            v.y == self.y + other.y,
    {
        Vector2 { x: self.x + other.x, y: self.y + other.y }
    }

    /// Component-wise difference.
    pub fn sub(&self, other: &Vector2) -> (v: Vector2)
        requires
            i64::MIN <= self.x - other.x <= i64::MAX,
            i64::MIN <= self.y - other.y <= i64::MAX,
        ensures
            v.x == self.x - other.x,
            v.y == self.y - other.y,
    {
        Vector2 { x: self.x - other.x, y: self.y - other.y }
    }

    /// Multiply both components by an integer factor.
    pub fn scale(&self, factor: i64) -> (v: Vector2)
        requires
            i64::MIN <= self.x * factor <= i64::MAX,
            i64::MIN <= self.y * factor <= i64::MAX,
        ensures
            v.x == self.x * factor,
            v.y == self.y * factor,
    {
        Vector2 { x: self.x * factor, y: self.y * factor }
    }

    /// Floor of the Euclidean norm.
    pub fn magnitude(&self) -> (m: u64)
        requires
            -0x8000_0000 <= self.x <= 0x8000_0000,
            -0x8000_0000 <= self.y <= 0x8000_0000,
        ensures
            m == sqrt_floor(norm_sq(self.x as int, self.y as int) as nat),
            m * m <= norm_sq(self.x as int, self.y as int),
    {
        proof {
            lemma_norm_sq_bound(self.x as int, self.y as int);
        }
        let xi = self.x as i128;
        let yi = self.y as i128;
        let sq = (xi * xi + yi * yi) as u64;
        let m = isqrt(sq);
        proof {
            crate::int_math::lemma_sqrt_floor_bounds(sq as nat);
        }
        m
    }

    /// Floor of the Euclidean distance to `other`.
    pub fn distance(&self, other: &Vector2) -> (d: u64)
        requires
            -0x4000_0000 <= self.x <= 0x4000_0000,
            -0x4000_0000 <= self.y <= 0x4000_0000,
            -0x4000_0000 <= other.x <= 0x4000_0000,
            -0x4000_0000 <= other.y <= 0x4000_0000,
        ensures
            d == dist_floor(*self, *other),
    {
        let diff = self.sub(other);
        diff.magnitude()
    }

    /// The vector divided, component-wise and rounding toward negative
    /// infinity, by the floor of its norm. Undefined on the zero vector,
    /// which the precondition rules out.
    pub fn normalize(&self) -> (v: Vector2)
        requires
            -0x8000_0000 <= self.x <= 0x8000_0000,
            -0x8000_0000 <= self.y <= 0x8000_0000,
            !(self.x == 0 && self.y == 0),
        ensures
            v.x == self.x as int / sqrt_floor(norm_sq(self.x as int, self.y as int) as nat) as int,
            v.y == self.y as int / sqrt_floor(norm_sq(self.x as int, self.y as int) as nat) as int,
    {
        let m = self.magnitude();
        proof {
            let sq = norm_sq(self.x as int, self.y as int);
            assert(sq >= 1) by (nonlinear_arith)
                requires
                    sq == norm_sq(self.x as int, self.y as int),
                    !(self.x == 0 && self.y == 0),
            ;
            if m == 0 {
                assert(sq < (m + 1) * (m + 1)) by {
                    crate::int_math::lemma_sqrt_floor_bounds(sq as nat);
                }
            }
        }
        let nx = div_floor_i128(self.x as i128, m);
        let ny = div_floor_i128(self.y as i128, m);
        proof {
            crate::int_math::lemma_div_range(
                self.x as int,
                m as int,
                -0x8000_0000,
                0x8000_0000,
            );
            crate::int_math::lemma_div_range(
                self.y as int,
                m as int,
                -0x8000_0000,
                0x8000_0000,
            );
        }
        Vector2 { x: nx as i64, y: ny as i64 }
    }
}

} // verus!
