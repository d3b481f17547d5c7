//! Points and directions of the sketch plane, in fixed-point coordinates.

use vstd::prelude::*;
use crate::arith::{
    floor_sqrt, isqrt, lemma_square_le_implies_le, ANGLE_SCALE, COORD_LIMIT, MIN_EDGE_LENGTH,
    SPAN_LIMIT,
};

verus! {

/// A position in the sketch plane. Each coordinate counts fixed-point steps;
/// the vertical axis points down, as on a screen.
#[derive(Clone, Copy, Debug, PartialEq, Eq, Structural)]
pub struct Pos2 {
    pub x: i64,
    pub y: i64,
}

/// A displacement in the sketch plane, used as the direction of lines and
/// rays. It need not have unit length; only its bearing matters.
#[derive(Clone, Copy, Debug, PartialEq, Eq, Structural)]
pub struct Vec2 {
    pub x: i64,
    pub y: i64,
}

/// The product of two numbers is bounded by the product of bounds on their
/// magnitudes.
pub proof fn lemma_product_bound(a: int, b: int, bound_a: int, bound_b: int)
    by (nonlinear_arith)
    requires
        -bound_a <= a <= bound_a,
        -bound_b <= b <= bound_b,
    ensures
        -(bound_a * bound_b) <= a * b <= bound_a * bound_b,
{
}

impl Vec2 {
    /// Both components are differences of coordinates within `COORD_LIMIT`.
    pub open spec fn in_range(self) -> bool {
        -SPAN_LIMIT <= self.x <= SPAN_LIMIT && -SPAN_LIMIT <= self.y <= SPAN_LIMIT
    }

    /// Squared length.
    pub open spec fn norm_sq(self) -> int {
        self.x * self.x + self.y * self.y
    }

    /// Scalar product.
    pub open spec fn dot(self, other: Vec2) -> int {
        self.x * other.x + self.y * other.y
    }

    /// The signed area of the parallelogram that the two vectors span. It is
    /// the product of their lengths and the sine of the angle from `self` to
    /// `other`.
    pub open spec fn cross(self, other: Vec2) -> int {
        self.x * other.y - self.y * other.x
    }

    /// The angle between the two bearings is within the angular tolerance of
    /// 0 or of a half turn: the squared sine of the angle is at most one
    /// millionth. A zero vector is parallel to everything.
    pub open spec fn nearly_parallel(self, other: Vec2) -> bool {
        self.cross(other) * self.cross(other) * ANGLE_SCALE <= self.norm_sq() * other.norm_sq()
    }

    /// Too short to define a bearing: shorter than `MIN_EDGE_LENGTH`.
    pub open spec fn is_degenerate(self) -> bool {
        self.norm_sq() < MIN_EDGE_LENGTH * MIN_EDGE_LENGTH
    }

    /// The displacement by `x` steps to the right and `y` steps down.
    pub fn new(x: i64, y: i64) -> (v: Vec2)
        ensures
            v.x == x,
            v.y == y,
    {
        Vec2 { x, y }
    }

    /// Whether both components are within `SPAN_LIMIT`.
    pub fn is_in_range(&self) -> (b: bool)
        ensures
            b == self.in_range(),
    {
        -SPAN_LIMIT <= self.x && self.x <= SPAN_LIMIT && -SPAN_LIMIT <= self.y && self.y
            <= SPAN_LIMIT
    }

    /// Squared length.
    pub fn length_sq(&self) -> (n: i128)
        requires
            self.in_range(),
        ensures
            n == self.norm_sq(),
            0 <= n <= 2 * SPAN_LIMIT * SPAN_LIMIT,
    {
        proof {
            lemma_product_bound(self.x as int, self.x as int, SPAN_LIMIT as int, SPAN_LIMIT as int);
            lemma_product_bound(self.y as int, self.y as int, SPAN_LIMIT as int, SPAN_LIMIT as int);
            assert(self.x * self.x >= 0) by (nonlinear_arith);
            assert(self.y * self.y >= 0) by (nonlinear_arith);
        }
        let x: i128 = self.x as i128;
        let y: i128 = self.y as i128;
        x * x + y * y
    }

    /// Scalar product.
    pub fn dot_product(&self, other: &Vec2) -> (s: i128)
        requires
            self.in_range(),
            other.in_range(),
        ensures
            s == self.dot(*other),
            -2 * SPAN_LIMIT * SPAN_LIMIT <= s <= 2 * SPAN_LIMIT * SPAN_LIMIT,
    {
        proof {
            lemma_product_bound(self.x as int, other.x as int, SPAN_LIMIT as int, SPAN_LIMIT as int);
            lemma_product_bound(self.y as int, other.y as int, SPAN_LIMIT as int, SPAN_LIMIT as int);
        }
        let ax: i128 = self.x as i128;
        let ay: i128 = self.y as i128;
        let bx: i128 = other.x as i128;
        let by: i128 = other.y as i128;
        ax * bx + ay * by
    }

    /// Cross product.
    pub fn cross_product(&self, other: &Vec2) -> (s: i128)
        requires
            self.in_range(),
            other.in_range(),
        ensures
            s == self.cross(*other),
            -2 * SPAN_LIMIT * SPAN_LIMIT <= s <= 2 * SPAN_LIMIT * SPAN_LIMIT,
    {
        proof {
            lemma_product_bound(self.x as int, other.y as int, SPAN_LIMIT as int, SPAN_LIMIT as int);
            lemma_product_bound(self.y as int, other.x as int, SPAN_LIMIT as int, SPAN_LIMIT as int);
        }
        let ax: i128 = self.x as i128;
        let ay: i128 = self.y as i128;
        let bx: i128 = other.x as i128;
        let by: i128 = other.y as i128;
        ax * by - ay * bx
    }

    /// Whether the two bearings agree within the angular tolerance, up to a
    /// half turn.
    pub fn is_nearly_parallel(&self, other: &Vec2) -> (b: bool)
        requires
            self.in_range(),
            other.in_range(),
        ensures
            b == self.nearly_parallel(*other),
    {
        let c: i128 = self.cross_product(other);
        let n1: i128 = self.length_sq();
        let n2: i128 = other.length_sq();
        proof {
            let lim: int = 2 * SPAN_LIMIT * SPAN_LIMIT;
            lemma_product_bound(c as int, c as int, lim, lim);
            lemma_product_bound(n1 as int, n2 as int, lim, lim);
            assert(c * c >= 0) by (nonlinear_arith);
            assert(n1 * n2 >= 0) by (nonlinear_arith)
                requires
                    n1 >= 0,
                    n2 >= 0,
            ;
        }
        let c2: i128 = c * c;
        let n: i128 = n1 * n2;
        proof {
            lemma_scaled_le(c2 as int, ANGLE_SCALE as int, n as int);
        }
        c2 <= n / ANGLE_SCALE
    }

    /// Whether the vector is too short to define a bearing.
    pub fn check_degenerate(&self) -> (b: bool)
        requires
            self.in_range(),
        ensures
            b == self.is_degenerate(),
    {
        let n: i128 = self.length_sq();
        let m: i128 = MIN_EDGE_LENGTH as i128;
        n < m * m
    }
}

/// Comparing a multiple against a bound is comparing against the bound's
/// quotient: `x * k <= n` exactly when `x <= n / k`.
pub proof fn lemma_scaled_le(x: int, k: int, n: int)
    requires
        0 < k,
    ensures
        (x * k <= n) == (x <= n / k),
{
    vstd::arithmetic::div_mod::lemma_fundamental_div_mod(n, k);
    let q = n / k;
    let r = n % k;
    assert(n == k * q + r);
    assert(0 <= r < k);
    if x <= q {
        assert(x * k <= q * k) by (nonlinear_arith)
            requires
                x <= q,
                0 < k,
        ;
        assert(q * k == k * q) by (nonlinear_arith);
    } else {
        assert(x * k >= (q + 1) * k) by (nonlinear_arith)
            requires
                x >= q + 1,
                0 < k,
        ;
        assert((q + 1) * k == k * q + k) by (nonlinear_arith);
    }
}

impl Pos2 {
    /// Both coordinates are within `COORD_LIMIT` of the origin.
    pub open spec fn in_range(self) -> bool {
        -COORD_LIMIT <= self.x <= COORD_LIMIT && -COORD_LIMIT <= self.y <= COORD_LIMIT
    }

    /// The displacement that leads from `self` to `other`.
    pub open spec fn span_to(self, other: Pos2) -> Vec2 {
        Vec2 { x: (other.x - self.x) as i64, y: (other.y - self.y) as i64 }
    }

    /// Squared distance between two positions.
    pub open spec fn dist_sq(self, other: Pos2) -> int {
        (other.x - self.x) * (other.x - self.x) + (other.y - self.y) * (other.y - self.y)
    }

    /// Distance between two positions, rounded down to whole steps.
    pub open spec fn dist(self, other: Pos2) -> int {
        floor_sqrt(self.dist_sq(other))
    }

    /// The position `x` steps to the right of the origin and `y` steps below
    /// it.
    pub fn new(x: i64, y: i64) -> (p: Pos2)
        ensures
            p.x == x,
            p.y == y,
    {
        Pos2 { x, y }
    }

    /// Whether both coordinates are within `COORD_LIMIT`.
    pub fn is_in_range(&self) -> (b: bool)
        ensures
            b == self.in_range(),
    {
        -COORD_LIMIT <= self.x && self.x <= COORD_LIMIT && -COORD_LIMIT <= self.y && self.y
            <= COORD_LIMIT
    }

    /// The displacement that leads from `self` to `other`.
    pub fn vector_to(&self, other: &Pos2) -> (v: Vec2)
        requires
            self.in_range(),
            other.in_range(),
        ensures
            v == self.span_to(*other),
            v.x == other.x - self.x,
            v.y == other.y - self.y,
            v.in_range(),
    {
        Vec2 { x: other.x - self.x, y: other.y - self.y }
    }

    /// Distance to `other`, rounded down to whole steps.
    pub fn distance(&self, other: &Pos2) -> (d: i64)
        requires
            self.in_range(),
            other.in_range(),
        ensures
            d == self.dist(*other),
            0 <= d <= 2 * SPAN_LIMIT,
    {
        let v: Vec2 = self.vector_to(other);
        let n: i128 = v.length_sq();
        let r: u64 = isqrt(n as u128);
        proof {
            let lim: int = 2 * SPAN_LIMIT;
            assert(lim * lim == 4 * SPAN_LIMIT * SPAN_LIMIT) by (nonlinear_arith)
                requires
                    lim == 2 * SPAN_LIMIT,
            ;
            assert((r as int) * (r as int) <= lim * lim);
            lemma_square_le_implies_le(r as int, lim);
        }
        r as i64
    }
}

} // verus!
