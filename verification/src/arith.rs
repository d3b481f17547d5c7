//! Exact integer arithmetic behind the geometry: the fixed-point scale, integer
//! square roots and floor division.
//!
//! Lengths and coordinates are fixed-point numbers that count ten-thousandths
//! of a length unit. Every tolerance of the engine is therefore a whole number
//! of steps, and every comparison against a tolerance is exact.

use vstd::prelude::*;

verus! {

/// Number of fixed-point steps in one length unit.
pub const UNIT: i64 = 10_000;

/// Largest magnitude of a coordinate that the geometry accepts: 50 000 length
/// units either side of the origin.
pub const COORD_LIMIT: i64 = 500_000_000;

/// Largest magnitude of a component of a direction: the difference of two
/// coordinates within `COORD_LIMIT`.
pub const SPAN_LIMIT: i64 = 1_000_000_000;

/// Largest radius of a circle.
pub const RADIUS_LIMIT: i64 = 2_000_000_000;

/// Distance tolerance: a thousandth of a length unit, in steps.
pub const TOLERANCE: i64 = 10;

/// Shortest edge that still has a direction: a hundredth of a length unit, in
/// steps.
pub const MIN_EDGE_LENGTH: i64 = 100;

/// Reciprocal of the squared angular tolerance: two directions count as
/// parallel when the squared sine of the angle between them is at most one
/// millionth.
pub const ANGLE_SCALE: i128 = 1_000_000;

/// `r` is the integer square root of `n`, rounded down.
pub open spec fn is_floor_sqrt(n: int, r: int) -> bool {
    0 <= r && r * r <= n < (r + 1) * (r + 1)
}

/// The integer square root of a non-negative `n`, rounded down.
pub open spec fn floor_sqrt(n: int) -> int {
    choose|r: int| is_floor_sqrt(n, r)
}

/// Squaring is strictly monotone on the non-negative integers.
pub proof fn lemma_square_strictly_monotone(a: int, b: int)
    by (nonlinear_arith)
    requires
        0 <= a < b,
    ensures
        a * a < b * b,
{
}

/// Squaring is monotone on the non-negative integers.
pub proof fn lemma_square_monotone(a: int, b: int)
    by (nonlinear_arith)
    requires
        0 <= a <= b,
    ensures
        a * a <= b * b,
{
}

/// A non-negative number whose square is at most the square of another
/// non-negative number is itself at most that number.
pub proof fn lemma_square_le_implies_le(a: int, b: int)
    requires
        0 <= a,
        0 <= b,
        a * a <= b * b,
    ensures
        a <= b,
{
    if b < a {
        lemma_square_strictly_monotone(b, a);
    }
}

/// At most one number is the rounded-down square root of `n`.
pub proof fn lemma_floor_sqrt_unique(n: int, r: int, s: int)
    requires
        is_floor_sqrt(n, r),
        is_floor_sqrt(n, s),
    ensures
        r == s,
{
    if r < s {
        lemma_square_monotone(r + 1, s);
    }
    if s < r {
        lemma_square_monotone(s + 1, r);
    }
}

/// Every non-negative number has a rounded-down square root, and
/// `floor_sqrt` names it.
pub proof fn lemma_floor_sqrt_is_root(n: int)
    requires
        0 <= n,
    ensures
        is_floor_sqrt(n, floor_sqrt(n)),
    decreases n,
{
    if n == 0 {
        assert(is_floor_sqrt(0, 0));
    } else {
        lemma_floor_sqrt_is_root(n - 1);
        let r = floor_sqrt(n - 1);
        if n < (r + 1) * (r + 1) {
            assert(is_floor_sqrt(n, r));
        } else {
            assert((r + 1) * (r + 1) == n);
            assert(n < (r + 2) * (r + 2)) by (nonlinear_arith)
                requires
                    (r + 1) * (r + 1) == n,
                    0 <= r,
            ;
            assert(is_floor_sqrt(n, r + 1));
        }
    }
}

/// Whatever satisfies `is_floor_sqrt` is the value of `floor_sqrt`.
pub proof fn lemma_floor_sqrt_is(n: int, r: int)
    requires
        is_floor_sqrt(n, r),
    ensures
        floor_sqrt(n) == r,
{
    lemma_floor_sqrt_unique(n, r, floor_sqrt(n));
}

/// The rounded-down square root does not decrease when its argument grows.
pub proof fn lemma_floor_sqrt_monotone(a: int, b: int)
    requires
        0 <= a <= b,
    ensures
        floor_sqrt(a) <= floor_sqrt(b),
{
    lemma_floor_sqrt_is_root(a);
    lemma_floor_sqrt_is_root(b);
    let r = floor_sqrt(a);
    let s = floor_sqrt(b);
    if s < r {
        lemma_square_monotone(s + 1, r);
    }
}

/// The rounded-down square root of a perfect square.
pub proof fn lemma_floor_sqrt_of_square(r: int)
    requires
        0 <= r,
    ensures
        floor_sqrt(r * r) == r,
{
    lemma_square_strictly_monotone(r, r + 1);
    lemma_floor_sqrt_is(r * r, r);
}

/// Integer square root, rounded down, by bisection.
pub fn isqrt(n: u128) -> (r: u64)
    ensures
        r == floor_sqrt(n as int),
        is_floor_sqrt(n as int, r as int),
{
    let mut lo: u128 = 0;
    let mut hi: u128 = 0x1_0000_0000_0000_0000;
    proof {
        assert(0x1_0000_0000_0000_0000int * 0x1_0000_0000_0000_0000int > u128::MAX)
            by (nonlinear_arith);
    }
    while hi - lo > 1
        invariant
            lo < hi <= 0x1_0000_0000_0000_0000,
            lo * lo <= n < hi * hi,
        decreases hi - lo,
    {
        let mid: u128 = lo + (hi - lo) / 2;
        proof {
            lemma_square_monotone(mid as int, 0xffff_ffff_ffff_ffff);
            assert(0xffff_ffff_ffff_ffffint * 0xffff_ffff_ffff_ffffint <= u128::MAX)
                by (nonlinear_arith);
        }
        if mid * mid <= n {
            lo = mid;
        } else {
            hi = mid;
        }
    }
    proof {
        assert(hi == lo + 1);
        lemma_floor_sqrt_is(n as int, lo as int);
    }
    lo as u64
}

/// Magnitude of a signed number.
pub open spec fn abs(a: int) -> int {
    if a < 0 {
        -a
    } else {
        a
    }
}

/// Magnitude of a signed number that is not the least of its type.
pub fn magnitude(a: i128) -> (m: u128)
    requires
        a > i128::MIN,
    ensures
        m == abs(a as int),
{
    if a < 0 {
        (-a) as u128
    } else {
        a as u128
    }
}

/// Quotient rounded towards negative infinity, for a positive divisor.
pub fn div_floor(a: i128, n: i128) -> (q: i128)
    requires
        n > 0,
        a > i128::MIN,
    ensures
        q == a / n,
{
    if a >= 0 {
        a / n
    } else {
        let m: i128 = -a;
        let k: i128 = (m - 1) / n;
        proof {
            // a = -(k * n + s + 1) with 0 <= s < n, so a = (-k - 1) * n + (n - 1 - s).
            let mi: int = m as int;
            let ni: int = n as int;
            let ki: int = k as int;
            let s: int = (mi - 1) % ni;
            vstd::arithmetic::div_mod::lemma_fundamental_div_mod(mi - 1, ni);
            assert(mi - 1 == ni * ki + s);
            assert(a == (-ki - 1) * ni + (ni - 1 - s)) by (nonlinear_arith)
                requires
                    mi - 1 == ni * ki + s,
                    a == -mi,
            ;
            vstd::arithmetic::div_mod::lemma_fundamental_div_mod_converse(
                a as int,
                ni,
                -ki - 1,
                ni - 1 - s,
            );
        }
        -k - 1
    }
}

} // verus!
