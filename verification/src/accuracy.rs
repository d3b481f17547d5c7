//! What the computed points are worth: each lies on the locus it was
//! computed for, and is the closest point or the meeting point that its name
//! promises, up to the rounding of its coordinates to whole steps.
//!
//! Distances are compared without square roots: `sqrt_le_plus(x, y, e)` says
//! of two squared distances `x` and `y` that the first distance exceeds the
//! second by at most `e` steps.

use vstd::prelude::*;
use crate::arith::{
    floor_sqrt, lemma_floor_sqrt_is_root, lemma_square_le_implies_le, lemma_square_monotone,
    lemma_square_strictly_monotone, TOLERANCE,
};
use crate::geometry::{Pos2, Vec2};
use crate::intersection::{
    circle_hits, hit, intersection_spec, meet, meeting_den, meeting_num, quarter_discriminant,
};
use crate::locus::{
    along, along_in_range, foot, lemma_foot_offsets, near_line, offset_area, projection, radial,
    Circle, ConstraintPath,
};

verus! {

/// The square root of `x` exceeds the square root of `y` by at most `e`,
/// for non-negative `x`, `y` and `e`. Squaring `sqrt x <= sqrt y + e` twice
/// gives the two cases.
pub open spec fn sqrt_le_plus(x: int, y: int, e: int) -> bool {
    x <= y + e * e || (x - y - e * e) * (x - y - e * e) <= 4 * (e * e) * y
}

/// The lengths whose squares are `a_sq` and `b_sq` differ by at most `e`.
pub open spec fn lengths_within(a_sq: int, b_sq: int, e: int) -> bool {
    sqrt_le_plus(a_sq, b_sq, e) && sqrt_le_plus(b_sq, a_sq, e)
}

/// Where a whole number `a` is at most the square root of `y`, and the
/// square root of `x` is at most `a + e`, the two roots differ by at most
/// `e`.
pub proof fn lemma_sqrt_le_plus(x: int, y: int, a: int, e: int)
    requires
        0 <= a,
        0 <= e,
        a * a <= y,
        x <= (a + e) * (a + e),
    ensures
        sqrt_le_plus(x, y, e),
{
    let g = x - y - e * e;
    if g > 0 {
        assert(g <= 2 * (a * e)) by (nonlinear_arith)
            requires
                g == x - y - e * e,
                a * a <= y,
                x <= (a + e) * (a + e),
        ;
        assert(0 <= a * e) by (nonlinear_arith)
            requires
                0 <= a,
                0 <= e,
        ;
        lemma_square_monotone(g, 2 * (a * e));
        assert((2 * (a * e)) * (2 * (a * e)) == 4 * (e * e) * (a * a)) by (nonlinear_arith);
        assert(4 * (e * e) * (a * a) <= 4 * (e * e) * y) by (nonlinear_arith)
            requires
                a * a <= y,
        ;
    }
}

/// The product of the squared lengths of two vectors is the square of their
/// scalar product plus the square of their cross product; and so for the
/// scalar product of two vectors with a third.
pub proof fn lemma_lagrange(ux: int, uy: int, vx: int, vy: int, dx: int, dy: int)
    ensures
        (ux * vx + uy * vy) * (dx * dx + dy * dy) == (ux * dx + uy * dy) * (vx * dx + vy * dy) + (ux
            * dy - uy * dx) * (vx * dy - vy * dx),
{
    let p = ux * vx;
    let q = uy * vy;
    let x = dx * dx;
    let y = dy * dy;
    let a = ux * dx;
    let b = uy * dy;
    let c = ux * dy;
    let e = uy * dx;
    let a2 = vx * dx;
    let b2 = vy * dy;
    let c2 = vx * dy;
    let e2 = vy * dx;
    lemma_swap_factors(ux, dx, vx, dx);
    lemma_swap_factors(uy, dy, vy, dy);
    lemma_swap_factors(ux, dy, vx, dy);
    lemma_swap_factors(uy, dx, vy, dx);
    assert(a * a2 == p * x && b * b2 == q * y && c * c2 == p * y && e * e2 == q * x);
    // the mixed terms cancel: both are ux * vy * dx * dy, and uy * vx * dx * dy
    lemma_swap_factors(ux, dx, vy, dy);
    lemma_swap_factors(ux, dy, vy, dx);
    assert(a * b2 == (ux * vy) * (dx * dy));
    assert(c * e2 == (ux * vy) * (dy * dx));
    lemma_swap_factors(uy, dy, vx, dx);
    lemma_swap_factors(uy, dx, vx, dy);
    assert(b * a2 == (uy * vx) * (dy * dx));
    assert(e * c2 == (uy * vx) * (dx * dy));
    assert(dx * dy == dy * dx) by (nonlinear_arith);
    assert((p + q) * (x + y) == p * x + p * y + q * x + q * y) by (nonlinear_arith);
    assert((a + b) * (a2 + b2) == a * a2 + a * b2 + b * a2 + b * b2) by (nonlinear_arith);
    assert((c - e) * (c2 - e2) == c * c2 - c * e2 - e * c2 + e * e2) by (nonlinear_arith);
}

/// A product of two products, with the inner factors exchanged.
proof fn lemma_swap_factors(a: int, b: int, c: int, d: int)
    by (nonlinear_arith)
    ensures
        (a * b) * (c * d) == (a * c) * (b * d),
{
}

/// A whole number `val` that a divisor `k` takes to a combination of two
/// remainders below `k` is small: less in magnitude than the sum of the
/// magnitudes of the two coefficients.
pub proof fn lemma_small_residue(val: int, k: int, a: int, b: int, rx: int, ry: int)
    requires
        k > 0,
        0 <= rx < k,
        0 <= ry < k,
        k * val == rx * a + ry * b,
    ensures
        val * val <= 2 * (a * a + b * b),
        a * a + b * b > 0 ==> val * val < 2 * (a * a + b * b),
{
    let p = if a < 0 {
        -a
    } else {
        a
    };
    let q = if b < 0 {
        -b
    } else {
        b
    };
    let t = p + q;
    assert(-((k - 1) * p) <= rx * a <= (k - 1) * p) by (nonlinear_arith)
        requires
            0 <= rx <= k - 1,
            p == a || p == -a,
            0 <= p,
    ;
    assert(-((k - 1) * q) <= ry * b <= (k - 1) * q) by (nonlinear_arith)
        requires
            0 <= ry <= k - 1,
            q == b || q == -b,
            0 <= q,
    ;
    assert((k - 1) * p + (k - 1) * q == (k - 1) * t) by (nonlinear_arith)
        requires
            t == p + q,
    ;
    if t == 0 {
        assert(a * a + b * b == 0) by (nonlinear_arith)
            requires
                a == 0,
                b == 0,
        ;
        assert(val == 0) by (nonlinear_arith)
            requires
                -((k - 1) * t) <= k * val <= (k - 1) * t,
                t == 0,
                k > 0,
        ;
    } else {
        assert(-(t - 1) <= val <= t - 1) by (nonlinear_arith)
            requires
                -((k - 1) * t) <= k * val <= (k - 1) * t,
                k > 0,
                t >= 1,
        ;
        assert(val * val <= (t - 1) * (t - 1)) by (nonlinear_arith)
            requires
                -(t - 1) <= val <= t - 1,
        ;
        assert((t - 1) * (t - 1) < 2 * (a * a + b * b)) by (nonlinear_arith)
            requires
                t == p + q,
                t >= 1,
                p == a || p == -a,
                q == b || q == -b,
        ;
    }
}

/// What rounding does to the foot of a perpendicular: the foot is off the
/// line by less than a step and a half, and where it is not held back at the
/// origin of a ray, the perpendicular from the point meets the line less
/// than a step and a half from it.
pub proof fn lemma_foot_residues(o: Pos2, d: Vec2, p: Pos2, clamp: bool)
    requires
        o.in_range(),
        d.in_range(),
        p.in_range(),
        d.norm_sq() > 0,
    ensures
        offset_area(o, d, foot(o, d, p, clamp)) * offset_area(o, d, foot(o, d, p, clamp)) < 2
            * d.norm_sq(),
        !clamp || projection(o, d, p) >= 0 ==> projection(foot(o, d, p, clamp), d, p) * projection(
            foot(o, d, p, clamp),
            d,
            p,
        ) < 2 * d.norm_sq(),
{
    let n = d.norm_sq();
    let q = foot(o, d, p, clamp);
    lemma_foot_offsets(o, d, p, clamp);
    let s = projection(o, d, p);
    let num = if clamp && s < 0 {
        0
    } else {
        s
    };
    let dx = d.x as int;
    let dy = d.y as int;
    let ax = (dx * num) / n;
    let ay = (dy * num) / n;
    let rx = (dx * num) % n;
    let ry = (dy * num) % n;
    vstd::arithmetic::div_mod::lemma_fundamental_div_mod(dx * num, n);
    vstd::arithmetic::div_mod::lemma_fundamental_div_mod(dy * num, n);
    let area = offset_area(o, d, q);
    assert(area == ax * dy - ay * dx);
    lemma_scaled_cross(n, ax, ay, rx, ry, dx, dy, num, dx, dy);
    assert(dx * dy - dy * dx == 0) by (nonlinear_arith);
    assert(num * (dx * dy - dy * dx) == 0) by (nonlinear_arith)
        requires
            dx * dy - dy * dx == 0,
    ;
    assert((-dy) * (-dy) == dy * dy) by (nonlinear_arith);
    lemma_small_residue(area, n, -dy, dx, rx, ry);
    if !clamp || s >= 0 {
        let res = projection(q, d, p);
        let wx = p.x - o.x;
        let wy = p.y - o.y;
        assert((wx - ax) * dx == wx * dx - ax * dx) by (nonlinear_arith);
        assert((wy - ay) * dy == wy * dy - ay * dy) by (nonlinear_arith);
        assert(res == s - (ax * dx + ay * dy));
        lemma_scaled_dot(n, ax, ay, rx, ry, dx, dy, s, dx, dy);
        assert(n * res == n * s - n * (ax * dx + ay * dy)) by (nonlinear_arith)
            requires
                res == s - (ax * dx + ay * dy),
        ;
        assert(s * n == n * s) by (nonlinear_arith);
        lemma_small_residue(res, n, dx, dy, rx, ry);
    }
}

/// The quotients `ax` and `ay` of `dx * num` and `dy * num` by `k`, with the
/// remainders `rx` and `ry`, as a vector: `k` times its cross product with
/// `(ex, ey)`.
proof fn lemma_scaled_cross(
    k: int,
    ax: int,
    ay: int,
    rx: int,
    ry: int,
    dx: int,
    dy: int,
    num: int,
    ex: int,
    ey: int,
)
    requires
        dx * num == k * ax + rx,
        dy * num == k * ay + ry,
    ensures
        k * (ax * ey - ay * ex) == num * (dx * ey - dy * ex) + rx * (-ey) + ry * ex,
{
    assert(k * (ax * ey - ay * ex) == (k * ax) * ey - (k * ay) * ex) by (nonlinear_arith);
    assert((dx * num - rx) * ey == num * (dx * ey) - rx * ey) by (nonlinear_arith);
    assert((dy * num - ry) * ex == num * (dy * ex) - ry * ex) by (nonlinear_arith);
    assert(num * (dx * ey) - num * (dy * ex) == num * (dx * ey - dy * ex)) by (nonlinear_arith);
    assert(rx * (-ey) == -(rx * ey)) by (nonlinear_arith);
}

/// The same vector: `k` times its scalar product with `(ex, ey)`.
proof fn lemma_scaled_dot(
    k: int,
    ax: int,
    ay: int,
    rx: int,
    ry: int,
    dx: int,
    dy: int,
    num: int,
    ex: int,
    ey: int,
)
    requires
        dx * num == k * ax + rx,
        dy * num == k * ay + ry,
    ensures
        k * (ax * ex + ay * ey) == num * (dx * ex + dy * ey) - (rx * ex + ry * ey),
{
    assert(k * (ax * ex + ay * ey) == (k * ax) * ex + (k * ay) * ey) by (nonlinear_arith);
    assert((dx * num - rx) * ex == num * (dx * ex) - rx * ex) by (nonlinear_arith);
    assert((dy * num - ry) * ey == num * (dy * ey) - ry * ey) by (nonlinear_arith);
    assert(num * (dx * ex) + num * (dy * ey) == num * (dx * ex + dy * ey)) by (nonlinear_arith);
}

/// A quotient by a positive divisor never has the sign opposite to that of
/// its numerator.
proof fn lemma_quotient_sign(a: int, k: int)
    requires
        k > 0,
    ensures
        a >= 0 ==> a / k >= 0,
        a <= 0 ==> a / k <= 0,
{
    vstd::arithmetic::div_mod::lemma_fundamental_div_mod(a, k);
    let q = a / k;
    let r = a % k;
    if a >= 0 && q < 0 {
        assert(k * q <= -k) by (nonlinear_arith)
            requires
                q <= -1,
                k > 0,
        ;
    }
    if a <= 0 && q > 0 {
        assert(k * q >= k) by (nonlinear_arith)
            requires
                q >= 1,
                k > 0,
        ;
    }
}

/// The closest point of a line or ray, as it is computed, lies within the
/// distance tolerance of the line.
pub proof fn lemma_foot_near_line(o: Pos2, d: Vec2, p: Pos2, clamp: bool)
    requires
        o.in_range(),
        d.in_range(),
        p.in_range(),
    ensures
        near_line(o, d, foot(o, d, p, clamp)),
{
    let n = d.norm_sq();
    assert(d.x * d.x >= 0 && d.y * d.y >= 0) by (nonlinear_arith);
    if n > 0 {
        lemma_foot_residues(o, d, p, clamp);
        let area = offset_area(o, d, foot(o, d, p, clamp));
        assert(area * area < TOLERANCE * TOLERANCE * n) by (nonlinear_arith)
            requires
                area * area < 2 * n,
                n > 0,
                TOLERANCE == 10,
        ;
    }
}

/// The closest point of a ray, as it is computed, lies on the forward side
/// of the origin of the ray.
pub proof fn lemma_ray_foot_is_forward(o: Pos2, d: Vec2, p: Pos2)
    requires
        o.in_range(),
        d.in_range(),
        p.in_range(),
    ensures
        projection(o, d, foot(o, d, p, true)) >= 0,
{
    let n = d.norm_sq();
    let q = foot(o, d, p, true);
    let dx = d.x as int;
    let dy = d.y as int;
    assert(dx * dx >= 0 && dy * dy >= 0) by (nonlinear_arith);
    assert(0 * dx == 0 && 0 * dy == 0);
    let s = projection(o, d, p);
    if n > 0 && s >= 0 {
        lemma_foot_offsets(o, d, p, true);
        // each offset of the foot has the sign of the direction along its axis
        let ax = (dx * s) / n;
        let ay = (dy * s) / n;
        assert(q.x - o.x == ax && q.y - o.y == ay);
        lemma_offset_follows_direction(dx, s, n);
        lemma_offset_follows_direction(dy, s, n);
    } else if n > 0 {
        lemma_foot_offsets(o, d, p, true);
        assert(dx * 0 == 0 && dy * 0 == 0);
        assert(q == o);
    } else {
        assert(q == o);
    }
}

/// A non-negative share of a step points the way of the step: the quotient
/// of `d * s` by `n`, times `d`, is not negative.
proof fn lemma_offset_follows_direction(d: int, s: int, n: int)
    requires
        s >= 0,
        n > 0,
    ensures
        ((d * s) / n) * d >= 0,
{
    lemma_quotient_sign(d * s, n);
    let a = (d * s) / n;
    if d >= 0 {
        assert(d * s >= 0) by (nonlinear_arith)
            requires
                d >= 0,
                s >= 0,
        ;
        assert(a * d >= 0) by (nonlinear_arith)
            requires
                a >= 0,
                d >= 0,
        ;
    } else {
        assert(d * s <= 0) by (nonlinear_arith)
            requires
                d < 0,
                s >= 0,
        ;
        assert(a * d >= 0) by (nonlinear_arith)
            requires
                a <= 0,
                d < 0,
        ;
    }
}

/// The closest point of a line, as it is computed, is the closest: no point
/// of the line is nearer to `p` by more than two steps. Here `x` is any
/// point on the line.
pub proof fn law_line_point_is_closest(o: Pos2, d: Vec2, p: Pos2, x: Pos2)
    requires
        o.in_range(),
        d.in_range(),
        p.in_range(),
        d.norm_sq() > 0,
        offset_area(o, d, x) == 0,
    ensures
        sqrt_le_plus(p.dist_sq(foot(o, d, p, false)), p.dist_sq(x), 2),
{
    let n = d.norm_sq();
    let q = foot(o, d, p, false);
    lemma_foot_residues(o, d, p, false);
    let a = offset_area(o, d, p);
    let area = offset_area(o, d, q);
    let res = projection(q, d, p);
    let got = p.dist_sq(q);
    let best = p.dist_sq(x);
    // n * best = (projection of p - x)^2 + a^2
    let px = projection(x, d, p);
    lemma_lagrange(p.x - x.x, p.y - x.y, p.x - x.x, p.y - x.y, d.x as int, d.y as int);
    assert(offset_area(x, d, p) == a) by (nonlinear_arith)
        requires
            offset_area(x, d, p) == (p.x - x.x) * d.y - (p.y - x.y) * d.x,
            a == (p.x - o.x) * d.y - (p.y - o.y) * d.x,
            (x.x - o.x) * d.y - (x.y - o.y) * d.x == 0,
    ;
    assert(best == (x.x - p.x) * (x.x - p.x) + (x.y - p.y) * (x.y - p.y));
    assert(best * n == px * px + a * a) by (nonlinear_arith)
        requires
            best == (x.x - p.x) * (x.x - p.x) + (x.y - p.y) * (x.y - p.y),
            ((p.x - x.x) * (p.x - x.x) + (p.y - x.y) * (p.y - x.y)) * (d.x * d.x + d.y * d.y) == (
            (p.x - x.x) * d.x + (p.y - x.y) * d.y) * ((p.x - x.x) * d.x + (p.y - x.y) * d.y) + ((p.x
                - x.x) * d.y - (p.y - x.y) * d.x) * ((p.x - x.x) * d.y - (p.y - x.y) * d.x),
            px == (p.x - x.x) * d.x + (p.y - x.y) * d.y,
            a == (p.x - x.x) * d.y - (p.y - x.y) * d.x,
            n == d.x * d.x + d.y * d.y,
    ;
    // n * got = res^2 + (a - area)^2
    lemma_lagrange(p.x - q.x, p.y - q.y, p.x - q.x, p.y - q.y, d.x as int, d.y as int);
    assert(offset_area(q, d, p) == a - area) by (nonlinear_arith)
        requires
            offset_area(q, d, p) == (p.x - q.x) * d.y - (p.y - q.y) * d.x,
            a == (p.x - o.x) * d.y - (p.y - o.y) * d.x,
            area == (q.x - o.x) * d.y - (q.y - o.y) * d.x,
    ;
    assert(got * n == res * res + (a - area) * (a - area)) by (nonlinear_arith)
        requires
            got == (q.x - p.x) * (q.x - p.x) + (q.y - p.y) * (q.y - p.y),
            ((p.x - q.x) * (p.x - q.x) + (p.y - q.y) * (p.y - q.y)) * (d.x * d.x + d.y * d.y) == (
            (p.x - q.x) * d.x + (p.y - q.y) * d.y) * ((p.x - q.x) * d.x + (p.y - q.y) * d.y) + ((p.x
                - q.x) * d.y - (p.y - q.y) * d.x) * ((p.x - q.x) * d.y - (p.y - q.y) * d.x),
            res == (p.x - q.x) * d.x + (p.y - q.y) * d.y,
            a - area == (p.x - q.x) * d.y - (p.y - q.y) * d.x,
            n == d.x * d.x + d.y * d.y,
    ;
    lemma_gap_of_close_points(got, best, n, a, area, res, px);
}

/// The arithmetic of `law_line_point_is_closest`: a point whose offsets
/// from the true foot are below a step and a half, along the line and
/// across it, is at most two steps further from `p` than any point of the
/// line.
proof fn lemma_gap_of_close_points(got: int, best: int, n: int, a: int, area: int, res: int, px: int)
    requires
        n > 0,
        best * n == px * px + a * a,
        got * n == res * res + (a - area) * (a - area),
        area * area < 2 * n,
        res * res < 2 * n,
    ensures
        sqrt_le_plus(got, best, 2),
{
    let g = got - best - 4;
    if g > 0 {
        let u = -(a * area);
        assert(px * px >= 0) by (nonlinear_arith);
        assert(g * n < 2 * u) by (nonlinear_arith)
            requires
                g == got - best - 4,
                best * n == px * px + a * a,
                got * n == res * res + (a - area) * (a - area),
                area * area < 2 * n,
                res * res < 2 * n,
                px * px >= 0,
                u == -(a * area),
        ;
        assert(0 < g * n) by (nonlinear_arith)
            requires
                g > 0,
                n > 0,
        ;
        lemma_square_strictly_monotone(g * n, 2 * u);
        assert((2 * u) * (2 * u) == 4 * (a * a) * (area * area)) by (nonlinear_arith)
            requires
                u == -(a * area),
        ;
        assert(a * a > 0) by (nonlinear_arith)
            requires
                0 < 2 * u,
                u == -(a * area),
        ;
        assert(4 * (a * a) * (area * area) < 4 * (a * a) * (2 * n)) by (nonlinear_arith)
            requires
                area * area < 2 * n,
                a * a > 0,
        ;
        assert(a * a <= best * n);
        assert(4 * (a * a) * (2 * n) <= 8 * (best * n) * n) by (nonlinear_arith)
            requires
                a * a <= best * n,
                n > 0,
        ;
        assert((g * n) * (g * n) == (g * g) * (n * n)) by (nonlinear_arith);
        assert(8 * (best * n) * n == (8 * best) * (n * n)) by (nonlinear_arith);
        assert(g * g < 8 * best) by (nonlinear_arith)
            requires
                (g * g) * (n * n) < (8 * best) * (n * n),
                n > 0,
        ;
        assert(g * g >= 0) by (nonlinear_arith);
        assert(g * g <= 16 * best);
        assert(4 * (2 * 2) * best == 16 * best) by (nonlinear_arith);
        assert(got - best - 2 * 2 == g);
    }
}

/// The closest point of a ray, as it is computed, is the closest: no point
/// of the ray is nearer to `p` by more than two steps. Here `x` is any point
/// on the ray: on its line, and on the forward side of its origin.
pub proof fn law_ray_point_is_closest(o: Pos2, d: Vec2, p: Pos2, x: Pos2)
    requires
        o.in_range(),
        d.in_range(),
        p.in_range(),
        d.norm_sq() > 0,
        offset_area(o, d, x) == 0,
        projection(o, d, x) >= 0,
    ensures
        sqrt_le_plus(p.dist_sq(foot(o, d, p, true)), p.dist_sq(x), 2),
{
    let n = d.norm_sq();
    let s = projection(o, d, p);
    if s >= 0 {
        assert(foot(o, d, p, true) == foot(o, d, p, false));
        law_line_point_is_closest(o, d, p, x);
    } else {
        lemma_foot_offsets(o, d, p, true);
        assert(d.x * 0 == 0 && d.y * 0 == 0);
        assert(foot(o, d, p, true) == o);
        // (p - o) . (x - o) * n = s * projection(o, d, x) + 0 <= 0
        let t = projection(o, d, x);
        let w = (p.x - o.x) * (x.x - o.x) + (p.y - o.y) * (x.y - o.y);
        lemma_lagrange(p.x - o.x, p.y - o.y, x.x - o.x, x.y - o.y, d.x as int, d.y as int);
        assert(w * n == s * t) by (nonlinear_arith)
            requires
                ((p.x - o.x) * (x.x - o.x) + (p.y - o.y) * (x.y - o.y)) * (d.x * d.x + d.y * d.y)
                    == ((p.x - o.x) * d.x + (p.y - o.y) * d.y) * ((x.x - o.x) * d.x + (x.y - o.y)
                    * d.y) + ((p.x - o.x) * d.y - (p.y - o.y) * d.x) * ((x.x - o.x) * d.y - (x.y
                    - o.y) * d.x),
                w == (p.x - o.x) * (x.x - o.x) + (p.y - o.y) * (x.y - o.y),
                n == d.x * d.x + d.y * d.y,
                s == (p.x - o.x) * d.x + (p.y - o.y) * d.y,
                t == (x.x - o.x) * d.x + (x.y - o.y) * d.y,
                (x.x - o.x) * d.y - (x.y - o.y) * d.x == 0,
        ;
        assert(w <= 0) by (nonlinear_arith)
            requires
                w * n == s * t,
                s < 0,
                t >= 0,
                n > 0,
        ;
        // |x - p|^2 = |x - o|^2 + |o - p|^2 - 2 w
        let ex = x.x - o.x;
        let ey = x.y - o.y;
        let fx = o.x - p.x;
        let fy = o.y - p.y;
        assert((ex + fx) * (ex + fx) == ex * ex + 2 * (ex * fx) + fx * fx) by (nonlinear_arith);
        assert((ey + fy) * (ey + fy) == ey * ey + 2 * (ey * fy) + fy * fy) by (nonlinear_arith);
        assert(ex * ex >= 0 && ey * ey >= 0) by (nonlinear_arith);
        assert((-fx) * ex == -(ex * fx) && (-fy) * ey == -(ey * fy)) by (nonlinear_arith);
        assert(w == -(ex * fx) - (ey * fy));
        assert(p.dist_sq(x) == (ex + fx) * (ex + fx) + (ey + fy) * (ey + fy));
        assert(p.dist_sq(o) == fx * fx + fy * fy);
    }
}

/// Two lines through one point along parallel directions are one line: a
/// point is as far from the one as from the other, measured in lengths of
/// the directions.
pub proof fn lemma_parallel_lines_agree(o: Pos2, d1: Vec2, d2: Vec2, q: Pos2)
    requires
        d1.cross(d2) == 0,
        d1.norm_sq() > 0,
    ensures
        offset_area(o, d2, q) * offset_area(o, d2, q) * d1.norm_sq() == offset_area(o, d1, q)
            * offset_area(o, d1, q) * d2.norm_sq(),
{
    let wx = q.x - o.x;
    let wy = q.y - o.y;
    let a1 = offset_area(o, d1, q);
    let a2 = offset_area(o, d2, q);
    assert(a2 * d1.x == a1 * d2.x) by (nonlinear_arith)
        requires
            a1 == wx * d1.y - wy * d1.x,
            a2 == wx * d2.y - wy * d2.x,
            d1.x * d2.y - d1.y * d2.x == 0,
    ;
    assert(a2 * d1.y == a1 * d2.y) by (nonlinear_arith)
        requires
            a1 == wx * d1.y - wy * d1.x,
            a2 == wx * d2.y - wy * d2.x,
            d1.x * d2.y - d1.y * d2.x == 0,
    ;
    let u = a2 * d1.x;
    let v = a2 * d1.y;
    assert(a2 * a2 * (d1.x * d1.x + d1.y * d1.y) == u * u + v * v) by (nonlinear_arith)
        requires
            u == a2 * d1.x,
            v == a2 * d1.y,
    ;
    assert(a1 * a1 * (d2.x * d2.x + d2.y * d2.y) == u * u + v * v) by (nonlinear_arith)
        requires
            u == a1 * d2.x,
            v == a1 * d2.y,
    ;
}

/// A point within the distance tolerance of a line is within it of every
/// line through the same origin along a parallel direction.
pub proof fn lemma_near_parallel_line(o: Pos2, d1: Vec2, d2: Vec2, q: Pos2)
    requires
        d1.cross(d2) == 0,
        d1.norm_sq() > 0,
        d2.norm_sq() > 0,
        near_line(o, d1, q),
    ensures
        near_line(o, d2, q),
{
    lemma_parallel_lines_agree(o, d1, d2, q);
    let a1 = offset_area(o, d1, q);
    let a2 = offset_area(o, d2, q);
    let n1 = d1.norm_sq();
    let n2 = d2.norm_sq();
    let t = TOLERANCE * TOLERANCE;
    assert(a2 * a2 < t * n2) by (nonlinear_arith)
        requires
            a2 * a2 * n1 == a1 * a1 * n2,
            a1 * a1 < t * n1,
            n1 > 0,
            n2 > 0,
    ;
}

/// The rounded coordinates of the closest point of a circle: their squares
/// add up to at most the squared radius, and to no less than the squared
/// radius less four radii and one.
pub proof fn lemma_radial_sum(wx: int, wy: int, r: int, m: int)
    requires
        m == wx * wx + wy * wy,
        m > 0,
        r >= 0,
    ensures
        -r <= radial(wx, r, m) <= r,
        -r <= radial(wy, r, m) <= r,
        radial(wx, r, m) * radial(wx, r, m) + radial(wy, r, m) * radial(wy, r, m) <= r * r,
        r * r <= radial(wx, r, m) * radial(wx, r, m) + radial(wy, r, m) * radial(wy, r, m) + 4 * r
            + 1,
{
    let r2 = r * r;
    let ax = wx * wx * r2;
    let ay = wy * wy * r2;
    assert(wx * wx >= 0 && wy * wy >= 0 && r2 >= 0) by (nonlinear_arith)
        requires
            r2 == r * r,
    ;
    assert(ax >= 0 && ay >= 0) by (nonlinear_arith)
        requires
            ax == wx * wx * r2,
            ay == wy * wy * r2,
            wx * wx >= 0,
            wy * wy >= 0,
            r2 >= 0,
    ;
    let x = ax / m;
    let y = ay / m;
    let rx = ax % m;
    let ry = ay % m;
    vstd::arithmetic::div_mod::lemma_fundamental_div_mod(ax, m);
    vstd::arithmetic::div_mod::lemma_fundamental_div_mod(ay, m);
    assert(ax + ay == m * r2) by (nonlinear_arith)
        requires
            ax == wx * wx * r2,
            ay == wy * wy * r2,
            m == wx * wx + wy * wy,
    ;
    // m * (x + y) + rx + ry == m * r2, with 0 <= rx + ry < 2 m
    assert(m * x + m * y == m * (x + y)) by (nonlinear_arith);
    assert(r2 - 1 <= x + y <= r2) by (nonlinear_arith)
        requires
            m * (x + y) + rx + ry == m * r2,
            0 <= rx < m,
            0 <= ry < m,
            m > 0,
    ;
    assert(x >= 0) by (nonlinear_arith)
        requires
            ax == m * x + rx,
            ax >= 0,
            0 <= rx < m,
            m > 0,
    ;
    assert(y >= 0) by (nonlinear_arith)
        requires
            ay == m * y + ry,
            ay >= 0,
            0 <= ry < m,
            m > 0,
    ;
    lemma_floor_sqrt_is_root(x);
    lemma_floor_sqrt_is_root(y);
    let sx = floor_sqrt(x);
    let sy = floor_sqrt(y);
    assert(sx * sx <= r * r);
    assert(sy * sy <= r * r);
    lemma_square_le_implies_le(sx, r);
    lemma_square_le_implies_le(sy, r);
    let qx = radial(wx, r, m);
    let qy = radial(wy, r, m);
    assert(qx == sx || qx == -sx);
    assert(qy == sy || qy == -sy);
    assert(qx * qx == sx * sx) by (nonlinear_arith)
        requires
            qx == sx || qx == -sx,
    ;
    assert(qy * qy == sy * sy) by (nonlinear_arith)
        requires
            qy == sy || qy == -sy,
    ;
    assert((sx + 1) * (sx + 1) == sx * sx + 2 * sx + 1) by (nonlinear_arith);
    assert((sy + 1) * (sy + 1) == sy * sy + 2 * sy + 1) by (nonlinear_arith);
}

/// The closest point of a circle, as it is computed, lies on the circle up
/// to rounding: its squared distance from the centre is at most the squared
/// radius, and no less than that less four radii and one.
pub proof fn lemma_circle_point_distance(c: Circle, p: Pos2)
    requires
        c.wf(),
        p.in_range(),
    ensures
        c.origin.dist_sq(c.closest_point_spec(p)) <= c.radius * c.radius,
        c.radius * c.radius <= c.origin.dist_sq(c.closest_point_spec(p)) + 4 * c.radius + 1,
{
    let wx = p.x - c.origin.x;
    let wy = p.y - c.origin.y;
    let m = wx * wx + wy * wy;
    let r = c.radius as int;
    let q = c.closest_point_spec(p);
    assert(wx * wx >= 0 && wy * wy >= 0) by (nonlinear_arith);
    if m < TOLERANCE * TOLERANCE {
        assert(q.x - c.origin.x == 0);
        assert(q.y - c.origin.y == -r);
        assert(c.origin.dist_sq(q) == r * r) by (nonlinear_arith)
            requires
                q.x - c.origin.x == 0,
                q.y - c.origin.y == -r,
                c.origin.dist_sq(q) == (q.x - c.origin.x) * (q.x - c.origin.x) + (q.y
                    - c.origin.y) * (q.y - c.origin.y),
        ;
    } else {
        lemma_radial_sum(wx, wy, r, m);
        assert(q.x - c.origin.x == radial(wx, r, m));
        assert(q.y - c.origin.y == radial(wy, r, m));
    }
}

/// The closest point of a circle, as it is computed, lies on the circle: it
/// is as far from the centre as the radius says, within four steps.
pub proof fn law_circle_point_is_on_circle(c: Circle, p: Pos2)
    requires
        c.wf(),
        p.in_range(),
    ensures
        lengths_within(c.origin.dist_sq(c.closest_point_spec(p)), c.radius * c.radius, 4),
{
    lemma_circle_point_distance(c, p);
    let r = c.radius as int;
    let q = c.closest_point_spec(p);
    let dist_sq = c.origin.dist_sq(q);
    // sqrt dist_sq <= r <= r + 4
    assert(sqrt_le_plus(dist_sq, r * r, 4));
    // r <= sqrt dist_sq + 4: with a = max(r - 4, 0), a * a <= dist_sq and r <= a + 4
    if r <= 4 {
        assert(dist_sq >= 0) by (nonlinear_arith)
            requires
                dist_sq == (q.x - c.origin.x) * (q.x - c.origin.x) + (q.y - c.origin.y) * (q.y
                    - c.origin.y),
        ;
        assert(r * r <= (0 + 4) * (0 + 4)) by (nonlinear_arith)
            requires
                0 <= r <= 4,
        ;
        lemma_sqrt_le_plus(r * r, dist_sq, 0, 4);
    } else {
        assert((r - 4) * (r - 4) <= dist_sq) by (nonlinear_arith)
            requires
                r * r <= dist_sq + 4 * r + 1,
                r >= 5,
        ;
        assert(r * r <= ((r - 4) + 4) * ((r - 4) + 4));
        lemma_sqrt_le_plus(r * r, dist_sq, r - 4, 4);
    }
}

/// Of two shares of a radius, rounded down, neither outweighs the other:
/// `sx` is the rounded share of `a` and `sy` that of `b`, and `sx * b` stays
/// below `(sy + 1) * a`.
proof fn lemma_shares_balance(a: int, b: int, r2: int, m: int, sx: int, sy: int)
    requires
        0 < a,
        0 <= b,
        0 < m,
        0 <= sx,
        0 <= sy,
        sx * sx * m <= a * a * r2,
        b * b * r2 < (sy + 1) * (sy + 1) * m,
    ensures
        sx * b < (sy + 1) * a,
{
    if sx * b >= (sy + 1) * a {
        assert((sy + 1) * a > 0) by (nonlinear_arith)
            requires
                sy >= 0,
                a > 0,
        ;
        lemma_square_monotone((sy + 1) * a, sx * b);
        assert(((sy + 1) * a) * ((sy + 1) * a) == (sy + 1) * (sy + 1) * (a * a))
            by (nonlinear_arith);
        assert((sx * b) * (sx * b) == sx * sx * (b * b)) by (nonlinear_arith);
        // multiply the two bounds: (sy+1)^2 a^2 m * ... contradiction
        assert((sy + 1) * (sy + 1) * (a * a) * m > b * b * r2 * (a * a)) by (nonlinear_arith)
            requires
                b * b * r2 < (sy + 1) * (sy + 1) * m,
                a > 0,
        ;
        assert(sx * sx * (b * b) * m <= a * a * r2 * (b * b)) by (nonlinear_arith)
            requires
                sx * sx * m <= a * a * r2,
                b * b >= 0,
        ;
        assert(b * b >= 0) by (nonlinear_arith);
        assert(a * a * r2 * (b * b) == b * b * r2 * (a * a)) by (nonlinear_arith);
        assert((sy + 1) * (sy + 1) * (a * a) * m <= sx * sx * (b * b) * m) by (nonlinear_arith)
            requires
                (sy + 1) * (sy + 1) * (a * a) <= sx * sx * (b * b),
                m > 0,
        ;
        assert(false);
    }
}

/// The closest point of a circle, as it is computed, lies on the bearing
/// from the centre to `p`: within the distance tolerance of the line from
/// the centre through `p`, and on the side of `p`. This holds where `p` is
/// not so near the centre that it has no bearing.
pub proof fn law_circle_point_is_on_bearing(c: Circle, p: Pos2)
    requires
        c.wf(),
        p.in_range(),
        c.origin.dist_sq(p) >= TOLERANCE * TOLERANCE,
    ensures
        near_line(c.origin, c.origin.span_to(p), c.closest_point_spec(p)),
        projection(c.origin, c.origin.span_to(p), c.closest_point_spec(p)) >= 0,
{
    let o = c.origin;
    let w = o.span_to(p);
    let wx = p.x - o.x;
    let wy = p.y - o.y;
    assert(w.x == wx && w.y == wy);
    let m = wx * wx + wy * wy;
    let r = c.radius as int;
    let r2 = r * r;
    let q = c.closest_point_spec(p);
    lemma_radial_sum(wx, wy, r, m);
    let vx = radial(wx, r, m);
    let vy = radial(wy, r, m);
    assert(q.x - o.x == vx);
    assert(q.y - o.y == vy);
    let a = if wx < 0 {
        -wx
    } else {
        wx
    };
    let b = if wy < 0 {
        -wy
    } else {
        wy
    };
    assert(wx * wx >= 0 && wy * wy >= 0 && r2 >= 0) by (nonlinear_arith)
        requires
            r2 == r * r,
    ;
    let ax = wx * wx * r2;
    let ay = wy * wy * r2;
    assert(ax >= 0 && ay >= 0) by (nonlinear_arith)
        requires
            ax == wx * wx * r2,
            ay == wy * wy * r2,
            wx * wx >= 0,
            wy * wy >= 0,
            r2 >= 0,
    ;
    vstd::arithmetic::div_mod::lemma_fundamental_div_mod(ax, m);
    vstd::arithmetic::div_mod::lemma_fundamental_div_mod(ay, m);
    let x = ax / m;
    let y = ay / m;
    assert(x >= 0) by (nonlinear_arith)
        requires
            ax == m * x + ax % m,
            ax >= 0,
            0 <= ax % m < m,
            m > 0,
    ;
    assert(y >= 0) by (nonlinear_arith)
        requires
            ay == m * y + ay % m,
            ay >= 0,
            0 <= ay % m < m,
            m > 0,
    ;
    lemma_floor_sqrt_is_root(x);
    lemma_floor_sqrt_is_root(y);
    let sx = floor_sqrt(x);
    let sy = floor_sqrt(y);
    assert(a * a == wx * wx && b * b == wy * wy) by (nonlinear_arith)
        requires
            a == wx || a == -wx,
            b == wy || b == -wy,
    ;
    // sx^2 m <= x m <= a^2 r2 < (x + 1) m <= (sx + 1)^2 m
    assert(sx * sx * m <= a * a * r2 && a * a * r2 < (sx + 1) * (sx + 1) * m) by (nonlinear_arith)
        requires
            sx * sx <= x < (sx + 1) * (sx + 1),
            ax == m * x + ax % m,
            0 <= ax % m < m,
            ax == a * a * r2,
            m > 0,
    ;
    assert(sy * sy * m <= b * b * r2 && b * b * r2 < (sy + 1) * (sy + 1) * m) by (nonlinear_arith)
        requires
            sy * sy <= y < (sy + 1) * (sy + 1),
            ay == m * y + ay % m,
            0 <= ay % m < m,
            ay == b * b * r2,
            m > 0,
    ;
    // the cross product of the computed offset and the bearing
    let cross = vx * wy - vy * wx;
    let lean = sx * b - sy * a;
    assert(cross == lean || cross == -lean) by (nonlinear_arith)
        requires
            cross == vx * wy - vy * wx,
            lean == sx * b - sy * a,
            (wx < 0 && vx == -sx && a == -wx) || (wx >= 0 && vx == sx && a == wx),
            (wy < 0 && vy == -sy && b == -wy) || (wy >= 0 && vy == sy && b == wy),
    ;
    if a == 0 {
        assert(sx * sx * m <= 0) by (nonlinear_arith)
            requires
                sx * sx * m <= a * a * r2,
                a == 0,
        ;
        assert(sx == 0) by (nonlinear_arith)
            requires
                sx * sx * m <= 0,
                m > 0,
                sx >= 0,
        ;
        assert(lean == 0) by (nonlinear_arith)
            requires
                lean == sx * b - sy * a,
                sx == 0,
                a == 0,
        ;
    } else if b == 0 {
        assert(sy * sy * m <= 0) by (nonlinear_arith)
            requires
                sy * sy * m <= b * b * r2,
                b == 0,
        ;
        assert(sy == 0) by (nonlinear_arith)
            requires
                sy * sy * m <= 0,
                m > 0,
                sy >= 0,
        ;
        assert(lean == 0) by (nonlinear_arith)
            requires
                lean == sx * b - sy * a,
                sy == 0,
                b == 0,
        ;
    } else {
        lemma_shares_balance(a, b, r2, m, sx, sy);
        lemma_shares_balance(b, a, r2, m, sy, sx);
        assert(-b < lean < a) by (nonlinear_arith)
            requires
                lean == sx * b - sy * a,
                sx * b < (sy + 1) * a,
                sy * a < (sx + 1) * b,
        ;
    }
    assert(lean * lean <= m) by (nonlinear_arith)
        requires
            -b <= lean <= a,
            0 <= a,
            0 <= b,
            m == a * a + b * b,
    ;
    assert(cross * cross == lean * lean) by (nonlinear_arith)
        requires
            cross == lean || cross == -lean,
    ;
    assert(offset_area(o, w, q) == cross);
    assert(w.norm_sq() == m);
    assert(cross * cross < TOLERANCE * TOLERANCE * m) by (nonlinear_arith)
        requires
            cross * cross <= m,
            m > 0,
            TOLERANCE == 10,
    ;
    // the scalar product of the computed offset and the bearing
    let along = vx * wx + vy * wy;
    assert(along == sx * a + sy * b) by (nonlinear_arith)
        requires
            along == vx * wx + vy * wy,
            (wx < 0 && vx == -sx && a == -wx) || (wx >= 0 && vx == sx && a == wx),
            (wy < 0 && vy == -sy && b == -wy) || (wy >= 0 && vy == sy && b == wy),
    ;
    assert(along >= 0) by (nonlinear_arith)
        requires
            along == sx * a + sy * b,
            sx >= 0,
            sy >= 0,
            a >= 0,
            b >= 0,
    ;
    assert(projection(o, w, q) == along);
}

/// The position `q` is not behind the origin `o` of the ray along `d` by the
/// distance tolerance or more.
pub open spec fn not_behind(o: Pos2, d: Vec2, q: Pos2) -> bool {
    projection(o, d, q) >= 0 || projection(o, d, q) * projection(o, d, q) < TOLERANCE * TOLERANCE
        * d.norm_sq()
}

/// The position `q` lies on the locus, within the distance tolerance: as
/// far from the centre of a circle as its radius says, near a line, near a
/// ray and not behind its origin, and at a point itself.
pub open spec fn on_locus(path: ConstraintPath, q: Pos2) -> bool {
    match path {
        ConstraintPath::Circle(c) => lengths_within(
            c.origin.dist_sq(q),
            c.radius * c.radius,
            TOLERANCE as int,
        ),
        ConstraintPath::Line(l) => near_line(l.origin, l.direction, q),
        ConstraintPath::Ray(r) => near_line(r.origin, r.direction, q) && not_behind(
            r.origin,
            r.direction,
            q,
        ),
        ConstraintPath::Point(p) => q == p.origin,
    }
}

/// A root that exceeds another by at most `e` exceeds it by at most any
/// greater `f`.
pub proof fn lemma_sqrt_le_plus_widens(x: int, y: int, e: int, f: int)
    requires
        0 <= e <= f,
        0 <= y,
        sqrt_le_plus(x, y, e),
    ensures
        sqrt_le_plus(x, y, f),
{
    lemma_square_monotone(e, f);
    let g = x - y - e * e;
    let g2 = x - y - f * f;
    if g2 > 0 {
        assert(0 < g2 <= g);
        lemma_square_monotone(g2, g);
        assert(4 * (e * e) * y <= 4 * (f * f) * y) by (nonlinear_arith)
            requires
                e * e <= f * f,
                0 <= y,
        ;
    }
}

/// Lengths that differ by at most `e` differ by at most any greater `f`.
pub proof fn lemma_lengths_within_widens(a_sq: int, b_sq: int, e: int, f: int)
    requires
        0 <= e <= f,
        0 <= a_sq,
        0 <= b_sq,
        lengths_within(a_sq, b_sq, e),
    ensures
        lengths_within(a_sq, b_sq, f),
{
    lemma_sqrt_le_plus_widens(a_sq, b_sq, e, f);
    lemma_sqrt_le_plus_widens(b_sq, a_sq, e, f);
}

/// A squared distance is not negative.
pub proof fn lemma_dist_sq_nonnegative(a: Pos2, b: Pos2)
    ensures
        a.dist_sq(b) >= 0,
{
    assert((b.x - a.x) * (b.x - a.x) >= 0 && (b.y - a.y) * (b.y - a.y) >= 0) by (nonlinear_arith);
}

/// The closest point of a locus, as it is computed, lies on the locus.
pub proof fn law_closest_point_is_on_locus(path: ConstraintPath, p: Pos2)
    requires
        path.wf(),
        p.in_range(),
    ensures
        on_locus(path, path.closest_point_spec(p)),
{
    match path {
        ConstraintPath::Circle(c) => {
            law_circle_point_is_on_circle(c, p);
            lemma_dist_sq_nonnegative(c.origin, c.closest_point_spec(p));
            assert(c.radius * c.radius >= 0) by (nonlinear_arith);
            lemma_lengths_within_widens(
                c.origin.dist_sq(c.closest_point_spec(p)),
                c.radius * c.radius,
                4,
                TOLERANCE as int,
            );
        },
        ConstraintPath::Line(l) => {
            lemma_foot_near_line(l.origin, l.direction, p, false);
        },
        ConstraintPath::Ray(r) => {
            lemma_foot_near_line(r.origin, r.direction, p, true);
            lemma_ray_foot_is_forward(r.origin, r.direction, p);
        },
        ConstraintPath::Point(_) => {},
    }
}

/// The point in which two straight paths meet, as it is computed, lies on
/// both: within the distance tolerance of the line of each.
pub proof fn law_meeting_point_is_on_both(
    o1: Pos2,
    d1: Vec2,
    bounded1: bool,
    o2: Pos2,
    d2: Vec2,
    bounded2: bool,
)
    requires
        intersection_spec(o1, d1, bounded1, o2, d2, bounded2) is Some,
    ensures
        near_line(o1, d1, intersection_spec(o1, d1, bounded1, o2, d2, bounded2)->0.origin),
        near_line(o2, d2, intersection_spec(o1, d1, bounded1, o2, d2, bounded2)->0.origin),
        intersection_spec(o1, d1, bounded1, o2, d2, bounded2)->0.origin.in_range(),
{
    let den = meeting_den(d1, d2);
    let num = meeting_num(o1, d1, o2, d2);
    let q = along(o1, d1, num, den);
    let c = d1.cross(d2);
    let n1 = d1.norm_sq();
    let n2 = d2.norm_sq();
    assert(d1.x * d1.x >= 0 && d1.y * d1.y >= 0 && d2.x * d2.x >= 0 && d2.y * d2.y >= 0)
        by (nonlinear_arith);
    assert(meet(o1, d1, bounded1, o2, d2, bounded2));
    // the paths are not parallel, so neither direction is the zero vector
    assert(n1 * n2 >= 0) by (nonlinear_arith)
        requires
            n1 >= 0,
            n2 >= 0,
    ;
    assert(c != 0) by {
        if c == 0 {
            assert(c * c * 1_000_000 == 0) by (nonlinear_arith)
                requires
                    c == 0,
            ;
        }
    }
    assert(n1 > 0) by {
        if n1 == 0 {
            assert(d1.x == 0 && d1.y == 0) by (nonlinear_arith)
                requires
                    d1.x * d1.x + d1.y * d1.y == 0,
            ;
            assert(c == 0) by (nonlinear_arith)
                requires
                    c == d1.x * d2.y - d1.y * d2.x,
                    d1.x == 0,
                    d1.y == 0,
            ;
        }
    }
    assert(n2 > 0) by {
        if n2 == 0 {
            assert(d2.x == 0 && d2.y == 0) by (nonlinear_arith)
                requires
                    d2.x * d2.x + d2.y * d2.y == 0,
            ;
            assert(c == 0) by (nonlinear_arith)
                requires
                    c == d1.x * d2.y - d1.y * d2.x,
                    d2.x == 0,
                    d2.y == 0,
            ;
        }
    }
    assert(den > 0);
    let ax = (d1.x * num) / den;
    let ay = (d1.y * num) / den;
    let rx = (d1.x * num) % den;
    let ry = (d1.y * num) % den;
    vstd::arithmetic::div_mod::lemma_fundamental_div_mod(d1.x * num, den);
    vstd::arithmetic::div_mod::lemma_fundamental_div_mod(d1.y * num, den);
    assert(q.x == o1.x + ax && q.y == o1.y + ay);
    // across the first path
    let area1 = offset_area(o1, d1, q);
    assert(area1 == ax * d1.y - ay * d1.x);
    lemma_scaled_cross(den, ax, ay, rx, ry, d1.x as int, d1.y as int, num, d1.x as int, d1.y as int);
    assert(d1.x * d1.y - d1.y * d1.x == 0) by (nonlinear_arith);
    assert(num * (d1.x * d1.y - d1.y * d1.x) == 0) by (nonlinear_arith)
        requires
            d1.x * d1.y - d1.y * d1.x == 0,
    ;
    lemma_small_residue(area1, den, -d1.y, d1.x as int, rx, ry);
    assert((-d1.y) * (-d1.y) + d1.x * d1.x == n1) by (nonlinear_arith)
        requires
            n1 == d1.x * d1.x + d1.y * d1.y,
    ;
    assert(area1 * area1 < TOLERANCE * TOLERANCE * n1) by (nonlinear_arith)
        requires
            area1 * area1 < 2 * n1,
            n1 > 0,
            TOLERANCE == 10,
    ;
    // across the second path
    let area2 = offset_area(o2, d2, q);
    let t0 = offset_area(o1, d2, o2);
    assert(num * c == den * t0) by (nonlinear_arith)
        requires
            (c < 0 && num == -t0 && den == -c) || (c >= 0 && num == t0 && den == c),
    ;
    let lean = ax * d2.y - ay * d2.x;
    let ux = o1.x - o2.x;
    let uy = o1.y - o2.y;
    assert((ux + ax) * d2.y == ux * d2.y + ax * d2.y) by (nonlinear_arith);
    assert((uy + ay) * d2.x == uy * d2.x + ay * d2.x) by (nonlinear_arith);
    assert((-ux) * d2.y == -(ux * d2.y) && (-uy) * d2.x == -(uy * d2.x)) by (nonlinear_arith);
    assert(area2 == lean - t0);
    lemma_scaled_cross(den, ax, ay, rx, ry, d1.x as int, d1.y as int, num, d2.x as int, d2.y as int);
    assert(den * area2 == den * lean - den * t0) by (nonlinear_arith)
        requires
            area2 == lean - t0,
    ;
    assert(den * area2 == rx * (-d2.y) + ry * d2.x);
    lemma_small_residue(area2, den, -d2.y, d2.x as int, rx, ry);
    assert((-d2.y) * (-d2.y) + d2.x * d2.x == n2) by (nonlinear_arith)
        requires
            n2 == d2.x * d2.x + d2.y * d2.y,
    ;
    assert(area2 * area2 < TOLERANCE * TOLERANCE * n2) by (nonlinear_arith)
        requires
            area2 * area2 < 2 * n2,
            n2 > 0,
            TOLERANCE == 10,
    ;
}

/// A negative whole number `val` that a divisor `k` takes to no less than
/// the negative of a combination of two remainders below `k` is small.
proof fn lemma_small_shortfall(val: int, k: int, a: int, b: int, rx: int, ry: int)
    requires
        k > 0,
        0 <= rx < k,
        0 <= ry < k,
        k * val + (rx * a + ry * b) >= 0,
        val < 0,
    ensures
        val * val < 2 * (a * a + b * b),
{
    let p = if a < 0 {
        -a
    } else {
        a
    };
    let q = if b < 0 {
        -b
    } else {
        b
    };
    let t = p + q;
    assert(rx * a <= (k - 1) * p) by (nonlinear_arith)
        requires
            0 <= rx <= k - 1,
            p == a || p == -a,
            0 <= p,
    ;
    assert(ry * b <= (k - 1) * q) by (nonlinear_arith)
        requires
            0 <= ry <= k - 1,
            q == b || q == -b,
            0 <= q,
    ;
    assert((k - 1) * p + (k - 1) * q == (k - 1) * t) by (nonlinear_arith)
        requires
            t == p + q,
    ;
    assert(t >= 1 && -(t - 1) <= val) by (nonlinear_arith)
        requires
            k * val + (k - 1) * t >= 0,
            val < 0,
            k > 0,
            t >= 0,
    ;
    assert(val * val <= (t - 1) * (t - 1)) by (nonlinear_arith)
        requires
            -(t - 1) <= val < 0,
    ;
    assert((t - 1) * (t - 1) < 2 * (a * a + b * b)) by (nonlinear_arith)
        requires
            t == p + q,
            t >= 1,
            p == a || p == -a,
            q == b || q == -b,
    ;
}

/// The point in which two straight paths meet, as it is computed, lies on
/// the forward side of each path that is a ray: not behind its origin by
/// the distance tolerance or more.
pub proof fn law_meeting_point_is_ahead(
    o1: Pos2,
    d1: Vec2,
    bounded1: bool,
    o2: Pos2,
    d2: Vec2,
    bounded2: bool,
)
    requires
        intersection_spec(o1, d1, bounded1, o2, d2, bounded2) is Some,
    ensures
        bounded1 ==> not_behind(
            o1,
            d1,
            intersection_spec(o1, d1, bounded1, o2, d2, bounded2)->0.origin,
        ),
        bounded2 ==> not_behind(
            o2,
            d2,
            intersection_spec(o1, d1, bounded1, o2, d2, bounded2)->0.origin,
        ),
{
    let den = meeting_den(d1, d2);
    let num = meeting_num(o1, d1, o2, d2);
    let q = along(o1, d1, num, den);
    let c = d1.cross(d2);
    let n2 = d2.norm_sq();
    let d1x = d1.x as int;
    let d1y = d1.y as int;
    let d2x = d2.x as int;
    let d2y = d2.y as int;
    assert(d1x * d1x >= 0 && d1y * d1y >= 0 && d2x * d2x >= 0 && d2y * d2y >= 0)
        by (nonlinear_arith);
    assert(meet(o1, d1, bounded1, o2, d2, bounded2));
    assert(d1.norm_sq() * n2 >= 0) by (nonlinear_arith)
        requires
            d1.norm_sq() >= 0,
            n2 >= 0,
    ;
    assert(c != 0) by {
        if c == 0 {
            assert(c * c * 1_000_000 == 0) by (nonlinear_arith)
                requires
                    c == 0,
            ;
        }
    }
    assert(den > 0);
    let ax = (d1x * num) / den;
    let ay = (d1y * num) / den;
    let rx = (d1x * num) % den;
    let ry = (d1y * num) % den;
    vstd::arithmetic::div_mod::lemma_fundamental_div_mod(d1x * num, den);
    vstd::arithmetic::div_mod::lemma_fundamental_div_mod(d1y * num, den);
    assert(q.x == o1.x + ax && q.y == o1.y + ay);
    let t0 = offset_area(o1, d2, o2);
    let u0 = offset_area(o1, d1, o2);
    if bounded1 {
        // the parameter on the first path is not negative
        assert(num >= 0) by (nonlinear_arith)
            requires
                t0 * c >= 0,
                c != 0,
                (c < 0 && num == -t0) || (c > 0 && num == t0),
        ;
        lemma_offset_follows_direction(d1x, num, den);
        lemma_offset_follows_direction(d1y, num, den);
        assert(projection(o1, d1, q) == ax * d1x + ay * d1y);
    }
    if bounded2 {
        // the parameter on the second path, times den, is u over den
        let u = if c < 0 {
            -u0
        } else {
            u0
        };
        assert(u >= 0) by (nonlinear_arith)
            requires
                u0 * c >= 0,
                c != 0,
                (c < 0 && u == -u0) || (c > 0 && u == u0),
        ;
        let wx = o2.x - o1.x;
        let wy = o2.y - o1.y;
        let wd = wx * d2x + wy * d2y;
        let dd = d1x * d2x + d1y * d2y;
        // u0 * n2 = t0 * (d1 . d2) - c * (w . d2)
        lemma_lagrange(wx, wy, d1y, -d1x, d2x, d2y);
        assert(wx * d1y + wy * (-d1x) == u0) by (nonlinear_arith)
            requires
                u0 == wx * d1y - wy * d1x,
        ;
        assert(d1y * d2x + (-d1x) * d2y == -c) by (nonlinear_arith)
            requires
                c == d1x * d2y - d1y * d2x,
        ;
        assert(d1y * d2y - (-d1x) * d2x == dd) by (nonlinear_arith)
            requires
                dd == d1x * d2x + d1y * d2y,
        ;
        assert(u0 * n2 == wd * (-c) + t0 * dd);
        assert(u * n2 == num * dd - den * wd) by (nonlinear_arith)
            requires
                u0 * n2 == wd * (-c) + t0 * dd,
                (c < 0 && u == -u0 && num == -t0 && den == -c) || (c > 0 && u == u0 && num == t0
                    && den == c),
        ;
        // den * projection = u * n2 - (rx, ry) . d2
        let lean = ax * d2x + ay * d2y;
        let proj = projection(o2, d2, q);
        assert((ax - wx) * d2x == ax * d2x - wx * d2x) by (nonlinear_arith);
        assert((ay - wy) * d2y == ay * d2y - wy * d2y) by (nonlinear_arith);
        assert(proj == lean - wd);
        lemma_scaled_dot(den, ax, ay, rx, ry, d1x, d1y, num, d2x, d2y);
        assert(den * proj == den * lean - den * wd) by (nonlinear_arith)
            requires
                proj == lean - wd,
        ;
        assert(den * proj + (rx * d2x + ry * d2y) == u * n2);
        assert(u * n2 >= 0) by (nonlinear_arith)
            requires
                u >= 0,
                n2 >= 0,
        ;
        if proj < 0 {
            lemma_small_shortfall(proj, den, d2x, d2y, rx, ry);
            assert(proj * proj >= 0) by (nonlinear_arith);
            assert(proj * proj < TOLERANCE * TOLERANCE * n2) by (nonlinear_arith)
                requires
                    proj * proj < 2 * n2,
                    n2 > 0,
                    TOLERANCE == 10,
            ;
        }
    }
}

/// The square of a sum of two scaled vectors, one coordinate at a time.
proof fn lemma_square_of_sum(a: int, b: int)
    by (nonlinear_arith)
    ensures
        (a + b) * (a + b) == a * a + 2 * (a * b) + b * b,
        (a - b) * (a - b) == a * a - 2 * (a * b) + b * b,
{
}

/// The exact crossing of a path with a circle, scaled by the squared length
/// `n` of the direction: the vector `n * w + k * d` from the centre, for the
/// parameter `k / n` with `(k + h) * (k + h) == s * s`, has the squared
/// length `n * n * r * r - n * (disc - s * s)`. Here `h` is the scalar
/// product of `w` and `d`, `m` the squared length of `w`, and `disc` a
/// quarter of the discriminant.
proof fn lemma_exact_crossing(
    wx: int,
    wy: int,
    dx: int,
    dy: int,
    k: int,
    s: int,
    r2: int,
    n: int,
    h: int,
    m: int,
    disc: int,
)
    requires
        n == dx * dx + dy * dy,
        h == wx * dx + wy * dy,
        m == wx * wx + wy * wy,
        disc == h * h - n * (m - r2),
        (k + h) * (k + h) == s * s,
    ensures
        (n * wx + k * dx) * (n * wx + k * dx) + (n * wy + k * dy) * (n * wy + k * dy) == n * (n * r2)
            - n * (disc - s * s),
{
    let ex = n * wx + k * dx;
    let ey = n * wy + k * dy;
    lemma_square_of_sum(n * wx, k * dx);
    lemma_square_of_sum(n * wy, k * dy);
    lemma_swap_factors(n, wx, n, wx);
    lemma_swap_factors(n, wy, n, wy);
    lemma_swap_factors(k, dx, k, dx);
    lemma_swap_factors(k, dy, k, dy);
    lemma_swap_factors(n, wx, k, dx);
    lemma_swap_factors(n, wy, k, dy);
    // ex^2 + ey^2 = n^2 m + 2 n k h + k^2 n
    assert((n * n) * (wx * wx) + (n * n) * (wy * wy) == (n * n) * m) by (nonlinear_arith)
        requires
            m == wx * wx + wy * wy,
    ;
    assert((k * k) * (dx * dx) + (k * k) * (dy * dy) == (k * k) * n) by (nonlinear_arith)
        requires
            n == dx * dx + dy * dy,
    ;
    assert((n * k) * (wx * dx) + (n * k) * (wy * dy) == (n * k) * h) by (nonlinear_arith)
        requires
            h == wx * dx + wy * dy,
    ;
    assert(ex * ex + ey * ey == (n * n) * m + 2 * ((n * k) * h) + (k * k) * n);
    // k^2 + 2 k h = s^2 - h^2
    lemma_square_of_sum(k, h);
    assert(k * k + 2 * (k * h) == s * s - h * h);
    assert((n * k) * h == n * (k * h)) by (nonlinear_arith);
    assert((k * k) * n == n * (k * k)) by (nonlinear_arith);
    assert((n * n) * m == n * (n * m)) by (nonlinear_arith);
    assert(n * (n * m) + 2 * (n * (k * h)) + n * (k * k) == n * (n * m + 2 * (k * h) + k * k))
        by (nonlinear_arith);
    assert(n * m + 2 * (k * h) + k * k == n * r2 - (disc - s * s)) by (nonlinear_arith)
        requires
            k * k + 2 * (k * h) == s * s - h * h,
            disc == h * h - n * (m - r2),
    ;
    assert(n * (n * r2 - (disc - s * s)) == n * (n * r2) - n * (disc - s * s))
        by (nonlinear_arith);
}

/// A component of a vector is no longer than the vector: where the squares
/// of two components add up to at most the square of `bound`, each is
/// within `bound`.
proof fn lemma_component_bound(x: int, y: int, bound: int)
    requires
        bound >= 0,
        x * x + y * y <= bound * bound,
    ensures
        -bound <= x <= bound,
        -bound <= y <= bound,
{
    assert(x * x >= 0 && y * y >= 0) by (nonlinear_arith);
    let a = if x < 0 {
        -x
    } else {
        x
    };
    let b = if y < 0 {
        -y
    } else {
        y
    };
    assert(a * a == x * x && b * b == y * y) by (nonlinear_arith)
        requires
            a == x || a == -x,
            b == y || b == -y,
    ;
    lemma_square_le_implies_le(a, bound);
    lemma_square_le_implies_le(b, bound);
}

/// A rounded crossing keeps the radius: the point `o + d * k / n`, each
/// coordinate rounded down, is as far from the centre of the circle as the
/// radius says, within six steps. Here `vx` and `vy` lead from the centre to
/// the rounded point.
proof fn lemma_rounded_crossing(
    ex: int,
    ey: int,
    rx: int,
    ry: int,
    vx: int,
    vy: int,
    n: int,
    r: int,
    gap: int,
    s: int,
)
    requires
        n > 0,
        r >= 0,
        0 <= rx < n,
        0 <= ry < n,
        n * vx == ex - rx,
        n * vy == ey - ry,
        ex * ex + ey * ey == n * (n * (r * r)) - n * gap,
        0 <= gap <= 2 * s,
        0 <= s <= n * r,
    ensures
        lengths_within(vx * vx + vy * vy, r * r, 6),
{
    let q = vx * vx + vy * vy;
    let nr = n * r;
    assert(n * (n * (r * r)) == nr * nr) by (nonlinear_arith)
        requires
            nr == n * r,
    ;
    assert(n * gap >= 0) by (nonlinear_arith)
        requires
            n > 0,
            gap >= 0,
    ;
    assert(nr >= 0) by (nonlinear_arith)
        requires
            nr == n * r,
            n > 0,
            r >= 0,
    ;
    lemma_component_bound(ex, ey, nr);
    // n^2 q = |e - rem|^2 = |e|^2 - 2 e . rem + |rem|^2
    lemma_square_of_sum(ex, rx);
    lemma_square_of_sum(ey, ry);
    lemma_swap_factors(n, vx, n, vx);
    lemma_swap_factors(n, vy, n, vy);
    assert((n * n) * (vx * vx) + (n * n) * (vy * vy) == (n * n) * q) by (nonlinear_arith)
        requires
            q == vx * vx + vy * vy,
    ;
    let mixed = ex * rx + ey * ry;
    let tail = rx * rx + ry * ry;
    assert((n * n) * q == ex * ex + ey * ey - 2 * mixed + tail);
    // the mixed term is within 2 n^2 r, the tail within 2 n^2
    assert(-(nr * n) <= ex * rx <= nr * n) by (nonlinear_arith)
        requires
            -nr <= ex <= nr,
            0 <= rx < n,
    ;
    assert(-(nr * n) <= ey * ry <= nr * n) by (nonlinear_arith)
        requires
            -nr <= ey <= nr,
            0 <= ry < n,
    ;
    assert(0 <= rx * rx <= n * n && 0 <= ry * ry <= n * n) by (nonlinear_arith)
        requires
            0 <= rx < n,
            0 <= ry < n,
    ;
    assert(nr * n == (n * n) * r) by (nonlinear_arith)
        requires
            nr == n * r,
    ;
    assert(nr * nr == (n * n) * (r * r)) by (nonlinear_arith)
        requires
            nr == n * r,
    ;
    assert(n * gap <= 2 * ((n * n) * r)) by (nonlinear_arith)
        requires
            0 <= gap <= 2 * s,
            0 <= s <= n * r,
            n > 0,
    ;
    let nn = n * n;
    assert(nn > 0) by (nonlinear_arith)
        requires
            nn == n * n,
            n > 0,
    ;
    // nn * q <= nn * (r^2 + 4 r + 2) and nn * q >= nn * (r^2 - 6 r)
    assert(nn * q <= nn * (r * r) + 4 * (nn * r) + 2 * nn);
    assert(nn * q >= nn * (r * r) - 6 * (nn * r));
    assert(q <= r * r + 4 * r + 2) by (nonlinear_arith)
        requires
            nn * q <= nn * (r * r) + 4 * (nn * r) + 2 * nn,
            nn > 0,
    ;
    assert(q >= r * r - 6 * r) by (nonlinear_arith)
        requires
            nn * q >= nn * (r * r) - 6 * (nn * r),
            nn > 0,
    ;
    assert(q >= 0) by (nonlinear_arith)
        requires
            q == vx * vx + vy * vy,
    ;
    // sqrt q <= r + 2
    assert(q <= (r + 6) * (r + 6)) by (nonlinear_arith)
        requires
            q <= r * r + 4 * r + 2,
            r >= 0,
    ;
    lemma_sqrt_le_plus(q, r * r, r, 6);
    // r <= sqrt q + 6
    if r <= 6 {
        assert(r * r <= (0 + 6) * (0 + 6)) by (nonlinear_arith)
            requires
                0 <= r <= 6,
        ;
        lemma_sqrt_le_plus(r * r, q, 0, 6);
    } else {
        assert((r - 6) * (r - 6) <= q) by (nonlinear_arith)
            requires
                q >= r * r - 6 * r,
                r >= 7,
        ;
        assert(r * r == ((r - 6) + 6) * ((r - 6) + 6));
        lemma_sqrt_le_plus(r * r, q, r - 6, 6);
    }
}

/// One crossing of a path with a circle, as it is computed, lies on both:
/// within the distance tolerance of the path, and as far from the centre of
/// the circle as the radius says, within six steps. The crossing is the one
/// at the parameter `k / n`, where `k` is one of the two roots.
proof fn lemma_crossing_is_on_both(o: Pos2, d: Vec2, c: Circle, further: bool)
    requires
        o.in_range(),
        d.in_range(),
        c.wf(),
        d.norm_sq() > 0,
        quarter_discriminant(o, d, c) >= 0,
    ensures
        ({
            let s = floor_sqrt(quarter_discriminant(o, d, c));
            let k = if further {
                -projection(c.origin, d, o) + s
            } else {
                -projection(c.origin, d, o) - s
            };
            along_in_range(o, d, k, d.norm_sq()) ==> {
                &&& near_line(o, d, along(o, d, k, d.norm_sq()))
                &&& lengths_within(
                    c.origin.dist_sq(along(o, d, k, d.norm_sq())),
                    c.radius * c.radius,
                    6,
                )
                &&& k >= 0 ==> projection(o, d, along(o, d, k, d.norm_sq())) >= 0
            }
        }),
{
    let n = d.norm_sq();
    let dx = d.x as int;
    let dy = d.y as int;
    let wx = o.x - c.origin.x;
    let wy = o.y - c.origin.y;
    let h = projection(c.origin, d, o);
    let m = c.origin.dist_sq(o);
    let r = c.radius as int;
    let r2 = r * r;
    let disc = quarter_discriminant(o, d, c);
    lemma_floor_sqrt_is_root(disc);
    let s = floor_sqrt(disc);
    let k = if further {
        -h + s
    } else {
        -h - s
    };
    if along_in_range(o, d, k, n) {
        let q = along(o, d, k, n);
        let ax = (dx * k) / n;
        let ay = (dy * k) / n;
        let rx = (dx * k) % n;
        let ry = (dy * k) % n;
        vstd::arithmetic::div_mod::lemma_fundamental_div_mod(dx * k, n);
        vstd::arithmetic::div_mod::lemma_fundamental_div_mod(dy * k, n);
        assert(q.x == o.x + ax && q.y == o.y + ay);
        // on the path
        let area = offset_area(o, d, q);
        assert(area == ax * dy - ay * dx);
        lemma_scaled_cross(n, ax, ay, rx, ry, dx, dy, k, dx, dy);
        assert(dx * dy - dy * dx == 0) by (nonlinear_arith);
        assert(k * (dx * dy - dy * dx) == 0) by (nonlinear_arith)
            requires
                dx * dy - dy * dx == 0,
        ;
        assert((-dy) * (-dy) == dy * dy) by (nonlinear_arith);
        lemma_small_residue(area, n, -dy, dx, rx, ry);
        assert(area * area < TOLERANCE * TOLERANCE * n) by (nonlinear_arith)
            requires
                area * area < 2 * n,
                n > 0,
                TOLERANCE == 10,
        ;
        // on the forward side
        if k >= 0 {
            lemma_offset_follows_direction(dx, k, n);
            lemma_offset_follows_direction(dy, k, n);
            assert(projection(o, d, q) == ax * dx + ay * dy);
        }
        // on the circle
        assert((k + h) * (k + h) == s * s) by (nonlinear_arith)
            requires
                k + h == s || k + h == -s,
        ;
        assert(m == wx * wx + wy * wy);
        lemma_exact_crossing(wx, wy, dx, dy, k, s, r2, n, h, m, disc);
        let ex = n * wx + k * dx;
        let ey = n * wy + k * dy;
        let vx = q.x - c.origin.x;
        let vy = q.y - c.origin.y;
        assert(vx == wx + ax && vy == wy + ay);
        assert(n * vx == ex - rx) by (nonlinear_arith)
            requires
                vx == wx + ax,
                ex == n * wx + k * dx,
                dx * k == n * ax + rx,
        ;
        assert(n * vy == ey - ry) by (nonlinear_arith)
            requires
                vy == wy + ay,
                ey == n * wy + k * dy,
                dy * k == n * ay + ry,
        ;
        // the root is no longer than n r: disc <= n r2
        lemma_lagrange(wx, wy, wx, wy, dx, dy);
        let cross = wx * dy - wy * dx;
        assert(cross * cross >= 0) by (nonlinear_arith);
        assert(m * n == h * h + cross * cross);
        assert(n * (m - r2) == m * n - n * r2) by (nonlinear_arith);
        assert(disc <= n * r2);
        assert(r2 >= 0) by (nonlinear_arith)
            requires
                r2 == r * r,
        ;
        assert(n * r2 <= (n * r) * (n * r)) by (nonlinear_arith)
            requires
                r2 == r * r,
                n >= 1,
                r2 >= 0,
        ;
        assert(n * r >= 0) by (nonlinear_arith)
            requires
                n > 0,
                r >= 0,
        ;
        lemma_square_le_implies_le(s, n * r);
        assert((s + 1) * (s + 1) == s * s + 2 * s + 1) by (nonlinear_arith);
        assert(n * (n * r2) == n * (n * (r * r)));
        lemma_rounded_crossing(ex, ey, rx, ry, vx, vy, n, r, disc - s * s, s);
        assert(c.origin.dist_sq(q) == vx * vx + vy * vy);
    }
}

/// The points in which a path crosses a circle, as they are computed, lie
/// on both: each is within the distance tolerance of the path, on the
/// forward side of a ray, within the coordinate range, and as far from the
/// centre of the circle as the radius says, within six steps.
pub proof fn law_circle_hits_are_on_both(o: Pos2, d: Vec2, bounded: bool, c: Circle, i: int)
    requires
        o.in_range(),
        d.in_range(),
        c.wf(),
        0 <= i < circle_hits(o, d, bounded, c).len(),
    ensures
        circle_hits(o, d, bounded, c)[i].origin.in_range(),
        near_line(o, d, circle_hits(o, d, bounded, c)[i].origin),
        bounded ==> projection(o, d, circle_hits(o, d, bounded, c)[i].origin) >= 0,
        lengths_within(
            c.origin.dist_sq(circle_hits(o, d, bounded, c)[i].origin),
            c.radius * c.radius,
            6,
        ),
{
    let n = d.norm_sq();
    let h = projection(c.origin, d, o);
    let disc = quarter_discriminant(o, d, c);
    let s = floor_sqrt(disc);
    let first = hit(o, d, bounded, -h + s, n);
    let second = hit(o, d, bounded, -h - s, n);
    assert(d.x * d.x >= 0 && d.y * d.y >= 0) by (nonlinear_arith);
    lemma_crossing_is_on_both(o, d, c, true);
    lemma_crossing_is_on_both(o, d, c, false);
    if i < first.len() {
        assert(circle_hits(o, d, bounded, c)[i] == first[i]);
    } else {
        assert(circle_hits(o, d, bounded, c)[i] == second[i - first.len()]);
    }
}

} // verus!
