//! The loci of the solver: the circle, line, ray or single point on which a
//! constraint lets a vertex move, and the point of each that lies closest to
//! a wanted position.

use vstd::prelude::*;
use crate::arith::{
    div_floor, floor_sqrt, isqrt, lemma_floor_sqrt_monotone, lemma_floor_sqrt_of_square,
    magnitude, COORD_LIMIT, RADIUS_LIMIT, SPAN_LIMIT, TOLERANCE,
};
use crate::geometry::{lemma_product_bound, Pos2, Vec2};

verus! {

/// Largest magnitude of the numerator of a line parameter.
pub const PARAM_LIMIT: i128 = 10_000_000_000_000_000_000;

/// All positions at `radius` steps from `origin`.
#[derive(Clone, Copy, Debug, PartialEq, Eq, Structural)]
pub struct Circle {
    pub origin: Pos2,
    pub radius: i64,
}

/// The unbounded straight line through `origin` along `direction`.
#[derive(Clone, Copy, Debug, PartialEq, Eq, Structural)]
pub struct Line {
    pub origin: Pos2,
    pub direction: Vec2,
}

/// The half line that starts at `origin` and runs along `direction`.
#[derive(Clone, Copy, Debug, PartialEq, Eq, Structural)]
pub struct Ray {
    pub origin: Pos2,
    pub direction: Vec2,
}

/// A single position.
#[derive(Clone, Copy, Debug, PartialEq, Eq, Structural)]
pub struct Point {
    pub origin: Pos2,
}

/// The set of positions that a constraint leaves open to a vertex.
#[derive(Clone, Copy, Debug, PartialEq, Eq, Structural)]
pub enum ConstraintPath {
    Circle(Circle),
    Line(Line),
    Ray(Ray),
    Point(Point),
}

/// The horizontal coordinate of `o + d * num / den`, rounded down.
pub open spec fn along_x(o: Pos2, d: Vec2, num: int, den: int) -> int {
    o.x + (d.x * num) / den
}

/// The vertical coordinate of `o + d * num / den`, rounded down.
pub open spec fn along_y(o: Pos2, d: Vec2, num: int, den: int) -> int {
    o.y + (d.y * num) / den
}

/// The position `o + d * num / den` for a positive `den`, each coordinate
/// rounded down to a whole step.
pub open spec fn along(o: Pos2, d: Vec2, num: int, den: int) -> Pos2 {
    Pos2 { x: along_x(o, d, num, den) as i64, y: along_y(o, d, num, den) as i64 }
}

/// The point `along(o, d, num, den)` has both coordinates within
/// `COORD_LIMIT`.
pub open spec fn along_in_range(o: Pos2, d: Vec2, num: int, den: int) -> bool {
    &&& -COORD_LIMIT <= along_x(o, d, num, den) <= COORD_LIMIT
    &&& -COORD_LIMIT <= along_y(o, d, num, den) <= COORD_LIMIT
}

/// The scalar product of `d` with the displacement from `o` to `p`: the
/// parameter of the foot of the perpendicular from `p`, times the squared
/// length of `d`.
pub open spec fn projection(o: Pos2, d: Vec2, p: Pos2) -> int {
    (p.x - o.x) * d.x + (p.y - o.y) * d.y
}

/// The signed area spanned by the displacement from `o` to `p` and `d`: the
/// distance of `p` from the line through `o` along `d`, times the length of
/// `d`.
pub open spec fn offset_area(o: Pos2, d: Vec2, p: Pos2) -> int {
    (p.x - o.x) * d.y - (p.y - o.y) * d.x
}

/// `p` lies within the distance tolerance of the line through `o` along `d`.
/// Where `d` is the zero vector the line is the single point `o`.
pub open spec fn near_line(o: Pos2, d: Vec2, p: Pos2) -> bool {
    if d.norm_sq() == 0 {
        o.dist_sq(p) < TOLERANCE * TOLERANCE
    } else {
        offset_area(o, d, p) * offset_area(o, d, p) < TOLERANCE * TOLERANCE * d.norm_sq()
    }
}

/// One coordinate of the closest point of a circle, relative to its centre:
/// the share `w / sqrt(m)` of the radius `r`, rounded towards zero.
pub open spec fn radial(w: int, r: int, m: int) -> int {
    if w < 0 {
        -floor_sqrt((w * w * (r * r)) / m)
    } else {
        floor_sqrt((w * w * (r * r)) / m)
    }
}

/// A quotient is bounded by `b` when its numerator is bounded by `b` times
/// the divisor.
pub proof fn lemma_quotient_bound(a: int, n: int, b: int)
    requires
        0 < n,
        -(b * n) <= a <= b * n,
    ensures
        -b <= a / n <= b,
{
    vstd::arithmetic::div_mod::lemma_fundamental_div_mod(a, n);
    let q = a / n;
    let r = a % n;
    assert(a == n * q + r);
    if q > b {
        assert(n * q >= n * (b + 1)) by (nonlinear_arith)
            requires
                q >= b + 1,
                0 < n,
        ;
        assert(n * (b + 1) == b * n + n) by (nonlinear_arith);
    }
    if q < -b {
        assert(n * q <= n * (-b - 1)) by (nonlinear_arith)
            requires
                q <= -b - 1,
                0 < n,
        ;
        assert(n * (-b - 1) == -(b * n) - n) by (nonlinear_arith);
    }
}

/// The component of a projection along one axis is bounded by twice the
/// largest component of the projected displacement.
pub proof fn lemma_projection_bound(wx: int, wy: int, dx: int, dy: int, w: int)
    by (nonlinear_arith)
    requires
        -w <= wx <= w,
        -w <= wy <= w,
    ensures
        -(2 * w * (dx * dx + dy * dy)) <= dx * (wx * dx + wy * dy) <= 2 * w * (dx * dx + dy * dy),
{
    // dx * (wx * dx + wy * dy) = wx * dx^2 + wy * (dx * dy), and 2 |dx * dy| <= dx^2 + dy^2.
    assert((dx - dy) * (dx - dy) >= 0);
    assert((dx + dy) * (dx + dy) >= 0);
    assert(dx * dx >= 0);
    assert(dy * dy >= 0);
    assert(-(w * (dx * dx)) <= wx * (dx * dx) <= w * (dx * dx));
    assert(2 * (dx * dy) <= dx * dx + dy * dy);
    assert(-2 * (dx * dy) <= dx * dx + dy * dy);
    assert(-(w * (dx * dx + dy * dy)) <= 2 * (wy * (dx * dy)) <= w * (dx * dx + dy * dy));
}

/// One coordinate of `start + step * num / den`, rounded down.
pub fn coordinate_along(start: i64, step: i64, num: i128, den: i128) -> (c: i128)
    requires
        -COORD_LIMIT <= start <= COORD_LIMIT,
        -SPAN_LIMIT <= step <= SPAN_LIMIT,
        -PARAM_LIMIT <= num <= PARAM_LIMIT,
        0 < den,
    ensures
        c == start + (step * num) / (den as int),
{
    proof {
        lemma_product_bound(step as int, num as int, SPAN_LIMIT as int, PARAM_LIMIT as int);
        let lim: int = SPAN_LIMIT * PARAM_LIMIT;
        assert(lim * den >= lim) by (nonlinear_arith)
            requires
                den >= 1,
                lim >= 0,
        ;
        lemma_quotient_bound(step * num, den as int, lim);
    }
    let a: i128 = (step as i128) * num;
    let q: i128 = div_floor(a, den);
    (start as i128) + q
}

/// The point of the line through `o` along `d` that lies closest to `p`, each
/// coordinate rounded down. With `clamp`, the line is the ray that starts at
/// `o`: where the foot of the perpendicular falls behind `o`, the closest
/// point is `o` itself.
pub open spec fn foot(o: Pos2, d: Vec2, p: Pos2, clamp: bool) -> Pos2 {
    if d.norm_sq() == 0 {
        o
    } else if clamp && projection(o, d, p) < 0 {
        along(o, d, 0, d.norm_sq())
    } else {
        along(o, d, projection(o, d, p), d.norm_sq())
    }
}

/// The foot of a perpendicular stays within the range of its coordinates:
/// its coordinates are those of `along`, without loss. It lies no further
/// from `o` along either axis than twice the span of the coordinates.
pub proof fn lemma_foot_offsets(o: Pos2, d: Vec2, p: Pos2, clamp: bool)
    requires
        o.in_range(),
        d.in_range(),
        p.in_range(),
        d.norm_sq() > 0,
    ensures
        ({
            let num = if clamp && projection(o, d, p) < 0 {
                0
            } else {
                projection(o, d, p)
            };
            &&& foot(o, d, p, clamp).x == along_x(o, d, num, d.norm_sq())
            &&& foot(o, d, p, clamp).y == along_y(o, d, num, d.norm_sq())
            &&& -PARAM_LIMIT <= num <= PARAM_LIMIT
        }),
        -2 * SPAN_LIMIT <= foot(o, d, p, clamp).x - o.x <= 2 * SPAN_LIMIT,
        -2 * SPAN_LIMIT <= foot(o, d, p, clamp).y - o.y <= 2 * SPAN_LIMIT,
{
    let n = d.norm_sq();
    let s = projection(o, d, p);
    let num = if clamp && s < 0 {
        0
    } else {
        s
    };
    let lim: int = SPAN_LIMIT as int;
    let wx = p.x - o.x;
    let wy = p.y - o.y;
    lemma_product_bound(wx, d.x as int, lim, lim);
    lemma_product_bound(wy, d.y as int, lim, lim);
    lemma_projection_bound(wx, wy, d.x as int, d.y as int, lim);
    lemma_projection_bound(wy, wx, d.y as int, d.x as int, lim);
    assert(d.x * s == d.x * (wx * d.x + wy * d.y));
    assert(d.y * s == d.y * (wy * d.y + wx * d.x));
    assert(n == d.y * d.y + d.x * d.x);
    assert(2 * lim * n == (2 * lim) * n) by (nonlinear_arith);
    assert(d.x * 0 == 0 && d.y * 0 == 0);
    assert(0 <= (2 * lim) * n) by (nonlinear_arith)
        requires
            0 <= n,
            0 <= lim,
    ;
    lemma_quotient_bound(d.x * num, n, 2 * lim);
    lemma_quotient_bound(d.y * num, n, 2 * lim);
}

/// The closest point to `p` on the line, or with `clamp` on the ray, through
/// `o` along `d`.
pub fn foot_of(o: &Pos2, d: &Vec2, p: &Pos2, clamp: bool) -> (q: Pos2)
    requires
        o.in_range(),
        d.in_range(),
        p.in_range(),
    ensures
        q == foot(*o, *d, *p, clamp),
{
    let n: i128 = d.length_sq();
    if n == 0 {
        return *o;
    }
    let w: Vec2 = o.vector_to(p);
    let s: i128 = w.dot_product(d);
    let num: i128 = if clamp && s < 0 {
        0
    } else {
        s
    };
    proof {
        lemma_foot_offsets(*o, *d, *p, clamp);
    }
    let cx: i128 = coordinate_along(o.x, d.x, num, n);
    let cy: i128 = coordinate_along(o.y, d.y, num, n);
    Pos2 { x: cx as i64, y: cy as i64 }
}

/// Whether `p` lies within the distance tolerance of the line through `o`
/// along `d`.
pub fn is_near_line(o: &Pos2, d: &Vec2, p: &Pos2) -> (b: bool)
    requires
        o.in_range(),
        d.in_range(),
        p.in_range(),
    ensures
        b == near_line(*o, *d, *p),
{
    let n: i128 = d.length_sq();
    let w: Vec2 = o.vector_to(p);
    let t: i128 = TOLERANCE as i128;
    if n == 0 {
        let m: i128 = w.length_sq();
        m < t * t
    } else {
        let a: i128 = w.cross_product(d);
        proof {
            lemma_product_bound(
                a as int,
                a as int,
                2_000_000_000_000_000_000,
                2_000_000_000_000_000_000,
            );
        }
        let tt: i128 = t * t;
        a * a < tt * n
    }
}

/// The magnitude of one coordinate of the closest point of a circle,
/// relative to the centre, with the sign of `w`.
fn radial_part(w: i64, r: i64, m: i128) -> (q: i64)
    requires
        -SPAN_LIMIT <= w <= SPAN_LIMIT,
        0 <= r <= RADIUS_LIMIT,
        0 < m,
        w * w <= m,
    ensures
        q == radial(w as int, r as int, m as int),
        -r <= q <= r,
{
    let a: u128 = magnitude(w as i128);
    proof {
        lemma_product_bound(a as int, a as int, SPAN_LIMIT as int, SPAN_LIMIT as int);
        lemma_product_bound(r as int, r as int, RADIUS_LIMIT as int, RADIUS_LIMIT as int);
        assert(a * a == w * w) by (nonlinear_arith)
            requires
                a == w || a == -w,
        ;
        assert(a * a >= 0) by (nonlinear_arith);
        assert(r * r >= 0) by (nonlinear_arith);
    }
    let a2: u128 = a * a;
    let r2: u128 = (r as u128) * (r as u128);
    proof {
        lemma_product_bound(
            a2 as int,
            r2 as int,
            SPAN_LIMIT * SPAN_LIMIT,
            RADIUS_LIMIT * RADIUS_LIMIT,
        );
        assert(a2 * r2 >= 0) by (nonlinear_arith)
            requires
                a2 >= 0,
                r2 >= 0,
        ;
    }
    let prod: u128 = a2 * r2;
    let quot: u128 = prod / (m as u128);
    let s: u64 = isqrt(quot);
    proof {
        assert(prod == w * w * (r * r));
        assert(prod <= r2 * m) by (nonlinear_arith)
            requires
                prod == a2 * r2,
                a2 <= m,
                r2 >= 0,
        ;
        lemma_quotient_bound(prod as int, m as int, r2 as int);
        lemma_floor_sqrt_monotone(quot as int, r2 as int);
        lemma_floor_sqrt_of_square(r as int);
    }
    if w < 0 {
        -(s as i64)
    } else {
        s as i64
    }
}

impl Circle {
    /// The centre is in range and the radius is between nothing and
    /// `RADIUS_LIMIT`.
    pub open spec fn wf(self) -> bool {
        self.origin.in_range() && 0 <= self.radius <= RADIUS_LIMIT
    }

    /// The point of the circle on the bearing from its centre to `p`. Where
    /// `p` is within the distance tolerance of the centre, every point of the
    /// circle is as close as any other, and the topmost is taken.
    pub open spec fn closest_point_spec(self, p: Pos2) -> Pos2 {
        let wx = p.x - self.origin.x;
        let wy = p.y - self.origin.y;
        let m = wx * wx + wy * wy;
        if m < TOLERANCE * TOLERANCE {
            Pos2 { x: self.origin.x, y: (self.origin.y - self.radius) as i64 }
        } else {
            Pos2 {
                x: (self.origin.x + radial(wx, self.radius as int, m)) as i64,
                y: (self.origin.y + radial(wy, self.radius as int, m)) as i64,
            }
        }
    }

    /// The point of the circle that lies closest to `point`.
    pub fn closest_point(&self, point: &Pos2) -> (q: Pos2)
        requires
            self.wf(),
            point.in_range(),
        ensures
            q == self.closest_point_spec(*point),
            self.origin.x - self.radius <= q.x <= self.origin.x + self.radius,
            self.origin.y - self.radius <= q.y <= self.origin.y + self.radius,
    {
        let w: Vec2 = self.origin.vector_to(point);
        let m: i128 = w.length_sq();
        let t: i128 = TOLERANCE as i128;
        if m < t * t {
            Pos2 { x: self.origin.x, y: self.origin.y - self.radius }
        } else {
            proof {
                assert(w.x * w.x >= 0) by (nonlinear_arith);
                assert(w.y * w.y >= 0) by (nonlinear_arith);
            }
            let rx: i64 = radial_part(w.x, self.radius, m);
            let ry: i64 = radial_part(w.y, self.radius, m);
            Pos2 { x: self.origin.x + rx, y: self.origin.y + ry }
        }
    }
}

impl Line {
    /// Origin and direction are in range.
    pub open spec fn wf(self) -> bool {
        self.origin.in_range() && self.direction.in_range()
    }

    /// The foot of the perpendicular from `p`, each coordinate rounded down.
    pub open spec fn closest_point_spec(self, p: Pos2) -> Pos2 {
        foot(self.origin, self.direction, p, false)
    }

    /// The point of the line that lies closest to `point`.
    pub fn closest_point(&self, point: &Pos2) -> (q: Pos2)
        requires
            self.wf(),
            point.in_range(),
        ensures
            q == self.closest_point_spec(*point),
    {
        foot_of(&self.origin, &self.direction, point, false)
    }
}

impl Ray {
    /// Origin and direction are in range.
    pub open spec fn wf(self) -> bool {
        self.origin.in_range() && self.direction.in_range()
    }

    /// The foot of the perpendicular from `p` where it falls on the ray, and
    /// the origin of the ray where it falls behind it.
    pub open spec fn closest_point_spec(self, p: Pos2) -> Pos2 {
        foot(self.origin, self.direction, p, true)
    }

    /// The point of the ray that lies closest to `point`.
    pub fn closest_point(&self, point: &Pos2) -> (q: Pos2)
        requires
            self.wf(),
            point.in_range(),
        ensures
            q == self.closest_point_spec(*point),
    {
        foot_of(&self.origin, &self.direction, point, true)
    }
}

impl Point {
    /// The position is in range.
    pub open spec fn wf(self) -> bool {
        self.origin.in_range()
    }

    /// The point itself.
    pub fn closest_point(&self) -> (q: Pos2)
        ensures
            q == self.origin,
    {
        self.origin
    }
}

impl ConstraintPath {
    /// The locus is well formed for its kind.
    pub open spec fn wf(self) -> bool {
        match self {
            ConstraintPath::Circle(c) => c.wf(),
            ConstraintPath::Line(l) => l.wf(),
            ConstraintPath::Ray(r) => r.wf(),
            ConstraintPath::Point(p) => p.wf(),
        }
    }

    /// The point of the locus that lies closest to `p`.
    pub open spec fn closest_point_spec(self, p: Pos2) -> Pos2 {
        match self {
            ConstraintPath::Circle(c) => c.closest_point_spec(p),
            ConstraintPath::Line(l) => l.closest_point_spec(p),
            ConstraintPath::Ray(r) => r.closest_point_spec(p),
            ConstraintPath::Point(q) => q.origin,
        }
    }

    /// The point of the locus that lies closest to `point`.
    pub fn closest_point(&self, point: &Pos2) -> (q: Pos2)
        requires
            self.wf(),
            point.in_range(),
        ensures
            q == self.closest_point_spec(*point),
    {
        match self {
            ConstraintPath::Circle(c) => c.closest_point(point),
            ConstraintPath::Line(l) => l.closest_point(point),
            ConstraintPath::Ray(r) => r.closest_point(point),
            ConstraintPath::Point(p) => p.closest_point(),
        }
    }
}


} // verus!
