//! Where two loci meet, and the pairwise reduction of a list of loci to the
//! one locus that survives them all.

use vstd::prelude::*;
use crate::arith::{floor_sqrt, isqrt, lemma_square_le_implies_le, COORD_LIMIT, RADIUS_LIMIT};
use crate::geometry::{lemma_product_bound, Pos2, Vec2};
use crate::locus::{
    along, along_in_range, coordinate_along, is_near_line, near_line, offset_area, projection,
    Circle, ConstraintPath, Line, Point, Ray,
};

verus! {

/// Two straight paths meet in a single point: they are not parallel within
/// the angular tolerance, and the meeting point lies on the forward side of
/// each path that is bounded (a ray). The first path runs through `o1` along
/// `d1`, the second through `o2` along `d2`.
///
/// The meeting point is `o1 + d1 * t` and `o2 + d2 * u` with
/// `t = offset_area(o1, d2, o2) / d1.cross(d2)` and
/// `u = offset_area(o1, d1, o2) / d1.cross(d2)`.
pub open spec fn meet(o1: Pos2, d1: Vec2, bounded1: bool, o2: Pos2, d2: Vec2, bounded2: bool) -> bool {
    &&& !d1.nearly_parallel(d2)
    &&& bounded1 ==> offset_area(o1, d2, o2) * d1.cross(d2) >= 0
    &&& bounded2 ==> offset_area(o1, d1, o2) * d1.cross(d2) >= 0
}

/// The numerator of the parameter of the meeting point on the first path,
/// over a positive denominator.
pub open spec fn meeting_num(o1: Pos2, d1: Vec2, o2: Pos2, d2: Vec2) -> int {
    if d1.cross(d2) < 0 {
        -offset_area(o1, d2, o2)
    } else {
        offset_area(o1, d2, o2)
    }
}

/// The magnitude of the common denominator of the meeting parameters.
pub open spec fn meeting_den(d1: Vec2, d2: Vec2) -> int {
    if d1.cross(d2) < 0 {
        -d1.cross(d2)
    } else {
        d1.cross(d2)
    }
}

/// The point in which two straight paths meet, where `meet` holds and the
/// point is within the coordinate range; nothing otherwise.
pub open spec fn intersection_spec(
    o1: Pos2,
    d1: Vec2,
    bounded1: bool,
    o2: Pos2,
    d2: Vec2,
    bounded2: bool,
) -> Option<Point> {
    if meet(o1, d1, bounded1, o2, d2, bounded2) && along_in_range(
        o1,
        d1,
        meeting_num(o1, d1, o2, d2),
        meeting_den(d1, d2),
    ) {
        Some(Point { origin: along(o1, d1, meeting_num(o1, d1, o2, d2), meeting_den(d1, d2)) })
    } else {
        None
    }
}

/// A product is non-negative exactly when its factors do not disagree in
/// sign, for a non-zero second factor.
proof fn lemma_sign_of_product(t: int, den: int)
    by (nonlinear_arith)
    requires
        den != 0,
    ensures
        (t * den >= 0) == ((t >= 0 && den > 0) || (t <= 0 && den < 0)),
{
}

/// A number whose square, scaled up, exceeds a non-negative bound is not
/// zero.
proof fn lemma_not_parallel_nonzero(d1: Vec2, d2: Vec2)
    requires
        !d1.nearly_parallel(d2),
    ensures
        d1.cross(d2) != 0,
{
    assert(d1.x * d1.x >= 0 && d1.y * d1.y >= 0 && d2.x * d2.x >= 0 && d2.y * d2.y >= 0)
        by (nonlinear_arith);
    assert(d1.norm_sq() * d2.norm_sq() >= 0) by (nonlinear_arith)
        requires
            d1.norm_sq() >= 0,
            d2.norm_sq() >= 0,
    ;
}

/// Whether two straight paths meet in a single point.
pub fn paths_meet(
    o1: &Pos2,
    d1: &Vec2,
    bounded1: bool,
    o2: &Pos2,
    d2: &Vec2,
    bounded2: bool,
) -> (b: bool)
    requires
        o1.in_range(),
        d1.in_range(),
        o2.in_range(),
        d2.in_range(),
    ensures
        b == meet(*o1, *d1, bounded1, *o2, *d2, bounded2),
{
    if d1.is_nearly_parallel(d2) {
        return false;
    }
    let den: i128 = d1.cross_product(d2);
    let w: Vec2 = o1.vector_to(o2);
    let t: i128 = w.cross_product(d2);
    let u: i128 = w.cross_product(d1);
    proof {
        lemma_not_parallel_nonzero(*d1, *d2);
        lemma_sign_of_product(t as int, den as int);
        lemma_sign_of_product(u as int, den as int);
    }
    let forward1: bool = (t >= 0 && den > 0) || (t <= 0 && den < 0);
    let forward2: bool = (u >= 0 && den > 0) || (u <= 0 && den < 0);
    (!bounded1 || forward1) && (!bounded2 || forward2)
}

/// The point in which two straight paths meet.
pub fn intersection(
    o1: &Pos2,
    d1: &Vec2,
    bounded1: bool,
    o2: &Pos2,
    d2: &Vec2,
    bounded2: bool,
) -> (r: Option<Point>)
    requires
        o1.in_range(),
        d1.in_range(),
        o2.in_range(),
        d2.in_range(),
    ensures
        r == intersection_spec(*o1, *d1, bounded1, *o2, *d2, bounded2),
{
    if !paths_meet(o1, d1, bounded1, o2, d2, bounded2) {
        return None;
    }
    let c: i128 = d1.cross_product(d2);
    let w: Vec2 = o1.vector_to(o2);
    let a: i128 = w.cross_product(d2);
    proof {
        lemma_not_parallel_nonzero(*d1, *d2);
    }
    let den: i128 = if c < 0 {
        -c
    } else {
        c
    };
    let num: i128 = if c < 0 {
        -a
    } else {
        a
    };
    let x: i128 = coordinate_along(o1.x, d1.x, num, den);
    let y: i128 = coordinate_along(o1.y, d1.y, num, den);
    let lim: i128 = COORD_LIMIT as i128;
    if -lim <= x && x <= lim && -lim <= y && y <= lim {
        Some(Point { origin: Pos2 { x: x as i64, y: y as i64 } })
    } else {
        None
    }
}

/// The point in which two rays meet, if they do.
pub fn ray_ray_intersection(ray1: &Ray, ray2: &Ray) -> (r: Option<Point>)
    requires
        ray1.wf(),
        ray2.wf(),
    ensures
        r == intersection_spec(
            ray1.origin,
            ray1.direction,
            true,
            ray2.origin,
            ray2.direction,
            true,
        ),
{
    intersection(&ray1.origin, &ray1.direction, true, &ray2.origin, &ray2.direction, true)
}

/// The point in which two unbounded lines meet, if they are not parallel.
pub fn line_line_intersection(line1: &Line, line2: &Line) -> (r: Option<Point>)
    requires
        line1.wf(),
        line2.wf(),
    ensures
        r == intersection_spec(
            line1.origin,
            line1.direction,
            false,
            line2.origin,
            line2.direction,
            false,
        ),
{
    intersection(&line1.origin, &line1.direction, false, &line2.origin, &line2.direction, false)
}

/// The point in which an unbounded line meets a ray, if it does.
pub fn line_ray_intersection(line: &Line, ray: &Ray) -> (r: Option<Point>)
    requires
        line.wf(),
        ray.wf(),
    ensures
        r == intersection_spec(
            line.origin,
            line.direction,
            false,
            ray.origin,
            ray.direction,
            true,
        ),
{
    intersection(&line.origin, &line.direction, false, &ray.origin, &ray.direction, true)
}

/// A quarter of the discriminant of the quadratic equation for the
/// parameters at which the path through `o` along `d` crosses the circle.
pub open spec fn quarter_discriminant(o: Pos2, d: Vec2, c: Circle) -> int {
    projection(c.origin, d, o) * projection(c.origin, d, o) - d.norm_sq() * (c.origin.dist_sq(o)
        - c.radius * c.radius)
}

/// The crossing at parameter `num / den`, where it lies on the path and
/// within the coordinate range.
pub open spec fn hit(o: Pos2, d: Vec2, bounded: bool, num: int, den: int) -> Seq<Point> {
    if (bounded ==> num >= 0) && along_in_range(o, d, num, den) {
        seq![Point { origin: along(o, d, num, den) }]
    } else {
        Seq::empty()
    }
}

/// The points in which the path through `o` along `d` crosses the circle:
/// first the one further along `d`, then the one nearer. A bounded path is a
/// ray and keeps only the crossings on its forward side. The square root of
/// the discriminant is rounded down to a whole number.
pub open spec fn circle_hits(o: Pos2, d: Vec2, bounded: bool, c: Circle) -> Seq<Point> {
    let n = d.norm_sq();
    let h = projection(c.origin, d, o);
    let disc = quarter_discriminant(o, d, c);
    if n == 0 || disc < 0 {
        Seq::empty()
    } else {
        hit(o, d, bounded, -h + floor_sqrt(disc), n) + hit(o, d, bounded, -h - floor_sqrt(disc), n)
    }
}

/// Appends the crossing at parameter `num / den` to `out`, where it counts.
fn push_hit(out: &mut Vec<Point>, o: &Pos2, d: &Vec2, bounded: bool, num: i128, den: i128)
    requires
        o.in_range(),
        d.in_range(),
        -crate::locus::PARAM_LIMIT <= num <= crate::locus::PARAM_LIMIT,
        0 < den,
    ensures
        final(out)@ == old(out)@ + hit(*o, *d, bounded, num as int, den as int),
{
    if bounded && num < 0 {
        return ;
    }
    let x: i128 = coordinate_along(o.x, d.x, num, den);
    let y: i128 = coordinate_along(o.y, d.y, num, den);
    let lim: i128 = COORD_LIMIT as i128;
    if -lim <= x && x <= lim && -lim <= y && y <= lim {
        out.push(Point { origin: Pos2 { x: x as i64, y: y as i64 } });
        proof {
            assert(final(out)@ =~= old(out)@ + hit(*o, *d, bounded, num as int, den as int));
        }
    }
}

/// The points in which a straight path crosses a circle.
pub fn path_circle_intersection(o: &Pos2, d: &Vec2, bounded: bool, circle: &Circle) -> (r: Vec<
    Point,
>)
    requires
        o.in_range(),
        d.in_range(),
        circle.wf(),
    ensures
        r@ == circle_hits(*o, *d, bounded, *circle),
{
    let mut out: Vec<Point> = Vec::new();
    let n: i128 = d.length_sq();
    if n == 0 {
        return out;
    }
    let w: Vec2 = circle.origin.vector_to(o);
    let h: i128 = w.dot_product(d);
    let m: i128 = w.length_sq();
    let r: i128 = circle.radius as i128;
    proof {
        lemma_product_bound(r as int, r as int, RADIUS_LIMIT as int, RADIUS_LIMIT as int);
        assert(r * r >= 0) by (nonlinear_arith);
        lemma_product_bound(
            h as int,
            h as int,
            2_000_000_000_000_000_000,
            2_000_000_000_000_000_000,
        );
        assert(h * h >= 0) by (nonlinear_arith);
        lemma_product_bound(
            n as int,
            m - r * r,
            2_000_000_000_000_000_000,
            4_000_000_000_000_000_000,
        );
    }
    let gap: i128 = m - r * r;
    let disc: i128 = h * h - n * gap;
    if disc < 0 {
        return out;
    }
    let s: u64 = isqrt(disc as u128);
    proof {
        assert((s as int) * (s as int) <= 4_000_000_000_000_000_000int
            * 4_000_000_000_000_000_000int);
        lemma_square_le_implies_le(s as int, 4_000_000_000_000_000_000);
    }
    let root: i128 = s as i128;
    push_hit(&mut out, o, d, bounded, -h + root, n);
    push_hit(&mut out, o, d, bounded, -h - root, n);
    out
}

/// The points in which a ray crosses a circle, further one first.
pub fn ray_circle_intersection(ray: &Ray, circle: &Circle) -> (r: Vec<Point>)
    requires
        ray.wf(),
        circle.wf(),
    ensures
        r@ == circle_hits(ray.origin, ray.direction, true, *circle),
{
    path_circle_intersection(&ray.origin, &ray.direction, true, circle)
}

/// The points in which an unbounded line crosses a circle, the one further
/// along the direction of the line first.
pub fn line_circle_intersection(line: &Line, circle: &Circle) -> (r: Vec<Point>)
    requires
        line.wf(),
        circle.wf(),
    ensures
        r@ == circle_hits(line.origin, line.direction, false, *circle),
{
    path_circle_intersection(&line.origin, &line.direction, false, circle)
}

/// Two straight loci overlap: they do not meet in a single point, and the
/// origin of the first lies within the distance tolerance of the line of the
/// second.
pub open spec fn overlap(o1: Pos2, d1: Vec2, bounded1: bool, o2: Pos2, d2: Vec2, bounded2: bool) -> bool {
    !meet(o1, d1, bounded1, o2, d2, bounded2) && near_line(o2, d2, o1)
}

/// What is left of the locus `current` once `next` must hold as well.
///
/// Two straight loci that meet in a point leave no locus; two that do not
/// meet leave one only where they overlap, and then a ray is kept before a
/// line and the current locus before the next. A circle together with a
/// straight locus leaves at most single points, and so no locus. Two circles
/// are never reduced, and a single point reduces nothing: the current locus
/// stays.
pub open spec fn combine_spec(current: ConstraintPath, next: ConstraintPath) -> Option<
    ConstraintPath,
> {
    match (current, next) {
        (ConstraintPath::Line(l1), ConstraintPath::Line(l2)) => {
            if overlap(l1.origin, l1.direction, false, l2.origin, l2.direction, false) {
                Some(current)
            } else {
                None
            }
        },
        (ConstraintPath::Ray(r1), ConstraintPath::Ray(r2)) => {
            if overlap(r1.origin, r1.direction, true, r2.origin, r2.direction, true) {
                Some(current)
            } else {
                None
            }
        },
        (ConstraintPath::Line(l), ConstraintPath::Ray(r)) => {
            if overlap(r.origin, r.direction, true, l.origin, l.direction, false) {
                Some(next)
            } else {
                None
            }
        },
        (ConstraintPath::Ray(r), ConstraintPath::Line(l)) => {
            if overlap(r.origin, r.direction, true, l.origin, l.direction, false) {
                Some(current)
            } else {
                None
            }
        },
        (ConstraintPath::Circle(_), ConstraintPath::Line(_)) => None,
        (ConstraintPath::Line(_), ConstraintPath::Circle(_)) => None,
        (ConstraintPath::Circle(_), ConstraintPath::Ray(_)) => None,
        (ConstraintPath::Ray(_), ConstraintPath::Circle(_)) => None,
        _ => Some(current),
    }
}

/// The locus that survives the first `n` of `paths`: the first of them,
/// combined with each later one in turn. Once no locus is left, none comes
/// back.
pub open spec fn fold_paths(paths: Seq<ConstraintPath>, n: nat) -> Option<ConstraintPath>
    decreases n,
{
    if n == 0 {
        None
    } else if n == 1 {
        Some(paths[0])
    } else {
        match fold_paths(paths, (n - 1) as nat) {
            None => None,
            Some(current) => combine_spec(current, paths[n - 1]),
        }
    }
}

/// The locus that survives all of `paths`.
pub open spec fn intersect_paths_spec(paths: Seq<ConstraintPath>) -> Option<ConstraintPath> {
    fold_paths(paths, paths.len())
}

/// Once no locus is left, none is left after any further path.
pub proof fn lemma_fold_stays_empty(paths: Seq<ConstraintPath>, k: nat, n: nat)
    requires
        1 <= k <= n,
        fold_paths(paths, k) is None,
    ensures
        fold_paths(paths, n) is None,
    decreases n,
{
    if k < n {
        lemma_fold_stays_empty(paths, k, (n - 1) as nat);
    }
}

/// Whether two straight loci overlap.
pub fn paths_overlap(
    o1: &Pos2,
    d1: &Vec2,
    bounded1: bool,
    o2: &Pos2,
    d2: &Vec2,
    bounded2: bool,
) -> (b: bool)
    requires
        o1.in_range(),
        d1.in_range(),
        o2.in_range(),
        d2.in_range(),
    ensures
        b == overlap(*o1, *d1, bounded1, *o2, *d2, bounded2),
{
    !paths_meet(o1, d1, bounded1, o2, d2, bounded2) && is_near_line(o2, d2, o1)
}

/// Reduces the locus `current` by the locus `next`.
pub fn combine(current: &ConstraintPath, next: &ConstraintPath) -> (r: Option<ConstraintPath>)
    requires
        current.wf(),
        next.wf(),
    ensures
        r == combine_spec(*current, *next),
        r is Some ==> r->0.wf(),
{
    match (current, next) {
        (ConstraintPath::Line(l1), ConstraintPath::Line(l2)) => {
            if paths_overlap(&l1.origin, &l1.direction, false, &l2.origin, &l2.direction, false) {
                Some(*current)
            } else {
                None
            }
        },
        (ConstraintPath::Ray(r1), ConstraintPath::Ray(r2)) => {
            if paths_overlap(&r1.origin, &r1.direction, true, &r2.origin, &r2.direction, true) {
                Some(*current)
            } else {
                None
            }
        },
        (ConstraintPath::Line(l), ConstraintPath::Ray(r)) => {
            if paths_overlap(&r.origin, &r.direction, true, &l.origin, &l.direction, false) {
                Some(*next)
            } else {
                None
            }
        },
        (ConstraintPath::Ray(r), ConstraintPath::Line(l)) => {
            if paths_overlap(&r.origin, &r.direction, true, &l.origin, &l.direction, false) {
                Some(*current)
            } else {
                None
            }
        },
        (ConstraintPath::Circle(_), ConstraintPath::Line(_)) => None,
        (ConstraintPath::Line(_), ConstraintPath::Circle(_)) => None,
        (ConstraintPath::Circle(_), ConstraintPath::Ray(_)) => None,
        (ConstraintPath::Ray(_), ConstraintPath::Circle(_)) => None,
        _ => Some(*current),
    }
}

/// Reduces a list of loci to the one locus that satisfies them all, pair by
/// pair from the front; `None` where the list is empty or no locus is left.
pub fn intersect_paths(constraint_paths: Vec<ConstraintPath>) -> (r: Option<ConstraintPath>)
    requires
        forall|i: int| 0 <= i < constraint_paths@.len() ==> (#[trigger] constraint_paths@[i]).wf(),
    ensures
        r == intersect_paths_spec(constraint_paths@),
        r is Some ==> r->0.wf(),
{
    if constraint_paths.len() == 0 {
        return None;
    }
    let mut valid_path: ConstraintPath = constraint_paths[0];
    let mut i: usize = 1;
    while i < constraint_paths.len()
        invariant
            1 <= i <= constraint_paths@.len(),
            forall|j: int|
                0 <= j < constraint_paths@.len() ==> (#[trigger] constraint_paths@[j]).wf(),
            fold_paths(constraint_paths@, i as nat) == Some(valid_path),
            valid_path.wf(),
        decreases constraint_paths@.len() - i,
    {
        match combine(&valid_path, &constraint_paths[i]) {
            Some(path) => {
                valid_path = path;
            },
            None => {
                proof {
                    lemma_fold_stays_empty(
                        constraint_paths@,
                        (i + 1) as nat,
                        constraint_paths@.len(),
                    );
                }
                return None;
            },
        }
        i += 1;
    }
    Some(valid_path)
}

} // verus!
