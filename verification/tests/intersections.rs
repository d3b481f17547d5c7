use constraint_sketch::arith::UNIT;
use constraint_sketch::geometry::{Pos2, Vec2};
use constraint_sketch::intersection::{
    combine, intersect_paths, intersection, line_circle_intersection, line_line_intersection,
    line_ray_intersection, path_circle_intersection, paths_meet, ray_circle_intersection,
    ray_ray_intersection,
};
use constraint_sketch::locus::{Circle, ConstraintPath, Line, Point, Ray};

fn p(x: i64, y: i64) -> Pos2 {
    Pos2::new(x * UNIT, y * UNIT)
}

fn ray(ox: i64, oy: i64, dx: i64, dy: i64) -> Ray {
    Ray { origin: p(ox, oy), direction: Vec2::new(dx * UNIT, dy * UNIT) }
}

fn line(ox: i64, oy: i64, dx: i64, dy: i64) -> Line {
    Line { origin: p(ox, oy), direction: Vec2::new(dx * UNIT, dy * UNIT) }
}

fn at(x: i64, y: i64) -> Point {
    Point { origin: p(x, y) }
}

#[test]
fn rays_that_cross_meet_in_a_point() {
    let r = ray_ray_intersection(&ray(0, 0, 1, 0), &ray(5, -5, 0, 1));
    assert_eq!(r, Some(at(5, 0)));
    let r = ray_ray_intersection(&ray(5, -5, 0, 1), &ray(0, 0, 1, 0));
    assert_eq!(r, Some(at(5, 0)));
    let r = ray_ray_intersection(&ray(0, 0, 3, 3), &ray(4, 0, -2, 2));
    assert_eq!(r, Some(at(2, 2)));
}

#[test]
fn rays_that_point_away_do_not_meet() {
    assert_eq!(ray_ray_intersection(&ray(0, 0, 1, 0), &ray(5, -5, 0, -1)), None);
    assert_eq!(ray_ray_intersection(&ray(0, 0, -1, 0), &ray(5, -5, 0, 1)), None);
    // a ray that starts on the other one meets it at its origin
    assert_eq!(ray_ray_intersection(&ray(0, 0, 1, 0), &ray(5, 0, 0, 1)), Some(at(5, 0)));
}

#[test]
fn parallel_paths_do_not_meet() {
    assert_eq!(ray_ray_intersection(&ray(0, 0, 1, 0), &ray(0, 1, 1, 0)), None);
    assert_eq!(ray_ray_intersection(&ray(0, 0, 1, 0), &ray(0, 0, 1, 0)), None);
    assert_eq!(line_line_intersection(&line(0, 0, 1, 0), &line(0, 1, -3, 0)), None);
    assert_eq!(line_ray_intersection(&line(0, 0, 1, 1), &ray(0, 1, 2, 2)), None);
    assert_eq!(line_line_intersection(&line(0, 0, 0, 0), &line(0, 1, 1, 0)), None);
}

#[test]
fn lines_meet_behind_their_origins() {
    assert_eq!(line_line_intersection(&line(0, 0, 1, 0), &line(5, -5, 0, -1)), Some(at(5, 0)));
    assert_eq!(line_line_intersection(&line(0, 0, -1, 0), &line(5, 5, 0, 1)), Some(at(5, 0)));
    assert_eq!(line_ray_intersection(&line(0, 0, -1, 0), &ray(5, -5, 0, 1)), Some(at(5, 0)));
    assert_eq!(line_ray_intersection(&line(0, 0, 1, 0), &ray(5, -5, 0, -1)), None);
}

#[test]
fn meeting_point_is_rounded_down() {
    let a = Line { origin: Pos2::new(0, 0), direction: Vec2::new(3, 1) };
    let b = Line { origin: Pos2::new(10, 0), direction: Vec2::new(0, 1) };
    // they meet at (10, 3 1/3)
    assert_eq!(line_line_intersection(&a, &b), Some(Point { origin: Pos2::new(10, 3) }));
    let c = Line { origin: Pos2::new(0, 0), direction: Vec2::new(3, -1) };
    // they meet at (10, -3 1/3)
    assert_eq!(line_line_intersection(&c, &b), Some(Point { origin: Pos2::new(10, -4) }));
}

#[test]
fn meeting_point_out_of_range_is_dropped() {
    let a = Line { origin: Pos2::new(0, 0), direction: Vec2::new(1_000, 0) };
    let near = Line { origin: Pos2::new(0, 1_000_000), direction: Vec2::new(1_000, -2) };
    assert_eq!(
        line_line_intersection(&a, &near),
        Some(Point { origin: Pos2::new(500_000_000, 0) })
    );
    let far = Line { origin: Pos2::new(0, 1_000_002), direction: Vec2::new(1_000, -2) };
    assert_eq!(line_line_intersection(&a, &far), None);
    assert!(paths_meet(&a.origin, &a.direction, false, &far.origin, &far.direction, false));
    assert_eq!(
        intersection(&a.origin, &a.direction, true, &far.origin, &far.direction, true),
        None
    );
}

#[test]
fn paths_meet_agrees_with_the_crossing() {
    let a = ray(0, 0, 1, 0);
    let b = ray(5, -5, 0, 1);
    let c = ray(5, -5, 0, -1);
    assert!(paths_meet(&a.origin, &a.direction, true, &b.origin, &b.direction, true));
    assert!(!paths_meet(&a.origin, &a.direction, true, &c.origin, &c.direction, true));
    assert!(paths_meet(&a.origin, &a.direction, true, &c.origin, &c.direction, false));
    assert!(!paths_meet(&a.origin, &a.direction, false, &c.origin, &c.direction, true));
}

#[test]
fn line_crosses_circle_twice() {
    let circle = Circle { origin: p(5, 0), radius: 3 * UNIT };
    let hits = line_circle_intersection(&line(0, 0, 1, 0), &circle);
    assert_eq!(hits, vec![at(8, 0), at(2, 0)]);
    let hits = line_circle_intersection(&line(0, 0, -1, 0), &circle);
    assert_eq!(hits, vec![at(2, 0), at(8, 0)]);
    let hits = line_circle_intersection(&line(9, 0, 1, 0), &circle);
    assert_eq!(hits, vec![at(8, 0), at(2, 0)]);
}

#[test]
fn ray_keeps_the_crossings_ahead() {
    let circle = Circle { origin: p(5, 0), radius: 3 * UNIT };
    assert_eq!(ray_circle_intersection(&ray(0, 0, 1, 0), &circle), vec![at(8, 0), at(2, 0)]);
    assert_eq!(ray_circle_intersection(&ray(5, 0, 1, 0), &circle), vec![at(8, 0)]);
    assert_eq!(ray_circle_intersection(&ray(9, 0, 1, 0), &circle), vec![]);
    assert_eq!(ray_circle_intersection(&ray(9, 0, -1, 0), &circle), vec![at(2, 0), at(8, 0)]);
}

#[test]
fn tangent_and_missing_circle() {
    let touching = Circle { origin: p(5, 3), radius: 3 * UNIT };
    assert_eq!(line_circle_intersection(&line(0, 0, 1, 0), &touching), vec![at(5, 0), at(5, 0)]);
    let away = Circle { origin: p(5, 4), radius: 3 * UNIT };
    assert_eq!(line_circle_intersection(&line(0, 0, 1, 0), &away), vec![]);
    let o = p(0, 0);
    let none = Vec2::new(0, 0);
    assert_eq!(path_circle_intersection(&o, &none, false, &touching), vec![]);
}

#[test]
fn circle_crossing_is_rounded_down() {
    let circle = Circle { origin: p(4, 0), radius: 4 * UNIT };
    let hits = line_circle_intersection(&line(2, 3, 4, 0), &circle);
    // the crossings are at 4 + sqrt 7 and 4 - sqrt 7
    assert_eq!(
        hits,
        vec![
            Point { origin: Pos2::new(66_457, 30_000) },
            Point { origin: Pos2::new(13_542, 30_000) }
        ]
    );
}

#[test]
fn coincident_rays_leave_the_first() {
    let first = ConstraintPath::Ray(ray(1, 1, 2, 0));
    let second = ConstraintPath::Ray(ray(1, 1, 2, 0));
    assert_eq!(intersect_paths(vec![first, second]), Some(first));
    assert_eq!(combine(&first, &second), Some(first));
    // the same bearing from another point of the same line
    let shifted = ConstraintPath::Ray(ray(3, 1, 5, 0));
    assert_eq!(intersect_paths(vec![first, shifted]), Some(first));
    assert_eq!(intersect_paths(vec![shifted, first]), Some(shifted));
}

#[test]
fn rays_that_neither_cross_nor_coincide_leave_nothing() {
    let first = ConstraintPath::Ray(ray(0, 0, 1, 0));
    let beside = ConstraintPath::Ray(ray(0, 1, 1, 0));
    assert_eq!(intersect_paths(vec![first, beside]), None);
    let crossing = ConstraintPath::Ray(ray(5, -5, 0, 1));
    assert_eq!(intersect_paths(vec![first, crossing]), None);
    // the second ray runs through the origin of the first
    let through = ConstraintPath::Ray(ray(-5, -5, 1, 1));
    assert_eq!(intersect_paths(vec![first, through]), None);
}

#[test]
fn rays_that_miss_each_other_are_tested_at_the_first_origin() {
    // the first ray starts on the line of the second, behind its origin
    let first = ConstraintPath::Ray(ray(0, 0, -1, 0));
    let second = ConstraintPath::Ray(ray(2, 2, 1, 1));
    assert_eq!(combine(&first, &second), Some(first));
    assert_eq!(combine(&second, &first), None);
}

#[test]
fn lines_reduce_to_the_first_where_they_coincide() {
    let first = ConstraintPath::Line(line(0, 0, 1, 1));
    let same = ConstraintPath::Line(line(3, 3, -2, -2));
    let beside = ConstraintPath::Line(line(0, 1, 1, 1));
    let crossing = ConstraintPath::Line(line(0, 1, 1, 0));
    assert_eq!(intersect_paths(vec![first, same]), Some(first));
    assert_eq!(intersect_paths(vec![first, beside]), None);
    assert_eq!(intersect_paths(vec![first, crossing]), None);
}

#[test]
fn ray_is_kept_before_a_line() {
    let l = ConstraintPath::Line(line(0, 0, 1, 0));
    let on = ConstraintPath::Ray(ray(2, 0, -1, 0));
    let off = ConstraintPath::Ray(ray(2, 1, -1, 0));
    let through = ConstraintPath::Ray(ray(2, -1, 0, 1));
    let away = ConstraintPath::Ray(ray(2, 1, 0, 1));
    assert_eq!(combine(&l, &on), Some(on));
    assert_eq!(combine(&on, &l), Some(on));
    assert_eq!(combine(&l, &off), None);
    assert_eq!(combine(&off, &l), None);
    assert_eq!(combine(&l, &through), None);
    assert_eq!(combine(&through, &l), None);
    assert_eq!(combine(&l, &away), None);
}

#[test]
fn circle_with_a_straight_path_leaves_nothing() {
    let c = ConstraintPath::Circle(Circle { origin: p(0, 0), radius: 2 * UNIT });
    let l = ConstraintPath::Line(line(0, 0, 1, 0));
    let r = ConstraintPath::Ray(ray(0, 0, 1, 0));
    assert_eq!(combine(&c, &l), None);
    assert_eq!(combine(&l, &c), None);
    assert_eq!(combine(&c, &r), None);
    assert_eq!(combine(&r, &c), None);
    assert_eq!(intersect_paths(vec![c, l]), None);
}

#[test]
fn circles_and_points_reduce_nothing() {
    let c1 = ConstraintPath::Circle(Circle { origin: p(0, 0), radius: 2 * UNIT });
    let c2 = ConstraintPath::Circle(Circle { origin: p(9, 9), radius: UNIT });
    let pt = ConstraintPath::Point(at(7, 7));
    let l = ConstraintPath::Line(line(0, 0, 1, 0));
    assert_eq!(combine(&c1, &c2), Some(c1));
    assert_eq!(combine(&c2, &c1), Some(c2));
    assert_eq!(combine(&pt, &l), Some(pt));
    assert_eq!(combine(&l, &pt), Some(l));
    assert_eq!(combine(&pt, &c1), Some(pt));
    assert_eq!(combine(&pt, &pt), Some(pt));
    assert_eq!(intersect_paths(vec![c1, c2, c1]), Some(c1));
}

#[test]
fn fold_goes_from_the_front_and_stops_when_empty() {
    assert_eq!(intersect_paths(vec![]), None);
    let l = ConstraintPath::Line(line(0, 0, 1, 0));
    assert_eq!(intersect_paths(vec![l]), Some(l));
    let on = ConstraintPath::Ray(ray(2, 0, 1, 0));
    let crossing = ConstraintPath::Line(line(0, 1, 0, 1));
    let c = ConstraintPath::Circle(Circle { origin: p(0, 0), radius: 2 * UNIT });
    assert_eq!(intersect_paths(vec![l, on, on]), Some(on));
    assert_eq!(intersect_paths(vec![on, l, on, l]), Some(on));
    assert_eq!(intersect_paths(vec![on, l, crossing]), None);
    assert_eq!(intersect_paths(vec![l, crossing, l]), None);
    // the order decides: two circles and a line, a line and two circles
    assert_eq!(intersect_paths(vec![c, c, l]), None);
    assert_eq!(intersect_paths(vec![c, l, c]), None);
}
