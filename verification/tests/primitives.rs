use constraint_sketch::arith::{div_floor, isqrt, magnitude, UNIT};
use constraint_sketch::geometry::{Pos2, Vec2};
use constraint_sketch::locus::{
    coordinate_along, foot_of, is_near_line, Circle, ConstraintPath, Line, Point, Ray,
};

fn p(x: i64, y: i64) -> Pos2 {
    Pos2::new(x * UNIT, y * UNIT)
}

#[test]
fn isqrt_rounds_down() {
    assert_eq!(isqrt(0), 0);
    assert_eq!(isqrt(1), 1);
    assert_eq!(isqrt(3), 1);
    assert_eq!(isqrt(4), 2);
    assert_eq!(isqrt(99), 9);
    assert_eq!(isqrt(100), 10);
    assert_eq!(isqrt(800_000_000), 28_284);
    assert_eq!(isqrt(u128::MAX), u64::MAX);
}

#[test]
fn div_floor_rounds_towards_negative_infinity() {
    assert_eq!(div_floor(7, 2), 3);
    assert_eq!(div_floor(-7, 2), -4);
    assert_eq!(div_floor(-8, 2), -4);
    assert_eq!(div_floor(-1, 5), -1);
    assert_eq!(div_floor(0, 5), 0);
}

#[test]
fn magnitude_drops_the_sign() {
    assert_eq!(magnitude(-5), 5);
    assert_eq!(magnitude(5), 5);
    assert_eq!(magnitude(0), 0);
}

#[test]
fn vector_products() {
    let a = Vec2::new(3, 4);
    let b = Vec2::new(-4, 3);
    assert_eq!(a.length_sq(), 25);
    assert_eq!(a.dot_product(&b), 0);
    assert_eq!(a.cross_product(&b), 25);
    assert_eq!(b.cross_product(&a), -25);
}

#[test]
fn parallel_within_tolerance() {
    let a = Vec2::new(1_000_000, 0);
    assert!(a.is_nearly_parallel(&Vec2::new(5, 0)));
    assert!(a.is_nearly_parallel(&Vec2::new(-5, 0)));
    // sine of the angle just under and just over a thousandth
    assert!(a.is_nearly_parallel(&Vec2::new(1_000_000, 999)));
    assert!(!a.is_nearly_parallel(&Vec2::new(1_000_000, 1_001)));
    assert!(!a.is_nearly_parallel(&Vec2::new(0, 1)));
    // the zero vector is parallel to everything
    assert!(a.is_nearly_parallel(&Vec2::new(0, 0)));
}

#[test]
fn degenerate_below_a_hundredth_of_a_unit() {
    assert!(Vec2::new(99, 0).check_degenerate());
    assert!(!Vec2::new(100, 0).check_degenerate());
    assert!(Vec2::new(70, 70).check_degenerate());
    assert!(!Vec2::new(71, 71).check_degenerate());
}

#[test]
fn range_checks() {
    assert!(Pos2::new(500_000_000, -500_000_000).is_in_range());
    assert!(!Pos2::new(500_000_001, 0).is_in_range());
    assert!(!Pos2::new(0, -500_000_001).is_in_range());
    assert!(Vec2::new(1_000_000_000, -1_000_000_000).is_in_range());
    assert!(!Vec2::new(1_000_000_001, 0).is_in_range());
}

#[test]
fn distance_rounds_down() {
    assert_eq!(p(0, 0).distance(&p(3, 4)), 5 * UNIT);
    assert_eq!(Pos2::new(0, 0).distance(&Pos2::new(1, 1)), 1);
    assert_eq!(Pos2::new(0, 0).distance(&Pos2::new(2, 2)), 2);
    let v = p(1, 1).vector_to(&p(4, -1));
    assert_eq!(v, Vec2::new(3 * UNIT, -2 * UNIT));
}

#[test]
fn coordinate_along_rounds_down() {
    assert_eq!(coordinate_along(10, 3, 7, 2), 20);
    assert_eq!(coordinate_along(10, -3, 7, 2), -1);
    assert_eq!(coordinate_along(-5, 4, 0, 9), -5);
}

#[test]
fn line_closest_point_is_the_foot_of_the_perpendicular() {
    let line = Line { origin: p(0, 0), direction: Vec2::new(2, 0) };
    assert_eq!(line.closest_point(&p(3, 7)), p(3, 0));
    assert_eq!(line.closest_point(&p(-3, 7)), p(-3, 0));
    let diagonal = Line { origin: p(1, 1), direction: Vec2::new(5, 5) };
    assert_eq!(diagonal.closest_point(&p(3, 1)), p(2, 2));
    // a line without direction is a point
    let dot = Line { origin: p(2, 3), direction: Vec2::new(0, 0) };
    assert_eq!(dot.closest_point(&p(9, 9)), p(2, 3));
}

#[test]
fn ray_closest_point_stops_at_the_origin() {
    let ray = Ray { origin: p(0, 0), direction: Vec2::new(2, 0) };
    assert_eq!(ray.closest_point(&p(3, 7)), p(3, 0));
    assert_eq!(ray.closest_point(&p(-3, 7)), p(0, 0));
    assert_eq!(foot_of(&p(0, 0), &Vec2::new(2, 0), &p(-3, 7), false), p(-3, 0));
}

#[test]
fn circle_closest_point_lies_on_the_bearing() {
    let circle = Circle { origin: p(4, 4), radius: 4 * UNIT };
    assert_eq!(circle.closest_point(&p(4, 9)), p(4, 8));
    assert_eq!(circle.closest_point(&p(-6, 4)), p(0, 4));
    assert_eq!(circle.closest_point(&p(8, 0)), Pos2::new(68_284, 11_716));
    // at the centre the topmost point is taken
    assert_eq!(circle.closest_point(&p(4, 4)), p(4, 0));
    assert_eq!(circle.closest_point(&Pos2::new(40_009, 40_000)), p(4, 0));
    assert_eq!(circle.closest_point(&Pos2::new(40_010, 40_000)), p(8, 4));
}

#[test]
fn point_and_path_closest_point() {
    let point = Point { origin: p(1, 2) };
    assert_eq!(point.closest_point(), p(1, 2));
    assert_eq!(ConstraintPath::Point(point).closest_point(&p(5, 5)), p(1, 2));
    let line = Line { origin: p(0, 0), direction: Vec2::new(0, 3) };
    assert_eq!(ConstraintPath::Line(line).closest_point(&p(5, 5)), p(0, 5));
    let ray = Ray { origin: p(0, 0), direction: Vec2::new(0, 3) };
    assert_eq!(ConstraintPath::Ray(ray).closest_point(&p(5, -5)), p(0, 0));
    let circle = Circle { origin: p(0, 0), radius: UNIT };
    assert_eq!(ConstraintPath::Circle(circle).closest_point(&p(5, 0)), p(1, 0));
}

#[test]
fn near_line_within_a_thousandth() {
    let o = p(0, 0);
    let d = Vec2::new(1_000, 0);
    assert!(is_near_line(&o, &d, &Pos2::new(123_456, 9)));
    assert!(is_near_line(&o, &d, &Pos2::new(-123_456, -9)));
    assert!(!is_near_line(&o, &d, &Pos2::new(123_456, 10)));
    let none = Vec2::new(0, 0);
    assert!(is_near_line(&o, &none, &Pos2::new(9, 0)));
    assert!(!is_near_line(&o, &none, &Pos2::new(10, 0)));
}
