use constraint_sketch::arith::UNIT;
use constraint_sketch::solver::{classify, hit_on_line, locus_for, Role};
use constraint_sketch::{
    Circle, Constraint, ConstraintError, ConstraintManager, ConstraintPath, DrawingManager,
    EdgeSolverResponse, LengthConstraint, Line, Pos2, Ray, SolverResponse, SolverState, Vec2,
};

fn p(x: i64, y: i64) -> Pos2 {
    Pos2::new(x * UNIT, y * UNIT)
}

fn v(x: i64, y: i64) -> Vec2 {
    Vec2::new(x * UNIT, y * UNIT)
}

/// Four vertices on a square, joined by three edges: 0 to 1, 1 to 2, 2 to 3.
fn open_square() -> DrawingManager {
    let mut dm = DrawingManager::new();
    dm.add_vertex(p(0, 0));
    dm.add_vertex(p(0, 4));
    dm.add_vertex(p(4, 4));
    dm.add_vertex(p(4, 0));
    dm.add_edge(0, 1).unwrap();
    dm.add_edge(1, 2).unwrap();
    dm.add_edge(2, 3).unwrap();
    dm
}

/// Three vertices on one line, joined by two edges: 0 to 1, 1 to 2.
fn straight() -> DrawingManager {
    let mut dm = DrawingManager::new();
    dm.add_vertex(p(0, 0));
    dm.add_vertex(p(4, 0));
    dm.add_vertex(p(8, 0));
    dm.add_edge(0, 1).unwrap();
    dm.add_edge(1, 2).unwrap();
    dm
}

fn free(try_pos: Pos2) -> SolverResponse {
    SolverResponse { state: SolverState::Free, valid_path: None, new_pos: Some(try_pos) }
}

fn partial(path: ConstraintPath, new_pos: Pos2) -> SolverResponse {
    SolverResponse { state: SolverState::Partial, valid_path: Some(path), new_pos: Some(new_pos) }
}

#[test]
fn defaults_and_locked_responses() {
    assert_eq!(SolverState::default(), SolverState::Free);
    assert_eq!(
        SolverResponse::default(),
        SolverResponse { state: SolverState::Free, valid_path: None, new_pos: None }
    );
    assert_eq!(
        SolverResponse::locked(),
        SolverResponse { state: SolverState::Locked, valid_path: None, new_pos: None }
    );
    assert_eq!(
        EdgeSolverResponse::default(),
        EdgeSolverResponse { state: SolverState::Free, valid_paths: None, new_pos: None }
    );
    assert_eq!(
        EdgeSolverResponse::locked(),
        EdgeSolverResponse { state: SolverState::Locked, valid_paths: None, new_pos: None }
    );
}

#[test]
fn vertex_without_constraints_is_free() {
    let dm = open_square();
    let cm = ConstraintManager::new();
    let r = cm.solve_for_vertex(&dm, 3, &p(4, 0), &p(8, 1), vec![]);
    assert_eq!(r, Ok(free(p(8, 1))));
    // a position out of range is handed back as it came
    let far = Pos2::new(i64::MAX, i64::MIN);
    assert_eq!(cm.solve_for_vertex(&dm, 3, &far, &far, vec![]), Ok(free(far)));
    // so is a vertex that the store does not hold
    assert_eq!(cm.solve_for_vertex(&dm, 42, &p(0, 0), &p(1, 1), vec![]), Ok(free(p(1, 1))));
}

#[test]
fn vertex_beside_the_constraints_is_free() {
    let mut dm = open_square();
    let mut cm = ConstraintManager::new();
    cm.add_length_constraint(&dm, 2).unwrap();
    cm.add_angle_constraint(&dm, 1, 2).unwrap();
    cm.add_parallel_constraint(&mut dm, 1, 2).unwrap();
    let r = cm.solve_for_vertex(&dm, 0, &p(0, 0), &p(-3, 7), vec![]);
    assert_eq!(r, Ok(free(p(-3, 7))));
}

#[test]
fn length_constraint_keeps_the_vertex_on_a_circle() {
    let dm = open_square();
    let mut cm = ConstraintManager::new();
    cm.add_length_constraint(&dm, 2).unwrap();
    let circle = ConstraintPath::Circle(Circle { origin: p(4, 4), radius: 4 * UNIT });
    let r = cm.solve_for_vertex(&dm, 3, &p(4, 0), &p(8, 0), vec![]);
    assert_eq!(r, Ok(partial(circle, Pos2::new(68_284, 11_716))));
    let new_pos = r.unwrap().new_pos.unwrap();
    let d = new_pos.distance(&p(4, 4));
    assert!((d - 4 * UNIT).abs() <= 10);
    assert_ne!(new_pos, p(4, 8));
    // the other end point moves about the dragged one
    let about_3 = ConstraintPath::Circle(Circle { origin: p(4, 0), radius: 4 * UNIT });
    let r = cm.solve_for_vertex(&dm, 2, &p(4, 4), &p(4, 9), vec![]);
    assert_eq!(r, Ok(partial(about_3, p(4, 4))));
}

#[test]
fn radius_is_the_length_when_the_drag_began() {
    let mut dm = open_square();
    let mut cm = ConstraintManager::new();
    cm.add_length_constraint(&dm, 2).unwrap();
    // the store already holds a dragged position; the drag began at (4, 0)
    dm.get_vertex_mut(3).unwrap().position = p(9, 9);
    let circle = ConstraintPath::Circle(Circle { origin: p(4, 4), radius: 4 * UNIT });
    let r = cm.solve_for_vertex(&dm, 3, &p(4, 0), &p(4, -5), vec![]);
    assert_eq!(r, Ok(partial(circle, p(4, 0))));
}

#[test]
fn pivot_of_a_bent_angle_is_locked() {
    let dm = open_square();
    let mut cm = ConstraintManager::new();
    cm.add_angle_constraint(&dm, 1, 2).unwrap();
    let r = cm.solve_for_vertex(&dm, 2, &p(4, 4), &p(5, 5), vec![]);
    assert_eq!(r, Ok(SolverResponse::locked()));
    // also where the drag asks for a place out of range
    let far = Pos2::new(i64::MAX, 0);
    assert_eq!(cm.solve_for_vertex(&dm, 2, &p(4, 4), &far, vec![]), Ok(SolverResponse::locked()));
}

#[test]
fn pivot_of_a_straight_angle_moves_along_the_arms() {
    let dm = straight();
    let mut cm = ConstraintManager::new();
    cm.add_angle_constraint(&dm, 0, 1).unwrap();
    let along = ConstraintPath::Line(Line { origin: p(4, 0), direction: v(-4, 0) });
    let r = cm.solve_for_vertex(&dm, 1, &p(4, 0), &p(5, 3), vec![]);
    assert_eq!(r, Ok(partial(along, p(5, 0))));
}

#[test]
fn pivot_lock_goes_by_the_angular_tolerance() {
    let mut dm = straight();
    let mut cm = ConstraintManager::new();
    cm.add_angle_constraint(&dm, 0, 1).unwrap();
    // the second arm is 40 000 steps long; a sine of a thousandth is 40 steps
    dm.get_vertex_mut(2).unwrap().position = Pos2::new(80_000, 39);
    let r = cm.solve_for_vertex(&dm, 1, &p(4, 0), &p(5, 3), vec![]).unwrap();
    assert_eq!(r.state, SolverState::Partial);
    dm.get_vertex_mut(2).unwrap().position = Pos2::new(80_000, 41);
    let r = cm.solve_for_vertex(&dm, 1, &p(4, 0), &p(5, 3), vec![]).unwrap();
    assert_eq!(r.state, SolverState::Locked);
    // folded back onto the first arm: a half turn counts as straight
    dm.get_vertex_mut(2).unwrap().position = p(1, 0);
    let r = cm.solve_for_vertex(&dm, 1, &p(4, 0), &p(5, 3), vec![]).unwrap();
    assert_eq!(r.state, SolverState::Partial);
}

#[test]
fn outer_vertex_of_an_angle_moves_along_its_ray() {
    let dm = open_square();
    let mut cm = ConstraintManager::new();
    cm.add_angle_constraint(&dm, 1, 2).unwrap();
    let ray = ConstraintPath::Ray(Ray { origin: p(4, 4), direction: v(0, -4) });
    let r = cm.solve_for_vertex(&dm, 3, &p(4, 0), &p(9, -2), vec![]);
    assert_eq!(r, Ok(partial(ray, p(4, -2))));
    // not behind the pivot
    let r = cm.solve_for_vertex(&dm, 3, &p(4, 0), &p(9, 7), vec![]);
    assert_eq!(r, Ok(partial(ray, p(4, 4))));
    let other = ConstraintPath::Ray(Ray { origin: p(4, 4), direction: v(-4, 0) });
    let r = cm.solve_for_vertex(&dm, 1, &p(0, 4), &p(-1, 1), vec![]);
    assert_eq!(r, Ok(partial(other, p(-1, 4))));
}

#[test]
fn parallel_constraint_keeps_the_vertex_on_the_line_of_its_edge() {
    let mut dm = open_square();
    let mut cm = ConstraintManager::new();
    cm.add_parallel_constraint(&mut dm, 0, 2).unwrap();
    let through_2 = ConstraintPath::Line(Line { origin: p(4, 4), direction: v(0, -4) });
    let r = cm.solve_for_vertex(&dm, 3, &p(4, 0), &p(9, -2), vec![]);
    assert_eq!(r, Ok(partial(through_2, p(4, -2))));
    let through_3 = ConstraintPath::Line(Line { origin: p(4, 0), direction: v(0, -4) });
    let r = cm.solve_for_vertex(&dm, 2, &p(4, 4), &p(9, 7), vec![]);
    assert_eq!(r, Ok(partial(through_3, p(4, 7))));
    let through_1 = ConstraintPath::Line(Line { origin: p(0, 4), direction: v(0, 4) });
    let r = cm.solve_for_vertex(&dm, 0, &p(0, 0), &p(-2, -2), vec![]);
    assert_eq!(r, Ok(partial(through_1, p(0, -2))));
}

#[test]
fn ignored_constraints_do_not_hold_the_vertex() {
    let mut dm = open_square();
    let mut cm = ConstraintManager::new();
    let length = cm.add_length_constraint(&dm, 2).unwrap();
    let parallel = cm.add_parallel_constraint(&mut dm, 0, 2).unwrap();
    let r = cm.solve_for_vertex(&dm, 3, &p(4, 0), &p(9, -2), vec![length, parallel]);
    assert_eq!(r, Ok(free(p(9, -2))));
    let r = cm.solve_for_vertex(&dm, 3, &p(4, 0), &p(9, -2), vec![7, length, -1]);
    let through_2 = ConstraintPath::Line(Line { origin: p(4, 4), direction: v(0, -4) });
    assert_eq!(r, Ok(partial(through_2, p(4, -2))));
}

#[test]
fn circle_and_line_together_lock_the_vertex() {
    let mut dm = open_square();
    let mut cm = ConstraintManager::new();
    cm.add_length_constraint(&dm, 2).unwrap();
    cm.add_parallel_constraint(&mut dm, 0, 2).unwrap();
    let r = cm.solve_for_vertex(&dm, 3, &p(4, 0), &p(9, -2), vec![]);
    assert_eq!(r, Ok(SolverResponse::locked()));
}

#[test]
fn two_circles_leave_the_first() {
    let mut dm = open_square();
    dm.add_edge(3, 0).unwrap();
    let mut cm = ConstraintManager::new();
    cm.add_length_constraint(&dm, 3).unwrap();
    cm.add_length_constraint(&dm, 2).unwrap();
    let about_0 = ConstraintPath::Circle(Circle { origin: p(0, 0), radius: 4 * UNIT });
    let r = cm.solve_for_vertex(&dm, 3, &p(4, 0), &p(0, -9), vec![]);
    assert_eq!(r, Ok(partial(about_0, p(0, -4))));
}

#[test]
fn loci_come_in_the_order_of_their_kinds() {
    // vertex 1 is an outer vertex of the angle and an end point of a parallel edge
    let mut dm = straight();
    dm.add_vertex(p(0, 5));
    dm.add_vertex(p(9, 5));
    dm.add_edge(3, 4).unwrap();
    let mut cm = ConstraintManager::new();
    cm.add_parallel_constraint(&mut dm, 0, 2).unwrap();
    dm.add_vertex(p(12, 0));
    dm.add_edge(2, 5).unwrap();
    cm.add_angle_constraint(&dm, 1, 3).unwrap();
    // the ray from the pivot 2 through 1 comes before the line along the edge 0
    let ray = ConstraintPath::Ray(Ray { origin: p(8, 0), direction: v(-4, 0) });
    let r = cm.solve_for_vertex(&dm, 1, &p(4, 0), &p(3, 3), vec![]);
    assert_eq!(r, Ok(partial(ray, p(3, 0))));
    let r = cm.solve_for_vertex(&dm, 1, &p(4, 0), &p(11, 3), vec![]);
    assert_eq!(r, Ok(partial(ray, p(8, 0))));
}

#[test]
fn stale_handles_are_reported() {
    let dm = open_square();
    let mut cm = ConstraintManager::new();
    cm.add_length_constraint(&dm, 2).unwrap();
    let empty = DrawingManager::new();
    let r = cm.solve_for_vertex(&empty, 3, &p(4, 0), &p(8, 0), vec![]);
    assert_eq!(r, Err(ConstraintError::EdgeNotFound(2)));
    assert_eq!(cm.solve_for_vertex(&empty, 3, &p(4, 0), &p(8, 0), vec![0]), Ok(free(p(8, 0))));
    let mut broken = open_square();
    broken.get_edge_mut(2).unwrap().start_point_vh = 77;
    let r = cm.solve_for_vertex(&broken, 3, &p(4, 0), &p(8, 0), vec![]);
    assert_eq!(r, Err(ConstraintError::VertexNotFound(77)));
    let r = cm.solve_for_edge(&empty, 1, &p(2, 4), &p(2, 6), &p(0, 4), &p(0, 6), &p(4, 4), &p(4, 6));
    assert_eq!(r, Err(ConstraintError::EdgeNotFound(1)));
}

#[test]
fn degenerate_bearing_is_reported() {
    let mut dm = open_square();
    let mut cm = ConstraintManager::new();
    cm.add_angle_constraint(&dm, 1, 2).unwrap();
    dm.get_vertex_mut(3).unwrap().position = Pos2::new(40_000, 40_099);
    let r = cm.solve_for_vertex(&dm, 3, &p(4, 0), &p(8, 0), vec![]);
    assert_eq!(r, Err(ConstraintError::DegenerateEdge));
    // the pivot asks for the directions of both edges
    let r = cm.solve_for_vertex(&dm, 2, &p(4, 4), &p(8, 0), vec![]);
    assert_eq!(r, Err(ConstraintError::DegenerateEdge));
    dm.get_vertex_mut(3).unwrap().position = Pos2::new(40_000, 40_100);
    let r = cm.solve_for_vertex(&dm, 3, &p(4, 0), &p(8, 0), vec![]).unwrap();
    assert_eq!(r.state, SolverState::Partial);
}

#[test]
fn positions_out_of_range_are_reported() {
    let mut dm = open_square();
    let mut cm = ConstraintManager::new();
    cm.add_length_constraint(&dm, 2).unwrap();
    let far = Pos2::new(500_000_001, 0);
    let r = cm.solve_for_vertex(&dm, 3, &p(4, 0), &far, vec![]);
    assert_eq!(r, Err(ConstraintError::PositionOutOfRange));
    let r = cm.solve_for_vertex(&dm, 3, &far, &p(8, 0), vec![]);
    assert_eq!(r, Err(ConstraintError::PositionOutOfRange));
    dm.get_vertex_mut(2).unwrap().position = far;
    let r = cm.solve_for_vertex(&dm, 3, &p(4, 0), &p(8, 0), vec![]);
    assert_eq!(r, Err(ConstraintError::PositionOutOfRange));
    let edge = Pos2::new(500_000_000, -500_000_000);
    dm.get_vertex_mut(2).unwrap().position = edge;
    let r = cm.solve_for_vertex(&dm, 3, &p(4, 0), &edge, vec![]).unwrap();
    assert_eq!(r.state, SolverState::Partial);
}

#[test]
fn roles_of_a_vertex() {
    let mut dm = open_square();
    let mut cm = ConstraintManager::new();
    cm.add_length_constraint(&dm, 2).unwrap();
    cm.add_angle_constraint(&dm, 1, 2).unwrap();
    cm.add_parallel_constraint(&mut dm, 0, 2).unwrap();
    let cs = cm.constraints();
    assert_eq!(classify(&cs[0], &dm, 3), Ok(Role::LengthEnd));
    assert_eq!(classify(&cs[0], &dm, 1), Ok(Role::Unrelated));
    assert_eq!(classify(&cs[1], &dm, 2), Ok(Role::AngleCenter));
    assert_eq!(classify(&cs[1], &dm, 1), Ok(Role::AngleEnd));
    assert_eq!(classify(&cs[1], &dm, 3), Ok(Role::AngleEnd));
    assert_eq!(classify(&cs[1], &dm, 0), Ok(Role::Unrelated));
    assert_eq!(classify(&cs[2], &dm, 0), Ok(Role::ParallelEnd));
    assert_eq!(classify(&cs[2], &dm, 3), Ok(Role::ParallelEnd));
    let stale = Constraint::LENGTH(LengthConstraint { edge_handle: 9 });
    assert_eq!(classify(&stale, &dm, 0), Err(ConstraintError::EdgeNotFound(9)));
    assert_eq!(locus_for(&stale, &dm, 0, &p(0, 0)), Err(ConstraintError::EdgeNotFound(9)));
    assert_eq!(
        locus_for(&cs[0], &dm, 2, &p(4, 5)),
        Ok(ConstraintPath::Circle(Circle { origin: p(4, 0), radius: 5 * UNIT }))
    );
}

#[test]
fn edge_without_constraints_is_free() {
    let dm = open_square();
    let cm = ConstraintManager::new();
    let r = cm.solve_for_edge(&dm, 1, &p(2, 4), &p(2, 6), &p(0, 4), &p(0, 6), &p(4, 4), &p(4, 6));
    assert_eq!(
        r,
        Ok(EdgeSolverResponse {
            state: SolverState::Free,
            valid_paths: None,
            new_pos: Some([p(0, 6), p(4, 6)]),
        })
    );
}

#[test]
fn edge_leaves_out_its_own_constraints() {
    let mut dm = open_square();
    let mut cm = ConstraintManager::new();
    cm.add_parallel_constraint(&mut dm, 0, 2).unwrap();
    let r = cm.solve_for_edge(&dm, 2, &p(4, 2), &p(6, 2), &p(4, 4), &p(6, 4), &p(4, 0), &p(6, 0));
    assert_eq!(
        r,
        Ok(EdgeSolverResponse {
            state: SolverState::Free,
            valid_paths: None,
            new_pos: Some([p(6, 4), p(6, 0)]),
        })
    );
}

#[test]
fn edge_between_two_held_ends_follows_both_loci() {
    let mut dm = open_square();
    let mut cm = ConstraintManager::new();
    cm.add_parallel_constraint(&mut dm, 0, 2).unwrap();
    let line_1 = ConstraintPath::Line(Line { origin: p(0, 0), direction: v(0, 4) });
    let line_2 = ConstraintPath::Line(Line { origin: p(4, 0), direction: v(0, -4) });
    let r = cm.solve_for_edge(&dm, 1, &p(2, 4), &p(2, 6), &p(0, 4), &p(0, 6), &p(4, 4), &p(4, 6));
    assert_eq!(
        r,
        Ok(EdgeSolverResponse {
            state: SolverState::Partial,
            valid_paths: Some(vec![line_1, line_2]),
            new_pos: Some([p(0, 6), p(4, 6)]),
        })
    );
    // pulled sideways, the end points stay on their lines
    let r = cm.solve_for_edge(&dm, 1, &p(2, 4), &p(5, 3), &p(0, 4), &p(3, 3), &p(4, 4), &p(7, 3));
    assert_eq!(r.unwrap().new_pos, Some([p(0, 3), p(4, 3)]));
}

#[test]
fn edge_with_a_locked_end_is_locked() {
    let dm = open_square();
    let mut cm = ConstraintManager::new();
    cm.add_angle_constraint(&dm, 1, 2).unwrap();
    let r = cm.solve_for_edge(&dm, 1, &p(2, 4), &p(2, 6), &p(0, 4), &p(0, 6), &p(4, 4), &p(4, 6));
    assert_eq!(r, Ok(EdgeSolverResponse::locked()));
    let r = cm.solve_for_edge(&dm, 2, &p(4, 2), &p(6, 2), &p(4, 4), &p(6, 4), &p(4, 0), &p(6, 0));
    assert_eq!(r, Ok(EdgeSolverResponse::locked()));
}

#[test]
fn edge_with_one_free_end_is_carried_by_the_held_end() {
    let dm = open_square();
    let mut cm = ConstraintManager::new();
    cm.add_length_constraint(&dm, 2).unwrap();
    let circle = ConstraintPath::Circle(Circle { origin: p(4, 0), radius: 4 * UNIT });
    let r = cm.solve_for_edge(&dm, 1, &p(2, 4), &p(2, 3), &p(0, 4), &p(0, 3), &p(4, 4), &p(4, 3));
    assert_eq!(
        r,
        Ok(EdgeSolverResponse {
            state: SolverState::Partial,
            valid_paths: Some(vec![circle]),
            new_pos: Some([Pos2::new(26_457, 30_000), Pos2::new(66_457, 30_000)]),
        })
    );
    // the other way round: the start point is held, the end point is free
    let mut dm = open_square();
    let mut cm = ConstraintManager::new();
    cm.add_length_constraint(&dm, 0).unwrap();
    dm.add_vertex(p(9, 9));
    let about_0 = ConstraintPath::Circle(Circle { origin: p(0, 0), radius: 4 * UNIT });
    let r = cm.solve_for_edge(&dm, 1, &p(2, 4), &p(2, 3), &p(0, 4), &p(0, 3), &p(4, 4), &p(4, 3));
    assert_eq!(
        r,
        Ok(EdgeSolverResponse {
            state: SolverState::Partial,
            valid_paths: Some(vec![about_0]),
            new_pos: Some([Pos2::new(26_457, 30_000), Pos2::new(66_457, 30_000)]),
        })
    );
}

#[test]
fn edge_line_that_misses_the_locus() {
    let dm = open_square();
    let mut cm = ConstraintManager::new();
    cm.add_length_constraint(&dm, 2).unwrap();
    // one end free: the held end falls back to the origin of the plane
    let r = cm.solve_for_edge(&dm, 1, &p(2, 4), &p(2, 9), &p(0, 4), &p(0, 9), &p(4, 4), &p(4, 9));
    assert_eq!(r.unwrap().new_pos, Some([p(-4, 0), p(0, 0)]));
    // both ends held: the edge is locked
    let mut dm = open_square();
    let mut cm = ConstraintManager::new();
    cm.add_length_constraint(&dm, 2).unwrap();
    cm.add_length_constraint(&dm, 0).unwrap();
    let r = cm.solve_for_edge(&dm, 1, &p(2, 4), &p(2, 9), &p(0, 4), &p(0, 9), &p(4, 4), &p(4, 9));
    assert_eq!(r, Ok(EdgeSolverResponse::locked()));
    let r = cm.solve_for_edge(&dm, 1, &p(2, 4), &p(2, 3), &p(0, 4), &p(0, 3), &p(4, 4), &p(4, 3));
    assert_eq!(r.unwrap().new_pos, Some([Pos2::new(26_457, 30_000), Pos2::new(66_457, 30_000)]));
}

#[test]
fn edge_drag_reports_what_it_cannot_compute() {
    let mut dm = open_square();
    let mut cm = ConstraintManager::new();
    cm.add_length_constraint(&dm, 2).unwrap();
    let far = Pos2::new(0, 500_000_001);
    let r = cm.solve_for_edge(&dm, 1, &p(2, 4), &far, &p(0, 4), &p(0, 3), &p(4, 4), &p(4, 3));
    assert_eq!(r, Err(ConstraintError::PositionOutOfRange));
    let r = cm.solve_for_edge(&dm, 1, &p(2, 4), &p(2, 3), &far, &p(0, 3), &p(4, 4), &p(4, 3));
    assert_eq!(r, Err(ConstraintError::PositionOutOfRange));
    dm.get_vertex_mut(1).unwrap().position = Pos2::new(40_000, 40_050);
    let r = cm.solve_for_edge(&dm, 1, &p(2, 4), &p(2, 3), &p(0, 4), &p(0, 3), &p(4, 4), &p(4, 3));
    assert_eq!(r, Err(ConstraintError::DegenerateEdge));
}

#[test]
fn line_meets_each_kind_of_locus() {
    let line = Line { origin: p(2, 3), direction: v(4, 0) };
    let circle = ConstraintPath::Circle(Circle { origin: p(4, 0), radius: 5 * UNIT });
    assert_eq!(hit_on_line(&line, &circle), Some(p(8, 3)));
    let upright = ConstraintPath::Line(Line { origin: p(7, 0), direction: v(0, -1) });
    assert_eq!(hit_on_line(&line, &upright), Some(p(7, 3)));
    let up = ConstraintPath::Ray(Ray { origin: p(7, 0), direction: v(0, -1) });
    assert_eq!(hit_on_line(&line, &up), None);
    let down = ConstraintPath::Ray(Ray { origin: p(7, 0), direction: v(0, 1) });
    assert_eq!(hit_on_line(&line, &down), Some(p(7, 3)));
    let point = ConstraintPath::Point(constraint_sketch::Point { origin: p(2, 3) });
    assert_eq!(hit_on_line(&line, &point), None);
}
