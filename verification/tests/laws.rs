use constraint_sketch::arith::{TOLERANCE, UNIT};
use constraint_sketch::intersection::{line_circle_intersection, line_line_intersection, paths_overlap};
use constraint_sketch::locus::is_near_line;
use constraint_sketch::{
    Circle, ConstraintError, ConstraintManager, ConstraintPath, DrawingManager,
    DrawingManagerError, Line, Pos2, Ray, SolverState, Vec2,
};

fn p(x: i64, y: i64) -> Pos2 {
    Pos2::new(x * UNIT, y * UNIT)
}

/// Four vertices on a square, joined by three edges: 0 to 1, 1 to 2, 2 to 3.
fn open_square() -> DrawingManager {
    let mut dm = DrawingManager::new();
    dm.add_vertex(p(0, 0));
    dm.add_vertex(p(0, 4));
    dm.add_vertex(p(4, 4));
    dm.add_vertex(p(4, 0));
    dm.add_edge(0, 1).unwrap();
    dm.add_edge(1, 2).unwrap();
    dm.add_edge(2, 3).unwrap();
    dm
}

/// Places to drag to, on and off the grid of whole units.
fn places() -> Vec<Pos2> {
    let mut out = Vec::new();
    for x in -6..7 {
        for y in -6..7 {
            out.push(Pos2::new(x * 12_345 + 7, y * 9_871 - 3));
            out.push(p(x, y));
        }
    }
    out
}

#[test]
fn dragged_end_keeps_the_length_of_its_edge() {
    let dm = open_square();
    let mut cm = ConstraintManager::new();
    cm.add_length_constraint(&dm, 2).unwrap();
    for fixed in [p(4, 0), Pos2::new(51_234, -7_777), p(4, 4)] {
        let kept = fixed.distance(&p(4, 4));
        for try_pos in places() {
            let r = cm.solve_for_vertex(&dm, 3, &fixed, &try_pos, vec![]).unwrap();
            assert_eq!(r.state, SolverState::Partial);
            let got = r.new_pos.unwrap().distance(&p(4, 4));
            assert!((got - kept).abs() <= TOLERANCE);
        }
    }
}

#[test]
fn bent_pivot_stays_locked_wherever_it_is_dragged() {
    let dm = open_square();
    let mut cm = ConstraintManager::new();
    cm.add_angle_constraint(&dm, 0, 1).unwrap();
    for try_pos in places() {
        let r = cm.solve_for_vertex(&dm, 1, &p(0, 4), &try_pos, vec![]).unwrap();
        assert_eq!(r.state, SolverState::Locked);
        assert_eq!(r.new_pos, None);
        assert_eq!(r.valid_path, None);
    }
}

#[test]
fn dragged_end_keeps_its_edge_parallel_to_the_partner() {
    let mut dm = open_square();
    let mut cm = ConstraintManager::new();
    cm.add_parallel_constraint(&mut dm, 0, 2).unwrap();
    let partner = dm.direction_between(0, 1).unwrap();
    for try_pos in places() {
        let r = cm.solve_for_vertex(&dm, 3, &p(4, 0), &try_pos, vec![]).unwrap();
        assert_eq!(r.state, SolverState::Partial);
        let new_pos = r.new_pos.unwrap();
        assert!(is_near_line(&p(4, 4), &partner, &new_pos));
        assert_eq!(new_pos.x, 4 * UNIT);
    }
}

#[test]
fn dragged_end_stays_on_a_slanted_line() {
    let mut dm = DrawingManager::new();
    dm.add_vertex(p(0, 0));
    dm.add_vertex(Pos2::new(30_000, 10_001));
    dm.add_vertex(p(5, 5));
    dm.add_vertex(Pos2::new(110_000, 70_002));
    dm.add_edge(0, 1).unwrap();
    dm.add_edge(2, 3).unwrap();
    let mut cm = ConstraintManager::new();
    cm.add_parallel_constraint(&mut dm, 0, 1).unwrap();
    let own = dm.direction_between(0, 1).unwrap();
    let partner = dm.direction_between(2, 3).unwrap();
    assert_eq!(own.cross_product(&partner), 0);
    for try_pos in places() {
        let r = cm.solve_for_vertex(&dm, 1, &p(3, 1), &try_pos, vec![]).unwrap();
        assert_eq!(r.state, SolverState::Partial);
        assert!(is_near_line(&p(0, 0), &partner, &r.new_pos.unwrap()));
    }
}

#[test]
fn untouched_vertex_goes_where_it_is_asked() {
    let mut dm = open_square();
    dm.add_vertex(p(9, 9));
    let mut cm = ConstraintManager::new();
    cm.add_length_constraint(&dm, 0).unwrap();
    cm.add_angle_constraint(&dm, 0, 1).unwrap();
    cm.add_parallel_constraint(&mut dm, 0, 2).unwrap();
    for try_pos in places() {
        let r = cm.solve_for_vertex(&dm, 4, &p(9, 9), &try_pos, vec![]).unwrap();
        assert_eq!(r.state, SolverState::Free);
        assert_eq!(r.new_pos, Some(try_pos));
        assert_eq!(r.valid_path, None);
    }
}

#[test]
fn untouched_edge_goes_where_it_is_asked() {
    let mut dm = open_square();
    dm.add_vertex(p(9, 9));
    dm.add_vertex(p(9, 5));
    let eh = dm.add_edge(4, 5).unwrap();
    let mut cm = ConstraintManager::new();
    cm.add_length_constraint(&dm, 0).unwrap();
    cm.add_angle_constraint(&dm, 0, 1).unwrap();
    for try_pos in places() {
        let r = cm
            .solve_for_edge(&dm, eh, &p(9, 7), &try_pos, &p(9, 9), &try_pos, &p(9, 5), &p(1, 1))
            .unwrap();
        assert_eq!(r.state, SolverState::Free);
        assert_eq!(r.new_pos, Some([try_pos, p(1, 1)]));
        assert_eq!(r.valid_paths, None);
    }
}

#[test]
fn handles_are_distinct_and_increasing() {
    let mut dm = DrawingManager::new();
    let mut cm = ConstraintManager::new();
    let mut vertices = Vec::new();
    let mut edges = Vec::new();
    let mut constraints = Vec::new();
    for i in 0..20 {
        vertices.push(dm.add_vertex(p(i, i * i)));
        if i > 0 {
            edges.push(dm.add_edge(i as i32 - 1, i as i32).unwrap());
        }
        if i > 1 {
            let last = *edges.last().unwrap();
            constraints.push(cm.add_angle_constraint(&dm, last - 1, last).unwrap());
            constraints.push(cm.add_length_constraint(&dm, last).unwrap());
            constraints.push(cm.add_parallel_constraint(&mut dm, 0, last).unwrap());
        }
        // a refused request takes no handle
        assert!(dm.add_edge(i as i32, 99).is_err());
        assert!(cm.add_length_constraint(&dm, 99).is_err());
        assert!(cm.add_angle_constraint(&dm, 0, 0).is_err());
    }
    assert_eq!(vertices, (0..20).collect::<Vec<i32>>());
    assert_eq!(edges, (0..19).collect::<Vec<i32>>());
    assert_eq!(constraints, (0..54).collect::<Vec<i32>>());
    assert_eq!(dm.vertex_count(), 20);
    assert_eq!(dm.edge_count(), 19);
    assert_eq!(cm.constraints().len(), 54);
}

#[test]
fn closest_points_lie_on_their_loci() {
    let circle = Circle { origin: Pos2::new(12_345, -6_789), radius: 33_333 };
    let line = Line { origin: Pos2::new(-5_000, 2_500), direction: Vec2::new(30_001, -9_999) };
    let ray = Ray { origin: line.origin, direction: line.direction };
    for place in places() {
        let on_circle = circle.closest_point(&place);
        assert!((on_circle.distance(&circle.origin) - circle.radius).abs() <= 4);
        let on_line = line.closest_point(&place);
        assert!(is_near_line(&line.origin, &line.direction, &on_line));
        let on_ray = ray.closest_point(&place);
        assert!(is_near_line(&ray.origin, &ray.direction, &on_ray));
        let along = ray.origin.vector_to(&on_ray).dot_product(&ray.direction);
        assert!(along >= 0);
        // no point of the line is nearer by more than two steps
        let best = place.distance(&on_line);
        for k in -3..4 {
            let other = Pos2::new(
                line.origin.x + k * line.direction.x,
                line.origin.y + k * line.direction.y,
            );
            assert!(best <= place.distance(&other) + 2);
        }
    }
}

#[test]
fn meeting_points_lie_on_both_loci() {
    let a = Line { origin: Pos2::new(-5_000, 2_500), direction: Vec2::new(30_001, -9_999) };
    let b = Line { origin: Pos2::new(7_000, 7_000), direction: Vec2::new(-1_234, 20_000) };
    let met = line_line_intersection(&a, &b).unwrap().origin;
    assert!(is_near_line(&a.origin, &a.direction, &met));
    assert!(is_near_line(&b.origin, &b.direction, &met));
    let circle = Circle { origin: Pos2::new(12_345, -6_789), radius: 33_333 };
    let hits = line_circle_intersection(&a, &circle);
    assert_eq!(hits.len(), 2);
    for hit in hits {
        assert!(is_near_line(&a.origin, &a.direction, &hit.origin));
        assert!((hit.origin.distance(&circle.origin) - circle.radius).abs() <= 6);
    }
}

#[test]
fn overlap_is_tested_at_the_first_origin() {
    let o = p(0, 0);
    let east = Vec2::new(UNIT, 0);
    let on = Pos2::new(70_000, 9);
    let off = Pos2::new(70_000, 10);
    assert!(paths_overlap(&on, &east, true, &o, &east, false));
    assert!(!paths_overlap(&off, &east, true, &o, &east, false));
    // paths that meet in a point do not overlap
    let north = Vec2::new(0, -UNIT);
    assert!(!paths_overlap(&on, &north, false, &o, &east, false));
    assert!(!paths_overlap(&on, &north, true, &o, &east, true));
    // a ray that turns away from the line it starts on does
    let south = Vec2::new(0, UNIT);
    assert!(paths_overlap(&on, &south, true, &o, &east, true));
    assert!(!paths_overlap(&on, &south, false, &o, &east, true));
}

#[test]
fn store_errors_keep_their_meaning_in_the_catalogue() {
    let pairs = [
        (DrawingManagerError::EdgeNotAdded, ConstraintError::ConstraintNotAdded),
        (DrawingManagerError::VertexNotAdded, ConstraintError::ConstraintNotAdded),
        (DrawingManagerError::ConstraintNotAdded, ConstraintError::ConstraintNotAdded),
        (DrawingManagerError::EdgeNotFound(3), ConstraintError::EdgeNotFound(3)),
        (DrawingManagerError::VertexNotFound(4), ConstraintError::VertexNotFound(4)),
        (DrawingManagerError::ConstraintNotFound(5), ConstraintError::ConstraintNotFound(5)),
        (DrawingManagerError::NoSharedVertex, ConstraintError::NoSharedVertex),
        (DrawingManagerError::DegenerateEdge, ConstraintError::DegenerateEdge),
        (DrawingManagerError::FullOverlap, ConstraintError::FullOverlap),
        (DrawingManagerError::PositionOutOfRange, ConstraintError::PositionOutOfRange),
    ];
    for (from, to) in pairs {
        assert_eq!(ConstraintError::from_drawing(from), to);
    }
}

#[test]
fn partial_response_names_a_locus_and_a_position_on_it() {
    let mut dm = open_square();
    let mut cm = ConstraintManager::new();
    cm.add_angle_constraint(&dm, 1, 2).unwrap();
    cm.add_parallel_constraint(&mut dm, 0, 2).unwrap();
    for vh in 0..4 {
        let fixed = dm.get_vertex(vh).unwrap().position;
        for try_pos in places() {
            let r = cm.solve_for_vertex(&dm, vh, &fixed, &try_pos, vec![]).unwrap();
            match r.state {
                SolverState::Free => assert_eq!((r.valid_path, r.new_pos), (None, Some(try_pos))),
                SolverState::Locked => assert_eq!((r.valid_path, r.new_pos), (None, None)),
                SolverState::Partial => match r.valid_path.unwrap() {
                    ConstraintPath::Line(l) => {
                        assert!(is_near_line(&l.origin, &l.direction, &r.new_pos.unwrap()))
                    }
                    ConstraintPath::Ray(l) => {
                        assert!(is_near_line(&l.origin, &l.direction, &r.new_pos.unwrap()))
                    }
                    ConstraintPath::Circle(c) => {
                        let d = r.new_pos.unwrap().distance(&c.origin);
                        assert!((d - c.radius).abs() <= TOLERANCE)
                    }
                    ConstraintPath::Point(q) => assert_eq!(r.new_pos, Some(q.origin)),
                },
            }
        }
    }
}
