use constraint_sketch::arith::UNIT;
use constraint_sketch::{
    find_shared_and_unmatched_vertices, AngleConstraint, Constraint, ConstraintError,
    ConstraintManager, DrawingManager, LengthConstraint, ParallelConstraint, Pos2,
};

fn p(x: i64, y: i64) -> Pos2 {
    Pos2::new(x * UNIT, y * UNIT)
}

/// Four vertices on a square, joined by three edges: 0 to 1, 1 to 2, 2 to 3.
fn open_square() -> DrawingManager {
    let mut dm = DrawingManager::new();
    dm.add_vertex(p(0, 0));
    dm.add_vertex(p(0, 4));
    dm.add_vertex(p(4, 4));
    dm.add_vertex(p(4, 0));
    dm.add_edge(0, 1).unwrap();
    dm.add_edge(1, 2).unwrap();
    dm.add_edge(2, 3).unwrap();
    dm
}

#[test]
fn shared_vertex_is_found_in_each_position() {
    assert_eq!(find_shared_and_unmatched_vertices(1, 2, 1, 3), Ok((1, (2, 3))));
    assert_eq!(find_shared_and_unmatched_vertices(1, 2, 3, 1), Ok((1, (2, 3))));
    assert_eq!(find_shared_and_unmatched_vertices(2, 1, 1, 3), Ok((1, (2, 3))));
    assert_eq!(find_shared_and_unmatched_vertices(2, 1, 3, 1), Ok((1, (2, 3))));
}

#[test]
fn edges_without_shared_vertex() {
    assert_eq!(
        find_shared_and_unmatched_vertices(0, 1, 2, 3),
        Err(ConstraintError::NoSharedVertex)
    );
}

#[test]
fn edges_that_overlap_in_full() {
    assert_eq!(find_shared_and_unmatched_vertices(0, 1, 0, 1), Err(ConstraintError::FullOverlap));
    assert_eq!(find_shared_and_unmatched_vertices(0, 1, 1, 0), Err(ConstraintError::FullOverlap));
}

#[test]
fn degenerate_edges() {
    assert_eq!(
        find_shared_and_unmatched_vertices(1, 1, 1, 2),
        Err(ConstraintError::DegenerateEdge)
    );
    assert_eq!(
        find_shared_and_unmatched_vertices(0, 1, 2, 2),
        Err(ConstraintError::DegenerateEdge)
    );
    assert_eq!(
        find_shared_and_unmatched_vertices(3, 3, 3, 3),
        Err(ConstraintError::DegenerateEdge)
    );
}

#[test]
fn constraint_handles_count_up_from_zero() {
    let mut dm = open_square();
    let mut cm = ConstraintManager::new();
    assert_eq!(cm.add_length_constraint(&dm, 2), Ok(0));
    assert_eq!(cm.add_angle_constraint(&dm, 1, 2), Ok(1));
    assert_eq!(cm.add_parallel_constraint(&mut dm, 0, 2), Ok(2));
    assert_eq!(cm.add_length_constraint(&dm, 2), Ok(3));
    assert_eq!(cm.constraints().len(), 4);
    assert_eq!(
        cm.get_constraint(0),
        Ok(&Constraint::LENGTH(LengthConstraint { edge_handle: 2 }))
    );
    assert_eq!(
        cm.get_constraint(2),
        Ok(&Constraint::PARALLEL(ParallelConstraint { edge_1_handle: 0, edge_2_handle: 2 }))
    );
}

#[test]
fn get_constraint_reports_missing_handle() {
    let dm = open_square();
    let mut cm = ConstraintManager::new();
    assert_eq!(cm.get_constraint(0), Err(ConstraintError::ConstraintNotFound(0)));
    cm.add_length_constraint(&dm, 0).unwrap();
    assert_eq!(cm.get_constraint(1), Err(ConstraintError::ConstraintNotFound(1)));
    assert_eq!(cm.get_constraint(-1), Err(ConstraintError::ConstraintNotFound(-1)));
}

#[test]
fn length_constraint_needs_its_edge() {
    let dm = open_square();
    let mut cm = ConstraintManager::new();
    assert_eq!(cm.add_length_constraint(&dm, 3), Err(ConstraintError::EdgeNotFound(3)));
    assert_eq!(cm.add_length_constraint(&dm, -1), Err(ConstraintError::EdgeNotFound(-1)));
    assert!(cm.constraints().is_empty());
}

#[test]
fn angle_constraint_names_pivot_and_outer_vertices() {
    let dm = open_square();
    let mut cm = ConstraintManager::new();
    assert_eq!(cm.add_angle_constraint(&dm, 1, 2), Ok(0));
    assert_eq!(
        cm.get_constraint(0),
        Ok(&Constraint::ANGLE(AngleConstraint {
            pivot_vert_handle: 2,
            edge_1_handle: 1,
            edge_1_outer_vert_handle: 1,
            edge_2_handle: 2,
            edge_2_outer_vert_handle: 3,
        }))
    );
    assert_eq!(cm.add_angle_constraint(&dm, 1, 0), Ok(1));
    assert_eq!(
        cm.get_constraint(1),
        Ok(&Constraint::ANGLE(AngleConstraint {
            pivot_vert_handle: 1,
            edge_1_handle: 1,
            edge_1_outer_vert_handle: 2,
            edge_2_handle: 0,
            edge_2_outer_vert_handle: 0,
        }))
    );
}

#[test]
fn angle_constraint_without_shared_vertex_fails() {
    let dm = open_square();
    let mut cm = ConstraintManager::new();
    assert_eq!(cm.add_angle_constraint(&dm, 0, 2), Err(ConstraintError::NoSharedVertex));
    assert!(cm.constraints().is_empty());
}

#[test]
fn angle_constraint_on_overlapping_or_degenerate_edges_fails() {
    let mut dm = open_square();
    let mut cm = ConstraintManager::new();
    assert_eq!(cm.add_angle_constraint(&dm, 1, 1), Err(ConstraintError::FullOverlap));
    let back = dm.add_edge(2, 1).unwrap();
    assert_eq!(cm.add_angle_constraint(&dm, 1, back), Err(ConstraintError::FullOverlap));
    let point = dm.add_edge(3, 3).unwrap();
    assert_eq!(cm.add_angle_constraint(&dm, 2, point), Err(ConstraintError::DegenerateEdge));
    assert_eq!(cm.add_angle_constraint(&dm, point, 2), Err(ConstraintError::DegenerateEdge));
    assert!(cm.constraints().is_empty());
}

#[test]
fn angle_constraint_needs_both_edges() {
    let dm = open_square();
    let mut cm = ConstraintManager::new();
    assert_eq!(cm.add_angle_constraint(&dm, 7, 0), Err(ConstraintError::EdgeNotFound(7)));
    assert_eq!(cm.add_angle_constraint(&dm, 0, 8), Err(ConstraintError::EdgeNotFound(8)));
    assert_eq!(cm.add_angle_constraint(&dm, 7, 8), Err(ConstraintError::EdgeNotFound(7)));
}

#[test]
fn parallel_constraint_is_noted_with_both_edges() {
    let mut dm = open_square();
    let mut cm = ConstraintManager::new();
    cm.add_length_constraint(&dm, 0).unwrap();
    assert_eq!(cm.add_parallel_constraint(&mut dm, 0, 2), Ok(1));
    assert_eq!(dm.get_edge(0).unwrap().constraints, vec![1]);
    assert!(dm.get_edge(1).unwrap().constraints.is_empty());
    assert_eq!(dm.get_edge(2).unwrap().constraints, vec![1]);
    assert_eq!(cm.add_parallel_constraint(&mut dm, 2, 2), Ok(2));
    assert_eq!(dm.get_edge(2).unwrap().constraints, vec![1, 2, 2]);
}

#[test]
fn parallel_constraint_needs_both_edges() {
    let mut dm = open_square();
    let mut cm = ConstraintManager::new();
    assert_eq!(cm.add_parallel_constraint(&mut dm, 5, 0), Err(ConstraintError::EdgeNotFound(5)));
    assert_eq!(cm.add_parallel_constraint(&mut dm, 0, 6), Err(ConstraintError::EdgeNotFound(6)));
    assert!(cm.constraints().is_empty());
    assert!(dm.get_edge(0).unwrap().constraints.is_empty());
}
