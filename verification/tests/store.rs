use constraint_sketch::arith::UNIT;
use constraint_sketch::{
    get_next_id, DrawingManager, DrawingManagerError, Edge, Pos2, Vec2, Vertex,
};

fn p(x: i64, y: i64) -> Pos2 {
    Pos2::new(x * UNIT, y * UNIT)
}

fn square() -> DrawingManager {
    let mut dm = DrawingManager::new();
    dm.add_vertex(p(0, 0));
    dm.add_vertex(p(0, 4));
    dm.add_vertex(p(4, 4));
    dm.add_vertex(p(4, 0));
    dm
}

#[test]
fn vertex_handles_count_up_from_zero() {
    let mut dm = DrawingManager::new();
    assert!(!dm.has_vertex(&0));
    assert_eq!(dm.add_vertex(p(0, 0)), 0);
    assert_eq!(dm.add_vertex(p(0, 4)), 1);
    assert_eq!(dm.add_vertex(p(0, 4)), 2);
    assert!(dm.has_vertex(&0));
    assert!(dm.has_vertex(&2));
    assert!(!dm.has_vertex(&3));
    assert!(!dm.has_vertex(&-1));
    assert_eq!(dm.get_vertex(1).unwrap().position, p(0, 4));
    assert!(dm.get_vertex(1).unwrap().edge_handles.is_empty());
}

#[test]
fn edge_handles_count_up_from_zero() {
    let mut dm = square();
    assert!(!dm.has_edge(&0));
    assert_eq!(dm.add_edge(0, 1), Ok(0));
    assert_eq!(dm.add_edge(1, 2), Ok(1));
    assert_eq!(dm.add_edge(2, 3), Ok(2));
    assert_eq!(dm.add_edge(0, 1), Ok(3));
    assert!(dm.has_edge(&3));
    assert!(!dm.has_edge(&4));
    assert!(!dm.has_edge(&-1));
    let edge = dm.get_edge(1).unwrap();
    assert_eq!((edge.start_point_vh, edge.end_point_vh), (1, 2));
    assert!(edge.constraints.is_empty());
}

#[test]
fn add_edge_lists_the_edge_with_both_vertices() {
    let mut dm = square();
    dm.add_edge(0, 1).unwrap();
    dm.add_edge(1, 2).unwrap();
    dm.add_edge(3, 3).unwrap();
    assert_eq!(dm.get_vertex(0).unwrap().edge_handles, vec![0]);
    assert_eq!(dm.get_vertex(1).unwrap().edge_handles, vec![0, 1]);
    assert_eq!(dm.get_vertex(2).unwrap().edge_handles, vec![1]);
    assert_eq!(dm.get_vertex(3).unwrap().edge_handles, vec![2, 2]);
}

#[test]
fn add_edge_with_missing_vertex_fails() {
    let mut dm = square();
    assert_eq!(dm.add_edge(99, 0), Err(DrawingManagerError::VertexNotFound(99)));
    assert_eq!(dm.add_edge(0, 99), Err(DrawingManagerError::VertexNotFound(99)));
    assert_eq!(dm.add_edge(98, 99), Err(DrawingManagerError::VertexNotFound(98)));
    assert_eq!(dm.add_edge(-1, 0), Err(DrawingManagerError::VertexNotFound(-1)));
    assert!(!dm.has_edge(&0));
    assert!(dm.get_vertex(0).unwrap().edge_handles.is_empty());
    assert_eq!(dm.add_edge(0, 1), Ok(0));
}

#[test]
fn missing_items_are_reported_by_handle() {
    let mut dm = square();
    assert_eq!(dm.get_vertex(4).err(), Some(DrawingManagerError::VertexNotFound(4)));
    assert_eq!(dm.get_edge(0).err(), Some(DrawingManagerError::EdgeNotFound(0)));
    assert_eq!(dm.get_vertex_mut(-3).err(), Some(DrawingManagerError::VertexNotFound(-3)));
    assert_eq!(dm.get_edge_mut(7).err(), Some(DrawingManagerError::EdgeNotFound(7)));
}

#[test]
fn vertex_can_be_moved_in_place() {
    let mut dm = square();
    dm.add_edge(0, 1).unwrap();
    dm.get_vertex_mut(1).unwrap().position = p(1, 5);
    assert_eq!(dm.get_vertex(1).unwrap().position, p(1, 5));
    assert_eq!(dm.get_vertex(0).unwrap().position, p(0, 0));
    assert_eq!(dm.get_vertex(1).unwrap().edge_handles, vec![0]);
    dm.get_edge_mut(0).unwrap().constraints.push(5);
    assert_eq!(dm.get_edge(0).unwrap().constraints, vec![5]);
}

#[test]
fn all_edges_come_in_order_of_handle() {
    let mut dm = square();
    assert!(dm.get_all_edges().is_empty());
    dm.add_edge(0, 1).unwrap();
    dm.add_edge(2, 3).unwrap();
    let edges = dm.get_all_edges();
    assert_eq!(edges.len(), 2);
    assert_eq!((edges[0].start_point_vh, edges[0].end_point_vh), (0, 1));
    assert_eq!((edges[1].start_point_vh, edges[1].end_point_vh), (2, 3));
}

#[test]
fn new_edge_and_vertex_are_bare() {
    let edge = Edge::new(3, 5);
    assert_eq!((edge.start_point_vh, edge.end_point_vh), (3, 5));
    assert!(edge.constraints.is_empty());
    let vertex = Vertex::new(p(1, 2));
    assert_eq!(vertex.position, p(1, 2));
    assert!(vertex.edge_handles.is_empty());
}

#[test]
fn next_id_is_the_number_of_items() {
    let mut items: Vec<u8> = Vec::new();
    assert_eq!(get_next_id(&items), 0);
    items.push(9);
    items.push(9);
    assert_eq!(get_next_id(&items), 2);
}

#[test]
fn edge_direction_runs_from_start_to_end() {
    let mut dm = square();
    dm.add_edge(1, 2).unwrap();
    dm.add_edge(2, 0).unwrap();
    assert_eq!(Edge::direction_from_handle(&dm, 0), Ok(Vec2::new(4 * UNIT, 0)));
    assert_eq!(Edge::direction_from_handle(&dm, 1), Ok(Vec2::new(-4 * UNIT, -4 * UNIT)));
    let edge = Edge::new(3, 1);
    assert_eq!(Edge::direction_from_edge(&dm, &edge), Ok(Vec2::new(-4 * UNIT, 4 * UNIT)));
    assert_eq!(dm.direction_between(0, 3), Ok(Vec2::new(4 * UNIT, 0)));
}

#[test]
fn edge_direction_fails_explicitly() {
    let mut dm = square();
    dm.add_edge(0, 1).unwrap();
    assert_eq!(Edge::direction_from_handle(&dm, 5), Err(DrawingManagerError::EdgeNotFound(5)));
    assert_eq!(
        Edge::direction_from_edge(&dm, &Edge::new(0, 9)),
        Err(DrawingManagerError::VertexNotFound(9))
    );
    assert_eq!(
        Edge::direction_from_edge(&dm, &Edge::new(8, 9)),
        Err(DrawingManagerError::VertexNotFound(8))
    );
    // shorter than a hundredth of a unit
    dm.get_vertex_mut(1).unwrap().position = Pos2::new(99, 0);
    assert_eq!(Edge::direction_from_handle(&dm, 0), Err(DrawingManagerError::DegenerateEdge));
    dm.get_vertex_mut(1).unwrap().position = Pos2::new(100, 0);
    assert_eq!(Edge::direction_from_handle(&dm, 0), Ok(Vec2::new(100, 0)));
    assert_eq!(
        Edge::direction_from_edge(&dm, &Edge::new(2, 2)),
        Err(DrawingManagerError::DegenerateEdge)
    );
    dm.get_vertex_mut(1).unwrap().position = Pos2::new(500_000_001, 0);
    assert_eq!(Edge::direction_from_handle(&dm, 0), Err(DrawingManagerError::PositionOutOfRange));
}
