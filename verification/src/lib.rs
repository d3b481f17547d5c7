//! A parametric-sketch constraint engine: vertices joined by edges carry
//! length, angle and parallel constraints, and a drag of a vertex or an edge
//! is resolved to the position that every constraint touching it allows.
//!
//! The [`DrawingManager`] is the entity store. It owns the vertices and the
//! edges and gives each a handle. The [`ConstraintManager`] is the
//! catalogue. It owns the constraints, checks each against the store when it
//! is added, and resolves drags: [`ConstraintManager::solve_for_vertex`] and
//! [`ConstraintManager::solve_for_edge`] read store and catalogue and return
//! where the dragged entity may go. The caller writes the answer back into
//! the store.
//!
//! # Coordinates
//!
//! All arithmetic is exact. A coordinate is a whole number of steps, and
//! [`arith::UNIT`] steps make one length unit; positions lie within
//! [`arith::COORD_LIMIT`] steps of the origin. The tolerances of the engine
//! are whole numbers of steps as well: two bearings count as parallel where
//! the sine of the angle between them is at most a thousandth, a point
//! counts as on a line where it is less than [`arith::TOLERANCE`] steps from
//! it, and an edge shorter than [`arith::MIN_EDGE_LENGTH`] steps has no
//! direction. A computed position is rounded to whole steps; the module
//! [`accuracy`] proves how little that moves it.
//!
//! # Failures
//!
//! A drag never panics. It fails with a [`ConstraintError`] where a handle
//! names nothing, where an edge that should give a bearing is too short, and
//! where a position that enters the arithmetic lies outside the coordinate
//! range.

pub mod arith;
pub mod geometry;
pub mod locus;
pub mod intersection;
pub mod drawing_manager;
pub mod constraint_manager;
pub mod solver;
pub mod accuracy;
pub mod laws;
pub mod history;

pub use constraint_manager::{
    find_shared_and_unmatched_vertices, AngleConstraint, Constraint, ConstraintError,
    ConstraintManager, LengthConstraint, ParallelConstraint,
};
pub use drawing_manager::{
    get_next_id, ConstraintHandle, DrawingManager, DrawingManagerError, Edge, EdgeHandle, Vertex,
    VertexHandle,
};
pub use geometry::{Pos2, Vec2};
pub use intersection::{intersect_paths, ray_circle_intersection, ray_ray_intersection};
pub use locus::{Circle, ConstraintPath, Line, Point, Ray};
pub use solver::{EdgeSolverResponse, SolverResponse, SolverState};
