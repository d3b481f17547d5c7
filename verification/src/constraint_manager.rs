//! The constraint catalogue: the length, angle and parallel constraints of a
//! sketch, each checked against the entity store when it is added.

use vstd::prelude::*;
use crate::drawing_manager::{
    get_next_id, ConstraintHandle, Drawing, DrawingManager, DrawingManagerError, EdgeHandle,
    VertexHandle,
};

verus! {

/// Why the catalogue or the solver refused a request.
#[derive(Clone, Copy, Debug, PartialEq, Eq, Structural)]
pub enum ConstraintError {
    /// No constraint handle is left to give out.
    ConstraintNotAdded,
    /// The catalogue holds no constraint of this handle.
    ConstraintNotFound(ConstraintHandle),
    /// The two edges of an angle constraint share no vertex.
    NoSharedVertex,
    /// An edge is too short to have a direction, or starts where it ends.
    DegenerateEdge,
    /// The two edges of an angle constraint share both end points.
    FullOverlap,
    /// The store holds no edge of this handle.
    EdgeNotFound(EdgeHandle),
    /// The store holds no vertex of this handle.
    VertexNotFound(VertexHandle),
    /// A position lies outside the coordinate range.
    PositionOutOfRange,
}

impl ConstraintError {
    /// The catalogue's word for a refusal of the entity store.
    pub open spec fn of_drawing(e: DrawingManagerError) -> ConstraintError {
        match e {
            DrawingManagerError::EdgeNotAdded => ConstraintError::ConstraintNotAdded,
            DrawingManagerError::VertexNotAdded => ConstraintError::ConstraintNotAdded,
            DrawingManagerError::ConstraintNotAdded => ConstraintError::ConstraintNotAdded,
            DrawingManagerError::EdgeNotFound(eh) => ConstraintError::EdgeNotFound(eh),
            DrawingManagerError::VertexNotFound(vh) => ConstraintError::VertexNotFound(vh),
            DrawingManagerError::ConstraintNotFound(ch) => ConstraintError::ConstraintNotFound(ch),
            DrawingManagerError::NoSharedVertex => ConstraintError::NoSharedVertex,
            DrawingManagerError::DegenerateEdge => ConstraintError::DegenerateEdge,
            DrawingManagerError::FullOverlap => ConstraintError::FullOverlap,
            DrawingManagerError::PositionOutOfRange => ConstraintError::PositionOutOfRange,
        }
    }

    /// The catalogue's word for a refusal of the entity store.
    pub fn from_drawing(e: DrawingManagerError) -> (r: ConstraintError)
        ensures
            r == ConstraintError::of_drawing(e),
    {
        match e {
            DrawingManagerError::EdgeNotAdded => ConstraintError::ConstraintNotAdded,
            DrawingManagerError::VertexNotAdded => ConstraintError::ConstraintNotAdded,
            DrawingManagerError::ConstraintNotAdded => ConstraintError::ConstraintNotAdded,
            DrawingManagerError::EdgeNotFound(eh) => ConstraintError::EdgeNotFound(eh),
            DrawingManagerError::VertexNotFound(vh) => ConstraintError::VertexNotFound(vh),
            DrawingManagerError::ConstraintNotFound(ch) => ConstraintError::ConstraintNotFound(ch),
            DrawingManagerError::NoSharedVertex => ConstraintError::NoSharedVertex,
            DrawingManagerError::DegenerateEdge => ConstraintError::DegenerateEdge,
            DrawingManagerError::FullOverlap => ConstraintError::FullOverlap,
            DrawingManagerError::PositionOutOfRange => ConstraintError::PositionOutOfRange,
        }
    }
}

/// The two end points of an edge keep their distance.
#[derive(Clone, Copy, Debug, PartialEq, Eq, Structural)]
pub struct LengthConstraint {
    pub edge_handle: EdgeHandle,
}

/// Two edges that share the vertex `pivot_vert_handle` keep the angle between
/// them. The outer vertices are the end points that the edges do not share.
#[derive(Clone, Copy, Debug, PartialEq, Eq, Structural)]
pub struct AngleConstraint {
    pub pivot_vert_handle: VertexHandle,
    pub edge_1_handle: EdgeHandle,
    pub edge_1_outer_vert_handle: VertexHandle,
    pub edge_2_handle: EdgeHandle,
    pub edge_2_outer_vert_handle: VertexHandle,
}

/// Two edges stay parallel; which of them comes first does not matter.
#[derive(Clone, Copy, Debug, PartialEq, Eq, Structural)]
pub struct ParallelConstraint {
    pub edge_1_handle: EdgeHandle,
    pub edge_2_handle: EdgeHandle,
}

/// A constraint of the catalogue.
#[derive(Clone, Copy, Debug, PartialEq, Eq, Structural)]
pub enum Constraint {
    LENGTH(LengthConstraint),
    ANGLE(AngleConstraint),
    PARALLEL(ParallelConstraint),
}

/// The vertex that two edges share and the end point that each has for
/// itself, for the edges from `e_1_vh_1` to `e_1_vh_2` and from `e_2_vh_1` to
/// `e_2_vh_2`: the pivot first, then the outer vertex of the first edge and
/// that of the second.
///
/// An edge that starts where it ends is degenerate. Two proper edges with the
/// same two end points overlap in full. Otherwise the edges share one vertex
/// or none.
pub open spec fn shared_and_unmatched(
    e_1_vh_1: VertexHandle,
    e_1_vh_2: VertexHandle,
    e_2_vh_1: VertexHandle,
    e_2_vh_2: VertexHandle,
) -> Result<(VertexHandle, (VertexHandle, VertexHandle)), ConstraintError> {
    if e_1_vh_1 == e_1_vh_2 || e_2_vh_1 == e_2_vh_2 {
        Err(ConstraintError::DegenerateEdge)
    } else if (e_1_vh_1 == e_2_vh_1 && e_1_vh_2 == e_2_vh_2) || (e_1_vh_1 == e_2_vh_2 && e_1_vh_2
        == e_2_vh_1) {
        Err(ConstraintError::FullOverlap)
    } else if e_1_vh_1 == e_2_vh_1 {
        Ok((e_1_vh_1, (e_1_vh_2, e_2_vh_2)))
    } else if e_1_vh_1 == e_2_vh_2 {
        Ok((e_1_vh_1, (e_1_vh_2, e_2_vh_1)))
    } else if e_1_vh_2 == e_2_vh_1 {
        Ok((e_1_vh_2, (e_1_vh_1, e_2_vh_2)))
    } else if e_1_vh_2 == e_2_vh_2 {
        Ok((e_1_vh_2, (e_1_vh_1, e_2_vh_1)))
    } else {
        Err(ConstraintError::NoSharedVertex)
    }
}

/// Finds the vertex that two edges share and the end point that each has
/// for itself.
pub fn find_shared_and_unmatched_vertices(
    e_1_vh_1: VertexHandle,
    e_1_vh_2: VertexHandle,
    e_2_vh_1: VertexHandle,
    e_2_vh_2: VertexHandle,
) -> (r: Result<(VertexHandle, (VertexHandle, VertexHandle)), ConstraintError>)
    ensures
        r == shared_and_unmatched(e_1_vh_1, e_1_vh_2, e_2_vh_1, e_2_vh_2),
        r matches Ok((pivot, (outer_1, outer_2))) ==> {
            &&& pivot != outer_1 && pivot != outer_2 && outer_1 != outer_2
            &&& (pivot == e_1_vh_1 && outer_1 == e_1_vh_2) || (pivot == e_1_vh_2 && outer_1
                == e_1_vh_1)
            &&& (pivot == e_2_vh_1 && outer_2 == e_2_vh_2) || (pivot == e_2_vh_2 && outer_2
                == e_2_vh_1)
        },
{
    if e_1_vh_1 == e_1_vh_2 || e_2_vh_1 == e_2_vh_2 {
        return Err(ConstraintError::DegenerateEdge);
    }
    let starts_meet: bool = e_1_vh_1 == e_2_vh_1;
    let start_meets_end: bool = e_1_vh_1 == e_2_vh_2;
    let end_meets_start: bool = e_1_vh_2 == e_2_vh_1;
    let ends_meet: bool = e_1_vh_2 == e_2_vh_2;
    if (starts_meet && ends_meet) || (start_meets_end && end_meets_start) {
        Err(ConstraintError::FullOverlap)
    } else if starts_meet {
        Ok((e_1_vh_1, (e_1_vh_2, e_2_vh_2)))
    } else if start_meets_end {
        Ok((e_1_vh_1, (e_1_vh_2, e_2_vh_1)))
    } else if end_meets_start {
        Ok((e_1_vh_2, (e_1_vh_1, e_2_vh_2)))
    } else if ends_meet {
        Ok((e_1_vh_2, (e_1_vh_1, e_2_vh_1)))
    } else {
        Err(ConstraintError::NoSharedVertex)
    }
}

impl Constraint {
    /// Every edge that the constraint names is an edge of the sketch, and an
    /// angle constraint names the vertex that its edges share there and the
    /// end points that they do not.
    pub open spec fn valid_for(self, dm: Drawing) -> bool {
        match self {
            Constraint::LENGTH(l) => dm.has_edge(l.edge_handle),
            Constraint::ANGLE(a) => {
                &&& dm.has_edge(a.edge_1_handle)
                &&& dm.has_edge(a.edge_2_handle)
                &&& shared_and_unmatched(
                    dm.edges[a.edge_1_handle as int].start_point_vh,
                    dm.edges[a.edge_1_handle as int].end_point_vh,
                    dm.edges[a.edge_2_handle as int].start_point_vh,
                    dm.edges[a.edge_2_handle as int].end_point_vh,
                ) == Ok::<_, ConstraintError>(
                    (
                        a.pivot_vert_handle,
                        (a.edge_1_outer_vert_handle, a.edge_2_outer_vert_handle),
                    ),
                )
            },
            Constraint::PARALLEL(p) => dm.has_edge(p.edge_1_handle) && dm.has_edge(
                p.edge_2_handle,
            ),
        }
    }
}

/// The catalogue. It owns the constraints and gives each a handle; the
/// constraint of handle `h` is the `h`-th that was added.
pub struct ConstraintManager {
    constraint_map: Vec<Constraint>,
}

impl View for ConstraintManager {
    type V = Seq<Constraint>;

    closed spec fn view(&self) -> Seq<Constraint> {
        self.constraint_map@
    }
}

/// Every constraint of the catalogue `cs` is valid for the sketch `dm`.
pub open spec fn catalogue_valid_for(cs: Seq<Constraint>, dm: Drawing) -> bool {
    forall|ch: int| 0 <= ch < cs.len() ==> (#[trigger] cs[ch]).valid_for(dm)
}

/// What an attempt to add a length constraint on the edge `eh` returns.
pub open spec fn add_length_result(cs: Seq<Constraint>, dm: Drawing, eh: EdgeHandle) -> Result<
    ConstraintHandle,
    ConstraintError,
> {
    if !dm.has_edge(eh) {
        Err(ConstraintError::EdgeNotFound(eh))
    } else if cs.len() >= i32::MAX {
        Err(ConstraintError::ConstraintNotAdded)
    } else {
        Ok(cs.len() as ConstraintHandle)
    }
}

/// The angle constraint between the edges `eh_1` and `eh_2` of the sketch,
/// or the reason why there is none: an edge is missing, an edge starts where
/// it ends, or the edges do not share exactly one vertex.
pub open spec fn angle_constraint_for(dm: Drawing, eh_1: EdgeHandle, eh_2: EdgeHandle) -> Result<
    AngleConstraint,
    ConstraintError,
> {
    if !dm.has_edge(eh_1) {
        Err(ConstraintError::EdgeNotFound(eh_1))
    } else if !dm.has_edge(eh_2) {
        Err(ConstraintError::EdgeNotFound(eh_2))
    } else {
        match shared_and_unmatched(
            dm.edges[eh_1 as int].start_point_vh,
            dm.edges[eh_1 as int].end_point_vh,
            dm.edges[eh_2 as int].start_point_vh,
            dm.edges[eh_2 as int].end_point_vh,
        ) {
            Err(e) => Err(e),
            Ok((pivot, (outer_1, outer_2))) => Ok(
                AngleConstraint {
                    pivot_vert_handle: pivot,
                    edge_1_handle: eh_1,
                    edge_1_outer_vert_handle: outer_1,
                    edge_2_handle: eh_2,
                    edge_2_outer_vert_handle: outer_2,
                },
            ),
        }
    }
}

/// What an attempt to add an angle constraint on two edges returns.
pub open spec fn add_angle_result(
    cs: Seq<Constraint>,
    dm: Drawing,
    eh_1: EdgeHandle,
    eh_2: EdgeHandle,
) -> Result<ConstraintHandle, ConstraintError> {
    match angle_constraint_for(dm, eh_1, eh_2) {
        Err(e) => Err(e),
        Ok(_) => if cs.len() >= i32::MAX {
            Err(ConstraintError::ConstraintNotAdded)
        } else {
            Ok(cs.len() as ConstraintHandle)
        },
    }
}

/// What an attempt to add a parallel constraint on two edges returns.
pub open spec fn add_parallel_result(
    cs: Seq<Constraint>,
    dm: Drawing,
    eh_1: EdgeHandle,
    eh_2: EdgeHandle,
) -> Result<ConstraintHandle, ConstraintError> {
    if !dm.has_edge(eh_1) {
        Err(ConstraintError::EdgeNotFound(eh_1))
    } else if !dm.has_edge(eh_2) {
        Err(ConstraintError::EdgeNotFound(eh_2))
    } else if cs.len() >= i32::MAX {
        Err(ConstraintError::ConstraintNotAdded)
    } else {
        Ok(cs.len() as ConstraintHandle)
    }
}

impl ConstraintManager {
    /// A catalogue without any constraint.
    pub fn new() -> (cm: ConstraintManager)
        ensures
            cm@ == Seq::<Constraint>::empty(),
    {
        ConstraintManager { constraint_map: Vec::new() }
    }

    /// The constraint of this handle.
    pub fn get_constraint(&self, ch: ConstraintHandle) -> (r: Result<&Constraint, ConstraintError>)
        ensures
            match r {
                Ok(c) => 0 <= ch < self@.len() && *c == self@[ch as int],
                Err(e) => !(0 <= ch < self@.len()) && e == ConstraintError::ConstraintNotFound(ch),
            },
    {
        if ch >= 0 && (ch as usize) < self.constraint_map.len() {
            Ok(&self.constraint_map[ch as usize])
        } else {
            Err(ConstraintError::ConstraintNotFound(ch))
        }
    }

    /// Every constraint of the catalogue, in order of handle.
    pub fn constraints(&self) -> (cs: &Vec<Constraint>)
        ensures
            cs@ == self@,
    {
        &self.constraint_map
    }

    /// Adds the constraint that the edge `eh` keeps its length, and returns
    /// the handle of the constraint: the least that no constraint has had.
    /// Fails, and leaves the catalogue as it is, where the edge is missing
    /// or no handle is left.
    pub fn add_length_constraint(&mut self, drawing_manager: &DrawingManager, eh: EdgeHandle) -> (r:
        Result<ConstraintHandle, ConstraintError>)
        ensures
            r == add_length_result(old(self)@, drawing_manager@, eh),
            r is Ok ==> final(self)@ == old(self)@.push(
                Constraint::LENGTH(LengthConstraint { edge_handle: eh }),
            ),
            r is Err ==> final(self)@ == old(self)@,
            catalogue_valid_for(old(self)@, drawing_manager@) ==> catalogue_valid_for(
                final(self)@,
                drawing_manager@,
            ),
    {
        if !drawing_manager.has_edge(&eh) {
            return Err(ConstraintError::EdgeNotFound(eh));
        }
        if self.constraint_map.len() >= i32::MAX as usize {
            return Err(ConstraintError::ConstraintNotAdded);
        }
        let length_constraint = LengthConstraint { edge_handle: eh };
        let next_id: i32 = get_next_id(&self.constraint_map);
        self.constraint_map.push(Constraint::LENGTH(length_constraint));
        Ok(next_id)
    }

    /// Adds the constraint that the edges `eh_1` and `eh_2` keep the angle
    /// between them, and returns the handle of the constraint. The edges
    /// must share exactly one vertex, which becomes the pivot. Fails, and
    /// leaves the catalogue as it is, where they do not, where an edge is
    /// missing or no handle is left.
    pub fn add_angle_constraint(
        &mut self,
        drawing_manager: &DrawingManager,
        eh_1: EdgeHandle,
        eh_2: EdgeHandle,
    ) -> (r: Result<ConstraintHandle, ConstraintError>)
        ensures
            r == add_angle_result(old(self)@, drawing_manager@, eh_1, eh_2),
            r is Ok ==> final(self)@ == old(self)@.push(
                Constraint::ANGLE(angle_constraint_for(drawing_manager@, eh_1, eh_2)->Ok_0),
            ),
            r is Err ==> final(self)@ == old(self)@,
            catalogue_valid_for(old(self)@, drawing_manager@) ==> catalogue_valid_for(
                final(self)@,
                drawing_manager@,
            ),
    {
        let edge_1 = match drawing_manager.get_edge(eh_1) {
            Ok(edge) => edge,
            Err(_) => {
                return Err(ConstraintError::EdgeNotFound(eh_1));
            },
        };
        let edge_2 = match drawing_manager.get_edge(eh_2) {
            Ok(edge) => edge,
            Err(_) => {
                return Err(ConstraintError::EdgeNotFound(eh_2));
            },
        };
        let verts = match find_shared_and_unmatched_vertices(
            edge_1.start_point_vh,
            edge_1.end_point_vh,
            edge_2.start_point_vh,
            edge_2.end_point_vh,
        ) {
            Ok(verts) => verts,
            Err(e) => {
                return Err(e);
            },
        };
        if self.constraint_map.len() >= i32::MAX as usize {
            return Err(ConstraintError::ConstraintNotAdded);
        }
        let angle_constraint = AngleConstraint {
            pivot_vert_handle: verts.0,
            edge_1_handle: eh_1,
            edge_1_outer_vert_handle: verts.1.0,
            edge_2_handle: eh_2,
            edge_2_outer_vert_handle: verts.1.1,
        };
        let next_id: i32 = get_next_id(&self.constraint_map);
        self.constraint_map.push(Constraint::ANGLE(angle_constraint));
        Ok(next_id)
    }

    /// Adds the constraint that the edges `edge_1_handle` and `edge_2_handle`
    /// stay parallel, notes its handle with both edges, and returns the
    /// handle. Fails, and leaves catalogue and store as they are, where an
    /// edge is missing or no handle is left.
    pub fn add_parallel_constraint(
        &mut self,
        drawing_manager: &mut DrawingManager,
        edge_1_handle: EdgeHandle,
        edge_2_handle: EdgeHandle,
    ) -> (r: Result<ConstraintHandle, ConstraintError>)
        ensures
            r == add_parallel_result(old(self)@, old(drawing_manager)@, edge_1_handle, edge_2_handle),
            r is Ok ==> final(self)@ == old(self)@.push(
                Constraint::PARALLEL(ParallelConstraint { edge_1_handle, edge_2_handle }),
            ),
            r is Ok ==> final(drawing_manager)@ == old(drawing_manager)@.with_edge_constraint(
                edge_1_handle,
                r->Ok_0,
            ).with_edge_constraint(edge_2_handle, r->Ok_0),
            r is Err ==> final(self)@ == old(self)@ && final(drawing_manager)@ == old(
                drawing_manager,
            )@,
            catalogue_valid_for(old(self)@, old(drawing_manager)@) ==> catalogue_valid_for(
                final(self)@,
                final(drawing_manager)@,
            ),
            old(drawing_manager)@.wf() ==> final(drawing_manager)@.wf(),
    {
        if !drawing_manager.has_edge(&edge_1_handle) {
            return Err(ConstraintError::EdgeNotFound(edge_1_handle));
        }
        if !drawing_manager.has_edge(&edge_2_handle) {
            return Err(ConstraintError::EdgeNotFound(edge_2_handle));
        }
        if self.constraint_map.len() >= i32::MAX as usize {
            return Err(ConstraintError::ConstraintNotAdded);
        }
        let parallel_constraint = ParallelConstraint { edge_1_handle, edge_2_handle };
        let next_id: i32 = get_next_id(&self.constraint_map);
        self.constraint_map.push(Constraint::PARALLEL(parallel_constraint));
        match drawing_manager.get_edge_mut(edge_1_handle) {
            Ok(edge) => {
                edge.constraints.push(next_id);
            },
            Err(_) => {},
        }
        match drawing_manager.get_edge_mut(edge_2_handle) {
            Ok(edge) => {
                edge.constraints.push(next_id);
            },
            Err(_) => {},
        }
        Ok(next_id)
    }
}

} // verus!
