//! The entity store: vertices and the edges that join them, each known by a
//! handle that is handed out once and never again.

use vstd::prelude::*;
use crate::geometry::{Pos2, Vec2};

verus! {

/// Names an edge of the store. Handles count up from 0 in order of creation.
pub type EdgeHandle = i32;

/// Names a vertex of the store. Handles count up from 0 in order of creation.
pub type VertexHandle = i32;

/// Names a constraint of the catalogue. Handles count up from 0 in order of
/// creation.
pub type ConstraintHandle = i32;

/// Why the store refused a request.
#[derive(Clone, Copy, Debug, PartialEq, Eq, Structural)]
pub enum DrawingManagerError {
    /// No edge handle is left to give out.
    EdgeNotAdded,
    /// No vertex handle is left to give out.
    VertexNotAdded,
    /// No constraint handle is left to give out.
    ConstraintNotAdded,
    /// The store holds no edge of this handle.
    EdgeNotFound(EdgeHandle),
    /// The store holds no vertex of this handle.
    VertexNotFound(VertexHandle),
    /// The catalogue holds no constraint of this handle.
    ConstraintNotFound(ConstraintHandle),
    /// Two edges that should share a vertex share none.
    NoSharedVertex,
    /// An edge is too short to have a direction.
    DegenerateEdge,
    /// Two edges that should share one vertex share both.
    FullOverlap,
    /// A position lies outside the coordinate range.
    PositionOutOfRange,
}

/// A line segment between two vertices.
pub struct Edge {
    pub start_point_vh: VertexHandle,
    pub end_point_vh: VertexHandle,
    /// The constraints anchored on this edge. A drag of the whole edge leaves
    /// them out when it resolves the end points.
    pub constraints: Vec<ConstraintHandle>,
}

/// A point of the sketch.
pub struct Vertex {
    pub position: Pos2,
    /// The edges that end in this vertex, in order of creation.
    pub edge_handles: Vec<EdgeHandle>,
}

/// What an edge holds.
#[verifier::ext_equal]
pub struct EdgeView {
    pub start_point_vh: VertexHandle,
    pub end_point_vh: VertexHandle,
    pub constraints: Seq<ConstraintHandle>,
}

/// What a vertex holds.
#[verifier::ext_equal]
pub struct VertexView {
    pub position: Pos2,
    pub edge_handles: Seq<EdgeHandle>,
}

impl View for Edge {
    type V = EdgeView;

    open spec fn view(&self) -> EdgeView {
        EdgeView {
            start_point_vh: self.start_point_vh,
            end_point_vh: self.end_point_vh,
            constraints: self.constraints@,
        }
    }
}

impl View for Vertex {
    type V = VertexView;

    open spec fn view(&self) -> VertexView {
        VertexView { position: self.position, edge_handles: self.edge_handles@ }
    }
}

impl EdgeView {
    /// The vertex `vh` is one of the two end points.
    pub open spec fn touches(self, vh: VertexHandle) -> bool {
        self.start_point_vh == vh || self.end_point_vh == vh
    }

    /// The end point that is not `vh`; the start point where `vh` is none of
    /// the two.
    pub open spec fn other_end(self, vh: VertexHandle) -> VertexHandle {
        if self.start_point_vh == vh {
            self.end_point_vh
        } else {
            self.start_point_vh
        }
    }
}

/// The sketch as a value: the vertex of handle `h` is `vertices[h]`, the edge
/// of handle `h` is `edges[h]`.
#[verifier::ext_equal]
pub struct Drawing {
    pub vertices: Seq<VertexView>,
    pub edges: Seq<EdgeView>,
}

impl Drawing {
    /// The sketch without any vertex or edge.
    pub open spec fn empty() -> Drawing {
        Drawing { vertices: Seq::empty(), edges: Seq::empty() }
    }

    /// The handle names a vertex of the sketch.
    pub open spec fn has_vertex(self, vh: VertexHandle) -> bool {
        0 <= vh < self.vertices.len()
    }

    /// The handle names an edge of the sketch.
    pub open spec fn has_edge(self, eh: EdgeHandle) -> bool {
        0 <= eh < self.edges.len()
    }

    /// The handle that the next new vertex gets.
    pub open spec fn next_vertex_handle(self) -> int {
        self.vertices.len() as int
    }

    /// The handle that the next new edge gets.
    pub open spec fn next_edge_handle(self) -> int {
        self.edges.len() as int
    }

    /// Referential integrity: both end points of every edge are vertices of
    /// the sketch.
    pub open spec fn wf(self) -> bool {
        forall|eh: EdgeHandle|
            self.has_edge(eh) ==> self.has_vertex((#[trigger] self.edges[eh as int]).start_point_vh)
                && self.has_vertex(self.edges[eh as int].end_point_vh)
    }

    /// The sketch with one more vertex at `position`, which no edge ends in.
    pub open spec fn with_vertex(self, position: Pos2) -> Drawing {
        Drawing {
            vertices: self.vertices.push(VertexView { position, edge_handles: Seq::empty() }),
            edges: self.edges,
        }
    }

    /// The sketch in which the vertex `vh` has one more incident edge `eh`.
    pub open spec fn with_incident_edge(self, vh: VertexHandle, eh: EdgeHandle) -> Drawing {
        Drawing {
            vertices: self.vertices.update(
                vh as int,
                VertexView {
                    position: self.vertices[vh as int].position,
                    edge_handles: self.vertices[vh as int].edge_handles.push(eh),
                },
            ),
            edges: self.edges,
        }
    }

    /// The sketch with one more edge from `vh_1` to `vh_2`, which carries no
    /// constraint and is listed last among the incident edges of `vh_1` and
    /// then of `vh_2`.
    pub open spec fn with_edge(self, vh_1: VertexHandle, vh_2: VertexHandle) -> Drawing {
        let eh = self.edges.len() as EdgeHandle;
        Drawing {
            vertices: self.vertices,
            edges: self.edges.push(
                EdgeView { start_point_vh: vh_1, end_point_vh: vh_2, constraints: Seq::empty() },
            ),
        }.with_incident_edge(vh_1, eh).with_incident_edge(vh_2, eh)
    }

    /// What an attempt to add an edge from `vh_1` to `vh_2` returns: the new
    /// handle, or the first end point that is missing, or that no handle is
    /// left.
    pub open spec fn add_edge_result(self, vh_1: VertexHandle, vh_2: VertexHandle) -> Result<
        EdgeHandle,
        DrawingManagerError,
    > {
        if !self.has_vertex(vh_1) {
            Err(DrawingManagerError::VertexNotFound(vh_1))
        } else if !self.has_vertex(vh_2) {
            Err(DrawingManagerError::VertexNotFound(vh_2))
        } else if self.edges.len() >= i32::MAX {
            Err(DrawingManagerError::EdgeNotAdded)
        } else {
            Ok(self.edges.len() as EdgeHandle)
        }
    }

    /// The sketch in which the edge `eh` carries one more constraint `ch`.
    pub open spec fn with_edge_constraint(self, eh: EdgeHandle, ch: ConstraintHandle) -> Drawing {
        Drawing {
            vertices: self.vertices,
            edges: self.edges.update(
                eh as int,
                EdgeView {
                    start_point_vh: self.edges[eh as int].start_point_vh,
                    end_point_vh: self.edges[eh as int].end_point_vh,
                    constraints: self.edges[eh as int].constraints.push(ch),
                },
            ),
        }
    }

    /// The sketch in which the vertex `vh` is `vertex`.
    pub open spec fn with_vertex_at(self, vh: VertexHandle, vertex: VertexView) -> Drawing {
        Drawing { vertices: self.vertices.update(vh as int, vertex), edges: self.edges }
    }

    /// The sketch in which the edge `eh` is `edge`.
    pub open spec fn with_edge_at(self, eh: EdgeHandle, edge: EdgeView) -> Drawing {
        Drawing { vertices: self.vertices, edges: self.edges.update(eh as int, edge) }
    }

    /// The displacement from the start point of the edge `eh` to its end
    /// point, or the reason why the edge has none: the edge or one of its end
    /// points is missing, an end point lies outside the coordinate range, or
    /// the edge is shorter than the least length.
    pub open spec fn edge_direction(self, eh: EdgeHandle) -> Result<Vec2, DrawingManagerError> {
        if !self.has_edge(eh) {
            Err(DrawingManagerError::EdgeNotFound(eh))
        } else {
            self.direction_between(
                self.edges[eh as int].start_point_vh,
                self.edges[eh as int].end_point_vh,
            )
        }
    }

    /// The displacement from the vertex `from` to the vertex `to`, or the
    /// reason why there is none.
    pub open spec fn direction_between(self, from: VertexHandle, to: VertexHandle) -> Result<
        Vec2,
        DrawingManagerError,
    > {
        if !self.has_vertex(from) {
            Err(DrawingManagerError::VertexNotFound(from))
        } else if !self.has_vertex(to) {
            Err(DrawingManagerError::VertexNotFound(to))
        } else if !self.vertices[from as int].position.in_range() {
            Err(DrawingManagerError::PositionOutOfRange)
        } else if !self.vertices[to as int].position.in_range() {
            Err(DrawingManagerError::PositionOutOfRange)
        } else if self.vertices[from as int].position.span_to(
            self.vertices[to as int].position,
        ).is_degenerate() {
            Err(DrawingManagerError::DegenerateEdge)
        } else {
            Ok(self.vertices[from as int].position.span_to(self.vertices[to as int].position))
        }
    }
}

/// The entity store. It owns the vertices and the edges and gives each a
/// handle.
pub struct DrawingManager {
    edge_map: Vec<Edge>,
    vertex_map: Vec<Vertex>,
}

impl View for DrawingManager {
    type V = Drawing;

    closed spec fn view(&self) -> Drawing {
        Drawing {
            vertices: Seq::new(self.vertex_map@.len(), |i: int| self.vertex_map@[i]@),
            edges: Seq::new(self.edge_map@.len(), |i: int| self.edge_map@[i]@),
        }
    }
}

/// The handle that follows the handles of all items of an arena: the number
/// of its items.
pub fn get_next_id<V>(map: &Vec<V>) -> (id: i32)
    requires
        map@.len() < i32::MAX,
    ensures
        id == map@.len(),
{
    map.len() as i32
}

impl Edge {
    /// An edge from `start_point_vh` to `end_point_vh` that carries no
    /// constraint.
    pub fn new(start_point_vh: VertexHandle, end_point_vh: VertexHandle) -> (edge: Edge)
        ensures
            edge@ == (EdgeView { start_point_vh, end_point_vh, constraints: Seq::empty() }),
    {
        Edge { start_point_vh, end_point_vh, constraints: Vec::new() }
    }

    /// The displacement from the start point of `edge` to its end point, as
    /// the vertices stand in the store.
    pub fn direction_from_edge(drawing_manager: &DrawingManager, edge: &Edge) -> (r: Result<
        Vec2,
        DrawingManagerError,
    >)
        ensures
            r == drawing_manager@.direction_between(edge.start_point_vh, edge.end_point_vh),
            r is Ok ==> r->Ok_0.in_range(),
    {
        drawing_manager.direction_between(edge.start_point_vh, edge.end_point_vh)
    }

    /// The displacement from the start point of the edge `edge_handle` to its
    /// end point.
    pub fn direction_from_handle(drawing_manager: &DrawingManager, edge_handle: EdgeHandle) -> (r:
        Result<Vec2, DrawingManagerError>)
        ensures
            r == drawing_manager@.edge_direction(edge_handle),
            r is Ok ==> r->Ok_0.in_range(),
    {
        match drawing_manager.get_edge(edge_handle) {
            Ok(edge) => Edge::direction_from_edge(drawing_manager, edge),
            Err(e) => Err(e),
        }
    }
}

impl Vertex {
    /// A vertex at `position` in which no edge ends.
    pub fn new(position: Pos2) -> (vertex: Vertex)
        ensures
            vertex@ == (VertexView { position, edge_handles: Seq::empty() }),
    {
        Vertex { position, edge_handles: Vec::new() }
    }
}

impl DrawingManager {
    /// A store without any vertex or edge.
    pub fn new() -> (dm: DrawingManager)
        ensures
            dm@ == Drawing::empty(),
    {
        let dm = DrawingManager { edge_map: Vec::new(), vertex_map: Vec::new() };
        proof {
            assert(dm@.vertices =~= Seq::empty());
            assert(dm@.edges =~= Seq::empty());
        }
        dm
    }

    /// The number of vertices, which is the handle that the next one gets.
    pub fn vertex_count(&self) -> (n: usize)
        ensures
            n == self@.vertices.len(),
    {
        self.vertex_map.len()
    }

    /// The number of edges, which is the handle that the next one gets.
    pub fn edge_count(&self) -> (n: usize)
        ensures
            n == self@.edges.len(),
    {
        self.edge_map.len()
    }

    /// Whether the store holds an edge of this handle.
    pub fn has_edge(&self, eh: &EdgeHandle) -> (b: bool)
        ensures
            b == self@.has_edge(*eh),
    {
        *eh >= 0 && (*eh as usize) < self.edge_map.len()
    }

    /// Every edge of the store, in order of handle.
    pub fn get_all_edges(&self) -> (edges: Vec<&Edge>)
        ensures
            edges@.len() == self@.edges.len(),
            forall|i: int| 0 <= i < edges@.len() ==> (#[trigger] edges@[i])@ == self@.edges[i],
    {
        let mut edges: Vec<&Edge> = Vec::new();
        let mut i: usize = 0;
        while i < self.edge_map.len()
            invariant
                i <= self.edge_map@.len(),
                edges@.len() == i,
                forall|j: int| 0 <= j < i ==> *(#[trigger] edges@[j]) == self.edge_map@[j],
            decreases self.edge_map@.len() - i,
        {
            edges.push(&self.edge_map[i]);
            i += 1;
        }
        edges
    }

    /// The edge of this handle.
    pub fn get_edge(&self, eh: EdgeHandle) -> (r: Result<&Edge, DrawingManagerError>)
        ensures
            match r {
                Ok(edge) => self@.has_edge(eh) && edge@ == self@.edges[eh as int],
                Err(e) => !self@.has_edge(eh) && e == DrawingManagerError::EdgeNotFound(eh),
            },
    {
        if self.has_edge(&eh) {
            Ok(&self.edge_map[eh as usize])
        } else {
            Err(DrawingManagerError::EdgeNotFound(eh))
        }
    }

    /// Whether the store holds a vertex of this handle.
    pub fn has_vertex(&self, vh: &VertexHandle) -> (b: bool)
        ensures
            b == self@.has_vertex(*vh),
    {
        *vh >= 0 && (*vh as usize) < self.vertex_map.len()
    }

    /// The vertex of this handle.
    pub fn get_vertex(&self, vh: VertexHandle) -> (r: Result<&Vertex, DrawingManagerError>)
        ensures
            match r {
                Ok(vertex) => self@.has_vertex(vh) && vertex@ == self@.vertices[vh as int],
                Err(e) => !self@.has_vertex(vh) && e == DrawingManagerError::VertexNotFound(vh),
            },
    {
        if self.has_vertex(&vh) {
            Ok(&self.vertex_map[vh as usize])
        } else {
            Err(DrawingManagerError::VertexNotFound(vh))
        }
    }

    /// The displacement from the vertex `from` to the vertex `to`.
    pub fn direction_between(&self, from: VertexHandle, to: VertexHandle) -> (r: Result<
        Vec2,
        DrawingManagerError,
    >)
        ensures
            r == self@.direction_between(from, to),
            r is Ok ==> r->Ok_0.in_range(),
    {
        let start: Pos2 = match self.get_vertex(from) {
            Ok(vertex) => vertex.position,
            Err(e) => {
                return Err(e);
            },
        };
        let end: Pos2 = match self.get_vertex(to) {
            Ok(vertex) => vertex.position,
            Err(e) => {
                return Err(e);
            },
        };
        if !start.is_in_range() {
            return Err(DrawingManagerError::PositionOutOfRange);
        }
        if !end.is_in_range() {
            return Err(DrawingManagerError::PositionOutOfRange);
        }
        let direction: Vec2 = start.vector_to(&end);
        if direction.check_degenerate() {
            return Err(DrawingManagerError::DegenerateEdge);
        }
        Ok(direction)
    }

    /// Adds a vertex at `position` and returns its handle: the least handle
    /// that no vertex has had.
    pub fn add_vertex(&mut self, position: Pos2) -> (vh: VertexHandle)
        requires
            old(self)@.vertices.len() < i32::MAX,
        ensures
            vh == old(self)@.next_vertex_handle(),
            final(self)@ == old(self)@.with_vertex(position),
            !old(self)@.has_vertex(vh),
            final(self)@.has_vertex(vh),
            old(self)@.wf() ==> final(self)@.wf(),
    {
        let next_id: i32 = get_next_id(&self.vertex_map);
        let vert: Vertex = Vertex::new(position);
        self.vertex_map.push(vert);
        proof {
            assert(self@.vertices =~= old(self)@.with_vertex(position).vertices);
            assert(self@.edges =~= old(self)@.edges);
        }
        next_id
    }

    /// Adds an edge from `vh_1` to `vh_2`, lists it with both vertices and
    /// returns its handle: the least handle that no edge has had. Fails, and
    /// leaves the store as it is, where an end point is missing or no handle
    /// is left.
    pub fn add_edge(&mut self, vh_1: VertexHandle, vh_2: VertexHandle) -> (r: Result<
        EdgeHandle,
        DrawingManagerError,
    >)
        ensures
            r == old(self)@.add_edge_result(vh_1, vh_2),
            r is Ok ==> final(self)@ == old(self)@.with_edge(vh_1, vh_2),
            r is Err ==> final(self)@ == old(self)@,
            r is Ok ==> !old(self)@.has_edge(r->Ok_0) && final(self)@.has_edge(r->Ok_0),
            old(self)@.wf() ==> final(self)@.wf(),
    {
        if !self.has_vertex(&vh_1) {
            return Err(DrawingManagerError::VertexNotFound(vh_1));
        }
        if !self.has_vertex(&vh_2) {
            return Err(DrawingManagerError::VertexNotFound(vh_2));
        }
        if self.edge_map.len() >= i32::MAX as usize {
            return Err(DrawingManagerError::EdgeNotAdded);
        }
        let next_id: i32 = get_next_id(&self.edge_map);
        self.edge_map.push(Edge::new(vh_1, vh_2));
        self.vertex_map[vh_1 as usize].edge_handles.push(next_id);
        self.vertex_map[vh_2 as usize].edge_handles.push(next_id);
        proof {
            let target = old(self)@.with_edge(vh_1, vh_2);
            assert(self@.edges =~= target.edges);
            assert(self@.vertices =~= target.vertices);
        }
        Ok(next_id)
    }

    /// Lets the caller change the edge `eh` in place.
    pub fn get_edge_mut(&mut self, eh: EdgeHandle) -> (r: Result<&mut Edge, DrawingManagerError>)
        ensures
            match r {
                Ok(edge) => old(self)@.has_edge(eh) && edge@ == old(self)@.edges[eh as int]
                    && final(self)@ == old(self)@.with_edge_at(eh, final(edge)@),
                Err(e) => !old(self)@.has_edge(eh) && e == DrawingManagerError::EdgeNotFound(eh)
                    && final(self)@ == old(self)@,
            },
    {
        if self.has_edge(&eh) {
            Ok(&mut self.edge_map[eh as usize])
        } else {
            Err(DrawingManagerError::EdgeNotFound(eh))
        }
    }

    /// Lets the caller change the vertex `vh` in place, as when a resolved
    /// drag moves it.
    pub fn get_vertex_mut(&mut self, vh: VertexHandle) -> (r: Result<
        &mut Vertex,
        DrawingManagerError,
    >)
        ensures
            match r {
                Ok(vertex) => old(self)@.has_vertex(vh) && vertex@ == old(self)@.vertices[vh as int]
                    && final(self)@ == old(self)@.with_vertex_at(vh, final(vertex)@),
                Err(e) => !old(self)@.has_vertex(vh) && e == DrawingManagerError::VertexNotFound(
                    vh,
                ) && final(self)@ == old(self)@,
            },
    {
        if self.has_vertex(&vh) {
            Ok(&mut self.vertex_map[vh as usize])
        } else {
            Err(DrawingManagerError::VertexNotFound(vh))
        }
    }
}

} // verus!
