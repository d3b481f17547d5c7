//! Runs of additions to a sketch, and what holds after every run: handles
//! only ever grow, and the catalogue stays valid for the store.

use vstd::prelude::*;
use crate::constraint_manager::{
    add_angle_result, add_length_result, add_parallel_result, angle_constraint_for,
    catalogue_valid_for, Constraint, LengthConstraint, ParallelConstraint,
};
use crate::drawing_manager::{ConstraintHandle, Drawing, EdgeHandle, VertexHandle};
use crate::geometry::Pos2;

verus! {

/// A sketch as a value: the store and the catalogue.
pub struct Sketch {
    pub drawing: Drawing,
    pub constraints: Seq<Constraint>,
}

/// A request to add to a sketch.
pub enum Addition {
    /// `add_vertex` at a position.
    Vertex(Pos2),
    /// `add_edge` between two vertices.
    Edge(VertexHandle, VertexHandle),
    /// `add_length_constraint` on an edge.
    Length(EdgeHandle),
    /// `add_angle_constraint` on two edges.
    Angle(EdgeHandle, EdgeHandle),
    /// `add_parallel_constraint` on two edges.
    Parallel(EdgeHandle, EdgeHandle),
}

/// The three kinds of handle.
pub enum HandleKind {
    Vertex,
    Edge,
    Constraint,
}

impl Addition {
    /// The kind of handle that the addition returns.
    pub open spec fn kind(self) -> HandleKind {
        match self {
            Addition::Vertex(_) => HandleKind::Vertex,
            Addition::Edge(_, _) => HandleKind::Edge,
            _ => HandleKind::Constraint,
        }
    }
}

impl Sketch {
    /// The sketch without anything in it.
    pub open spec fn empty() -> Sketch {
        Sketch { drawing: Drawing::empty(), constraints: Seq::empty() }
    }

    /// The number of handles of a kind that have been given out, which is
    /// the next handle of that kind.
    pub open spec fn count(self, kind: HandleKind) -> int {
        match kind {
            HandleKind::Vertex => self.drawing.vertices.len() as int,
            HandleKind::Edge => self.drawing.edges.len() as int,
            HandleKind::Constraint => self.constraints.len() as int,
        }
    }

    /// The store keeps its references, and every constraint is valid for
    /// it.
    pub open spec fn valid(self) -> bool {
        self.drawing.wf() && catalogue_valid_for(self.constraints, self.drawing)
    }

    /// The handle that the addition returns, or nothing where it is
    /// refused.
    pub open spec fn handle_given(self, a: Addition) -> Option<int> {
        match a {
            Addition::Vertex(_) => if self.drawing.vertices.len() < i32::MAX {
                Some(self.drawing.next_vertex_handle())
            } else {
                None
            },
            Addition::Edge(vh_1, vh_2) => match self.drawing.add_edge_result(vh_1, vh_2) {
                Ok(eh) => Some(eh as int),
                Err(_) => None,
            },
            Addition::Length(eh) => match add_length_result(self.constraints, self.drawing, eh) {
                Ok(ch) => Some(ch as int),
                Err(_) => None,
            },
            Addition::Angle(eh_1, eh_2) => match add_angle_result(
                self.constraints,
                self.drawing,
                eh_1,
                eh_2,
            ) {
                Ok(ch) => Some(ch as int),
                Err(_) => None,
            },
            Addition::Parallel(eh_1, eh_2) => match add_parallel_result(
                self.constraints,
                self.drawing,
                eh_1,
                eh_2,
            ) {
                Ok(ch) => Some(ch as int),
                Err(_) => None,
            },
        }
    }

    /// The sketch after the addition. A refused addition leaves it as it
    /// is.
    pub open spec fn after(self, a: Addition) -> Sketch {
        if self.handle_given(a) is None {
            self
        } else {
            match a {
                Addition::Vertex(position) => Sketch {
                    drawing: self.drawing.with_vertex(position),
                    constraints: self.constraints,
                },
                Addition::Edge(vh_1, vh_2) => Sketch {
                    drawing: self.drawing.with_edge(vh_1, vh_2),
                    constraints: self.constraints,
                },
                Addition::Length(eh) => Sketch {
                    drawing: self.drawing,
                    constraints: self.constraints.push(
                        Constraint::LENGTH(LengthConstraint { edge_handle: eh }),
                    ),
                },
                Addition::Angle(eh_1, eh_2) => Sketch {
                    drawing: self.drawing,
                    constraints: self.constraints.push(
                        Constraint::ANGLE(angle_constraint_for(self.drawing, eh_1, eh_2)->Ok_0),
                    ),
                },
                Addition::Parallel(eh_1, eh_2) => Sketch {
                    drawing: self.drawing.with_edge_constraint(
                        eh_1,
                        self.constraints.len() as ConstraintHandle,
                    ).with_edge_constraint(eh_2, self.constraints.len() as ConstraintHandle),
                    constraints: self.constraints.push(
                        Constraint::PARALLEL(
                            ParallelConstraint { edge_1_handle: eh_1, edge_2_handle: eh_2 },
                        ),
                    ),
                },
            }
        }
    }

    /// The sketch after the first `n` of the additions `run`, in order.
    pub open spec fn after_run(self, run: Seq<Addition>, n: nat) -> Sketch
        decreases n,
    {
        if n == 0 {
            self
        } else {
            self.after_run(run, (n - 1) as nat).after(run[n - 1])
        }
    }
}

/// An addition returns the next handle of its kind, takes it out of use, and
/// gives back no handle of any kind.
pub proof fn lemma_addition_counts(s: Sketch, a: Addition, kind: HandleKind)
    ensures
        s.count(kind) <= s.after(a).count(kind),
        s.handle_given(a) matches Some(h) ==> h == s.count(a.kind()) && s.after(a).count(a.kind())
            == h + 1,
{
}

/// No run of additions gives a handle back.
pub proof fn lemma_run_counts(s: Sketch, run: Seq<Addition>, i: nat, j: nat, kind: HandleKind)
    requires
        i <= j,
    ensures
        s.after_run(run, i).count(kind) <= s.after_run(run, j).count(kind),
    decreases j,
{
    if i < j {
        lemma_run_counts(s, run, i, (j - 1) as nat, kind);
        lemma_addition_counts(s.after_run(run, (j - 1) as nat), run[j - 1], kind);
    }
}

/// Handle uniqueness: in every run of additions, from any sketch, the
/// handles of one kind come out in strictly increasing order. No two
/// additions return the same handle, and none returns a handle that the
/// sketch already held.
pub proof fn law_handles_increase(s: Sketch, run: Seq<Addition>, i: int, j: int)
    requires
        0 <= i < j < run.len(),
        run[i].kind() == run[j].kind(),
        s.after_run(run, i as nat).handle_given(run[i]) is Some,
        s.after_run(run, j as nat).handle_given(run[j]) is Some,
    ensures
        s.count(run[i].kind()) <= s.after_run(run, i as nat).handle_given(run[i])->0,
        s.after_run(run, i as nat).handle_given(run[i])->0 < s.after_run(
            run,
            j as nat,
        ).handle_given(run[j])->0,
{
    let kind = run[i].kind();
    lemma_run_counts(s, run, 0, i as nat, kind);
    lemma_addition_counts(s.after_run(run, i as nat), run[i], kind);
    lemma_run_counts(s, run, (i + 1) as nat, j as nat, kind);
    lemma_addition_counts(s.after_run(run, j as nat), run[j], kind);
}

/// An addition keeps a valid sketch valid: every edge still ends in
/// vertices of the store, and every constraint still names edges of the
/// store, an angle constraint with the vertex that they share.
pub proof fn law_addition_keeps_validity(s: Sketch, a: Addition)
    requires
        s.valid(),
    ensures
        s.after(a).valid(),
{
    let t = s.after(a);
    if s.handle_given(a) is Some {
        assert forall|eh: EdgeHandle| t.drawing.has_edge(eh) implies t.drawing.has_vertex(
            (#[trigger] t.drawing.edges[eh as int]).start_point_vh,
        ) && t.drawing.has_vertex(t.drawing.edges[eh as int].end_point_vh) by {
            if s.drawing.has_edge(eh) {
                assert(s.drawing.has_vertex(s.drawing.edges[eh as int].start_point_vh));
            }
        }
        assert forall|ch: int| 0 <= ch < t.constraints.len() implies (
        #[trigger] t.constraints[ch]).valid_for(t.drawing) by {
            if ch < s.constraints.len() {
                assert(s.constraints[ch].valid_for(s.drawing));
                assert(t.constraints[ch] == s.constraints[ch]);
            }
        }
    }
}

/// Every sketch that a run of additions builds from a valid sketch, such as
/// the empty one, is valid.
pub proof fn law_run_keeps_validity(s: Sketch, run: Seq<Addition>, n: nat)
    requires
        s.valid(),
        n <= run.len(),
    ensures
        s.after_run(run, n).valid(),
    decreases n,
{
    if n > 0 {
        law_run_keeps_validity(s, run, (n - 1) as nat);
        law_addition_keeps_validity(s.after_run(run, (n - 1) as nat), run[n - 1]);
    }
}

} // verus!
