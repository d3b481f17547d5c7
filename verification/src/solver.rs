//! The solver: where a dragged vertex or edge may go.
//!
//! Every constraint that touches a dragged vertex confines it to a locus.
//! The loci are reduced pair by pair to the one locus that satisfies all of
//! them, and the vertex goes to the point of that locus that lies closest to
//! the place that the drag asks for.

use vstd::prelude::*;
use crate::constraint_manager::{
    AngleConstraint, Constraint, ConstraintError, ConstraintManager,
};
use crate::drawing_manager::{
    ConstraintHandle, Drawing, DrawingManager, Edge, EdgeHandle, VertexHandle,
};
use crate::geometry::{Pos2, Vec2};
use crate::intersection::{
    circle_hits, intersect_paths, intersect_paths_spec, intersection_spec,
    line_circle_intersection, line_line_intersection, line_ray_intersection,
};
use crate::locus::{Circle, ConstraintPath, Line, Ray};

verus! {

/// How far a drag may go.
#[derive(Clone, Copy, Debug, PartialEq, Eq, Structural)]
pub enum SolverState {
    /// The entity cannot move.
    Locked,
    /// The entity can move along a locus.
    Partial,
    /// No constraint holds the entity.
    Free,
}

impl Default for SolverState {
    fn default() -> (s: SolverState)
        ensures
            s == SolverState::Free,
    {
        SolverState::Free
    }
}

/// The outcome of a vertex drag.
#[derive(Clone, Copy, Debug, PartialEq, Eq)]
pub struct SolverResponse {
    pub state: SolverState,
    /// The locus along which the vertex can move, where the state is
    /// `Partial`.
    pub valid_path: Option<ConstraintPath>,
    /// Where the vertex goes; nothing where the state is `Locked`.
    pub new_pos: Option<Pos2>,
}

impl Default for SolverResponse {
    fn default() -> (r: SolverResponse)
        ensures
            r == (SolverResponse { state: SolverState::Free, valid_path: None, new_pos: None }),
    {
        SolverResponse { state: SolverState::Free, valid_path: None, new_pos: None }
    }
}

impl SolverResponse {
    /// The response to a drag that cannot move the vertex.
    pub open spec fn locked_spec() -> SolverResponse {
        SolverResponse { state: SolverState::Locked, valid_path: None, new_pos: None }
    }

    /// The response to a drag that no constraint holds back.
    pub open spec fn free_spec(try_pos: Pos2) -> SolverResponse {
        SolverResponse { state: SolverState::Free, valid_path: None, new_pos: Some(try_pos) }
    }

    /// The response to a drag that the locus `path` confines.
    pub open spec fn partial_spec(path: ConstraintPath, try_pos: Pos2) -> SolverResponse {
        SolverResponse {
            state: SolverState::Partial,
            valid_path: Some(path),
            new_pos: Some(path.closest_point_spec(try_pos)),
        }
    }

    /// The response to a drag that cannot move the vertex.
    pub fn locked() -> (r: SolverResponse)
        ensures
            r == SolverResponse::locked_spec(),
    {
        SolverResponse { state: SolverState::Locked, valid_path: None, new_pos: None }
    }
}

/// What a constraint is to a vertex.
#[derive(Clone, Copy, Debug, PartialEq, Eq, Structural)]
pub enum Role {
    /// The constraint does not touch the vertex.
    Unrelated,
    /// The vertex is an end point of an edge of fixed length.
    LengthEnd,
    /// The vertex is the pivot of an angle constraint.
    AngleCenter,
    /// The vertex is an outer vertex of an angle constraint.
    AngleEnd,
    /// The vertex is an end point of one of two parallel edges.
    ParallelEnd,
}

/// What the constraint `c` is to the vertex `vh`. A length or parallel
/// constraint on an edge that the sketch lacks cannot be placed.
pub open spec fn role_of(c: Constraint, dm: Drawing, vh: VertexHandle) -> Result<
    Role,
    ConstraintError,
> {
    match c {
        Constraint::LENGTH(l) => {
            if !dm.has_edge(l.edge_handle) {
                Err(ConstraintError::EdgeNotFound(l.edge_handle))
            } else if dm.edges[l.edge_handle as int].touches(vh) {
                Ok(Role::LengthEnd)
            } else {
                Ok(Role::Unrelated)
            }
        },
        Constraint::ANGLE(a) => {
            if a.pivot_vert_handle == vh {
                Ok(Role::AngleCenter)
            } else if a.edge_1_outer_vert_handle == vh || a.edge_2_outer_vert_handle == vh {
                Ok(Role::AngleEnd)
            } else {
                Ok(Role::Unrelated)
            }
        },
        Constraint::PARALLEL(p) => {
            if !dm.has_edge(p.edge_1_handle) {
                Err(ConstraintError::EdgeNotFound(p.edge_1_handle))
            } else if !dm.has_edge(p.edge_2_handle) {
                Err(ConstraintError::EdgeNotFound(p.edge_2_handle))
            } else if dm.edges[p.edge_1_handle as int].touches(vh) || dm.edges[p.edge_2_handle as int].touches(
                vh,
            ) {
                Ok(Role::ParallelEnd)
            } else {
                Ok(Role::Unrelated)
            }
        },
    }
}

/// The handle `ch` is one of those to leave out.
pub open spec fn is_ignored(ignore: Seq<ConstraintHandle>, ch: int) -> bool {
    exists|k: int| 0 <= k < ignore.len() && #[trigger] ignore[k] == ch
}

/// What the constraint of handle `ch` is to the vertex `vh`, where the
/// constraints in `ignore` count as unrelated.
pub open spec fn role_at(
    cs: Seq<Constraint>,
    dm: Drawing,
    vh: VertexHandle,
    ignore: Seq<ConstraintHandle>,
    ch: int,
) -> Result<Role, ConstraintError> {
    if is_ignored(ignore, ch) {
        Ok(Role::Unrelated)
    } else {
        role_of(cs[ch], dm, vh)
    }
}

/// What each of the first `n` constraints is to the vertex `vh`, in order of
/// handle; or the reason why the first of them that cannot be placed cannot.
pub open spec fn roles(
    cs: Seq<Constraint>,
    dm: Drawing,
    vh: VertexHandle,
    ignore: Seq<ConstraintHandle>,
    n: nat,
) -> Result<Seq<Role>, ConstraintError>
    decreases n,
{
    if n == 0 {
        Ok(Seq::empty())
    } else {
        match roles(cs, dm, vh, ignore, (n - 1) as nat) {
            Err(e) => Err(e),
            Ok(rs) => match role_at(cs, dm, vh, ignore, n - 1) {
                Err(e) => Err(e),
                Ok(role) => Ok(rs.push(role)),
            },
        }
    }
}

/// Some constraint touches the vertex.
pub open spec fn touched(rs: Seq<Role>) -> bool {
    exists|i: int| 0 <= i < rs.len() && #[trigger] rs[i] != Role::Unrelated
}

/// Whether the angle constraint `a` fixes its pivot: the two edges do not lie
/// along one line within the angular tolerance. Fails where an edge has no
/// direction.
pub open spec fn pivot_locked(a: AngleConstraint, dm: Drawing) -> Result<bool, ConstraintError> {
    match dm.edge_direction(a.edge_1_handle) {
        Err(e) => Err(ConstraintError::of_drawing(e)),
        Ok(d1) => match dm.edge_direction(a.edge_2_handle) {
            Err(e) => Err(ConstraintError::of_drawing(e)),
            Ok(d2) => Ok(!d1.nearly_parallel(d2)),
        },
    }
}

/// Whether the constraint of handle `ch` fixes the vertex whose roles are
/// `rs`.
pub open spec fn locks_at(cs: Seq<Constraint>, rs: Seq<Role>, dm: Drawing, ch: int) -> Result<
    bool,
    ConstraintError,
> {
    match cs[ch] {
        Constraint::ANGLE(a) => if rs[ch] == Role::AngleCenter {
            pivot_locked(a, dm)
        } else {
            Ok(false)
        },
        _ => Ok(false),
    }
}

/// Whether one of the first `n` constraints fixes the vertex whose roles are
/// `rs`. The constraints are asked in order of handle; the first that fixes
/// the vertex or fails decides.
pub open spec fn hard_lock(cs: Seq<Constraint>, rs: Seq<Role>, dm: Drawing, n: nat) -> Result<
    bool,
    ConstraintError,
>
    decreases n,
{
    if n == 0 {
        Ok(false)
    } else {
        match hard_lock(cs, rs, dm, (n - 1) as nat) {
            Err(e) => Err(e),
            Ok(true) => Ok(true),
            Ok(false) => locks_at(cs, rs, dm, n - 1),
        }
    }
}

/// The circle on which the vertex `vh` keeps the edge `eh` at the length it
/// had when the drag began: its centre is the other end point of the edge,
/// its radius the distance from there to `fixed_pos`.
pub open spec fn circle_locus(dm: Drawing, eh: EdgeHandle, vh: VertexHandle, fixed_pos: Pos2) -> Result<
    ConstraintPath,
    ConstraintError,
> {
    if !dm.has_edge(eh) {
        Err(ConstraintError::EdgeNotFound(eh))
    } else if !dm.has_vertex(dm.edges[eh as int].other_end(vh)) {
        Err(ConstraintError::VertexNotFound(dm.edges[eh as int].other_end(vh)))
    } else if !dm.vertices[dm.edges[eh as int].other_end(vh) as int].position.in_range()
        || !fixed_pos.in_range() {
        Err(ConstraintError::PositionOutOfRange)
    } else {
        Ok(
            ConstraintPath::Circle(
                Circle {
                    origin: dm.vertices[dm.edges[eh as int].other_end(vh) as int].position,
                    radius: fixed_pos.dist(
                        dm.vertices[dm.edges[eh as int].other_end(vh) as int].position,
                    ) as i64,
                },
            ),
        )
    }
}

/// The ray from the vertex `from` through the vertex `to`.
pub open spec fn ray_locus(dm: Drawing, from: VertexHandle, to: VertexHandle) -> Result<
    ConstraintPath,
    ConstraintError,
> {
    match dm.direction_between(from, to) {
        Err(e) => Err(ConstraintError::of_drawing(e)),
        Ok(d) => Ok(
            ConstraintPath::Ray(Ray { origin: dm.vertices[from as int].position, direction: d }),
        ),
    }
}

/// The line through the vertices `from` and `to`, directed from the first to
/// the second. Its origin is `to` where `through_end` holds, and `from`
/// otherwise.
pub open spec fn line_locus(dm: Drawing, from: VertexHandle, to: VertexHandle, through_end: bool) -> Result<
    ConstraintPath,
    ConstraintError,
> {
    match dm.direction_between(from, to) {
        Err(e) => Err(ConstraintError::of_drawing(e)),
        Ok(d) => Ok(
            ConstraintPath::Line(
                Line {
                    origin: if through_end {
                        dm.vertices[to as int].position
                    } else {
                        dm.vertices[from as int].position
                    },
                    direction: d,
                },
            ),
        ),
    }
}

/// The line on which the vertex `vh` keeps the edge `eh` on its bearing: the
/// line through the other end point of the edge, along the edge as it
/// stands.
pub open spec fn parallel_locus(dm: Drawing, eh: EdgeHandle, vh: VertexHandle) -> Result<
    ConstraintPath,
    ConstraintError,
> {
    if !dm.has_edge(eh) {
        Err(ConstraintError::EdgeNotFound(eh))
    } else {
        line_locus(
            dm,
            dm.edges[eh as int].start_point_vh,
            dm.edges[eh as int].end_point_vh,
            dm.edges[eh as int].start_point_vh == vh,
        )
    }
}

/// The locus to which the constraint `c` confines the vertex `vh` that it
/// touches, as the sketch stands.
///
/// A length constraint gives a circle about the other end point of its edge.
/// An angle constraint gives its outer vertices the ray from the pivot
/// through the vertex, and its pivot the line through the pivot along the
/// first edge. A parallel constraint gives the line along that one of its
/// edges which ends in the vertex, the first edge if both do.
pub open spec fn locus_of(c: Constraint, dm: Drawing, vh: VertexHandle, fixed_pos: Pos2) -> Result<
    ConstraintPath,
    ConstraintError,
> {
    match c {
        Constraint::LENGTH(l) => circle_locus(dm, l.edge_handle, vh, fixed_pos),
        Constraint::ANGLE(a) => {
            if a.pivot_vert_handle == vh {
                line_locus(dm, a.pivot_vert_handle, a.edge_1_outer_vert_handle, false)
            } else {
                ray_locus(dm, a.pivot_vert_handle, vh)
            }
        },
        Constraint::PARALLEL(p) => {
            if !dm.has_edge(p.edge_1_handle) {
                Err(ConstraintError::EdgeNotFound(p.edge_1_handle))
            } else if dm.edges[p.edge_1_handle as int].touches(vh) {
                parallel_locus(dm, p.edge_1_handle, vh)
            } else {
                parallel_locus(dm, p.edge_2_handle, vh)
            }
        },
    }
}

/// The loci of those of the first `n` constraints whose role is `role`, in
/// order of handle; or the reason why the first of them that has no locus
/// has none.
pub open spec fn loci_of_role(
    cs: Seq<Constraint>,
    rs: Seq<Role>,
    role: Role,
    dm: Drawing,
    vh: VertexHandle,
    fixed_pos: Pos2,
    n: nat,
) -> Result<Seq<ConstraintPath>, ConstraintError>
    decreases n,
{
    if n == 0 {
        Ok(Seq::empty())
    } else {
        match loci_of_role(cs, rs, role, dm, vh, fixed_pos, (n - 1) as nat) {
            Err(e) => Err(e),
            Ok(paths) => if rs[n - 1] == role {
                match locus_of(cs[n - 1], dm, vh, fixed_pos) {
                    Err(e) => Err(e),
                    Ok(path) => Ok(paths.push(path)),
                }
            } else {
                Ok(paths)
            },
        }
    }
}

/// `first` followed by `second`, unless one of them failed; the failure of
/// `first` comes before that of `second`.
pub open spec fn chain(
    first: Result<Seq<ConstraintPath>, ConstraintError>,
    second: Result<Seq<ConstraintPath>, ConstraintError>,
) -> Result<Seq<ConstraintPath>, ConstraintError> {
    match first {
        Err(e) => Err(e),
        Ok(a) => match second {
            Err(e) => Err(e),
            Ok(b) => Ok(a + b),
        },
    }
}

/// All loci of the vertex `vh` whose roles are `rs`: the circles of the
/// length constraints first, then the rays of the angle constraints of which
/// it is an outer vertex, then the lines of those of which it is the pivot,
/// then the lines of the parallel constraints.
pub open spec fn vertex_loci(
    cs: Seq<Constraint>,
    rs: Seq<Role>,
    dm: Drawing,
    vh: VertexHandle,
    fixed_pos: Pos2,
) -> Result<Seq<ConstraintPath>, ConstraintError> {
    chain(
        chain(
            chain(
                loci_of_role(cs, rs, Role::LengthEnd, dm, vh, fixed_pos, cs.len()),
                loci_of_role(cs, rs, Role::AngleEnd, dm, vh, fixed_pos, cs.len()),
            ),
            loci_of_role(cs, rs, Role::AngleCenter, dm, vh, fixed_pos, cs.len()),
        ),
        loci_of_role(cs, rs, Role::ParallelEnd, dm, vh, fixed_pos, cs.len()),
    )
}

/// Where the vertex whose loci are `loci` goes when it is dragged to
/// `try_pos`: to the closest point of the locus that survives them all, or
/// nowhere if none does.
pub open spec fn resolve(loci: Seq<ConstraintPath>, try_pos: Pos2) -> Result<
    SolverResponse,
    ConstraintError,
> {
    match intersect_paths_spec(loci) {
        None => Ok(SolverResponse::locked_spec()),
        Some(path) => if !try_pos.in_range() {
            Err(ConstraintError::PositionOutOfRange)
        } else {
            Ok(SolverResponse::partial_spec(path, try_pos))
        },
    }
}

/// The outcome of a drag of the vertex `vh` from `fixed_pos` towards
/// `try_pos`, in the sketch `dm` under the constraints `cs` without those in
/// `ignore`.
///
/// A vertex that no constraint touches is free and goes where it is asked
/// to. A vertex that is the pivot of an angle constraint whose edges do not
/// lie along one line is locked. Any other vertex is confined to the locus
/// that survives the loci of all constraints that touch it, and is locked if
/// none does.
///
/// The drag fails where a constraint names an edge or a vertex that the
/// sketch lacks, where an edge that gives a bearing is shorter than the
/// least length, and where a position that enters the arithmetic lies
/// outside the coordinate range.
pub open spec fn solve_for_vertex_spec(
    cs: Seq<Constraint>,
    dm: Drawing,
    vh: VertexHandle,
    fixed_pos: Pos2,
    try_pos: Pos2,
    ignore: Seq<ConstraintHandle>,
) -> Result<SolverResponse, ConstraintError> {
    match roles(cs, dm, vh, ignore, cs.len()) {
        Err(e) => Err(e),
        Ok(rs) => if !touched(rs) {
            Ok(SolverResponse::free_spec(try_pos))
        } else {
            match hard_lock(cs, rs, dm, cs.len()) {
                Err(e) => Err(e),
                Ok(true) => Ok(SolverResponse::locked_spec()),
                Ok(false) => match vertex_loci(cs, rs, dm, vh, fixed_pos) {
                    Err(e) => Err(e),
                    Ok(loci) => resolve(loci, try_pos),
                },
            }
        },
    }
}

/// A failure among the first constraints is the failure of them all.
pub proof fn lemma_roles_error_stays(
    cs: Seq<Constraint>,
    dm: Drawing,
    vh: VertexHandle,
    ignore: Seq<ConstraintHandle>,
    k: nat,
    n: nat,
)
    requires
        k <= n,
        roles(cs, dm, vh, ignore, k) is Err,
    ensures
        roles(cs, dm, vh, ignore, n) == roles(cs, dm, vh, ignore, k),
    decreases n,
{
    if k < n {
        lemma_roles_error_stays(cs, dm, vh, ignore, k, (n - 1) as nat);
    }
}

/// There is one role for each constraint.
pub proof fn lemma_roles_len(
    cs: Seq<Constraint>,
    dm: Drawing,
    vh: VertexHandle,
    ignore: Seq<ConstraintHandle>,
    n: nat,
)
    requires
        roles(cs, dm, vh, ignore, n) is Ok,
    ensures
        roles(cs, dm, vh, ignore, n)->Ok_0.len() == n,
        forall|i: int|
            0 <= i < n ==> role_at(cs, dm, vh, ignore, i) == Ok::<Role, ConstraintError>(
                #[trigger] roles(cs, dm, vh, ignore, n)->Ok_0[i],
            ),
    decreases n,
{
    if n > 0 {
        lemma_roles_len(cs, dm, vh, ignore, (n - 1) as nat);
    }
}

/// A lock or a failure among the first constraints decides for them all.
pub proof fn lemma_hard_lock_stays(
    cs: Seq<Constraint>,
    rs: Seq<Role>,
    dm: Drawing,
    k: nat,
    n: nat,
)
    requires
        k <= n,
        hard_lock(cs, rs, dm, k) != Ok::<bool, ConstraintError>(false),
    ensures
        hard_lock(cs, rs, dm, n) == hard_lock(cs, rs, dm, k),
    decreases n,
{
    if k < n {
        lemma_hard_lock_stays(cs, rs, dm, k, (n - 1) as nat);
    }
}

/// A failure among the first loci is the failure of them all.
pub proof fn lemma_loci_error_stays(
    cs: Seq<Constraint>,
    rs: Seq<Role>,
    role: Role,
    dm: Drawing,
    vh: VertexHandle,
    fixed_pos: Pos2,
    k: nat,
    n: nat,
)
    requires
        k <= n,
        loci_of_role(cs, rs, role, dm, vh, fixed_pos, k) is Err,
    ensures
        loci_of_role(cs, rs, role, dm, vh, fixed_pos, n) == loci_of_role(
            cs,
            rs,
            role,
            dm,
            vh,
            fixed_pos,
            k,
        ),
    decreases n,
{
    if k < n {
        lemma_loci_error_stays(cs, rs, role, dm, vh, fixed_pos, k, (n - 1) as nat);
    }
}

/// Whether the handle `ch` is one of those to leave out.
pub fn check_ignored(ignore: &Vec<ConstraintHandle>, ch: usize) -> (b: bool)
    ensures
        b == is_ignored(ignore@, ch as int),
{
    if ch > i32::MAX as usize {
        return false;
    }
    let handle: i32 = ch as i32;
    let mut k: usize = 0;
    while k < ignore.len()
        invariant
            k <= ignore@.len(),
            handle == ch,
            forall|j: int| 0 <= j < k ==> ignore@[j] != ch,
        decreases ignore@.len() - k,
    {
        if ignore[k] == handle {
            return true;
        }
        k += 1;
    }
    false
}

/// What the constraint `c` is to the vertex `vh`.
pub fn classify(c: &Constraint, drawing_manager: &DrawingManager, vh: VertexHandle) -> (r: Result<
    Role,
    ConstraintError,
>)
    ensures
        r == role_of(*c, drawing_manager@, vh),
{
    match c {
        Constraint::LENGTH(length_constraint) => {
            match drawing_manager.get_edge(length_constraint.edge_handle) {
                Err(e) => Err(ConstraintError::from_drawing(e)),
                Ok(edge) => {
                    if edge.end_point_vh == vh || edge.start_point_vh == vh {
                        Ok(Role::LengthEnd)
                    } else {
                        Ok(Role::Unrelated)
                    }
                },
            }
        },
        Constraint::ANGLE(angle_constraint) => {
            if angle_constraint.pivot_vert_handle == vh {
                Ok(Role::AngleCenter)
            } else if angle_constraint.edge_1_outer_vert_handle == vh
                || angle_constraint.edge_2_outer_vert_handle == vh {
                Ok(Role::AngleEnd)
            } else {
                Ok(Role::Unrelated)
            }
        },
        Constraint::PARALLEL(parallel_constraint) => {
            let edge_1 = match drawing_manager.get_edge(parallel_constraint.edge_1_handle) {
                Ok(edge) => edge,
                Err(e) => {
                    return Err(ConstraintError::from_drawing(e));
                },
            };
            let edge_2 = match drawing_manager.get_edge(parallel_constraint.edge_2_handle) {
                Ok(edge) => edge,
                Err(e) => {
                    return Err(ConstraintError::from_drawing(e));
                },
            };
            if edge_1.end_point_vh == vh || edge_1.start_point_vh == vh || edge_2.end_point_vh
                == vh || edge_2.start_point_vh == vh {
                Ok(Role::ParallelEnd)
            } else {
                Ok(Role::Unrelated)
            }
        },
    }
}

/// What each constraint is to the vertex `vh`, and whether any touches it.
fn classify_all(
    constraints: &Vec<Constraint>,
    drawing_manager: &DrawingManager,
    vh: VertexHandle,
    ignore: &Vec<ConstraintHandle>,
) -> (r: Result<(Vec<Role>, bool), ConstraintError>)
    ensures
        match roles(constraints@, drawing_manager@, vh, ignore@, constraints@.len()) {
            Ok(rs) => r is Ok && r->Ok_0.0@ == rs && r->Ok_0.1 == touched(rs) && rs.len()
                == constraints@.len(),
            Err(e) => r is Err && r->Err_0 == e,
        },
{
    let mut rs: Vec<Role> = Vec::new();
    let mut any: bool = false;
    let mut i: usize = 0;
    while i < constraints.len()
        invariant
            i <= constraints@.len(),
            rs@.len() == i,
            roles(constraints@, drawing_manager@, vh, ignore@, i as nat) == Ok::<
                Seq<Role>,
                ConstraintError,
            >(rs@),
            any == touched(rs@),
        decreases constraints@.len() - i,
    {
        let role: Role = if check_ignored(ignore, i) {
            Role::Unrelated
        } else {
            match classify(&constraints[i], drawing_manager, vh) {
                Ok(role) => role,
                Err(e) => {
                    proof {
                        lemma_roles_error_stays(
                            constraints@,
                            drawing_manager@,
                            vh,
                            ignore@,
                            (i + 1) as nat,
                            constraints@.len(),
                        );
                    }
                    return Err(e);
                },
            }
        };
        let ghost before = rs@;
        rs.push(role);
        proof {
            if role != Role::Unrelated {
                assert(rs@[i as int] != Role::Unrelated);
            } else if touched(rs@) {
                let j = choose|j: int| 0 <= j < rs@.len() && #[trigger] rs@[j] != Role::Unrelated;
                assert(before[j] != Role::Unrelated);
            }
            if touched(before) {
                let j = choose|j: int| 0 <= j < before.len() && #[trigger] before[j]
                    != Role::Unrelated;
                assert(rs@[j] != Role::Unrelated);
            }
        }
        if role != Role::Unrelated {
            any = true;
        }
        i += 1;
    }
    Ok((rs, any))
}

/// Whether the angle constraint `a` fixes its pivot.
pub fn check_pivot_locked(a: &AngleConstraint, drawing_manager: &DrawingManager) -> (r: Result<
    bool,
    ConstraintError,
>)
    ensures
        r == pivot_locked(*a, drawing_manager@),
{
    let dir_1: Vec2 = match Edge::direction_from_handle(
        drawing_manager,
        a.edge_1_handle,
    ) {
        Ok(d) => d,
        Err(e) => {
            return Err(ConstraintError::from_drawing(e));
        },
    };
    let dir_2: Vec2 = match Edge::direction_from_handle(
        drawing_manager,
        a.edge_2_handle,
    ) {
        Ok(d) => d,
        Err(e) => {
            return Err(ConstraintError::from_drawing(e));
        },
    };
    Ok(!dir_1.is_nearly_parallel(&dir_2))
}

/// Whether an angle constraint fixes the vertex whose roles are `rs`.
fn check_hard_lock(constraints: &Vec<Constraint>, rs: &Vec<Role>, drawing_manager: &DrawingManager) -> (r:
    Result<bool, ConstraintError>)
    requires
        rs@.len() == constraints@.len(),
    ensures
        r == hard_lock(constraints@, rs@, drawing_manager@, constraints@.len()),
{
    let mut i: usize = 0;
    while i < constraints.len()
        invariant
            i <= constraints@.len(),
            rs@.len() == constraints@.len(),
            hard_lock(constraints@, rs@, drawing_manager@, i as nat) == Ok::<bool, ConstraintError>(
                false,
            ),
        decreases constraints@.len() - i,
    {
        if rs[i] == Role::AngleCenter {
            match &constraints[i] {
                Constraint::ANGLE(a) => {
                    let step = check_pivot_locked(a, drawing_manager);
                    let decided: bool = match step {
                        Ok(false) => false,
                        _ => true,
                    };
                    if decided {
                        proof {
                            lemma_hard_lock_stays(
                                constraints@,
                                rs@,
                                drawing_manager@,
                                (i + 1) as nat,
                                constraints@.len(),
                            );
                        }
                        return step;
                    }
                },
                _ => {},
            }
        }
        i += 1;
    }
    Ok(false)
}

/// The circle on which the vertex `vh` keeps the edge `eh` at its length.
fn circle_for(drawing_manager: &DrawingManager, eh: EdgeHandle, vh: VertexHandle, fixed_pos: &Pos2) -> (r:
    Result<ConstraintPath, ConstraintError>)
    ensures
        r == circle_locus(drawing_manager@, eh, vh, *fixed_pos),
        r is Ok ==> r->Ok_0.wf(),
{
    let edge = match drawing_manager.get_edge(eh) {
        Ok(edge) => edge,
        Err(e) => {
            return Err(ConstraintError::from_drawing(e));
        },
    };
    let other_vh: VertexHandle = if edge.start_point_vh == vh {
        edge.end_point_vh
    } else {
        edge.start_point_vh
    };
    let other_vertex = match drawing_manager.get_vertex(other_vh) {
        Ok(vertex) => vertex,
        Err(e) => {
            return Err(ConstraintError::from_drawing(e));
        },
    };
    if !other_vertex.position.is_in_range() || !fixed_pos.is_in_range() {
        return Err(ConstraintError::PositionOutOfRange);
    }
    let path_radius: i64 = fixed_pos.distance(&other_vertex.position);
    Ok(ConstraintPath::Circle(Circle { origin: other_vertex.position, radius: path_radius }))
}

/// The bearing from the vertex `from` to the vertex `to`, with the positions
/// of both.
fn bearing(drawing_manager: &DrawingManager, from: VertexHandle, to: VertexHandle) -> (r: Result<
    (Pos2, Pos2, Vec2),
    ConstraintError,
>)
    ensures
        match drawing_manager@.direction_between(from, to) {
            Err(e) => r == Err::<(Pos2, Pos2, Vec2), ConstraintError>(
                ConstraintError::of_drawing(e),
            ),
            Ok(d) => r == Ok::<(Pos2, Pos2, Vec2), ConstraintError>(
                (
                    drawing_manager@.vertices[from as int].position,
                    drawing_manager@.vertices[to as int].position,
                    d,
                ),
            ) && d.in_range() && drawing_manager@.vertices[from as int].position.in_range()
                && drawing_manager@.vertices[to as int].position.in_range(),
        },
{
    let direction: Vec2 = match drawing_manager.direction_between(from, to) {
        Ok(d) => d,
        Err(e) => {
            return Err(ConstraintError::from_drawing(e));
        },
    };
    let start: Pos2 = match drawing_manager.get_vertex(from) {
        Ok(vertex) => vertex.position,
        Err(e) => {
            return Err(ConstraintError::from_drawing(e));
        },
    };
    let end: Pos2 = match drawing_manager.get_vertex(to) {
        Ok(vertex) => vertex.position,
        Err(e) => {
            return Err(ConstraintError::from_drawing(e));
        },
    };
    Ok((start, end, direction))
}

/// The line on which the vertex `vh` keeps the edge `eh` on its bearing.
fn parallel_line_for(drawing_manager: &DrawingManager, eh: EdgeHandle, vh: VertexHandle) -> (r:
    Result<ConstraintPath, ConstraintError>)
    ensures
        r == parallel_locus(drawing_manager@, eh, vh),
        r is Ok ==> r->Ok_0.wf(),
{
    let edge = match drawing_manager.get_edge(eh) {
        Ok(edge) => edge,
        Err(e) => {
            return Err(ConstraintError::from_drawing(e));
        },
    };
    match bearing(drawing_manager, edge.start_point_vh, edge.end_point_vh) {
        Err(e) => Err(e),
        Ok((start, end, direction)) => {
            let origin: Pos2 = if edge.start_point_vh == vh {
                end
            } else {
                start
            };
            Ok(ConstraintPath::Line(Line { origin, direction }))
        },
    }
}

/// The locus to which the constraint `c` confines the vertex `vh`.
pub fn locus_for(
    c: &Constraint,
    drawing_manager: &DrawingManager,
    vh: VertexHandle,
    fixed_pos: &Pos2,
) -> (r: Result<ConstraintPath, ConstraintError>)
    ensures
        r == locus_of(*c, drawing_manager@, vh, *fixed_pos),
        r is Ok ==> r->Ok_0.wf(),
{
    match c {
        Constraint::LENGTH(lc) => circle_for(drawing_manager, lc.edge_handle, vh, fixed_pos),
        Constraint::ANGLE(ac) => {
            if ac.pivot_vert_handle == vh {
                match bearing(drawing_manager, ac.pivot_vert_handle, ac.edge_1_outer_vert_handle) {
                    Err(e) => Err(e),
                    Ok((origin, _, direction)) => Ok(
                        ConstraintPath::Line(Line { origin, direction }),
                    ),
                }
            } else {
                match bearing(drawing_manager, ac.pivot_vert_handle, vh) {
                    Err(e) => Err(e),
                    Ok((origin, _, direction)) => Ok(ConstraintPath::Ray(Ray { origin, direction })),
                }
            }
        },
        Constraint::PARALLEL(pc) => {
            let edge_1 = match drawing_manager.get_edge(pc.edge_1_handle) {
                Ok(edge) => edge,
                Err(e) => {
                    return Err(ConstraintError::from_drawing(e));
                },
            };
            if edge_1.start_point_vh == vh || edge_1.end_point_vh == vh {
                parallel_line_for(drawing_manager, pc.edge_1_handle, vh)
            } else {
                parallel_line_for(drawing_manager, pc.edge_2_handle, vh)
            }
        },
    }
}

/// Every locus of the list is well formed.
pub open spec fn all_wf(paths: Seq<ConstraintPath>) -> bool {
    forall|i: int| 0 <= i < paths.len() ==> (#[trigger] paths[i]).wf()
}

/// Appends to `paths` the loci of the constraints whose role is `role`.
fn collect_loci(
    paths: &mut Vec<ConstraintPath>,
    constraints: &Vec<Constraint>,
    rs: &Vec<Role>,
    role: Role,
    drawing_manager: &DrawingManager,
    vh: VertexHandle,
    fixed_pos: &Pos2,
) -> (r: Result<(), ConstraintError>)
    requires
        rs@.len() == constraints@.len(),
        all_wf(old(paths)@),
    ensures
        match loci_of_role(
            constraints@,
            rs@,
            role,
            drawing_manager@,
            vh,
            *fixed_pos,
            constraints@.len(),
        ) {
            Ok(found) => r is Ok && final(paths)@ == old(paths)@ + found,
            Err(e) => r is Err && r->Err_0 == e,
        },
        all_wf(final(paths)@),
{
    let mut i: usize = 0;
    let ghost mut found: Seq<ConstraintPath> = Seq::empty();
    while i < constraints.len()
        invariant
            i <= constraints@.len(),
            rs@.len() == constraints@.len(),
            loci_of_role(constraints@, rs@, role, drawing_manager@, vh, *fixed_pos, i as nat)
                == Ok::<Seq<ConstraintPath>, ConstraintError>(found),
            paths@ == old(paths)@ + found,
            all_wf(paths@),
        decreases constraints@.len() - i,
    {
        if rs[i] == role {
            match locus_for(&constraints[i], drawing_manager, vh, fixed_pos) {
                Ok(path) => {
                    paths.push(path);
                    proof {
                        found = found.push(path);
                    }
                },
                Err(e) => {
                    proof {
                        lemma_loci_error_stays(
                            constraints@,
                            rs@,
                            role,
                            drawing_manager@,
                            vh,
                            *fixed_pos,
                            (i + 1) as nat,
                            constraints@.len(),
                        );
                    }
                    return Err(e);
                },
            }
        }
        i += 1;
    }
    Ok(())
}

/// All loci of the vertex `vh` whose roles are `rs`.
fn collect_vertex_loci(
    constraints: &Vec<Constraint>,
    rs: &Vec<Role>,
    drawing_manager: &DrawingManager,
    vh: VertexHandle,
    fixed_pos: &Pos2,
) -> (r: Result<Vec<ConstraintPath>, ConstraintError>)
    requires
        rs@.len() == constraints@.len(),
    ensures
        match vertex_loci(constraints@, rs@, drawing_manager@, vh, *fixed_pos) {
            Ok(loci) => r is Ok && r->Ok_0@ == loci && all_wf(loci),
            Err(e) => r is Err && r->Err_0 == e,
        },
{
    let mut constraint_paths: Vec<ConstraintPath> = Vec::new();
    match collect_loci(
        &mut constraint_paths,
        constraints,
        rs,
        Role::LengthEnd,
        drawing_manager,
        vh,
        fixed_pos,
    ) {
        Ok(()) => {},
        Err(e) => {
            return Err(e);
        },
    }
    match collect_loci(
        &mut constraint_paths,
        constraints,
        rs,
        Role::AngleEnd,
        drawing_manager,
        vh,
        fixed_pos,
    ) {
        Ok(()) => {},
        Err(e) => {
            return Err(e);
        },
    }
    match collect_loci(
        &mut constraint_paths,
        constraints,
        rs,
        Role::AngleCenter,
        drawing_manager,
        vh,
        fixed_pos,
    ) {
        Ok(()) => {},
        Err(e) => {
            return Err(e);
        },
    }
    match collect_loci(
        &mut constraint_paths,
        constraints,
        rs,
        Role::ParallelEnd,
        drawing_manager,
        vh,
        fixed_pos,
    ) {
        Ok(()) => {},
        Err(e) => {
            return Err(e);
        },
    }
    Ok(constraint_paths)
}

/// Resolves a drag of the vertex `vh` under the constraints `constraints`
/// without those in `ignore`.
fn solve_vertex(
    constraints: &Vec<Constraint>,
    drawing_manager: &DrawingManager,
    vh: VertexHandle,
    fixed_pos: &Pos2,
    try_pos: &Pos2,
    ignore: &Vec<ConstraintHandle>,
) -> (r: Result<SolverResponse, ConstraintError>)
    ensures
        r == solve_for_vertex_spec(
            constraints@,
            drawing_manager@,
            vh,
            *fixed_pos,
            *try_pos,
            ignore@,
        ),
        r matches Ok(response) ==> (response.valid_path matches Some(path) ==> path.wf()),
{
    let (rs, any) = match classify_all(constraints, drawing_manager, vh, ignore) {
        Ok(found) => found,
        Err(e) => {
            return Err(e);
        },
    };
    if !any {
        return Ok(
            SolverResponse { state: SolverState::Free, valid_path: None, new_pos: Some(*try_pos) },
        );
    }
    match check_hard_lock(constraints, &rs, drawing_manager) {
        Err(e) => {
            return Err(e);
        },
        Ok(true) => {
            return Ok(SolverResponse::locked());
        },
        Ok(false) => {},
    }
    let constraint_paths = match collect_vertex_loci(
        constraints,
        &rs,
        drawing_manager,
        vh,
        fixed_pos,
    ) {
        Ok(paths) => paths,
        Err(e) => {
            return Err(e);
        },
    };
    match intersect_paths(constraint_paths) {
        Some(vp) => {
            if !try_pos.is_in_range() {
                return Err(ConstraintError::PositionOutOfRange);
            }
            let adjusted_pt: Pos2 = vp.closest_point(try_pos);
            Ok(
                SolverResponse {
                    state: SolverState::Partial,
                    valid_path: Some(vp),
                    new_pos: Some(adjusted_pt),
                },
            )
        },
        None => Ok(SolverResponse::locked()),
    }
}

/// The outcome of an edge drag.
#[derive(Debug, PartialEq, Eq)]
pub struct EdgeSolverResponse {
    pub state: SolverState,
    /// The loci along which the end points can move, where the state is
    /// `Partial`.
    pub valid_paths: Option<Vec<ConstraintPath>>,
    /// Where the start point and the end point go; nothing where the state
    /// is `Locked`.
    pub new_pos: Option<[Pos2; 2]>,
}

/// What an edge drag returns, as a value.
#[verifier::ext_equal]
pub struct EdgeOutcome {
    pub state: SolverState,
    pub valid_paths: Option<Seq<ConstraintPath>>,
    pub new_pos: Option<(Pos2, Pos2)>,
}

impl View for EdgeSolverResponse {
    type V = EdgeOutcome;

    open spec fn view(&self) -> EdgeOutcome {
        EdgeOutcome {
            state: self.state,
            valid_paths: match self.valid_paths {
                Some(paths) => Some(paths@),
                None => None,
            },
            new_pos: match self.new_pos {
                Some(ends) => Some((ends@[0], ends@[1])),
                None => None,
            },
        }
    }
}

impl EdgeOutcome {
    /// The outcome of a drag that cannot move the edge.
    pub open spec fn locked() -> EdgeOutcome {
        EdgeOutcome { state: SolverState::Locked, valid_paths: None, new_pos: None }
    }

    /// The outcome of a drag that no constraint holds back: both end points
    /// go where they are asked to.
    pub open spec fn free(v1_try_pos: Pos2, v2_try_pos: Pos2) -> EdgeOutcome {
        EdgeOutcome {
            state: SolverState::Free,
            valid_paths: None,
            new_pos: Some((v1_try_pos, v2_try_pos)),
        }
    }

    /// The outcome of a drag that moves the end points to `v1_pos` and
    /// `v2_pos` along the loci `paths`.
    pub open spec fn partial(paths: Seq<ConstraintPath>, v1_pos: Pos2, v2_pos: Pos2) -> EdgeOutcome {
        EdgeOutcome {
            state: SolverState::Partial,
            valid_paths: Some(paths),
            new_pos: Some((v1_pos, v2_pos)),
        }
    }
}

impl Default for EdgeSolverResponse {
    fn default() -> (r: EdgeSolverResponse)
        ensures
            r@ == (EdgeOutcome { state: SolverState::Free, valid_paths: None, new_pos: None }),
    {
        EdgeSolverResponse { state: SolverState::Free, valid_paths: None, new_pos: None }
    }
}

impl EdgeSolverResponse {
    /// The response to a drag that cannot move the edge.
    pub fn locked() -> (r: EdgeSolverResponse)
        ensures
            r@ == EdgeOutcome::locked(),
    {
        EdgeSolverResponse { state: SolverState::Locked, valid_paths: None, new_pos: None }
    }
}

/// The point in which the line meets the locus `path`: for a circle, the
/// crossing further along the line. Nothing where they do not meet, where
/// the point lies outside the coordinate range, and for a locus that is a
/// single point.
pub open spec fn line_hit(line: Line, path: ConstraintPath) -> Option<Pos2> {
    match path {
        ConstraintPath::Line(l2) => match intersection_spec(
            line.origin,
            line.direction,
            false,
            l2.origin,
            l2.direction,
            false,
        ) {
            Some(p) => Some(p.origin),
            None => None,
        },
        ConstraintPath::Ray(r) => match intersection_spec(
            line.origin,
            line.direction,
            false,
            r.origin,
            r.direction,
            true,
        ) {
            Some(p) => Some(p.origin),
            None => None,
        },
        ConstraintPath::Circle(c) => if circle_hits(line.origin, line.direction, false, c).len()
            == 0 {
            None
        } else {
            Some(circle_hits(line.origin, line.direction, false, c)[0].origin)
        },
        ConstraintPath::Point(_) => None,
    }
}

/// The line of a dragged edge: through `try_pos`, along the edge `eh` as it
/// stands in the sketch.
pub open spec fn edge_line(dm: Drawing, eh: EdgeHandle, try_pos: Pos2) -> Result<
    Line,
    ConstraintError,
> {
    match dm.edge_direction(eh) {
        Err(e) => Err(ConstraintError::of_drawing(e)),
        Ok(d) => if !try_pos.in_range() {
            Err(ConstraintError::PositionOutOfRange)
        } else {
            Ok(Line { origin: try_pos, direction: d })
        },
    }
}

/// Where an end point that was at `fixed_pos` goes when the other end point
/// of its edge moves from `other_fixed_pos` to `other_new_pos` and the edge
/// keeps its shape.
pub open spec fn carried(fixed_pos: Pos2, other_fixed_pos: Pos2, other_new_pos: Pos2) -> Pos2 {
    Pos2 {
        x: (fixed_pos.x + (other_new_pos.x - other_fixed_pos.x)) as i64,
        y: (fixed_pos.y + (other_new_pos.y - other_fixed_pos.y)) as i64,
    }
}

/// Where the end points of an edge go of which one is free and the other is
/// held on the locus `path`: the held one to the point in which the line of
/// the edge meets its locus, or to the origin of the plane where they do not
/// meet, and the free one along with it. The free end point comes first.
pub open spec fn drag_held_end(line: Line, path: ConstraintPath, free_fixed_pos: Pos2, held_fixed_pos: Pos2) -> Result<
    (Pos2, Pos2),
    ConstraintError,
> {
    if !free_fixed_pos.in_range() || !held_fixed_pos.in_range() {
        Err(ConstraintError::PositionOutOfRange)
    } else {
        match line_hit(line, path) {
            Some(p) => Ok((carried(free_fixed_pos, held_fixed_pos, p), p)),
            None => Ok(
                (
                    carried(free_fixed_pos, held_fixed_pos, Pos2 { x: 0, y: 0 }),
                    Pos2 { x: 0, y: 0 },
                ),
            ),
        }
    }
}

/// The outcome of an edge drag whose end points are resolved to `r1` and
/// `r2`, and of which neither is locked nor both are free.
pub open spec fn join_held_ends(
    line: Line,
    r1: SolverResponse,
    r2: SolverResponse,
    v1_fixed_pos: Pos2,
    v2_fixed_pos: Pos2,
) -> Result<EdgeOutcome, ConstraintError> {
    if r1.state == SolverState::Free {
        match r2.valid_path {
            None => Ok(EdgeOutcome::locked()),
            Some(path_2) => match drag_held_end(line, path_2, v1_fixed_pos, v2_fixed_pos) {
                Err(e) => Err(e),
                Ok((p1, p2)) => Ok(EdgeOutcome::partial(seq![path_2], p1, p2)),
            },
        }
    } else if r2.state == SolverState::Free {
        match r1.valid_path {
            None => Ok(EdgeOutcome::locked()),
            Some(path_1) => match drag_held_end(line, path_1, v2_fixed_pos, v1_fixed_pos) {
                Err(e) => Err(e),
                Ok((p2, p1)) => Ok(EdgeOutcome::partial(seq![path_1], p1, p2)),
            },
        }
    } else {
        match (r1.valid_path, r2.valid_path) {
            (Some(path_1), Some(path_2)) => match (line_hit(line, path_1), line_hit(line, path_2)) {
                (Some(p1), Some(p2)) => Ok(EdgeOutcome::partial(seq![path_1, path_2], p1, p2)),
                _ => Ok(EdgeOutcome::locked()),
            },
            _ => Ok(EdgeOutcome::locked()),
        }
    }
}

/// The outcome of an edge drag whose end points are resolved to `r1` and
/// `r2`.
///
/// The edge is locked if an end point is, and free if both are. Otherwise
/// each end point that is held goes to the point in which the line of the
/// edge meets its locus. A free end point follows the held one. Where both
/// are held and one of the meeting points is missing, the edge is locked.
pub open spec fn join_ends(
    dm: Drawing,
    eh: EdgeHandle,
    try_pos: Pos2,
    r1: SolverResponse,
    r2: SolverResponse,
    v1_fixed_pos: Pos2,
    v1_try_pos: Pos2,
    v2_fixed_pos: Pos2,
    v2_try_pos: Pos2,
) -> Result<EdgeOutcome, ConstraintError> {
    if r1.state == SolverState::Locked || r2.state == SolverState::Locked {
        Ok(EdgeOutcome::locked())
    } else if r1.state == SolverState::Free && r2.state == SolverState::Free {
        Ok(EdgeOutcome::free(v1_try_pos, v2_try_pos))
    } else {
        match edge_line(dm, eh, try_pos) {
            Err(e) => Err(e),
            Ok(line) => join_held_ends(line, r1, r2, v1_fixed_pos, v2_fixed_pos),
        }
    }
}

/// The outcome of a drag of the edge `eh` that asks its line to pass through
/// `try_pos` and its end points to go from `v1_fixed_pos` to `v1_try_pos`
/// and from `v2_fixed_pos` to `v2_try_pos`.
///
/// Each end point is resolved as a vertex drag that leaves out the
/// constraints anchored on the edge itself; `join_ends` combines the two.
pub open spec fn solve_for_edge_spec(
    cs: Seq<Constraint>,
    dm: Drawing,
    eh: EdgeHandle,
    try_pos: Pos2,
    v1_fixed_pos: Pos2,
    v1_try_pos: Pos2,
    v2_fixed_pos: Pos2,
    v2_try_pos: Pos2,
) -> Result<EdgeOutcome, ConstraintError> {
    if !dm.has_edge(eh) {
        Err(ConstraintError::EdgeNotFound(eh))
    } else {
        match solve_for_vertex_spec(
            cs,
            dm,
            dm.edges[eh as int].start_point_vh,
            v1_fixed_pos,
            v1_try_pos,
            dm.edges[eh as int].constraints,
        ) {
            Err(e) => Err(e),
            Ok(r1) => match solve_for_vertex_spec(
                cs,
                dm,
                dm.edges[eh as int].end_point_vh,
                v2_fixed_pos,
                v2_try_pos,
                dm.edges[eh as int].constraints,
            ) {
                Err(e) => Err(e),
                Ok(r2) => join_ends(
                    dm,
                    eh,
                    try_pos,
                    r1,
                    r2,
                    v1_fixed_pos,
                    v1_try_pos,
                    v2_fixed_pos,
                    v2_try_pos,
                ),
            },
        }
    }
}

/// The point in which a line meets a locus.
pub fn hit_on_line(line: &Line, path: &ConstraintPath) -> (r: Option<Pos2>)
    requires
        line.wf(),
        path.wf(),
    ensures
        r == line_hit(*line, *path),
        r is Some ==> r->0.in_range(),
{
    match path {
        ConstraintPath::Line(l2) => {
            match line_line_intersection(line, l2) {
                Some(inter) => Some(inter.origin),
                None => None,
            }
        },
        ConstraintPath::Ray(r) => {
            match line_ray_intersection(line, r) {
                Some(inter) => Some(inter.origin),
                None => None,
            }
        },
        ConstraintPath::Circle(c) => {
            let valid_points = line_circle_intersection(line, c);
            if valid_points.len() == 0 {
                None
            } else {
                Some(valid_points[0].origin)
            }
        },
        ConstraintPath::Point(_) => None,
    }
}

/// Where the end points of an edge go of which one is free and the other is
/// held on the locus `path`.
fn move_held_end(line: &Line, path: &ConstraintPath, free_fixed_pos: &Pos2, held_fixed_pos: &Pos2) -> (r:
    Result<(Pos2, Pos2), ConstraintError>)
    requires
        line.wf(),
        path.wf(),
    ensures
        r == drag_held_end(*line, *path, *free_fixed_pos, *held_fixed_pos),
{
    if !free_fixed_pos.is_in_range() || !held_fixed_pos.is_in_range() {
        return Err(ConstraintError::PositionOutOfRange);
    }
    let held: Pos2 = match hit_on_line(line, path) {
        Some(inter) => inter,
        None => Pos2 { x: 0, y: 0 },
    };
    let free: Pos2 = Pos2 {
        x: free_fixed_pos.x + (held.x - held_fixed_pos.x),
        y: free_fixed_pos.y + (held.y - held_fixed_pos.y),
    };
    Ok((free, held))
}

/// The line of a dragged edge.
fn line_of_edge(drawing_manager: &DrawingManager, eh: EdgeHandle, try_pos: &Pos2) -> (r: Result<
    Line,
    ConstraintError,
>)
    ensures
        r == edge_line(drawing_manager@, eh, *try_pos),
        r is Ok ==> r->Ok_0.wf(),
{
    let direction: Vec2 = match Edge::direction_from_handle(
        drawing_manager,
        eh,
    ) {
        Ok(d) => d,
        Err(e) => {
            return Err(ConstraintError::from_drawing(e));
        },
    };
    if !try_pos.is_in_range() {
        return Err(ConstraintError::PositionOutOfRange);
    }
    Ok(Line { origin: *try_pos, direction })
}

/// The response to an edge drag that moves the end points along `paths`.
fn partial_response(paths: Vec<ConstraintPath>, v1_pos: Pos2, v2_pos: Pos2) -> (r:
    EdgeSolverResponse)
    ensures
        r@ == EdgeOutcome::partial(paths@, v1_pos, v2_pos),
{
    EdgeSolverResponse {
        state: SolverState::Partial,
        valid_paths: Some(paths),
        new_pos: Some([v1_pos, v2_pos]),
    }
}

/// Combines the outcomes for the two end points of a dragged edge of which
/// neither is locked nor both are free.
fn join_held(
    line: &Line,
    r1: &SolverResponse,
    r2: &SolverResponse,
    v1_fixed_pos: &Pos2,
    v2_fixed_pos: &Pos2,
) -> (r: Result<EdgeSolverResponse, ConstraintError>)
    requires
        line.wf(),
        r1.valid_path matches Some(path) ==> path.wf(),
        r2.valid_path matches Some(path) ==> path.wf(),
    ensures
        match join_held_ends(*line, *r1, *r2, *v1_fixed_pos, *v2_fixed_pos) {
            Ok(outcome) => r is Ok && r->Ok_0@ == outcome,
            Err(e) => r is Err && r->Err_0 == e,
        },
{
    if r1.state == SolverState::Free {
        let valid_path_2: ConstraintPath = match r2.valid_path {
            Some(path) => path,
            None => {
                return Ok(EdgeSolverResponse::locked());
            },
        };
        match move_held_end(line, &valid_path_2, v1_fixed_pos, v2_fixed_pos) {
            Err(e) => Err(e),
            Ok((new_pt_1, new_pt_2)) => {
                let mut all_valid_paths: Vec<ConstraintPath> = Vec::new();
                all_valid_paths.push(valid_path_2);
                Ok(partial_response(all_valid_paths, new_pt_1, new_pt_2))
            },
        }
    } else if r2.state == SolverState::Free {
        let valid_path_1: ConstraintPath = match r1.valid_path {
            Some(path) => path,
            None => {
                return Ok(EdgeSolverResponse::locked());
            },
        };
        match move_held_end(line, &valid_path_1, v2_fixed_pos, v1_fixed_pos) {
            Err(e) => Err(e),
            Ok((new_pt_2, new_pt_1)) => {
                let mut all_valid_paths: Vec<ConstraintPath> = Vec::new();
                all_valid_paths.push(valid_path_1);
                Ok(partial_response(all_valid_paths, new_pt_1, new_pt_2))
            },
        }
    } else {
        let valid_path_1: ConstraintPath = match r1.valid_path {
            Some(path) => path,
            None => {
                return Ok(EdgeSolverResponse::locked());
            },
        };
        let valid_path_2: ConstraintPath = match r2.valid_path {
            Some(path) => path,
            None => {
                return Ok(EdgeSolverResponse::locked());
            },
        };
        let new_pt_1: Pos2 = match hit_on_line(line, &valid_path_1) {
            Some(inter) => inter,
            None => {
                return Ok(EdgeSolverResponse::locked());
            },
        };
        let new_pt_2: Pos2 = match hit_on_line(line, &valid_path_2) {
            Some(inter) => inter,
            None => {
                return Ok(EdgeSolverResponse::locked());
            },
        };
        let mut all_valid_paths: Vec<ConstraintPath> = Vec::new();
        all_valid_paths.push(valid_path_1);
        all_valid_paths.push(valid_path_2);
        Ok(partial_response(all_valid_paths, new_pt_1, new_pt_2))
    }
}

impl ConstraintManager {
    /// Resolves a drag of the vertex `vh` from `fixed_pos`, where it was
    /// when the drag began, towards `try_pos`. The constraints in
    /// `constraints_to_ignore` are left out.
    pub fn solve_for_vertex(
        &self,
        drawing_manager: &DrawingManager,
        vh: VertexHandle,
        fixed_pos: &Pos2,
        try_pos: &Pos2,
        constraints_to_ignore: Vec<ConstraintHandle>,
    ) -> (r: Result<SolverResponse, ConstraintError>)
        ensures
            r == solve_for_vertex_spec(
                self@,
                drawing_manager@,
                vh,
                *fixed_pos,
                *try_pos,
                constraints_to_ignore@,
            ),
            r matches Ok(response) ==> (response.valid_path matches Some(path) ==> path.wf()),
    {
        solve_vertex(
            self.constraints(),
            drawing_manager,
            vh,
            fixed_pos,
            try_pos,
            &constraints_to_ignore,
        )
    }

    /// Resolves a drag of the edge `eh` as a whole. The pointer was at
    /// `_fixed_pos` when the drag began and is at `try_pos` now; the end
    /// points were at `v1_fixed_pos` and `v2_fixed_pos` and are asked to go
    /// to `v1_try_pos` and `v2_try_pos`.
    pub fn solve_for_edge(
        &self,
        drawing_manager: &DrawingManager,
        eh: EdgeHandle,
        _fixed_pos: &Pos2,
        try_pos: &Pos2,
        v1_fixed_pos: &Pos2,
        v1_try_pos: &Pos2,
        v2_fixed_pos: &Pos2,
        v2_try_pos: &Pos2,
    ) -> (r: Result<EdgeSolverResponse, ConstraintError>)
        ensures
            match solve_for_edge_spec(
                self@,
                drawing_manager@,
                eh,
                *try_pos,
                *v1_fixed_pos,
                *v1_try_pos,
                *v2_fixed_pos,
                *v2_try_pos,
            ) {
                Ok(outcome) => r is Ok && r->Ok_0@ == outcome,
                Err(e) => r is Err && r->Err_0 == e,
            },
    {
        let edge = match drawing_manager.get_edge(eh) {
            Ok(edge) => edge,
            Err(e) => {
                return Err(ConstraintError::from_drawing(e));
            },
        };
        let constraints = self.constraints();
        let vert_response_1 = match solve_vertex(
            constraints,
            drawing_manager,
            edge.start_point_vh,
            v1_fixed_pos,
            v1_try_pos,
            &edge.constraints,
        ) {
            Ok(response) => response,
            Err(e) => {
                return Err(e);
            },
        };
        let vert_response_2 = match solve_vertex(
            constraints,
            drawing_manager,
            edge.end_point_vh,
            v2_fixed_pos,
            v2_try_pos,
            &edge.constraints,
        ) {
            Ok(response) => response,
            Err(e) => {
                return Err(e);
            },
        };
        if vert_response_1.state == SolverState::Locked || vert_response_2.state
            == SolverState::Locked {
            return Ok(EdgeSolverResponse::locked());
        }
        if vert_response_1.state == SolverState::Free && vert_response_2.state
            == SolverState::Free {
            return Ok(
                EdgeSolverResponse {
                    state: SolverState::Free,
                    valid_paths: None,
                    new_pos: Some([*v1_try_pos, *v2_try_pos]),
                },
            );
        }
        let edge_line: Line = match line_of_edge(drawing_manager, eh, try_pos) {
            Ok(line) => line,
            Err(e) => {
                return Err(e);
            },
        };
        join_held(&edge_line, &vert_response_1, &vert_response_2, v1_fixed_pos, v2_fixed_pos)
    }
}

} // verus!
