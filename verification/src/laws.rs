//! What holds of every drag: the laws of the solver, stated over the
//! functions that say what a drag returns.

use vstd::prelude::*;
use crate::accuracy::{
    law_circle_hits_are_on_both, law_closest_point_is_on_locus, law_meeting_point_is_ahead,
    law_meeting_point_is_on_both, lemma_circle_point_distance, lemma_dist_sq_nonnegative,
    lemma_foot_near_line, lemma_lengths_within_widens, lemma_near_parallel_line,
    lemma_sqrt_le_plus, lengths_within, on_locus, sqrt_le_plus,
};
use crate::arith::{lemma_floor_sqrt_is_root, lemma_square_le_implies_le, TOLERANCE};
use crate::constraint_manager::{
    catalogue_valid_for, Constraint, ConstraintError, ParallelConstraint,
};
use crate::drawing_manager::{ConstraintHandle, Drawing, EdgeHandle, VertexHandle};
use crate::geometry::Pos2;
use crate::intersection::{fold_paths, intersect_paths_spec};
use crate::locus::{near_line, Circle, ConstraintPath, Line};
use crate::solver::{
    all_wf, circle_locus, edge_line, hard_lock, is_ignored, lemma_roles_len, line_hit,
    loci_of_role, locks_at, locus_of, parallel_locus, pivot_locked, resolve, role_at, role_of,
    roles, solve_for_edge_spec, solve_for_vertex_spec, touched, vertex_loci, EdgeOutcome, Role,
    SolverResponse, SolverState,
};

verus! {

/// No constraint, apart from those left out, touches the vertex `vh`.
pub open spec fn untouched(
    cs: Seq<Constraint>,
    dm: Drawing,
    vh: VertexHandle,
    ignore: Seq<ConstraintHandle>,
) -> bool {
    forall|ch: int|
        0 <= ch < cs.len() ==> #[trigger] role_at(cs, dm, vh, ignore, ch) == Ok::<
            Role,
            ConstraintError,
        >(Role::Unrelated)
}

/// Constraints that do not touch a vertex give it no role.
proof fn lemma_untouched_roles(
    cs: Seq<Constraint>,
    dm: Drawing,
    vh: VertexHandle,
    ignore: Seq<ConstraintHandle>,
    n: nat,
)
    requires
        n <= cs.len(),
        untouched(cs, dm, vh, ignore),
    ensures
        roles(cs, dm, vh, ignore, n) is Ok,
        !touched(roles(cs, dm, vh, ignore, n)->Ok_0),
    decreases n,
{
    if n > 0 {
        lemma_untouched_roles(cs, dm, vh, ignore, (n - 1) as nat);
        lemma_roles_len(cs, dm, vh, ignore, (n - 1) as nat);
        assert(role_at(cs, dm, vh, ignore, n - 1) == Ok::<Role, ConstraintError>(Role::Unrelated));
        let before = roles(cs, dm, vh, ignore, (n - 1) as nat)->Ok_0;
        let after = roles(cs, dm, vh, ignore, n)->Ok_0;
        assert(after == before.push(Role::Unrelated));
        if touched(after) {
            let i = choose|i: int| 0 <= i < after.len() && #[trigger] after[i] != Role::Unrelated;
            assert(before[i] != Role::Unrelated);
        }
    }
}

/// Free invariance, for a vertex: a vertex that no constraint touches is
/// free, and goes exactly where the drag asks.
pub proof fn law_untouched_vertex_is_free(
    cs: Seq<Constraint>,
    dm: Drawing,
    vh: VertexHandle,
    fixed_pos: Pos2,
    try_pos: Pos2,
    ignore: Seq<ConstraintHandle>,
)
    requires
        untouched(cs, dm, vh, ignore),
    ensures
        solve_for_vertex_spec(cs, dm, vh, fixed_pos, try_pos, ignore) == Ok::<
            SolverResponse,
            ConstraintError,
        >(SolverResponse::free_spec(try_pos)),
        SolverResponse::free_spec(try_pos).state == SolverState::Free,
        SolverResponse::free_spec(try_pos).new_pos == Some(try_pos),
{
    lemma_untouched_roles(cs, dm, vh, ignore, cs.len());
}

/// Free invariance, for an edge: an edge whose end points no constraint
/// touches, apart from the constraints anchored on the edge itself, is free,
/// and both end points go exactly where the drag asks.
pub proof fn law_untouched_edge_is_free(
    cs: Seq<Constraint>,
    dm: Drawing,
    eh: EdgeHandle,
    try_pos: Pos2,
    v1_fixed_pos: Pos2,
    v1_try_pos: Pos2,
    v2_fixed_pos: Pos2,
    v2_try_pos: Pos2,
)
    requires
        dm.has_edge(eh),
        untouched(cs, dm, dm.edges[eh as int].start_point_vh, dm.edges[eh as int].constraints),
        untouched(cs, dm, dm.edges[eh as int].end_point_vh, dm.edges[eh as int].constraints),
    ensures
        solve_for_edge_spec(
            cs,
            dm,
            eh,
            try_pos,
            v1_fixed_pos,
            v1_try_pos,
            v2_fixed_pos,
            v2_try_pos,
        ) == Ok::<EdgeOutcome, ConstraintError>(EdgeOutcome::free(v1_try_pos, v2_try_pos)),
        EdgeOutcome::free(v1_try_pos, v2_try_pos).state == SolverState::Free,
        EdgeOutcome::free(v1_try_pos, v2_try_pos).new_pos == Some((v1_try_pos, v2_try_pos)),
{
    let edge = dm.edges[eh as int];
    law_untouched_vertex_is_free(
        cs,
        dm,
        edge.start_point_vh,
        v1_fixed_pos,
        v1_try_pos,
        edge.constraints,
    );
    law_untouched_vertex_is_free(cs, dm, edge.end_point_vh, v2_fixed_pos, v2_try_pos, edge.constraints);
}

/// Where no constraint among the first fixes the vertex, none of them does
/// on its own.
proof fn lemma_no_lock_means_none_locks(
    cs: Seq<Constraint>,
    rs: Seq<Role>,
    dm: Drawing,
    n: nat,
    ch: int,
)
    requires
        0 <= ch < n,
        hard_lock(cs, rs, dm, n) == Ok::<bool, ConstraintError>(false),
    ensures
        locks_at(cs, rs, dm, ch) == Ok::<bool, ConstraintError>(false),
    decreases n,
{
    if ch < n - 1 {
        lemma_no_lock_means_none_locks(cs, rs, dm, (n - 1) as nat, ch);
    }
}

/// Angle lock: the pivot of an angle constraint whose edges do not lie
/// along one line, within the angular tolerance, cannot be dragged. Unless
/// the drag fails, it is locked.
pub proof fn law_bent_pivot_is_locked(
    cs: Seq<Constraint>,
    dm: Drawing,
    ch: int,
    fixed_pos: Pos2,
    try_pos: Pos2,
    ignore: Seq<ConstraintHandle>,
)
    requires
        0 <= ch < cs.len(),
        cs[ch] is ANGLE,
        !is_ignored(ignore, ch),
        pivot_locked(cs[ch]->ANGLE_0, dm) == Ok::<bool, ConstraintError>(true),
    ensures
        solve_for_vertex_spec(
            cs,
            dm,
            cs[ch]->ANGLE_0.pivot_vert_handle,
            fixed_pos,
            try_pos,
            ignore,
        ) matches Ok(response) ==> response == SolverResponse::locked_spec(),
{
    let a = cs[ch]->ANGLE_0;
    let vh = a.pivot_vert_handle;
    let all = roles(cs, dm, vh, ignore, cs.len());
    if all is Ok {
        let rs = all->Ok_0;
        lemma_roles_len(cs, dm, vh, ignore, cs.len());
        assert(role_at(cs, dm, vh, ignore, ch) == Ok::<Role, ConstraintError>(rs[ch]));
        assert(rs[ch] == Role::AngleCenter);
        assert(touched(rs));
        if hard_lock(cs, rs, dm, cs.len()) == Ok::<bool, ConstraintError>(false) {
            lemma_no_lock_means_none_locks(cs, rs, dm, cs.len(), ch);
        }
    }
}

/// Constraints of other roles give no locus of the role asked for.
proof fn lemma_no_role_no_locus(
    cs: Seq<Constraint>,
    rs: Seq<Role>,
    role: Role,
    dm: Drawing,
    vh: VertexHandle,
    fixed_pos: Pos2,
    n: nat,
)
    requires
        forall|j: int| 0 <= j < n ==> rs[j] != role,
    ensures
        loci_of_role(cs, rs, role, dm, vh, fixed_pos, n) == Ok::<
            Seq<ConstraintPath>,
            ConstraintError,
        >(Seq::empty()),
    decreases n,
{
    if n > 0 {
        lemma_no_role_no_locus(cs, rs, role, dm, vh, fixed_pos, (n - 1) as nat);
    }
}

/// The first locus of a role is that of the first constraint in that role.
proof fn lemma_first_locus_of_role(
    cs: Seq<Constraint>,
    rs: Seq<Role>,
    role: Role,
    dm: Drawing,
    vh: VertexHandle,
    fixed_pos: Pos2,
    n: nat,
    ch: int,
)
    requires
        0 <= ch < n,
        rs[ch] == role,
        forall|j: int| 0 <= j < ch ==> rs[j] != role,
        loci_of_role(cs, rs, role, dm, vh, fixed_pos, n) is Ok,
    ensures
        loci_of_role(cs, rs, role, dm, vh, fixed_pos, n)->Ok_0.len() >= 1,
        locus_of(cs[ch], dm, vh, fixed_pos) == Ok::<ConstraintPath, ConstraintError>(
            loci_of_role(cs, rs, role, dm, vh, fixed_pos, n)->Ok_0[0],
        ),
    decreases n,
{
    if ch == n - 1 {
        lemma_no_role_no_locus(cs, rs, role, dm, vh, fixed_pos, (n - 1) as nat);
    } else {
        lemma_first_locus_of_role(cs, rs, role, dm, vh, fixed_pos, (n - 1) as nat, ch);
    }
}

/// A circle at the front of the loci survives them all, or nothing does.
proof fn lemma_fold_keeps_circle(paths: Seq<ConstraintPath>, n: nat)
    requires
        1 <= n <= paths.len(),
        paths[0] is Circle,
        fold_paths(paths, n) is Some,
    ensures
        fold_paths(paths, n) == Some(paths[0]),
    decreases n,
{
    if n > 1 {
        lemma_fold_keeps_circle(paths, (n - 1) as nat);
    }
}

/// The distance of two positions in range is at most twice the span.
proof fn lemma_dist_bound(a: Pos2, b: Pos2)
    requires
        a.in_range(),
        b.in_range(),
    ensures
        0 <= a.dist(b) <= 2_000_000_000,
        a.dist(b) * a.dist(b) <= a.dist_sq(b) < (a.dist(b) + 1) * (a.dist(b) + 1),
{
    let dx = b.x - a.x;
    let dy = b.y - a.y;
    assert(0 <= dx * dx <= 1_000_000_000 * 1_000_000_000) by (nonlinear_arith)
        requires
            -1_000_000_000 <= dx <= 1_000_000_000,
    ;
    assert(0 <= dy * dy <= 1_000_000_000 * 1_000_000_000) by (nonlinear_arith)
        requires
            -1_000_000_000 <= dy <= 1_000_000_000,
    ;
    lemma_floor_sqrt_is_root(a.dist_sq(b));
    let r = a.dist(b);
    assert(r * r <= 2_000_000_000 * 2_000_000_000);
    lemma_square_le_implies_le(r, 2_000_000_000);
}

/// Length invariance: a drag keeps an edge of fixed length at the length it
/// had when the drag began, within the distance tolerance.
///
/// The vertex `vh` is an end point of the edge of the length constraint
/// `ch`, which is the first length constraint that touches it. Where the
/// drag moves the vertex along a locus, the new position is as far from the
/// other end point of the edge as `fixed_pos` is, within `TOLERANCE` steps.
///
/// A later length constraint on the same vertex is not kept: two circles
/// are never reduced, and the first one stays the locus.
pub proof fn law_length_invariance(
    cs: Seq<Constraint>,
    dm: Drawing,
    vh: VertexHandle,
    fixed_pos: Pos2,
    try_pos: Pos2,
    ignore: Seq<ConstraintHandle>,
    ch: int,
)
    requires
        0 <= ch < cs.len(),
        cs[ch] is LENGTH,
        role_at(cs, dm, vh, ignore, ch) == Ok::<Role, ConstraintError>(Role::LengthEnd),
        forall|j: int|
            0 <= j < ch ==> #[trigger] role_at(cs, dm, vh, ignore, j) != Ok::<
                Role,
                ConstraintError,
            >(Role::LengthEnd),
        solve_for_vertex_spec(cs, dm, vh, fixed_pos, try_pos, ignore) is Ok,
        solve_for_vertex_spec(cs, dm, vh, fixed_pos, try_pos, ignore)->Ok_0.state
            == SolverState::Partial,
    ensures
        ({
            let response = solve_for_vertex_spec(cs, dm, vh, fixed_pos, try_pos, ignore)->Ok_0;
            let edge = dm.edges[cs[ch]->LENGTH_0.edge_handle as int];
            let centre = dm.vertices[edge.other_end(vh) as int].position;
            &&& response.new_pos is Some
            &&& lengths_within(
                centre.dist_sq(response.new_pos->0),
                fixed_pos.dist_sq(centre),
                TOLERANCE as int,
            )
        }),
{
    let n = cs.len();
    let rs = roles(cs, dm, vh, ignore, n)->Ok_0;
    lemma_roles_len(cs, dm, vh, ignore, n);
    assert(role_at(cs, dm, vh, ignore, ch) == Ok::<Role, ConstraintError>(rs[ch]));
    assert(touched(rs));
    assert forall|j: int| 0 <= j < ch implies rs[j] != Role::LengthEnd by {
        assert(role_at(cs, dm, vh, ignore, j) == Ok::<Role, ConstraintError>(rs[j]));
    }
    let all = vertex_loci(cs, rs, dm, vh, fixed_pos);
    let loci = all->Ok_0;
    let circles = loci_of_role(cs, rs, Role::LengthEnd, dm, vh, fixed_pos, n);
    assert(circles is Ok);
    lemma_first_locus_of_role(cs, rs, Role::LengthEnd, dm, vh, fixed_pos, n, ch);
    let l = cs[ch]->LENGTH_0;
    let circle = circles->Ok_0[0];
    assert(circle_locus(dm, l.edge_handle, vh, fixed_pos) == Ok::<ConstraintPath, ConstraintError>(
        circle,
    ));
    assert(loci[0] == circle);
    let survivor = intersect_paths_spec(loci);
    assert(survivor is Some);
    lemma_fold_keeps_circle(loci, loci.len());
    assert(survivor == Some(circle));
    let edge = dm.edges[l.edge_handle as int];
    let centre = dm.vertices[edge.other_end(vh) as int].position;
    lemma_dist_bound(fixed_pos, centre);
    let r = fixed_pos.dist(centre);
    let c = Circle { origin: centre, radius: r as i64 };
    assert(circle == ConstraintPath::Circle(c));
    let q = c.closest_point_spec(try_pos);
    lemma_circle_point_distance(c, try_pos);
    let got = centre.dist_sq(q);
    let kept = fixed_pos.dist_sq(centre);
    // sqrt got <= r <= sqrt kept
    assert(sqrt_le_plus(got, kept, TOLERANCE as int));
    // sqrt kept < r + 1 <= a + 10 with a = max(r - 9, 0), and a * a <= got
    if r <= 9 {
        assert(got >= 0) by (nonlinear_arith)
            requires
                got == (q.x - centre.x) * (q.x - centre.x) + (q.y - centre.y) * (q.y - centre.y),
        ;
        assert((r + 1) * (r + 1) <= (0 + 10) * (0 + 10)) by (nonlinear_arith)
            requires
                0 <= r <= 9,
        ;
        lemma_sqrt_le_plus(kept, got, 0, 10);
    } else {
        assert((r - 9) * (r - 9) <= got) by (nonlinear_arith)
            requires
                r * r <= got + 4 * r + 1,
                r >= 10,
        ;
        assert((r + 1) * (r + 1) == ((r - 9) + 10) * ((r - 9) + 10));
        lemma_sqrt_le_plus(kept, got, r - 9, 10);
    }
}

/// Every locus that a constraint gives is well formed.
pub proof fn lemma_locus_is_wf(c: Constraint, dm: Drawing, vh: VertexHandle, fixed_pos: Pos2)
    requires
        locus_of(c, dm, vh, fixed_pos) is Ok,
    ensures
        locus_of(c, dm, vh, fixed_pos)->Ok_0.wf(),
{
    match c {
        Constraint::LENGTH(l) => {
            let centre = dm.vertices[dm.edges[l.edge_handle as int].other_end(vh) as int].position;
            lemma_dist_bound(fixed_pos, centre);
        },
        _ => {},
    }
}

/// All loci of a role are well formed.
proof fn lemma_loci_of_role_are_wf(
    cs: Seq<Constraint>,
    rs: Seq<Role>,
    role: Role,
    dm: Drawing,
    vh: VertexHandle,
    fixed_pos: Pos2,
    n: nat,
)
    requires
        loci_of_role(cs, rs, role, dm, vh, fixed_pos, n) is Ok,
    ensures
        all_wf(loci_of_role(cs, rs, role, dm, vh, fixed_pos, n)->Ok_0),
    decreases n,
{
    if n > 0 {
        lemma_loci_of_role_are_wf(cs, rs, role, dm, vh, fixed_pos, (n - 1) as nat);
        if rs[n - 1] == role {
            lemma_locus_is_wf(cs[n - 1], dm, vh, fixed_pos);
        }
    }
}

/// The locus that survives a list of loci is one of the list.
pub proof fn law_survivor_is_an_input(paths: Seq<ConstraintPath>, n: nat)
    requires
        n <= paths.len(),
        fold_paths(paths, n) is Some,
    ensures
        exists|i: int| 0 <= i < n && paths[i] == fold_paths(paths, n)->0,
    decreases n,
{
    if n == 1 {
        assert(paths[0] == fold_paths(paths, n)->0);
    } else if n > 1 {
        law_survivor_is_an_input(paths, (n - 1) as nat);
        let i = choose|i: int| 0 <= i < n - 1 && paths[i] == fold_paths(paths, (n - 1) as nat)->0;
        let survivor = fold_paths(paths, n)->0;
        if survivor == paths[i] {
        } else {
            assert(survivor == paths[n - 1]);
        }
    }
}

/// A vertex that is moved along a locus comes to lie on that locus: the new
/// position of a drag that is neither free nor locked is, up to rounding, a
/// point of the locus that the response names.
pub proof fn law_resolved_position_is_on_locus(
    cs: Seq<Constraint>,
    dm: Drawing,
    vh: VertexHandle,
    fixed_pos: Pos2,
    try_pos: Pos2,
    ignore: Seq<ConstraintHandle>,
)
    requires
        solve_for_vertex_spec(cs, dm, vh, fixed_pos, try_pos, ignore) is Ok,
        solve_for_vertex_spec(cs, dm, vh, fixed_pos, try_pos, ignore)->Ok_0.state
            == SolverState::Partial,
    ensures
        ({
            let response = solve_for_vertex_spec(cs, dm, vh, fixed_pos, try_pos, ignore)->Ok_0;
            &&& response.valid_path is Some
            &&& response.new_pos is Some
            &&& response.valid_path->0.wf()
            &&& on_locus(response.valid_path->0, response.new_pos->0)
        }),
{
    let n = cs.len();
    let rs = roles(cs, dm, vh, ignore, n)->Ok_0;
    let loci = vertex_loci(cs, rs, dm, vh, fixed_pos)->Ok_0;
    lemma_loci_of_role_are_wf(cs, rs, Role::LengthEnd, dm, vh, fixed_pos, n);
    lemma_loci_of_role_are_wf(cs, rs, Role::AngleEnd, dm, vh, fixed_pos, n);
    lemma_loci_of_role_are_wf(cs, rs, Role::AngleCenter, dm, vh, fixed_pos, n);
    lemma_loci_of_role_are_wf(cs, rs, Role::ParallelEnd, dm, vh, fixed_pos, n);
    assert(all_wf(loci));
    law_survivor_is_an_input(loci, loci.len());
    let path = intersect_paths_spec(loci)->0;
    assert(path.wf());
    law_closest_point_is_on_locus(path, try_pos);
}

/// The three shapes of a response: a free drag names no locus and goes
/// where it is asked to, a locked drag names no locus and goes nowhere, and
/// any other names a locus and a position.
pub proof fn law_response_shape(
    cs: Seq<Constraint>,
    dm: Drawing,
    vh: VertexHandle,
    fixed_pos: Pos2,
    try_pos: Pos2,
    ignore: Seq<ConstraintHandle>,
)
    requires
        solve_for_vertex_spec(cs, dm, vh, fixed_pos, try_pos, ignore) is Ok,
    ensures
        ({
            let response = solve_for_vertex_spec(cs, dm, vh, fixed_pos, try_pos, ignore)->Ok_0;
            match response.state {
                SolverState::Free => response.valid_path is None && response.new_pos == Some(
                    try_pos,
                ),
                SolverState::Locked => response.valid_path is None && response.new_pos is None,
                SolverState::Partial => response.valid_path is Some && response.new_pos is Some,
            }
        }),
{
}

/// The point in which the line of a dragged edge meets a locus, as it is
/// computed, lies on both: within the distance tolerance of the line, on the
/// locus, and within the coordinate range.
pub proof fn law_line_hit_is_on_both(line: Line, path: ConstraintPath)
    requires
        line.wf(),
        path.wf(),
        line_hit(line, path) is Some,
    ensures
        line_hit(line, path)->0.in_range(),
        near_line(line.origin, line.direction, line_hit(line, path)->0),
        on_locus(path, line_hit(line, path)->0),
{
    match path {
        ConstraintPath::Line(l) => {
            law_meeting_point_is_on_both(
                line.origin,
                line.direction,
                false,
                l.origin,
                l.direction,
                false,
            );
        },
        ConstraintPath::Ray(r) => {
            law_meeting_point_is_on_both(
                line.origin,
                line.direction,
                false,
                r.origin,
                r.direction,
                true,
            );
            law_meeting_point_is_ahead(
                line.origin,
                line.direction,
                false,
                r.origin,
                r.direction,
                true,
            );
        },
        ConstraintPath::Circle(c) => {
            law_circle_hits_are_on_both(line.origin, line.direction, false, c, 0);
            let p = line_hit(line, path)->0;
            lemma_dist_sq_nonnegative(c.origin, p);
            assert(c.radius * c.radius >= 0) by (nonlinear_arith);
            lemma_lengths_within_widens(
                c.origin.dist_sq(p),
                c.radius * c.radius,
                6,
                TOLERANCE as int,
            );
        },
        ConstraintPath::Point(_) => {},
    }
}

/// Where a dragged edge takes its end points: each end point that is held
/// on a locus goes to a point of its locus on the line of the edge, where
/// the line meets the locus; and a free end point goes along with the held
/// one, by the same displacement.
pub proof fn law_dragged_edge_ends(
    cs: Seq<Constraint>,
    dm: Drawing,
    eh: EdgeHandle,
    try_pos: Pos2,
    v1_fixed_pos: Pos2,
    v1_try_pos: Pos2,
    v2_fixed_pos: Pos2,
    v2_try_pos: Pos2,
)
    requires
        solve_for_edge_spec(
            cs,
            dm,
            eh,
            try_pos,
            v1_fixed_pos,
            v1_try_pos,
            v2_fixed_pos,
            v2_try_pos,
        ) is Ok,
        solve_for_edge_spec(
            cs,
            dm,
            eh,
            try_pos,
            v1_fixed_pos,
            v1_try_pos,
            v2_fixed_pos,
            v2_try_pos,
        )->Ok_0.state == SolverState::Partial,
    ensures
        ({
            let outcome = solve_for_edge_spec(
                cs,
                dm,
                eh,
                try_pos,
                v1_fixed_pos,
                v1_try_pos,
                v2_fixed_pos,
                v2_try_pos,
            )->Ok_0;
            let edge = dm.edges[eh as int];
            let r1 = solve_for_vertex_spec(
                cs,
                dm,
                edge.start_point_vh,
                v1_fixed_pos,
                v1_try_pos,
                edge.constraints,
            )->Ok_0;
            let r2 = solve_for_vertex_spec(
                cs,
                dm,
                edge.end_point_vh,
                v2_fixed_pos,
                v2_try_pos,
                edge.constraints,
            )->Ok_0;
            let line = edge_line(dm, eh, try_pos)->Ok_0;
            let ends = outcome.new_pos->Some_0;
            let p1 = ends.0;
            let p2 = ends.1;
            &&& outcome.new_pos is Some
            &&& r1.state == SolverState::Partial && line_hit(line, r1.valid_path->0) is Some ==> {
                &&& p1 == line_hit(line, r1.valid_path->0)->0
                &&& p1.in_range()
                &&& near_line(line.origin, line.direction, p1)
                &&& on_locus(r1.valid_path->0, p1)
            }
            &&& r2.state == SolverState::Partial && line_hit(line, r2.valid_path->0) is Some ==> {
                &&& p2 == line_hit(line, r2.valid_path->0)->0
                &&& p2.in_range()
                &&& near_line(line.origin, line.direction, p2)
                &&& on_locus(r2.valid_path->0, p2)
            }
            &&& r1.state == SolverState::Free || r2.state == SolverState::Free ==> {
                &&& p1.x - v1_fixed_pos.x == p2.x - v2_fixed_pos.x
                &&& p1.y - v1_fixed_pos.y == p2.y - v2_fixed_pos.y
            }
        }),
{
    let edge = dm.edges[eh as int];
    let r1 = solve_for_vertex_spec(
        cs,
        dm,
        edge.start_point_vh,
        v1_fixed_pos,
        v1_try_pos,
        edge.constraints,
    )->Ok_0;
    let r2 = solve_for_vertex_spec(
        cs,
        dm,
        edge.end_point_vh,
        v2_fixed_pos,
        v2_try_pos,
        edge.constraints,
    )->Ok_0;
    let line = edge_line(dm, eh, try_pos)->Ok_0;
    assert(line.wf());
    if r1.state == SolverState::Partial {
        law_resolved_position_is_on_locus(
            cs,
            dm,
            edge.start_point_vh,
            v1_fixed_pos,
            v1_try_pos,
            edge.constraints,
        );
        if line_hit(line, r1.valid_path->0) is Some {
            law_line_hit_is_on_both(line, r1.valid_path->0);
        }
    } else {
        law_response_shape(
            cs,
            dm,
            edge.start_point_vh,
            v1_fixed_pos,
            v1_try_pos,
            edge.constraints,
        );
    }
    if r2.state == SolverState::Partial {
        law_resolved_position_is_on_locus(
            cs,
            dm,
            edge.end_point_vh,
            v2_fixed_pos,
            v2_try_pos,
            edge.constraints,
        );
        if line_hit(line, r2.valid_path->0) is Some {
            law_line_hit_is_on_both(line, r2.valid_path->0);
        }
    } else {
        law_response_shape(cs, dm, edge.end_point_vh, v2_fixed_pos, v2_try_pos, edge.constraints);
    }
}

/// The edge of the parallel constraint `p` that holds the vertex `vh`: the
/// first edge where it ends in the vertex, the second otherwise.
pub open spec fn held_edge(dm: Drawing, p: ParallelConstraint, vh: VertexHandle) -> EdgeHandle {
    if dm.edges[p.edge_1_handle as int].touches(vh) {
        p.edge_1_handle
    } else {
        p.edge_2_handle
    }
}

/// The edge of the parallel constraint `p` that is the partner of the edge
/// that holds the vertex `vh`.
pub open spec fn partner_edge(dm: Drawing, p: ParallelConstraint, vh: VertexHandle) -> EdgeHandle {
    if dm.edges[p.edge_1_handle as int].touches(vh) {
        p.edge_2_handle
    } else {
        p.edge_1_handle
    }
}

/// Parallel preservation: a drag along the locus of a parallel constraint
/// keeps the edge parallel to its partner.
///
/// The vertex `vh` is an end point of an edge under the parallel constraint
/// `ch`, and the edge is parallel to its partner as the sketch stands. Where
/// the drag moves the vertex along the locus of this constraint, the new
/// position lies on the line through the other end point of the edge along
/// the direction of the partner, within the distance tolerance.
///
/// Where the edge is not parallel to its partner to begin with, the drag
/// keeps the edge on its own bearing and not on that of the partner.
pub proof fn law_parallel_preservation(
    cs: Seq<Constraint>,
    dm: Drawing,
    vh: VertexHandle,
    fixed_pos: Pos2,
    try_pos: Pos2,
    ignore: Seq<ConstraintHandle>,
    ch: int,
)
    requires
        0 <= ch < cs.len(),
        cs[ch] is PARALLEL,
        dm.has_edge(cs[ch]->PARALLEL_0.edge_1_handle),
        dm.has_edge(cs[ch]->PARALLEL_0.edge_2_handle),
        dm.edges[held_edge(dm, cs[ch]->PARALLEL_0, vh) as int].touches(vh),
        dm.edge_direction(held_edge(dm, cs[ch]->PARALLEL_0, vh)) is Ok,
        dm.edge_direction(partner_edge(dm, cs[ch]->PARALLEL_0, vh)) is Ok,
        dm.edge_direction(held_edge(dm, cs[ch]->PARALLEL_0, vh))->Ok_0.cross(
            dm.edge_direction(partner_edge(dm, cs[ch]->PARALLEL_0, vh))->Ok_0,
        ) == 0,
        solve_for_vertex_spec(cs, dm, vh, fixed_pos, try_pos, ignore) is Ok,
        locus_of(cs[ch], dm, vh, fixed_pos) is Ok,
        solve_for_vertex_spec(cs, dm, vh, fixed_pos, try_pos, ignore)->Ok_0.valid_path == Some(
            locus_of(cs[ch], dm, vh, fixed_pos)->Ok_0,
        ),
    ensures
        ({
            let response = solve_for_vertex_spec(cs, dm, vh, fixed_pos, try_pos, ignore)->Ok_0;
            let p = cs[ch]->PARALLEL_0;
            let edge = dm.edges[held_edge(dm, p, vh) as int];
            let other = dm.vertices[edge.other_end(vh) as int].position;
            let bearing = dm.edge_direction(partner_edge(dm, p, vh))->Ok_0;
            &&& response.state == SolverState::Partial
            &&& response.new_pos is Some
            &&& near_line(other, bearing, response.new_pos->0)
        }),
{
    let p = cs[ch]->PARALLEL_0;
    let eh = held_edge(dm, p, vh);
    let edge = dm.edges[eh as int];
    let d1 = dm.edge_direction(eh)->Ok_0;
    let d2 = dm.edge_direction(partner_edge(dm, p, vh))->Ok_0;
    let response = solve_for_vertex_spec(cs, dm, vh, fixed_pos, try_pos, ignore)->Ok_0;
    let path = locus_of(cs[ch], dm, vh, fixed_pos)->Ok_0;
    assert(locus_of(cs[ch], dm, vh, fixed_pos) == parallel_locus(dm, eh, vh));
    let start = dm.vertices[edge.start_point_vh as int].position;
    let end = dm.vertices[edge.end_point_vh as int].position;
    let origin = if edge.start_point_vh == vh {
        end
    } else {
        start
    };
    assert(path == ConstraintPath::Line(Line { origin, direction: d1 }));
    assert(origin == dm.vertices[edge.other_end(vh) as int].position);
    // the response carries a locus, so the drag was resolved along it
    let rs = roles(cs, dm, vh, ignore, cs.len())->Ok_0;
    let loci = vertex_loci(cs, rs, dm, vh, fixed_pos)->Ok_0;
    assert(resolve(loci, try_pos) == Ok::<SolverResponse, ConstraintError>(response));
    assert(response == SolverResponse::partial_spec(path, try_pos));
    assert(try_pos.in_range());
    assert(d1 == start.span_to(end));
    assert(d1.in_range());
    lemma_foot_near_line(origin, d1, try_pos, false);
    assert(d1.norm_sq() > 0);
    assert(d2.norm_sq() > 0);
    lemma_near_parallel_line(origin, d1, d2, response.new_pos->0);
}

/// A failure that the geometry of the sketch brings about, and no stale
/// handle: an edge too short to have a direction, or a position outside the
/// coordinate range.
pub open spec fn is_geometric(e: ConstraintError) -> bool {
    e == ConstraintError::DegenerateEdge || e == ConstraintError::PositionOutOfRange
}

/// In a sketch whose edges end in vertices, the direction between the end
/// points of an edge fails only for reasons of geometry.
proof fn lemma_direction_fails_geometrically(dm: Drawing, eh: EdgeHandle, reverse: bool)
    requires
        dm.wf(),
        dm.has_edge(eh),
    ensures
        ({
            let edge = dm.edges[eh as int];
            let d = if reverse {
                dm.direction_between(edge.end_point_vh, edge.start_point_vh)
            } else {
                dm.direction_between(edge.start_point_vh, edge.end_point_vh)
            };
            d matches Err(e) ==> is_geometric(ConstraintError::of_drawing(e))
        }),
{
    let edge = dm.edges[eh as int];
    assert(dm.has_vertex(edge.start_point_vh) && dm.has_vertex(edge.end_point_vh));
}

/// In a valid sketch every constraint has a role for every vertex.
proof fn lemma_valid_roles(
    cs: Seq<Constraint>,
    dm: Drawing,
    vh: VertexHandle,
    ignore: Seq<ConstraintHandle>,
    n: nat,
)
    requires
        n <= cs.len(),
        catalogue_valid_for(cs, dm),
    ensures
        roles(cs, dm, vh, ignore, n) is Ok,
    decreases n,
{
    if n > 0 {
        lemma_valid_roles(cs, dm, vh, ignore, (n - 1) as nat);
        assert(cs[n - 1].valid_for(dm));
    }
}

/// In a valid sketch the test for a fixed pivot fails only for reasons of
/// geometry.
proof fn lemma_valid_hard_lock(cs: Seq<Constraint>, rs: Seq<Role>, dm: Drawing, n: nat)
    requires
        n <= cs.len(),
        dm.wf(),
        catalogue_valid_for(cs, dm),
    ensures
        hard_lock(cs, rs, dm, n) matches Err(e) ==> is_geometric(e),
    decreases n,
{
    if n > 0 {
        lemma_valid_hard_lock(cs, rs, dm, (n - 1) as nat);
        assert(cs[n - 1].valid_for(dm));
        match cs[n - 1] {
            Constraint::ANGLE(a) => {
                lemma_direction_fails_geometrically(dm, a.edge_1_handle, false);
                lemma_direction_fails_geometrically(dm, a.edge_2_handle, false);
            },
            _ => {},
        }
    }
}

/// In a valid sketch a constraint has a locus for a vertex that it touches,
/// unless the geometry denies it.
proof fn lemma_valid_locus(c: Constraint, dm: Drawing, vh: VertexHandle, fixed_pos: Pos2)
    requires
        dm.wf(),
        c.valid_for(dm),
        role_of(c, dm, vh) matches Ok(role) && role != Role::Unrelated,
    ensures
        locus_of(c, dm, vh, fixed_pos) matches Err(e) ==> is_geometric(e),
{
    match c {
        Constraint::LENGTH(l) => {
            let edge = dm.edges[l.edge_handle as int];
            assert(dm.has_vertex(edge.start_point_vh) && dm.has_vertex(edge.end_point_vh));
        },
        Constraint::ANGLE(a) => {
            let edge_1 = dm.edges[a.edge_1_handle as int];
            let edge_2 = dm.edges[a.edge_2_handle as int];
            assert(dm.has_vertex(edge_1.start_point_vh) && dm.has_vertex(edge_1.end_point_vh));
            assert(dm.has_vertex(edge_2.start_point_vh) && dm.has_vertex(edge_2.end_point_vh));
        },
        Constraint::PARALLEL(p) => {
            lemma_direction_fails_geometrically(dm, p.edge_1_handle, false);
            lemma_direction_fails_geometrically(dm, p.edge_2_handle, false);
        },
    }
}

/// In a valid sketch the loci of a role fail only for reasons of geometry.
proof fn lemma_valid_loci(
    cs: Seq<Constraint>,
    dm: Drawing,
    vh: VertexHandle,
    fixed_pos: Pos2,
    ignore: Seq<ConstraintHandle>,
    role: Role,
    n: nat,
)
    requires
        n <= cs.len(),
        dm.wf(),
        catalogue_valid_for(cs, dm),
        roles(cs, dm, vh, ignore, cs.len()) is Ok,
        role != Role::Unrelated,
    ensures
        loci_of_role(
            cs,
            roles(cs, dm, vh, ignore, cs.len())->Ok_0,
            role,
            dm,
            vh,
            fixed_pos,
            n,
        ) matches Err(e) ==> is_geometric(e),
    decreases n,
{
    if n > 0 {
        let rs = roles(cs, dm, vh, ignore, cs.len())->Ok_0;
        lemma_valid_loci(cs, dm, vh, fixed_pos, ignore, role, (n - 1) as nat);
        lemma_roles_len(cs, dm, vh, ignore, cs.len());
        assert(role_at(cs, dm, vh, ignore, n - 1) == Ok::<Role, ConstraintError>(rs[n - 1]));
        if rs[n - 1] == role {
            assert(cs[n - 1].valid_for(dm));
            lemma_valid_locus(cs[n - 1], dm, vh, fixed_pos);
        }
    }
}

/// In a valid sketch no drag meets a stale handle: a drag of a vertex
/// succeeds, or fails for reasons of geometry alone. Every sketch that is
/// built by additions is valid.
pub proof fn law_valid_sketch_has_no_stale_handle(
    cs: Seq<Constraint>,
    dm: Drawing,
    vh: VertexHandle,
    fixed_pos: Pos2,
    try_pos: Pos2,
    ignore: Seq<ConstraintHandle>,
)
    requires
        dm.wf(),
        catalogue_valid_for(cs, dm),
    ensures
        solve_for_vertex_spec(cs, dm, vh, fixed_pos, try_pos, ignore) matches Err(e)
            ==> is_geometric(e),
{
    let n = cs.len();
    lemma_valid_roles(cs, dm, vh, ignore, n);
    let rs = roles(cs, dm, vh, ignore, n)->Ok_0;
    lemma_valid_hard_lock(cs, rs, dm, n);
    lemma_valid_loci(cs, dm, vh, fixed_pos, ignore, Role::LengthEnd, n);
    lemma_valid_loci(cs, dm, vh, fixed_pos, ignore, Role::AngleEnd, n);
    lemma_valid_loci(cs, dm, vh, fixed_pos, ignore, Role::AngleCenter, n);
    lemma_valid_loci(cs, dm, vh, fixed_pos, ignore, Role::ParallelEnd, n);
}

/// In a valid sketch no drag of an edge of the sketch meets a stale handle.
pub proof fn law_valid_sketch_drags_every_edge(
    cs: Seq<Constraint>,
    dm: Drawing,
    eh: EdgeHandle,
    try_pos: Pos2,
    v1_fixed_pos: Pos2,
    v1_try_pos: Pos2,
    v2_fixed_pos: Pos2,
    v2_try_pos: Pos2,
)
    requires
        dm.wf(),
        catalogue_valid_for(cs, dm),
        dm.has_edge(eh),
    ensures
        solve_for_edge_spec(
            cs,
            dm,
            eh,
            try_pos,
            v1_fixed_pos,
            v1_try_pos,
            v2_fixed_pos,
            v2_try_pos,
        ) matches Err(e) ==> is_geometric(e),
{
    let edge = dm.edges[eh as int];
    law_valid_sketch_has_no_stale_handle(
        cs,
        dm,
        edge.start_point_vh,
        v1_fixed_pos,
        v1_try_pos,
        edge.constraints,
    );
    law_valid_sketch_has_no_stale_handle(
        cs,
        dm,
        edge.end_point_vh,
        v2_fixed_pos,
        v2_try_pos,
        edge.constraints,
    );
    lemma_direction_fails_geometrically(dm, eh, false);
}

} // verus!
