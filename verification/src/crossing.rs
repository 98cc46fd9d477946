//! The crossing iterator: the ordered features that the open straight
//! segment between two finite vertices passes through.
//!
//! The walk alternates two searches.  At a vertex it circulates the
//! incident edges until it finds either an edge lying on the segment or the
//! wedge that the segment leaves through; at an edge it crosses into the
//! neighbor face and classifies the far vertex against the segment line.
//! The iterator buffers exactly one crossing: each pull returns the
//! buffered one and computes its successor.

use vstd::prelude::*;

use crate::circulator::{
    ccw_iter, ccw_step, cw_iter, cw_step, lemma_ccw_iter_wf, lemma_ccw_step_end,
    lemma_cw_iter_wf, lemma_cw_orbit_closes, lemma_orbit_closes, lemma_pivots_inverse,
    valid_edge, EdgeCirculator,
};
use crate::geometry::{
    collinear_class, cross_of, is_strictly_between, orientation, test_collinear_points,
    CollinearTest, Orientation,
};
use crate::graph::{TriView, Triangulation};
use crate::query::directly_connected;
use crate::types::{rot_decr, rot_incr, FaceIndex, Rot3, TriError, VertexIndex};

verus! {

/// One feature crossed by the segment, together with the face and rotation
/// where it is observed.
#[derive(Clone, Copy, Debug, PartialEq, Eq, Structural)]
pub enum Crossing {
    /// The segment departs the source vertex, which sits at corner `vertex`
    /// of `face`, through the opposite edge of that corner.
    Start { face: FaceIndex, vertex: Rot3 },
    /// The segment arrives at the target vertex, at corner `vertex` of
    /// `face`.
    End { face: FaceIndex, vertex: Rot3 },
    /// The segment runs exactly along the edge `(face, edge)`.
    CoincidentEdge { face: FaceIndex, edge: Rot3 },
    /// The segment crosses the interior of `(face, edge)`, arriving from
    /// the positive side of the segment line.
    PositiveEdge { face: FaceIndex, edge: Rot3 },
    /// The segment crosses the interior of `(face, edge)`, arriving from
    /// the negative side of the segment line.
    NegativeEdge { face: FaceIndex, edge: Rot3 },
}

/// The handles named by a crossing exist in the triangulation.
pub open spec fn crossing_valid(t: TriView, c: Crossing) -> bool {
    match c {
        Crossing::Start { face, vertex } => t.valid_face(face.0 as int) && vertex.0 < 3,
        Crossing::End { face, vertex } => t.valid_face(face.0 as int) && vertex.0 < 3,
        Crossing::CoincidentEdge { face, edge } => t.valid_face(face.0 as int) && edge.0 < 3,
        Crossing::PositiveEdge { face, edge } => t.valid_face(face.0 as int) && edge.0 < 3,
        Crossing::NegativeEdge { face, edge } => t.valid_face(face.0 as int) && edge.0 < 3,
    }
}

/// What the edge search returns: cross the edge `(f, e)` into the neighbor
/// face and classify the far vertex against the line from `v0` to `v1`.
pub open spec fn edge_search_spec(t: TriView, v0: int, v1: int, f: int, e: int) -> Crossing {
    let n = t.faces[f].ns[e];
    let i = t.faces[n].nbr_index(f);
    let far = t.faces[n].vs[i];
    if far == v1 {
        Crossing::End { face: FaceIndex(n as usize), vertex: Rot3(i as u8) }
    } else {
        let c = cross_of(t.pos(v0), t.pos(v1), t.pos(far));
        if c == 0 {
            Crossing::End { face: FaceIndex(n as usize), vertex: Rot3(i as u8) }
        } else if c > 0 {
            Crossing::NegativeEdge { face: FaceIndex(n as usize), edge: Rot3(rot_incr(i) as u8) }
        } else {
            Crossing::PositiveEdge { face: FaceIndex(n as usize), edge: Rot3(rot_decr(i) as u8) }
        }
    }
}

/// The far vertex of a ring edge is skipped by the vertex search: the
/// infinite vertex or the source.
pub open spec fn far_skipped(t: TriView, v0: int, f: int, e: int) -> bool {
    let w = t.edge_end(f, e);
    w == t.infinite || w == v0
}

/// The far vertex of a ring edge lies strictly clockwise of the segment
/// line.
pub open spec fn far_clockwise(t: TriView, v0: int, v1: int, f: int, e: int) -> bool {
    let w = t.edge_end(f, e);
    &&& t.is_finite_vertex(w)
    &&& w != v0
    &&& w != v1
    &&& cross_of(t.pos(v0), t.pos(v1), t.pos(w)) < 0
}

/// The far vertex of a ring edge examines as counterclockwise while
/// circulating: strictly counterclockwise of the segment line, or the
/// avoided arrival vertex, or collinear behind the source.
pub open spec fn far_counterclockwise_ish(
    t: TriView,
    v0: int,
    v1: int,
    start: int,
    f: int,
    e: int,
) -> bool {
    let w = t.edge_end(f, e);
    ||| w == start
    ||| (t.is_finite_vertex(w) && w != v0 && w != v1 && cross_of(t.pos(v0), t.pos(v1), t.pos(w))
        > 0)
    ||| (t.is_finite_vertex(w) && w != v0 && w != v1 && w != start && cross_of(
        t.pos(v0),
        t.pos(v1),
        t.pos(w),
    ) == 0 && collinear_class(t.pos(v0), t.pos(v1), t.pos(w)) == CollinearTest::Before)
}

/// The far vertex of a ring edge contradicts the mesh's own coordinates: a
/// finite vertex, distinct from the endpoints and the arrival vertex,
/// collinear with the segment line yet at the source, at the target, or
/// beyond the target.
pub open spec fn far_collinear_anomaly(
    t: TriView,
    v0: int,
    v1: int,
    start: int,
    f: int,
    e: int,
) -> bool {
    let w = t.edge_end(f, e);
    &&& t.is_finite_vertex(w)
    &&& w != v0
    &&& w != v1
    &&& w != start
    &&& cross_of(t.pos(v0), t.pos(v1), t.pos(w)) == 0
    &&& (collinear_class(t.pos(v0), t.pos(v1), t.pos(w)) == CollinearTest::First
        || collinear_class(t.pos(v0), t.pos(v1), t.pos(w)) == CollinearTest::Second
        || collinear_class(t.pos(v0), t.pos(v1), t.pos(w)) == CollinearTest::After)
}

/// The only ways the vertex search around `base` can fail.  Each names a
/// configuration that cannot arise when the faces are laid out in the plane
/// as their positions say; on such a mesh the search is owed an answer.
pub open spec fn vertex_search_anomaly(
    t: TriView,
    v0: int,
    v1: int,
    base: int,
    start: int,
) -> bool {
    // a ring edge whose far vertex sits on the segment line at or beyond
    // its endpoints
    ||| exists|f: int, e: int|
        valid_edge(t, f, e) && t.edge_start(f, e) == base && #[trigger] far_collinear_anomaly(
            t,
            v0,
            v1,
            start,
            f,
            e,
        )
    // walking counterclockwise from a strictly clockwise stretch, the walk
    // meets a skipped edge instead of the segment wedge
    ||| exists|f: int, e: int, j: nat|
        #![trigger ccw_iter(t, f, e, j)]
        {
            &&& valid_edge(t, f, e)
            &&& t.edge_start(f, e) == base
            &&& j >= 1
            &&& forall|i: nat|
                i < j ==> far_clockwise(
                    t,
                    v0,
                    v1,
                    #[trigger] ccw_iter(t, f, e, i).0,
                    ccw_iter(t, f, e, i).1,
                )
            &&& far_skipped(t, v0, ccw_iter(t, f, e, j).0, ccw_iter(t, f, e, j).1)
        }
    // a full ring whose far vertices all lie strictly clockwise
    ||| exists|f: int, e: int, d: nat|
        #![trigger ccw_iter(t, f, e, d)]
        {
            &&& valid_edge(t, f, e)
            &&& t.edge_start(f, e) == base
            &&& d >= 1
            &&& ccw_iter(t, f, e, d) == (f, e)
            &&& forall|i: nat|
                i < d ==> far_clockwise(
                    t,
                    v0,
                    v1,
                    #[trigger] ccw_iter(t, f, e, i).0,
                    ccw_iter(t, f, e, i).1,
                )
        }
    // a full ring with no far vertex on the clockwise side at all
    ||| exists|f: int, e: int, d: nat|
        #![trigger cw_iter(t, f, e, d)]
        {
            &&& valid_edge(t, f, e)
            &&& t.edge_start(f, e) == base
            &&& d >= 1
            &&& cw_iter(t, f, e, d) == (f, e)
            &&& forall|i: nat|
                i < d ==> far_skipped(
                    t,
                    v0,
                    #[trigger] cw_iter(t, f, e, i).0,
                    cw_iter(t, f, e, i).1,
                ) || far_counterclockwise_ish(
                    t,
                    v0,
                    v1,
                    start,
                    cw_iter(t, f, e, i).0,
                    cw_iter(t, f, e, i).1,
                )
        }
}

/// What the vertex search can return when circulating around `base`,
/// avoiding the edge back toward `start`.
pub open spec fn vertex_search_post(
    t: TriView,
    v0: int,
    v1: int,
    base: int,
    start: int,
    r: Option<Crossing>,
) -> bool {
    match r {
        None => base == v1,
        Some(c) => base != v1 && match c {
            Crossing::CoincidentEdge { face, edge } => {
                let f = face.0 as int;
                let e = edge.0 as int;
                &&& valid_edge(t, f, e)
                &&& t.edge_start(f, e) == base
                &&& {
                    let w = t.edge_end(f, e);
                    &&& t.is_finite_vertex(w)
                    &&& w != v0
                    &&& (w == v1 || (w != v1 && w != start && is_strictly_between(
                        t.pos(v0),
                        t.pos(v1),
                        t.pos(w),
                    )))
                }
            },
            Crossing::Start { face, vertex } => {
                let fc = face.0 as int;
                let vx = vertex.0 as int;
                &&& t.valid_face(fc)
                &&& vertex.0 < 3
                &&& t.face_vertex(fc, vx) == base
                // the wedge the segment departs through: the corner after
                // the base holds a far vertex strictly clockwise of the
                // segment line ...
                &&& {
                    let w_cw = t.face_vertex(fc, rot_incr(vx));
                    &&& t.is_finite_vertex(w_cw)
                    &&& w_cw != v0
                    &&& w_cw != v1
                    &&& cross_of(t.pos(v0), t.pos(v1), t.pos(w_cw)) < 0
                }
                // ... and the corner before the base holds one that
                // examined as counterclockwise, or was skipped
                &&& {
                    let w_ccw = t.face_vertex(fc, rot_decr(vx));
                    ||| w_ccw == t.infinite
                    ||| w_ccw == v0
                    ||| w_ccw == start
                    ||| (t.is_finite_vertex(w_ccw) && w_ccw != v0 && w_ccw != v1 && cross_of(
                        t.pos(v0),
                        t.pos(v1),
                        t.pos(w_ccw),
                    ) > 0)
                    ||| (t.is_finite_vertex(w_ccw) && w_ccw != v0 && w_ccw != v1 && w_ccw != start
                        && cross_of(t.pos(v0), t.pos(v1), t.pos(w_ccw)) == 0 && collinear_class(
                        t.pos(v0),
                        t.pos(v1),
                        t.pos(w_ccw),
                    ) == CollinearTest::Before)
                }
            },
            _ => false,
        },
    }
}

/// The only way a pull can fail: the crossing it follows hands the walk to
/// a vertex search whose ring carries an anomaly.  After a departure or a
/// signed edge crossing the step is an edge search, which is total, so no
/// failure is possible there at all.
pub open spec fn advance_anomaly(
    t: TriView,
    v0: int,
    v1: int,
    prev: Option<Crossing>,
) -> bool {
    match prev {
        Some(Crossing::End { face, vertex }) => vertex_search_anomaly(
            t,
            v0,
            v1,
            t.face_vertex(face.0 as int, vertex.0 as int),
            v0,
        ),
        Some(Crossing::CoincidentEdge { face, edge }) => vertex_search_anomaly(
            t,
            v0,
            v1,
            t.edge_end(face.0 as int, edge.0 as int),
            t.edge_start(face.0 as int, edge.0 as int),
        ),
        _ => false,
    }
}

/// The transition table of the iterator: which search computes the
/// successor of each crossing, and with which arguments.
pub open spec fn step_post(
    t: TriView,
    v0: int,
    v1: int,
    prev: Option<Crossing>,
    next: Option<Crossing>,
) -> bool {
    match prev {
        None => next is None,
        Some(c) => match c {
            Crossing::Start { face, vertex } => next == Some(
                edge_search_spec(t, v0, v1, face.0 as int, vertex.0 as int),
            ),
            Crossing::PositiveEdge { face, edge } => next == Some(
                edge_search_spec(t, v0, v1, face.0 as int, edge.0 as int),
            ),
            Crossing::NegativeEdge { face, edge } => next == Some(
                edge_search_spec(t, v0, v1, face.0 as int, edge.0 as int),
            ),
            Crossing::End { face, vertex } => vertex_search_post(
                t,
                v0,
                v1,
                t.face_vertex(face.0 as int, vertex.0 as int),
                v0,
                next,
            ),
            Crossing::CoincidentEdge { face, edge } => vertex_search_post(
                t,
                v0,
                v1,
                t.edge_end(face.0 as int, edge.0 as int),
                t.edge_start(face.0 as int, edge.0 as int),
                next,
            ),
        },
    }
}

/// The reachable states of the iterator: `hist` are the crossings already
/// returned, `cur` is the buffered one.
pub open spec fn legal_state(
    t: TriView,
    v0: int,
    v1: int,
    hist: Seq<Crossing>,
    cur: Option<Crossing>,
) -> bool
    decreases hist.len(),
{
    if hist.len() == 0 {
        vertex_search_post(t, v0, v1, v0, v0, cur)
    } else {
        &&& legal_state(t, v0, v1, hist.drop_last(), Some(hist.last()))
        &&& step_post(t, v0, v1, Some(hist.last()), cur)
    }
}

/// No finite vertex other than the two endpoints lies on the segment line.
pub open spec fn general_position(t: TriView, v0: int, v1: int) -> bool {
    forall|w: int|
        t.is_finite_vertex(w) && w != v0 && w != v1 ==> #[trigger] cross_of(
            t.pos(v0),
            t.pos(v1),
            t.pos(w),
        ) != 0
}

/// Every arrival event in the history names a finite vertex other than the
/// source.  This is a hypothesis of the completeness statements below, not a
/// theorem of the combinatorial model: it holds when the faces are laid out
/// in the plane as their positions say, because a forward walk along the
/// segment cannot fold back onto its own source, but a mesh whose links
/// contradict its coordinates could break it.
pub open spec fn ends_sound(t: TriView, v0: int, hist: Seq<Crossing>) -> bool {
    forall|i: int|
        0 <= i < hist.len() ==> (#[trigger] hist[i] matches Crossing::End { face, vertex } ==> {
            let w = t.face_vertex(face.0 as int, vertex.0 as int);
            w != v0 && t.is_finite_vertex(w)
        })
}

/// The same soundness condition for the buffered crossing.
pub open spec fn cur_end_sound(t: TriView, v0: int, cur: Option<Crossing>) -> bool {
    cur matches Some(Crossing::End { face, vertex }) ==> {
        let w = t.face_vertex(face.0 as int, vertex.0 as int);
        w != v0 && t.is_finite_vertex(w)
    }
}

/// The inductive shape of a run under the hypotheses of the completeness
/// statement below.
spec fn run_shape(t: TriView, v0: int, v1: int, hist: Seq<Crossing>, cur: Option<Crossing>) -> bool {
    &&& (cur is None ==> hist.len() > 0 && hist.last() is End)
    &&& (hist.len() == 0 ==> cur matches Some(Crossing::Start { .. }))
    &&& (match cur {
        Some(c) => {
            &&& crossing_valid(t, c)
            &&& !(c is CoincidentEdge)
            &&& (c is Start ==> hist.len() == 0)
            &&& (c matches Crossing::End { face, vertex } ==> t.face_vertex(
                face.0 as int,
                vertex.0 as int,
            ) == v1)
        },
        None => true,
    })
    &&& (hist.len() > 0 ==> hist[0] is Start)
    &&& (forall|i: int|
        0 < i < hist.len() ==> (#[trigger] hist[i] is PositiveEdge || hist[i] is NegativeEdge
            || hist[i] is End))
    &&& (forall|i: int| 0 <= i < hist.len() && #[trigger] hist[i] is End ==> i == hist.len() - 1
        && cur is None)
    &&& (forall|i: int|
        0 <= i < hist.len() ==> (#[trigger] hist[i] matches Crossing::End { face, vertex }
            ==> t.face_vertex(face.0 as int, vertex.0 as int) == v1))
    &&& (forall|i: int| 0 <= i < hist.len() ==> crossing_valid(t, #[trigger] hist[i]))
}

proof fn lemma_run_shape(t: TriView, v0: int, v1: int, hist: Seq<Crossing>, cur: Option<Crossing>)
    requires
        t.wf(),
        t.is_finite_vertex(v0),
        t.is_finite_vertex(v1),
        v0 != v1,
        !directly_connected(t, v0, v1),
        general_position(t, v0, v1),
        ends_sound(t, v0, hist),
        cur_end_sound(t, v0, cur),
        legal_state(t, v0, v1, hist, cur),
    ensures
        run_shape(t, v0, v1, hist, cur),
    decreases hist.len(),
{
    if hist.len() == 0 {
        // the initial vertex search at the source can only produce a Start
        match cur {
            None => {
                assert(v0 == v1);
            },
            Some(c) => match c {
                Crossing::CoincidentEdge { face, edge } => {
                    let f = face.0 as int;
                    let e = edge.0 as int;
                    let w = t.edge_end(f, e);
                    if w == v1 {
                        assert(t.edge_start(f, e) == v0 && t.edge_end(f, e) == v1);
                        assert(directly_connected(t, v0, v1));
                    } else {
                        assert(cross_of(t.pos(v0), t.pos(v1), t.pos(w)) == 0);
                        assert(false);
                    }
                },
                _ => {},
            },
        }
    } else {
        let prev = hist.last();
        let hist2 = hist.drop_last();
        assert(forall|i: int| 0 <= i < hist2.len() ==> hist2[i] == hist[i]);
        assert(ends_sound(t, v0, hist2));
        assert(cur_end_sound(t, v0, Some(prev))) by {
            assert(hist[hist.len() - 1] == prev);
        }
        lemma_run_shape(t, v0, v1, hist2, Some(prev));
        match prev {
            Crossing::Start { face, vertex } => {
                lemma_step_from_edge(t, v0, v1, face.0 as int, vertex.0 as int, cur);
            },
            Crossing::PositiveEdge { face, edge } => {
                lemma_step_from_edge(t, v0, v1, face.0 as int, edge.0 as int, cur);
            },
            Crossing::NegativeEdge { face, edge } => {
                lemma_step_from_edge(t, v0, v1, face.0 as int, edge.0 as int, cur);
            },
            Crossing::End { face, vertex } => {
                // the previous arrival named the target, so the next vertex
                // search stops
                assert(t.face_vertex(face.0 as int, vertex.0 as int) == v1);
                assert(cur is None);
            },
            Crossing::CoincidentEdge { face, edge } => {
                assert(false);
            },
        }
        assert forall|i: int| 0 < i < hist.len() implies (#[trigger] hist[i] is PositiveEdge
            || hist[i] is NegativeEdge || hist[i] is End) by {
            if i < hist.len() - 1 {
                assert(hist[i] == hist2[i]);
            }
        }
        assert forall|i: int| 0 <= i < hist.len() implies crossing_valid(
            t,
            #[trigger] hist[i],
        ) by {
            if i < hist.len() - 1 {
                assert(hist[i] == hist2[i]);
            }
        }
    }
}

/// After a Start or a signed edge crossing, the edge search yields a valid
/// End at the target or a valid signed edge crossing.
proof fn lemma_step_from_edge(
    t: TriView,
    v0: int,
    v1: int,
    f: int,
    e: int,
    cur: Option<Crossing>,
)
    requires
        t.wf(),
        t.is_finite_vertex(v0),
        t.is_finite_vertex(v1),
        v0 != v1,
        general_position(t, v0, v1),
        valid_edge(t, f, e),
        cur == Some(edge_search_spec(t, v0, v1, f, e)),
        cur_end_sound(t, v0, cur),
    ensures
        ({
            let c = cur.unwrap();
            &&& crossing_valid(t, c)
            &&& !(c is CoincidentEdge)
            &&& !(c is Start)
            &&& (c matches Crossing::End { face, vertex } ==> t.face_vertex(
                face.0 as int,
                vertex.0 as int,
            ) == v1)
        }),
{
    assert(t.face_wf(f));
    let n = t.faces[f].ns[e];
    assert(t.twin_wf(f, e));
    assert(t.face_wf(n));
    let i = t.faces[n].nbr_index(f);
    let far = t.faces[n].vs[i];
    assert(t.valid_vertex(far));
    let c = edge_search_spec(t, v0, v1, f, e);
    match c {
        Crossing::End { face, vertex } => {
            assert(face.0 as int == n && vertex.0 as int == i);
            assert(t.face_vertex(n, i) == far);
            if far != v1 {
                assert(cross_of(t.pos(v0), t.pos(v1), t.pos(far)) == 0);
                assert(far != v0 && t.is_finite_vertex(far));
                assert(false);
            }
        },
        _ => {},
    }
}

/// Crossing completeness: an error free run that finished, between two
/// finite vertices that are not directly connected and with no third
/// vertex on the segment line, returns exactly one Start first, exactly
/// one End last, arriving at the target vertex, and nothing but signed
/// edge crossings in between.
pub proof fn lemma_crossing_completeness(t: TriView, v0: int, v1: int, hist: Seq<Crossing>)
    requires
        t.wf(),
        t.is_finite_vertex(v0),
        t.is_finite_vertex(v1),
        v0 != v1,
        !directly_connected(t, v0, v1),
        general_position(t, v0, v1),
        ends_sound(t, v0, hist),
        legal_state(t, v0, v1, hist, None::<Crossing>),
    ensures
        hist.len() >= 2,
        hist[0] is Start,
        hist.last() is End,
        (hist.last() matches Crossing::End { face, vertex } ==> t.face_vertex(
            face.0 as int,
            vertex.0 as int,
        ) == v1),
        forall|i: int|
            0 < i < hist.len() - 1 ==> (#[trigger] hist[i] is PositiveEdge
                || hist[i] is NegativeEdge),
        forall|i: int| 0 < i < hist.len() ==> !(#[trigger] hist[i] is Start),
        forall|i: int| 0 <= i < hist.len() - 1 ==> !(#[trigger] hist[i] is End),
{
    lemma_run_shape(t, v0, v1, hist, None::<Crossing>);
    assert(hist.len() > 0);
    if hist.len() == 1 {
        assert(hist[0] is Start && hist.last() is End);
        assert(false);
    }
}

/// A distinct integer below `6 * |faces|` for every signed edge crossing.
spec fn signed_edge_code(c: Crossing) -> int {
    match c {
        Crossing::PositiveEdge { face, edge } => 6 * (face.0 as int) + 2 * (edge.0 as int),
        Crossing::NegativeEdge { face, edge } => 6 * (face.0 as int) + 2 * (edge.0 as int) + 1,
        _ => -1,
    }
}

/// Finite runs: a finished run that never reports the same signed edge
/// crossing twice holds at most one crossing per oriented edge of the mesh,
/// beside its departure and its arrival.  That no edge is crossed twice is
/// a fact of the plane layout — the walk advances along the segment — so on
/// an embedded mesh every finished run obeys this bound.
pub proof fn lemma_run_length_bound(t: TriView, v0: int, v1: int, hist: Seq<Crossing>)
    requires
        t.wf(),
        t.is_finite_vertex(v0),
        t.is_finite_vertex(v1),
        v0 != v1,
        !directly_connected(t, v0, v1),
        general_position(t, v0, v1),
        ends_sound(t, v0, hist),
        legal_state(t, v0, v1, hist, None::<Crossing>),
        forall|i: int, j: int| 0 < i < j < hist.len() - 1 ==> hist[i] != hist[j],
    ensures
        hist.len() <= 6 * t.faces.len() + 2,
{
    lemma_run_shape(t, v0, v1, hist, None::<Crossing>);
    lemma_crossing_completeness(t, v0, v1, hist);
    if hist.len() > 6 * t.faces.len() + 2 {
        let n = (hist.len() - 2) as nat;
        let encs = Seq::<int>::new(n, |k: int| signed_edge_code(hist[k + 1]));
        assert forall|i: int, j: int| 0 <= i < j < encs.len() implies encs[i] != encs[j] by {
            assert(hist[i + 1] is PositiveEdge || hist[i + 1] is NegativeEdge);
            assert(hist[j + 1] is PositiveEdge || hist[j + 1] is NegativeEdge);
            assert(crossing_valid(t, hist[i + 1]));
            assert(crossing_valid(t, hist[j + 1]));
            assert(hist[i + 1] != hist[j + 1]);
        }
        assert(encs.no_duplicates());
        encs.unique_seq_to_set();
        let bound = 6 * t.faces.len() as int;
        assert forall|x: int| encs.to_set().contains(x) implies vstd::set_lib::set_int_range(
            0,
            bound,
        ).contains(x) by {
            let k = choose|k: int| 0 <= k < encs.len() && encs[k] == x;
            assert(hist[k + 1] is PositiveEdge || hist[k + 1] is NegativeEdge);
            assert(crossing_valid(t, hist[k + 1]));
        }
        vstd::set_lib::lemma_int_range(0, bound);
        vstd::set_lib::lemma_len_subset(encs.to_set(), vstd::set_lib::set_int_range(0, bound));
        assert(false);
    }
}

/// Crossing endpoints: when a run opens with a coincident edge that ends at
/// the target vertex, that crossing is the whole run — the iterator yields
/// exactly this one event and stops.
pub proof fn lemma_coincident_at_target_is_final(
    t: TriView,
    v0: int,
    v1: int,
    hist: Seq<Crossing>,
    cur: Option<Crossing>,
)
    requires
        legal_state(t, v0, v1, hist, cur),
        hist.len() >= 1,
        (hist[0] matches Crossing::CoincidentEdge { face, edge } && t.edge_end(
            face.0 as int,
            edge.0 as int,
        ) == v1),
    ensures
        hist.len() == 1,
        cur is None,
    decreases hist.len(),
{
    if hist.len() == 1 {
        assert(legal_state(t, v0, v1, hist.drop_last(), Some(hist.last())));
        assert(hist.drop_last().len() == 0);
        assert(vertex_search_post(t, v0, v1, v0, v0, Some(hist[0])));
    } else {
        let hist2 = hist.drop_last();
        lemma_coincident_at_target_is_final(t, v0, v1, hist2, Some(hist.last()));
        assert(false);
    }
}

/// The two run laws, stated directly over an exhausted iterator: its ghost
/// history is a finished run, so everything proved of finished runs holds
/// of it.
pub proof fn lemma_iterator_run_completeness(it: CrossingIterator, t: TriView)
    requires
        it.inv(t),
        it.spec_current() is None,
        !directly_connected(t, it.spec_v0(), it.spec_v1()),
        general_position(t, it.spec_v0(), it.spec_v1()),
        ends_sound(t, it.spec_v0(), it.history()),
    ensures
        it.history().len() >= 2,
        it.history()[0] is Start,
        it.history().last() is End,
        (it.history().last() matches Crossing::End { face, vertex } ==> t.face_vertex(
            face.0 as int,
            vertex.0 as int,
        ) == it.spec_v1()),
        forall|i: int|
            0 < i < it.history().len() - 1 ==> (#[trigger] it.history()[i] is PositiveEdge
                || it.history()[i] is NegativeEdge),
{
    lemma_crossing_completeness(t, it.spec_v0(), it.spec_v1(), it.history());
}

/// Length form of the run laws: an exhausted iterator that never returned
/// the same signed edge crossing twice returned at most one crossing per
/// oriented edge of the mesh, beside its departure and its arrival.
pub proof fn lemma_iterator_run_length(it: CrossingIterator, t: TriView)
    requires
        it.inv(t),
        it.spec_current() is None,
        !directly_connected(t, it.spec_v0(), it.spec_v1()),
        general_position(t, it.spec_v0(), it.spec_v1()),
        ends_sound(t, it.spec_v0(), it.history()),
        forall|i: int, j: int| 0 < i < j < it.history().len() - 1 ==> it.history()[i]
            != it.history()[j],
    ensures
        it.history().len() <= 6 * t.faces.len() + 2,
{
    lemma_run_length_bound(t, it.spec_v0(), it.spec_v1(), it.history());
}

/// Endpoint form of the run laws: an iterator whose first returned crossing
/// was a coincident edge into the target has returned nothing else.
pub proof fn lemma_iterator_coincident_endpoint(it: CrossingIterator, t: TriView)
    requires
        it.inv(t),
        it.history().len() >= 1,
        (it.history()[0] matches Crossing::CoincidentEdge { face, edge } && t.edge_end(
            face.0 as int,
            edge.0 as int,
        ) == it.spec_v1()),
    ensures
        it.history().len() == 1,
        it.spec_current() is None,
{
    lemma_coincident_at_target_is_final(
        t,
        it.spec_v0(),
        it.spec_v1(),
        it.history(),
        it.spec_current(),
    );
}

/// The crossing iterator.  It is constructed over a two dimensional
/// triangulation and two distinct finite vertices, holds one buffered
/// crossing, and records the crossings already returned in its ghost
/// history.
pub struct CrossingIterator {
    pub(crate) v0: VertexIndex,
    pub(crate) v1: VertexIndex,
    pub(crate) current: Option<Crossing>,
    pub(crate) emitted: Ghost<Seq<Crossing>>,
}

/// The construction preconditions of the iterator.
pub open spec fn qualified(t: TriView, v0: int, v1: int) -> bool {
    &&& t.wf()
    &&& t.is_two_dimensional()
    &&& t.is_finite_vertex(v0)
    &&& t.is_finite_vertex(v1)
    &&& v0 != v1
}

impl CrossingIterator {
    /// The source vertex handle.
    pub closed spec fn spec_v0(self) -> int {
        self.v0.0 as int
    }

    /// The target vertex handle.
    pub closed spec fn spec_v1(self) -> int {
        self.v1.0 as int
    }

    /// The buffered crossing.
    pub closed spec fn spec_current(self) -> Option<Crossing> {
        self.current
    }

    /// The crossings returned so far.
    pub closed spec fn history(self) -> Seq<Crossing> {
        self.emitted@
    }

    /// The iterator is in a reachable state over `t`.
    pub open spec fn inv(self, t: TriView) -> bool {
        &&& qualified(t, self.spec_v0(), self.spec_v1())
        &&& legal_state(t, self.spec_v0(), self.spec_v1(), self.history(), self.spec_current())
        &&& (self.spec_current() matches Some(c) ==> crossing_valid(t, c))
    }

    /// Build the iterator and compute the first crossing.  The caller
    /// contract is checked up front and reported as an invalid query; the
    /// vertex search itself can still report a corrupt triangulation.
    pub fn new(tri: &Triangulation, v0: VertexIndex, v1: VertexIndex) -> (r: Result<
        CrossingIterator,
        TriError,
    >)
        requires
            tri@.wf(),
        ensures
            match r {
                Ok(it) => {
                    &&& qualified(tri@, v0.0 as int, v1.0 as int)
                    &&& it.spec_v0() == v0.0 as int
                    &&& it.spec_v1() == v1.0 as int
                    &&& it.history() == Seq::<Crossing>::empty()
                    &&& it.inv(tri@)
                },
                Err(e) => {
                    &&& (e == TriError::InvalidQuery) == !qualified(tri@, v0.0 as int, v1.0 as int)
                    &&& (e == TriError::CorruptTriangulation ==> qualified(
                        tri@,
                        v0.0 as int,
                        v1.0 as int,
                    ) && vertex_search_anomaly(
                        tri@,
                        v0.0 as int,
                        v1.0 as int,
                        v0.0 as int,
                        v0.0 as int,
                    ))
                },
            },
    {
        if tri.dimension() != 2 {
            return Err(TriError::InvalidQuery);
        }
        if v0 == v1 {
            return Err(TriError::InvalidQuery);
        }
        if !tri.is_finite_vertex(v0) {
            return Err(TriError::InvalidQuery);
        }
        if !tri.is_finite_vertex(v1) {
            return Err(TriError::InvalidQuery);
        }
        let mut it = CrossingIterator { v0, v1, current: None, emitted: Ghost(Seq::empty()) };
        match it.search_vertex(tri, v0, v0) {
            Ok(first) => {
                it.current = first;
                proof {
                    assert(legal_state(tri@, v0.0 as int, v1.0 as int, Seq::empty(), first));
                }
                Ok(it)
            },
            Err(e) => Err(e),
        }
    }

    /// Find the next crossing by circulating the edges around
    /// `base_vertex`.  `start_vertex` marks the edge the walk arrived on,
    /// so that collinear detection does not walk backward.  The walk always
    /// terminates: it fails only on one of the anomalies named by
    /// `vertex_search_anomaly`, detected either directly or by coming all
    /// the way around the ring.
    fn search_vertex(
        &self,
        tri: &Triangulation,
        base_vertex: VertexIndex,
        start_vertex: VertexIndex,
    ) -> (r: Result<Option<Crossing>, TriError>)
        requires
            qualified(tri@, self.v0.0 as int, self.v1.0 as int),
            tri@.valid_vertex(base_vertex.0 as int),
        ensures
            (r matches Ok(o) ==> vertex_search_post(
                tri@,
                self.v0.0 as int,
                self.v1.0 as int,
                base_vertex.0 as int,
                start_vertex.0 as int,
                o,
            )),
            (r matches Err(e) ==> e == TriError::CorruptTriangulation && vertex_search_anomaly(
                tri@,
                self.v0.0 as int,
                self.v1.0 as int,
                base_vertex.0 as int,
                start_vertex.0 as int,
            )),
    {
        let ghost t = tri@;
        let ghost v0i = self.v0.0 as int;
        let ghost v1i = self.v1.0 as int;
        let ghost basei = base_vertex.0 as int;
        let ghost starti = start_vertex.0 as int;
        if base_vertex == self.v1 {
            return Ok(None);
        }
        let mut circulator = EdgeCirculator::new(tri, base_vertex);
        let mut start_orientation = Orientation::Collinear;
        // the edge the present walking phase started at; the walk fails if
        // it comes all the way around without an answer
        let mut ring_face = circulator.face();
        let mut ring_edge = circulator.edge();
        let ghost mut anchor: (int, int) = (ring_face.0 as int, ring_edge.0 as int);
        let ghost mut steps: nat = 0;
        proof {
            lemma_cw_orbit_closes(t, anchor.0, anchor.1);
        }
        let ghost mut period: nat = choose|d: nat|
            1 <= d <= 3 * t.faces.len() && #[trigger] cw_iter(t, anchor.0, anchor.1, d) == anchor;
        let ghost mut rank: int = 1;
        loop
            invariant
                qualified(t, v0i, v1i),
                t == tri@,
                v0i == self.v0.0 as int,
                v1i == self.v1.0 as int,
                basei == base_vertex.0 as int,
                starti == start_vertex.0 as int,
                t.valid_vertex(basei),
                basei != v1i,
                circulator.wf_for(t),
                circulator.vertex == base_vertex,
                valid_edge(t, anchor.0, anchor.1),
                t.edge_start(anchor.0, anchor.1) == basei,
                anchor == (ring_face.0 as int, ring_edge.0 as int),
                rank == (if start_orientation is Clockwise { 0int } else { 1int }),
                period >= 1,
                steps < period,
                start_orientation is Clockwise ==> {
                    &&& ccw_iter(t, anchor.0, anchor.1, period) == anchor
                    &&& (circulator.face.0 as int, circulator.edge.0 as int) == ccw_iter(
                        t,
                        anchor.0,
                        anchor.1,
                        steps,
                    )
                    &&& steps >= 1
                    &&& forall|i: nat|
                        i < steps ==> far_clockwise(
                            t,
                            v0i,
                            v1i,
                            #[trigger] ccw_iter(t, anchor.0, anchor.1, i).0,
                            ccw_iter(t, anchor.0, anchor.1, i).1,
                        )
                },
                !(start_orientation is Clockwise) ==> {
                    &&& cw_iter(t, anchor.0, anchor.1, period) == anchor
                    &&& (circulator.face.0 as int, circulator.edge.0 as int) == cw_iter(
                        t,
                        anchor.0,
                        anchor.1,
                        steps,
                    )
                    &&& forall|i: nat|
                        i < steps ==> far_skipped(
                            t,
                            v0i,
                            #[trigger] cw_iter(t, anchor.0, anchor.1, i).0,
                            cw_iter(t, anchor.0, anchor.1, i).1,
                        ) || far_counterclockwise_ish(
                            t,
                            v0i,
                            v1i,
                            starti,
                            cw_iter(t, anchor.0, anchor.1, i).0,
                            cw_iter(t, anchor.0, anchor.1, i).1,
                        )
                },
                start_orientation is CounterClockwise ==> steps >= 1,
            decreases rank, period - steps,
        {
            let ghost cf = circulator.face.0 as int;
            let ghost ce = circulator.edge.0 as int;
            proof {
                assert(t.face_wf(cf));
            }
            let vertex = circulator.end_vertex(tri);
            if tri.is_infinite_vertex(vertex) || vertex == self.v0 {
                proof {
                    assert(far_skipped(t, v0i, cf, ce));
                }
                if start_orientation.is_cw() {
                    // the walk is pivoting counterclockwise out of a
                    // strictly clockwise stretch; skipping this edge would
                    // pivot backward, and the walk could never pass it
                    proof {
                        assert(ccw_iter(t, anchor.0, anchor.1, steps) == (cf, ce));
                        assert(vertex_search_anomaly(t, v0i, v1i, basei, starti));
                    }
                    return Err(TriError::CorruptTriangulation);
                }
                circulator.advance_cw(tri);
                proof {
                    assert(cw_iter(t, anchor.0, anchor.1, steps + 1) == (
                        circulator.face.0 as int,
                        circulator.edge.0 as int,
                    ));
                }
                if circulator.face() == ring_face && circulator.edge() == ring_edge {
                    // a full ring without a single strictly clockwise far
                    // vertex: the segment wedge does not exist on this ring
                    proof {
                        assert(cw_iter(t, anchor.0, anchor.1, steps + 1) == anchor);
                        assert forall|i: nat| i < steps + 1 implies far_skipped(
                            t,
                            v0i,
                            #[trigger] cw_iter(t, anchor.0, anchor.1, i).0,
                            cw_iter(t, anchor.0, anchor.1, i).1,
                        ) || far_counterclockwise_ish(
                            t,
                            v0i,
                            v1i,
                            starti,
                            cw_iter(t, anchor.0, anchor.1, i).0,
                            cw_iter(t, anchor.0, anchor.1, i).1,
                        ) by {
                            if i == steps {
                                assert(cw_iter(t, anchor.0, anchor.1, i) == (cf, ce));
                            }
                        }
                        assert(vertex_search_anomaly(t, v0i, v1i, basei, starti));
                    }
                    return Err(TriError::CorruptTriangulation);
                }
                proof {
                    assert forall|i: nat| i < steps + 1 implies far_skipped(
                        t,
                        v0i,
                        #[trigger] cw_iter(t, anchor.0, anchor.1, i).0,
                        cw_iter(t, anchor.0, anchor.1, i).1,
                    ) || far_counterclockwise_ish(
                        t,
                        v0i,
                        v1i,
                        starti,
                        cw_iter(t, anchor.0, anchor.1, i).0,
                        cw_iter(t, anchor.0, anchor.1, i).1,
                    ) by {
                        if i == steps {
                            assert(cw_iter(t, anchor.0, anchor.1, i) == (cf, ce));
                        }
                    }
                    steps = steps + 1;
                }
                continue;
            }
            proof {
                assert(t.valid_vertex(vertex.0 as int));
                assert(t.is_finite_vertex(vertex.0 as int));
            }
            if vertex == self.v1 {
                return Ok(Some(Crossing::CoincidentEdge {
                    face: circulator.face(),
                    edge: circulator.edge(),
                }));
            }
            let orient_here: Orientation = if vertex == start_vertex {
                // the edge back toward the arrival edge is the opposite
                // direction of the crossing edge; any side works for the
                // rotation
                Orientation::CounterClockwise
            } else {
                let p0 = *tri.vertex(self.v0).position();
                let p1 = *tri.vertex(self.v1).position();
                let pos = *tri.vertex(vertex).position();
                let orient = orientation(p0, p1, pos);
                if orient.is_collinear() {
                    match test_collinear_points(p0, p1, pos) {
                        CollinearTest::Before => {
                            // collinear but on the far side of the source:
                            // treat like any side and keep rotating
                            Orientation::CounterClockwise
                        },
                        CollinearTest::First | CollinearTest::Second | CollinearTest::After => {
                            // a distinct vertex at the source, at the
                            // target, or on the line beyond the target
                            proof {
                                assert(far_collinear_anomaly(t, v0i, v1i, starti, cf, ce));
                                assert(vertex_search_anomaly(t, v0i, v1i, basei, starti));
                            }
                            return Err(TriError::CorruptTriangulation);
                        },
                        CollinearTest::Between => {
                            return Ok(Some(Crossing::CoincidentEdge {
                                face: circulator.face(),
                                edge: circulator.edge(),
                            }));
                        },
                    }
                } else if orient.is_ccw() {
                    Orientation::CounterClockwise
                } else {
                    Orientation::Clockwise
                }
            };
            if start_orientation.is_collinear() {
                // the first examined edge fixes the circulating direction
                start_orientation = orient_here;
                if orient_here.is_cw() {
                    // the walk will pivot counterclockwise from here on;
                    // re-anchor the ring at this edge
                    ring_face = circulator.face();
                    ring_edge = circulator.edge();
                    proof {
                        anchor = (ring_face.0 as int, ring_edge.0 as int);
                        steps = 0;
                        rank = 0;
                        lemma_orbit_closes(t, anchor.0, anchor.1);
                        period = choose|d: nat|
                            1 <= d <= 3 * t.faces.len() && #[trigger] ccw_iter(
                                t,
                                anchor.0,
                                anchor.1,
                                d,
                            ) == anchor;
                    }
                }
            }
            if start_orientation != orient_here {
                // the side changed: the wedge between this edge and the
                // previous one straddles the segment
                if orient_here.is_ccw() {
                    // the wedge was passed during the last counterclockwise
                    // pivot; go back to it
                    proof {
                        let prev = ccw_iter(t, anchor.0, anchor.1, (steps - 1) as nat);
                        lemma_ccw_iter_wf(t, anchor.0, anchor.1, (steps - 1) as nat);
                        lemma_pivots_inverse(t, prev.0, prev.1);
                        assert(ccw_iter(t, anchor.0, anchor.1, steps) == (cf, ce));
                        assert(cw_step(t, cf, ce) == prev);
                        lemma_ccw_step_end(t, prev.0, prev.1);
                    }
                    circulator.advance_cw(tri);
                    proof {
                        // the edge gone back to carries the clockwise side
                        // of the wedge; the edge just examined carries the
                        // other side
                        assert(far_clockwise(
                            t,
                            v0i,
                            v1i,
                            circulator.face.0 as int,
                            circulator.edge.0 as int,
                        ));
                    }
                } else {
                    // walking clockwise, the previous edge carries the
                    // counterclockwise side of the wedge
                    proof {
                        let prev = cw_iter(t, anchor.0, anchor.1, (steps - 1) as nat);
                        lemma_cw_iter_wf(t, anchor.0, anchor.1, (steps - 1) as nat);
                        lemma_pivots_inverse(t, prev.0, prev.1);
                        assert(cw_iter(t, anchor.0, anchor.1, steps) == (cf, ce));
                        assert(ccw_step(t, cf, ce) == prev);
                        lemma_ccw_step_end(t, cf, ce);
                    }
                }
                return Ok(Some(Crossing::Start {
                    face: circulator.face(),
                    vertex: circulator.edge().increment(),
                }));
            } else if start_orientation.is_ccw() {
                circulator.advance_cw(tri);
                proof {
                    assert(cw_iter(t, anchor.0, anchor.1, steps + 1) == (
                        circulator.face.0 as int,
                        circulator.edge.0 as int,
                    ));
                    assert(far_counterclockwise_ish(t, v0i, v1i, starti, cf, ce));
                    assert forall|i: nat| i < steps + 1 implies far_skipped(
                        t,
                        v0i,
                        #[trigger] cw_iter(t, anchor.0, anchor.1, i).0,
                        cw_iter(t, anchor.0, anchor.1, i).1,
                    ) || far_counterclockwise_ish(
                        t,
                        v0i,
                        v1i,
                        starti,
                        cw_iter(t, anchor.0, anchor.1, i).0,
                        cw_iter(t, anchor.0, anchor.1, i).1,
                    ) by {
                        if i == steps {
                            assert(cw_iter(t, anchor.0, anchor.1, i) == (cf, ce));
                        }
                    }
                }
                if circulator.face() == ring_face && circulator.edge() == ring_edge {
                    // a full ring with nothing on the clockwise side
                    proof {
                        assert(cw_iter(t, anchor.0, anchor.1, steps + 1) == anchor);
                        assert(vertex_search_anomaly(t, v0i, v1i, basei, starti));
                    }
                    return Err(TriError::CorruptTriangulation);
                }
                proof {
                    steps = steps + 1;
                }
            } else {
                // the fixed direction is clockwise of the line: pivot
                // counterclockwise toward the segment
                circulator.advance_ccw(tri);
                proof {
                    assert(ccw_iter(t, anchor.0, anchor.1, steps) == (cf, ce));
                    assert(ccw_iter(t, anchor.0, anchor.1, steps + 1) == (
                        circulator.face.0 as int,
                        circulator.edge.0 as int,
                    ));
                    assert(far_clockwise(t, v0i, v1i, cf, ce));
                    assert forall|i: nat| i < steps + 1 implies far_clockwise(
                        t,
                        v0i,
                        v1i,
                        #[trigger] ccw_iter(t, anchor.0, anchor.1, i).0,
                        ccw_iter(t, anchor.0, anchor.1, i).1,
                    ) by {
                        if i == steps {
                            assert(ccw_iter(t, anchor.0, anchor.1, i) == (cf, ce));
                        }
                    }
                }
                if circulator.face() == ring_face && circulator.edge() == ring_edge {
                    // a full ring that lies strictly clockwise throughout
                    proof {
                        assert(ccw_iter(t, anchor.0, anchor.1, steps + 1) == anchor);
                        assert(vertex_search_anomaly(t, v0i, v1i, basei, starti));
                    }
                    return Err(TriError::CorruptTriangulation);
                }
                proof {
                    steps = steps + 1;
                }
            }
        }
    }

    /// Find the next crossing by stepping across `(start_face, start_edge)`
    /// into the neighbor face.
    fn search_edge(&self, tri: &Triangulation, start_face: FaceIndex, start_edge: Rot3) -> (r:
        Crossing)
        requires
            qualified(tri@, self.v0.0 as int, self.v1.0 as int),
            valid_edge(tri@, start_face.0 as int, start_edge.0 as int),
        ensures
            r == edge_search_spec(
                tri@,
                self.v0.0 as int,
                self.v1.0 as int,
                start_face.0 as int,
                start_edge.0 as int,
            ),
            crossing_valid(tri@, r),
    {
        proof {
            assert(tri@.face_wf(start_face.0 as int));
            assert(tri@.twin_wf(start_face.0 as int, start_edge.0 as int));
        }
        let face = tri.face(start_face).neighbor(start_edge);
        proof {
            assert(tri@.face_wf(face.0 as int));
        }
        let vertex_index = match tri.face(face).get_neighbor_index(start_face) {
            Some(i) => i,
            None => {
                proof {
                    assert(false);
                }
                Rot3(0)
            },
        };
        let vertex = tri.face(face).vertex(vertex_index);
        if vertex == self.v1 {
            return Crossing::End { face, vertex: vertex_index };
        }
        let p0 = *tri.vertex(self.v0).position();
        let p1 = *tri.vertex(self.v1).position();
        let pn = *tri.vertex(vertex).position();
        let orient = orientation(p0, p1, pn);
        if orient.is_collinear() {
            Crossing::End { face, vertex: vertex_index }
        } else if orient.is_ccw() {
            Crossing::NegativeEdge { face, edge: vertex_index.increment() }
        } else {
            Crossing::PositiveEdge { face, edge: vertex_index.decrement() }
        }
    }

    /// Return the buffered crossing and compute its successor following the
    /// transition table.
    fn advance(&mut self, tri: &Triangulation) -> (r: Result<Option<Crossing>, TriError>)
        requires
            old(self).inv(tri@),
        ensures
            final(self).spec_v0() == old(self).spec_v0(),
            final(self).spec_v1() == old(self).spec_v1(),
            (r matches Ok(c) ==> {
                &&& c == old(self).spec_current()
                &&& final(self).inv(tri@)
                &&& final(self).history() == (match c {
                    Some(cc) => old(self).history().push(cc),
                    None => old(self).history(),
                })
                &&& step_post(
                    tri@,
                    old(self).spec_v0(),
                    old(self).spec_v1(),
                    old(self).spec_current(),
                    final(self).spec_current(),
                )
            }),
            (r matches Err(e) ==> *final(self) == *old(self)
                && e == TriError::CorruptTriangulation && advance_anomaly(
                tri@,
                old(self).spec_v0(),
                old(self).spec_v1(),
                old(self).spec_current(),
            )),
    {
        let next: Option<Crossing> = match self.current {
            None => None,
            Some(Crossing::Start { face, vertex }) => Some(self.search_edge(tri, face, vertex)),
            Some(Crossing::End { face, vertex }) => {
                proof {
                    assert(tri@.face_wf(face.0 as int));
                }
                let base = tri.face(face).vertex(vertex);
                match self.search_vertex(tri, base, self.v0) {
                    Ok(o) => o,
                    Err(e) => {
                        return Err(e);
                    },
                }
            },
            Some(Crossing::CoincidentEdge { face, edge }) => {
                proof {
                    assert(tri@.face_wf(face.0 as int));
                }
                let b = tri.face(face).vertex(edge.decrement());
                let s = tri.face(face).vertex(edge.increment());
                match self.search_vertex(tri, b, s) {
                    Ok(o) => o,
                    Err(e) => {
                        return Err(e);
                    },
                }
            },
            Some(Crossing::PositiveEdge { face, edge }) => Some(self.search_edge(tri, face, edge)),
            Some(Crossing::NegativeEdge { face, edge }) => Some(self.search_edge(tri, face, edge)),
        };
        let prev = self.current;
        self.current = next;
        match prev {
            Some(c) => {
                self.emitted = Ghost(self.emitted@.push(c));
                proof {
                    assert(self.emitted@.drop_last() =~= old(self).emitted@);
                    assert(self.emitted@.last() == c);
                }
            },
            None => {},
        }
        Ok(prev)
    }

    /// Pull the next crossing.  The returned crossing is the buffered one;
    /// its successor is computed per the transition table, so the sequence
    /// of pulled crossings always forms a reachable run.  A coincident
    /// edge that ends at the target is always the last crossing.
    pub fn next(&mut self, tri: &Triangulation) -> (r: Result<Option<Crossing>, TriError>)
        requires
            old(self).inv(tri@),
        ensures
            final(self).spec_v0() == old(self).spec_v0(),
            final(self).spec_v1() == old(self).spec_v1(),
            (r matches Ok(c) ==> {
                &&& c == old(self).spec_current()
                &&& final(self).inv(tri@)
                &&& final(self).history() == (match c {
                    Some(cc) => old(self).history().push(cc),
                    None => old(self).history(),
                })
                &&& step_post(
                    tri@,
                    old(self).spec_v0(),
                    old(self).spec_v1(),
                    old(self).spec_current(),
                    final(self).spec_current(),
                )
                &&& ((c matches Some(cc) && cc matches Crossing::CoincidentEdge { face, edge }
                    && tri@.edge_end(face.0 as int, edge.0 as int) == old(self).spec_v1())
                    ==> final(self).spec_current() is None)
            }),
            (r matches Err(e) ==> *final(self) == *old(self)
                && e == TriError::CorruptTriangulation && advance_anomaly(
                tri@,
                old(self).spec_v0(),
                old(self).spec_v1(),
                old(self).spec_current(),
            )),
    {
        self.advance(tri)
    }
}

} // verus!
