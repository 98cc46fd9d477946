//! A stateful walker over the edges incident to a fixed base vertex.
//!
//! The circulator always rests on an oriented edge whose start vertex is the
//! base vertex.  One clockwise or counterclockwise pivot crosses into the
//! neighboring face that shares one of the two edges at the base corner; on
//! a structurally sound triangulation both pivots always succeed, and they
//! are inverses of each other.

use vstd::prelude::*;

use crate::graph::{TriView, Triangulation};
use crate::types::{rot_decr, rot_incr, FaceIndex, Rot3, VertexIndex};

verus! {

/// `(f, e)` names an edge of an existing face.
pub open spec fn valid_edge(t: TriView, f: int, e: int) -> bool {
    t.valid_face(f) && 0 <= e < 3
}

/// One counterclockwise pivot around the start vertex of `(f, e)`: cross
/// the other edge at the base corner and rest on its twin.
pub open spec fn ccw_step(t: TriView, f: int, e: int) -> (int, int) {
    let d = rot_decr(e);
    let n = t.faces[f].ns[d];
    (n, t.faces[n].nbr_index(f))
}

/// One clockwise pivot around the start vertex of `(f, e)`: cross the
/// current edge itself and rest on the edge after its twin.
pub open spec fn cw_step(t: TriView, f: int, e: int) -> (int, int) {
    let n = t.faces[f].ns[e];
    (n, rot_incr(t.faces[n].nbr_index(f)))
}

/// `k` counterclockwise pivots.
pub open spec fn ccw_iter(t: TriView, f: int, e: int, k: nat) -> (int, int)
    decreases k,
{
    if k == 0 {
        (f, e)
    } else {
        let s = ccw_iter(t, f, e, (k - 1) as nat);
        ccw_step(t, s.0, s.1)
    }
}

/// `k` clockwise pivots.
pub open spec fn cw_iter(t: TriView, f: int, e: int, k: nat) -> (int, int)
    decreases k,
{
    if k == 0 {
        (f, e)
    } else {
        let s = cw_iter(t, f, e, (k - 1) as nat);
        cw_step(t, s.0, s.1)
    }
}

/// In a well formed face, a neighbor slot is recovered from its handle.
proof fn lemma_nbr_index_of(t: TriView, f: int, slot: int)
    requires
        t.valid_face(f),
        t.faces[f].wf(),
        0 <= slot < 3,
    ensures
        t.faces[f].nbr_index(t.faces[f].ns[slot]) == slot,
{
}

/// A counterclockwise pivot lands on a valid edge with the same start
/// vertex.
pub proof fn lemma_ccw_step_wf(t: TriView, f: int, e: int)
    requires
        t.wf(),
        valid_edge(t, f, e),
    ensures
        valid_edge(t, ccw_step(t, f, e).0, ccw_step(t, f, e).1),
        t.edge_start(ccw_step(t, f, e).0, ccw_step(t, f, e).1) == t.edge_start(f, e),
{
    let d = rot_decr(e);
    assert(t.face_wf(f));
    let n = t.faces[f].ns[d];
    assert(t.twin_wf(f, d));
    assert(t.face_wf(n));
}

/// A clockwise pivot lands on a valid edge with the same start vertex.
pub proof fn lemma_cw_step_wf(t: TriView, f: int, e: int)
    requires
        t.wf(),
        valid_edge(t, f, e),
    ensures
        valid_edge(t, cw_step(t, f, e).0, cw_step(t, f, e).1),
        t.edge_start(cw_step(t, f, e).0, cw_step(t, f, e).1) == t.edge_start(f, e),
{
    assert(t.face_wf(f));
    let n = t.faces[f].ns[e];
    assert(t.twin_wf(f, e));
    assert(t.face_wf(n));
}

/// The two pivots are inverses of each other.
pub proof fn lemma_pivots_inverse(t: TriView, f: int, e: int)
    requires
        t.wf(),
        valid_edge(t, f, e),
    ensures
        cw_step(t, ccw_step(t, f, e).0, ccw_step(t, f, e).1) == (f, e),
        ccw_step(t, cw_step(t, f, e).0, cw_step(t, f, e).1) == (f, e),
{
    assert(t.face_wf(f));
    let d = rot_decr(e);
    let n1 = t.faces[f].ns[d];
    assert(t.twin_wf(f, d));
    assert(t.face_wf(n1));
    let dd = t.faces[n1].nbr_index(f);
    assert(t.faces[n1].ns[dd] == f);
    lemma_nbr_index_of(t, f, d);
    let n2 = t.faces[f].ns[e];
    assert(t.twin_wf(f, e));
    assert(t.face_wf(n2));
    let rr = t.faces[n2].nbr_index(f);
    assert(t.faces[n2].ns[rr] == f);
    lemma_nbr_index_of(t, f, e);
}

/// The far vertex after one counterclockwise pivot is the third corner of
/// the current face: a face's wedge at the base corner is spanned by its
/// own far vertex and the far vertex of the next edge counterclockwise.
pub proof fn lemma_ccw_step_end(t: TriView, f: int, e: int)
    requires
        t.wf(),
        valid_edge(t, f, e),
    ensures
        t.edge_end(ccw_step(t, f, e).0, ccw_step(t, f, e).1) == t.faces[f].vs[e],
{
    assert(t.face_wf(f));
    let d = rot_decr(e);
    assert(t.twin_wf(f, d));
    assert(t.face_wf(t.faces[f].ns[d]));
}

/// Every iterated counterclockwise pivot stays on a valid edge with the
/// same start vertex.
pub proof fn lemma_ccw_iter_wf(t: TriView, f: int, e: int, k: nat)
    requires
        t.wf(),
        valid_edge(t, f, e),
    ensures
        valid_edge(t, ccw_iter(t, f, e, k).0, ccw_iter(t, f, e, k).1),
        t.edge_start(ccw_iter(t, f, e, k).0, ccw_iter(t, f, e, k).1) == t.edge_start(f, e),
    decreases k,
{
    if k > 0 {
        lemma_ccw_iter_wf(t, f, e, (k - 1) as nat);
        let s = ccw_iter(t, f, e, (k - 1) as nat);
        lemma_ccw_step_wf(t, s.0, s.1);
    }
}

/// Every iterated clockwise pivot stays on a valid edge with the same
/// start vertex.
pub proof fn lemma_cw_iter_wf(t: TriView, f: int, e: int, k: nat)
    requires
        t.wf(),
        valid_edge(t, f, e),
    ensures
        valid_edge(t, cw_iter(t, f, e, k).0, cw_iter(t, f, e, k).1),
        t.edge_start(cw_iter(t, f, e, k).0, cw_iter(t, f, e, k).1) == t.edge_start(f, e),
    decreases k,
{
    if k > 0 {
        lemma_cw_iter_wf(t, f, e, (k - 1) as nat);
        let s = cw_iter(t, f, e, (k - 1) as nat);
        lemma_cw_step_wf(t, s.0, s.1);
    }
}

/// Splitting an iterated counterclockwise walk.
proof fn lemma_ccw_iter_add(t: TriView, f: int, e: int, a: nat, b: nat)
    ensures
        ccw_iter(t, f, e, a + b) == ccw_iter(
            t,
            ccw_iter(t, f, e, a).0,
            ccw_iter(t, f, e, a).1,
            b,
        ),
    decreases b,
{
    if b > 0 {
        lemma_ccw_iter_add(t, f, e, a, (b - 1) as nat);
        assert(a + b - 1 == a + ((b - 1) as nat));
    }
}

/// Splitting an iterated clockwise walk.
proof fn lemma_cw_iter_add(t: TriView, f: int, e: int, a: nat, b: nat)
    ensures
        cw_iter(t, f, e, a + b) == cw_iter(t, cw_iter(t, f, e, a).0, cw_iter(t, f, e, a).1, b),
    decreases b,
{
    if b > 0 {
        lemma_cw_iter_add(t, f, e, a, (b - 1) as nat);
        assert(a + b - 1 == a + ((b - 1) as nat));
    }
}

/// `k` clockwise pivots undo `k` counterclockwise pivots.
proof fn lemma_cw_undoes_ccw(t: TriView, f: int, e: int, k: nat)
    requires
        t.wf(),
        valid_edge(t, f, e),
    ensures
        cw_iter(t, ccw_iter(t, f, e, k).0, ccw_iter(t, f, e, k).1, k) == (f, e),
    decreases k,
{
    if k > 0 {
        let prev = ccw_iter(t, f, e, (k - 1) as nat);
        lemma_ccw_iter_wf(t, f, e, (k - 1) as nat);
        let s = ccw_iter(t, f, e, k);
        lemma_pivots_inverse(t, prev.0, prev.1);
        // one clockwise pivot from s returns to prev, and k - 1 more return home
        lemma_cw_iter_add(t, s.0, s.1, 1nat, (k - 1) as nat);
        assert(cw_iter(t, s.0, s.1, 0nat) == (s.0, s.1));
        assert(cw_iter(t, s.0, s.1, 1nat) == cw_step(t, s.0, s.1));
        lemma_cw_undoes_ccw(t, f, e, (k - 1) as nat);
        assert(1nat + ((k - 1) as nat) == k);
    }
}

/// The counterclockwise walk around a vertex returns to its starting edge
/// within three pivots per face: the pivot is invertible, so the first
/// repeated edge of the walk must be the starting edge itself.
pub proof fn lemma_orbit_closes(t: TriView, f: int, e: int)
    requires
        t.wf(),
        valid_edge(t, f, e),
    ensures
        exists|d: nat|
            1 <= d <= 3 * t.faces.len() && #[trigger] ccw_iter(t, f, e, d) == (f, e),
{
    let nn = 3 * t.faces.len() as int;
    if forall|j: int, k: int|
        0 <= j < k <= nn ==> #[trigger] ccw_iter(t, f, e, j as nat) != #[trigger] ccw_iter(
            t,
            f,
            e,
            k as nat,
        ) {
        // encode every iterate as an integer below 3 * |faces|
        let encs = Seq::<int>::new(
            (nn + 1) as nat,
            |k: int|
                {
                    let s = ccw_iter(t, f, e, k as nat);
                    s.0 * 3 + s.1
                },
        );
        assert forall|j: int, k: int| 0 <= j < k < encs.len() implies encs[j] != encs[k] by {
            lemma_ccw_iter_wf(t, f, e, j as nat);
            lemma_ccw_iter_wf(t, f, e, k as nat);
        }
        assert(encs.no_duplicates());
        encs.unique_seq_to_set();
        assert forall|x: int| encs.to_set().contains(x) implies vstd::set_lib::set_int_range(
            0,
            nn,
        ).contains(x) by {
            let k = choose|k: int| 0 <= k < encs.len() && encs[k] == x;
            lemma_ccw_iter_wf(t, f, e, k as nat);
        }
        vstd::set_lib::lemma_int_range(0, nn);
        vstd::set_lib::lemma_len_subset(encs.to_set(), vstd::set_lib::set_int_range(0, nn));
        assert(false);
    }
    let (j, k) = choose|j: int, k: int|
        0 <= j < k <= nn && #[trigger] ccw_iter(t, f, e, j as nat) == #[trigger] ccw_iter(
            t,
            f,
            e,
            k as nat,
        );
    let d = (k - j) as nat;
    let sd = ccw_iter(t, f, e, d);
    lemma_ccw_iter_wf(t, f, e, d);
    lemma_ccw_iter_add(t, f, e, d, j as nat);
    assert(d + j == k);
    // the state after k pivots is the state after d pivots walked j further;
    // undoing those j pivots on both sides of the repeat equation lands the
    // d-pivot state back on the start
    lemma_cw_undoes_ccw(t, f, e, j as nat);
    lemma_cw_undoes_ccw(t, sd.0, sd.1, j as nat);
    assert(ccw_iter(t, f, e, d) == (f, e));
}

/// The clockwise walk around a vertex returns to its starting edge within
/// three pivots per face as well.
pub proof fn lemma_cw_orbit_closes(t: TriView, f: int, e: int)
    requires
        t.wf(),
        valid_edge(t, f, e),
    ensures
        exists|d: nat| 1 <= d <= 3 * t.faces.len() && #[trigger] cw_iter(t, f, e, d) == (f, e),
{
    lemma_orbit_closes(t, f, e);
    let d = choose|d: nat|
        1 <= d <= 3 * t.faces.len() && #[trigger] ccw_iter(t, f, e, d) == (f, e);
    lemma_cw_undoes_ccw(t, f, e, d);
    assert(cw_iter(t, f, e, d) == (f, e));
}

/// Any number of counterclockwise pivots on a cycle of period `d` lands on
/// one of the cycle's first `d` edges.
pub proof fn lemma_ccw_iter_reduce(t: TriView, f: int, e: int, d: nat, k: nat)
    requires
        d >= 1,
        ccw_iter(t, f, e, d) == (f, e),
    ensures
        exists|r: nat| r < d && #[trigger] ccw_iter(t, f, e, r) == ccw_iter(t, f, e, k),
    decreases k,
{
    if k < d {
        assert(ccw_iter(t, f, e, k) == ccw_iter(t, f, e, k));
    } else {
        lemma_ccw_iter_add(t, f, e, d, (k - d) as nat);
        assert(d + ((k - d) as nat) == k);
        lemma_ccw_iter_reduce(t, f, e, d, (k - d) as nat);
        let r = choose|r: nat|
            r < d && #[trigger] ccw_iter(t, f, e, r) == ccw_iter(t, f, e, (k - d) as nat);
        assert(ccw_iter(t, f, e, r) == ccw_iter(t, f, e, k));
    }
}

/// Circulator closure, seen from any edge of the cycle: if `d`
/// counterclockwise pivots from `(f, e)` return to `(f, e)`, then `d`
/// counterclockwise pivots return home from every edge that the walk
/// reaches.
pub proof fn lemma_circulator_closure(t: TriView, f: int, e: int, d: nat, k: nat)
    requires
        t.wf(),
        valid_edge(t, f, e),
        ccw_iter(t, f, e, d) == (f, e),
    ensures
        ccw_iter(t, ccw_iter(t, f, e, k).0, ccw_iter(t, f, e, k).1, d) == ccw_iter(t, f, e, k),
{
    let s = ccw_iter(t, f, e, k);
    lemma_ccw_iter_add(t, f, e, k, d);
    lemma_ccw_iter_add(t, f, e, d, k);
    assert(k + d == d + k);
}

/// Circulator closure for the clockwise walk: a cycle closed by `d`
/// counterclockwise pivots is closed by `d` clockwise pivots as well.
pub proof fn lemma_circulator_closure_cw(t: TriView, f: int, e: int, d: nat)
    requires
        t.wf(),
        valid_edge(t, f, e),
        ccw_iter(t, f, e, d) == (f, e),
    ensures
        cw_iter(t, f, e, d) == (f, e),
{
    lemma_cw_undoes_ccw(t, f, e, d);
}

/// The canonical edge at which circulation around `v` starts: the edge of
/// the vertex's own back-reference face that begins at `v`.
pub open spec fn vertex_start_edge(t: TriView, v: int) -> (int, int) {
    let f = t.vertices[v].face;
    (f, rot_decr(t.faces[f].vertex_index(v)))
}

/// On a well formed triangulation the canonical edge is a real edge that
/// starts at its vertex.
pub proof fn lemma_vertex_start_edge_wf(t: TriView, v: int)
    requires
        t.wf(),
        t.valid_vertex(v),
    ensures
        valid_edge(t, vertex_start_edge(t, v).0, vertex_start_edge(t, v).1),
        t.edge_start(vertex_start_edge(t, v).0, vertex_start_edge(t, v).1) == v,
{
    assert(t.vertex_wf(v));
    let f = t.vertices[v].face;
    assert(t.face_wf(f));
}

/// `d` is the degree of vertex `v`: the least positive number of
/// counterclockwise pivots that carries the canonical edge of `v` back to
/// itself, which is the number of edges on the circulator ring through that
/// edge.
pub open spec fn is_vertex_degree(t: TriView, v: int, d: nat) -> bool {
    let s = vertex_start_edge(t, v);
    &&& d >= 1
    &&& ccw_iter(t, s.0, s.1, d) == s
    &&& forall|k: nat| 1 <= k < d ==> ccw_iter(t, s.0, s.1, k) != s
}

/// A cycle of some positive period has a least positive period.
proof fn lemma_least_period(t: TriView, f: int, e: int, d0: nat)
    requires
        d0 >= 1,
        ccw_iter(t, f, e, d0) == (f, e),
    ensures
        exists|d: nat|
            {
                &&& 1 <= d <= d0
                &&& #[trigger] ccw_iter(t, f, e, d) == (f, e)
                &&& forall|k: nat| 1 <= k < d ==> ccw_iter(t, f, e, k) != (f, e)
            },
    decreases d0,
{
    if forall|k: nat| 1 <= k < d0 ==> #[trigger] ccw_iter(t, f, e, k) != (f, e) {
        assert(ccw_iter(t, f, e, d0) == (f, e));
    } else {
        let k = choose|k: nat| 1 <= k < d0 && #[trigger] ccw_iter(t, f, e, k) == (f, e);
        lemma_least_period(t, f, e, k);
        let d = choose|d: nat|
            {
                &&& 1 <= d <= k
                &&& #[trigger] ccw_iter(t, f, e, d) == (f, e)
                &&& forall|kk: nat| 1 <= kk < d ==> ccw_iter(t, f, e, kk) != (f, e)
            };
        assert(ccw_iter(t, f, e, d) == (f, e));
    }
}

/// Every vertex of a well formed triangulation has a degree.
pub proof fn lemma_degree_exists(t: TriView, v: int)
    requires
        t.wf(),
        t.valid_vertex(v),
    ensures
        exists|d: nat| #[trigger] is_vertex_degree(t, v, d),
{
    let s = vertex_start_edge(t, v);
    lemma_vertex_start_edge_wf(t, v);
    lemma_orbit_closes(t, s.0, s.1);
    let d0 = choose|d0: nat|
        1 <= d0 <= 3 * t.faces.len() && #[trigger] ccw_iter(t, s.0, s.1, d0) == (s.0, s.1);
    lemma_least_period(t, s.0, s.1, d0);
    let d = choose|d: nat|
        {
            &&& 1 <= d <= d0
            &&& #[trigger] ccw_iter(t, s.0, s.1, d) == (s.0, s.1)
            &&& forall|k: nat| 1 <= k < d ==> ccw_iter(t, s.0, s.1, k) != (s.0, s.1)
        };
    assert(is_vertex_degree(t, v, d));
}

/// Circulator closure in degree form: around a vertex of degree `d`, `d`
/// counterclockwise pivots return every edge of the ring to itself, and so
/// do `d` clockwise pivots.
pub proof fn lemma_degree_closure(t: TriView, v: int, d: nat, k: nat)
    requires
        t.wf(),
        t.valid_vertex(v),
        is_vertex_degree(t, v, d),
    ensures
        ({
            let s = vertex_start_edge(t, v);
            let here = ccw_iter(t, s.0, s.1, k);
            &&& ccw_iter(t, here.0, here.1, d) == here
            &&& cw_iter(t, here.0, here.1, d) == here
        }),
{
    let s = vertex_start_edge(t, v);
    lemma_vertex_start_edge_wf(t, v);
    lemma_circulator_closure(t, s.0, s.1, d, k);
    let here = ccw_iter(t, s.0, s.1, k);
    lemma_ccw_iter_wf(t, s.0, s.1, k);
    lemma_circulator_closure_cw(t, here.0, here.1, d);
}

/// The edge circulator: the base vertex and the oriented edge it currently
/// rests on.  The edge always starts at the base vertex.
#[derive(Clone, Copy, Debug, PartialEq, Eq, Structural)]
pub struct EdgeCirculator {
    pub vertex: VertexIndex,
    pub face: FaceIndex,
    pub edge: Rot3,
}

impl EdgeCirculator {
    /// The circulator rests on a valid edge of `t` that starts at its base
    /// vertex.
    pub open spec fn wf_for(self, t: TriView) -> bool {
        &&& t.wf()
        &&& valid_edge(t, self.face.0 as int, self.edge.0 as int)
        &&& t.valid_vertex(self.vertex.0 as int)
        &&& t.edge_start(self.face.0 as int, self.edge.0 as int) == self.vertex.0 as int
    }

    /// Start circulating at the face recorded in the vertex itself.
    pub fn new(tri: &Triangulation, v: VertexIndex) -> (c: EdgeCirculator)
        requires
            tri@.wf(),
            tri@.valid_vertex(v.0 as int),
        ensures
            c.wf_for(tri@),
            c.vertex == v,
            c.face.0 as int == tri@.vertices[v.0 as int].face,
    {
        proof {
            assert(tri@.vertex_wf(v.0 as int));
        }
        let face = tri.vertex(v).face();
        let corner = match tri.face(face).get_vertex_index(v) {
            Some(corner) => corner,
            None => Rot3(0),
        };
        EdgeCirculator { vertex: v, face, edge: corner.decrement() }
    }

    pub fn face(&self) -> (r: FaceIndex)
        ensures
            r == self.face,
    {
        self.face
    }

    pub fn edge(&self) -> (r: Rot3)
        ensures
            r == self.edge,
    {
        self.edge
    }

    pub fn base_vertex(&self) -> (r: VertexIndex)
        ensures
            r == self.vertex,
    {
        self.vertex
    }

    /// The far vertex of the current edge.
    pub fn end_vertex(&self, tri: &Triangulation) -> (r: VertexIndex)
        requires
            self.wf_for(tri@),
        ensures
            r.0 as int == tri@.edge_end(self.face.0 as int, self.edge.0 as int),
    {
        tri.face(self.face).vertex(self.edge.decrement())
    }

    /// Pivot counterclockwise to the next face around the base vertex.
    pub fn advance_ccw(&mut self, tri: &Triangulation)
        requires
            old(self).wf_for(tri@),
        ensures
            final(self).wf_for(tri@),
            final(self).vertex == old(self).vertex,
            (final(self).face.0 as int, final(self).edge.0 as int) == ccw_step(
                tri@,
                old(self).face.0 as int,
                old(self).edge.0 as int,
            ),
    {
        proof {
            lemma_ccw_step_wf(tri@, self.face.0 as int, self.edge.0 as int);
            assert(tri@.face_wf(self.face.0 as int));
        }
        let d = self.edge.decrement();
        let n = tri.face(self.face).neighbor(d);
        match tri.face(n).get_neighbor_index(self.face) {
            Some(i) => {
                self.face = n;
                self.edge = i;
            }
            None => {
                proof {
                    assert(tri@.twin_wf(self.face.0 as int, d.0 as int));
                    assert(false);
                }
            }
        }
    }

    /// Pivot clockwise to the previous face around the base vertex.
    pub fn advance_cw(&mut self, tri: &Triangulation)
        requires
            old(self).wf_for(tri@),
        ensures
            final(self).wf_for(tri@),
            final(self).vertex == old(self).vertex,
            (final(self).face.0 as int, final(self).edge.0 as int) == cw_step(
                tri@,
                old(self).face.0 as int,
                old(self).edge.0 as int,
            ),
    {
        proof {
            lemma_cw_step_wf(tri@, self.face.0 as int, self.edge.0 as int);
            assert(tri@.face_wf(self.face.0 as int));
        }
        let n = tri.face(self.face).neighbor(self.edge);
        match tri.face(n).get_neighbor_index(self.face) {
            Some(i) => {
                self.face = n;
                self.edge = i.increment();
            }
            None => {
                proof {
                    assert(tri@.twin_wf(self.face.0 as int, self.edge.0 as int));
                    assert(false);
                }
            }
        }
    }
}

} // verus!
