//! Topological queries layered on the graph: resolving vertex clues,
//! twin-edge lookup and finding the edge between two vertices.

use vstd::prelude::*;

use crate::circulator::{ccw_iter, lemma_ccw_iter_reduce, lemma_orbit_closes, valid_edge, EdgeCirculator};
use crate::geometry::Position;
use crate::graph::{TriView, Triangulation, Vertex, VertexView};
use crate::types::{rot_decr, rot_incr, FaceEdge, FaceIndex, Rot3, TriError, VertexClue, VertexIndex};

verus! {

/// The clue names an existing vertex or an edge of an existing face.
pub open spec fn clue_valid(t: TriView, clue: VertexClue) -> bool {
    match clue {
        VertexClue::VertexIndex(v) => t.valid_vertex(v.0 as int),
        VertexClue::FaceVertex(f, r) => t.valid_face(f.0 as int) && r.0 < 3,
        VertexClue::EdgeStart(f, r) => t.valid_face(f.0 as int) && r.0 < 3,
        VertexClue::EdgeEnd(f, r) => t.valid_face(f.0 as int) && r.0 < 3,
    }
}

/// The vertex handle a clue stands for: direct handles pass through, the
/// face relative forms read the named corner of the face.
pub open spec fn resolve_clue(t: TriView, clue: VertexClue) -> int {
    match clue {
        VertexClue::VertexIndex(v) => v.0 as int,
        VertexClue::FaceVertex(f, r) => t.face_vertex(f.0 as int, r.0 as int),
        VertexClue::EdgeStart(f, r) => t.face_vertex(f.0 as int, rot_incr(r.0 as int)),
        VertexClue::EdgeEnd(f, r) => t.face_vertex(f.0 as int, rot_decr(r.0 as int)),
    }
}

/// Resolution is the identity on direct vertex handles.
pub proof fn lemma_resolve_direct(t: TriView, v: VertexIndex)
    ensures
        resolve_clue(t, VertexClue::VertexIndex(v)) == v.0 as int,
{
}

/// The twin of edge `(f, e)`: the neighbor across the edge, together with
/// the first rotation at which that neighbor lists `f` back.
pub open spec fn opposite_spec(t: TriView, f: int, e: int) -> (int, int) {
    let n = t.faces[f].ns[e];
    (n, t.faces[n].nbr_index(f))
}

/// What `opposite_edge` returns: the twin when the neighbor links agree,
/// and a corruption report when they do not.
pub open spec fn opposite_post(t: TriView, edge: FaceEdge, r: Result<FaceEdge, TriError>) -> bool {
    let f = edge.face.0 as int;
    let e = edge.edge.0 as int;
    let n = t.faces[f].ns[e];
    if t.valid_face(n) && t.faces[n].nbr_index(f) != -1 {
        r == Ok::<FaceEdge, TriError>(
            (FaceEdge {
                face: FaceIndex(n as usize),
                edge: Rot3(t.faces[n].nbr_index(f) as u8),
            }),
        )
    } else {
        r == Err::<FaceEdge, TriError>(TriError::CorruptTriangulation)
    }
}

/// Twin symmetry: on a well formed triangulation, taking the opposite edge
/// twice returns the original edge.
pub proof fn lemma_opposite_edge_involution(t: TriView, f: int, e: int)
    requires
        t.wf(),
        t.valid_face(f),
        0 <= e < 3,
    ensures
        ({
            let (n, rr) = opposite_spec(t, f, e);
            &&& t.valid_face(n)
            &&& 0 <= rr < 3
            &&& opposite_spec(t, n, rr) == (f, e)
        }),
{
    assert(t.face_wf(f));
    let n = t.faces[f].ns[e];
    assert(t.twin_wf(f, e));
    assert(t.face_wf(n));
    let rr = t.faces[n].nbr_index(f);
    assert(t.faces[n].ns[rr] == f);
}

/// The triangulation holds an edge from `v0` to `v1`.
pub open spec fn directly_connected(t: TriView, v0: int, v1: int) -> bool {
    exists|f: int, e: int|
        valid_edge(t, f, e) && #[trigger] t.edge_start(f, e) == v0 && t.edge_end(f, e) == v1
}

/// One edge starting at `v` reaches another by counterclockwise pivots.
pub open spec fn reaches(t: TriView, f: int, e: int, f2: int, e2: int) -> bool {
    exists|k: nat| #[trigger] ccw_iter(t, f, e, k) == (f2, e2)
}

/// All edges that start at `v` lie on one circulator ring.  This is the
/// umbrella property of a manifold vertex; the structural invariant `wf`
/// does not demand it, so answers that depend on having seen the whole
/// neighborhood of a vertex state it as an explicit hypothesis.
pub open spec fn umbrella(t: TriView, v: int) -> bool {
    forall|f: int, e: int, f2: int, e2: int|
        #![trigger t.edge_start(f, e), t.edge_start(f2, e2)]
        valid_edge(t, f, e) && t.edge_start(f, e) == v && valid_edge(t, f2, e2)
            && t.edge_start(f2, e2) == v ==> reaches(t, f, e, f2, e2)
}

/// A full ring around `a` that misses `b`, together with the umbrella
/// property at `a`, rules out any edge from `a` to `b`.
pub proof fn lemma_ring_rules_out_edge(t: TriView, a: int, b: int)
    requires
        ring_without(t, a, b),
        umbrella(t, a),
    ensures
        !directly_connected(t, a, b),
{
    let (f0, e0, d) = choose|f0: int, e0: int, d: nat|
        {
            &&& valid_edge(t, f0, e0)
            &&& t.edge_start(f0, e0) == a
            &&& d >= 1
            &&& #[trigger] ccw_iter(t, f0, e0, d) == (f0, e0)
            &&& forall|k: nat|
                k < d ==> t.edge_end(
                    #[trigger] ccw_iter(t, f0, e0, k).0,
                    ccw_iter(t, f0, e0, k).1,
                ) != b
        };
    if directly_connected(t, a, b) {
        let (f, e) = choose|f: int, e: int|
            valid_edge(t, f, e) && #[trigger] t.edge_start(f, e) == a && t.edge_end(f, e) == b;
        assert(reaches(t, f0, e0, f, e));
        let k = choose|k: nat| #[trigger] ccw_iter(t, f0, e0, k) == (f, e);
        lemma_ccw_iter_reduce(t, f0, e0, d, k);
        let r = choose|r: nat| r < d && #[trigger] ccw_iter(t, f0, e0, r) == ccw_iter(t, f0, e0, k);
        assert(t.edge_end(ccw_iter(t, f0, e0, r).0, ccw_iter(t, f0, e0, r).1) != b);
        assert(false);
    }
}

/// Some full counterclockwise ring around `a` contains no edge ending at
/// `b`.
pub open spec fn ring_without(t: TriView, a: int, b: int) -> bool {
    exists|f0: int, e0: int, d: nat|
        {
            &&& valid_edge(t, f0, e0)
            &&& t.edge_start(f0, e0) == a
            &&& d >= 1
            &&& #[trigger] ccw_iter(t, f0, e0, d) == (f0, e0)
            &&& forall|k: nat|
                k < d ==> t.edge_end(
                    #[trigger] ccw_iter(t, f0, e0, k).0,
                    ccw_iter(t, f0, e0, k).1,
                ) != b
        }
}

/// Flexible queries against the topology graph.  All answers are stated
/// over the combinatorial model `topo()`.
pub trait TopologyQuery: Sized {
    /// The combinatorial model the queries are answered against.
    spec fn topo(&self) -> TriView;

    /// Resolve a clue to the vertex handle it names.
    fn vi(&self, id: VertexClue) -> (r: VertexIndex)
        requires
            clue_valid(self.topo(), id),
        ensures
            r.0 as int == resolve_clue(self.topo(), id);

    /// The vertex a clue names.
    fn v(&self, id: VertexClue) -> (r: &Vertex)
        requires
            clue_valid(self.topo(), id),
            self.topo().valid_vertex(resolve_clue(self.topo(), id)),
        ensures
            r@ == self.topo().vertices[resolve_clue(self.topo(), id)];

    /// Change the vertex a clue names, through a mutable borrow.
    fn v_mut(&mut self, id: VertexClue) -> (r: &mut Vertex)
        requires
            clue_valid(old(self).topo(), id),
            old(self).topo().valid_vertex(resolve_clue(old(self).topo(), id)),
        ensures
            (*r)@ == old(self).topo().vertices[resolve_clue(old(self).topo(), id)],
            final(self).topo() =~~= (TriView {
                vertices: old(self).topo().vertices.update(
                    resolve_clue(old(self).topo(), id),
                    (*final(r))@,
                ),
                ..old(self).topo()
            });

    /// The position of the vertex a clue names.
    fn p(&self, id: VertexClue) -> (r: &Position)
        requires
            clue_valid(self.topo(), id),
            self.topo().valid_vertex(resolve_clue(self.topo(), id)),
        ensures
            *r == self.topo().pos(resolve_clue(self.topo(), id));

    /// Change the position of the vertex a clue names, through a mutable
    /// borrow.
    fn p_mut(&mut self, id: VertexClue) -> (r: &mut Position)
        requires
            clue_valid(old(self).topo(), id),
            old(self).topo().valid_vertex(resolve_clue(old(self).topo(), id)),
        ensures
            *r == old(self).topo().pos(resolve_clue(old(self).topo(), id)),
            final(self).topo() =~~= (TriView {
                vertices: old(self).topo().vertices.update(
                    resolve_clue(old(self).topo(), id),
                    (VertexView {
                        position: *final(r),
                        face: old(self).topo().vertices[resolve_clue(
                            old(self).topo(),
                            id,
                        )].face,
                    }),
                ),
                ..old(self).topo()
            });

    /// The constraint tag stored for a face edge.
    fn c(&self, edge: FaceEdge) -> (r: bool)
        requires
            self.topo().valid_face(edge.face.0 as int),
            edge.edge.is_valid(),
        ensures
            r == self.topo().faces[edge.face.0 as int].cs[edge.edge.0 as int];

    /// The twin representation of an edge.  Reports a corrupt triangulation
    /// when the neighbor across the edge does not list the origin face back;
    /// on a well formed triangulation it always succeeds.
    fn opposite_edge(&self, edge: FaceEdge) -> (r: Result<FaceEdge, TriError>)
        requires
            self.topo().valid_face(edge.face.0 as int),
            edge.edge.is_valid(),
        ensures
            opposite_post(self.topo(), edge, r),
            self.topo().wf() ==> (r matches Ok(o) && o.face.0 as int == opposite_spec(
                self.topo(),
                edge.face.0 as int,
                edge.edge.0 as int,
            ).0 && o.edge.0 as int == opposite_spec(
                self.topo(),
                edge.face.0 as int,
                edge.edge.0 as int,
            ).1);

    /// Circulate the edges around `a` and return the first one that ends at
    /// `b`, or nothing once a full ring was walked without a match.  The
    /// walk always terminates on a well formed triangulation, because the
    /// counterclockwise pivot is invertible.
    fn find_edge_by_vertex(&self, a: VertexIndex, b: VertexIndex) -> (r: Option<FaceEdge>)
        requires
            self.topo().wf(),
            self.topo().valid_vertex(a.0 as int),
        ensures
            match r {
                Some(e) => {
                    &&& valid_edge(self.topo(), e.face.0 as int, e.edge.0 as int)
                    &&& self.topo().edge_start(e.face.0 as int, e.edge.0 as int) == a.0 as int
                    &&& self.topo().edge_end(e.face.0 as int, e.edge.0 as int) == b.0 as int
                },
                None => ring_without(self.topo(), a.0 as int, b.0 as int) && (umbrella(
                    self.topo(),
                    a.0 as int,
                ) ==> !directly_connected(self.topo(), a.0 as int, b.0 as int)),
            };
}

impl TopologyQuery for Triangulation {
    open spec fn topo(&self) -> TriView {
        self@
    }

    fn vi(&self, id: VertexClue) -> (r: VertexIndex) {
        match id {
            VertexClue::VertexIndex(v) => v,
            VertexClue::FaceVertex(face, vertex) => self.face(face).vertex(vertex),
            VertexClue::EdgeStart(face, edge) => self.face(face).vertex(edge.increment()),
            VertexClue::EdgeEnd(face, edge) => self.face(face).vertex(edge.decrement()),
        }
    }

    fn v(&self, id: VertexClue) -> (r: &Vertex) {
        let vi = self.vi(id);
        self.vertex(vi)
    }

    fn v_mut(&mut self, id: VertexClue) -> (r: &mut Vertex) {
        let vi = self.vi(id);
        self.vertex_mut(vi)
    }

    fn p(&self, id: VertexClue) -> (r: &Position) {
        let vi = self.vi(id);
        self.vertex(vi).position()
    }

    fn p_mut(&mut self, id: VertexClue) -> (r: &mut Position) {
        let vi = self.vi(id);
        self.position_mut(vi)
    }

    fn c(&self, edge: FaceEdge) -> (r: bool) {
        self.face(edge.face).constraint(edge.edge)
    }

    fn opposite_edge(&self, edge: FaceEdge) -> (r: Result<FaceEdge, TriError>) {
        proof {
            if self@.wf() {
                assert(self@.face_wf(edge.face.0 as int));
                assert(self@.twin_wf(edge.face.0 as int, edge.edge.0 as int));
            }
        }
        let nf = self.face(edge.face).neighbor(edge.edge);
        if nf.0 >= self.face_count() {
            return Err(TriError::CorruptTriangulation);
        }
        match self.face(nf).get_neighbor_index(edge.face) {
            Some(i) => Ok(FaceEdge { face: nf, edge: i }),
            None => Err(TriError::CorruptTriangulation),
        }
    }

    fn find_edge_by_vertex(&self, a: VertexIndex, b: VertexIndex) -> (r: Option<FaceEdge>) {
        let mut circ = EdgeCirculator::new(self, a);
        circ.advance_ccw(self);
        let start_face = circ.face;
        let start_edge = circ.edge;
        let ghost s1: (int, int) = (circ.face.0 as int, circ.edge.0 as int);
        proof {
            lemma_orbit_closes(self@, s1.0, s1.1);
        }
        // the walk closes after some positive number of pivots; the loop can
        // run at most that many times
        let ghost d = choose|d: nat|
            1 <= d <= 3 * self@.faces.len() && #[trigger] ccw_iter(self@, s1.0, s1.1, d) == (
                s1.0,
                s1.1,
            );
        let ghost mut i: nat = 0;
        loop
            invariant
                self@.wf(),
                self@.valid_vertex(a.0 as int),
                circ.wf_for(self@),
                circ.vertex == a,
                valid_edge(self@, s1.0, s1.1),
                self@.edge_start(s1.0, s1.1) == a.0 as int,
                start_face.0 as int == s1.0,
                start_edge.0 as int == s1.1,
                1 <= d,
                ccw_iter(self@, s1.0, s1.1, d) == (s1.0, s1.1),
                i < d,
                (circ.face.0 as int, circ.edge.0 as int) == ccw_iter(self@, s1.0, s1.1, i),
                forall|k: nat|
                    k < i ==> self@.edge_end(
                        #[trigger] ccw_iter(self@, s1.0, s1.1, k).0,
                        ccw_iter(self@, s1.0, s1.1, k).1,
                    ) != b.0 as int,
            decreases d - i,
        {
            let w = circ.end_vertex(self);
            if w == b {
                return Some(FaceEdge { face: circ.face, edge: circ.edge });
            }
            proof {
                assert forall|k: nat| k < i + 1 implies self@.edge_end(
                    #[trigger] ccw_iter(self@, s1.0, s1.1, k).0,
                    ccw_iter(self@, s1.0, s1.1, k).1,
                ) != b.0 as int by {
                    if k == i {
                        assert(ccw_iter(self@, s1.0, s1.1, k) == (
                            circ.face.0 as int,
                            circ.edge.0 as int,
                        ));
                    }
                }
            }
            circ.advance_ccw(self);
            proof {
                i = i + 1;
                assert(ccw_iter(self@, s1.0, s1.1, i) == (
                    circ.face.0 as int,
                    circ.edge.0 as int,
                ));
            }
            if circ.face == start_face && circ.edge == start_edge {
                proof {
                    assert(ccw_iter(self@, s1.0, s1.1, i) == (s1.0, s1.1));
                    assert(ring_without(self@, a.0 as int, b.0 as int)) by {
                        assert({
                            &&& valid_edge(self@, s1.0, s1.1)
                            &&& self@.edge_start(s1.0, s1.1) == a.0 as int
                            &&& i >= 1
                            &&& ccw_iter(self@, s1.0, s1.1, i) == (s1.0, s1.1)
                            &&& forall|k: nat|
                                k < i ==> self@.edge_end(
                                    #[trigger] ccw_iter(self@, s1.0, s1.1, k).0,
                                    ccw_iter(self@, s1.0, s1.1, k).1,
                                ) != b.0 as int
                        });
                    }
                    if umbrella(self@, a.0 as int) {
                        lemma_ring_rules_out_edge(self@, a.0 as int, b.0 as int);
                    }
                }
                return None;
            }
        }
    }
}

} // verus!
