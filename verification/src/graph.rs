//! The topology graph: vertex and face arenas with explicit neighbor links.
//!
//! A face owns three vertex handles and three neighbor handles, both indexed
//! by a rotation.  The neighbor at rotation `r` is the face across the edge
//! opposite corner `r`.  The central structural invariant is the twin
//! relation: every neighbor must itself list the origin face among its
//! neighbors, across the same undirected edge.

use vstd::prelude::*;

use crate::geometry::Position;
use crate::types::{rot_decr, rot_incr, FaceIndex, Rot3, VertexIndex};

verus! {

/// A mesh vertex: its position, and one face it belongs to, used to pick a
/// starting edge when circulating around the vertex.
#[derive(Clone, Copy, Debug)]
pub struct Vertex {
    pub(crate) position: Position,
    pub(crate) face: FaceIndex,
}

/// Mathematical model of a vertex.
#[verifier::ext_equal]
pub struct VertexView {
    pub position: Position,
    pub face: int,
}

impl View for Vertex {
    type V = VertexView;

    closed spec fn view(&self) -> VertexView {
        VertexView { position: self.position, face: self.face.0 as int }
    }
}

impl Vertex {
    pub fn position(&self) -> (r: &Position)
        ensures
            *r == self@.position,
    {
        &self.position
    }

    pub fn face(&self) -> (r: FaceIndex)
        ensures
            r.0 as int == self@.face,
    {
        self.face
    }

    /// Move the vertex to a new position.
    pub fn set_position(&mut self, position: Position)
        ensures
            final(self)@ == (VertexView { position, face: old(self)@.face }),
    {
        self.position = position;
    }
}

/// A triangular face: three vertices, three neighbors and three constraint
/// tags, all indexed by a rotation.
#[derive(Clone, Copy, Debug)]
pub struct Face {
    pub(crate) vertices: [VertexIndex; 3],
    pub(crate) neighbors: [FaceIndex; 3],
    pub(crate) constraints: [bool; 3],
}

/// Mathematical model of a face: vertex handles, neighbor handles and
/// constraint tags as three sequences of length 3.
#[verifier::ext_equal]
pub struct FaceView {
    pub vs: Seq<int>,
    pub ns: Seq<int>,
    pub cs: Seq<bool>,
}

impl View for Face {
    type V = FaceView;

    closed spec fn view(&self) -> FaceView {
        FaceView {
            vs: seq![
                self.vertices@[0].0 as int,
                self.vertices@[1].0 as int,
                self.vertices@[2].0 as int,
            ],
            ns: seq![
                self.neighbors@[0].0 as int,
                self.neighbors@[1].0 as int,
                self.neighbors@[2].0 as int,
            ],
            cs: seq![self.constraints@[0], self.constraints@[1], self.constraints@[2]],
        }
    }
}

impl FaceView {
    /// The three sequences have length 3, the vertices are pairwise distinct
    /// and the neighbors are pairwise distinct.
    pub open spec fn wf(self) -> bool {
        &&& self.vs.len() == 3
        &&& self.ns.len() == 3
        &&& self.cs.len() == 3
        &&& self.vs[0] != self.vs[1]
        &&& self.vs[0] != self.vs[2]
        &&& self.vs[1] != self.vs[2]
        &&& self.ns[0] != self.ns[1]
        &&& self.ns[0] != self.ns[2]
        &&& self.ns[1] != self.ns[2]
    }

    /// The first rotation whose neighbor handle equals `g`, or `-1`.
    pub open spec fn nbr_index(self, g: int) -> int {
        if self.ns[0] == g {
            0
        } else if self.ns[1] == g {
            1
        } else if self.ns[2] == g {
            2
        } else {
            -1
        }
    }

    /// The first rotation whose vertex handle equals `v`, or `-1`.
    pub open spec fn vertex_index(self, v: int) -> int {
        if self.vs[0] == v {
            0
        } else if self.vs[1] == v {
            1
        } else if self.vs[2] == v {
            2
        } else {
            -1
        }
    }

    pub open spec fn has_vertex(self, v: int) -> bool {
        self.vs[0] == v || self.vs[1] == v || self.vs[2] == v
    }
}

impl Face {
    /// The vertex at corner `r`.
    pub fn vertex(&self, r: Rot3) -> (v: VertexIndex)
        requires
            r.is_valid(),
        ensures
            v.0 as int == self@.vs[r.0 as int],
    {
        self.vertices[r.0 as usize]
    }

    /// The face across the edge opposite corner `r`.
    pub fn neighbor(&self, r: Rot3) -> (n: FaceIndex)
        requires
            r.is_valid(),
        ensures
            n.0 as int == self@.ns[r.0 as int],
    {
        self.neighbors[r.0 as usize]
    }

    /// The constraint tag of the edge opposite corner `r`.
    pub fn constraint(&self, r: Rot3) -> (c: bool)
        requires
            r.is_valid(),
        ensures
            c == self@.cs[r.0 as int],
    {
        self.constraints[r.0 as usize]
    }

    /// The first rotation at which `g` appears among the neighbors.
    pub fn get_neighbor_index(&self, g: FaceIndex) -> (r: Option<Rot3>)
        ensures
            match r {
                Some(rot) => rot.0 as int == self@.nbr_index(g.0 as int) && rot.is_valid(),
                None => self@.nbr_index(g.0 as int) == -1,
            },
    {
        if self.neighbors[0] == g {
            Some(Rot3(0))
        } else if self.neighbors[1] == g {
            Some(Rot3(1))
        } else if self.neighbors[2] == g {
            Some(Rot3(2))
        } else {
            None
        }
    }

    /// The first rotation at which `v` appears among the vertices.
    pub fn get_vertex_index(&self, v: VertexIndex) -> (r: Option<Rot3>)
        ensures
            match r {
                Some(rot) => rot.0 as int == self@.vertex_index(v.0 as int) && rot.is_valid(),
                None => self@.vertex_index(v.0 as int) == -1,
            },
    {
        if self.vertices[0] == v {
            Some(Rot3(0))
        } else if self.vertices[1] == v {
            Some(Rot3(1))
        } else if self.vertices[2] == v {
            Some(Rot3(2))
        } else {
            None
        }
    }
}

/// Mathematical model of the whole triangulation.
#[verifier::ext_equal]
pub struct TriView {
    pub vertices: Seq<VertexView>,
    pub faces: Seq<FaceView>,
    pub infinite: int,
    pub dimension: int,
}

impl TriView {
    pub open spec fn valid_vertex(self, v: int) -> bool {
        0 <= v < self.vertices.len()
    }

    pub open spec fn valid_face(self, f: int) -> bool {
        0 <= f < self.faces.len()
    }

    /// A valid vertex handle other than the infinite vertex.
    pub open spec fn is_finite_vertex(self, v: int) -> bool {
        self.valid_vertex(v) && v != self.infinite
    }

    pub open spec fn is_two_dimensional(self) -> bool {
        self.dimension == 2
    }

    /// The position stored at vertex `v`.
    pub open spec fn pos(self, v: int) -> Position {
        self.vertices[v].position
    }

    /// The vertex handle at corner `r` of face `f`.
    pub open spec fn face_vertex(self, f: int, r: int) -> int {
        self.faces[f].vs[r]
    }

    /// The start vertex of the oriented edge `(f, e)`: corner `e + 1`.
    pub open spec fn edge_start(self, f: int, e: int) -> int {
        self.faces[f].vs[rot_incr(e)]
    }

    /// The end vertex of the oriented edge `(f, e)`: corner `e + 2`.
    pub open spec fn edge_end(self, f: int, e: int) -> int {
        self.faces[f].vs[rot_decr(e)]
    }

    /// Local soundness of one face: well formed, with valid and distinct
    /// handles, and no face its own neighbor.
    pub open spec fn face_wf(self, f: int) -> bool {
        let fv = self.faces[f];
        &&& fv.wf()
        &&& forall|r: int| 0 <= r < 3 ==> self.valid_vertex(#[trigger] fv.vs[r])
        &&& forall|r: int| 0 <= r < 3 ==> self.valid_face(#[trigger] fv.ns[r]) && fv.ns[r] != f
    }

    /// The twin relation at edge `(f, r)`: the neighbor across the edge
    /// lists `f` back, the shared edge has the same two vertices in the
    /// opposite order, and the two corners across the edge differ.
    pub open spec fn twin_wf(self, f: int, r: int) -> bool {
        let n = self.faces[f].ns[r];
        let rr = self.faces[n].nbr_index(f);
        &&& rr != -1
        &&& self.faces[n].vs[rot_incr(rr)] == self.faces[f].vs[rot_decr(r)]
        &&& self.faces[n].vs[rot_decr(rr)] == self.faces[f].vs[rot_incr(r)]
        &&& self.faces[n].vs[rr] != self.faces[f].vs[r]
    }

    /// The back reference of vertex `v` points at a face that really
    /// contains `v`.
    pub open spec fn vertex_wf(self, v: int) -> bool {
        let f = self.vertices[v].face;
        self.valid_face(f) && self.faces[f].has_vertex(v)
    }

    /// Structural soundness of the whole graph.
    pub open spec fn wf(self) -> bool {
        &&& self.vertices.len() <= usize::MAX
        &&& self.faces.len() <= usize::MAX
        &&& 0 <= self.infinite < self.vertices.len()
        &&& forall|v: int| 0 <= v < self.vertices.len() ==> self.vertex_wf(v)
        &&& forall|f: int| 0 <= f < self.faces.len() ==> self.face_wf(f)
        &&& forall|f: int, r: int|
            0 <= f < self.faces.len() && 0 <= r < 3 ==> self.twin_wf(f, r)
    }
}

/// The triangulation: the two arenas, the handle of the infinite vertex and
/// the combinatorial dimension.  The arenas are owned exclusively; they are
/// read and changed only through the methods of this type and of the query
/// trait layered on it.
#[derive(Debug)]
pub struct Triangulation {
    pub(crate) vertices: Vec<Vertex>,
    pub(crate) faces: Vec<Face>,
    pub(crate) infinite: VertexIndex,
    pub(crate) dimension: i8,
}

impl View for Triangulation {
    type V = TriView;

    closed spec fn view(&self) -> TriView {
        TriView {
            vertices: self.vertices@.map(|i: int, v: Vertex| v@),
            faces: self.faces@.map(|i: int, f: Face| f@),
            infinite: self.infinite.0 as int,
            dimension: self.dimension as int,
        }
    }
}

impl Triangulation {
    /// An empty triangulation of dimension `-1`.
    pub fn new() -> (t: Triangulation)
        ensures
            t@.vertices.len() == 0,
            t@.faces.len() == 0,
            t@.infinite == 0,
            t@.dimension == -1,
    {
        Triangulation {
            vertices: Vec::new(),
            faces: Vec::new(),
            infinite: VertexIndex(0),
            dimension: -1,
        }
    }

    pub fn vertex_count(&self) -> (r: usize)
        ensures
            r as int == self@.vertices.len(),
    {
        self.vertices.len()
    }

    pub fn face_count(&self) -> (r: usize)
        ensures
            r as int == self@.faces.len(),
    {
        self.faces.len()
    }

    pub fn dimension(&self) -> (r: i8)
        ensures
            r as int == self@.dimension,
    {
        self.dimension
    }

    pub fn infinite_vertex(&self) -> (r: VertexIndex)
        ensures
            r.0 as int == self@.infinite,
    {
        self.infinite
    }

    pub fn is_infinite_vertex(&self, v: VertexIndex) -> (r: bool)
        ensures
            r == (self@.valid_vertex(v.0 as int) && v.0 as int == self@.infinite),
    {
        v.0 < self.vertices.len() && v == self.infinite
    }

    pub fn is_finite_vertex(&self, v: VertexIndex) -> (r: bool)
        ensures
            r == self@.is_finite_vertex(v.0 as int),
    {
        v.0 < self.vertices.len() && v != self.infinite
    }

    pub fn vertex(&self, v: VertexIndex) -> (r: &Vertex)
        requires
            self@.valid_vertex(v.0 as int),
        ensures
            r@ == self@.vertices[v.0 as int],
    {
        &self.vertices[v.0]
    }

    pub fn face(&self, f: FaceIndex) -> (r: &Face)
        requires
            self@.valid_face(f.0 as int),
        ensures
            r@ == self@.faces[f.0 as int],
    {
        &self.faces[f.0]
    }

    /// Mutable access to a vertex.
    pub fn vertex_mut(&mut self, v: VertexIndex) -> (r: &mut Vertex)
        requires
            old(self)@.valid_vertex(v.0 as int),
        ensures
            (*r)@ == old(self)@.vertices[v.0 as int],
            final(self)@ =~~= (TriView {
                vertices: old(self)@.vertices.update(v.0 as int, (*final(r))@),
                ..old(self)@
            }),
    {
        &mut self.vertices[v.0]
    }

    /// Mutable access to the position of a vertex.
    pub fn position_mut(&mut self, v: VertexIndex) -> (r: &mut Position)
        requires
            old(self)@.valid_vertex(v.0 as int),
        ensures
            *r == old(self)@.vertices[v.0 as int].position,
            final(self)@ =~~= (TriView {
                vertices: old(self)@.vertices.update(
                    v.0 as int,
                    (VertexView {
                        position: *final(r),
                        face: old(self)@.vertices[v.0 as int].face,
                    }),
                ),
                ..old(self)@
            }),
    {
        &mut self.vertices[v.0].position
    }

    /// Append a vertex; its face back reference starts at face 0 and is set
    /// once the incident faces exist.
    pub fn add_vertex(&mut self, position: Position) -> (v: VertexIndex)
        ensures
            v.0 as int == old(self)@.vertices.len(),
            final(self)@.vertices == old(self)@.vertices.push(
                (VertexView { position, face: 0 }),
            ),
            final(self)@.faces == old(self)@.faces,
            final(self)@.infinite == old(self)@.infinite,
            final(self)@.dimension == old(self)@.dimension,
    {
        let v = VertexIndex(self.vertices.len());
        self.vertices.push(Vertex { position, face: FaceIndex(0) });
        proof {
            assert(self@.vertices =~= old(self)@.vertices.push(
                (VertexView { position, face: 0 }),
            ));
        }
        v
    }

    /// Append a face with the given corner vertices and neighbors and with
    /// unconstrained edges.
    pub fn add_face(&mut self, vertices: [VertexIndex; 3], neighbors: [FaceIndex; 3]) -> (f:
        FaceIndex)
        ensures
            f.0 as int == old(self)@.faces.len(),
            final(self)@.faces == old(self)@.faces.push(
                (FaceView {
                    vs: seq![
                        vertices[0].0 as int,
                        vertices[1].0 as int,
                        vertices[2].0 as int,
                    ],
                    ns: seq![
                        neighbors[0].0 as int,
                        neighbors[1].0 as int,
                        neighbors[2].0 as int,
                    ],
                    cs: seq![false, false, false],
                }),
            ),
            final(self)@.vertices == old(self)@.vertices,
            final(self)@.infinite == old(self)@.infinite,
            final(self)@.dimension == old(self)@.dimension,
    {
        let f = FaceIndex(self.faces.len());
        self.faces.push(Face { vertices, neighbors, constraints: [false, false, false] });
        proof {
            assert(self@.faces =~= old(self)@.faces.push(
                (FaceView {
                    vs: seq![
                        vertices@[0].0 as int,
                        vertices@[1].0 as int,
                        vertices@[2].0 as int,
                    ],
                    ns: seq![
                        neighbors@[0].0 as int,
                        neighbors@[1].0 as int,
                        neighbors@[2].0 as int,
                    ],
                    cs: seq![false, false, false],
                }),
            ));
        }
        f
    }

    /// Point the back reference of vertex `v` at face `f`.
    pub fn set_vertex_face(&mut self, v: VertexIndex, f: FaceIndex)
        requires
            old(self)@.valid_vertex(v.0 as int),
        ensures
            final(self)@.vertices == old(self)@.vertices.update(
                v.0 as int,
                (VertexView { position: old(self)@.vertices[v.0 as int].position, face: f.0 as int }),
            ),
            final(self)@.faces == old(self)@.faces,
            final(self)@.infinite == old(self)@.infinite,
            final(self)@.dimension == old(self)@.dimension,
    {
        self.vertices[v.0].face = f;
        proof {
            assert(self@.vertices =~= old(self)@.vertices.update(
                v.0 as int,
                (VertexView { position: old(self)@.vertices[v.0 as int].position, face: f.0 as int }),
            ));
        }
    }

    /// Set the neighbor of face `f` across the edge opposite corner `r`.
    pub fn set_neighbor(&mut self, f: FaceIndex, r: Rot3, n: FaceIndex)
        requires
            old(self)@.valid_face(f.0 as int),
            r.is_valid(),
        ensures
            final(self)@.faces == old(self)@.faces.update(
                f.0 as int,
                (FaceView {
                    ns: old(self)@.faces[f.0 as int].ns.update(r.0 as int, n.0 as int),
                    ..old(self)@.faces[f.0 as int]
                }),
            ),
            final(self)@.vertices == old(self)@.vertices,
            final(self)@.infinite == old(self)@.infinite,
            final(self)@.dimension == old(self)@.dimension,
    {
        self.faces[f.0].neighbors[r.0 as usize] = n;
        proof {
            assert(self@.faces =~~= old(self)@.faces.update(
                f.0 as int,
                (FaceView {
                    ns: old(self)@.faces[f.0 as int].ns.update(r.0 as int, n.0 as int),
                    ..old(self)@.faces[f.0 as int]
                }),
            ));
        }
    }

    /// Set the constraint tag of the edge opposite corner `r` of face `f`.
    pub fn set_constraint(&mut self, f: FaceIndex, r: Rot3, c: bool)
        requires
            old(self)@.valid_face(f.0 as int),
            r.is_valid(),
        ensures
            final(self)@.faces == old(self)@.faces.update(
                f.0 as int,
                (FaceView {
                    cs: old(self)@.faces[f.0 as int].cs.update(r.0 as int, c),
                    ..old(self)@.faces[f.0 as int]
                }),
            ),
            final(self)@.vertices == old(self)@.vertices,
            final(self)@.infinite == old(self)@.infinite,
            final(self)@.dimension == old(self)@.dimension,
    {
        self.faces[f.0].constraints[r.0 as usize] = c;
        proof {
            assert(self@.faces =~~= old(self)@.faces.update(
                f.0 as int,
                (FaceView {
                    cs: old(self)@.faces[f.0 as int].cs.update(r.0 as int, c),
                    ..old(self)@.faces[f.0 as int]
                }),
            ));
        }
    }

    /// Declare which vertex closes the unbounded outer region.
    pub fn set_infinite_vertex(&mut self, v: VertexIndex)
        ensures
            final(self)@.infinite == v.0 as int,
            final(self)@.vertices == old(self)@.vertices,
            final(self)@.faces == old(self)@.faces,
            final(self)@.dimension == old(self)@.dimension,
    {
        self.infinite = v;
    }

    /// Walk every vertex and every face and decide whether the structural
    /// invariant holds: valid and distinct handles everywhere, every vertex
    /// back reference on a face that contains it, and the twin relation
    /// across every edge.
    pub fn is_well_formed(&self) -> (r: bool)
        ensures
            r == self@.wf(),
    {
        let nv = self.vertices.len();
        let nf = self.faces.len();
        if self.infinite.0 >= nv {
            return false;
        }
        let mut i: usize = 0;
        while i < nv
            invariant
                i <= nv,
                nv == self.vertices.len(),
                nf == self.faces.len(),
                forall|j: int| 0 <= j < i ==> self@.vertex_wf(j),
            decreases nv - i,
        {
            let vf = self.vertices[i].face;
            if vf.0 >= nf {
                proof {
                    assert(!self@.vertex_wf(i as int));
                }
                return false;
            }
            let face = &self.faces[vf.0];
            let vi = VertexIndex(i);
            if !(face.vertices[0] == vi || face.vertices[1] == vi || face.vertices[2] == vi) {
                proof {
                    assert(!self@.vertex_wf(i as int));
                }
                return false;
            }
            proof {
                assert(self@.vertex_wf(i as int));
            }
            i = i + 1;
        }
        let mut f: usize = 0;
        while f < nf
            invariant
                f <= nf,
                nv == self.vertices.len(),
                nf == self.faces.len(),
                self@.infinite < nv,
                forall|j: int| 0 <= j < nv ==> self@.vertex_wf(j),
                forall|j: int| 0 <= j < f ==> self@.face_wf(j),
                forall|j: int, r: int| 0 <= j < f && 0 <= r < 3 ==> self@.twin_wf(j, r),
            decreases nf - f,
        {
            let face = &self.faces[f];
            if !(face.vertices[0].0 < nv && face.vertices[1].0 < nv && face.vertices[2].0 < nv) {
                proof {
                    assert(!self@.face_wf(f as int));
                }
                return false;
            }
            if face.vertices[0] == face.vertices[1] || face.vertices[0] == face.vertices[2]
                || face.vertices[1] == face.vertices[2] {
                proof {
                    assert(!self@.face_wf(f as int));
                }
                return false;
            }
            if !(face.neighbors[0].0 < nf && face.neighbors[1].0 < nf && face.neighbors[2].0 < nf) {
                proof {
                    assert(!self@.face_wf(f as int));
                }
                return false;
            }
            if face.neighbors[0].0 == f || face.neighbors[1].0 == f || face.neighbors[2].0 == f {
                proof {
                    assert(!self@.face_wf(f as int));
                }
                return false;
            }
            if face.neighbors[0] == face.neighbors[1] || face.neighbors[0] == face.neighbors[2]
                || face.neighbors[1] == face.neighbors[2] {
                proof {
                    assert(!self@.face_wf(f as int));
                }
                return false;
            }
            proof {
                assert(self@.face_wf(f as int));
            }
            let mut r: usize = 0;
            while r < 3
                invariant
                    r <= 3,
                    f < nf,
                    nv == self.vertices.len(),
                    nf == self.faces.len(),
                    self@.face_wf(f as int),
                    forall|k: int| 0 <= k < r ==> self@.twin_wf(f as int, k),
                decreases 3 - r,
            {
                let fr = Rot3(r as u8);
                let fown = &self.faces[f];
                let n = fown.neighbor(fr);
                let nface = &self.faces[n.0];
                match nface.get_neighbor_index(FaceIndex(f)) {
                    None => {
                        proof {
                            assert(!self@.twin_wf(f as int, r as int));
                        }
                        return false;
                    },
                    Some(rr) => {
                        let ok = nface.vertex(rr.increment()) == fown.vertex(fr.decrement())
                            && nface.vertex(rr.decrement()) == fown.vertex(fr.increment())
                            && nface.vertex(rr) != fown.vertex(fr);
                        if !ok {
                            proof {
                                assert(!self@.twin_wf(f as int, r as int));
                            }
                            return false;
                        }
                        proof {
                            assert(self@.twin_wf(f as int, r as int));
                        }
                    },
                }
                r = r + 1;
            }
            f = f + 1;
        }
        proof {
            assert(self@.wf());
        }
        true
    }

    /// Declare the combinatorial dimension of the triangulation.
    pub fn set_dimension(&mut self, d: i8)
        requires
            -1 <= d <= 2,
        ensures
            final(self)@.dimension == d as int,
            final(self)@.vertices == old(self)@.vertices,
            final(self)@.faces == old(self)@.faces,
            final(self)@.infinite == old(self)@.infinite,
    {
        self.dimension = d;
    }
}

} // verus!
