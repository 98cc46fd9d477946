//! Handles and small index types of the triangulation.

use vstd::prelude::*;

verus! {

/// A rotation index in `{0, 1, 2}` naming a corner of a triangular face, or
/// the edge opposite that corner.
#[derive(Clone, Copy, Debug, PartialEq, Eq, Hash, Structural)]
pub struct Rot3(pub u8);

/// Mod-3 increment over the mathematical rotation index.
pub open spec fn rot_incr(r: int) -> int {
    if r == 2 { 0 } else { r + 1 }
}

/// Mod-3 decrement over the mathematical rotation index.
pub open spec fn rot_decr(r: int) -> int {
    if r == 0 { 2 } else { r - 1 }
}

impl Rot3 {
    /// A rotation is meaningful only when it names one of the three corners.
    pub open spec fn is_valid(self) -> bool {
        self.0 < 3
    }

    pub fn new(value: u8) -> (r: Rot3)
        requires
            value < 3,
        ensures
            r.0 == value,
    {
        Rot3(value)
    }

    pub fn id(self) -> (r: u8)
        ensures
            r == self.0,
    {
        self.0
    }

    /// The next corner around the face.
    pub fn increment(self) -> (r: Rot3)
        requires
            self.is_valid(),
        ensures
            r.0 as int == rot_incr(self.0 as int),
            r.is_valid(),
    {
        if self.0 == 2 { Rot3(0) } else { Rot3(self.0 + 1) }
    }

    /// The previous corner around the face.
    pub fn decrement(self) -> (r: Rot3)
        requires
            self.is_valid(),
        ensures
            r.0 as int == rot_decr(self.0 as int),
            r.is_valid(),
    {
        if self.0 == 0 { Rot3(2) } else { Rot3(self.0 - 1) }
    }
}

/// Handle of a vertex in the vertex arena.  Equality is identity.
#[derive(Clone, Copy, Debug, PartialEq, Eq, PartialOrd, Ord, Hash, Structural)]
pub struct VertexIndex(pub usize);

/// Handle of a face in the face arena.  Equality is identity.
#[derive(Clone, Copy, Debug, PartialEq, Eq, Hash, Structural)]
pub struct FaceIndex(pub usize);

/// One of the three oriented edges of a face: the edge opposite corner
/// `edge`, running from corner `edge + 1` to corner `edge + 2`.
#[derive(Clone, Copy, Debug, PartialEq, Eq, Hash, Structural)]
pub struct FaceEdge {
    pub face: FaceIndex,
    pub edge: Rot3,
}

impl FaceEdge {
    pub fn new(face: FaceIndex, edge: Rot3) -> (r: FaceEdge)
        ensures
            r.face == face,
            r.edge == edge,
    {
        FaceEdge { face, edge }
    }
}

/// The ways a vertex can be named: directly by its handle, as a corner of a
/// face, or as the start or end vertex of an oriented face edge.
#[derive(Clone, Copy, Debug, PartialEq, Eq, Structural)]
pub enum VertexClue {
    VertexIndex(VertexIndex),
    FaceVertex(FaceIndex, Rot3),
    EdgeStart(FaceIndex, Rot3),
    EdgeEnd(FaceIndex, Rot3),
}

impl VertexClue {
    pub fn edge_start(face: FaceIndex, edge: Rot3) -> (r: VertexClue)
        ensures
            r == VertexClue::EdgeStart(face, edge),
    {
        VertexClue::EdgeStart(face, edge)
    }

    pub fn edge_end(face: FaceIndex, edge: Rot3) -> (r: VertexClue)
        ensures
            r == VertexClue::EdgeEnd(face, edge),
    {
        VertexClue::EdgeEnd(face, edge)
    }

    /// The start vertex of an oriented edge.
    pub fn start_of(edge: FaceEdge) -> (r: VertexClue)
        ensures
            r == VertexClue::EdgeStart(edge.face, edge.edge),
    {
        VertexClue::EdgeStart(edge.face, edge.edge)
    }

    /// The end vertex of an oriented edge.
    pub fn end_of(edge: FaceEdge) -> (r: VertexClue)
        ensures
            r == VertexClue::EdgeEnd(edge.face, edge.edge),
    {
        VertexClue::EdgeEnd(edge.face, edge.edge)
    }
}

/// Failure classes of the fallible queries.
#[derive(Clone, Copy, Debug, PartialEq, Eq, Structural)]
pub enum TriError {
    /// The request itself was malformed: the triangulation does not have the
    /// required dimension, or a vertex argument was equal to another or not
    /// finite where a distinct finite vertex is required.
    InvalidQuery,
    /// The face and neighbor links contradict each other.  Navigation on such
    /// a structure is meaningless, so the operation stops at once.
    CorruptTriangulation,
}

} // verus!
