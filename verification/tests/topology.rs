use shine_tri::geometry::Position;
use shine_tri::graph::Triangulation;
use shine_tri::query::TopologyQuery;
use shine_tri::types::{FaceEdge, FaceIndex, Rot3, TriError, VertexClue, VertexIndex};
use shine_tri::circulator::EdgeCirculator;

/// One triangle A(0,0), B(1,0), C(0,1) with its three outer faces around
/// the infinite vertex I.
///
/// Vertices: I=0, A=1, B=2, C=3.
/// Faces: T=0 (A,B,C), AB=1 (I,B,A), BC=2 (I,C,B), CA=3 (I,A,C).
fn triangle_mesh() -> Triangulation {
    let mut t = Triangulation::new();
    let i = t.add_vertex(Position::new(-7, -7));
    let a = t.add_vertex(Position::new(0, 0));
    let b = t.add_vertex(Position::new(1, 0));
    let c = t.add_vertex(Position::new(0, 1));
    assert_eq!(i, VertexIndex(0));
    let vs = |x: usize, y: usize, z: usize| [VertexIndex(x), VertexIndex(y), VertexIndex(z)];
    let ns = |x: usize, y: usize, z: usize| [FaceIndex(x), FaceIndex(y), FaceIndex(z)];
    t.add_face(vs(1, 2, 3), ns(2, 3, 1));
    t.add_face(vs(0, 2, 1), ns(0, 3, 2));
    t.add_face(vs(0, 3, 2), ns(0, 1, 3));
    t.add_face(vs(0, 1, 3), ns(0, 2, 1));
    t.set_vertex_face(i, FaceIndex(1));
    t.set_vertex_face(a, FaceIndex(0));
    t.set_vertex_face(b, FaceIndex(0));
    t.set_vertex_face(c, FaceIndex(0));
    t.set_infinite_vertex(i);
    t.set_dimension(2);
    t
}

#[test]
fn triangle_mesh_is_well_formed() {
    let t = triangle_mesh();
    assert!(t.is_well_formed());
    assert_eq!(t.vertex_count(), 4);
    assert_eq!(t.face_count(), 4);
    assert_eq!(t.dimension(), 2);
    assert!(t.is_infinite_vertex(VertexIndex(0)));
    assert!(!t.is_finite_vertex(VertexIndex(0)));
    assert!(t.is_finite_vertex(VertexIndex(1)));
    assert!(!t.is_finite_vertex(VertexIndex(9)));
}

#[test]
fn twin_symmetry_all_edges() {
    let t = triangle_mesh();
    for f in 0..4 {
        for e in 0..3 {
            let edge = FaceEdge::new(FaceIndex(f), Rot3::new(e));
            let twin = t.opposite_edge(edge).unwrap();
            let back = t.opposite_edge(twin).unwrap();
            assert_eq!(back, edge);
            assert_ne!(twin, edge);
        }
    }
}

#[test]
fn opposite_edge_reports_corruption() {
    let mut t = triangle_mesh();
    // rewrite the neighbors of face 1 so that none of them points back at
    // face 0, while face 0 still names face 1 across edge 2
    t.set_neighbor(FaceIndex(1), Rot3::new(0), FaceIndex(2));
    t.set_neighbor(FaceIndex(1), Rot3::new(1), FaceIndex(3));
    t.set_neighbor(FaceIndex(1), Rot3::new(2), FaceIndex(3));
    let r = t.opposite_edge(FaceEdge::new(FaceIndex(0), Rot3::new(2)));
    assert_eq!(r, Err(TriError::CorruptTriangulation));
    assert!(!t.is_well_formed());
}

#[test]
fn resolve_direct_identity() {
    let t = triangle_mesh();
    for v in 0..4 {
        let vi = VertexIndex(v);
        assert_eq!(t.vi(VertexClue::VertexIndex(vi)), vi);
    }
}

#[test]
fn resolve_face_relative_clues() {
    let t = triangle_mesh();
    // face 0 is (A, B, C) = (1, 2, 3)
    assert_eq!(t.vi(VertexClue::FaceVertex(FaceIndex(0), Rot3::new(0))), VertexIndex(1));
    assert_eq!(t.vi(VertexClue::FaceVertex(FaceIndex(0), Rot3::new(2))), VertexIndex(3));
    // edge 2 of face 0 runs from corner 0 (A) to corner 1 (B)
    assert_eq!(t.vi(VertexClue::edge_start(FaceIndex(0), Rot3::new(2))), VertexIndex(1));
    assert_eq!(t.vi(VertexClue::edge_end(FaceIndex(0), Rot3::new(2))), VertexIndex(2));
    let e = FaceEdge::new(FaceIndex(0), Rot3::new(2));
    assert_eq!(t.vi(VertexClue::start_of(e)), VertexIndex(1));
    assert_eq!(t.vi(VertexClue::end_of(e)), VertexIndex(2));
}

#[test]
fn vertex_and_position_accessors() {
    let mut t = triangle_mesh();
    let clue = VertexClue::VertexIndex(VertexIndex(2));
    assert_eq!(*t.p(clue), Position::new(1, 0));
    assert_eq!(*t.v(clue).position(), Position::new(1, 0));
    *t.p_mut(clue) = Position::new(5, 6);
    assert_eq!(*t.p(clue), Position::new(5, 6));
    t.v_mut(clue).set_position(Position::new(7, 8));
    assert_eq!(*t.p(clue), Position::new(7, 8));
}

#[test]
fn constraint_tags_read_back() {
    let mut t = triangle_mesh();
    let e = FaceEdge::new(FaceIndex(0), Rot3::new(1));
    assert!(!t.c(e));
    t.set_constraint(FaceIndex(0), Rot3::new(1), true);
    assert!(t.c(e));
    assert!(!t.c(FaceEdge::new(FaceIndex(0), Rot3::new(0))));
}

#[test]
fn find_edge_between_adjacent() {
    let t = triangle_mesh();
    let a = VertexIndex(1);
    let b = VertexIndex(2);
    let e = t.find_edge_by_vertex(a, b).expect("A and B share an edge");
    assert_eq!(t.vi(VertexClue::start_of(e)), a);
    assert_eq!(t.vi(VertexClue::end_of(e)), b);
    let back = t.find_edge_by_vertex(b, a).expect("B and A share an edge");
    assert_eq!(t.vi(VertexClue::start_of(back)), b);
    assert_eq!(t.vi(VertexClue::end_of(back)), a);
}

#[test]
fn circulator_closes_after_degree_steps() {
    let t = triangle_mesh();
    // vertex A has degree 3: faces T, AB and CA surround it
    let a = VertexIndex(1);
    let mut circ = EdgeCirculator::new(&t, a);
    let home = (circ.face(), circ.edge());
    for step in 0..3 {
        circ.advance_ccw(&t);
        if step < 2 {
            assert_ne!((circ.face(), circ.edge()), home);
        }
    }
    assert_eq!((circ.face(), circ.edge()), home);
    for _ in 0..3 {
        circ.advance_cw(&t);
    }
    assert_eq!((circ.face(), circ.edge()), home);
}

#[test]
fn circulator_edges_start_at_base() {
    let t = triangle_mesh();
    let a = VertexIndex(1);
    let mut circ = EdgeCirculator::new(&t, a);
    let mut seen = Vec::new();
    for _ in 0..3 {
        assert_eq!(circ.base_vertex(), a);
        let e = FaceEdge::new(circ.face(), circ.edge());
        assert_eq!(t.vi(VertexClue::start_of(e)), a);
        seen.push(circ.end_vertex(&t));
        circ.advance_ccw(&t);
    }
    seen.sort();
    assert_eq!(seen, vec![VertexIndex(0), VertexIndex(2), VertexIndex(3)]);
}

#[test]
fn dangling_vertex_handle_detected() {
    let mut t = triangle_mesh();
    let f = t.add_face(
        [VertexIndex(1), VertexIndex(2), VertexIndex(9)],
        [FaceIndex(0), FaceIndex(1), FaceIndex(2)],
    );
    assert_eq!(f, FaceIndex(4));
    assert!(!t.is_well_formed());
}

#[test]
fn repeated_corner_detected() {
    let mut t = triangle_mesh();
    t.add_face(
        [VertexIndex(1), VertexIndex(1), VertexIndex(2)],
        [FaceIndex(0), FaceIndex(1), FaceIndex(2)],
    );
    assert!(!t.is_well_formed());
}

#[test]
fn broken_back_reference_detected() {
    let mut t = triangle_mesh();
    // vertex C does not belong to face 1
    t.set_vertex_face(VertexIndex(3), FaceIndex(1));
    assert!(!t.is_well_formed());
}
