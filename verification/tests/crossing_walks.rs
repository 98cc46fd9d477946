use shine_tri::crossing::{Crossing, CrossingIterator};
use shine_tri::query::TopologyQuery;
use shine_tri::geometry::Position;
use shine_tri::graph::Triangulation;
use shine_tri::types::{FaceIndex, Rot3, TriError, VertexClue, VertexIndex};

fn vs(x: usize, y: usize, z: usize) -> [VertexIndex; 3] {
    [VertexIndex(x), VertexIndex(y), VertexIndex(z)]
}

fn ns(x: usize, y: usize, z: usize) -> [FaceIndex; 3] {
    [FaceIndex(x), FaceIndex(y), FaceIndex(z)]
}

/// Pull the iterator until it is exhausted.
fn collect_crossings(t: &Triangulation, it: &mut CrossingIterator) -> Vec<Crossing> {
    let mut events = Vec::new();
    for _ in 0..32 {
        match it.next(t).unwrap() {
            Some(c) => events.push(c),
            None => return events,
        }
    }
    panic!("the crossing walk did not finish");
}

/// One triangle A(0,0), B(1,0), C(0,1) with its three outer faces.
/// Vertices: I=0, A=1, B=2, C=3; faces: T=0, AB=1, BC=2, CA=3.
fn one_triangle() -> Triangulation {
    let mut t = Triangulation::new();
    t.add_vertex(Position::new(-7, -7));
    t.add_vertex(Position::new(0, 0));
    t.add_vertex(Position::new(1, 0));
    t.add_vertex(Position::new(0, 1));
    t.add_face(vs(1, 2, 3), ns(2, 3, 1));
    t.add_face(vs(0, 2, 1), ns(0, 3, 2));
    t.add_face(vs(0, 3, 2), ns(0, 1, 3));
    t.add_face(vs(0, 1, 3), ns(0, 2, 1));
    t.set_vertex_face(VertexIndex(0), FaceIndex(1));
    t.set_vertex_face(VertexIndex(1), FaceIndex(0));
    t.set_vertex_face(VertexIndex(2), FaceIndex(0));
    t.set_vertex_face(VertexIndex(3), FaceIndex(0));
    t.set_infinite_vertex(VertexIndex(0));
    t.set_dimension(2);
    t
}

/// A strip of three triangles between v0(0,0) and v1(3,0), with b(1,-1)
/// below the segment and a(1,1), c(2,1) above it.
/// Vertices: I=0, v0=1, b=2, a=3, c=4, v1=5.
/// Faces: 0=(v0,b,a), 1=(a,b,c), 2=(c,b,v1), then five outer faces.
fn fan_mesh() -> Triangulation {
    let mut t = Triangulation::new();
    t.add_vertex(Position::new(-9, -9));
    t.add_vertex(Position::new(0, 0));
    t.add_vertex(Position::new(1, -1));
    t.add_vertex(Position::new(1, 1));
    t.add_vertex(Position::new(2, 1));
    t.add_vertex(Position::new(3, 0));
    t.add_face(vs(1, 2, 3), ns(1, 7, 3));
    t.add_face(vs(3, 2, 4), ns(2, 6, 0));
    t.add_face(vs(4, 2, 5), ns(4, 5, 1));
    t.add_face(vs(0, 2, 1), ns(0, 7, 4));
    t.add_face(vs(0, 5, 2), ns(2, 3, 5));
    t.add_face(vs(0, 4, 5), ns(2, 4, 6));
    t.add_face(vs(0, 3, 4), ns(1, 5, 7));
    t.add_face(vs(0, 1, 3), ns(0, 6, 3));
    t.set_vertex_face(VertexIndex(0), FaceIndex(3));
    t.set_vertex_face(VertexIndex(1), FaceIndex(0));
    t.set_vertex_face(VertexIndex(2), FaceIndex(0));
    t.set_vertex_face(VertexIndex(3), FaceIndex(0));
    t.set_vertex_face(VertexIndex(4), FaceIndex(1));
    t.set_vertex_face(VertexIndex(5), FaceIndex(2));
    t.set_infinite_vertex(VertexIndex(0));
    t.set_dimension(2);
    t
}

/// A square around a vertex m(1,0) lying exactly on the segment from
/// v0(0,0) to v1(2,0), with a(1,1) above and b(1,-1) below.
/// Vertices: I=0, v0=1, b=2, m=3, a=4, v1=5.
/// Faces: 0=(v0,b,m), 1=(v0,m,a), 2=(m,b,v1), 3=(m,v1,a), then four
/// outer faces.
fn passthrough_mesh() -> Triangulation {
    let mut t = Triangulation::new();
    t.add_vertex(Position::new(-9, -9));
    t.add_vertex(Position::new(0, 0));
    t.add_vertex(Position::new(1, -1));
    t.add_vertex(Position::new(1, 0));
    t.add_vertex(Position::new(1, 1));
    t.add_vertex(Position::new(2, 0));
    t.add_face(vs(1, 2, 3), ns(2, 1, 4));
    t.add_face(vs(1, 3, 4), ns(3, 7, 0));
    t.add_face(vs(3, 2, 5), ns(5, 3, 0));
    t.add_face(vs(3, 5, 4), ns(6, 1, 2));
    t.add_face(vs(0, 2, 1), ns(0, 7, 5));
    t.add_face(vs(0, 5, 2), ns(2, 4, 6));
    t.add_face(vs(0, 4, 5), ns(3, 5, 7));
    t.add_face(vs(0, 1, 4), ns(1, 6, 4));
    t.set_vertex_face(VertexIndex(0), FaceIndex(4));
    t.set_vertex_face(VertexIndex(1), FaceIndex(0));
    t.set_vertex_face(VertexIndex(2), FaceIndex(0));
    t.set_vertex_face(VertexIndex(3), FaceIndex(1));
    t.set_vertex_face(VertexIndex(4), FaceIndex(1));
    t.set_vertex_face(VertexIndex(5), FaceIndex(2));
    t.set_infinite_vertex(VertexIndex(0));
    t.set_dimension(2);
    t
}

#[test]
fn crossing_adjacent_is_one_coincident_edge() {
    let t = one_triangle();
    assert!(t.is_well_formed());
    let a = VertexIndex(1);
    let b = VertexIndex(2);
    let mut it = CrossingIterator::new(&t, a, b).unwrap();
    let events = collect_crossings(&t, &mut it);
    assert_eq!(events, vec![Crossing::CoincidentEdge { face: FaceIndex(0), edge: Rot3::new(2) }]);
}

#[test]
fn crossing_fan_start_signed_edge_end() {
    let t = fan_mesh();
    assert!(t.is_well_formed());
    let v0 = VertexIndex(1);
    let v1 = VertexIndex(5);
    let mut it = CrossingIterator::new(&t, v0, v1).unwrap();
    let events = collect_crossings(&t, &mut it);
    assert_eq!(
        events,
        vec![
            Crossing::Start { face: FaceIndex(0), vertex: Rot3::new(0) },
            Crossing::NegativeEdge { face: FaceIndex(1), edge: Rot3::new(0) },
            Crossing::End { face: FaceIndex(2), vertex: Rot3::new(2) },
        ]
    );
}

#[test]
fn crossing_fan_shape_is_complete() {
    // exactly one departure first, exactly one arrival last, and only
    // signed edge crossings in between
    let t = fan_mesh();
    let mut it = CrossingIterator::new(&t, VertexIndex(1), VertexIndex(5)).unwrap();
    let events = collect_crossings(&t, &mut it);
    assert!(events.len() >= 2);
    assert!(matches!(events[0], Crossing::Start { .. }));
    assert!(matches!(events[events.len() - 1], Crossing::End { .. }));
    for e in &events[1..events.len() - 1] {
        assert!(matches!(e, Crossing::PositiveEdge { .. } | Crossing::NegativeEdge { .. }));
    }
    assert_eq!(events.iter().filter(|e| matches!(e, Crossing::Start { .. })).count(), 1);
    assert_eq!(events.iter().filter(|e| matches!(e, Crossing::End { .. })).count(), 1);
}

#[test]
fn crossing_fan_reverse_direction() {
    let t = fan_mesh();
    let mut it = CrossingIterator::new(&t, VertexIndex(5), VertexIndex(1)).unwrap();
    let events = collect_crossings(&t, &mut it);
    assert!(matches!(events[0], Crossing::Start { .. }));
    assert!(matches!(events[events.len() - 1], Crossing::End { .. }));
    assert_eq!(events.len(), 3);
}

#[test]
fn crossing_collinear_passthrough() {
    let t = passthrough_mesh();
    assert!(t.is_well_formed());
    let v0 = VertexIndex(1);
    let v1 = VertexIndex(5);
    let mut it = CrossingIterator::new(&t, v0, v1).unwrap();
    let events = collect_crossings(&t, &mut it);
    // the vertex on the segment is reported as coincident edges, not as an
    // arrival and a fresh departure around it
    assert_eq!(
        events,
        vec![
            Crossing::CoincidentEdge { face: FaceIndex(1), edge: Rot3::new(2) },
            Crossing::CoincidentEdge { face: FaceIndex(3), edge: Rot3::new(2) },
        ]
    );
    for e in &events {
        assert!(!matches!(e, Crossing::Start { .. } | Crossing::End { .. }));
    }
}

#[test]
fn crossing_exhausted_stays_exhausted() {
    let t = one_triangle();
    let mut it = CrossingIterator::new(&t, VertexIndex(1), VertexIndex(2)).unwrap();
    let events = collect_crossings(&t, &mut it);
    assert_eq!(events.len(), 1);
    assert_eq!(it.next(&t).unwrap(), None);
    assert_eq!(it.next(&t).unwrap(), None);
}

#[test]
fn crossing_collinear_reverse_direction() {
    let t = passthrough_mesh();
    let mut it = CrossingIterator::new(&t, VertexIndex(5), VertexIndex(1)).unwrap();
    let events = collect_crossings(&t, &mut it);
    assert_eq!(events.len(), 2);
    for e in &events {
        assert!(matches!(e, Crossing::CoincidentEdge { .. }));
    }
}

#[test]
fn crossing_detects_duplicate_position() {
    let mut t = one_triangle();
    // two distinct vertices at the same position: walking from A toward C
    // examines B, which now sits exactly at the target position
    *t.p_mut(VertexClue::VertexIndex(VertexIndex(3))) = Position::new(1, 0);
    assert!(matches!(
        CrossingIterator::new(&t, VertexIndex(1), VertexIndex(3)),
        Err(TriError::CorruptTriangulation)
    ));
}

#[test]
fn crossing_rejects_bad_queries() {
    let t = one_triangle();
    let a = VertexIndex(1);
    let i = VertexIndex(0);
    assert!(matches!(CrossingIterator::new(&t, a, a), Err(TriError::InvalidQuery)));
    assert!(matches!(CrossingIterator::new(&t, a, i), Err(TriError::InvalidQuery)));
    assert!(matches!(CrossingIterator::new(&t, i, a), Err(TriError::InvalidQuery)));
    assert!(matches!(
        CrossingIterator::new(&t, a, VertexIndex(77)),
        Err(TriError::InvalidQuery)
    ));
    let mut flat = one_triangle();
    flat.set_dimension(1);
    assert!(matches!(
        CrossingIterator::new(&flat, VertexIndex(1), VertexIndex(2)),
        Err(TriError::InvalidQuery)
    ));
}

#[test]
fn find_edge_none_between_distant_vertices() {
    let t = fan_mesh();
    let r = t.find_edge_by_vertex(VertexIndex(1), VertexIndex(5));
    assert!(r.is_none());
    let r2 = t.find_edge_by_vertex(VertexIndex(1), VertexIndex(4));
    assert!(r2.is_none());
    let r3 = t.find_edge_by_vertex(VertexIndex(1), VertexIndex(2));
    assert!(r3.is_some());
}
