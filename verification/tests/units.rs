use shine_tri::geometry::{
    orientation, test_collinear_points, CollinearTest, Orientation, Position,
};
use shine_tri::input::{AxisId, ModifierId};
use shine_tri::render::{Error, Size};
use shine_tri::store::{Arena, DenseEntry};
use shine_tri::types::Rot3;
use shine_tri::vectormerge::{VectorMerge, VectorMergeExt};

#[test]
fn orientation_signs() {
    let o = Position::new(0, 0);
    let x = Position::new(1, 0);
    let up = Position::new(0, 1);
    let down = Position::new(0, -1);
    let on = Position::new(2, 0);
    assert_eq!(orientation(o, x, up), Orientation::CounterClockwise);
    assert_eq!(orientation(o, x, down), Orientation::Clockwise);
    assert_eq!(orientation(o, x, on), Orientation::Collinear);
    assert!(orientation(o, x, up).is_ccw());
    assert!(orientation(o, x, down).is_cw());
    assert!(orientation(o, x, on).is_collinear());
}

#[test]
fn orientation_handles_extreme_coordinates() {
    let a = Position::new(i32::MIN, i32::MIN);
    let b = Position::new(i32::MAX, i32::MAX);
    let c = Position::new(i32::MIN, i32::MAX);
    assert_eq!(orientation(a, b, c), Orientation::CounterClockwise);
    assert_eq!(orientation(a, c, b), Orientation::Clockwise);
    assert_eq!(orientation(a, b, a), Orientation::Collinear);
}

#[test]
fn collinear_classification() {
    let p0 = Position::new(0, 0);
    let p1 = Position::new(4, 0);
    assert_eq!(test_collinear_points(p0, p1, Position::new(-2, 0)), CollinearTest::Before);
    assert_eq!(test_collinear_points(p0, p1, Position::new(0, 0)), CollinearTest::First);
    assert_eq!(test_collinear_points(p0, p1, Position::new(1, 0)), CollinearTest::Between);
    assert_eq!(test_collinear_points(p0, p1, Position::new(4, 0)), CollinearTest::Second);
    assert_eq!(test_collinear_points(p0, p1, Position::new(9, 0)), CollinearTest::After);
}

#[test]
fn rot3_wraps_around() {
    assert_eq!(Rot3::new(0).increment(), Rot3::new(1));
    assert_eq!(Rot3::new(2).increment(), Rot3::new(0));
    assert_eq!(Rot3::new(0).decrement(), Rot3::new(2));
    assert_eq!(Rot3::new(1).decrement(), Rot3::new(0));
    assert_eq!(Rot3::new(1).id(), 1);
    for r in 0..3 {
        let rot = Rot3::new(r);
        assert_eq!(rot.increment().decrement(), rot);
    }
}

#[test]
fn input_identifiers_keep_their_codes() {
    assert_eq!(AxisId::new(3).id(), 3);
    assert_eq!(ModifierId::new(9).id(), 9);
    assert_eq!(AxisId::new(3), AxisId::new(3));
    assert_ne!(ModifierId::new(1), ModifierId::new(2));
}

#[test]
fn size_and_position_conversions() {
    let s: Size = (640u32, 480u32).into();
    assert_eq!(s.width, 640);
    assert_eq!(s.height, 480);
    let p: Position = (-3i32, 8i32).into();
    assert_eq!(p, Position::new(-3, 8));
}

#[test]
fn render_error_variants() {
    let e = Error::InitializeError(String::from("no device"));
    assert!(matches!(e, Error::InitializeError(_)));
    let e2 = e.clone();
    assert!(matches!(e2, Error::InitializeError(_)));
    assert!(matches!(Error::ContextLost, Error::ContextLost));
    assert!(matches!(
        Error::WindowCreationError(String::new()),
        Error::WindowCreationError(_)
    ));
    assert!(matches!(Error::ContextError(String::new()), Error::ContextError(_)));
    assert!(matches!(Error::PassCreationError(String::new()), Error::PassCreationError(_)));
}

#[test]
fn arena_starts_empty() {
    let a: Arena<u64> = Arena::new();
    assert!(a.is_empty());
}

#[test]
fn dense_entry_default_is_vacant() {
    let e: DenseEntry<u32> = Default::default();
    assert!(matches!(e, DenseEntry::Vacant));
    assert!(matches!(DenseEntry::Occupied(5u32), DenseEntry::Occupied(5)));
}

#[test]
fn vector_merge_over_dense_entries() {
    let mut v: Vec<DenseEntry<i32>> = vec![
        DenseEntry::Vacant,
        DenseEntry::Occupied(10),
        DenseEntry::Vacant,
        DenseEntry::Occupied(20),
        DenseEntry::Vacant,
    ];
    assert!(v.contains(1));
    assert!(!v.contains(0));
    assert!(!v.contains(9));
    assert_eq!(v.get(1), Some(10));
    assert_eq!(v.get(2), None);
    assert_eq!(v.get_unchecked(3), 20);
    assert_eq!(v.lower_bound_index(0), Some(1));
    assert_eq!(v.lower_bound_index(2), Some(3));
    assert_eq!(v.lower_bound_index(4), None);
}

#[test]
fn vector_merge_iter_steps_past_its_seed() {
    let mut v: Vec<DenseEntry<i32>> = vec![
        DenseEntry::Vacant,
        DenseEntry::Occupied(10),
        DenseEntry::Vacant,
        DenseEntry::Occupied(20),
    ];
    // merge seeds the walk on the first held index; each pull continues
    // strictly after the index it stands on
    let mut it = v.merge();
    assert_eq!(it.idx, Some(1));
    assert_eq!(it.next(&mut v), Some((3, 20)));
    assert_eq!(it.next(&mut v), None);
    assert_eq!(it.idx, None);
}
