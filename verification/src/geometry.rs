//! Exact two-dimensional geometric predicates.
//!
//! Positions carry 32-bit integer coordinates, and every classification is
//! computed with wide intermediate arithmetic, so no rounding and no
//! overflow can ever make two predicate calls contradict each other.

use vstd::prelude::*;

verus! {

/// A two-dimensional point with exact integer coordinates.
#[derive(Clone, Copy, Debug, PartialEq, Eq, Hash, Structural)]
pub struct Position {
    pub x: i32,
    pub y: i32,
}

impl Position {
    pub fn new(x: i32, y: i32) -> (r: Position)
        ensures
            r.x == x,
            r.y == y,
    {
        Position { x, y }
    }
}

impl From<(i32, i32)> for Position {
    fn from(value: (i32, i32)) -> (r: Position) {
        Position { x: value.0, y: value.1 }
    }
}

impl vstd::std_specs::convert::FromSpecImpl<(i32, i32)> for Position {
    open spec fn obeys_from_spec() -> bool {
        true
    }

    open spec fn from_spec(value: (i32, i32)) -> Position {
        Position { x: value.0, y: value.1 }
    }
}

/// The signed area of the parallelogram spanned by `p1 - p0` and `p2 - p0`:
/// positive when the three points turn counterclockwise, negative when they
/// turn clockwise, and zero exactly when they are collinear.
pub open spec fn cross_of(p0: Position, p1: Position, p2: Position) -> int {
    (p1.x - p0.x) * (p2.y - p0.y) - (p1.y - p0.y) * (p2.x - p0.x)
}

/// How three points turn.
#[derive(Clone, Copy, Debug, PartialEq, Eq, Structural)]
pub enum Orientation {
    Clockwise,
    Collinear,
    CounterClockwise,
}

impl Orientation {
    pub fn is_ccw(self) -> (r: bool)
        ensures
            r == (self == Orientation::CounterClockwise),
    {
        matches!(self, Orientation::CounterClockwise)
    }

    pub fn is_cw(self) -> (r: bool)
        ensures
            r == (self == Orientation::Clockwise),
    {
        matches!(self, Orientation::Clockwise)
    }

    pub fn is_collinear(self) -> (r: bool)
        ensures
            r == (self == Orientation::Collinear),
    {
        matches!(self, Orientation::Collinear)
    }
}

proof fn lemma_i33_product_fits(a: int, b: int)
    requires
        -0x1_0000_0000 <= a <= 0x1_0000_0000,
        -0x1_0000_0000 <= b <= 0x1_0000_0000,
    ensures
        -0x1_0000_0000_0000_0000 <= a * b <= 0x1_0000_0000_0000_0000,
{
    assert(-0x1_0000_0000_0000_0000 <= a * b <= 0x1_0000_0000_0000_0000)
        by (nonlinear_arith)
        requires
            -0x1_0000_0000 <= a <= 0x1_0000_0000,
            -0x1_0000_0000 <= b <= 0x1_0000_0000,
    ;
}

/// Classify how the points `p0`, `p1`, `p2` turn, by the sign of `cross_of`.
pub fn orientation(p0: Position, p1: Position, p2: Position) -> (r: Orientation)
    ensures
        (r == Orientation::CounterClockwise) == (cross_of(p0, p1, p2) > 0),
        (r == Orientation::Clockwise) == (cross_of(p0, p1, p2) < 0),
        (r == Orientation::Collinear) == (cross_of(p0, p1, p2) == 0),
{
    let ax: i64 = p1.x as i64 - p0.x as i64;
    let ay: i64 = p1.y as i64 - p0.y as i64;
    let bx: i64 = p2.x as i64 - p0.x as i64;
    let by: i64 = p2.y as i64 - p0.y as i64;
    proof {
        lemma_i33_product_fits(ax as int, by as int);
        lemma_i33_product_fits(ay as int, bx as int);
    }
    let c: i128 = (ax as i128) * (by as i128) - (ay as i128) * (bx as i128);
    if c > 0 {
        Orientation::CounterClockwise
    } else if c < 0 {
        Orientation::Clockwise
    } else {
        Orientation::Collinear
    }
}

/// Where a point lies along a directed segment, reported for three points
/// that are already known to be collinear.
#[derive(Clone, Copy, Debug, PartialEq, Eq, Structural)]
pub enum CollinearTest {
    /// Strictly before the start of the segment.
    Before,
    /// Exactly at the start of the segment.
    First,
    /// Strictly inside the segment.
    Between,
    /// Exactly at the end of the segment.
    Second,
    /// Strictly after the end of the segment.
    After,
}

/// Dot product of `p1 - p0` with `p2 - p0`.
pub open spec fn dot_from_start(p0: Position, p1: Position, p2: Position) -> int {
    (p1.x - p0.x) * (p2.x - p0.x) + (p1.y - p0.y) * (p2.y - p0.y)
}

/// Dot product of `p1 - p0` with `p2 - p1`.
pub open spec fn dot_from_end(p0: Position, p1: Position, p2: Position) -> int {
    (p1.x - p0.x) * (p2.x - p1.x) + (p1.y - p0.y) * (p2.y - p1.y)
}

/// Position of `p2` along the directed line through `p0` and `p1`, measured
/// by projecting onto the direction `p1 - p0`.  The answer describes the
/// location of `p2` on the segment exactly when the three points are
/// collinear and `p0 != p1`.
pub open spec fn collinear_class(p0: Position, p1: Position, p2: Position) -> CollinearTest {
    if dot_from_start(p0, p1, p2) < 0 {
        CollinearTest::Before
    } else if dot_from_start(p0, p1, p2) == 0 {
        CollinearTest::First
    } else if dot_from_end(p0, p1, p2) < 0 {
        CollinearTest::Between
    } else if dot_from_end(p0, p1, p2) == 0 {
        CollinearTest::Second
    } else {
        CollinearTest::After
    }
}

/// `p2` lies strictly inside the segment from `p0` to `p1`.
pub open spec fn is_strictly_between(p0: Position, p1: Position, p2: Position) -> bool {
    cross_of(p0, p1, p2) == 0 && collinear_class(p0, p1, p2) == CollinearTest::Between
}

/// Classify where `p2` lies along the directed segment from `p0` to `p1`.
/// Meaningful for three collinear points with `p0 != p1`.
pub fn test_collinear_points(p0: Position, p1: Position, p2: Position) -> (r: CollinearTest)
    ensures
        r == collinear_class(p0, p1, p2),
{
    let dx: i64 = p1.x as i64 - p0.x as i64;
    let dy: i64 = p1.y as i64 - p0.y as i64;
    let sx: i64 = p2.x as i64 - p0.x as i64;
    let sy: i64 = p2.y as i64 - p0.y as i64;
    let ex: i64 = p2.x as i64 - p1.x as i64;
    let ey: i64 = p2.y as i64 - p1.y as i64;
    proof {
        lemma_i33_product_fits(dx as int, sx as int);
        lemma_i33_product_fits(dy as int, sy as int);
        lemma_i33_product_fits(dx as int, ex as int);
        lemma_i33_product_fits(dy as int, ey as int);
    }
    let ds: i128 = (dx as i128) * (sx as i128) + (dy as i128) * (sy as i128);
    let de: i128 = (dx as i128) * (ex as i128) + (dy as i128) * (ey as i128);
    if ds < 0 {
        CollinearTest::Before
    } else if ds == 0 {
        CollinearTest::First
    } else if de < 0 {
        CollinearTest::Between
    } else if de == 0 {
        CollinearTest::Second
    } else {
        CollinearTest::After
    }
}

} // verus!
