//! Points in the integer plane and the turn-direction predicate that the
//! gift-wrapping hull algorithm is built on.

use vstd::prelude::*;

verus! {

/// Largest coordinate magnitude the orientation predicate accepts.
///
/// With every coordinate in `[-MAX_COORD, MAX_COORD]`, each coordinate
/// difference fits in 63 bits, each product of two differences in 125 bits,
/// and the cross value in 126 bits, so the 128-bit computation below cannot
/// overflow.
pub const MAX_COORD: i64 = 0x2000_0000_0000_0000;

/// A point in the plane with signed integer coordinates.
#[derive(Clone, Copy, PartialEq, Eq, Structural, Debug)]
pub struct Point {
    pub x: i64,
    pub y: i64,
}

impl Point {
    pub fn new(x: i64, y: i64) -> (r: Self)
        ensures
            r.x == x,
            r.y == y,
    {
        Point { x, y }
    }
}

/// Whether both coordinates of `p` are small enough for the orientation
/// predicate's 128-bit arithmetic.
pub open spec fn in_coord_range(p: Point) -> bool {
    &&& -(MAX_COORD as int) <= p.x <= MAX_COORD as int
    &&& -(MAX_COORD as int) <= p.y <= MAX_COORD as int
}

/// The signed cross value of the path `p1 -> p2 -> p3`:
/// the cross product of the vectors `p2 - p1` and `p3 - p2`, negated.
/// Its sign classifies the turn direction.
pub open spec fn cross_of(p1: Point, p2: Point, p3: Point) -> int {
    (p2.y - p1.y) * (p3.x - p2.x) - (p2.x - p1.x) * (p3.y - p2.y)
}

/// The turn direction formed by the path `p1 -> p2 -> p3`.
#[derive(Clone, Copy, PartialEq, Eq, Structural, Debug)]
pub enum Orientation {
    Collinear,
    Clockwise,
    CounterClockwise,
}

/// The turn direction of `p1 -> p2 -> p3`: the sign of `cross_of`.
/// A negative cross value means a counter-clockwise turn.
pub open spec fn orientation_of(p1: Point, p2: Point, p3: Point) -> Orientation {
    let v = cross_of(p1, p2, p3);
    if v < 0 {
        Orientation::CounterClockwise
    } else if v == 0 {
        Orientation::Collinear
    } else {
        Orientation::Clockwise
    }
}

proof fn lemma_mul_bound(a: int, b: int, m: int)
    by (nonlinear_arith)
    requires
        0 <= m,
        -m <= a <= m,
        -m <= b <= m,
    ensures
        -(m * m) <= a * b <= m * m,
{
}

impl Orientation {
    /// Classify the turn direction of `p1 -> p2 -> p3`.
    ///
    /// Total over all coordinate triples within `MAX_COORD`; the bound keeps
    /// the intermediate products inside the 128-bit range.
    pub fn from_points(p1: Point, p2: Point, p3: Point) -> (r: Self)
        requires
            in_coord_range(p1),
            in_coord_range(p2),
            in_coord_range(p3),
        ensures
            r == orientation_of(p1, p2, p3),
    {
        let dy1: i128 = p2.y as i128 - p1.y as i128;
        let dx2: i128 = p3.x as i128 - p2.x as i128;
        let dx1: i128 = p2.x as i128 - p1.x as i128;
        let dy2: i128 = p3.y as i128 - p2.y as i128;
        proof {
            lemma_mul_bound(dy1 as int, dx2 as int, 0x4000_0000_0000_0000);
            lemma_mul_bound(dx1 as int, dy2 as int, 0x4000_0000_0000_0000);
        }
        let v: i128 = dy1 * dx2 - dx1 * dy2;
        if v < 0 {
            Orientation::CounterClockwise
        } else if v == 0 {
            Orientation::Collinear
        } else {
            Orientation::Clockwise
        }
    }
}

} // verus!
