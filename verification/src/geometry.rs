//! Integer grid geometry: points, rectangles and exact distance tests.

use vstd::prelude::*;

verus! {

/// A cell position, or a displacement between two cells.
#[derive(Clone, Copy, Debug, PartialEq, Eq, Structural, Hash)]
pub struct Point {
    pub x: i32,
    pub y: i32,
}

impl Point {
    /// The point (`x`, `y`).
    pub fn new(x: i32, y: i32) -> (p: Point)
        ensures
            p == (Point { x, y }),
    {
        Point { x, y }
    }

    /// The point with both coordinates zero.
    pub fn zero() -> (p: Point)
        ensures
            p == (Point { x: 0, y: 0 }),
    {
        Point { x: 0, y: 0 }
    }

    /// Where `self` displaced by `delta` lies, when both coordinates still fit.
    pub open spec fn offset(self, delta: Point) -> Option<Point> {
        if i32::MIN <= self.x + delta.x <= i32::MAX && i32::MIN <= self.y + delta.y <= i32::MAX {
            Some(Point { x: (self.x + delta.x) as i32, y: (self.y + delta.y) as i32 })
        } else {
            None
        }
    }

    /// Displaces `self` by `delta`; `None` when the sum leaves the coordinate range.
    pub fn checked_offset(self, delta: Point) -> (r: Option<Point>)
        ensures
            r == self.offset(delta),
    {
        match (self.x.checked_add(delta.x), self.y.checked_add(delta.y)) {
            (Some(x), Some(y)) => Some(Point { x, y }),
            _ => None,
        }
    }
}

/// Squared Euclidean distance between two points.
pub open spec fn distance_squared(a: Point, b: Point) -> int {
    (a.x - b.x) * (a.x - b.x) + (a.y - b.y) * (a.y - b.y)
}

/// Whether `b` lies within Euclidean distance `radius` of `a`.
pub open spec fn within_distance(a: Point, b: Point, radius: int) -> bool {
    radius >= 0 && distance_squared(a, b) <= radius * radius
}

/// Decides `within_distance` exactly, without rounding.
pub fn is_within_distance(a: Point, b: Point, radius: i32) -> (r: bool)
    ensures
        r == within_distance(a, b, radius as int),
{
    if radius < 0 {
        return false;
    }
    let dx: i128 = a.x as i128 - b.x as i128;
    let dy: i128 = a.y as i128 - b.y as i128;
    let rr: i128 = radius as i128;
    assert(0 <= dx * dx <= 0x1_0000_0000_0000_0000) by (nonlinear_arith)
        requires
            -0x1_0000_0000 <= dx <= 0x1_0000_0000,
    ;
    assert(0 <= dy * dy <= 0x1_0000_0000_0000_0000) by (nonlinear_arith)
        requires
            -0x1_0000_0000 <= dy <= 0x1_0000_0000,
    ;
    assert(0 <= rr * rr <= 0x1_0000_0000_0000_0000) by (nonlinear_arith)
        requires
            0 <= rr <= 0x1_0000_0000,
    ;
    dx * dx + dy * dy <= rr * rr
}

/// Half of `sum`, rounded toward zero.
pub open spec fn half_toward_zero(sum: int) -> int {
    if sum >= 0 {
        sum / 2
    } else {
        -((-sum) / 2)
    }
}

/// An axis-aligned rectangle given by two corners.
#[derive(Clone, Copy, Debug, PartialEq, Eq, Structural)]
pub struct Rect {
    pub x1: i32,
    pub x2: i32,
    pub y1: i32,
    pub y2: i32,
}

impl Rect {
    /// The rectangle with corner (`x`, `y`), `w` wide and `h` high.
    pub fn with_size(x: i32, y: i32, w: i32, h: i32) -> (r: Rect)
        requires
            i32::MIN <= x + w <= i32::MAX,
            i32::MIN <= y + h <= i32::MAX,
        ensures
            r == (Rect { x1: x, x2: (x + w) as i32, y1: y, y2: (y + h) as i32 }),
    {
        Rect { x1: x, x2: x + w, y1: y, y2: y + h }
    }

    /// Whether the two rectangles touch or overlap, borders included.
    pub open spec fn overlaps(self, other: Rect) -> bool {
        self.x1 <= other.x2 && self.x2 >= other.x1 && self.y1 <= other.y2 && self.y2 >= other.y1
    }

    /// Whether the two rectangles touch or overlap.
    pub fn intersect(&self, other: &Rect) -> (r: bool)
        ensures
            r == self.overlaps(*other),
    {
        self.x1 <= other.x2 && self.x2 >= other.x1 && self.y1 <= other.y2 && self.y2 >= other.y1
    }

    /// The midpoint of the two corners, each coordinate rounded toward zero.
    pub open spec fn midpoint(self) -> Point {
        Point {
            x: half_toward_zero(self.x1 + self.x2) as i32,
            y: half_toward_zero(self.y1 + self.y2) as i32,
        }
    }

    /// The midpoint of the rectangle.
    pub fn center(&self) -> (p: Point)
        ensures
            p == self.midpoint(),
    {
        let sx: i64 = self.x1 as i64 + self.x2 as i64;
        let sy: i64 = self.y1 as i64 + self.y2 as i64;
        Point { x: (sx / 2) as i32, y: (sy / 2) as i32 }
    }

    /// Whether `p` lies inside, the far edges left out.
    pub open spec fn covers(self, p: Point) -> bool {
        self.x1 <= p.x < self.x2 && self.y1 <= p.y < self.y2
    }

    /// Whether `point` lies inside the rectangle.
    pub fn point_in_rect(&self, point: Point) -> (r: bool)
        ensures
            r == self.covers(point),
    {
        point.x >= self.x1 && point.x < self.x2 && point.y >= self.y1 && point.y < self.y2
    }
}

} // verus!
