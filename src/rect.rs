use vstd::prelude::*;

verus! {

/// An axis-aligned rectangle given by its corners `(x1, y1)` and `(x2, y2)`.
#[derive(Clone, Copy, Debug, PartialEq, Eq, Structural)]
pub struct Rect {
    pub x1: i32,
    pub x2: i32,
    pub y1: i32,
    pub y2: i32,
}

/// Two rectangles overlap when their open intervals meet on both axes;
/// rectangles that only share an edge do not.
pub open spec fn rects_overlap(a: Rect, b: Rect) -> bool {
    a.x1 < b.x2 && a.x2 > b.x1 && a.y1 < b.y2 && a.y2 > b.y1
}

/// Integer halving that rounds toward zero, as machine division does.
pub open spec fn half(v: int) -> int {
    if v >= 0 {
        v / 2
    } else {
        -((-v) / 2)
    }
}

pub open spec fn center_x(r: Rect) -> int {
    half(r.x1 + r.x2)
}

pub open spec fn center_y(r: Rect) -> int {
    half(r.y1 + r.y2)
}

fn halve(v: i64) -> (r: i32)
    requires
        2 * i32::MIN <= v <= 2 * i32::MAX,
    ensures
        r == half(v as int),
{
    if v >= 0 {
        (v / 2) as i32
    } else {
        -((-v) / 2) as i32
    }
}

impl Rect {
    pub fn new(x: i32, y: i32, w: i32, h: i32) -> (r: Rect)
        requires
            i32::MIN <= x + w <= i32::MAX,
            i32::MIN <= y + h <= i32::MAX,
        ensures
            r.x1 == x,
            r.y1 == y,
            r.x2 == x + w,
            r.y2 == y + h,
    {
        Rect { x1: x, y1: y, x2: x + w, y2: y + h }
    }

    /// Whether the two rectangles overlap (touching at an edge is not overlap).
    pub fn intersect(&self, other: &Rect) -> (r: bool)
        ensures
            r == rects_overlap(*self, *other),
    {
        self.x1 < other.x2 && self.x2 > other.x1 && self.y1 < other.y2 && self.y2 > other.y1
    }

    pub fn center(&self) -> (r: (i32, i32))
        ensures
            r.0 == center_x(*self),
            r.1 == center_y(*self),
    {
        (halve(self.x1 as i64 + self.x2 as i64), halve(self.y1 as i64 + self.y2 as i64))
    }
}

} // verus!
