//! Integer geometry in the compositor's logical coordinate space.

use vstd::prelude::*;

verus! {

/// A position in logical coordinates.
#[derive(Clone, Copy, Debug, PartialEq, Eq, Structural)]
pub struct Point {
    pub x: i32,
    pub y: i32,
}

/// A width and a height in logical coordinates.
#[derive(Clone, Copy, Debug, PartialEq, Eq, Structural)]
pub struct Size {
    pub w: i32,
    pub h: i32,
}

/// An axis-aligned rectangle: its top-left corner and its size.
#[derive(Clone, Copy, Debug, PartialEq, Eq, Structural)]
pub struct Rect {
    pub loc: Point,
    pub size: Size,
}

/// A position computed from logical values, held in a wider type.
#[derive(Clone, Copy, Debug, PartialEq, Eq, Structural)]
pub struct WidePoint {
    pub x: i64,
    pub y: i64,
}

/// A rectangle computed from logical values, held in a wider type.
#[derive(Clone, Copy, Debug, PartialEq, Eq, Structural)]
pub struct WideRect {
    pub x: i64,
    pub y: i64,
    pub w: i64,
    pub h: i64,
}

/// The eight orientations an output can have (rotations by quarter turns,
/// optionally mirrored).
#[derive(Clone, Copy, Debug, PartialEq, Eq, Structural)]
pub enum Transform {
    Normal,
    Rotated90,
    Rotated180,
    Rotated270,
    Flipped,
    Flipped90,
    Flipped180,
    Flipped270,
}

/// Whether `p` lies in `r`: the left and top edges are inside, the right and
/// bottom edges are not.
pub open spec fn rect_contains(r: Rect, p: Point) -> bool {
    &&& r.loc.x <= p.x
    &&& p.x < r.loc.x + r.size.w
    &&& r.loc.y <= p.y
    &&& p.y < r.loc.y + r.size.h
}

/// Whether the two rectangles share an area of positive size.
pub open spec fn rects_overlap(a: Rect, b: Rect) -> bool {
    &&& 0 < a.size.w
    &&& 0 < a.size.h
    &&& 0 < b.size.w
    &&& 0 < b.size.h
    &&& a.loc.x < b.loc.x + b.size.w
    &&& b.loc.x < a.loc.x + a.size.w
    &&& a.loc.y < b.loc.y + b.size.h
    &&& b.loc.y < a.loc.y + a.size.h
}

/// Where `(x, y)` lands when the area `(w, h)` that holds it is transformed.
pub open spec fn transformed(t: Transform, x: int, y: int, w: int, h: int) -> (int, int) {
    match t {
        Transform::Normal => (x, y),
        Transform::Rotated90 => (h - y, x),
        Transform::Rotated180 => (w - x, h - y),
        Transform::Rotated270 => (y, w - x),
        Transform::Flipped => (w - x, y),
        Transform::Flipped90 => (y, x),
        Transform::Flipped180 => (x, h - y),
        Transform::Flipped270 => (h - y, w - x),
    }
}

/// Whether the transform turns the picture by a quarter turn, so that width
/// and height trade places.
pub open spec fn swaps_axes(t: Transform) -> bool {
    t is Rotated90 || t is Rotated270 || t is Flipped90 || t is Flipped270
}

impl Rect {
    /// Whether `p` lies inside this rectangle.
    pub fn contains(&self, p: Point) -> (r: bool)
        ensures
            r == rect_contains(*self, p),
    {
        let x = p.x as i64;
        let y = p.y as i64;
        let left = self.loc.x as i64;
        let top = self.loc.y as i64;
        left <= x && x < left + self.size.w as i64 && top <= y && y < top + self.size.h as i64
    }

    /// Whether this rectangle and `other` share an area of positive size.
    pub fn overlaps(&self, other: &Rect) -> (r: bool)
        ensures
            r == rects_overlap(*self, *other),
    {
        let ax = self.loc.x as i64;
        let ay = self.loc.y as i64;
        let bx = other.loc.x as i64;
        let by = other.loc.y as i64;
        0 < self.size.w && 0 < self.size.h && 0 < other.size.w && 0 < other.size.h && ax < bx
            + other.size.w as i64 && bx < ax + self.size.w as i64 && ay < by + other.size.h as i64
            && by < ay + self.size.h as i64
    }
}

impl Transform {
    /// Where the point `p` of the area `area` lands once the area is
    /// transformed.
    pub fn transform_point_in(&self, p: WidePoint, area: WidePoint) -> (r: WidePoint)
        requires
            -0x1_0000_0000 <= p.x <= 0x1_0000_0000,
            -0x1_0000_0000 <= p.y <= 0x1_0000_0000,
            -0x1_0000_0000 <= area.x <= 0x1_0000_0000,
            -0x1_0000_0000 <= area.y <= 0x1_0000_0000,
        ensures
            (r.x as int, r.y as int) == transformed(*self, p.x as int, p.y as int, area.x as int, area.y as int),
            -0x2_0000_0000 <= r.x <= 0x2_0000_0000,
            -0x2_0000_0000 <= r.y <= 0x2_0000_0000,
    {
        match self {
            Transform::Normal => WidePoint { x: p.x, y: p.y },
            Transform::Rotated90 => WidePoint { x: area.y - p.y, y: p.x },
            Transform::Rotated180 => WidePoint { x: area.x - p.x, y: area.y - p.y },
            Transform::Rotated270 => WidePoint { x: p.y, y: area.x - p.x },
            Transform::Flipped => WidePoint { x: area.x - p.x, y: p.y },
            Transform::Flipped90 => WidePoint { x: p.y, y: p.x },
            Transform::Flipped180 => WidePoint { x: p.x, y: area.y - p.y },
            Transform::Flipped270 => WidePoint { x: area.y - p.y, y: area.x - p.x },
        }
    }

    /// Whether width and height trade places under this transform.
    pub fn swaps_axes(&self) -> (r: bool)
        ensures
            r == swaps_axes(*self),
    {
        match self {
            Transform::Rotated90 | Transform::Rotated270 | Transform::Flipped90
            | Transform::Flipped270 => true,
            _ => false,
        }
    }
}

} // verus!
