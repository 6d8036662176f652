//! Screen geometry: points and rectangles in device pixels.
use vstd::prelude::*;

verus! {

/// A position on the virtual screen or inside a window's client area.
#[derive(Clone, Copy, Debug, PartialEq, Eq, Structural)]
pub struct Point {
    pub x: i32,
    pub y: i32,
}

/// An axis-aligned rectangle. `left`/`top` are inclusive and `right`/`bottom`
/// exclusive wherever the rectangle is tested against a point.
#[derive(Clone, Copy, Debug, PartialEq, Eq, Structural)]
pub struct Rect {
    pub left: i32,
    pub top: i32,
    pub right: i32,
    pub bottom: i32,
}

impl Rect {
    /// The point lies inside the rectangle, edges counted as the host counts
    /// them: the left and top edges belong to it, the right and bottom do not.
    pub open spec fn contains(self, p: Point) -> bool {
        self.left <= p.x < self.right && self.top <= p.y < self.bottom
    }

    /// `inner` does not reach beyond this rectangle on any side.
    pub open spec fn encloses(self, inner: Rect) -> bool {
        &&& self.left <= inner.left
        &&& inner.right <= self.right
        &&& self.top <= inner.top
        &&& inner.bottom <= self.bottom
    }

    /// Whether the point lies inside the rectangle.
    pub fn pt_in_rect(&self, p: Point) -> (inside: bool)
        ensures
            inside == self.contains(p),
    {
        self.left <= p.x && p.x < self.right && self.top <= p.y && p.y < self.bottom
    }
}

/// `v` can be stored in a 32-bit signed coordinate.
pub open spec fn fits_i32(v: int) -> bool {
    i32::MIN <= v <= i32::MAX
}

} // verus!
