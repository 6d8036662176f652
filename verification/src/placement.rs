//! Where a popup goes on the screen: the monitor it belongs to, and the
//! slide and flip rules that keep it inside that monitor's work area.
use vstd::prelude::*;
use crate::geometry::{fits_i32, Point, Rect};
use crate::menu::{MenuData, MenuView};

verus! {

/// By how much a submenu overlaps the right edge of its parent.
pub const SUBMENU_OVERLAP: i32 = 5;

/// The work areas a popup can be placed in.
#[derive(Clone, Copy, Debug, PartialEq, Eq, Structural)]
pub struct Monitors {
    /// Work area of the monitor that contains the invocation point, if the
    /// point is on any monitor.
    pub at_point: Option<Rect>,
    /// Work area of the monitor nearest to the invoking window.
    pub at_owner: Rect,
}

impl Monitors {
    /// The work area to place in: the one under the invocation point, and
    /// the invoking window's where the point is off every monitor.
    pub open spec fn work_area(self) -> Rect {
        match self.at_point {
            Some(work) => work,
            None => self.at_owner,
        }
    }

    /// Picks the work area to place in.
    pub fn select_work_area(&self) -> (work: Rect)
        ensures
            work == self.work_area(),
    {
        match self.at_point {
            Some(work) => work,
            None => self.at_owner,
        }
    }
}

/// A placed popup: its upper left corner, and whether it was flipped to the
/// left of the invocation point (`rtl`) or above it (`reverse`).
#[derive(Clone, Copy, Debug, PartialEq, Eq, Structural)]
pub struct DisplayPoint {
    pub x: i32,
    pub y: i32,
    pub rtl: bool,
    pub reverse: bool,
}

/// A coordinate before the near edge of the work area slides onto that edge.
pub open spec fn slide(p: int, low: int) -> int {
    if p < low {
        low
    } else {
        p
    }
}

/// After sliding, a popup of the given extent would touch the far edge of
/// the work area or reach beyond it.
pub open spec fn flips(p: int, extent: int, low: int, high: int) -> bool {
    slide(p, low) + extent >= high
}

/// Where a popup begins along one axis: at the (slid) coordinate, and
/// before it by its whole extent where it has to flip.
pub open spec fn place_axis(p: int, extent: int, low: int, high: int) -> int {
    if flips(p, extent, low, high) {
        slide(p, low) - extent
    } else {
        slide(p, low)
    }
}

/// Where a popup that has to flip has room to: the (slid) coordinate is not
/// beyond the far edge, and the popup fits between the near edge and it.
pub open spec fn axis_has_room(p: int, extent: int, low: int, high: int) -> bool {
    flips(p, extent, low, high) ==> low + extent <= slide(p, low) <= high
}

/// The rectangle of a popup of size `cx` by `cy` invoked at `(x, y)`.
pub open spec fn placed_rect(x: int, y: int, cx: int, cy: int, work: Rect) -> (int, int, int, int) {
    let left = place_axis(x, cx, work.left as int, work.right as int);
    let top = place_axis(y, cy, work.top as int, work.bottom as int);
    (left, top, left + cx, top + cy)
}

/// Placement containment. The rectangle of a placed popup lies inside the
/// work area in every combination of slide and flip, provided that along
/// each axis on which it flips there is room for it before the invocation
/// point.
pub proof fn lemma_placement_contained(x: int, y: int, cx: int, cy: int, work: Rect)
    requires
        axis_has_room(x, cx, work.left as int, work.right as int),
        axis_has_room(y, cy, work.top as int, work.bottom as int),
    ensures
        ({
            let (left, top, right, bottom) = placed_rect(x, y, cx, cy, work);
            &&& work.left <= left
            &&& right <= work.right
            &&& work.top <= top
            &&& bottom <= work.bottom
        }),
{
}

fn place_along(p: i64, extent: i64, low: i64, high: i64) -> (placed: (i64, bool))
    requires
        -0x2_0000_0000 <= p <= 0x2_0000_0000,
        fits_i32(extent as int),
        fits_i32(low as int),
        fits_i32(high as int),
    ensures
        placed.0 == place_axis(p as int, extent as int, low as int, high as int),
        placed.1 == flips(p as int, extent as int, low as int, high as int),
{
    let slid = if p < low {
        low
    } else {
        p
    };
    if slid + extent >= high {
        (slid - extent, true)
    } else {
        (slid, false)
    }
}

/// Places a popup of size `cx` by `cy` that was invoked at `(x, y)`.
///
/// A point above or left of the work area slides onto its edge; a popup
/// that would touch or cross the right edge is flipped to the left of the
/// point, one that would touch or cross the bottom edge is flipped above
/// it. The answer is `None` exactly when the corner cannot be written in
/// 32-bit coordinates.
pub fn get_display_point(x: i32, y: i32, cx: i32, cy: i32, work: &Rect) -> (placed: Option<
    DisplayPoint,
>)
    ensures
        match placed {
            Some(pt) => {
                &&& pt.x == place_axis(x as int, cx as int, work.left as int, work.right as int)
                &&& pt.y == place_axis(y as int, cy as int, work.top as int, work.bottom as int)
                &&& pt.rtl == flips(x as int, cx as int, work.left as int, work.right as int)
                &&& pt.reverse == flips(y as int, cy as int, work.top as int, work.bottom as int)
            },
            None => !fits_i32(
                place_axis(x as int, cx as int, work.left as int, work.right as int),
            ) || !fits_i32(place_axis(y as int, cy as int, work.top as int, work.bottom as int)),
        },
{
    let (px, rtl) = place_along(x as i64, cx as i64, work.left as i64, work.right as i64);
    let (py, reverse) = place_along(y as i64, cy as i64, work.top as i64, work.bottom as i64);
    if px < i32::MIN as i64 || px > i32::MAX as i64 || py < i32::MIN as i64 || py
        > i32::MAX as i64 {
        return None;
    }
    Some(DisplayPoint { x: px as i32, y: py as i32, rtl, reverse })
}

impl MenuView {
    /// The point a submenu of row `i` is placed from: the right edge of
    /// this menu at the height of the row's upper edge.
    pub open spec fn submenu_anchor(self, i: int) -> (int, int) {
        (self.origin.x + self.width, self.origin.y + self.items[i].top)
    }

    /// Left edge of the submenu of row `i`: over the last pixels of this
    /// menu's right edge, or, where that would touch or cross the right
    /// edge of the work area, left of this menu.
    pub open spec fn submenu_left(self, i: int, sub_width: int, work: Rect) -> int {
        if flips(self.submenu_anchor(i).0, sub_width, work.left as int, work.right as int) {
            self.origin.x - sub_width
        } else {
            self.origin.x + self.width - SUBMENU_OVERLAP
        }
    }

    /// Upper edge of the submenu of row `i`: level with the row's upper
    /// edge, or, where that would touch or cross the bottom of the work
    /// area, so high that it ends level with the row's lower edge.
    pub open spec fn submenu_top(self, i: int, sub_height: int, work: Rect) -> int {
        if flips(self.submenu_anchor(i).1, sub_height, work.top as int, work.bottom as int) {
            self.origin.y + self.items[i].bottom - sub_height
        } else {
            self.origin.y + self.items[i].top
        }
    }
}

impl MenuData {
    /// The point from which the submenu of a row is placed, for the host
    /// to find the monitor it falls on; `None` exactly when the point
    /// cannot be written in 32-bit coordinates.
    pub fn get_submenu_anchor(&self, index: usize) -> (anchor: Option<Point>)
        requires
            index < self.items@.len(),
        ensures
            match anchor {
                Some(pt) => pt.x == self@.submenu_anchor(index as int).0 && pt.y
                    == self@.submenu_anchor(index as int).1,
                None => !fits_i32(self@.submenu_anchor(index as int).0) || !fits_i32(
                    self@.submenu_anchor(index as int).1,
                ),
            },
    {
        let item = &self.items[index];
        assert(self@.items[index as int] == item@);
        let x: i64 = self.origin.x as i64 + self.width as i64;
        let y: i64 = self.origin.y as i64 + item.top as i64;
        if x < i32::MIN as i64 || x > i32::MAX as i64 || y < i32::MIN as i64 || y
            > i32::MAX as i64 {
            return None;
        }
        Some(Point { x: x as i32, y: y as i32 })
    }

    /// Places the submenu of a row, given the submenu's size. The answer
    /// is `None` exactly when its corner cannot be written in 32-bit
    /// coordinates.
    pub fn place_submenu(&self, index: usize, sub_width: i32, sub_height: i32, work: &Rect) -> (corner:
        Option<Point>)
        requires
            index < self.items@.len(),
        ensures
            match corner {
                Some(pt) => pt.x == self@.submenu_left(index as int, sub_width as int, *work)
                    && pt.y == self@.submenu_top(index as int, sub_height as int, *work),
                None => !fits_i32(self@.submenu_left(index as int, sub_width as int, *work))
                    || !fits_i32(self@.submenu_top(index as int, sub_height as int, *work)),
            },
    {
        let item = &self.items[index];
        assert(self@.items[index as int] == item@);
        let left: i64 = self.origin.x as i64;
        let top: i64 = self.origin.y as i64;
        let right: i64 = left + self.width as i64;
        let (_, rtl) = place_along(right, sub_width as i64, work.left as i64, work.right as i64);
        let (_, reverse) = place_along(
            top + item.top as i64,
            sub_height as i64,
            work.top as i64,
            work.bottom as i64,
        );
        let x: i64 = if rtl {
            left - sub_width as i64
        } else {
            right - SUBMENU_OVERLAP as i64
        };
        let y: i64 = if reverse {
            top + item.bottom as i64 - sub_height as i64
        } else {
            top + item.top as i64
        };
        if x < i32::MIN as i64 || x > i32::MAX as i64 || y < i32::MIN as i64 || y
            > i32::MAX as i64 {
            return None;
        }
        Some(Point { x: x as i32, y: y as i32 })
    }
}

} // verus!
