//! A built menu: its rows, its size, where it stands on the screen, and the
//! hit test that turns a point into a row.
use vstd::prelude::*;
use crate::config::{MenuSize, MenuTheme};
use crate::geometry::{fits_i32, Point, Rect};
use crate::item::{InnerMenuItem, ItemView, XMT_SEPARATOR};
use crate::layout::items_view;

verus! {

/// The state that belongs to one popup window, the root menu's or a
/// submenu's.
#[derive(Debug)]
pub struct MenuData {
    /// Set on the root menu of a popup session, clear on submenus.
    pub main: bool,
    /// The window this menu is shown in.
    pub hwnd: isize,
    /// The window this menu belongs to: the invoking window for a root
    /// menu, the parent menu's window for a submenu.
    pub parent: isize,
    /// The rows, top to bottom.
    pub items: Vec<InnerMenuItem>,
    /// Identifier under which the root menu listens on its owner.
    pub win_subclass_id: Option<usize>,
    /// The row under the pointer, `-1` when there is none.
    pub selected_index: i32,
    pub width: i32,
    pub height: i32,
    /// The row whose submenu is shown, `-1` when none is.
    pub visible_submenu_index: i32,
    pub size: MenuSize,
    pub theme: MenuTheme,
    /// Screen position of the window's upper left corner while it is shown.
    pub origin: Point,
    /// The window is on the screen.
    pub visible: bool,
}

/// What a `MenuData` holds, as mathematical values.
pub struct MenuView {
    pub main: bool,
    pub hwnd: isize,
    pub parent: isize,
    pub items: Seq<ItemView>,
    pub win_subclass_id: Option<usize>,
    pub selected_index: i32,
    pub width: i32,
    pub height: i32,
    pub visible_submenu_index: i32,
    pub size: MenuSize,
    pub theme: MenuTheme,
    pub origin: Point,
    pub visible: bool,
}

impl View for MenuData {
    type V = MenuView;

    open spec fn view(&self) -> MenuView {
        MenuView {
            main: self.main,
            hwnd: self.hwnd,
            parent: self.parent,
            items: items_view(self.items@),
            win_subclass_id: self.win_subclass_id,
            selected_index: self.selected_index,
            width: self.width,
            height: self.height,
            visible_submenu_index: self.visible_submenu_index,
            size: self.size,
            theme: self.theme,
            origin: self.origin,
            visible: self.visible,
        }
    }
}

/// Row `item` reaches over the height `y`, both edges included.
pub open spec fn covers(item: ItemView, y: int) -> bool {
    item.top <= y <= item.bottom
}

/// Row `item` takes the pointer at height `y`: it reaches over it and is
/// not a separator.
pub open spec fn takes(item: ItemView, y: int) -> bool {
    covers(item, y) && !item.is_separator()
}

/// The index recorded in the last of the first `n` rows that takes the
/// pointer at height `y`, or `-1` if none of them does.
pub open spec fn hit_among(items: Seq<ItemView>, y: int, n: int) -> int
    decreases n,
{
    if n <= 0 {
        -1
    } else if takes(items[n - 1], y) {
        items[n - 1].index as int
    } else {
        hit_among(items, y, n - 1)
    }
}

impl MenuView {
    /// Every row records its own position.
    pub open spec fn indexed(self) -> bool {
        forall|i: int| 0 <= i < self.items.len() ==> (#[trigger] self.items[i]).index == i
    }

    /// The rectangle row `i` is painted in: between the frame on the left
    /// and on the right, and its own edges moved down by the frame.
    pub open spec fn item_rect(self, i: int) -> Rect {
        Rect {
            left: self.size.border_width,
            top: (self.items[i].top + self.size.border_width) as i32,
            right: (self.width - self.size.border_width) as i32,
            bottom: (self.items[i].bottom + self.size.border_width) as i32,
        }
    }

    /// The rectangle of every row can be written in 32-bit coordinates.
    pub open spec fn paintable(self) -> bool {
        &&& fits_i32(self.width - self.size.border_width)
        &&& forall|i: int|
            0 <= i < self.items.len() ==> fits_i32(
                (#[trigger] self.items[i]).top + self.size.border_width,
            ) && fits_i32(self.items[i].bottom + self.size.border_width)
    }

    /// Every row has a group exactly if it is a radio row.
    pub open spec fn rows_wf(self) -> bool {
        forall|i: int| 0 <= i < self.items.len() ==> (#[trigger] self.items[i]).wf()
    }

    /// Every row is well-formed and the rows lie edge to edge from top to
    /// bottom; the pointer is over no row or over one that exists and is
    /// no separator; a submenu is shown for no row or for exactly one, and
    /// that one is a submenu row.
    pub open spec fn wf(self) -> bool {
        &&& self.items.len() <= i32::MAX
        &&& self.indexed()
        &&& self.paintable()
        &&& self.rows_wf()
        &&& stacked(self.items)
        &&& -1 <= self.selected_index < self.items.len()
        &&& self.selected_index >= 0 ==> !self.items[self.selected_index as int].is_separator()
        &&& self.visible_submenu_index == -1 || (0 <= self.visible_submenu_index
            < self.items.len() && self.items[self.visible_submenu_index as int].is_submenu())
    }

    /// The row at a point of the client area, `-1` for none: the point has
    /// to lie inside the menu, and of the rows that take it the last one
    /// wins.
    pub open spec fn hit_client(self, x: int, y: int) -> int {
        if 0 <= x < self.width && 0 <= y < self.height {
            hit_among(self.items, y, self.items.len() as int)
        } else {
            -1
        }
    }

    /// The row at a point of the screen, `-1` for none.
    pub open spec fn hit(self, screen: Point) -> int {
        self.hit_client(screen.x - self.origin.x, screen.y - self.origin.y)
    }
}

/// What `hit_among` finds is the recorded index of a row that takes the
/// pointer, and no later row takes it; it finds nothing only if no row
/// takes it.
pub proof fn lemma_hit_among(items: Seq<ItemView>, y: int, n: int)
    requires
        0 <= n <= items.len(),
    ensures
        (forall|j: int| 0 <= j < n ==> !takes(#[trigger] items[j], y)) ==> hit_among(items, y, n)
            == -1,
        forall|j: int|
            0 <= j < n && takes(#[trigger] items[j], y) && (forall|k: int|
                j < k < n ==> !takes(#[trigger] items[k], y)) ==> hit_among(items, y, n)
                == items[j].index,
    decreases n,
{
    if n > 0 {
        lemma_hit_among(items, y, n - 1);
        if !takes(items[n - 1], y) {
            assert forall|j: int|
                0 <= j < n && takes(#[trigger] items[j], y) && (forall|k: int|
                    j < k < n ==> !takes(#[trigger] items[k], y)) implies hit_among(items, y, n)
                == items[j].index by {
                assert(j < n - 1);
                assert(forall|k: int| j < k < n - 1 ==> !takes(#[trigger] items[k], y));
            }
        } else {
            assert forall|j: int|
                0 <= j < n && takes(#[trigger] items[j], y) && (forall|k: int|
                    j < k < n ==> !takes(#[trigger] items[k], y)) implies hit_among(items, y, n)
                == items[j].index by {
                if j < n - 1 {
                    assert(!takes(items[n - 1], y));
                }
            }
        }
    }
}

/// Hit-test correctness. A point inside the menu whose height row `i`
/// reaches over is answered with `i`, or with "no row" if row `i` is a
/// separator, provided that no row after `i` takes the pointer there as
/// well and, for a separator, that no row at all does.
pub proof fn lemma_hit_test(menu: MenuView, i: int, x: int, y: int)
    requires
        menu.indexed(),
        0 <= i < menu.items.len(),
        covers(menu.items[i], y),
        0 <= x < menu.width,
        0 <= y < menu.height,
        forall|k: int| i < k < menu.items.len() ==> !takes(#[trigger] menu.items[k], y),
        menu.items[i].is_separator() ==> forall|k: int|
            0 <= k < i ==> !takes(#[trigger] menu.items[k], y),
    ensures
        menu.hit_client(x, y) == (if menu.items[i].is_separator() {
            -1
        } else {
            i
        }),
{
    lemma_hit_among(menu.items, y, menu.items.len() as int);
    if menu.items[i].is_separator() {
        assert forall|j: int| 0 <= j < menu.items.len() implies !takes(
            #[trigger] menu.items[j],
            y,
        ) by {
            if j == i {
            }
        }
    } else {
        assert(takes(menu.items[i], y));
    }
}

/// The rows of a menu lie edge to edge from top to bottom and none has a
/// negative height.
pub open spec fn stacked(items: Seq<ItemView>) -> bool {
    &&& forall|j: int| 0 <= j < items.len() ==> (#[trigger] items[j]).top <= items[j].bottom
    &&& forall|j: int|
        0 <= j < items.len() - 1 ==> (#[trigger] items[j]).bottom == items[j + 1].top
}

/// In stacked rows the upper edges never go back up.
pub proof fn lemma_stacked_order(items: Seq<ItemView>, i: int, k: int)
    requires
        stacked(items),
        0 <= i <= k < items.len(),
    ensures
        items[i].top <= items[k].top,
        i < k ==> items[i].bottom <= items[k].top,
    decreases k - i,
{
    if i < k {
        lemma_stacked_order(items, i, k - 1);
        assert(items[k - 1].bottom == items[k - 1 + 1].top);
    }
}

/// Hit-test correctness on a built menu: a point
/// inside the menu that lies below the upper edge of row `i` or on it, and
/// above its lower edge, is answered with `i`; for a separator, a point
/// strictly between its edges is answered with "no row".
pub proof fn lemma_hit_test_stacked(menu: MenuView, i: int, x: int, y: int)
    requires
        menu.wf(),
        0 <= i < menu.items.len(),
        menu.items[i].top <= y < menu.items[i].bottom,
        menu.items[i].is_separator() ==> menu.items[i].top < y,
        0 <= x < menu.width,
        0 <= y < menu.height,
    ensures
        menu.hit_client(x, y) == (if menu.items[i].is_separator() {
            -1
        } else {
            i
        }),
{
    assert forall|k: int| i < k < menu.items.len() implies !takes(#[trigger] menu.items[k], y) by {
        lemma_stacked_order(menu.items, i, k);
    }
    if menu.items[i].is_separator() {
        assert forall|k: int| 0 <= k < i implies !takes(#[trigger] menu.items[k], y) by {
            lemma_stacked_order(menu.items, k, i);
        }
    }
    lemma_hit_test(menu, i, x, y);
}

impl MenuData {
    /// The row under a point of the screen, `-1` for none. Separators are
    /// never answered, even where they are under the pointer.
    pub fn index_from_point(&self, screen_pt: Point) -> (index: i32)
        ensures
            index == self@.hit(screen_pt),
    {
        let x: i64 = screen_pt.x as i64 - self.origin.x as i64;
        let y: i64 = screen_pt.y as i64 - self.origin.y as i64;
        let mut selected_index: i32 = -1;
        if x >= 0 && x < self.width as i64 && y >= 0 && y < self.height as i64 {
            let mut i: usize = 0;
            while i < self.items.len()
                invariant
                    i <= self.items@.len(),
                    selected_index == hit_among(self@.items, y as int, i as int),
                decreases self.items@.len() - i,
            {
                let item = &self.items[i];
                assert(self@.items[i as int] == item@);
                if y >= item.top as i64 && y <= item.bottom as i64 {
                    if item.menu_type.0 != XMT_SEPARATOR {
                        selected_index = item.index;
                    }
                }
                i = i + 1;
            }
        }
        selected_index
    }

    /// The rectangle a row is painted in.
    pub fn get_item_rect(&self, index: usize) -> (rect: Rect)
        requires
            self@.paintable(),
            index < self.items@.len(),
        ensures
            rect == self@.item_rect(index as int),
    {
        let border_width = self.size.border_width;
        let item = &self.items[index];
        assert(self@.items[index as int] == item@);
        Rect {
            left: border_width,
            top: item.top + border_width,
            right: self.width - border_width,
            bottom: item.bottom + border_width,
        }
    }
}

} // verus!
