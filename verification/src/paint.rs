//! What a menu looks like: the list of drawing steps that paints its
//! background and its rows.
use vstd::prelude::*;
use crate::config::get_color_scheme;
use crate::geometry::{fits_i32, Rect};
use crate::item::{is_checked, is_disabled, MENU_CHECKED, MENU_DISABLED, XMT_SEPARATOR, XMT_SUBMENU};
use crate::layout::{half, LR_BUTTON_SIZE};
use crate::menu::{MenuData, MenuView};

verus! {

/// One drawing step. Rectangles are in the client area of the menu's
/// window; colours are `0x00BBGGRR` values.
#[derive(Clone, Copy, Debug, PartialEq, Eq, Structural)]
pub enum PaintOp {
    /// Fill the rectangle with the colour.
    Fill { rect: Rect, color: u32 },
    /// Draw a frame one pixel wide just inside the rectangle.
    Frame { rect: Rect, color: u32 },
    /// Draw a horizontal line one pixel high from `left` up to `right`.
    Rule { left: i32, right: i32, y: i32, color: u32 },
    /// Draw the theme's check mark into the rectangle.
    CheckMark { rect: Rect },
    /// Draw the theme's submenu arrow into the rectangle.
    Arrow { rect: Rect },
    /// Draw the label of the row left-aligned and vertically centred.
    Label { row: usize, rect: Rect, color: u32 },
    /// Draw the accelerator hint of the row right-aligned and vertically
    /// centred.
    Accelerator { row: usize, rect: Rect, color: u32 },
    /// Take the rectangle out of what is still to be painted.
    Exclude { rect: Rect },
}

impl MenuView {
    /// Height of the rectangle row `i` is painted in.
    pub open spec fn row_height(self, i: int) -> int {
        self.items[i].bottom - self.items[i].top
    }

    /// The colour under row `i`: the highlight for the row under the
    /// pointer, the background for every other.
    pub open spec fn row_background(self, i: int) -> u32 {
        if self.items[i].index == self.selected_index {
            self.theme.scheme().border
        } else {
            self.theme.scheme().background_color
        }
    }

    /// Height of the rule of a separator: the middle of its rectangle.
    pub open spec fn rule_y(self, i: int) -> int {
        self.item_rect(i).top + half(self.row_height(i))
    }

    /// Upper edge of the square that holds the check mark of row `i`,
    /// vertically centred in the row.
    pub open spec fn check_top(self, i: int) -> int {
        self.item_rect(i).top + half(self.row_height(i) - LR_BUTTON_SIZE)
    }

    /// Right edge of the text of row `i`: the mirror image of the
    /// check-mark column stays free, and on a submenu row the arrow.
    pub open spec fn text_right(self, i: int, arrow_width: int) -> int {
        self.item_rect(i).right - LR_BUTTON_SIZE - (if self.items[i].is_submenu() {
            arrow_width
        } else {
            0
        })
    }

    /// Every coordinate used in painting row `i` can be written in 32
    /// bits.
    pub open spec fn row_paint_fits(self, i: int, arrow_width: int) -> bool {
        if self.items[i].is_separator() {
            fits_i32(self.rule_y(i))
        } else {
            &&& fits_i32(self.size.border_width + LR_BUTTON_SIZE)
            &&& fits_i32(self.text_right(i, arrow_width))
            &&& is_checked(self.items[i].state) ==> fits_i32(self.check_top(i)) && fits_i32(
                self.check_top(i) + LR_BUTTON_SIZE,
            )
            &&& self.items[i].is_submenu() ==> fits_i32(self.item_rect(i).right - arrow_width)
        }
    }

    /// The rectangle of the check mark of row `i`: a square as wide as the
    /// check-mark column at the left edge of the row, vertically centred,
    /// drawn in by one pixel on every side.
    pub open spec fn check_rect(self, i: int) -> Rect {
        Rect {
            left: (self.size.border_width + 1) as i32,
            top: (self.check_top(i) + 1) as i32,
            right: (self.size.border_width + LR_BUTTON_SIZE - 1) as i32,
            bottom: (self.check_top(i) + LR_BUTTON_SIZE - 1) as i32,
        }
    }

    /// The rectangle of the text of row `i`.
    pub open spec fn text_rect(self, i: int, arrow_width: int) -> Rect {
        Rect {
            left: (self.size.border_width + LR_BUTTON_SIZE) as i32,
            top: self.item_rect(i).top,
            right: self.text_right(i, arrow_width) as i32,
            bottom: self.item_rect(i).bottom,
        }
    }

    /// The rectangle of the arrow of a submenu row: the right end of the
    /// row, as wide as the arrow.
    pub open spec fn arrow_rect(self, i: int, arrow_width: int) -> Rect {
        Rect {
            left: (self.item_rect(i).right - arrow_width) as i32,
            top: self.item_rect(i).top,
            right: self.item_rect(i).right,
            bottom: self.item_rect(i).bottom,
        }
    }

    /// The colour of the label of row `i`.
    pub open spec fn label_color(self, i: int) -> u32 {
        if is_disabled(self.items[i].state) {
            self.theme.scheme().disabled
        } else {
            self.theme.scheme().color
        }
    }

    /// The steps that paint what stands on row `i`, after its background.
    pub open spec fn row_content(self, i: int, arrow_width: int) -> Seq<PaintOp> {
        if self.items[i].is_separator() {
            seq![
                PaintOp::Rule {
                    left: self.item_rect(i).left,
                    right: self.item_rect(i).right,
                    y: self.rule_y(i) as i32,
                    color: self.theme.scheme().border,
                },
            ]
        } else {
            (if is_checked(self.items[i].state) {
                seq![PaintOp::CheckMark { rect: self.check_rect(i) }]
            } else {
                Seq::<PaintOp>::empty()
            }) + (if self.items[i].is_submenu() {
                seq![PaintOp::Arrow { rect: self.arrow_rect(i, arrow_width) }]
            } else {
                Seq::<PaintOp>::empty()
            }) + seq![
                PaintOp::Label {
                    row: i as usize,
                    rect: self.text_rect(i, arrow_width),
                    color: self.label_color(i),
                },
            ] + (if self.items[i].accelerator is Some {
                seq![
                    PaintOp::Accelerator {
                        row: i as usize,
                        rect: self.text_rect(i, arrow_width),
                        color: self.theme.scheme().disabled,
                    },
                ]
            } else {
                Seq::<PaintOp>::empty()
            })
        }
    }

    /// The steps that paint row `i`: its background, what stands on it,
    /// and then its rectangle is taken out of what is still to be painted.
    pub open spec fn row_ops(self, i: int, arrow_width: int) -> Seq<PaintOp> {
        seq![PaintOp::Fill { rect: self.item_rect(i), color: self.row_background(i) }]
            + self.row_content(i, arrow_width) + seq![PaintOp::Exclude { rect: self.item_rect(i) }]
    }

    /// The steps that paint the first `n` rows, top to bottom.
    pub open spec fn rows_ops(self, n: int, arrow_width: int) -> Seq<PaintOp>
        decreases n,
    {
        if n <= 0 {
            Seq::<PaintOp>::empty()
        } else {
            self.rows_ops(n - 1, arrow_width) + self.row_ops(n - 1, arrow_width)
        }
    }

    /// All of the first `n` rows can be painted in 32-bit coordinates.
    pub open spec fn rows_paint_fit(self, n: int, arrow_width: int) -> bool {
        forall|i: int| 0 <= i < n ==> #[trigger] self.row_paint_fits(i, arrow_width)
    }

    /// The rectangle of the whole window.
    pub open spec fn client_rect(self) -> Rect {
        Rect { left: 0, top: 0, right: self.width, bottom: self.height }
    }

    /// The upper and lower edge of `rect` are those of the rectangle row
    /// `i` is painted in.
    pub open spec fn has_edges_of(self, rect: Rect, i: int) -> bool {
        rect.top == self.items[i].top + self.size.border_width && rect.bottom
            == self.items[i].bottom + self.size.border_width
    }

    /// The position of the first row, at or after `from`, that is painted
    /// between the upper and lower edge of `rect`; the number of rows if
    /// there is none.
    pub open spec fn row_with_edges(self, rect: Rect, from: int) -> int
        decreases self.items.len() - from,
    {
        if from >= self.items.len() {
            self.items.len() as int
        } else if self.has_edges_of(rect, from) {
            from
        } else {
            self.row_with_edges(rect, from + 1)
        }
    }

    /// The single row a request to paint `rect` is about, if it is about
    /// one: `rect` does not span the height of the menu, and its upper and
    /// lower edge are those of the rectangle a row is painted in.
    pub open spec fn row_to_paint(self, rect: Rect) -> Option<i32> {
        if rect.top == 0 && rect.bottom == self.height {
            None
        } else if self.row_with_edges(rect, 0) < self.items.len() {
            Some(self.items[self.row_with_edges(rect, 0)].index)
        } else {
            None
        }
    }

    /// The steps that answer a request to paint `rect`: the one row the
    /// request is about, or else every row.
    pub open spec fn paint_plan(self, rect: Rect, arrow_width: int) -> Seq<PaintOp> {
        match self.row_to_paint(rect) {
            Some(i) => self.row_ops(i as int, arrow_width),
            None => self.rows_ops(self.items.len() as int, arrow_width),
        }
    }

    /// The rows a request to paint `rect` is about can be painted in
    /// 32-bit coordinates.
    pub open spec fn paint_fits(self, rect: Rect, arrow_width: int) -> bool {
        match self.row_to_paint(rect) {
            Some(i) => self.row_paint_fits(i as int, arrow_width),
            None => self.rows_paint_fit(self.items.len() as int, arrow_width),
        }
    }
}

/// The row found for a rectangle is a row with those edges, and the first
/// such.
pub proof fn lemma_row_with_edges(menu: MenuView, rect: Rect, from: int)
    requires
        0 <= from <= menu.items.len(),
    ensures
        from <= menu.row_with_edges(rect, from) <= menu.items.len(),
        menu.row_with_edges(rect, from) < menu.items.len() ==> menu.has_edges_of(
            rect,
            menu.row_with_edges(rect, from),
        ),
        forall|j: int|
            from <= j < menu.row_with_edges(rect, from) ==> !#[trigger] menu.has_edges_of(rect, j),
    decreases menu.items.len() - from,
{
    if from < menu.items.len() && !menu.has_edges_of(rect, from) {
        lemma_row_with_edges(menu, rect, from + 1);
    }
}

/// A row is found again by the rectangle it is painted in. In a built
/// menu a request to paint the rectangle of a row that has some height is
/// about that row and no other, unless the rectangle spans the height of
/// the whole menu; and a request that spans it is about every row.
pub proof fn lemma_row_to_paint(menu: MenuView, i: int)
    requires
        menu.wf(),
        0 <= i < menu.items.len(),
        menu.items[i].top < menu.items[i].bottom,
        !(menu.item_rect(i).top == 0 && menu.item_rect(i).bottom == menu.height),
    ensures
        menu.row_to_paint(menu.item_rect(i)) == Some(i as i32),
        forall|left: i32, right: i32|
            menu.row_to_paint(Rect { left, top: 0, right, bottom: menu.height }) is None,
{
    let rect = menu.item_rect(i);
    assert(menu.has_edges_of(rect, i));
    assert forall|j: int| 0 <= j < i implies !#[trigger] menu.has_edges_of(rect, j) by {
        crate::menu::lemma_stacked_order(menu.items, j, i);
    }
    lemma_first_with_edges(menu, rect, 0, i);
}

proof fn lemma_first_with_edges(menu: MenuView, rect: Rect, from: int, at: int)
    requires
        0 <= from <= at < menu.items.len(),
        menu.has_edges_of(rect, at),
        forall|j: int| from <= j < at ==> !#[trigger] menu.has_edges_of(rect, j),
    ensures
        menu.row_with_edges(rect, from) == at,
    decreases at - from,
{
    if from < at {
        lemma_first_with_edges(menu, rect, from + 1, at);
    }
}

fn half_of(v: i64) -> (h: i64)
    requires
        -0x2_0000_0000 <= v <= 0x2_0000_0000,
    ensures
        h == half(v as int),
{
    if v < 0 {
        -((-v) / 2)
    } else {
        v / 2
    }
}

impl MenuData {
    /// The single row a request to paint `rect` is about, if it is about
    /// one: the first row whose painted rectangle has the upper and lower
    /// edge of `rect`, unless `rect` spans the height of the menu.
    pub fn index_from_rect(&self, rect: Rect) -> (index: Option<i32>)
        ensures
            index == self@.row_to_paint(rect),
    {
        if rect.top == 0 && rect.bottom == self.height {
            return None;
        }
        let mut i: usize = 0;
        while i < self.items.len()
            invariant
                i <= self.items@.len(),
                !(rect.top == 0 && rect.bottom == self.height),
                self@.row_with_edges(rect, 0) == self@.row_with_edges(rect, i as int),
            decreases self.items@.len() - i,
        {
            let item = &self.items[i];
            assert(self@.items[i as int] == item@);
            let border: i64 = self.size.border_width as i64;
            if rect.top as i64 == item.top as i64 + border && rect.bottom as i64 == item.bottom as i64
                + border {
                assert(self@.row_with_edges(rect, i as int) == i);
                return Some(item.index);
            }
            i = i + 1;
        }
        None
    }

    /// The steps that paint the window's background and its frame.
    pub fn paint_background(&self) -> (ops: Vec<PaintOp>)
        ensures
            ops@ == seq![
                PaintOp::Fill {
                    rect: self@.client_rect(),
                    color: self@.theme.scheme().background_color,
                },
                PaintOp::Frame { rect: self@.client_rect(), color: self@.theme.scheme().border },
            ],
    {
        let scheme = get_color_scheme(&self.theme);
        let rect = Rect { left: 0, top: 0, right: self.width, bottom: self.height };
        let mut ops: Vec<PaintOp> = Vec::new();
        ops.push(PaintOp::Fill { rect, color: scheme.background_color });
        ops.push(PaintOp::Frame { rect, color: scheme.border });
        ops
    }

    /// Appends the steps that paint one row; answers `false`, with
    /// nothing appended, exactly when a coordinate of the row cannot be
    /// written in 32 bits.
    fn paint_row(&self, index: usize, arrow_width: i32, ops: &mut Vec<PaintOp>) -> (done: bool)
        requires
            self@.paintable(),
            index < self.items@.len(),
        ensures
            done == self@.row_paint_fits(index as int, arrow_width as int),
            done ==> final(ops)@ == old(ops)@ + self@.row_ops(index as int, arrow_width as int),
            !done ==> final(ops)@ == old(ops)@,
    {
        let ghost i = index as int;
        let scheme = get_color_scheme(&self.theme);
        let item_rect = self.get_item_rect(index);
        let item = &self.items[index];
        assert(self@.items[i] == item@);
        let background = if item.index == self.selected_index {
            scheme.border
        } else {
            scheme.background_color
        };
        let height: i64 = item.bottom as i64 - item.top as i64;
        if item.menu_type.0 == XMT_SEPARATOR {
            let y: i64 = item_rect.top as i64 + half_of(height);
            if y < i32::MIN as i64 || y > i32::MAX as i64 {
                return false;
            }
            ops.push(PaintOp::Fill { rect: item_rect, color: background });
            ops.push(
                PaintOp::Rule {
                    left: item_rect.left,
                    right: item_rect.right,
                    y: y as i32,
                    color: scheme.border,
                },
            );
            ops.push(PaintOp::Exclude { rect: item_rect });
            assert(ops@ =~= old(ops)@ + self@.row_ops(i, arrow_width as int));
            return true;
        }
        let checked = (item.state.0 & MENU_CHECKED) != 0;
        let disabled = (item.state.0 & MENU_DISABLED) != 0;
        let is_submenu = item.menu_type.0 == XMT_SUBMENU;
        let text_left: i64 = item_rect.left as i64 + LR_BUTTON_SIZE as i64;
        let mut text_right: i64 = item_rect.right as i64 - LR_BUTTON_SIZE as i64;
        if is_submenu {
            text_right = text_right - arrow_width as i64;
        }
        let check_top: i64 = item_rect.top as i64 + half_of(height - LR_BUTTON_SIZE as i64);
        let arrow_left: i64 = item_rect.right as i64 - arrow_width as i64;
        if text_left > i32::MAX as i64 || text_left < i32::MIN as i64 || text_right
            < i32::MIN as i64 || text_right > i32::MAX as i64 {
            return false;
        }
        if checked && (check_top < i32::MIN as i64 || check_top + LR_BUTTON_SIZE as i64
            > i32::MAX as i64 || check_top > i32::MAX as i64 || check_top + (LR_BUTTON_SIZE as i64)
            < i32::MIN as i64) {
            return false;
        }
        if is_submenu && (arrow_left < i32::MIN as i64 || arrow_left > i32::MAX as i64) {
            return false;
        }
        ops.push(PaintOp::Fill { rect: item_rect, color: background });
        if checked {
            ops.push(
                PaintOp::CheckMark {
                    rect: Rect {
                        left: (item_rect.left as i64 + 1) as i32,
                        top: (check_top + 1) as i32,
                        right: (text_left - 1) as i32,
                        bottom: (check_top + LR_BUTTON_SIZE as i64 - 1) as i32,
                    },
                },
            );
        }
        if is_submenu {
            ops.push(
                PaintOp::Arrow {
                    rect: Rect {
                        left: arrow_left as i32,
                        top: item_rect.top,
                        right: item_rect.right,
                        bottom: item_rect.bottom,
                    },
                },
            );
        }
        let text_rect = Rect {
            left: text_left as i32,
            top: item_rect.top,
            right: text_right as i32,
            bottom: item_rect.bottom,
        };
        ops.push(
            PaintOp::Label {
                row: index,
                rect: text_rect,
                color: if disabled {
                    scheme.disabled
                } else {
                    scheme.color
                },
            },
        );
        if item.accelerator.is_some() {
            ops.push(PaintOp::Accelerator { row: index, rect: text_rect, color: scheme.disabled });
        }
        ops.push(PaintOp::Exclude { rect: item_rect });
        assert(ops@ =~= old(ops)@ + self@.row_ops(i, arrow_width as int));
        true
    }

    /// The steps that paint the given rows of the menu, or all of its
    /// rows: for each row its background, highlighted under the pointer;
    /// then the rule of a separator or, for any other row, its check mark
    /// if it is checked, its arrow if it opens a submenu, its label, and
    /// its accelerator hint in the colour of disabled text; last the row
    /// is taken out of what is still to be painted. `arrow_width` is the
    /// width the host gives its submenu arrow.
    ///
    /// The answer is `None` exactly when a coordinate of one of the rows
    /// cannot be written in 32 bits.
    pub fn paint(&self, only: Option<usize>, arrow_width: i32) -> (plan: Option<Vec<PaintOp>>)
        requires
            self@.paintable(),
            only matches Some(i) ==> i < self@.items.len(),
        ensures
            match only {
                Some(i) => match plan {
                    Some(ops) => self@.row_paint_fits(i as int, arrow_width as int) && ops@
                        == self@.row_ops(i as int, arrow_width as int),
                    None => !self@.row_paint_fits(i as int, arrow_width as int),
                },
                None => match plan {
                    Some(ops) => self@.rows_paint_fit(
                        self@.items.len() as int,
                        arrow_width as int,
                    ) && ops@ == self@.rows_ops(self@.items.len() as int, arrow_width as int),
                    None => !self@.rows_paint_fit(self@.items.len() as int, arrow_width as int),
                },
            },
    {
        let mut ops: Vec<PaintOp> = Vec::new();
        if let Some(i) = only {
            if !self.paint_row(i, arrow_width, &mut ops) {
                return None;
            }
            assert(ops@ =~= self@.row_ops(i as int, arrow_width as int));
            return Some(ops);
        }
        let n = self.items.len();
        let mut k: usize = 0;
        while k < n
            invariant
                only is None,
                self@.paintable(),
                n == self@.items.len(),
                k <= n,
                self@.rows_paint_fit(k as int, arrow_width as int),
                ops@ == self@.rows_ops(k as int, arrow_width as int),
            decreases n - k,
        {
            if !self.paint_row(k, arrow_width, &mut ops) {
                assert(!self@.row_paint_fits(k as int, arrow_width as int));
                return None;
            }
            k = k + 1;
        }
        Some(ops)
    }

    /// Answers a request of the host to paint part of the window: if the
    /// part is exactly one row, only that row is painted, otherwise every
    /// row. The answer is `None` exactly when a coordinate cannot be
    /// written in 32 bits.
    pub fn on_paint(&self, rc_paint: Rect, arrow_width: i32) -> (plan: Option<Vec<PaintOp>>)
        requires
            self@.wf(),
        ensures
            match plan {
                Some(ops) => self@.paint_fits(rc_paint, arrow_width as int) && ops@
                    == self@.paint_plan(rc_paint, arrow_width as int),
                None => !self@.paint_fits(rc_paint, arrow_width as int),
            },
    {
        proof {
            lemma_row_with_edges(self@, rc_paint, 0);
        }
        match self.index_from_rect(rc_paint) {
            Some(index) => self.paint(Some(index as usize), arrow_width),
            None => self.paint(None, arrow_width),
        }
    }
}

} // verus!
