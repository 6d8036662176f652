//! The layout pass: the size of every row, where each row sits, and the size
//! of the whole menu.
use vstd::prelude::*;
use crate::config::MenuSize;
use crate::geometry::fits_i32;
use crate::item::{InnerMenuItem, ItemView, XMT_SEPARATOR};

verus! {

/// Width of the column that holds the check mark, and of its mirror image
/// on the right; also the least height of a row with text, so that the
/// check mark is never clipped.
pub const LR_BUTTON_SIZE: i32 = 25;

/// Extra room between a label and its accelerator hint.
pub const ACCELERATOR_SPACING: i32 = 30;

/// Delay between the pointer entering a submenu row and the submenu opening.
pub const SUBMENU_TIMEOUT_MSEC: u32 = 400;

/// Weight of the menu font in the dark theme.
pub const BOLD_WEIGHT: i32 = 700;

/// Sizes the host reports for its own menus.
#[derive(Clone, Copy, Debug, PartialEq, Eq, Structural)]
pub struct SystemMetrics {
    /// Height of one row of a standard menu; a height is never negative.
    pub menu_height: u16,
    /// Width of the standard check mark; the host reports it one too large.
    pub menu_check_width: i32,
    /// Width of the arrow on a submenu row.
    pub arrow_width: i32,
}

/// The menu font, as far as layout and painting need it.
#[derive(Clone, Copy, Debug, PartialEq, Eq, Structural)]
pub struct FontMetrics {
    /// Line height; the host gives character height as a negative number.
    pub height: i32,
    pub weight: i32,
}

/// Why a menu could not be built.
#[derive(Clone, Copy, Debug, PartialEq, Eq, Structural)]
pub enum BuildError {
    /// The host could not name its menu font although a row has text.
    FontUnavailable,
    /// Some coordinate of the layout is outside the 32-bit range, or there
    /// are more rows than a 32-bit index can count.
    TooLarge,
}

/// The font a menu measures and draws its text with: the host's menu font,
/// in bold when the theme is dark.
pub fn get_font(is_dark: bool, system_font: Option<FontMetrics>) -> (font: Result<
    FontMetrics,
    BuildError,
>)
    ensures
        system_font is None ==> font == Err::<FontMetrics, BuildError>(BuildError::FontUnavailable),
        system_font matches Some(base) ==> font == Ok::<FontMetrics, BuildError>(
            FontMetrics {
                height: base.height,
                weight: if is_dark {
                    BOLD_WEIGHT
                } else {
                    base.weight
                },
            },
        ),
{
    match system_font {
        None => Err(BuildError::FontUnavailable),
        Some(base) => {
            let mut menu_font = base;
            if is_dark {
                menu_font.weight = BOLD_WEIGHT;
            }
            Ok(menu_font)
        },
    }
}

/// The magnitude of `v`.
pub open spec fn magnitude(v: int) -> int {
    if v < 0 {
        -v
    } else {
        v
    }
}

/// Half of `v`, rounded towards zero.
pub open spec fn half(v: int) -> int {
    if v < 0 {
        -((-v) / 2)
    } else {
        v / 2
    }
}

/// Half of `v`, rounded to the nearest whole number, a half itself away
/// from zero.
pub open spec fn half_rounded(v: int) -> int {
    if v < 0 {
        -((-v + 1) / 2)
    } else {
        (v + 1) / 2
    }
}

/// The larger of two numbers.
pub open spec fn larger(a: int, b: int) -> int {
    if a < b {
        b
    } else {
        a
    }
}

/// The line height of an optional font, zero where there is none.
pub open spec fn line_height(font: Option<FontMetrics>) -> int {
    match font {
        Some(f) => magnitude(f.height as int),
        None => 0,
    }
}

/// Height of a row. A separator takes half of the host's row height,
/// rounded; any other row is as high as a line of text plus the vertical
/// padding, and at least as high as the check mark.
pub open spec fn item_height(
    item: ItemView,
    size: MenuSize,
    font: Option<FontMetrics>,
    metrics: SystemMetrics,
) -> int {
    if item.is_separator() {
        half_rounded(metrics.menu_height as int)
    } else {
        larger(line_height(font) + size.item_vertical_padding, LR_BUTTON_SIZE as int)
    }
}

/// Width a row asks for. A separator asks for none. Any other row asks for
/// its text, the horizontal padding on both sides, the check-mark column
/// and its mirror image on the right, and room for an accelerator hint if
/// it has one; from this the host's check-mark width, less the one by which
/// the host overstates it, is taken off.
pub open spec fn item_width(
    item: ItemView,
    size: MenuSize,
    text_width: int,
    metrics: SystemMetrics,
) -> int {
    if item.is_separator() {
        0
    } else {
        text_width + 2 * size.item_horizontal_padding + 2 * LR_BUTTON_SIZE + (if item.accelerator is Some {
            ACCELERATOR_SPACING as int
        } else {
            0
        }) - (metrics.menu_check_width - 1)
    }
}

/// Measures one row, given the measured width of its label and accelerator.
///
/// Fails with `FontUnavailable` exactly when the row has text and there is
/// no font, and otherwise with `TooLarge` exactly when its width or height
/// is outside the 32-bit range.
pub fn measure_item(
    size: &MenuSize,
    item_data: &InnerMenuItem,
    font: Option<FontMetrics>,
    text_width: i32,
    metrics: &SystemMetrics,
) -> (measured: Result<(i32, i32), BuildError>)
    ensures
        match measured {
            Ok((width, height)) => {
                &&& item_data@.is_separator() || font is Some
                &&& 0 <= height
                &&& width == item_width(item_data@, *size, text_width as int, *metrics)
                &&& height == item_height(item_data@, *size, font, *metrics)
            },
            Err(BuildError::FontUnavailable) => !item_data@.is_separator() && font is None,

            Err(BuildError::TooLarge) => {
                &&& !item_data@.is_separator()
                &&& font is Some
                &&& !(fits_i32(item_width(item_data@, *size, text_width as int, *metrics))
                    && fits_i32(item_height(item_data@, *size, font, *metrics)))
            },
        },
{
    if item_data.menu_type.0 == XMT_SEPARATOR {
        let height: i64 = (metrics.menu_height as i64 + 1) / 2;
        return Ok((0, height as i32));
    }
    let menu_font = match font {
        None => {
            return Err(BuildError::FontUnavailable);
        },
        Some(f) => f,
    };
    let mut cy: i64 = menu_font.height as i64;
    if cy < 0 {
        cy = -cy;
    }
    cy = cy + size.item_vertical_padding as i64;
    if cy < LR_BUTTON_SIZE as i64 {
        cy = LR_BUTTON_SIZE as i64;
    }
    let mut cx: i64 = text_width as i64;
    cx = cx + size.item_horizontal_padding as i64 * 2;
    cx = cx + LR_BUTTON_SIZE as i64 * 2;
    if item_data.accelerator.is_some() {
        cx = cx + ACCELERATOR_SPACING as i64;
    }
    cx = cx - (metrics.menu_check_width as i64 - 1);
    if cx < i32::MIN as i64 || cx > i32::MAX as i64 || cy > i32::MAX as i64 {
        return Err(BuildError::TooLarge);
    }
    Ok((cx as i32, cy as i32))
}

/// What a layout pass works on.
pub struct LayoutInput {
    pub items: Seq<ItemView>,
    /// Measured width of each row's label and accelerator, row by row.
    pub text_widths: Seq<i32>,
    pub font: Option<FontMetrics>,
    pub metrics: SystemMetrics,
    pub size: MenuSize,
}

impl LayoutInput {
    /// Some row has text, so the pass cannot do without a font.
    pub open spec fn needs_font(self) -> bool {
        exists|i: int| 0 <= i < self.items.len() && !(#[trigger] self.items[i]).is_separator()
    }

    /// Height of row `i`.
    pub open spec fn height_of(self, i: int) -> int {
        item_height(self.items[i], self.size, self.font, self.metrics)
    }

    /// Width row `i` asks for.
    pub open spec fn width_of(self, i: int) -> int {
        item_width(self.items[i], self.size, self.text_widths[i] as int, self.metrics)
    }

    /// Heights of the first `n` rows, added up.
    pub open spec fn heights_before(self, n: int) -> int
        decreases n,
    {
        if n <= 0 {
            0
        } else {
            self.heights_before(n - 1) + self.height_of(n - 1)
        }
    }

    /// Upper edge of row `i`: the top margin and the rows above it.
    pub open spec fn top_of(self, i: int) -> int {
        self.size.vertical_margin + self.heights_before(i)
    }

    /// Lower edge of row `i`.
    pub open spec fn bottom_of(self, i: int) -> int {
        self.top_of(i) + self.height_of(i)
    }

    /// The largest width among the first `n` rows; zero where there is
    /// no row.
    pub open spec fn widest(self, n: int) -> int
        decreases n,
    {
        if n <= 0 {
            0
        } else if n == 1 {
            self.width_of(0)
        } else {
            larger(self.widest(n - 1), self.width_of(n - 1))
        }
    }

    /// Width of the menu: the widest row and the frame on both sides.
    pub open spec fn menu_width(self) -> int {
        self.widest(self.items.len() as int) + 2 * self.size.border_width
    }

    /// Height of the menu: all rows, and the vertical margin and the frame
    /// above and below them.
    pub open spec fn menu_height(self) -> int {
        self.heights_before(self.items.len() as int) + 2 * (self.size.vertical_margin
            + self.size.border_width)
    }

    /// Row `i` and the rectangle it is painted in can be written in 32-bit
    /// coordinates.
    pub open spec fn row_fits(self, i: int) -> bool {
        &&& fits_i32(self.width_of(i))
        &&& fits_i32(self.height_of(i))
        &&& fits_i32(self.top_of(i))
        &&& fits_i32(self.bottom_of(i))
        &&& fits_i32(self.top_of(i) + self.size.border_width)
        &&& fits_i32(self.bottom_of(i) + self.size.border_width)
    }

    /// The whole layout can be written in 32-bit coordinates and indices.
    pub open spec fn fits(self) -> bool {
        &&& self.items.len() <= i32::MAX
        &&& forall|i: int| 0 <= i < self.items.len() ==> #[trigger] self.row_fits(i)
        &&& fits_i32(self.menu_width())
        &&& fits_i32(self.menu_height())
        &&& fits_i32(self.menu_width() - self.size.border_width)
    }

    /// The rows after the pass: each knows its position and its edges.
    pub open spec fn placed_items(self) -> Seq<ItemView> {
        Seq::new(
            self.items.len(),
            |i: int| self.items[i].placed(i as i32, self.top_of(i) as i32, self.bottom_of(i) as i32),
        )
    }

    /// How the pass ends: with the error it reports, if any.
    pub open spec fn failure(self) -> Option<BuildError> {
        if self.needs_font() && self.font is None {
            Some(BuildError::FontUnavailable)
        } else if !self.fits() {
            Some(BuildError::TooLarge)
        } else {
            None
        }
    }
}

/// Rows that lie on top of each other, edge to edge: each row begins where
/// the one before it ends, and the first begins at the top margin.
pub proof fn lemma_rows_are_stacked(input: LayoutInput, i: int)
    requires
        0 <= i < input.items.len(),
    ensures
        input.top_of(0) == input.size.vertical_margin,
        input.top_of(i + 1) == input.bottom_of(i),
        i + 1 == input.items.len() ==> input.menu_height() == input.bottom_of(i)
            + input.size.vertical_margin + 2 * input.size.border_width,
{
    reveal_with_fuel(LayoutInput::heights_before, 2);
}

/// The widest of the rows is the width of one of them, and no row is
/// wider: within the frame the menu is exactly as wide as its widest row.
pub proof fn lemma_widest_bounds(input: LayoutInput, n: int, i: int)
    requires
        0 <= i < n,
    ensures
        input.width_of(i) <= input.widest(n),
        exists|j: int| 0 <= j < n && input.widest(n) == #[trigger] input.width_of(j),
    decreases n,
{
    if n >= 2 {
        if i < n - 1 {
            lemma_widest_bounds(input, n - 1, i);
        } else {
            lemma_widest_bounds(input, n - 1, 0);
        }
        let j = choose|j: int| 0 <= j < n - 1 && input.widest(n - 1) == #[trigger] input.width_of(j);
        if input.widest(n) == input.widest(n - 1) {
            assert(input.widest(n) == input.width_of(j));
        } else {
            assert(input.widest(n) == input.width_of(n - 1));
        }
    } else {
        assert(input.widest(n) == input.width_of(0));
    }
}

/// The outcome of a layout pass: the edges of every row and the menu's size.
pub struct Layout {
    /// Upper and lower edge of each row, row by row.
    pub edges: Vec<(i32, i32)>,
    pub width: i32,
    pub height: i32,
}

impl Layout {
    /// This is the layout that `input` has.
    pub open spec fn is_layout_of(self, input: LayoutInput) -> bool {
        &&& self.edges@.len() == input.items.len()
        &&& forall|i: int|
            0 <= i < input.items.len() ==> (#[trigger] self.edges@[i]).0 == input.top_of(i)
                && self.edges@[i].1 == input.bottom_of(i)
        &&& self.width == input.menu_width()
        &&& self.height == input.menu_height()
    }
}

/// The views of a list of rows.
pub open spec fn items_view(items: Seq<InnerMenuItem>) -> Seq<ItemView> {
    Seq::new(items.len(), |i: int| items[i]@)
}

fn has_text_row(items: &Vec<InnerMenuItem>) -> (found: bool)
    ensures
        found == (exists|i: int|
            0 <= i < items@.len() && !(#[trigger] items_view(items@)[i]).is_separator()),
{
    let mut i: usize = 0;
    while i < items.len()
        invariant
            i <= items@.len(),
            forall|j: int| 0 <= j < i ==> (#[trigger] items_view(items@)[j]).is_separator(),
        decreases items@.len() - i,
    {
        if items[i].menu_type.0 != XMT_SEPARATOR {
            assert(!items_view(items@)[i as int].is_separator());
            return true;
        }
        i = i + 1;
    }
    false
}

/// No row has a negative height, and a row that is no separator is at
/// least as high as the check mark.
pub proof fn lemma_heights(input: LayoutInput, i: int)
    requires
        0 <= i < input.items.len(),
    ensures
        0 <= input.height_of(i),
        !input.items[i].is_separator() ==> LR_BUTTON_SIZE <= input.height_of(i),
{
}

/// Runs the layout pass over the rows of a menu.
///
/// The running cursor starts at the top margin and moves down row by row;
/// the menu is as wide as its widest row plus the frame, and as high as
/// all rows together plus the vertical margins and the frame. The pass
/// fails as a whole: with `FontUnavailable` exactly when a row has text
/// and `font` is `None`, otherwise with `TooLarge` exactly when the layout
/// does not fit the 32-bit range.
pub fn layout_items(
    items: &Vec<InnerMenuItem>,
    size: &MenuSize,
    font: Option<FontMetrics>,
    text_widths: &Vec<i32>,
    metrics: &SystemMetrics,
) -> (outcome: Result<Layout, BuildError>)
    requires
        text_widths@.len() == items@.len(),
    ensures
        ({
            let input = LayoutInput {
                items: items_view(items@),
                text_widths: text_widths@,
                font,
                metrics: *metrics,
                size: *size,
            };
            match outcome {
                Ok(layout) => input.failure() is None && layout.is_layout_of(input),
                Err(e) => input.failure() == Some(e),
            }
        }),
{
    let ghost input = LayoutInput {
        items: items_view(items@),
        text_widths: text_widths@,
        font,
        metrics: *metrics,
        size: *size,
    };
    if font.is_none() && has_text_row(items) {
        return Err(BuildError::FontUnavailable);
    }
    let n = items.len();
    if n > i32::MAX as usize {
        return Err(BuildError::TooLarge);
    }
    let border: i64 = size.border_width as i64;
    let mut edges: Vec<(i32, i32)> = Vec::new();
    let mut cursor: i32 = size.vertical_margin;
    let mut widest: i32 = 0;
    let mut i: usize = 0;
    while i < n
        invariant
            n == items@.len(),
            n <= i32::MAX,
            text_widths@.len() == n,
            i <= n,
            border == size.border_width,
            input == (LayoutInput {
                items: items_view(items@),
                text_widths: text_widths@,
                font,
                metrics: *metrics,
                size: *size,
            }),
            !(input.needs_font() && font is None),
            edges@.len() == i,
            cursor == input.top_of(i as int),
            widest == input.widest(i as int),
            forall|j: int| 0 <= j < i ==> #[trigger] input.row_fits(j),
            forall|j: int|
                0 <= j < i ==> (#[trigger] edges@[j]).0 == input.top_of(j) && edges@[j].1
                    == input.bottom_of(j),
        decreases n - i,
    {
        let ghost k = i as int;
        assert(input.items[k] == items@[k]@);
        assert(input.top_of(k + 1) == input.bottom_of(k)) by {
            lemma_rows_are_stacked(input, k);
        }
        let (item_width, item_height) = match measure_item(
            size,
            &items[i],
            font,
            text_widths[i],
            metrics,
        ) {
            Ok(measured) => measured,
            Err(_) => {
                assert(!input.items[k].is_separator() ==> input.needs_font());
                assert(!input.row_fits(k));
                return Err(BuildError::TooLarge);
            },
        };
        let bottom: i64 = cursor as i64 + item_height as i64;
        let paint_top: i64 = cursor as i64 + border;
        let paint_bottom: i64 = bottom + border;
        if bottom < i32::MIN as i64 || bottom > i32::MAX as i64 || paint_top < i32::MIN as i64
            || paint_top > i32::MAX as i64 || paint_bottom < i32::MIN as i64 || paint_bottom
            > i32::MAX as i64 {
            assert(!input.row_fits(k));
            return Err(BuildError::TooLarge);
        }
        assert(input.row_fits(k));
        edges.push((cursor, bottom as i32));
        if i == 0 || widest < item_width {
            widest = item_width;
        }
        cursor = bottom as i32;
        i = i + 1;
    }
    let width: i64 = widest as i64 + 2 * border;
    let height: i64 = cursor as i64 + size.vertical_margin as i64 + 2 * border;
    let inner_right: i64 = width - border;
    if width < i32::MIN as i64 || width > i32::MAX as i64 || height < i32::MIN as i64 || height
        > i32::MAX as i64 || inner_right < i32::MIN as i64 || inner_right > i32::MAX as i64 {
        return Err(BuildError::TooLarge);
    }
    Ok(Layout { edges, width: width as i32, height: height as i32 })
}

} // verus!
