//! Building a menu: the rows are appended one by one, the menu is sized
//! once, registered, and can then be popped up.
use vstd::prelude::*;
use crate::config::{Config, MenuSize, MenuTheme, Theme};
use crate::geometry::{fits_i32, Point};
use crate::item::{
    get_state, initial_state, new_item_view, InnerMenuItem, ItemView, MenuItemState,
    MENU_NORMAL, MENU_TYPE, XMT_CHECKBOX, XMT_RADIO, XMT_SEPARATOR, XMT_STRING, XMT_SUBMENU,
};
use crate::layout::{items_view, layout_items, BuildError, FontMetrics, LayoutInput, SystemMetrics};
use crate::menu::{MenuData, MenuView};
use crate::placement::{get_display_point, place_axis, Monitors};
use crate::registry::{MenuRegistry, RegistryView};
use crate::session::{Action, Event, Reaction};

verus! {

/// A menu under construction, and after `build` the handle to the built
/// menu.
#[derive(Debug)]
pub struct MenuX {
    /// The window this menu belongs to: the invoking window for a root
    /// menu, the parent menu's window for a submenu.
    pub parent: isize,
    /// The window this menu is shown in.
    pub hwnd: isize,
    pub items: Vec<InnerMenuItem>,
    pub width: i32,
    pub height: i32,
    /// Set on the root menu of a popup session, clear on submenus.
    pub is_main: bool,
    pub size: MenuSize,
    pub theme: MenuTheme,
}

/// What a `MenuX` holds, as mathematical values.
pub struct MenuXView {
    pub parent: isize,
    pub hwnd: isize,
    pub items: Seq<ItemView>,
    pub width: i32,
    pub height: i32,
    pub is_main: bool,
    pub size: MenuSize,
    pub theme: MenuTheme,
}

impl View for MenuX {
    type V = MenuXView;

    open spec fn view(&self) -> MenuXView {
        MenuXView {
            parent: self.parent,
            hwnd: self.hwnd,
            items: items_view(self.items@),
            width: self.width,
            height: self.height,
            is_main: self.is_main,
            size: self.size,
            theme: self.theme,
        }
    }
}

/// Why a menu could not be popped up.
#[derive(Clone, Copy, Debug, PartialEq, Eq, Structural)]
pub enum PopupError {
    /// The menu was never built, or its window is gone.
    NotBuilt,
    /// The place the menu would go to cannot be written in 32-bit
    /// coordinates.
    OffScreen,
}

impl MenuXView {
    /// An empty root menu with the given appearance.
    pub open spec fn empty(parent: isize, hwnd: isize, size: MenuSize, theme: MenuTheme) -> MenuXView {
        MenuXView {
            parent,
            hwnd,
            items: Seq::empty(),
            width: 0,
            height: 0,
            is_main: true,
            size,
            theme,
        }
    }

    /// Every row has a group exactly if it is a radio row.
    pub open spec fn rows_wf(self) -> bool {
        forall|i: int| 0 <= i < self.items.len() ==> (#[trigger] self.items[i]).wf()
    }

    /// This menu with one more row at the end.
    pub open spec fn with_item(self, item: ItemView) -> MenuXView {
        MenuXView { items: self.items.push(item), ..self }
    }

    /// What the layout pass is run on.
    pub open spec fn layout_input(
        self,
        font: Option<FontMetrics>,
        text_widths: Seq<i32>,
        metrics: SystemMetrics,
    ) -> LayoutInput {
        LayoutInput { items: self.items, text_widths, font, metrics, size: self.size }
    }

    /// This menu after a layout pass: sized, every row in its place.
    pub open spec fn sized(self, input: LayoutInput) -> MenuXView {
        MenuXView {
            items: input.placed_items(),
            width: input.menu_width() as i32,
            height: input.menu_height() as i32,
            ..self
        }
    }

    /// The built menu that is registered for this menu: off the screen,
    /// the pointer over no row, no submenu shown. A root menu listens on
    /// its owner under `subclass_id`.
    pub open spec fn built(self, subclass_id: usize) -> MenuView {
        MenuView {
            main: self.is_main,
            hwnd: self.hwnd,
            parent: self.parent,
            items: self.items,
            win_subclass_id: if self.is_main {
                Some(subclass_id)
            } else {
                None
            },
            selected_index: -1i32,
            width: self.width,
            height: self.height,
            visible_submenu_index: -1i32,
            size: self.size,
            theme: self.theme,
            origin: Point { x: 0, y: 0 },
            visible: false,
        }
    }

    /// What building this menu asks of the host: a root menu has the
    /// theme resource opened if no root menu is registered yet, and is
    /// attached to its owner.
    pub open spec fn build_actions(self, reg: RegistryView) -> Seq<Action> {
        if self.is_main {
            (if reg.has_root() {
                Seq::<Action>::empty()
            } else {
                seq![Action::OpenTheme { hwnd: self.hwnd }]
            }) + seq![
                Action::AttachOwner { hwnd: self.hwnd, owner: self.parent, id: reg.next_subclass_id },
            ]
        } else {
            Seq::<Action>::empty()
        }
    }
}

/// The identifier after `id`; the count starts over after the largest.
pub open spec fn next_id(id: usize) -> usize {
    if id == usize::MAX {
        0
    } else {
        (id + 1) as usize
    }
}

impl RegistryView {
    /// The registry with one more menu; a root menu uses up an
    /// identifier.
    pub open spec fn registered(self, menu: MenuView) -> RegistryView {
        RegistryView {
            menus: self.menus.push(menu),
            next_subclass_id: if menu.main {
                next_id(self.next_subclass_id)
            } else {
                self.next_subclass_id
            },
            ..self
        }
    }
}

impl RegistryView {
    /// Where the menu of the window `hwnd` goes when it is popped up at
    /// `(x, y)` on a monitor with the given work area.
    pub open spec fn popup_corner(self, hwnd: isize, x: int, y: int, monitors: Monitors) -> (int, int) {
        let work = monitors.work_area();
        (
            place_axis(x, self.get(hwnd).width as int, work.left as int, work.right as int),
            place_axis(y, self.get(hwnd).height as int, work.top as int, work.bottom as int),
        )
    }

    /// The menu of the window `hwnd` can be popped up at `(x, y)`: it is
    /// registered and its corner can be written in 32-bit coordinates.
    pub open spec fn popup_failure(self, hwnd: isize, x: int, y: int, monitors: Monitors) -> Option<
        PopupError,
    > {
        if !self.has(hwnd) {
            Some(PopupError::NotBuilt)
        } else if !fits_i32(self.popup_corner(hwnd, x, y, monitors).0) || !fits_i32(
            self.popup_corner(hwnd, x, y, monitors).1,
        ) {
            Some(PopupError::OffScreen)
        } else {
            None
        }
    }
}

/// Layout determinism. What a built menu looks like is a function of its
/// rows, the measured widths, the font, the host's metrics and the size
/// configuration: equal inputs give equal edges for every row, equal
/// sizes, and the same failure if there is one.
pub proof fn lemma_layout_deterministic(a: LayoutInput, b: LayoutInput)
    requires
        a.items == b.items,
        a.text_widths == b.text_widths,
        a.font == b.font,
        a.metrics == b.metrics,
        a.size == b.size,
    ensures
        a.failure() == b.failure(),
        a.placed_items() == b.placed_items(),
        a.menu_width() == b.menu_width(),
        a.menu_height() == b.menu_height(),
        forall|i: int| a.top_of(i) == b.top_of(i) && a.bottom_of(i) == b.bottom_of(i),
{
    assert(a == b);
}

/// A layout pass that does not fail gives a well-formed menu: every row
/// records its position and can be painted, and the rows lie edge to edge
/// from top to bottom.
pub proof fn lemma_built_wf(menu: MenuXView, input: LayoutInput, subclass_id: usize)
    requires
        input.items == menu.items,
        input.size == menu.size,
        input.failure() is None,
        menu.rows_wf(),
    ensures
        menu.sized(input).built(subclass_id).wf(),
{
    assert forall|i: int| 0 <= i < input.items.len() implies 0 <= #[trigger] input.height_of(i) by {
        crate::layout::lemma_heights(input, i);
    }
    let built = menu.sized(input).built(subclass_id);
    assert forall|i: int| 0 <= i < built.items.len() implies (#[trigger] built.items[i]).index
        == i && fits_i32(built.items[i].top + built.size.border_width) && fits_i32(
        built.items[i].bottom + built.size.border_width,
    ) by {
        assert(input.row_fits(i));
    }
    assert forall|i: int| 0 <= i < built.items.len() implies (#[trigger] built.items[i]).wf() by {
        assert(menu.items[i].wf());
    }
    let rows = menu.sized(input).items;
    if forall|i: int| 0 <= i < input.items.len() ==> 0 <= #[trigger] input.height_of(i) {
        assert forall|j: int| 0 <= j < rows.len() implies (#[trigger] rows[j]).top
            <= rows[j].bottom by {
            assert(input.row_fits(j));
            assert(0 <= input.height_of(j));
        }
        assert forall|j: int| 0 <= j < rows.len() - 1 implies (#[trigger] rows[j]).bottom == rows[j
            + 1].top by {
            assert(input.row_fits(j));
            assert(input.row_fits(j + 1));
            crate::layout::lemma_rows_are_stacked(input, j);
        }
    }
    assert(crate::menu::stacked(rows));
}

/// Round-trip id integrity, from the builder to the built menu. A row
/// keeps through the layout pass the identifier, label, payload, group
/// and state it was appended with; the pass only tells it where it is.
pub proof fn lemma_build_keeps_rows(menu: MenuXView, input: LayoutInput, i: int)
    requires
        input.items == menu.items,
        0 <= i < menu.items.len(),
    ensures
        menu.sized(input).items.len() == menu.items.len(),
        menu.sized(input).items[i].id == menu.items[i].id,
        menu.sized(input).items[i].label == menu.items[i].label,
        menu.sized(input).items[i].value == menu.items[i].value,
        menu.sized(input).items[i].name == menu.items[i].name,
        menu.sized(input).items[i].accelerator == menu.items[i].accelerator,
        menu.sized(input).items[i].state == menu.items[i].state,
        menu.sized(input).items[i].menu_type == menu.items[i].menu_type,
        menu.sized(input).items[i].submenu == menu.items[i].submenu,
{
}

/// Round-trip id integrity, at the builder. A checkbox or radio row is
/// made with the identifier and the payload the caller supplies; a plain
/// command with the identifier.
pub proof fn lemma_new_item_keeps_id(
    id: Seq<char>,
    label: Seq<char>,
    value: Seq<char>,
    accelerator: Option<Seq<char>>,
    name: Option<Seq<char>>,
    state: i32,
    menu_type: i32,
)
    requires
        menu_type != XMT_SEPARATOR,
    ensures
        new_item_view(id, label, value, accelerator, name, state, menu_type).id == id,
        new_item_view(id, label, value, accelerator, name, state, menu_type).label == label,
        menu_type == XMT_CHECKBOX || menu_type == XMT_RADIO ==> new_item_view(
            id,
            label,
            value,
            accelerator,
            name,
            state,
            menu_type,
        ).value == value,
{
}

impl MenuX {
    /// An empty root menu for the window `hwnd`, which the host has
    /// created for it on behalf of `parent`; light theme, default sizes.
    pub fn new(parent: isize, hwnd: isize) -> (menu: Self)
        ensures
            menu@ == MenuXView::empty(parent, hwnd, MenuSize::initial(), MenuTheme::initial()),
            menu@.rows_wf(),
    {
        let menu = MenuX {
            parent,
            hwnd,
            items: Vec::new(),
            width: 0,
            height: 0,
            is_main: true,
            size: MenuSize::default(),
            theme: MenuTheme::default(),
        };
        assert(menu@.items =~= Seq::empty());
        menu
    }

    /// An empty root menu in the given theme.
    pub fn new_with_theme(parent: isize, hwnd: isize, theme: Theme) -> (menu: Self)
        ensures
            menu@ == MenuXView::empty(
                parent,
                hwnd,
                MenuSize::initial(),
                MenuTheme { is_dark: theme == Theme::Dark, ..MenuTheme::initial() },
            ),
            menu@.rows_wf(),
    {
        let mut menu = MenuX::new(parent, hwnd);
        menu.theme.is_dark = theme == Theme::Dark;
        menu
    }

    /// An empty root menu with the given sizes, palettes and theme.
    pub fn new_from_config(parent: isize, hwnd: isize, config: Config) -> (menu: Self)
        ensures
            menu@ == MenuXView::empty(parent, hwnd, config.size, config.theme),
            menu@.rows_wf(),
    {
        let menu = MenuX {
            parent,
            hwnd,
            items: Vec::new(),
            width: 0,
            height: 0,
            is_main: true,
            size: config.size,
            theme: config.theme,
        };
        assert(menu@.items =~= Seq::empty());
        menu
    }

    fn append(&mut self, item: InnerMenuItem)
        requires
            item@.wf(),
        ensures
            final(self)@ == old(self)@.with_item(item@),
            old(self)@.rows_wf() ==> final(self)@.rows_wf(),
    {
        self.items.push(item);
        assert(self@.items =~= old(self)@.items.push(item@));
    }

    /// Appends a plain command.
    pub fn text(&mut self, id: &str, label: &str, disabled: Option<bool>) -> (menu: &Self)
        ensures
            *menu == *final(self),
            old(self)@.rows_wf() ==> final(self)@.rows_wf(),
            final(self)@ == old(self)@.with_item(
                new_item_view(
                    id@,
                    label@,
                    Seq::empty(),
                    None,
                    None,
                    initial_state(disabled == Some(true), false),
                    XMT_STRING,
                ),
            ),
    {
        self.append(
            InnerMenuItem::new(id, label, "", None, None, get_state(disabled, None), MENU_TYPE(XMT_STRING)),
        );
        self
    }

    /// Appends a plain command with an accelerator hint.
    pub fn text_with_accelerator(
        &mut self,
        id: &str,
        label: &str,
        disabled: Option<bool>,
        accelerator: &str,
    ) -> (menu: &Self)
        ensures
            *menu == *final(self),
            old(self)@.rows_wf() ==> final(self)@.rows_wf(),
            final(self)@ == old(self)@.with_item(
                new_item_view(
                    id@,
                    label@,
                    Seq::empty(),
                    Some(accelerator@),
                    None,
                    initial_state(disabled == Some(true), false),
                    XMT_STRING,
                ),
            ),
    {
        self.append(
            InnerMenuItem::new(
                id,
                label,
                "",
                Some(accelerator),
                None,
                get_state(disabled, None),
                MENU_TYPE(XMT_STRING),
            ),
        );
        self
    }

    /// Appends a checkbox.
    pub fn check(&mut self, id: &str, label: &str, value: &str, checked: bool, disabled: Option<bool>) -> (menu: &Self)
        ensures
            *menu == *final(self),
            old(self)@.rows_wf() ==> final(self)@.rows_wf(),
            final(self)@ == old(self)@.with_item(
                new_item_view(
                    id@,
                    label@,
                    value@,
                    None,
                    None,
                    initial_state(disabled == Some(true), checked),
                    XMT_CHECKBOX,
                ),
            ),
    {
        self.append(
            InnerMenuItem::new(
                id,
                label,
                value,
                None,
                None,
                get_state(disabled, Some(checked)),
                MENU_TYPE(XMT_CHECKBOX),
            ),
        );
        self
    }

    /// Appends a checkbox with an accelerator hint.
    pub fn check_with_accelerator(
        &mut self,
        id: &str,
        label: &str,
        value: &str,
        checked: bool,
        disabled: Option<bool>,
        accelerator: &str,
    ) -> (menu: &Self)
        ensures
            *menu == *final(self),
            old(self)@.rows_wf() ==> final(self)@.rows_wf(),
            final(self)@ == old(self)@.with_item(
                new_item_view(
                    id@,
                    label@,
                    value@,
                    Some(accelerator@),
                    None,
                    initial_state(disabled == Some(true), checked),
                    XMT_CHECKBOX,
                ),
            ),
    {
        self.append(
            InnerMenuItem::new(
                id,
                label,
                value,
                Some(accelerator),
                None,
                get_state(disabled, Some(checked)),
                MENU_TYPE(XMT_CHECKBOX),
            ),
        );
        self
    }

    /// Appends a radio row of the group `name`.
    pub fn radio(
        &mut self,
        id: &str,
        label: &str,
        value: &str,
        name: &str,
        checked: bool,
        disabled: Option<bool>,
    ) -> (menu: &Self)
        ensures
            *menu == *final(self),
            old(self)@.rows_wf() ==> final(self)@.rows_wf(),
            final(self)@ == old(self)@.with_item(
                new_item_view(
                    id@,
                    label@,
                    value@,
                    None,
                    Some(name@),
                    initial_state(disabled == Some(true), checked),
                    XMT_RADIO,
                ),
            ),
    {
        self.append(
            InnerMenuItem::new(
                id,
                label,
                value,
                None,
                Some(name),
                get_state(disabled, Some(checked)),
                MENU_TYPE(XMT_RADIO),
            ),
        );
        self
    }

    /// Appends a radio row of the group `name` with an accelerator hint.
    pub fn radio_with_accelerator(
        &mut self,
        id: &str,
        label: &str,
        value: &str,
        name: &str,
        checked: bool,
        disabled: Option<bool>,
        accelerator: &str,
    ) -> (menu: &Self)
        ensures
            *menu == *final(self),
            old(self)@.rows_wf() ==> final(self)@.rows_wf(),
            final(self)@ == old(self)@.with_item(
                new_item_view(
                    id@,
                    label@,
                    value@,
                    Some(accelerator@),
                    Some(name@),
                    initial_state(disabled == Some(true), checked),
                    XMT_RADIO,
                ),
            ),
    {
        self.append(
            InnerMenuItem::new(
                id,
                label,
                value,
                Some(accelerator),
                Some(name),
                get_state(disabled, Some(checked)),
                MENU_TYPE(XMT_RADIO),
            ),
        );
        self
    }

    /// Appends a row that opens a nested menu and hands back that menu,
    /// empty, to be filled and built. The nested menu is shown in the
    /// window `hwnd`, which the host has created for it; it starts with
    /// this menu's sizes and theme.
    pub fn submenu(&mut self, label: &str, hwnd: isize) -> (nested: Self)
        ensures
            final(self)@ == old(self)@.with_item(
                ItemView {
                    submenu: Some(hwnd),
                    ..new_item_view(
                        label@,
                        label@,
                        Seq::empty(),
                        None,
                        None,
                        MENU_NORMAL,
                        XMT_SUBMENU,
                    )
                },
            ),
            nested@ == (MenuXView {
                is_main: false,
                ..MenuXView::empty(old(self)@.hwnd, hwnd, old(self)@.size, old(self)@.theme)
            }),
            nested@.rows_wf(),
            old(self)@.rows_wf() ==> final(self)@.rows_wf(),
    {
        let mut item = InnerMenuItem::new(
            label,
            label,
            "",
            None,
            None,
            MenuItemState(MENU_NORMAL),
            MENU_TYPE(XMT_SUBMENU),
        );
        item.submenu = Some(hwnd);
        let nested = MenuX {
            parent: self.hwnd,
            hwnd,
            items: Vec::new(),
            width: 0,
            height: 0,
            is_main: false,
            size: self.size,
            theme: self.theme,
        };
        assert(nested@.items =~= Seq::empty());
        self.append(item);
        nested
    }

    /// Appends a separator.
    pub fn separator(&mut self) -> (menu: &Self)
        ensures
            *menu == *final(self),
            old(self)@.rows_wf() ==> final(self)@.rows_wf(),
            final(self)@ == old(self)@.with_item(
                new_item_view(
                    Seq::empty(),
                    Seq::empty(),
                    Seq::empty(),
                    None,
                    None,
                    MENU_NORMAL,
                    XMT_SEPARATOR,
                ),
            ),
    {
        self.append(
            InnerMenuItem::new(
                "",
                "",
                "",
                None,
                None,
                MenuItemState(MENU_NORMAL),
                MENU_TYPE(XMT_SEPARATOR),
            ),
        );
        self
    }

    /// Sizes the menu and registers it.
    ///
    /// `text_widths` holds, row by row, the width the host has measured
    /// for the row's label followed by its accelerator; `font` is the menu
    /// font, `None` if the host could not name it. On success every row
    /// knows its position and its edges, the menu knows its size, and the
    /// registry holds the built menu. On failure nothing has changed and
    /// no size is set.
    pub fn build(
        &mut self,
        reg: &mut MenuRegistry,
        font: Option<FontMetrics>,
        text_widths: &Vec<i32>,
        metrics: &SystemMetrics,
    ) -> (built: Result<Vec<Action>, BuildError>)
        requires
            old(reg)@.wf(),
            !old(reg)@.has(old(self)@.hwnd),
            text_widths@.len() == old(self)@.items.len(),
            old(self)@.rows_wf(),
        ensures
            ({
                let input = old(self)@.layout_input(font, text_widths@, *metrics);
                match built {
                    Ok(actions) => {
                        &&& input.failure() is None
                        &&& final(self)@ == old(self)@.sized(input)
                        &&& final(reg)@ == old(reg)@.registered(
                            final(self)@.built(old(reg)@.next_subclass_id),
                        )
                        &&& actions@ == old(self)@.build_actions(old(reg)@)
                    },
                    Err(e) => {
                        &&& input.failure() == Some(e)
                        &&& *final(self) == *old(self)
                        &&& *final(reg) == *old(reg)
                    },
                }
            }),
            final(reg)@.wf(),
            old(reg)@.all_idle() ==> final(reg)@.all_idle(),
    {
        let ghost input = self@.layout_input(font, text_widths@, *metrics);
        let layout = match layout_items(&self.items, &self.size, font, text_widths, metrics) {
            Ok(layout) => layout,
            Err(e) => {
                return Err(e);
            },
        };
        let n = self.items.len();
        let mut copies: Vec<InnerMenuItem> = Vec::new();
        let mut i: usize = 0;
        while i < n
            invariant
                n == self.items@.len(),
                n == old(self).items@.len(),
                n <= i32::MAX,
                i <= n,
                input.items == old(self)@.items,
                input.fits(),
                layout.is_layout_of(input),
                copies@.len() == i,
                forall|j: int| 0 <= j < i ==> (#[trigger] self.items@[j])@ == input.placed_items()[j],
                forall|j: int| 0 <= j < i ==> (#[trigger] copies@[j]) == self.items@[j],
                forall|j: int| i <= j < n ==> (#[trigger] self.items@[j]) == old(self).items@[j],
                self.parent == old(self).parent,
                self.hwnd == old(self).hwnd,
                self.width == old(self).width,
                self.height == old(self).height,
                self.is_main == old(self).is_main,
                self.size == old(self).size,
                self.theme == old(self).theme,
            decreases n - i,
        {
            assert(old(self)@.items[i as int] == old(self).items@[i as int]@);
            assert(input.row_fits(i as int));
            let (top, bottom) = layout.edges[i];
            self.items[i].index = i as i32;
            self.items[i].top = top;
            self.items[i].bottom = bottom;
            copies.push(self.items[i].clone());
            i = i + 1;
        }
        self.width = layout.width;
        self.height = layout.height;
        assert(self@.items =~= input.placed_items());
        let actions = self.announce(reg);
        let id = reg.next_subclass_id;
        let data = MenuData {
            main: self.is_main,
            hwnd: self.hwnd,
            parent: self.parent,
            items: copies,
            win_subclass_id: if self.is_main {
                Some(id)
            } else {
                None
            },
            selected_index: -1,
            width: self.width,
            height: self.height,
            visible_submenu_index: -1,
            size: self.size,
            theme: self.theme,
            origin: Point { x: 0, y: 0 },
            visible: false,
        };
        assert(data@.items =~= self@.items);
        proof {
            lemma_built_wf(old(self)@, input, id);
        }
        if self.is_main {
            reg.next_subclass_id = if id == usize::MAX {
                0
            } else {
                id + 1
            };
        }
        reg.menus.push(data);
        assert(reg@.menus =~= old(reg)@.menus.push(data@));
        Ok(actions)
    }

    /// Starts a popup session with this menu as its root: the menu is
    /// placed with its corner at `(x, y)`, slid and flipped as the work
    /// area demands, shown, and given the pointer capture. The session
    /// then runs on the events the host feeds to `pump`.
    pub fn popup_at(&self, reg: &mut MenuRegistry, x: i32, y: i32, monitors: &Monitors) -> (started:
        Result<Vec<Action>, PopupError>)
        requires
            old(reg)@.wf(),
        ensures
            ({
                let hwnd = self@.hwnd;
                let corner = old(reg)@.popup_corner(hwnd, x as int, y as int, *monitors);
                match started {
                    Ok(actions) => {
                        &&& old(reg)@.popup_failure(hwnd, x as int, y as int, *monitors) is None
                        &&& final(reg)@ == old(reg)@.put(
                            hwnd,
                            old(reg)@.get(hwnd).shown_at(
                                Point { x: corner.0 as i32, y: corner.1 as i32 },
                            ),
                        )
                        &&& actions@ == seq![
                            Action::ShowWindow {
                                hwnd,
                                x: corner.0 as i32,
                                y: corner.1 as i32,
                                width: old(reg)@.get(hwnd).width,
                                height: old(reg)@.get(hwnd).height,
                            },
                            Action::SetCapture { hwnd },
                        ]
                    },
                    Err(e) => {
                        &&& old(reg)@.popup_failure(hwnd, x as int, y as int, *monitors) == Some(e)
                        &&& *final(reg) == *old(reg)
                    },
                }
            }),
            final(reg)@.wf(),
            old(reg)@.all_idle() ==> final(reg)@.all_idle() && final(reg)@.others_idle(self@.hwnd),
    {
        proof {
            if reg@.has(self@.hwnd) && reg@.all_idle() {
                let corner = reg@.popup_corner(self@.hwnd, x as int, y as int, *monitors);
                crate::idle::lemma_start_all_idle(
                    reg@,
                    self@.hwnd,
                    Point { x: corner.0 as i32, y: corner.1 as i32 },
                );
            }
        }
        let i = match reg.find(self.hwnd) {
            Some(i) => i,
            None => {
                return Err(PopupError::NotBuilt);
            },
        };
        assert(reg@.menus[i as int] == reg.menus@[i as int]@);
        let work = monitors.select_work_area();
        let width = reg.menus[i].width;
        let height = reg.menus[i].height;
        let pt = match get_display_point(x, y, width, height, &work) {
            Some(pt) => pt,
            None => {
                return Err(PopupError::OffScreen);
            },
        };
        reg.menus[i].origin = Point { x: pt.x, y: pt.y };
        reg.menus[i].visible = true;
        assert(reg@.menus =~= old(reg)@.menus.update(
            i as int,
            old(reg)@.menus[i as int].shown_at(Point { x: pt.x, y: pt.y }),
        ));
        let mut actions: Vec<Action> = Vec::new();
        actions.push(Action::ShowWindow { hwnd: self.hwnd, x: pt.x, y: pt.y, width, height });
        actions.push(Action::SetCapture { hwnd: self.hwnd });
        Ok(actions)
    }

    /// The theme the built menu is drawn in; the one it was made with as
    /// long as it is not built.
    pub fn theme(&self, reg: &MenuRegistry) -> (theme: Theme)
        ensures
            theme == (if reg@.has(self@.hwnd) {
                reg@.get(self@.hwnd).theme.kind()
            } else {
                self@.theme.kind()
            }),
    {
        let is_dark = match reg.find(self.hwnd) {
            Some(i) => {
                assert(reg@.menus[i as int] == reg.menus@[i as int]@);
                reg.menus[i].theme.is_dark
            },
            None => self.theme.is_dark,
        };
        if is_dark {
            Theme::Dark
        } else {
            Theme::Light
        }
    }

    /// Switches the built menu and every menu found from it through
    /// submenu rows to another theme, as a theme change reported by the
    /// host does.
    pub fn set_theme(self, reg: &mut MenuRegistry, theme: Theme) -> (reaction: Reaction)
        requires
            old(reg)@.wf(),
        ensures
            final(reg)@ == old(reg)@.step(
                self@.hwnd,
                Event::ThemeChanged { is_dark: theme == Theme::Dark },
            ).reg,
            reaction.actions@ == old(reg)@.step(
                self@.hwnd,
                Event::ThemeChanged { is_dark: theme == Theme::Dark },
            ).actions,
            reaction.outcome@ == old(reg)@.step(
                self@.hwnd,
                Event::ThemeChanged { is_dark: theme == Theme::Dark },
            ).outcome,
            final(reg)@.wf(),
    {
        let is_dark = theme == Theme::Dark;
        reg.handle_event(self.hwnd, Event::ThemeChanged { is_dark })
    }

    /// Whether every row has a group exactly if it is a radio row, as
    /// `build` asks.
    pub fn rows_are_well_formed(&self) -> (ok: bool)
        ensures
            ok == self@.rows_wf(),
    {
        let mut i: usize = 0;
        while i < self.items.len()
            invariant
                i <= self.items@.len(),
                forall|j: int| 0 <= j < i ==> (#[trigger] self@.items[j]).wf(),
            decreases self.items@.len() - i,
        {
            let item = &self.items[i];
            assert(self@.items[i as int] == item@);
            if (item.menu_type.0 == XMT_RADIO) != item.name.is_some() {
                assert(!self@.items[i as int].wf());
                return false;
            }
            i = i + 1;
        }
        true
    }

    fn announce(&self, reg: &MenuRegistry) -> (actions: Vec<Action>)
        ensures
            actions@ == self@.build_actions(reg@),
    {
        let mut actions: Vec<Action> = Vec::new();
        if self.is_main {
            if !reg.has_root() {
                actions.push(Action::OpenTheme { hwnd: self.hwnd });
            }
            actions.push(
                Action::AttachOwner { hwnd: self.hwnd, owner: self.parent, id: reg.next_subclass_id },
            );
        }
        assert(actions@ =~= self@.build_actions(reg@));
        actions
    }
}

} // verus!
