//! One row of a menu: its kind, its state flags and the text it carries.
use vstd::prelude::*;

verus! {

/// The kind of a row, as one of the `XMT_*` codes.
#[allow(non_camel_case_types)]
#[derive(Clone, Copy, Debug, PartialEq, Eq, Structural)]
pub struct MENU_TYPE(pub i32);

/// A plain command.
pub const XMT_STRING: i32 = 0;

/// A command with a check mark that every commit flips.
pub const XMT_CHECKBOX: i32 = 1;

/// One of a group of rows of which a commit leaves exactly one checked.
pub const XMT_RADIO: i32 = 2;

/// A row that opens a nested menu.
pub const XMT_SUBMENU: i32 = 3;

/// A horizontal rule between rows; it can be neither hovered nor chosen.
pub const XMT_SEPARATOR: i32 = 4;

/// The state of a row: `MENU_NORMAL`, optionally or-ed with `MENU_CHECKED`
/// and `MENU_DISABLED`.
#[derive(Clone, Copy, Debug, PartialEq, Eq, Structural)]
pub struct MenuItemState(pub i32);

/// Set on every row.
pub const MENU_NORMAL: i32 = 1;

/// The row shows a check mark.
pub const MENU_CHECKED: i32 = 2;

/// The row is greyed out.
pub const MENU_DISABLED: i32 = 4;

/// Some bit of `flag` is set in `state`.
pub open spec fn has_flag(state: i32, flag: i32) -> bool {
    state & flag != 0
}

/// `state` with the bits of `flag` switched on or off.
pub open spec fn set_flag(state: i32, flag: i32, on: bool) -> i32 {
    if on {
        state | flag
    } else {
        state & !flag
    }
}

/// The row shows a check mark.
pub open spec fn is_checked(state: i32) -> bool {
    has_flag(state, MENU_CHECKED)
}

/// The row is greyed out.
pub open spec fn is_disabled(state: i32) -> bool {
    has_flag(state, MENU_DISABLED)
}

/// The state a builder call gives a new row: `MENU_NORMAL`, with
/// `MENU_DISABLED` and `MENU_CHECKED` added as asked.
pub open spec fn initial_state(disabled: bool, checked: bool) -> i32 {
    if disabled && checked {
        7
    } else if disabled {
        5
    } else if checked {
        3
    } else {
        1
    }
}

/// Switching the check mark sets exactly the check mark: it reads back as
/// written, and the disabled flag is as before.
pub proof fn lemma_set_checked(state: i32, on: bool)
    ensures
        is_checked(set_flag(state, MENU_CHECKED, on)) == on,
        is_disabled(set_flag(state, MENU_CHECKED, on)) == is_disabled(state),
        is_checked(state) == on ==> set_flag(state, MENU_CHECKED, on) == state,
{
    assert((state | 2) & 2 != 0) by (bit_vector);
    assert((state & !2i32) & 2 == 0) by (bit_vector);
    assert((state | 2) & 4 == state & 4) by (bit_vector);
    assert((state & !2i32) & 4 == state & 4) by (bit_vector);
    assert(state & 2 != 0 ==> state | 2 == state) by (bit_vector);
    assert(state & 2 == 0 ==> state & !2i32 == state) by (bit_vector);
}

/// Switching the disabled flag sets exactly that flag.
pub proof fn lemma_set_disabled(state: i32, on: bool)
    ensures
        is_disabled(set_flag(state, MENU_DISABLED, on)) == on,
        is_checked(set_flag(state, MENU_DISABLED, on)) == is_checked(state),
        is_disabled(state) == on ==> set_flag(state, MENU_DISABLED, on) == state,
{
    assert((state | 4) & 4 != 0) by (bit_vector);
    assert((state & !4i32) & 4 == 0) by (bit_vector);
    assert((state | 4) & 2 == state & 2) by (bit_vector);
    assert((state & !4i32) & 2 == state & 2) by (bit_vector);
    assert(state & 4 != 0 ==> state | 4 == state) by (bit_vector);
    assert(state & 4 == 0 ==> state & !4i32 == state) by (bit_vector);
}

/// A new row's state reads back the flags it was made with.
pub proof fn lemma_initial_state(disabled: bool, checked: bool)
    ensures
        is_checked(initial_state(disabled, checked)) == checked,
        is_disabled(initial_state(disabled, checked)) == disabled,
        initial_state(disabled, checked) == MENU_NORMAL + (if disabled {
            MENU_DISABLED
        } else {
            0
        }) + (if checked {
            MENU_CHECKED
        } else {
            0
        }),
{
    assert(1i32 & 2 == 0 && 1i32 & 4 == 0) by (bit_vector);
    assert(3i32 & 2 != 0 && 3i32 & 4 == 0) by (bit_vector);
    assert(5i32 & 2 == 0 && 5i32 & 4 != 0) by (bit_vector);
    assert(7i32 & 2 != 0 && 7i32 & 4 != 0) by (bit_vector);
}

/// The state of a new row from the flags a builder call was given; a flag
/// that was not given counts as off.
pub fn get_state(disabled: Option<bool>, checked: Option<bool>) -> (state: MenuItemState)
    ensures
        state.0 == initial_state(disabled == Some(true), checked == Some(true)),
{
    let mut state: i32 = MENU_NORMAL;
    if disabled.is_some() && disabled.unwrap() {
        state = state | MENU_DISABLED;
    }
    if checked.is_some() && checked.unwrap() {
        state = state | MENU_CHECKED;
    }
    assert(1i32 | 4 == 5 && 1i32 | 2 == 3 && 5i32 | 2 == 7) by (bit_vector);
    MenuItemState(state)
}

/// A row as the engine keeps it.
#[derive(Debug)]
pub struct InnerMenuItem {
    /// The caller's identifier, handed back unchanged on selection.
    pub id: String,
    pub label: String,
    /// The caller's payload, handed back unchanged on selection.
    pub value: String,
    /// Key hint drawn right-aligned after the label.
    pub accelerator: Option<String>,
    /// The radio group; present exactly on radio rows.
    pub name: Option<String>,
    pub state: MenuItemState,
    pub menu_type: MENU_TYPE,
    /// Position in the owning menu, `-1` until the menu is built.
    pub index: i32,
    /// Upper edge inside the owning menu, set when the menu is built.
    pub top: i32,
    /// Lower edge inside the owning menu, set when the menu is built.
    pub bottom: i32,
    /// Window of the nested menu, on submenu rows.
    pub submenu: Option<isize>,
}

/// What an `InnerMenuItem` holds, as mathematical values.
pub struct ItemView {
    pub id: Seq<char>,
    pub label: Seq<char>,
    pub value: Seq<char>,
    pub accelerator: Option<Seq<char>>,
    pub name: Option<Seq<char>>,
    pub state: i32,
    pub menu_type: i32,
    pub index: i32,
    pub top: i32,
    pub bottom: i32,
    pub submenu: Option<isize>,
}

/// The characters of an optional string.
pub open spec fn opt_view(s: Option<String>) -> Option<Seq<char>> {
    match s {
        Some(text) => Some(text@),
        None => None,
    }
}

/// The characters of an optional string slice.
pub open spec fn opt_str_view(s: Option<&str>) -> Option<Seq<char>> {
    match s {
        Some(text) => Some(text@),
        None => None,
    }
}

impl View for InnerMenuItem {
    type V = ItemView;

    open spec fn view(&self) -> ItemView {
        ItemView {
            id: self.id@,
            label: self.label@,
            value: self.value@,
            accelerator: opt_view(self.accelerator),
            name: opt_view(self.name),
            state: self.state.0,
            menu_type: self.menu_type.0,
            index: self.index,
            top: self.top,
            bottom: self.bottom,
            submenu: self.submenu,
        }
    }
}

impl ItemView {
    /// The row is a rule between rows.
    pub open spec fn is_separator(self) -> bool {
        self.menu_type == XMT_SEPARATOR
    }

    /// The row opens a nested menu.
    pub open spec fn is_submenu(self) -> bool {
        self.menu_type == XMT_SUBMENU
    }

    /// The row is one of a radio group.
    pub open spec fn is_radio(self) -> bool {
        self.menu_type == XMT_RADIO
    }

    /// The row is a checkbox.
    pub open spec fn is_checkbox(self) -> bool {
        self.menu_type == XMT_CHECKBOX
    }

    /// A radio row has a group and no other row has one.
    pub open spec fn wf(self) -> bool {
        self.is_radio() <==> self.name is Some
    }

    /// The same row with its check mark switched.
    pub open spec fn with_checked(self, on: bool) -> ItemView {
        ItemView { state: set_flag(self.state, MENU_CHECKED, on), ..self }
    }

    /// The same row with its disabled flag switched.
    pub open spec fn with_disabled(self, on: bool) -> ItemView {
        ItemView { state: set_flag(self.state, MENU_DISABLED, on), ..self }
    }

    /// The same row under another label.
    pub open spec fn with_label(self, label: Seq<char>) -> ItemView {
        ItemView { label, ..self }
    }

    /// The same row at its built position.
    pub open spec fn placed(self, index: i32, top: i32, bottom: i32) -> ItemView {
        ItemView { index, top, bottom, ..self }
    }
}

/// The row that `InnerMenuItem::new` makes of its arguments. A checkbox or
/// radio row keeps its value; only a radio row keeps its group; a submenu
/// row keeps neither, nor an accelerator; a separator keeps nothing.
pub open spec fn new_item_view(
    id: Seq<char>,
    label: Seq<char>,
    value: Seq<char>,
    accelerator: Option<Seq<char>>,
    name: Option<Seq<char>>,
    state: i32,
    menu_type: i32,
) -> ItemView {
    let blank = ItemView {
        id: Seq::empty(),
        label: Seq::empty(),
        value: Seq::empty(),
        accelerator: None,
        name: None,
        state,
        menu_type,
        index: -1i32,
        top: 0,
        bottom: 0,
        submenu: None,
    };
    if menu_type == XMT_SEPARATOR {
        ItemView { state: MENU_NORMAL, ..blank }
    } else if menu_type == XMT_SUBMENU {
        ItemView { id, label, ..blank }
    } else if menu_type == XMT_RADIO {
        ItemView { id, label, value, accelerator, name, ..blank }
    } else if menu_type == XMT_CHECKBOX {
        ItemView { id, label, value, accelerator, ..blank }
    } else {
        ItemView { id, label, accelerator, ..blank }
    }
}

fn own_opt(s: Option<&str>) -> (owned: Option<String>)
    ensures
        opt_view(owned) == opt_str_view(s),
{
    match s {
        Some(text) => Some(text.to_owned()),
        None => None,
    }
}

impl InnerMenuItem {
    /// A row that is not yet part of a built menu.
    pub fn new(
        id: &str,
        label: &str,
        value: &str,
        accelerator: Option<&str>,
        name: Option<&str>,
        state: MenuItemState,
        menu_type: MENU_TYPE,
    ) -> (item: Self)
        requires
            menu_type.0 == XMT_RADIO ==> name is Some,
        ensures
            item@ == new_item_view(
                id@,
                label@,
                value@,
                opt_str_view(accelerator),
                opt_str_view(name),
                state.0,
                menu_type.0,
            ),
            item@.wf(),
    {
        let kind = menu_type.0;
        if kind == XMT_SEPARATOR {
            InnerMenuItem {
                id: String::new(),
                label: String::new(),
                value: String::new(),
                accelerator: None,
                name: None,
                state: MenuItemState(MENU_NORMAL),
                menu_type,
                index: -1,
                top: 0,
                bottom: 0,
                submenu: None,
            }
        } else if kind == XMT_SUBMENU {
            InnerMenuItem {
                id: id.to_owned(),
                label: label.to_owned(),
                value: String::new(),
                accelerator: None,
                name: None,
                state,
                menu_type,
                index: -1,
                top: 0,
                bottom: 0,
                submenu: None,
            }
        } else if kind == XMT_RADIO {
            InnerMenuItem {
                id: id.to_owned(),
                label: label.to_owned(),
                value: value.to_owned(),
                accelerator: own_opt(accelerator),
                name: own_opt(name),
                state,
                menu_type,
                index: -1,
                top: 0,
                bottom: 0,
                submenu: None,
            }
        } else if kind == XMT_CHECKBOX {
            InnerMenuItem {
                id: id.to_owned(),
                label: label.to_owned(),
                value: value.to_owned(),
                accelerator: own_opt(accelerator),
                name: None,
                state,
                menu_type,
                index: -1,
                top: 0,
                bottom: 0,
                submenu: None,
            }
        } else {
            InnerMenuItem {
                id: id.to_owned(),
                label: label.to_owned(),
                value: String::new(),
                accelerator: own_opt(accelerator),
                name: None,
                state,
                menu_type,
                index: -1,
                top: 0,
                bottom: 0,
                submenu: None,
            }
        }
    }
}

impl Clone for InnerMenuItem {
    fn clone(&self) -> (copy: Self)
        ensures
            copy == *self,
    {
        InnerMenuItem {
            id: self.id.clone(),
            label: self.label.clone(),
            value: self.value.clone(),
            accelerator: match &self.accelerator {
                Some(text) => Some(text.clone()),
                None => None,
            },
            name: match &self.name {
                Some(text) => Some(text.clone()),
                None => None,
            },
            state: self.state,
            menu_type: self.menu_type,
            index: self.index,
            top: self.top,
            bottom: self.bottom,
            submenu: self.submenu,
        }
    }
}

/// Sets or clears the check mark of a row and leaves the rest of it alone.
pub fn toggle_checked(item: &mut InnerMenuItem, checked: bool)
    ensures
        final(item)@ == old(item)@.with_checked(checked),
{
    if checked {
        item.state.0 = item.state.0 | MENU_CHECKED;
    } else {
        item.state.0 = item.state.0 & !MENU_CHECKED;
    }
}

/// Sets or clears the disabled flag of a row and leaves the rest of it alone.
pub fn toggle_disabled(item: &mut InnerMenuItem, disabled: bool)
    ensures
        final(item)@ == old(item)@.with_disabled(disabled),
{
    if disabled {
        item.state.0 = item.state.0 | MENU_DISABLED;
    } else {
        item.state.0 = item.state.0 & !MENU_DISABLED;
    }
}

/// What a session hands back when a row is chosen.
#[derive(Debug)]
pub struct SelectedMenuItem {
    pub id: String,
    pub label: String,
    pub value: String,
    /// The radio group, empty on rows that have none.
    pub name: String,
    pub state: MenuItemState,
}

/// What a `SelectedMenuItem` holds, as mathematical values.
pub struct SelectedView {
    pub id: Seq<char>,
    pub label: Seq<char>,
    pub value: Seq<char>,
    pub name: Seq<char>,
    pub state: i32,
}

impl View for SelectedMenuItem {
    type V = SelectedView;

    open spec fn view(&self) -> SelectedView {
        SelectedView {
            id: self.id@,
            label: self.label@,
            value: self.value@,
            name: self.name@,
            state: self.state.0,
        }
    }
}

/// The characters of an optional text, none read as the empty text.
pub open spec fn text_or_empty(s: Option<Seq<char>>) -> Seq<char> {
    match s {
        Some(text) => text,
        None => Seq::empty(),
    }
}

/// The selection result that stands for a row.
pub open spec fn selection_of(item: ItemView) -> SelectedView {
    SelectedView {
        id: item.id,
        label: item.label,
        value: item.value,
        name: text_or_empty(item.name),
        state: item.state,
    }
}

/// A copy of an optional text, none read as the empty text.
pub fn text_or_new(s: &Option<String>) -> (text: String)
    ensures
        text@ == text_or_empty(opt_view(*s)),
{
    match s {
        Some(t) => t.clone(),
        None => String::new(),
    }
}

impl SelectedMenuItem {
    /// Packages a row's identifier, label, payload, group and state.
    pub fn from(item: &InnerMenuItem) -> (selected: Self)
        ensures
            selected@ == selection_of(item@),
    {
        SelectedMenuItem {
            id: item.id.clone(),
            label: item.label.clone(),
            value: item.value.clone(),
            name: text_or_new(&item.name),
            state: item.state,
        }
    }
}

} // verus!
