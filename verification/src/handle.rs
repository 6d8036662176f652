//! Handles to the rows of a built menu, for reading and changing a row
//! from outside a session.
use vstd::prelude::*;
use crate::builder::MenuX;
use crate::item::{
    is_checked, is_disabled, text_or_empty, text_or_new, toggle_checked, toggle_disabled, InnerMenuItem,
    ItemView,
    MenuItemState, MENU_CHECKED, MENU_DISABLED, MENU_TYPE,
};
use crate::menu::MenuView;
use crate::registry::{MenuRegistry, RegistryView};

verus! {

/// A row of a built menu as the caller sees it: a copy of what the row
/// held when the handle was made, and the place to find the row again.
#[derive(Debug)]
pub struct MenuItem {
    /// Position of the row in its menu.
    pub index: usize,
    /// Window of the menu the row belongs to.
    pub hwnd: isize,
    pub id: String,
    pub label: String,
    pub value: String,
    /// The accelerator hint, empty where the row has none.
    pub accelerator: String,
    /// The radio group, empty where the row has none.
    pub name: String,
    pub state: MenuItemState,
    pub menu_type: MENU_TYPE,
}

/// What a `MenuItem` holds, as mathematical values.
pub struct MenuItemView {
    pub index: usize,
    pub hwnd: isize,
    pub id: Seq<char>,
    pub label: Seq<char>,
    pub value: Seq<char>,
    pub accelerator: Seq<char>,
    pub name: Seq<char>,
    pub state: i32,
    pub menu_type: i32,
}

impl View for MenuItem {
    type V = MenuItemView;

    open spec fn view(&self) -> MenuItemView {
        MenuItemView {
            index: self.index,
            hwnd: self.hwnd,
            id: self.id@,
            label: self.label@,
            value: self.value@,
            accelerator: self.accelerator@,
            name: self.name@,
            state: self.state.0,
            menu_type: self.menu_type.0,
        }
    }
}

/// The handle to the row at `index` of the menu in `hwnd`.
pub open spec fn handle_of(hwnd: isize, index: usize, item: ItemView) -> MenuItemView {
    MenuItemView {
        index,
        hwnd,
        id: item.id,
        label: item.label,
        value: item.value,
        accelerator: text_or_empty(item.accelerator),
        name: text_or_empty(item.name),
        state: item.state,
        menu_type: item.menu_type,
    }
}

impl MenuView {
    /// This menu with the row at `index` replaced.
    pub open spec fn with_row(self, index: int, item: ItemView) -> MenuView {
        MenuView { items: self.items.update(index, item), ..self }
    }
}

impl RegistryView {
    /// The row a handle points to is there: its menu is registered and
    /// has a row at that position.
    pub open spec fn has_row(self, hwnd: isize, index: usize) -> bool {
        self.has(hwnd) && index < self.get(hwnd).items.len()
    }

    /// The row a handle points to.
    pub open spec fn row(self, hwnd: isize, index: usize) -> ItemView {
        self.get(hwnd).items[index as int]
    }

    /// The registry with the row a handle points to replaced; unchanged
    /// where the row is not there.
    pub open spec fn with_row(self, hwnd: isize, index: usize, item: ItemView) -> RegistryView {
        if self.has_row(hwnd, index) {
            self.put(hwnd, self.get(hwnd).with_row(index as int, item))
        } else {
            self
        }
    }
}

impl MenuItem {
    /// A handle to a row of the menu in `hwnd`.
    pub fn new(hwnd: isize, item: &InnerMenuItem, index: usize) -> (handle: Self)
        ensures
            handle@ == handle_of(hwnd, index, item@),
    {
        MenuItem {
            index,
            hwnd,
            id: item.id.clone(),
            label: item.label.clone(),
            value: item.value.clone(),
            accelerator: text_or_new(&item.accelerator),
            name: text_or_new(&item.name),
            state: item.state,
            menu_type: item.menu_type,
        }
    }

    /// Whether the row shows a check mark now; `false` where the row is
    /// no longer there.
    pub fn checked(&self, reg: &MenuRegistry) -> (checked: bool)
        ensures
            checked == (reg@.has_row(self@.hwnd, self@.index) && is_checked(
                reg@.row(self@.hwnd, self@.index).state,
            )),
    {
        match reg.find(self.hwnd) {
            Some(i) => {
                assert(reg@.menus[i as int] == reg.menus@[i as int]@);
                if self.index < reg.menus[i].items.len() {
                    assert(reg@.menus[i as int].items[self.index as int]
                        == reg.menus@[i as int].items@[self.index as int]@);
                    (reg.menus[i].items[self.index].state.0 & MENU_CHECKED) != 0
                } else {
                    false
                }
            },
            None => false,
        }
    }

    /// Sets or clears the row's check mark; nothing happens where the row
    /// is no longer there.
    pub fn set_checked(&self, reg: &mut MenuRegistry, checked: bool)
        requires
            old(reg)@.wf(),
        ensures
            final(reg)@ == old(reg)@.with_row(
                self@.hwnd,
                self@.index,
                old(reg)@.row(self@.hwnd, self@.index).with_checked(checked),
            ),
            final(reg)@.wf(),
    {
        if let Some(i) = reg.find(self.hwnd) {
            assert(reg@.menus[i as int] == reg.menus@[i as int]@);
            if self.index < reg.menus[i].items.len() {
                assert(reg@.menus[i as int].items[self.index as int]
                    == reg.menus@[i as int].items@[self.index as int]@);
                toggle_checked(&mut reg.menus[i].items[self.index], checked);
                assert(reg@.menus[i as int].items =~= old(reg)@.menus[i as int].items.update(
                    self.index as int,
                    old(reg)@.row(self@.hwnd, self@.index).with_checked(checked),
                ));
                assert(reg@.menus =~= old(reg)@.menus.update(
                    i as int,
                    old(reg)@.menus[i as int].with_row(
                        self.index as int,
                        old(reg)@.row(self@.hwnd, self@.index).with_checked(checked),
                    ),
                ));
            }
        }
    }

    /// Whether the row is greyed out now; `false` where the row is no
    /// longer there.
    pub fn disabled(&self, reg: &MenuRegistry) -> (disabled: bool)
        ensures
            disabled == (reg@.has_row(self@.hwnd, self@.index) && is_disabled(
                reg@.row(self@.hwnd, self@.index).state,
            )),
    {
        match reg.find(self.hwnd) {
            Some(i) => {
                assert(reg@.menus[i as int] == reg.menus@[i as int]@);
                if self.index < reg.menus[i].items.len() {
                    assert(reg@.menus[i as int].items[self.index as int]
                        == reg.menus@[i as int].items@[self.index as int]@);
                    (reg.menus[i].items[self.index].state.0 & MENU_DISABLED) != 0
                } else {
                    false
                }
            },
            None => false,
        }
    }

    /// Greys the row out or back in; nothing happens where the row is no
    /// longer there.
    pub fn set_disabled(&self, reg: &mut MenuRegistry, disabled: bool)
        requires
            old(reg)@.wf(),
        ensures
            final(reg)@ == old(reg)@.with_row(
                self@.hwnd,
                self@.index,
                old(reg)@.row(self@.hwnd, self@.index).with_disabled(disabled),
            ),
            final(reg)@.wf(),
    {
        if let Some(i) = reg.find(self.hwnd) {
            assert(reg@.menus[i as int] == reg.menus@[i as int]@);
            if self.index < reg.menus[i].items.len() {
                assert(reg@.menus[i as int].items[self.index as int]
                    == reg.menus@[i as int].items@[self.index as int]@);
                toggle_disabled(&mut reg.menus[i].items[self.index], disabled);
                assert(reg@.menus[i as int].items =~= old(reg)@.menus[i as int].items.update(
                    self.index as int,
                    old(reg)@.row(self@.hwnd, self@.index).with_disabled(disabled),
                ));
                assert(reg@.menus =~= old(reg)@.menus.update(
                    i as int,
                    old(reg)@.menus[i as int].with_row(
                        self.index as int,
                        old(reg)@.row(self@.hwnd, self@.index).with_disabled(disabled),
                    ),
                ));
            }
        }
    }

    /// Gives the row another label; nothing happens where the row is no
    /// longer there. The menu keeps the size it was built with.
    pub fn set_label(&self, reg: &mut MenuRegistry, label: &str)
        requires
            old(reg)@.wf(),
        ensures
            final(reg)@ == old(reg)@.with_row(
                self@.hwnd,
                self@.index,
                old(reg)@.row(self@.hwnd, self@.index).with_label(label@),
            ),
            final(reg)@.wf(),
    {
        if let Some(i) = reg.find(self.hwnd) {
            assert(reg@.menus[i as int] == reg.menus@[i as int]@);
            if self.index < reg.menus[i].items.len() {
                assert(reg@.menus[i as int].items[self.index as int]
                    == reg.menus@[i as int].items@[self.index as int]@);
                reg.menus[i].items[self.index].label = label.to_owned();
                assert(reg@.menus[i as int].items =~= old(reg)@.menus[i as int].items.update(
                    self.index as int,
                    old(reg)@.row(self@.hwnd, self@.index).with_label(label@),
                ));
                assert(reg@.menus =~= old(reg)@.menus.update(
                    i as int,
                    old(reg)@.menus[i as int].with_row(
                        self.index as int,
                        old(reg)@.row(self@.hwnd, self@.index).with_label(label@),
                    ),
                ));
            }
        }
    }
}

impl MenuX {
    /// Handles to the rows of the built menu, top to bottom; none where
    /// the menu is not built.
    pub fn items(&self, reg: &MenuRegistry) -> (handles: Vec<MenuItem>)
        ensures
            !reg@.has(self@.hwnd) ==> handles@.len() == 0,
            reg@.has(self@.hwnd) ==> handles@.len() == reg@.get(self@.hwnd).items.len(),
            forall|k: int|
                0 <= k < handles@.len() ==> (#[trigger] handles@[k])@ == handle_of(
                    self@.hwnd,
                    k as usize,
                    reg@.get(self@.hwnd).items[k],
                ),
    {
        let mut handles: Vec<MenuItem> = Vec::new();
        if let Some(i) = reg.find(self.hwnd) {
            assert(reg@.menus[i as int] == reg.menus@[i as int]@);
            let n = reg.menus[i].items.len();
            let mut k: usize = 0;
            while k < n
                invariant
                    i < reg.menus@.len(),
                    i == reg@.slot(self@.hwnd),
                    n == reg.menus@[i as int].items@.len(),
                    k <= n,
                    handles@.len() == k,
                    forall|j: int|
                        0 <= j < k ==> (#[trigger] handles@[j])@ == handle_of(
                            self@.hwnd,
                            j as usize,
                            reg@.get(self@.hwnd).items[j],
                        ),
                decreases n - k,
            {
                assert(reg@.menus[i as int] == reg.menus@[i as int]@);
                assert(reg@.menus[i as int].items[k as int] == reg.menus@[i as int].items@[k as int]@);
                handles.push(MenuItem::new(self.hwnd, &reg.menus[i].items[k], k));
                k = k + 1;
            }
        }
        handles
    }
}

} // verus!
