//! The registry of built menus: every menu of every session, found by the
//! window it is shown in, and the theme resource they share.
use vstd::prelude::*;
use crate::menu::{MenuData, MenuView};

verus! {

/// The first identifier handed to a root menu for listening on its owner.
pub const FIRST_SUBCLASS_ID: usize = 400;

/// The built menus of a process.
#[derive(Debug)]
pub struct MenuRegistry {
    /// The menus, in the order in which they were built.
    pub menus: Vec<MenuData>,
    /// The identifier the next root menu listens under.
    pub next_subclass_id: usize,
    /// The theme resource the menus draw their glyphs with; it is open
    /// while a root menu is registered and the host has installed it.
    pub theme: Option<isize>,
}

/// What a `MenuRegistry` holds, as mathematical values.
pub struct RegistryView {
    pub menus: Seq<MenuView>,
    pub next_subclass_id: usize,
    pub theme: Option<isize>,
}

/// The views of a list of menus.
pub open spec fn menus_view(menus: Seq<MenuData>) -> Seq<MenuView> {
    Seq::new(menus.len(), |i: int| menus[i]@)
}

impl View for MenuRegistry {
    type V = RegistryView;

    open spec fn view(&self) -> RegistryView {
        RegistryView {
            menus: menus_view(self.menus@),
            next_subclass_id: self.next_subclass_id,
            theme: self.theme,
        }
    }
}

impl RegistryView {
    /// Position of the first menu at or after `from` that is shown in the
    /// window `hwnd`; the number of menus if there is none.
    pub open spec fn slot_from(self, hwnd: isize, from: int) -> int
        decreases self.menus.len() - from,
    {
        if from >= self.menus.len() {
            self.menus.len() as int
        } else if self.menus[from].hwnd == hwnd {
            from
        } else {
            self.slot_from(hwnd, from + 1)
        }
    }

    /// Position of the menu that is shown in the window `hwnd`.
    pub open spec fn slot(self, hwnd: isize) -> int {
        self.slot_from(hwnd, 0)
    }

    /// A menu is registered for the window `hwnd`.
    pub open spec fn has(self, hwnd: isize) -> bool {
        0 <= self.slot(hwnd) < self.menus.len()
    }

    /// The menu that is shown in the window `hwnd`.
    pub open spec fn get(self, hwnd: isize) -> MenuView {
        self.menus[self.slot(hwnd)]
    }

    /// The registry with the menu of the window `hwnd` replaced; unchanged
    /// where no menu is registered for it.
    pub open spec fn put(self, hwnd: isize, menu: MenuView) -> RegistryView {
        if self.has(hwnd) {
            RegistryView { menus: self.menus.update(self.slot(hwnd), menu), ..self }
        } else {
            self
        }
    }

    /// Some registered menu is the root of a session.
    pub open spec fn has_root(self) -> bool {
        exists|i: int| 0 <= i < self.menus.len() && (#[trigger] self.menus[i]).main
    }

    /// Every registered menu is well-formed.
    pub open spec fn wf(self) -> bool {
        forall|i: int| 0 <= i < self.menus.len() ==> (#[trigger] self.menus[i]).wf()
    }
}

/// The slot of a window is the first menu shown in it: no menu before the
/// slot is, and the one at the slot, if there is one, is.
pub proof fn lemma_slot(reg: RegistryView, hwnd: isize, from: int)
    requires
        0 <= from <= reg.menus.len(),
    ensures
        from <= reg.slot_from(hwnd, from) <= reg.menus.len(),
        forall|j: int| from <= j < reg.slot_from(hwnd, from) ==> (#[trigger] reg.menus[j]).hwnd != hwnd,
        reg.slot_from(hwnd, from) < reg.menus.len() ==> reg.menus[reg.slot_from(hwnd, from)].hwnd
            == hwnd,
    decreases reg.menus.len() - from,
{
    if from < reg.menus.len() && reg.menus[from].hwnd != hwnd {
        lemma_slot(reg, hwnd, from + 1);
    }
}

/// Replacing a menu by one that is shown in the same window moves no slot.
pub proof fn lemma_put_keeps_slots(reg: RegistryView, hwnd: isize, menu: MenuView, other: isize)
    requires
        menu.hwnd == hwnd,
    ensures
        reg.put(hwnd, menu).slot(other) == reg.slot(other),
        reg.put(hwnd, menu).has(other) == reg.has(other),
        reg.has(hwnd) ==> reg.put(hwnd, menu).get(hwnd) == menu,
        other != hwnd && reg.has(other) ==> reg.put(hwnd, menu).get(other) == reg.get(other),
        same_windows(reg, reg.put(hwnd, menu)),
{
    lemma_slot(reg, hwnd, 0);
    lemma_slot(reg, other, 0);
    if reg.has(hwnd) {
        lemma_same_windows_same_slots(reg, reg.put(hwnd, menu), other, 0);
        lemma_same_windows_same_slots(reg, reg.put(hwnd, menu), hwnd, 0);
    }
}

/// The two registries hold menus for the same windows, position by
/// position.
pub open spec fn same_windows(a: RegistryView, b: RegistryView) -> bool {
    &&& a.menus.len() == b.menus.len()
    &&& forall|i: int| 0 <= i < a.menus.len() ==> (#[trigger] a.menus[i]).hwnd == b.menus[i].hwnd
}

/// Two registries whose menus are shown in the same windows, position by
/// position, have the same slots.
pub proof fn lemma_same_windows_same_slots(a: RegistryView, b: RegistryView, hwnd: isize, from: int)
    requires
        same_windows(a, b),
        0 <= from,
    ensures
        a.slot_from(hwnd, from) == b.slot_from(hwnd, from),
    decreases a.menus.len() - from,
{
    if from < a.menus.len() && a.menus[from].hwnd != hwnd {
        lemma_same_windows_same_slots(a, b, hwnd, from + 1);
    }
}

/// What replacing a menu does to the registry: the same windows have
/// menus as before, the window named has the new menu if it had one, and
/// every other window has the menu it had.
pub proof fn lemma_after_put(reg: RegistryView, hwnd: isize, menu: MenuView, other: isize)
    requires
        reg.has(hwnd) ==> menu.hwnd == hwnd,
    ensures
        reg.put(hwnd, menu).has(other) == reg.has(other),
        reg.has(hwnd) && other == hwnd ==> reg.put(hwnd, menu).get(other) == menu,
        reg.has(other) && (other != hwnd || !reg.has(hwnd)) ==> reg.put(hwnd, menu).get(other)
            == reg.get(other),
{
    if reg.has(hwnd) {
        lemma_put_keeps_slots(reg, hwnd, menu, other);
    }
}

impl MenuRegistry {
    /// A registry without menus.
    pub fn new() -> (reg: Self)
        ensures
            reg@.menus.len() == 0,
            reg@.next_subclass_id == FIRST_SUBCLASS_ID,
            reg@.theme is None,
            reg@.wf(),
            reg@.all_idle(),
    {
        MenuRegistry { menus: Vec::new(), next_subclass_id: FIRST_SUBCLASS_ID, theme: None }
    }

    /// Position of the menu that is shown in a window.
    pub fn find(&self, hwnd: isize) -> (slot: Option<usize>)
        ensures
            match slot {
                Some(i) => self@.has(hwnd) && i == self@.slot(hwnd) && self.menus@[i as int].hwnd
                    == hwnd,
                None => !self@.has(hwnd),
            },
    {
        let mut i: usize = 0;
        while i < self.menus.len()
            invariant
                i <= self.menus@.len(),
                self@.slot(hwnd) == self@.slot_from(hwnd, i as int),
            decreases self.menus@.len() - i,
        {
            assert(self@.menus[i as int] == self.menus@[i as int]@);
            if self.menus[i].hwnd == hwnd {
                return Some(i);
            }
            i = i + 1;
        }
        None
    }

    /// Whether a menu has been built for a window.
    pub fn contains(&self, hwnd: isize) -> (found: bool)
        ensures
            found == self@.has(hwnd),
    {
        self.find(hwnd).is_some()
    }

    /// Whether some registered menu is the root of a session.
    pub fn has_root(&self) -> (found: bool)
        ensures
            found == self@.has_root(),
    {
        let mut i: usize = 0;
        while i < self.menus.len()
            invariant
                i <= self.menus@.len(),
                forall|j: int| 0 <= j < i ==> !(#[trigger] self@.menus[j]).main,
            decreases self.menus@.len() - i,
        {
            assert(self@.menus[i as int] == self.menus@[i as int]@);
            if self.menus[i].main {
                return true;
            }
            i = i + 1;
        }
        false
    }

    /// The theme resource a menu draws its glyphs with: the one the
    /// sessions share, for every registered menu.
    pub fn get_theme(&self, hwnd: isize) -> (handle: Option<isize>)
        ensures
            handle == (if self@.has(hwnd) {
                self@.theme
            } else {
                None
            }),
    {
        if self.contains(hwnd) {
            self.theme
        } else {
            None
        }
    }

    /// Records the theme resource the host has opened.
    pub fn install_theme(&mut self, handle: isize)
        ensures
            final(self)@ == (RegistryView { theme: Some(handle), ..old(self)@ }),
    {
        self.theme = Some(handle);
        assert(self@.menus =~= old(self)@.menus);
    }
}

} // verus!
