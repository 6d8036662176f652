//! The transitions of one menu: what a pointer move, a commit and a
//! dismissal do to its rows and to its transient state.
use vstd::prelude::*;
use crate::geometry::{Point, Rect};
use crate::item::{
    is_checked, lemma_set_checked, opt_view, selection_of, toggle_checked, ItemView,
    SelectedMenuItem, XMT_CHECKBOX, XMT_RADIO, XMT_SEPARATOR, XMT_SUBMENU,
};
use crate::menu::{hit_among, MenuData, MenuView};

verus! {

/// What a transition of one menu asks of its surroundings.
#[derive(Clone, Copy, Debug, PartialEq, Eq, Structural)]
pub struct MoveReport {
    /// The submenu row the pointer has entered while no submenu was open:
    /// its submenu is to open after the delay.
    pub arm_timer: Option<i32>,
    /// Window of the submenu that was open and is to be hidden.
    pub closed_submenu: Option<isize>,
    /// Rectangle of the row the pointer has entered.
    pub repaint_new: Option<Rect>,
    /// Rectangle of the row the pointer has left.
    pub repaint_old: Option<Rect>,
}

/// Where one menu stands in a session.
#[derive(Clone, Copy, Debug, PartialEq, Eq, Structural)]
pub enum Phase {
    /// The pointer is over no row and no submenu is shown.
    Idle,
    /// The pointer is over the row; the row opens no submenu.
    Hovering(i32),
    /// The pointer is over the submenu row and its submenu is not shown
    /// yet: the delay is running.
    SubmenuPending(i32),
    /// The submenu of the row is shown.
    SubmenuOpen(i32),
}

/// Rows `a` and `b` exclude each other: `a` is a radio row of the group
/// that `b` names.
pub open spec fn same_group(a: ItemView, b: ItemView) -> bool {
    a.is_radio() && a.name == b.name
}

/// The rows after the radio row at `chosen` was committed: it is checked,
/// every other row of its group is not, and all other rows are as before.
pub open spec fn radio_chosen(items: Seq<ItemView>, chosen: int) -> Seq<ItemView> {
    Seq::new(
        items.len(),
        |i: int|
            if i == chosen {
                items[i].with_checked(true)
            } else if same_group(items[i], items[chosen]) {
                items[i].with_checked(false)
            } else {
                items[i]
            },
    )
}

/// Radio exclusivity. After a commit on a radio row, the rows of its group
/// that are checked are exactly one: the row committed.
pub proof fn lemma_radio_exclusive(items: Seq<ItemView>, chosen: int)
    requires
        0 <= chosen < items.len(),
        items[chosen].is_radio(),
    ensures
        ({
            let after = radio_chosen(items, chosen);
            &&& after.len() == items.len()
            &&& after[chosen].is_radio()
            &&& is_checked(after[chosen].state)
            &&& forall|i: int|
                0 <= i < after.len() && same_group(#[trigger] after[i], after[chosen]) ==> (
                is_checked(after[i].state) <==> i == chosen)
            &&& forall|i: int|
                0 <= i < after.len() ==> (same_group(#[trigger] after[i], after[chosen])
                    <==> same_group(items[i], items[chosen]))
        }),
{
    let after = radio_chosen(items, chosen);
    lemma_set_checked(items[chosen].state, true);
    assert forall|i: int|
        0 <= i < after.len() && same_group(#[trigger] after[i], after[chosen]) implies (is_checked(
        after[i].state,
    ) <==> i == chosen) by {
        lemma_set_checked(items[i].state, false);
    }
}

/// A commit on this row ends the session: it is neither a separator nor a
/// submenu row.
pub open spec fn committable(item: ItemView) -> bool {
    !item.is_separator() && !item.is_submenu()
}

/// The rows after a commit on row `i`: a checkbox has its mark flipped, a
/// radio row is chosen within its group, any other row changes nothing.
pub open spec fn committed_items(items: Seq<ItemView>, i: int) -> Seq<ItemView> {
    if items[i].is_checkbox() {
        items.update(i, items[i].with_checked(!is_checked(items[i].state)))
    } else if items[i].is_radio() {
        radio_chosen(items, i)
    } else {
        items
    }
}

impl MenuView {
    /// Window of the submenu that is shown, if one is.
    pub open spec fn open_submenu(self) -> Option<isize> {
        if self.visible_submenu_index >= 0 {
            self.items[self.visible_submenu_index as int].submenu
        } else {
            None
        }
    }

    /// The pointer, arriving on row `sel`, leaves the submenu that is
    /// shown: one is shown, and it is the submenu of another row.
    pub open spec fn closes_on(self, sel: int) -> bool {
        sel >= 0 && self.visible_submenu_index >= 0 && self.visible_submenu_index != sel
    }

    /// The pointer, arriving on row `sel`, starts the delay of a submenu:
    /// the row is a submenu row and no submenu stays shown.
    pub open spec fn arms_on(self, sel: int) -> bool {
        sel >= 0 && (self.visible_submenu_index < 0 || self.closes_on(sel))
            && self.items[sel].is_submenu()
    }

    /// A pointer move changes nothing: the pointer is over the same row as
    /// before, or it has left this menu while a submenu is shown.
    pub open spec fn ignores(self, sel: int) -> bool {
        (self.visible_submenu_index >= 0 && sel < 0) || sel == self.selected_index
    }

    /// This menu after the pointer has moved to a point of the screen.
    pub open spec fn moved(self, screen: Point) -> MenuView {
        let sel = self.hit(screen);
        if self.ignores(sel) {
            self
        } else {
            MenuView {
                selected_index: sel as i32,
                visible_submenu_index: if self.closes_on(sel) {
                    -1i32
                } else {
                    self.visible_submenu_index
                },
                ..self
            }
        }
    }

    /// What a pointer move to a point of the screen asks for.
    pub open spec fn move_report(self, screen: Point) -> MoveReport {
        let sel = self.hit(screen);
        if self.ignores(sel) {
            MoveReport {
                arm_timer: None,
                closed_submenu: None,
                repaint_new: None,
                repaint_old: None,
            }
        } else {
            MoveReport {
                arm_timer: if self.arms_on(sel) {
                    Some(sel as i32)
                } else {
                    None
                },
                closed_submenu: if self.closes_on(sel) {
                    self.open_submenu()
                } else {
                    None
                },
                repaint_new: if sel >= 0 {
                    Some(self.item_rect(sel))
                } else {
                    None
                },
                repaint_old: if self.selected_index >= 0 {
                    Some(self.item_rect(self.selected_index as int))
                } else {
                    None
                },
            }
        }
    }

    /// This menu with its transient state cleared: the pointer over no
    /// row, no submenu shown.
    pub open spec fn reset(self) -> MenuView {
        MenuView { selected_index: -1i32, visible_submenu_index: -1i32, ..self }
    }

    /// This menu taken off the screen, its transient state cleared.
    pub open spec fn hidden(self) -> MenuView {
        MenuView { selected_index: -1i32, visible_submenu_index: -1i32, visible: false, ..self }
    }

    /// This menu shown with its corner at a point of the screen.
    pub open spec fn shown_at(self, corner: Point) -> MenuView {
        MenuView { origin: corner, visible: true, ..self }
    }

    /// This menu after a commit on row `i`.
    pub open spec fn committed(self, i: int) -> MenuView {
        MenuView { items: committed_items(self.items, i), ..self }
    }

    /// Where this menu stands in its session.
    pub open spec fn phase(self) -> Phase {
        if self.visible_submenu_index >= 0 {
            Phase::SubmenuOpen(self.visible_submenu_index)
        } else if self.selected_index < 0 {
            Phase::Idle
        } else if self.items[self.selected_index as int].is_submenu() {
            Phase::SubmenuPending(self.selected_index)
        } else {
            Phase::Hovering(self.selected_index)
        }
    }

    /// This menu under the dark or the light palette.
    pub open spec fn with_dark(self, is_dark: bool) -> MenuView {
        MenuView { theme: crate::config::MenuTheme { is_dark, ..self.theme }, ..self }
    }

    /// This menu with the submenu of row `i` recorded as shown.
    pub open spec fn with_submenu_open(self, i: int) -> MenuView {
        MenuView { visible_submenu_index: i as i32, ..self }
    }

    /// The submenu of row `token` is due to open now: the pointer is still
    /// on that row, the row is a submenu row, and no submenu is shown.
    pub open spec fn submenu_due(self, token: int) -> bool {
        &&& 0 <= token < self.items.len()
        &&& self.selected_index == token
        &&& self.items[token].is_submenu()
        &&& self.visible_submenu_index < 0
    }
}

/// The hit test answers with `-1` or with the position of a row.
pub proof fn lemma_hit_in_range(menu: MenuView, screen: Point)
    requires
        menu.indexed(),
    ensures
        -1 <= menu.hit(screen) < menu.items.len(),
        menu.hit(screen) >= 0 ==> !menu.items[menu.hit(screen)].is_separator(),
{
    lemma_hit_among_in_range(
        menu.items,
        screen.y - menu.origin.y,
        menu.items.len() as int,
    );
}

proof fn lemma_hit_among_in_range(items: Seq<ItemView>, y: int, n: int)
    requires
        0 <= n <= items.len(),
        forall|i: int| 0 <= i < items.len() ==> (#[trigger] items[i]).index == i,
    ensures
        -1 <= hit_among(items, y, n) < n,
        hit_among(items, y, n) >= 0 ==> !items[hit_among(items, y, n)].is_separator(),
    decreases n,
{
    if n > 0 {
        lemma_hit_among_in_range(items, y, n - 1);
    }
}

/// Submenu mutual exclusion. A pointer move leaves a well-formed menu
/// well-formed: afterwards no submenu is recorded as shown, or exactly
/// one, and that for a submenu row; the row under the pointer exists and
/// is no separator; and a delay is started only for the row under the
/// pointer, which is then a submenu row.
pub proof fn lemma_moved_wf(menu: MenuView, screen: Point)
    requires
        menu.wf(),
    ensures
        menu.moved(screen).wf(),
        menu.moved(screen).visible_submenu_index == -1 || (0
            <= menu.moved(screen).visible_submenu_index < menu.items.len() && menu.items[menu.moved(
            screen,
        ).visible_submenu_index as int].is_submenu()),
        -1 <= menu.moved(screen).selected_index < menu.items.len(),
        menu.moved(screen).selected_index >= 0 ==> !menu.items[menu.moved(
            screen,
        ).selected_index as int].is_separator(),
        menu.move_report(screen).arm_timer matches Some(token) ==> menu.moved(
            screen,
        ).selected_index == token && 0 <= token < menu.items.len()
            && menu.items[token as int].is_submenu(),
{
    lemma_hit_in_range(menu, screen);
}

/// The phases of a menu follow each other as the pointer and the delay
/// say. The submenu of a row is due exactly while the row is pending;
/// once it is recorded as shown the menu is in the phase of that open
/// submenu, and a menu that is reset is idle. A pointer move that the
/// menu does not ignore leaves it idle if the pointer is over no row, and
/// otherwise at the row under the pointer: in the phase of its open
/// submenu if that is the row's, pending if the row is a submenu row, and
/// hovering if not.
pub proof fn lemma_phases(menu: MenuView, token: int, screen: Point)
    requires
        menu.wf(),
    ensures
        menu.submenu_due(token) <==> i32::MIN <= token <= i32::MAX && menu.phase()
            == Phase::SubmenuPending(token as i32),
        menu.submenu_due(token) ==> menu.with_submenu_open(token).phase() == Phase::SubmenuOpen(
            token as i32,
        ),
        menu.reset().phase() == Phase::Idle,
        menu.hidden().phase() == Phase::Idle,
        menu.ignores(menu.hit(screen)) ==> menu.moved(screen).phase() == menu.phase(),
        !menu.ignores(menu.hit(screen)) ==> menu.moved(screen).phase() == (if menu.hit(screen) < 0 {
            Phase::Idle
        } else if menu.visible_submenu_index == menu.hit(screen) {
            Phase::SubmenuOpen(menu.hit(screen) as i32)
        } else if menu.items[menu.hit(screen)].is_submenu() {
            Phase::SubmenuPending(menu.hit(screen) as i32)
        } else {
            Phase::Hovering(menu.hit(screen) as i32)
        }),
{
    lemma_hit_in_range(menu, screen);
}

fn same_name(a: &Option<String>, b: &Option<String>) -> (same: bool)
    ensures
        same == (opt_view(*a) == opt_view(*b)),
{
    match a {
        Some(x) => match b {
            Some(y) => {
                let eq = *x == *y;
                eq
            },
            None => false,
        },
        None => b.is_none(),
    }
}

fn clone_name(a: &Option<String>) -> (copy: Option<String>)
    ensures
        copy == *a,
{
    match a {
        Some(x) => Some(x.clone()),
        None => None,
    }
}

impl MenuData {
    /// Moves the pointer to a point of the screen. The row under it
    /// becomes the selected one; a submenu that is shown for another row
    /// is given up; entering a submenu row while no submenu stays shown
    /// starts that submenu's delay. While a submenu is shown, a pointer
    /// that is over no row of this menu changes nothing.
    pub fn on_mouse_move(&mut self, screen_point: Point) -> (report: MoveReport)
        requires
            old(self)@.wf(),
        ensures
            final(self)@ == old(self)@.moved(screen_point),
            report == old(self)@.move_report(screen_point),
            final(self)@.wf(),
            report.arm_timer matches Some(token) ==> final(self)@.selected_index == token
                && final(self)@.items[token as int].is_submenu(),
    {
        proof {
            lemma_hit_in_range(self@, screen_point);
        }
        let selected_index = self.index_from_point(screen_point);
        let mut report = MoveReport {
            arm_timer: None,
            closed_submenu: None,
            repaint_new: None,
            repaint_old: None,
        };
        if self.visible_submenu_index >= 0 && selected_index < 0 {
            return report;
        }
        if self.selected_index != selected_index {
            if selected_index >= 0 {
                report.repaint_new = Some(self.get_item_rect(selected_index as usize));
            }
            if self.selected_index >= 0 {
                report.repaint_old = Some(self.get_item_rect(self.selected_index as usize));
            }
            let (arm, closed) = self.toggle_submenu(selected_index);
            if arm {
                report.arm_timer = Some(selected_index);
            }
            report.closed_submenu = closed;
            self.selected_index = selected_index;
        }
        report
    }

    /// Gives up the submenu that is shown if the pointer has arrived on
    /// another row, and says whether the row it arrived on is a submenu
    /// row whose delay is to start, and which submenu window is to be
    /// hidden.
    pub fn toggle_submenu(&mut self, newindex: i32) -> (toggled: (bool, Option<isize>))
        requires
            old(self)@.wf(),
            -1 <= newindex < old(self)@.items.len(),
        ensures
            toggled.0 == old(self)@.arms_on(newindex as int),
            toggled.1 == (if old(self)@.closes_on(newindex as int) {
                old(self)@.open_submenu()
            } else {
                None
            }),
            final(self)@ == (MenuView {
                visible_submenu_index: if old(self)@.closes_on(newindex as int) {
                    -1i32
                } else {
                    old(self)@.visible_submenu_index
                },
                ..old(self)@
            }),
    {
        let mut should_show_submenu = false;
        let mut closed: Option<isize> = None;
        if newindex < 0 {
            return (should_show_submenu, closed);
        }
        if self.visible_submenu_index >= 0 && self.visible_submenu_index != newindex {
            let shown = &self.items[self.visible_submenu_index as usize];
            assert(self@.items[self.visible_submenu_index as int] == shown@);
            closed = shown.submenu;
            self.visible_submenu_index = -1;
        }
        let entered = &self.items[newindex as usize];
        assert(self@.items[newindex as int] == entered@);
        if self.visible_submenu_index < 0 && entered.menu_type.0 == XMT_SUBMENU {
            should_show_submenu = true;
        }
        (should_show_submenu, closed)
    }

    /// Clears the transient state and names the submenu window that was
    /// shown and is to be hidden.
    pub fn init_menu_data(&mut self) -> (closed: Option<isize>)
        requires
            old(self)@.wf(),
        ensures
            final(self)@ == old(self)@.reset(),
            closed == old(self)@.open_submenu(),
            final(self)@.wf(),
    {
        let mut closed: Option<isize> = None;
        self.selected_index = -1;
        if self.visible_submenu_index >= 0 {
            let shown = &self.items[self.visible_submenu_index as usize];
            assert(self@.items[self.visible_submenu_index as int] == shown@);
            closed = shown.submenu;
        }
        self.visible_submenu_index = -1;
        closed
    }

    /// Takes this menu off the screen and clears its transient state.
    pub fn hide_submenu(&mut self)
        ensures
            final(self)@ == old(self)@.hidden(),
            old(self)@.wf() ==> final(self)@.wf(),
    {
        self.selected_index = -1;
        self.visible_submenu_index = -1;
        self.visible = false;
    }

    /// Checks the radio row at `index` and clears the check mark of every
    /// other row of its group in this menu. The row has to be a radio row
    /// with a group.
    pub fn toggle_radio(&mut self, index: usize)
        requires
            index < old(self)@.items.len(),
            old(self)@.items[index as int].is_radio(),
            old(self)@.items[index as int].name is Some,
        ensures
            final(self)@ == (MenuView {
                items: radio_chosen(old(self)@.items, index as int),
                ..old(self)@
            }),
    {
        let group = clone_name(&self.items[index].name);
        let n = self.items.len();
        let mut i: usize = 0;
        while i < n
            invariant
                n == old(self)@.items.len(),
                n == self.items@.len(),
                index < n,
                i <= n,
                group == old(self).items@[index as int].name,
                forall|j: int|
                    0 <= j < i ==> (#[trigger] self.items@[j])@ == radio_chosen(
                        old(self)@.items,
                        index as int,
                    )[j],
                forall|j: int| i <= j < n ==> (#[trigger] self.items@[j]) == old(self).items@[j],
                self.main == old(self).main,
                self.hwnd == old(self).hwnd,
                self.parent == old(self).parent,
                self.win_subclass_id == old(self).win_subclass_id,
                self.selected_index == old(self).selected_index,
                self.width == old(self).width,
                self.height == old(self).height,
                self.visible_submenu_index == old(self).visible_submenu_index,
                self.size == old(self).size,
                self.theme == old(self).theme,
                self.origin == old(self).origin,
                self.visible == old(self).visible,
            decreases n - i,
        {
            assert(old(self)@.items[i as int] == old(self).items@[i as int]@);
            assert(old(self)@.items[index as int] == old(self).items@[index as int]@);
            if i == index {
                toggle_checked(&mut self.items[i], true);
            } else if self.items[i].menu_type.0 == XMT_RADIO && same_name(
                &self.items[i].name,
                &group,
            ) {
                toggle_checked(&mut self.items[i], false);
            }
            i = i + 1;
        }
        assert(self@.items =~= radio_chosen(old(self)@.items, index as int));
    }

    /// Commits on the row at `index`. A checkbox has its mark flipped, a
    /// radio row is chosen within its group; the answer is the row as it
    /// then stands. A commit on a separator or a submenu row changes
    /// nothing and answers `None`. The row has to be well-formed: a radio
    /// row without a group cannot be committed.
    pub fn commit(&mut self, index: usize) -> (selected: Option<SelectedMenuItem>)
        requires
            index < old(self)@.items.len(),
            old(self)@.items[index as int].wf(),
        ensures
            committable(old(self)@.items[index as int]) ==> final(self)@ == old(self)@.committed(
                index as int,
            ) && selected is Some && selected->0@ == selection_of(
                old(self)@.committed(index as int).items[index as int],
            ),
            !committable(old(self)@.items[index as int]) ==> final(self)@ == old(self)@
                && selected is None,
    {
        assert(old(self)@.items[index as int] == old(self).items@[index as int]@);
        let kind = self.items[index].menu_type.0;
        if kind == XMT_SEPARATOR || kind == XMT_SUBMENU {
            return None;
        }
        if kind == XMT_CHECKBOX {
            let checked = (self.items[index].state.0 & crate::item::MENU_CHECKED) != 0;
            toggle_checked(&mut self.items[index], !checked);
            assert(self@.items =~= committed_items(old(self)@.items, index as int));
        } else if kind == XMT_RADIO {
            self.toggle_radio(index);
        } else {
            assert(self@.items =~= committed_items(old(self)@.items, index as int));
        }
        assert(self@.items.len() == old(self)@.items.len());
        assert(self@.items.len() == self.items@.len());
        assert(self@.items[index as int] == self.items@[index as int]@);
        Some(SelectedMenuItem::from(&self.items[index]))
    }
}

/// A commit changes check marks and nothing else, so it leaves a
/// well-formed menu well-formed.
pub proof fn lemma_committed_wf(menu: MenuView, i: int)
    requires
        menu.wf(),
        0 <= i < menu.items.len(),
    ensures
        menu.committed(i).wf(),
        menu.committed(i).items.len() == menu.items.len(),
        forall|j: int|
            0 <= j < menu.items.len() ==> {
                &&& (#[trigger] menu.committed(i).items[j]).menu_type == menu.items[j].menu_type
                &&& menu.committed(i).items[j].id == menu.items[j].id
                &&& menu.committed(i).items[j].value == menu.items[j].value
                &&& menu.committed(i).items[j].label == menu.items[j].label
                &&& menu.committed(i).items[j].name == menu.items[j].name
                &&& menu.committed(i).items[j].index == menu.items[j].index
                &&& menu.committed(i).items[j].top == menu.items[j].top
                &&& menu.committed(i).items[j].bottom == menu.items[j].bottom
                &&& menu.committed(i).items[j].submenu == menu.items[j].submenu
            },
{
}

impl MenuData {
    /// Window of the submenu that is shown, if one is.
    pub fn open_submenu(&self) -> (shown: Option<isize>)
        requires
            self@.wf(),
        ensures
            shown == self@.open_submenu(),
    {
        if self.visible_submenu_index >= 0 {
            let item = &self.items[self.visible_submenu_index as usize];
            assert(self@.items[self.visible_submenu_index as int] == item@);
            item.submenu
        } else {
            None
        }
    }
    /// Where this menu stands in its session.
    pub fn phase(&self) -> (phase: Phase)
        requires
            self@.wf(),
        ensures
            phase == self@.phase(),
    {
        if self.visible_submenu_index >= 0 {
            Phase::SubmenuOpen(self.visible_submenu_index)
        } else if self.selected_index < 0 {
            Phase::Idle
        } else {
            let item = &self.items[self.selected_index as usize];
            assert(self@.items[self.selected_index as int] == item@);
            if item.menu_type.0 == XMT_SUBMENU {
                Phase::SubmenuPending(self.selected_index)
            } else {
                Phase::Hovering(self.selected_index)
            }
        }
    }
}

} // verus!
