//! Every level is reset: while a session runs, only its root menu and the
//! submenu it shows carry transient state, and when it ends no menu does.
use vstd::prelude::*;
use crate::geometry::Point;
use crate::menu::MenuView;
use crate::registry::{lemma_put_keeps_slots, lemma_slot, RegistryView};
use crate::session::{lemma_step_theme_shape, only_theme_differs, Event};
use crate::state::{lemma_committed_wf, lemma_hit_in_range};

verus! {

impl MenuView {
    /// The pointer is over no row of this menu and it shows no submenu.
    pub open spec fn idle(self) -> bool {
        self.selected_index == -1 && self.visible_submenu_index == -1
    }
}

impl RegistryView {
    /// The menu at position `j` takes part in the session of `root`: it
    /// is the root menu, or the submenu the root menu shows.
    pub open spec fn in_play(self, root: isize, j: int) -> bool {
        j == self.slot(root) || (self.get(root).open_submenu() matches Some(h) && self.has(h) && j
            == self.slot(h))
    }

    /// Every menu that does not take part in the session of `root` is
    /// idle.
    pub open spec fn others_idle(self, root: isize) -> bool {
        forall|j: int|
            0 <= j < self.menus.len() && !self.in_play(root, j) ==> (#[trigger] self.menus[j]).idle()
    }

    /// Every menu is idle.
    pub open spec fn all_idle(self) -> bool {
        forall|j: int| 0 <= j < self.menus.len() ==> (#[trigger] self.menus[j]).idle()
    }
}

/// What replacing a menu does to the list of menus: the menu at the slot
/// of the window is the new one, every other is as before, and no window
/// changes its slot.
pub proof fn lemma_put_menus(reg: RegistryView, k: isize, m: MenuView)
    requires
        reg.has(k) ==> m.hwnd == k,
    ensures
        reg.put(k, m).menus.len() == reg.menus.len(),
        forall|j: int|
            0 <= j < reg.menus.len() ==> (#[trigger] reg.put(k, m).menus[j]) == (if reg.has(k) && j
                == reg.slot(k) {
                m
            } else {
                reg.menus[j]
            }),
        forall|w: isize| #[trigger] reg.put(k, m).slot(w) == reg.slot(w),
        forall|w: isize| #[trigger] reg.put(k, m).has(w) == reg.has(w),
{
    lemma_slot(reg, k, 0);
    if reg.has(k) {
        assert forall|w: isize| #[trigger] reg.put(k, m).slot(w) == reg.slot(w) by {
            lemma_put_keeps_slots(reg, k, m, w);
        }
        assert forall|w: isize| #[trigger] reg.put(k, m).has(w) == reg.has(w) by {
            lemma_put_keeps_slots(reg, k, m, w);
        }
    }
}

/// A session starts with the others idle: showing the root menu of a
/// registry in which every menu is idle leaves every menu idle.
pub proof fn lemma_start_all_idle(reg: RegistryView, root: isize, corner: Point)
    requires
        reg.has(root),
        reg.all_idle(),
    ensures
        reg.put(root, reg.get(root).shown_at(corner)).all_idle(),
        reg.put(root, reg.get(root).shown_at(corner)).others_idle(root),
{
    lemma_slot(reg, root, 0);
    lemma_put_menus(reg, root, reg.get(root).shown_at(corner));
}

/// The end of a session resets every level. If the menus that took no
/// part in the session were idle, then after its end every menu is idle:
/// the root menu, the submenu it showed, and all the others.
pub proof fn lemma_ended_all_idle(reg: RegistryView, root: isize)
    requires
        reg.wf(),
        reg.has(root),
        reg.others_idle(root),
    ensures
        reg.ended(root).all_idle(),
        reg.ended(root).others_idle(root),
{
    lemma_slot(reg, root, 0);
    let sub = reg.get(root).open_submenu();
    let cleared = reg.put(root, reg.get(root).reset());
    lemma_put_menus(reg, root, reg.get(root).reset());
    let closed = cleared.hide_step(sub);
    if sub is Some {
        let h = sub->0;
        lemma_slot(cleared, h, 0);
        lemma_put_menus(cleared, h, cleared.get(h).hidden());
    }
    lemma_slot(closed, root, 0);
    lemma_put_menus(closed, root, closed.get(root).hidden());
    let after = reg.ended(root);
    assert forall|j: int| 0 <= j < after.menus.len() implies (#[trigger] after.menus[j]).idle() by {
        if !reg.in_play(root, j) {
            assert(reg.menus[j].idle());
        }
    }
}

/// Whatever the host reports, the menus that take no part in the session
/// stay idle: only the root menu and the submenu it shows ever carry a
/// selection or a record of a shown submenu.
pub proof fn lemma_step_keeps_others_idle(reg: RegistryView, root: isize, event: Event)
    requires
        reg.wf(),
        reg.has(root),
        reg.others_idle(root),
    ensures
        reg.step(root, event).reg.others_idle(root),
        reg.step(root, event).outcome !is Continue ==> reg.step(root, event).reg.all_idle(),
{
    lemma_slot(reg, root, 0);
    let parent = reg.get(root);
    match event {
        Event::PointerMove { pt } => {
            let report = parent.move_report(pt);
            let followed = reg.put(root, parent.moved(pt));
            lemma_put_menus(reg, root, parent.moved(pt));
            let closed = followed.hide_step(report.closed_submenu);
            if report.closed_submenu is Some {
                let k = report.closed_submenu->0;
                lemma_slot(followed, k, 0);
                lemma_put_menus(followed, k, followed.get(k).hidden());
            }
            lemma_slot(closed, root, 0);
            assert forall|j: int|
                0 <= j < closed.menus.len() && !closed.in_play(root, j) implies (
            #[trigger] closed.menus[j]).idle() by {
                if !reg.in_play(root, j) {
                    assert(reg.menus[j].idle());
                }
            }
            match closed.get(root).open_submenu() {
                Some(h) => {
                    if closed.has(h) {
                        lemma_slot(closed, h, 0);
                        lemma_put_menus(closed, h, closed.get(h).moved(pt));
                        let after = closed.put(h, closed.get(h).moved(pt));
                        assert forall|j: int|
                            0 <= j < after.menus.len() && !after.in_play(root, j) implies (
                        #[trigger] after.menus[j]).idle() by {
                            if j != closed.slot(h) {
                                assert(!closed.in_play(root, j));
                                assert(closed.menus[j].idle());
                            } else if after.slot(root) != j {
                                assert(after.get(root) == closed.get(root));
                            }
                        }
                    }
                },
                None => {},
            }
        },
        Event::PointerDown { pt, button, window_under_pointer, owner_rects } => {
            if reg.target_of(root, window_under_pointer) is None {
                lemma_ended_all_idle(reg, root);
            }
        },
        Event::PointerUp { pt, window_under_pointer } => {
            match reg.commit_target(root, pt, window_under_pointer) {
                Some((h, i)) => {
                    lemma_slot(reg, h, 0);
                    lemma_hit_in_range(reg.get(h), pt);
                    lemma_committed_wf(reg.get(h), i);
                    let committed = reg.put(h, reg.get(h).committed(i));
                    crate::session::lemma_put_wf(reg, h, reg.get(h).committed(i));
                    lemma_put_menus(reg, h, reg.get(h).committed(i));
                    lemma_slot(committed, root, 0);
                    assert(committed.get(root).visible_submenu_index
                        == parent.visible_submenu_index);
                    assert(committed.get(root).open_submenu() == parent.open_submenu());
                    assert forall|j: int|
                        0 <= j < committed.menus.len() && !committed.in_play(root, j) implies (
                    #[trigger] committed.menus[j]).idle() by {
                        assert(!reg.in_play(root, j));
                        assert(reg.menus[j].idle());
                    }
                    lemma_ended_all_idle(committed, root);
                },
                None => {},
            }
        },
        Event::TimerFired { token, work } => {
            match reg.due_submenu(root, token as int, work) {
                Some((h, corner)) => {
                    let opened = reg.put(root, parent.with_submenu_open(token as int));
                    lemma_put_menus(reg, root, parent.with_submenu_open(token as int));
                    lemma_slot(opened, h, 0);
                    lemma_put_menus(opened, h, opened.get(h).shown_at(corner));
                    let after = opened.put(h, opened.get(h).shown_at(corner));
                    lemma_slot(after, root, 0);
                    assert forall|j: int|
                        0 <= j < after.menus.len() && !after.in_play(root, j) implies (
                    #[trigger] after.menus[j]).idle() by {
                        assert(j != reg.slot(root));
                        if j == reg.slot(h) {
                            assert(!reg.in_play(root, j));
                            assert(reg.menus[j].idle());
                        } else {
                            assert(!reg.in_play(root, j));
                            assert(reg.menus[j].idle());
                        }
                    }
                },
                None => {},
            }
        },
        Event::ThemeChanged { is_dark } => {
            lemma_step_theme_shape(reg, root, is_dark);
            let after = reg.step_theme(root, is_dark).reg;
            assert forall|j: int|
                0 <= j < after.menus.len() && !after.in_play(root, j) implies (
            #[trigger] after.menus[j]).idle() by {
                assert(only_theme_differs(reg.menus[j], after.menus[j]));
                assert(after.slot(root) == reg.slot(root));
                assert(only_theme_differs(reg.menus[reg.slot(root)], after.menus[reg.slot(root)]));
                if reg.get(root).open_submenu() is Some {
                    let h = reg.get(root).open_submenu()->0;
                    assert(after.slot(h) == reg.slot(h));
                    assert(after.has(h) == reg.has(h));
                }
                assert(!reg.in_play(root, j));
            }
        },
        Event::Inactivated => {
            if parent.visible {
                lemma_ended_all_idle(reg, root);
            }
        },
        Event::Unrelated => {},
    }
}

/// One turn of the modal loop keeps the others idle as well, and a turn
/// that ends the session leaves every menu idle.
pub proof fn lemma_pumped_keeps_others_idle(
    reg: RegistryView,
    root: isize,
    active_window: isize,
    event: Event,
)
    requires
        reg.wf(),
        reg.has(root),
        reg.others_idle(root),
    ensures
        reg.pumped(root, active_window, event).reg.others_idle(root),
        reg.pumped(root, active_window, event).outcome !is Continue ==> reg.pumped(
            root,
            active_window,
            event,
        ).reg.all_idle(),
{
    lemma_step_keeps_others_idle(reg, root, event);
    crate::session::lemma_step_keeps_wf(reg, root, event);
    let first = reg.step(root, event);
    if first.outcome is Continue && first.reg.has(root) && first.reg.get(root).parent
        != active_window {
        if first.reg.get(root).visible {
            lemma_ended_all_idle(first.reg, root);
        }
    }
}

} // verus!
