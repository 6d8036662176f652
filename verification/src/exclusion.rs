//! One submenu at a time: of the submenus of a menu, none is on the
//! screen but the one the menu records as shown.
use vstd::prelude::*;
use crate::item::ItemView;
use crate::registry::{lemma_after_put, lemma_slot, RegistryView};
use crate::session::{only_theme_differs, Event};
use crate::state::{lemma_committed_wf, lemma_hit_in_range};

verus! {

/// The submenu rows of these rows name windows of their own: none names
/// the window `own`, and no two name the same window.
pub open spec fn separate_submenus(items: Seq<ItemView>, own: isize) -> bool {
    &&& forall|j: int|
        0 <= j < items.len() && (#[trigger] items[j]).is_submenu() ==> items[j].submenu != Some(own)
    &&& forall|j: int, k: int|
        0 <= j < items.len() && 0 <= k < items.len() && j != k && (#[trigger] items[j]).is_submenu()
            && (#[trigger] items[k]).is_submenu() && items[j].submenu is Some ==> items[j].submenu
            != items[k].submenu
}

impl RegistryView {
    /// The menu of the window `hwnd` is registered and on the screen.
    pub open spec fn on_screen(self, hwnd: isize) -> bool {
        self.has(hwnd) && self.get(hwnd).visible
    }

    /// The submenu of row `j` of the menu in `root` is on the screen.
    pub open spec fn submenu_on_screen(self, root: isize, j: int) -> bool {
        &&& self.get(root).items[j].is_submenu()
        &&& self.get(root).items[j].submenu matches Some(h) && self.on_screen(h)
    }

    /// Of the submenus of the menu in `root`, none is on the screen but
    /// the one the menu records as shown.
    pub open spec fn one_submenu_at_a_time(self, root: isize) -> bool {
        forall|j: int|
            0 <= j < self.get(root).items.len() && #[trigger] self.submenu_on_screen(root, j)
                ==> self.get(root).visible_submenu_index == j
    }

    /// The session of `root` is in order: its menu is registered, the
    /// submenus of its rows have windows of their own, and at most the
    /// one submenu it records as shown is on the screen.
    pub open spec fn session_in_order(self, root: isize) -> bool {
        &&& self.wf()
        &&& self.has(root)
        &&& separate_submenus(self.get(root).items, root)
        &&& self.one_submenu_at_a_time(root)
    }
}

/// Two submenus of a menu whose session is in order are never on the
/// screen together.
pub proof fn lemma_no_two_submenus(reg: RegistryView, root: isize, j: int, k: int)
    requires
        reg.session_in_order(root),
        0 <= j < reg.get(root).items.len(),
        0 <= k < reg.get(root).items.len(),
        reg.submenu_on_screen(root, j),
        reg.submenu_on_screen(root, k),
    ensures
        j == k,
{
}

/// A session starts in order. When a menu whose submenus have windows of
/// their own, none of them on the screen, is shown, its session is in
/// order.
pub proof fn lemma_session_starts_in_order(reg: RegistryView, root: isize, corner: crate::geometry::Point)
    requires
        reg.wf(),
        reg.has(root),
        separate_submenus(reg.get(root).items, root),
        forall|j: int| 0 <= j < reg.get(root).items.len() ==> !#[trigger] reg.submenu_on_screen(root, j),
    ensures
        reg.put(root, reg.get(root).shown_at(corner)).session_in_order(root),
{
    lemma_slot(reg, root, 0);
    let shown = reg.put(root, reg.get(root).shown_at(corner));
    crate::session::lemma_put_wf(reg, root, reg.get(root).shown_at(corner));
    lemma_after_put(reg, root, reg.get(root).shown_at(corner), root);
    assert forall|j: int|
        0 <= j < shown.get(root).items.len() && #[trigger] shown.submenu_on_screen(
            root,
            j,
        ) implies shown.get(root).visible_submenu_index == j by {
        let w = shown.get(root).items[j].submenu->0;
        lemma_after_put(reg, root, reg.get(root).shown_at(corner), w);
        assert(reg.submenu_on_screen(root, j));
    }
}

/// Submenu mutual exclusion across the menus of a session. Whatever the
/// host reports to a session that is in order, the session is in order
/// afterwards: no two submenus of its root menu are on the screen at the
/// same time, and the one that is, is the one the root menu records.
pub proof fn lemma_step_keeps_order(reg: RegistryView, root: isize, event: Event)
    requires
        reg.session_in_order(root),
    ensures
        reg.step(root, event).reg.session_in_order(root),
{
    crate::session::lemma_step_keeps_wf(reg, root, event);
    lemma_slot(reg, root, 0);
    let parent = reg.get(root);
    match event {
        Event::PointerMove { pt } => {
            lemma_moved(reg, root, pt);
        },
        Event::PointerDown { pt, button, window_under_pointer, owner_rects } => {
            if reg.target_of(root, window_under_pointer) is None {
                lemma_ended_in_order(reg, root);
            }
        },
        Event::PointerUp { pt, window_under_pointer } => {
            match reg.commit_target(root, pt, window_under_pointer) {
                Some((h, i)) => {
                    lemma_slot(reg, h, 0);
                    lemma_hit_in_range(reg.get(h), pt);
                    lemma_committed_wf(reg.get(h), i);
                    let committed = reg.put(h, reg.get(h).committed(i));
                    crate::session::lemma_put_wf(reg, h, reg.get(h).committed(i));
                    lemma_after_put(reg, h, reg.get(h).committed(i), root);
                    assert forall|w: isize| #[trigger] committed.on_screen(w) implies reg.on_screen(
                        w,
                    ) by {
                        lemma_after_put(reg, h, reg.get(h).committed(i), w);
                    }
                    assert(committed.get(root).items.len() == parent.items.len());
                    assert(separate_submenus(committed.get(root).items, root));
                    assert forall|j: int|
                        0 <= j < committed.get(root).items.len()
                            && #[trigger] committed.submenu_on_screen(root, j) implies committed.get(
                        root,
                    ).visible_submenu_index == j by {
                        assert(committed.on_screen(committed.get(root).items[j].submenu->0));
                        assert(reg.submenu_on_screen(root, j));
                    }
                    lemma_ended_in_order(committed, root);
                },
                None => {},
            }
        },
        Event::TimerFired { token, work } => {
            match reg.due_submenu(root, token as int, work) {
                Some((h, corner)) => {
                    let opened = reg.put(root, parent.with_submenu_open(token as int));
                    let after = opened.put(h, opened.get(h).shown_at(corner));
                    lemma_slot(reg, h, 0);
                    lemma_after_put(reg, root, parent.with_submenu_open(token as int), root);
                    lemma_after_put(reg, root, parent.with_submenu_open(token as int), h);
                    lemma_slot(opened, h, 0);
                    lemma_after_put(opened, h, opened.get(h).shown_at(corner), root);
                    lemma_after_put(opened, h, opened.get(h).shown_at(corner), h);
                    assert(h != root);
                    assert(after.get(root) == parent.with_submenu_open(token as int));
                    assert forall|j: int|
                        0 <= j < after.get(root).items.len() && #[trigger] after.submenu_on_screen(
                            root,
                            j,
                        ) implies after.get(root).visible_submenu_index == j by {
                        let w = after.get(root).items[j].submenu->0;
                        lemma_after_put(reg, root, parent.with_submenu_open(token as int), w);
                        lemma_after_put(opened, h, opened.get(h).shown_at(corner), w);
                        if w != h {
                            assert(reg.on_screen(w));
                            assert(reg.submenu_on_screen(root, j));
                        }
                    }
                },
                None => {},
            }
        },
        Event::ThemeChanged { is_dark } => {
            crate::session::lemma_step_theme_shape(reg, root, is_dark);
            let after = reg.step_theme(root, is_dark).reg;
            assert(after.slot(root) == reg.slot(root));
            assert(only_theme_differs(reg.menus[reg.slot(root)], after.menus[reg.slot(root)]));
            assert forall|j: int|
                0 <= j < after.get(root).items.len() && #[trigger] after.submenu_on_screen(
                    root,
                    j,
                ) implies after.get(root).visible_submenu_index == j by {
                let w = after.get(root).items[j].submenu->0;
                assert(after.has(w) == reg.has(w));
                assert(after.slot(w) == reg.slot(w));
                lemma_slot(reg, w, 0);
                assert(only_theme_differs(reg.menus[reg.slot(w)], after.menus[reg.slot(w)]));
                assert(reg.on_screen(w));
                assert(reg.submenu_on_screen(root, j));
            }
        },
        Event::Inactivated => {
            if parent.visible {
                lemma_ended_in_order(reg, root);
            }
        },
        Event::Unrelated => {},
    }
}

proof fn lemma_ended_in_order(reg: RegistryView, root: isize)
    requires
        reg.session_in_order(root),
    ensures
        reg.ended(root).session_in_order(root),
{
    crate::session::lemma_ended(reg, root);
    lemma_slot(reg, root, 0);
    let parent = reg.get(root);
    let shown = parent.open_submenu();
    let cleared = reg.put(root, parent.reset());
    crate::session::lemma_put_wf(reg, root, parent.reset());
    lemma_after_put(reg, root, parent.reset(), root);
    let closed = cleared.hide_step(shown);
    let after = reg.ended(root);
    if shown is Some {
        let h = shown->0;
        lemma_slot(cleared, h, 0);
        lemma_after_put(cleared, h, cleared.get(h).hidden(), root);
    }
    lemma_slot(closed, root, 0);
    lemma_after_put(closed, root, closed.get(root).hidden(), root);
    assert(after.get(root).items == parent.items);
    assert forall|w: isize| #[trigger] after.on_screen(w) implies reg.on_screen(w) && shown != Some(
        w,
    ) by {
        lemma_after_put(closed, root, closed.get(root).hidden(), w);
        lemma_after_put(reg, root, parent.reset(), w);
        if shown is Some {
            lemma_after_put(cleared, shown->0, cleared.get(shown->0).hidden(), w);
        }
    }
    assert forall|j: int|
        0 <= j < after.get(root).items.len() && #[trigger] after.submenu_on_screen(
            root,
            j,
        ) implies after.get(root).visible_submenu_index == j by {
        let w = after.get(root).items[j].submenu->0;
        assert(after.on_screen(w));
        assert(reg.submenu_on_screen(root, j));
        assert(parent.visible_submenu_index == j);
        assert(shown == Some(w));
    }
}

proof fn lemma_moved(reg: RegistryView, root: isize, pt: crate::geometry::Point)
    requires
        reg.session_in_order(root),
    ensures
        reg.step_move(root, pt).reg.session_in_order(root),
{
    crate::session::lemma_step_keeps_wf(reg, root, Event::PointerMove { pt });
    lemma_slot(reg, root, 0);
    let parent = reg.get(root);
    let report = parent.move_report(pt);
    crate::state::lemma_moved_wf(parent, pt);
    let followed = reg.put(root, parent.moved(pt));
    crate::session::lemma_put_wf(reg, root, parent.moved(pt));
    lemma_after_put(reg, root, parent.moved(pt), root);
    let closed = followed.hide_step(report.closed_submenu);
    crate::session::lemma_hide_wf(followed, report.closed_submenu);
    if report.closed_submenu is Some {
        let h = report.closed_submenu->0;
        lemma_slot(followed, h, 0);
        lemma_after_put(followed, h, followed.get(h).hidden(), root);
        lemma_after_put(reg, root, parent.moved(pt), h);
    }
    assert(closed.has(root));
    assert(closed.get(root) == parent.moved(pt));
    assert forall|w: isize| #[trigger] closed.on_screen(w) implies reg.on_screen(w)
        && report.closed_submenu != Some(w) by {
        lemma_after_put(reg, root, parent.moved(pt), w);
        if report.closed_submenu is Some {
            let h = report.closed_submenu->0;
            lemma_after_put(followed, h, followed.get(h).hidden(), w);
        }
    }
    assert forall|j: int|
        0 <= j < closed.get(root).items.len() && #[trigger] closed.submenu_on_screen(
            root,
            j,
        ) implies closed.get(root).visible_submenu_index == j by {
        let w = closed.get(root).items[j].submenu->0;
        assert(closed.on_screen(w));
        assert(reg.submenu_on_screen(root, j));
    }
    assert(closed.session_in_order(root));
    match closed.get(root).open_submenu() {
        Some(h) => {
            if closed.has(h) {
                lemma_slot(closed, h, 0);
                let after = closed.put(h, closed.get(h).moved(pt));
                lemma_after_put(closed, h, closed.get(h).moved(pt), root);
                assert(h != root);
                assert forall|j: int|
                    0 <= j < after.get(root).items.len() && #[trigger] after.submenu_on_screen(
                        root,
                        j,
                    ) implies after.get(root).visible_submenu_index == j by {
                    let w = after.get(root).items[j].submenu->0;
                    lemma_after_put(closed, h, closed.get(h).moved(pt), w);
                    assert(closed.on_screen(w));
                    assert(closed.submenu_on_screen(root, j));
                }
            }
        },
        None => {},
    }
}

} // verus!
