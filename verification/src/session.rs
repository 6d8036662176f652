//! A popup session: the events the host feeds in, the actions it is asked
//! to perform, and the function that takes the registry from one state to
//! the next.
use vstd::prelude::*;
use crate::geometry::{fits_i32, Point, Rect};
use crate::item::{
    selection_of, ItemView, SelectedMenuItem, SelectedView, XMT_CHECKBOX, XMT_SEPARATOR, XMT_SUBMENU,
};
use crate::layout::SUBMENU_TIMEOUT_MSEC;
use crate::menu::MenuView;
use crate::registry::{
    lemma_after_put, lemma_put_keeps_slots, lemma_same_windows_same_slots, lemma_slot, same_windows,
    MenuRegistry, RegistryView,
};
use crate::item::is_checked;
use crate::state::{committable, lemma_committed_wf, lemma_hit_in_range, same_group, MoveReport};

verus! {

/// The button of a pointer press.
#[derive(Clone, Copy, Debug, PartialEq, Eq, Structural)]
pub enum MouseButton {
    Left,
    Right,
}

/// What the host reports to a session. Points are in screen coordinates.
#[derive(Debug)]
pub enum Event {
    /// The pointer has moved.
    PointerMove { pt: Point },
    /// A button went down. `window_under_pointer` is the window the host
    /// finds at the point; `owner_rects` are the screen rectangles of the
    /// invoking window and of the windows it belongs to.
    PointerDown { pt: Point, button: MouseButton, window_under_pointer: isize, owner_rects: Vec<Rect> },
    /// A button came up over the window the host finds at the point.
    PointerUp { pt: Point, window_under_pointer: isize },
    /// The delay that was started for the submenu row `token` has run
    /// out; `work` is the work area of the monitor the submenu's anchor
    /// point falls on.
    TimerFired { token: i32, work: Rect },
    /// The host has switched between its dark and its light theme.
    ThemeChanged { is_dark: bool },
    /// The invoking window is no longer the active one.
    Inactivated,
    /// Input that is not for the session; the host hands it on to where
    /// it belongs.
    Unrelated,
}

/// What a session asks the host to do, in the order given.
#[derive(Clone, Copy, Debug, PartialEq, Eq, Structural)]
pub enum Action {
    /// Move the window to the rectangle and show it without activating it.
    ShowWindow { hwnd: isize, x: i32, y: i32, width: i32, height: i32 },
    HideWindow { hwnd: isize },
    /// Have the rectangle of the window's client area painted again.
    Invalidate { hwnd: isize, rect: Rect },
    /// Have the window painted now.
    UpdateWindow { hwnd: isize },
    /// Report `TimerFired` with `token` once `delay_ms` have passed; a
    /// delay already running for the window starts over.
    StartTimer { hwnd: isize, token: i32, delay_ms: u32 },
    StopTimer { hwnd: isize, token: i32 },
    /// Route all pointer input to the window.
    SetCapture { hwnd: isize },
    ReleaseCapture,
    /// Deliver a press of the button at the point to whatever is there.
    SendClick { pt: Point, button: MouseButton },
    /// Let the window follow the host's dark or light mode.
    AllowDarkMode { hwnd: isize, is_dark: bool },
    /// Open the theme resource for the window and hand it to
    /// `install_theme`.
    OpenTheme { hwnd: isize },
    CloseTheme { handle: isize },
    /// Have the owner of the window tell it of theme changes, under `id`.
    AttachOwner { hwnd: isize, owner: isize, id: usize },
    DetachOwner { hwnd: isize, owner: isize, id: usize },
}

/// How a session stands after an event.
#[derive(Debug)]
pub enum Outcome {
    /// The session goes on.
    Continue,
    /// A row was chosen; the session is over.
    Selected(SelectedMenuItem),
    /// The session is over and nothing was chosen.
    Dismissed,
}

/// What an `Outcome` holds, as mathematical values.
pub enum OutcomeView {
    Continue,
    Selected(SelectedView),
    Dismissed,
}

impl View for Outcome {
    type V = OutcomeView;

    open spec fn view(&self) -> OutcomeView {
        match self {
            Outcome::Continue => OutcomeView::Continue,
            Outcome::Selected(item) => OutcomeView::Selected(item@),
            Outcome::Dismissed => OutcomeView::Dismissed,
        }
    }
}

/// The answer to an event.
#[derive(Debug)]
pub struct Reaction {
    pub actions: Vec<Action>,
    pub outcome: Outcome,
}

/// A registry after an event, with what the event asks of the host.
pub struct Step {
    pub reg: RegistryView,
    pub actions: Seq<Action>,
    pub outcome: OutcomeView,
}

/// The point lies over one of the rectangles.
pub open spec fn over_any(pt: Point, rects: Seq<Rect>) -> bool {
    exists|i: int| 0 <= i < rects.len() && (#[trigger] rects[i]).contains(pt)
}

/// The repaints a transition of the menu in `hwnd` asks for: first the row
/// the pointer has entered, then the row it has left.
pub open spec fn repaint_actions(hwnd: isize, report: MoveReport) -> Seq<Action> {
    (match report.repaint_new {
        Some(rect) => seq![Action::Invalidate { hwnd, rect }],
        None => Seq::<Action>::empty(),
    }) + (match report.repaint_old {
        Some(rect) => seq![Action::Invalidate { hwnd, rect }],
        None => Seq::<Action>::empty(),
    })
}

/// The delay a transition of the menu in `hwnd` asks to start.
pub open spec fn timer_actions(hwnd: isize, report: MoveReport) -> Seq<Action> {
    match report.arm_timer {
        Some(token) => seq![Action::StartTimer { hwnd, token, delay_ms: SUBMENU_TIMEOUT_MSEC }],
        None => Seq::<Action>::empty(),
    }
}

impl RegistryView {
    /// The registry after the menu in `target`, if one is named and
    /// registered, was taken off the screen.
    pub open spec fn hide_step(self, target: Option<isize>) -> RegistryView {
        match target {
            Some(h) => self.put(h, self.get(h).hidden()),
            None => self,
        }
    }

    /// What taking the menu in `target` off the screen asks of the host.
    pub open spec fn hide_actions(self, target: Option<isize>) -> Seq<Action> {
        match target {
            Some(h) => if self.has(h) {
                seq![Action::HideWindow { hwnd: h }]
            } else {
                Seq::<Action>::empty()
            },
            None => Seq::<Action>::empty(),
        }
    }

    /// The menu of the session of `root` that a window belongs to: the
    /// submenu that is shown, the root menu, or none of the session's.
    pub open spec fn target_of(self, root: isize, window: isize) -> Option<isize> {
        match self.get(root).open_submenu() {
            Some(h) => if h != 0 && window == h {
                Some(h)
            } else if window == root {
                Some(root)
            } else {
                None
            },
            None => if window == root {
                Some(root)
            } else {
                None
            },
        }
    }

    /// The registry after the session of `root` has ended: the submenu
    /// that was shown and the root menu are off the screen, the transient
    /// state of both is cleared.
    pub open spec fn ended(self, root: isize) -> RegistryView {
        let cleared = self.put(root, self.get(root).reset());
        let closed = cleared.hide_step(self.get(root).open_submenu());
        closed.put(root, closed.get(root).hidden())
    }

    /// What the end of the session of `root` asks of the host: the
    /// capture is released first, then the submenu that is shown is
    /// hidden, then the root menu.
    pub open spec fn end_actions(self, root: isize) -> Seq<Action> {
        seq![Action::ReleaseCapture] + self.hide_actions(self.get(root).open_submenu()) + seq![
            Action::HideWindow { hwnd: root },
        ]
    }

    /// A pointer move in the session of `root`: the root menu follows the
    /// pointer; a submenu it gives up is hidden; then the submenu that is
    /// shown follows the pointer as well.
    pub open spec fn step_move(self, root: isize, pt: Point) -> Step {
        let report = self.get(root).move_report(pt);
        let followed = self.put(root, self.get(root).moved(pt));
        let closed = followed.hide_step(report.closed_submenu);
        let first = followed.hide_actions(report.closed_submenu) + repaint_actions(root, report)
            + timer_actions(root, report);
        match closed.get(root).open_submenu() {
            Some(h) => if closed.has(h) {
                Step {
                    reg: closed.put(h, closed.get(h).moved(pt)),
                    actions: first + repaint_actions(h, closed.get(h).move_report(pt)),
                    outcome: OutcomeView::Continue,
                }
            } else {
                Step { reg: closed, actions: first, outcome: OutcomeView::Continue }
            },
            None => Step { reg: closed, actions: first, outcome: OutcomeView::Continue },
        }
    }

    /// The row a release of the button at `pt` over `window` commits on,
    /// as the menu's window and the row's position, if it commits at all.
    pub open spec fn commit_target(self, root: isize, pt: Point, window: isize) -> Option<
        (isize, int),
    > {
        match self.target_of(root, window) {
            Some(h) => if self.has(h) && self.get(h).hit(pt) >= 0 && committable(
                self.get(h).items[self.get(h).hit(pt)],
            ) {
                Some((h, self.get(h).hit(pt)))
            } else {
                None
            },
            None => None,
        }
    }

    /// A release of the button. Over a row that can be committed, the row
    /// is committed, the session ends and answers with the row as it then
    /// stands; a checkbox is painted again. Anywhere else nothing happens.
    pub open spec fn step_up(self, root: isize, pt: Point, window: isize) -> Step {
        match self.commit_target(root, pt, window) {
            Some((h, i)) => {
                let committed = self.put(h, self.get(h).committed(i));
                Step {
                    reg: committed.ended(root),
                    actions: (if self.get(h).items[i].is_checkbox() {
                        seq![Action::Invalidate { hwnd: h, rect: self.get(h).item_rect(i) }]
                    } else {
                        Seq::<Action>::empty()
                    }) + committed.end_actions(root),
                    outcome: OutcomeView::Selected(selection_of(self.get(h).committed(i).items[i])),
                }
            },
            None => Step { reg: self, actions: Seq::empty(), outcome: OutcomeView::Continue },
        }
    }

    /// A press of a button. Outside every window of the session it ends
    /// the session with nothing chosen, and over the invoking window or
    /// one it belongs to the press is then delivered again, at the same
    /// point, to what lies there. Over a window of the session nothing
    /// happens.
    pub open spec fn step_down(
        self,
        root: isize,
        pt: Point,
        button: MouseButton,
        window: isize,
        owner_rects: Seq<Rect>,
    ) -> Step {
        if self.target_of(root, window) is None {
            Step {
                reg: self.ended(root),
                actions: self.end_actions(root) + (if over_any(pt, owner_rects) {
                    seq![Action::SendClick { pt, button }]
                } else {
                    Seq::<Action>::empty()
                }),
                outcome: OutcomeView::Dismissed,
            }
        } else {
            Step { reg: self, actions: Seq::empty(), outcome: OutcomeView::Continue }
        }
    }

    /// The invoking window is no longer active: a session whose root menu
    /// is on the screen ends with nothing chosen.
    pub open spec fn step_inactive(self, root: isize) -> Step {
        if self.get(root).visible {
            Step {
                reg: self.ended(root),
                actions: self.end_actions(root),
                outcome: OutcomeView::Dismissed,
            }
        } else {
            Step { reg: self, actions: Seq::empty(), outcome: OutcomeView::Continue }
        }
    }

    /// The submenu that the delay for row `token` of the root menu opens,
    /// with the corner it opens at: the pointer is still on that row, the
    /// row's submenu is registered, and its corner can be written in
    /// 32-bit coordinates.
    pub open spec fn due_submenu(self, root: isize, token: int, work: Rect) -> Option<
        (isize, Point),
    > {
        let parent = self.get(root);
        if parent.submenu_due(token) {
            match parent.items[token].submenu {
                Some(h) => {
                    let left = parent.submenu_left(token, self.get(h).width as int, work);
                    let top = parent.submenu_top(token, self.get(h).height as int, work);
                    if self.has(h) && fits_i32(left) && fits_i32(top) {
                        Some((h, Point { x: left as i32, y: top as i32 }))
                    } else {
                        None
                    }
                },
                None => None,
            }
        } else {
            None
        }
    }

    /// The delay for row `token` has run out: the timer is stopped, and
    /// the submenu that is due is placed, shown and recorded as shown.
    pub open spec fn step_timer(self, root: isize, token: i32, work: Rect) -> Step {
        let stop = seq![Action::StopTimer { hwnd: root, token }];
        match self.due_submenu(root, token as int, work) {
            Some((h, corner)) => {
                let opened = self.put(root, self.get(root).with_submenu_open(token as int));
                Step {
                    reg: opened.put(h, opened.get(h).shown_at(corner)),
                    actions: stop.push(
                        Action::ShowWindow {
                            hwnd: h,
                            x: corner.x,
                            y: corner.y,
                            width: self.get(h).width,
                            height: self.get(h).height,
                        },
                    ),
                    outcome: OutcomeView::Continue,
                }
            },
            None => Step { reg: self, actions: stop, outcome: OutcomeView::Continue },
        }
    }

    /// The menus after the new palette was handed to every menu of the
    /// session of `root`.
    pub open spec fn themed_menus(self, root: isize, is_dark: bool) -> Seq<MenuView> {
        Seq::new(
            self.menus.len(),
            |j: int|
                if self.in_session(root, j) {
                    self.menus[j].with_dark(is_dark)
                } else {
                    self.menus[j]
                },
        )
    }

    /// The repaints asked of the first `n` menus of the registry as far
    /// as they belong to the session of `root`; the root menu itself is
    /// asked before them.
    pub open spec fn session_updates(self, root: isize, n: int) -> Seq<Action>
        decreases n,
    {
        if n <= 0 {
            Seq::<Action>::empty()
        } else if self.in_session(root, n - 1) && n - 1 != self.slot(root) {
            self.session_updates(root, n - 1).push(
                Action::UpdateWindow { hwnd: self.menus[n - 1].hwnd },
            )
        } else {
            self.session_updates(root, n - 1)
        }
    }

    /// A theme change. The root window is told of the mode; the theme
    /// resource is given up, to be opened afresh for the root menu; the
    /// root menu and every menu found from it through submenu rows, at
    /// any depth, take the new palette and are painted again.
    pub open spec fn step_theme(self, root: isize, is_dark: bool) -> Step {
        Step {
            reg: RegistryView { menus: self.themed_menus(root, is_dark), theme: None, ..self },
            actions: seq![Action::AllowDarkMode { hwnd: root, is_dark }] + (match self.theme {
                Some(handle) => seq![Action::CloseTheme { handle }],
                None => Seq::<Action>::empty(),
            }) + seq![Action::OpenTheme { hwnd: root }, Action::UpdateWindow { hwnd: root }]
                + self.session_updates(root, self.menus.len() as int),
            outcome: OutcomeView::Continue,
        }
    }

    /// The registry after an event in the session of `root`, with what
    /// the event asks of the host. An event for a window that has no menu
    /// finds its session over.
    pub open spec fn step(self, root: isize, event: Event) -> Step {
        if !self.has(root) {
            Step { reg: self, actions: Seq::empty(), outcome: OutcomeView::Dismissed }
        } else {
            match event {
                Event::PointerMove { pt } => self.step_move(root, pt),
                Event::PointerDown {
                    pt,
                    button,
                    window_under_pointer,
                    owner_rects,
                } => self.step_down(root, pt, button, window_under_pointer, owner_rects@),
                Event::PointerUp { pt, window_under_pointer } => self.step_up(
                    root,
                    pt,
                    window_under_pointer,
                ),
                Event::TimerFired { token, work } => self.step_timer(root, token, work),
                Event::ThemeChanged { is_dark } => self.step_theme(root, is_dark),
                Event::Inactivated => self.step_inactive(root),
                Event::Unrelated => Step {
                    reg: self,
                    actions: Seq::empty(),
                    outcome: OutcomeView::Continue,
                },
            }
        }
    }
    /// One turn of the modal loop. The event is fed into the session;
    /// if the session goes on although the invoking window is not the
    /// active window any more, the session ends with nothing chosen.
    pub open spec fn pumped(self, root: isize, active_window: isize, event: Event) -> Step {
        let first = self.step(root, event);
        if first.outcome is Continue && first.reg.has(root) && first.reg.get(root).parent
            != active_window {
            let second = first.reg.step_inactive(root);
            Step {
                reg: second.reg,
                actions: first.actions + second.actions,
                outcome: second.outcome,
            }
        } else {
            first
        }
    }

    /// The registry without the menu of the window `hwnd`. With the last
    /// root menu the theme resource goes.
    pub open spec fn destroyed(self, hwnd: isize) -> RegistryView {
        if self.has(hwnd) {
            let rest = RegistryView { menus: self.menus.remove(self.slot(hwnd)), ..self };
            RegistryView {
                theme: if self.get(hwnd).main && !rest.has_root() {
                    None
                } else {
                    self.theme
                },
                ..rest
            }
        } else {
            self
        }
    }

    /// What the end of the window `hwnd` asks of the host: a root menu is
    /// detached from its owner, and with the last root menu the theme
    /// resource is closed.
    pub open spec fn destroy_actions(self, hwnd: isize) -> Seq<Action> {
        if self.has(hwnd) && self.get(hwnd).main {
            (match self.get(hwnd).win_subclass_id {
                Some(id) => seq![Action::DetachOwner { hwnd, owner: self.get(hwnd).parent, id }],
                None => Seq::<Action>::empty(),
            }) + (match self.theme {
                Some(handle) => if self.destroyed(hwnd).has_root() {
                    Seq::<Action>::empty()
                } else {
                    seq![Action::CloseTheme { handle }]
                },
                None => Seq::<Action>::empty(),
            })
        } else {
            Seq::<Action>::empty()
        }
    }
}

/// The end of a session leaves every menu well-formed, the root menu and
/// the submenu that was shown with their transient state cleared.
pub proof fn lemma_ended(reg: RegistryView, root: isize)
    requires
        reg.wf(),
        reg.has(root),
    ensures
        reg.ended(root).wf(),
        reg.ended(root).has(root),
        reg.ended(root).get(root).selected_index == -1,
        reg.ended(root).get(root).visible_submenu_index == -1,
        !reg.ended(root).get(root).visible,
        reg.ended(root).menus.len() == reg.menus.len(),
{
    lemma_slot(reg, root, 0);
    let sub = reg.get(root).open_submenu();
    let cleared = reg.put(root, reg.get(root).reset());
    lemma_put_wf(reg, root, reg.get(root).reset());
    lemma_after_put(reg, root, reg.get(root).reset(), root);
    let closed = cleared.hide_step(sub);
    lemma_hide_wf(cleared, sub);
    if sub is Some && cleared.has(sub->0) {
        let h = sub->0;
        lemma_slot(cleared, h, 0);
        lemma_after_put(cleared, h, cleared.get(h).hidden(), root);
    }
    lemma_slot(closed, root, 0);
    lemma_put_wf(closed, root, closed.get(root).hidden());
    lemma_after_put(closed, root, closed.get(root).hidden(), root);
}

/// Replacing a menu by a well-formed one keeps the registry well-formed.
pub proof fn lemma_put_wf(reg: RegistryView, hwnd: isize, menu: MenuView)
    requires
        reg.wf(),
        reg.has(hwnd) ==> menu.wf(),
    ensures
        reg.put(hwnd, menu).wf(),
{
    lemma_slot(reg, hwnd, 0);
}

/// Hiding a menu keeps the registry well-formed.
pub proof fn lemma_hide_wf(reg: RegistryView, target: Option<isize>)
    requires
        reg.wf(),
    ensures
        reg.hide_step(target).wf(),
{
    if target is Some {
        lemma_slot(reg, target->0, 0);
        lemma_put_wf(reg, target->0, reg.get(target->0).hidden());
    }
}

/// Submenu mutual exclusion, at every instant. Whatever the host
/// reports, every menu is well-formed afterwards if every menu was
/// before: each records no submenu as shown, or exactly one row, and
/// that row is a submenu row.
pub proof fn lemma_step_keeps_wf(reg: RegistryView, root: isize, event: Event)
    requires
        reg.wf(),
    ensures
        reg.step(root, event).reg.wf(),
        forall|i: int|
            0 <= i < reg.step(root, event).reg.menus.len() ==> {
                let menu = #[trigger] reg.step(root, event).reg.menus[i];
                menu.visible_submenu_index == -1 || (0 <= menu.visible_submenu_index
                    < menu.items.len() && menu.items[menu.visible_submenu_index as int].is_submenu())
            },
{
    if reg.has(root) {
        lemma_slot(reg, root, 0);
        match event {
            Event::PointerMove { pt } => {
                let report = reg.get(root).move_report(pt);
                crate::state::lemma_moved_wf(reg.get(root), pt);
                let followed = reg.put(root, reg.get(root).moved(pt));
                lemma_put_wf(reg, root, reg.get(root).moved(pt));
                let closed = followed.hide_step(report.closed_submenu);
                lemma_hide_wf(followed, report.closed_submenu);
                match closed.get(root).open_submenu() {
                    Some(h) => {
                        if closed.has(h) {
                            lemma_slot(closed, h, 0);
                            crate::state::lemma_moved_wf(closed.get(h), pt);
                            lemma_put_wf(closed, h, closed.get(h).moved(pt));
                        }
                    },
                    None => {},
                }
            },
            Event::PointerDown { pt, button, window_under_pointer, owner_rects } => {
                lemma_ended(reg, root);
            },
            Event::PointerUp { pt, window_under_pointer } => {
                match reg.commit_target(root, pt, window_under_pointer) {
                    Some((h, i)) => {
                        lemma_slot(reg, h, 0);
                        lemma_hit_in_range(reg.get(h), pt);
                        lemma_committed_wf(reg.get(h), i);
                        let committed = reg.put(h, reg.get(h).committed(i));
                        lemma_put_wf(reg, h, reg.get(h).committed(i));
                        lemma_put_keeps_slots(reg, h, reg.get(h).committed(i), root);
                        lemma_ended(committed, root);
                    },
                    None => {},
                }
            },
            Event::TimerFired { token, work } => {
                match reg.due_submenu(root, token as int, work) {
                    Some((h, corner)) => {
                        let opened = reg.put(root, reg.get(root).with_submenu_open(token as int));
                        lemma_put_wf(reg, root, reg.get(root).with_submenu_open(token as int));
                        lemma_slot(opened, h, 0);
                        lemma_put_keeps_slots(
                            reg,
                            root,
                            reg.get(root).with_submenu_open(token as int),
                            h,
                        );
                        lemma_put_wf(opened, h, opened.get(h).shown_at(corner));
                    },
                    None => {},
                }
            },
            Event::ThemeChanged { is_dark } => {
                lemma_step_theme_shape(reg, root, is_dark);
            },
            Event::Inactivated => {
                lemma_ended(reg, root);
            },
            Event::Unrelated => {},
        }
    }
}

/// The end of a session changes no row of any menu.
pub proof fn lemma_ended_keeps_rows(reg: RegistryView, root: isize, h: isize)
    requires
        reg.wf(),
        reg.has(root),
        reg.has(h),
    ensures
        reg.ended(root).has(h),
        reg.ended(root).get(h).items == reg.get(h).items,
{
    lemma_slot(reg, root, 0);
    let sub = reg.get(root).open_submenu();
    let cleared = reg.put(root, reg.get(root).reset());
    lemma_after_put(reg, root, reg.get(root).reset(), h);
    lemma_after_put(reg, root, reg.get(root).reset(), root);
    let closed = cleared.hide_step(sub);
    if sub is Some {
        let k = sub->0;
        lemma_slot(cleared, k, 0);
        lemma_after_put(cleared, k, cleared.get(k).hidden(), h);
        lemma_after_put(cleared, k, cleared.get(k).hidden(), root);
    }
    lemma_slot(closed, root, 0);
    lemma_after_put(closed, root, closed.get(root).hidden(), h);
}

/// Radio exclusivity, at the commit. When a release of the button
/// commits on a radio row, then in the menu of that row, once the session
/// has ended, the rows of its group that are checked are exactly one: the
/// row committed.
pub proof fn lemma_commit_checks_one_of_group(
    reg: RegistryView,
    root: isize,
    pt: Point,
    window: isize,
)
    requires
        reg.wf(),
        reg.has(root),
        reg.commit_target(root, pt, window) is Some,
        ({
            let (h, i) = reg.commit_target(root, pt, window)->0;
            reg.get(h).items[i].is_radio()
        }),
    ensures
        ({
            let (h, i) = reg.commit_target(root, pt, window)->0;
            let rows = reg.step_up(root, pt, window).reg.get(h).items;
            &&& rows.len() == reg.get(h).items.len()
            &&& 0 <= i < rows.len()
            &&& is_checked(rows[i].state)
            &&& forall|k: int|
                0 <= k < rows.len() && same_group(#[trigger] rows[k], rows[i]) ==> (is_checked(
                    rows[k].state,
                ) <==> k == i)
        }),
{
    let (h, i) = reg.commit_target(root, pt, window)->0;
    lemma_slot(reg, h, 0);
    lemma_hit_in_range(reg.get(h), pt);
    lemma_committed_wf(reg.get(h), i);
    let committed = reg.put(h, reg.get(h).committed(i));
    lemma_put_wf(reg, h, reg.get(h).committed(i));
    lemma_after_put(reg, h, reg.get(h).committed(i), root);
    lemma_after_put(reg, h, reg.get(h).committed(i), h);
    lemma_ended_keeps_rows(committed, root, h);
    crate::state::lemma_radio_exclusive(reg.get(h).items, i);
}

/// The two menus are the same but for their palettes.
pub open spec fn only_theme_differs(a: MenuView, b: MenuView) -> bool {
    b == (MenuView { theme: b.theme, ..a })
}

/// A theme change touches palettes only: every menu keeps its window, its
/// rows and its transient state, no window changes its slot, and every
/// menu stays well-formed.
pub proof fn lemma_step_theme_shape(reg: RegistryView, root: isize, is_dark: bool)
    requires
        reg.wf(),
    ensures
        reg.step_theme(root, is_dark).reg.menus.len() == reg.menus.len(),
        forall|j: int|
            0 <= j < reg.menus.len() ==> only_theme_differs(
                reg.menus[j],
                #[trigger] reg.step_theme(root, is_dark).reg.menus[j],
            ),
        same_windows(reg, reg.step_theme(root, is_dark).reg),
        crate::reach::same_submenu_rows(reg, reg.step_theme(root, is_dark).reg),
        forall|w: isize| #[trigger] reg.step_theme(root, is_dark).reg.slot(w) == reg.slot(w),
        forall|w: isize| #[trigger] reg.step_theme(root, is_dark).reg.has(w) == reg.has(w),
        reg.step_theme(root, is_dark).reg.wf(),
{
    let after = reg.step_theme(root, is_dark).reg;
    assert forall|w: isize| #[trigger] after.slot(w) == reg.slot(w) by {
        lemma_same_windows_same_slots(reg, after, w, 0);
    }
    assert forall|j: int| 0 <= j < after.menus.len() implies (#[trigger] after.menus[j]).wf() by {
        assert(reg.menus[j].wf());
    }
}

/// A theme change leaves no mixed state. After it every menu of the
/// session, the root menu and whatever is found from it through submenu
/// rows at any depth, is under the palette the host has switched to, and
/// every other menu is under the palette it had.
pub proof fn lemma_theme_change_is_complete(reg: RegistryView, root: isize, is_dark: bool)
    requires
        reg.wf(),
        reg.has(root),
    ensures
        reg.step_theme(root, is_dark).reg.get(root).theme.is_dark == is_dark,
        forall|j: int|
            0 <= j < reg.menus.len() && #[trigger] reg.step_theme(root, is_dark).reg.in_session(
                root,
                j,
            ) ==> reg.step_theme(root, is_dark).reg.menus[j].theme.is_dark == is_dark,
        forall|j: int|
            0 <= j < reg.menus.len() && !#[trigger] reg.in_session(root, j) ==> reg.step_theme(
                root,
                is_dark,
            ).reg.menus[j] == reg.menus[j],
{
    let after = reg.step_theme(root, is_dark).reg;
    lemma_step_theme_shape(reg, root, is_dark);
    lemma_slot(reg, root, 0);
    crate::reach::lemma_session_closed(reg, root, reg.slot(root), reg.slot(root));
    assert forall|j: int|
        0 <= j < reg.menus.len() && #[trigger] after.in_session(root, j) implies after.menus[j].theme.is_dark
        == is_dark by {
        lemma_same_back(reg, after);
        crate::reach::lemma_same_session(after, reg, root, j);
    }
}

proof fn lemma_same_back(a: RegistryView, b: RegistryView)
    requires
        crate::reach::same_submenu_rows(a, b),
    ensures
        crate::reach::same_submenu_rows(b, a),
{
}

/// The rows `after` are the rows `before` but for their check marks and
/// disabled flags.
pub open spec fn same_rows_but_state(before: Seq<ItemView>, after: Seq<ItemView>) -> bool {
    &&& after.len() == before.len()
    &&& forall|i: int|
        0 <= i < before.len() ==> (#[trigger] after[i]) == (ItemView {
            state: after[i].state,
            ..before[i]
        })
}

/// Round-trip id integrity, over the life of a menu. Whatever the host
/// reports, every menu keeps its rows, and every row its identifier,
/// label, payload, group, kind and place; only the state of rows changes.
pub proof fn lemma_step_keeps_rows(reg: RegistryView, root: isize, event: Event, h: isize)
    requires
        reg.wf(),
        reg.has(h),
    ensures
        reg.step(root, event).reg.has(h),
        same_rows_but_state(reg.get(h).items, reg.step(root, event).reg.get(h).items),
{
    if reg.has(root) {
        lemma_slot(reg, root, 0);
        lemma_slot(reg, h, 0);
        match event {
            Event::PointerMove { pt } => {
                let report = reg.get(root).move_report(pt);
                let followed = reg.put(root, reg.get(root).moved(pt));
                lemma_after_put(reg, root, reg.get(root).moved(pt), h);
                lemma_after_put(reg, root, reg.get(root).moved(pt), root);
                let closed = followed.hide_step(report.closed_submenu);
                if report.closed_submenu is Some {
                    let k = report.closed_submenu->0;
                    lemma_slot(followed, k, 0);
                    lemma_after_put(followed, k, followed.get(k).hidden(), h);
                    lemma_after_put(followed, k, followed.get(k).hidden(), root);
                }
                match closed.get(root).open_submenu() {
                    Some(k) => {
                        if closed.has(k) {
                            lemma_slot(closed, k, 0);
                            lemma_after_put(closed, k, closed.get(k).moved(pt), h);
                        }
                    },
                    None => {},
                }
            },
            Event::PointerDown { pt, button, window_under_pointer, owner_rects } => {
                lemma_ended_keeps_rows(reg, root, h);
            },
            Event::PointerUp { pt, window_under_pointer } => {
                match reg.commit_target(root, pt, window_under_pointer) {
                    Some((k, i)) => {
                        lemma_slot(reg, k, 0);
                        lemma_hit_in_range(reg.get(k), pt);
                        lemma_committed_wf(reg.get(k), i);
                        let committed = reg.put(k, reg.get(k).committed(i));
                        lemma_put_wf(reg, k, reg.get(k).committed(i));
                        lemma_after_put(reg, k, reg.get(k).committed(i), root);
                        lemma_after_put(reg, k, reg.get(k).committed(i), h);
                        lemma_ended_keeps_rows(committed, root, h);
                        if k == h {
                            lemma_committed_keeps_rows(reg.get(k).items, i);
                        }
                    },
                    None => {},
                }
            },
            Event::TimerFired { token, work } => {
                match reg.due_submenu(root, token as int, work) {
                    Some((k, corner)) => {
                        let opened = reg.put(root, reg.get(root).with_submenu_open(token as int));
                        lemma_after_put(reg, root, reg.get(root).with_submenu_open(token as int), h);
                        lemma_after_put(reg, root, reg.get(root).with_submenu_open(token as int), k);
                        lemma_slot(opened, k, 0);
                        lemma_after_put(opened, k, opened.get(k).shown_at(corner), h);
                    },
                    None => {},
                }
            },
            Event::ThemeChanged { is_dark } => {
                lemma_step_theme_shape(reg, root, is_dark);
                let after = reg.step_theme(root, is_dark).reg;
                assert(after.slot(h) == reg.slot(h));
                assert(only_theme_differs(reg.menus[reg.slot(h)], after.menus[reg.slot(h)]));
            },
            Event::Inactivated => {
                lemma_ended_keeps_rows(reg, root, h);
            },
            Event::Unrelated => {},
        }
    }
}

/// A commit changes the state of rows and nothing else of them.
pub proof fn lemma_committed_keeps_rows(items: Seq<ItemView>, i: int)
    requires
        0 <= i < items.len(),
    ensures
        same_rows_but_state(items, crate::state::committed_items(items, i)),
{
}

/// Round-trip id integrity. When a release of the button commits on a
/// row, the session answers with that row's identifier, label, payload
/// and group exactly as the row holds them, and with the state the
/// commit has left the row in.
pub proof fn lemma_selection_round_trip(reg: RegistryView, root: isize, pt: Point, window: isize)
    requires
        reg.wf(),
        reg.has(root),
        reg.commit_target(root, pt, window) is Some,
    ensures
        ({
            let (h, i) = reg.commit_target(root, pt, window)->0;
            let row = reg.get(h).items[i];
            &&& reg.step_up(root, pt, window).outcome matches OutcomeView::Selected(selected)
            &&& selected.id == row.id
            &&& selected.value == row.value
            &&& selected.label == row.label
            &&& selected.name == crate::item::text_or_empty(row.name)
            &&& selected.state == reg.get(h).committed(i).items[i].state
        }),
{
    let (h, i) = reg.commit_target(root, pt, window)->0;
    lemma_slot(reg, h, 0);
    lemma_hit_in_range(reg.get(h), pt);
    lemma_committed_wf(reg.get(h), i);
}

fn push_repaints(actions: &mut Vec<Action>, hwnd: isize, report: &MoveReport)
    ensures
        final(actions)@ == old(actions)@ + repaint_actions(hwnd, *report),
{
    if let Some(rect) = report.repaint_new {
        actions.push(Action::Invalidate { hwnd, rect });
    }
    if let Some(rect) = report.repaint_old {
        actions.push(Action::Invalidate { hwnd, rect });
    }
    assert(actions@ =~= old(actions)@ + repaint_actions(hwnd, *report));
}

/// Whether a point lies over one of the rectangles.
pub fn is_over_any(pt: Point, rects: &Vec<Rect>) -> (over: bool)
    ensures
        over == over_any(pt, rects@),
{
    let mut i: usize = 0;
    while i < rects.len()
        invariant
            i <= rects@.len(),
            forall|j: int| 0 <= j < i ==> !(#[trigger] rects@[j]).contains(pt),
        decreases rects@.len() - i,
    {
        if rects[i].pt_in_rect(pt) {
            return true;
        }
        i = i + 1;
    }
    false
}

impl MenuRegistry {
    /// Takes the menu of a window off the screen, if a window is named
    /// and a menu is registered for it.
    fn hide_window(&mut self, target: Option<isize>, actions: &mut Vec<Action>)
        requires
            old(self)@.wf(),
        ensures
            final(self)@ == old(self)@.hide_step(target),
            final(actions)@ == old(actions)@ + old(self)@.hide_actions(target),
            final(self)@.wf(),
            same_windows(old(self)@, final(self)@),
    {
        if let Some(h) = target {
            if let Some(i) = self.find(h) {
                assert(self@.menus[i as int] == self.menus@[i as int]@);
                self.menus[i].hide_submenu();
                actions.push(Action::HideWindow { hwnd: h });
                assert(self@.menus =~= old(self)@.menus.update(
                    i as int,
                    old(self)@.menus[i as int].hidden(),
                ));
                assert(actions@ =~= old(actions)@ + old(self)@.hide_actions(target));
                return ;
            }
        }
        assert(actions@ =~= old(actions)@ + old(self)@.hide_actions(target));
    }

    /// Ends the session of `root`: gives up the capture, hides the
    /// submenu that is shown and the root menu, and clears the transient
    /// state of both.
    fn end_session(&mut self, root: isize, actions: &mut Vec<Action>)
        requires
            old(self)@.wf(),
            old(self)@.has(root),
        ensures
            final(self)@ == old(self)@.ended(root),
            final(actions)@ == old(actions)@ + old(self)@.end_actions(root),
            final(self)@.wf(),
            final(self)@.has(root),
    {
        proof {
            lemma_ended(self@, root);
        }
        let ri = self.find(root).unwrap();
        assert(self@.menus[ri as int] == self.menus@[ri as int]@);
        let shown = self.menus[ri].init_menu_data();
        let ghost cleared = self@;
        assert(cleared.menus =~= old(self)@.menus.update(
            ri as int,
            old(self)@.menus[ri as int].reset(),
        ));
        proof {
            lemma_put_wf(old(self)@, root, old(self)@.get(root).reset());
            if shown is Some {
                lemma_after_put(old(self)@, root, old(self)@.get(root).reset(), shown->0);
            }
        }
        actions.push(Action::ReleaseCapture);
        self.hide_window(shown, actions);
        let ghost closed = self@;
        match self.find(root) {
            Some(i) => {
                assert(self@.menus[i as int] == self.menus@[i as int]@);
                self.menus[i].hide_submenu();
                assert(self@.menus =~= closed.menus.update(i as int, closed.menus[i as int].hidden()));
            },
            None => {},
        }
        actions.push(Action::HideWindow { hwnd: root });
        assert(actions@ =~= old(actions)@ + old(self)@.end_actions(root));
    }

    fn follow_pointer(&mut self, root: isize, pt: Point, actions: &mut Vec<Action>)
        requires
            old(self)@.wf(),
            old(self)@.has(root),
        ensures
            final(self)@ == old(self)@.step_move(root, pt).reg,
            final(actions)@ == old(actions)@ + old(self)@.step_move(root, pt).actions,
            final(self)@.wf(),
    {
        let ri = self.find(root).unwrap();
        assert(self@.menus[ri as int] == self.menus@[ri as int]@);
        let report = self.menus[ri].on_mouse_move(pt);
        let ghost followed = self@;
        assert(followed.menus =~= old(self)@.menus.update(
            ri as int,
            old(self)@.menus[ri as int].moved(pt),
        ));
        assert(followed.wf());
        self.hide_window(report.closed_submenu, actions);
        push_repaints(actions, root, &report);
        if let Some(token) = report.arm_timer {
            actions.push(Action::StartTimer { hwnd: root, token, delay_ms: SUBMENU_TIMEOUT_MSEC });
        }
        let ghost closed = self@;
        let ghost first = followed.hide_actions(report.closed_submenu) + repaint_actions(
            root,
            report,
        ) + timer_actions(root, report);
        assert(actions@ =~= old(actions)@ + first);
        proof {
            lemma_same_windows_same_slots(old(self)@, followed, root, 0);
            lemma_same_windows_same_slots(followed, closed, root, 0);
        }
        let at = self.find(root).unwrap();
        assert(self@.menus[at as int] == self.menus@[at as int]@);
        let shown = self.menus[at].open_submenu();
        if let Some(h) = shown {
            if let Some(si) = self.find(h) {
                assert(self@.menus[si as int] == self.menus@[si as int]@);
                let sub_report = self.menus[si].on_mouse_move(pt);
                push_repaints(actions, h, &sub_report);
                assert(self@.menus =~= closed.menus.update(
                    si as int,
                    closed.menus[si as int].moved(pt),
                ));
                assert(actions@ =~= old(actions)@ + (first + repaint_actions(h, sub_report)));
            }
        }
    }
    /// The menu of the session of `root` that the window under the
    /// pointer belongs to: the submenu that is shown, the root menu, or
    /// none of them.
    pub fn get_hwnd_from_point(&self, root: isize, window_under_pointer: isize) -> (target: Option<
        isize,
    >)
        requires
            self@.wf(),
            self@.has(root),
        ensures
            target == self@.target_of(root, window_under_pointer),
    {
        let ri = self.find(root).unwrap();
        assert(self@.menus[ri as int] == self.menus@[ri as int]@);
        if let Some(h) = self.menus[ri].open_submenu() {
            if h != 0 && window_under_pointer == h {
                return Some(h);
            }
        }
        if window_under_pointer == root {
            return Some(root);
        }
        None
    }

    fn release_button(
        &mut self,
        root: isize,
        pt: Point,
        window: isize,
        actions: &mut Vec<Action>,
    ) -> (outcome: Outcome)
        requires
            old(self)@.wf(),
            old(self)@.has(root),
        ensures
            final(self)@ == old(self)@.step_up(root, pt, window).reg,
            final(actions)@ == old(actions)@ + old(self)@.step_up(root, pt, window).actions,
            outcome@ == old(self)@.step_up(root, pt, window).outcome,
            final(self)@.wf(),
    {
        let h = match self.get_hwnd_from_point(root, window) {
            Some(h) => h,
            None => {
                assert(actions@ =~= old(actions)@ + Seq::<Action>::empty());
                return Outcome::Continue;
            },
        };
        let i = match self.find(h) {
            Some(i) => i,
            None => {
                assert(actions@ =~= old(actions)@ + Seq::<Action>::empty());
                return Outcome::Continue;
            },
        };
        assert(self@.menus[i as int] == self.menus@[i as int]@);
        proof {
            lemma_hit_in_range(self@.menus[i as int], pt);
        }
        let index = self.menus[i].index_from_point(pt);
        if index < 0 {
            assert(actions@ =~= old(actions)@ + Seq::<Action>::empty());
            return Outcome::Continue;
        }
        let row = index as usize;
        assert(self@.menus[i as int].items[row as int] == self.menus@[i as int].items@[row as int]@);
        let kind = self.menus[i].items[row].menu_type.0;
        if kind == XMT_SEPARATOR || kind == XMT_SUBMENU {
            assert(actions@ =~= old(actions)@ + Seq::<Action>::empty());
            return Outcome::Continue;
        }
        if kind == XMT_CHECKBOX {
            let rect = self.menus[i].get_item_rect(row);
            actions.push(Action::Invalidate { hwnd: h, rect });
        }
        let ghost repaint = actions@;
        let selected = self.menus[i].commit(row);
        let ghost committed = self@;
        proof {
            lemma_committed_wf(old(self)@.menus[i as int], row as int);
            assert(committed.menus =~= old(self)@.menus.update(
                i as int,
                old(self)@.menus[i as int].committed(row as int),
            ));
            lemma_put_keeps_slots(
                old(self)@,
                h,
                old(self)@.menus[i as int].committed(row as int),
                root,
            );
            assert(committed.wf());
        }
        self.end_session(root, actions);
        assert(actions@ =~= old(actions)@ + old(self)@.step_up(root, pt, window).actions);
        Outcome::Selected(selected.unwrap())
    }

    fn press_button(
        &mut self,
        root: isize,
        pt: Point,
        button: MouseButton,
        window: isize,
        owner_rects: &Vec<Rect>,
        actions: &mut Vec<Action>,
    ) -> (outcome: Outcome)
        requires
            old(self)@.wf(),
            old(self)@.has(root),
        ensures
            final(self)@ == old(self)@.step_down(root, pt, button, window, owner_rects@).reg,
            final(actions)@ == old(actions)@ + old(self)@.step_down(
                root,
                pt,
                button,
                window,
                owner_rects@,
            ).actions,
            outcome@ == old(self)@.step_down(root, pt, button, window, owner_rects@).outcome,
            final(self)@.wf(),
    {
        if self.get_hwnd_from_point(root, window).is_some() {
            assert(actions@ =~= old(actions)@ + Seq::<Action>::empty());
            return Outcome::Continue;
        }
        self.end_session(root, actions);
        if is_over_any(pt, owner_rects) {
            actions.push(Action::SendClick { pt, button });
        }
        assert(actions@ =~= old(actions)@ + old(self)@.step_down(
            root,
            pt,
            button,
            window,
            owner_rects@,
        ).actions);
        Outcome::Dismissed
    }

    fn lose_activation(&mut self, root: isize, actions: &mut Vec<Action>) -> (outcome: Outcome)
        requires
            old(self)@.wf(),
            old(self)@.has(root),
        ensures
            final(self)@ == old(self)@.step_inactive(root).reg,
            final(actions)@ == old(actions)@ + old(self)@.step_inactive(root).actions,
            outcome@ == old(self)@.step_inactive(root).outcome,
            final(self)@.wf(),
    {
        let ri = self.find(root).unwrap();
        assert(self@.menus[ri as int] == self.menus@[ri as int]@);
        if !self.menus[ri].visible {
            assert(actions@ =~= old(actions)@ + Seq::<Action>::empty());
            return Outcome::Continue;
        }
        self.end_session(root, actions);
        assert(actions@ =~= old(actions)@ + old(self)@.step_inactive(root).actions);
        Outcome::Dismissed
    }

    fn open_due_submenu(&mut self, root: isize, token: i32, work: &Rect, actions: &mut Vec<Action>)
        requires
            old(self)@.wf(),
            old(self)@.has(root),
        ensures
            final(self)@ == old(self)@.step_timer(root, token, *work).reg,
            final(actions)@ == old(actions)@ + old(self)@.step_timer(root, token, *work).actions,
            final(self)@.wf(),
    {
        actions.push(Action::StopTimer { hwnd: root, token });
        let ghost stop = seq![Action::StopTimer { hwnd: root, token }];
        assert(actions@ =~= old(actions)@ + stop);
        let ri = self.find(root).unwrap();
        assert(self@.menus[ri as int] == self.menus@[ri as int]@);
        let parent = &self.menus[ri];
        if token < 0 || token as usize >= parent.items.len() || parent.selected_index != token
            || parent.visible_submenu_index >= 0 {
            return ;
        }
        let row = token as usize;
        assert(self@.menus[ri as int].items[row as int] == self.menus@[ri as int].items@[row as int]@);
        if parent.items[row].menu_type.0 != XMT_SUBMENU {
            return ;
        }
        let h = match parent.items[row].submenu {
            Some(h) => h,
            None => {
                return ;
            },
        };
        let si = match self.find(h) {
            Some(si) => si,
            None => {
                return ;
            },
        };
        assert(self@.menus[si as int] == self.menus@[si as int]@);
        let width = self.menus[si].width;
        let height = self.menus[si].height;
        let corner = match self.menus[ri].place_submenu(row, width, height, work) {
            Some(corner) => corner,
            None => {
                return ;
            },
        };
        self.menus[ri].visible_submenu_index = token;
        let ghost opened = self@;
        assert(opened.menus =~= old(self)@.menus.update(
            ri as int,
            old(self)@.menus[ri as int].with_submenu_open(token as int),
        ));
        proof {
            lemma_put_keeps_slots(
                old(self)@,
                root,
                old(self)@.menus[ri as int].with_submenu_open(token as int),
                h,
            );
        }
        self.menus[si].origin = corner;
        self.menus[si].visible = true;
        assert(self@.menus =~= opened.menus.update(
            si as int,
            opened.menus[si as int].shown_at(corner),
        ));
        actions.push(
            Action::ShowWindow { hwnd: h, x: corner.x, y: corner.y, width, height },
        );
        assert(actions@ =~= old(actions)@ + old(self)@.step_timer(root, token, *work).actions);
    }

    fn change_theme(&mut self, root: isize, is_dark: bool, actions: &mut Vec<Action>)
        requires
            old(self)@.wf(),
            old(self)@.has(root),
        ensures
            final(self)@ == old(self)@.step_theme(root, is_dark).reg,
            final(actions)@ == old(actions)@ + old(self)@.step_theme(root, is_dark).actions,
            final(self)@.wf(),
    {
        proof {
            lemma_step_theme_shape(self@, root, is_dark);
        }
        let marks = self.session_slots(root);
        let ri = self.find(root).unwrap();
        actions.push(Action::AllowDarkMode { hwnd: root, is_dark });
        if let Some(handle) = self.theme {
            actions.push(Action::CloseTheme { handle });
        }
        actions.push(Action::OpenTheme { hwnd: root });
        actions.push(Action::UpdateWindow { hwnd: root });
        self.theme = None;
        let ghost head = seq![Action::AllowDarkMode { hwnd: root, is_dark }] + (match old(
            self,
        )@.theme {
            Some(handle) => seq![Action::CloseTheme { handle }],
            None => Seq::<Action>::empty(),
        }) + seq![Action::OpenTheme { hwnd: root }, Action::UpdateWindow { hwnd: root }];
        assert(actions@ =~= old(actions)@ + head);
        let n = self.menus.len();
        let mut k: usize = 0;
        while k < n
            invariant
                n == self.menus@.len(),
                n == old(self)@.menus.len(),
                marks@.len() == n,
                ri == old(self)@.slot(root),
                forall|j: int|
                    0 <= j < n ==> (#[trigger] marks@[j]) == old(self)@.in_session(root, j),
                k <= n,
                self.theme is None,
                self.next_subclass_id == old(self).next_subclass_id,
                forall|j: int|
                    0 <= j < k ==> (#[trigger] self.menus@[j])@ == old(self)@.themed_menus(
                        root,
                        is_dark,
                    )[j],
                forall|j: int| k <= j < n ==> (#[trigger] self.menus@[j]) == old(self).menus@[j],
                actions@ == old(actions)@ + head + old(self)@.session_updates(root, k as int),
            decreases n - k,
        {
            assert(old(self)@.menus[k as int] == old(self).menus@[k as int]@);
            if marks[k] {
                self.menus[k].theme.is_dark = is_dark;
                if k != ri {
                    let hwnd = self.menus[k].hwnd;
                    actions.push(Action::UpdateWindow { hwnd });
                }
            }
            k = k + 1;
            assert(actions@ =~= old(actions)@ + head + old(self)@.session_updates(root, k as int));
        }
        assert(self@.menus =~= old(self)@.themed_menus(root, is_dark));
        assert(actions@ =~= old(actions)@ + (head + old(self)@.session_updates(root, n as int)));
    }

    /// Feeds one event of the host into the session of `root` and says
    /// what the host is to do and how the session stands. Menus outside
    /// the session stay idle, and when the session ends every menu is
    /// idle.
    pub fn handle_event(&mut self, root: isize, event: Event) -> (reaction: Reaction)
        requires
            old(self)@.wf(),
        ensures
            final(self)@ == old(self)@.step(root, event).reg,
            reaction.actions@ == old(self)@.step(root, event).actions,
            reaction.outcome@ == old(self)@.step(root, event).outcome,
            final(self)@.wf(),
            old(self)@.has(root) && old(self)@.others_idle(root) ==> final(self)@.others_idle(root)
                && (reaction.outcome@ !is Continue ==> final(self)@.all_idle()),
    {
        proof {
            if self@.has(root) && self@.others_idle(root) {
                crate::idle::lemma_step_keeps_others_idle(self@, root, event);
            }
        }
        let mut actions: Vec<Action> = Vec::new();
        if !self.contains(root) {
            return Reaction { actions, outcome: Outcome::Dismissed };
        }
        let outcome = match event {
            Event::PointerMove { pt } => {
                self.follow_pointer(root, pt, &mut actions);
                Outcome::Continue
            },
            Event::PointerDown {
                pt,
                button,
                window_under_pointer,
                owner_rects,
            } => self.press_button(root, pt, button, window_under_pointer, &owner_rects, &mut actions),
            Event::PointerUp { pt, window_under_pointer } => self.release_button(
                root,
                pt,
                window_under_pointer,
                &mut actions,
            ),
            Event::TimerFired { token, work } => {
                self.open_due_submenu(root, token, &work, &mut actions);
                Outcome::Continue
            },
            Event::ThemeChanged { is_dark } => {
                self.change_theme(root, is_dark, &mut actions);
                Outcome::Continue
            },
            Event::Inactivated => self.lose_activation(root, &mut actions),
            Event::Unrelated => Outcome::Continue,
        };
        assert(actions@ =~= old(self)@.step(root, event).actions);
        Reaction { actions, outcome }
    }

    /// One turn of the modal loop of a popup session: feeds the event
    /// into the session of `root` and ends the session if the invoking
    /// window has stopped being the active window. `active_window` is the
    /// window the host reports as active.
    pub fn pump(&mut self, root: isize, active_window: isize, event: Event) -> (reaction: Reaction)
        requires
            old(self)@.wf(),
        ensures
            final(self)@ == old(self)@.pumped(root, active_window, event).reg,
            reaction.actions@ == old(self)@.pumped(root, active_window, event).actions,
            reaction.outcome@ == old(self)@.pumped(root, active_window, event).outcome,
            final(self)@.wf(),
            old(self)@.has(root) && old(self)@.others_idle(root) ==> final(self)@.others_idle(root)
                && (reaction.outcome@ !is Continue ==> final(self)@.all_idle()),
    {
        proof {
            if self@.has(root) && self@.others_idle(root) {
                crate::idle::lemma_pumped_keeps_others_idle(self@, root, active_window, event);
            }
        }
        let first = self.handle_event(root, event);
        let Reaction { actions, outcome } = first;
        let mut actions = actions;
        let goes_on = match &outcome {
            Outcome::Continue => true,
            _ => false,
        };
        if goes_on {
            if let Some(i) = self.find(root) {
                assert(self@.menus[i as int] == self.menus@[i as int]@);
                if self.menus[i].parent != active_window {
                    let outcome = self.lose_activation(root, &mut actions);
                    return Reaction { actions, outcome };
                }
            }
        }
        Reaction { actions, outcome }
    }

    /// Forgets the menu of a window that is being destroyed.
    pub fn destroy(&mut self, hwnd: isize) -> (actions: Vec<Action>)
        requires
            old(self)@.wf(),
        ensures
            final(self)@ == old(self)@.destroyed(hwnd),
            actions@ == old(self)@.destroy_actions(hwnd),
            final(self)@.wf(),
            old(self)@.all_idle() ==> final(self)@.all_idle(),
    {
        let mut actions: Vec<Action> = Vec::new();
        let i = match self.find(hwnd) {
            Some(i) => i,
            None => {
                return actions;
            },
        };
        assert(self@.menus[i as int] == self.menus@[i as int]@);
        let gone = self.menus.remove(i);
        assert(self@.menus =~= old(self)@.menus.remove(i as int));
        if gone.main {
            if let Some(id) = gone.win_subclass_id {
                actions.push(Action::DetachOwner { hwnd, owner: gone.parent, id });
            }
            if !self.has_root() {
                if let Some(handle) = self.theme {
                    actions.push(Action::CloseTheme { handle });
                }
                self.theme = None;
                assert(self@.menus =~= old(self)@.menus.remove(i as int));
            }
        }
        assert(actions@ =~= old(self)@.destroy_actions(hwnd));
        actions
    }
}

} // verus!
