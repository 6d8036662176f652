use popup_menu::builder::{MenuX, PopupError};
use popup_menu::config::Theme;
use popup_menu::geometry::{Point, Rect};
use popup_menu::item::{MENU_CHECKED, MENU_DISABLED, MENU_NORMAL};
use popup_menu::layout::{FontMetrics, SystemMetrics, SUBMENU_TIMEOUT_MSEC};
use popup_menu::placement::Monitors;
use popup_menu::registry::MenuRegistry;
use popup_menu::session::{is_over_any, Action, Event, MouseButton, Outcome};
use popup_menu::state::Phase;

const ROOT: isize = 100;
const SPEED: isize = 101;
const THEME: isize = 102;
const OWNER: isize = 1;

fn metrics() -> SystemMetrics {
    SystemMetrics { menu_height: 20, menu_check_width: 15, arrow_width: 17 }
}

fn font() -> Option<FontMetrics> {
    Some(FontMetrics { height: -12, weight: 400 })
}

fn work() -> Rect {
    Rect { left: 0, top: 0, right: 1920, bottom: 1080 }
}

fn monitors() -> Monitors {
    Monitors { at_point: Some(work()), at_owner: work() }
}

/// Root menu at (300, 200), 88 by 141, rows:
/// 0 text 2..27, 1 submenu 27..52, 2 checkbox 52..77, 3 separator 77..87,
/// 4 submenu 87..112, 5 disabled text 112..137.
/// The first submenu is 68 by 81, rows 2..27, 27..52, 52..77.
fn session() -> (MenuRegistry, MenuX) {
    let mut reg = MenuRegistry::new();
    let mut menu = MenuX::new(OWNER, ROOT);
    menu.text("a", "Open", None);
    let mut speed = menu.submenu("Speed", SPEED);
    menu.check("vol", "Mute", "true", false, None);
    menu.separator();
    let mut theme = menu.submenu("Theme", THEME);
    menu.text("z", "Quit", Some(true));
    speed.radio("s1", "0.5", "0.5", "speed", false, None);
    speed.radio("s2", "1", "1", "speed", false, None);
    speed.radio("s3", "2", "2", "speed", true, None);
    theme.radio("Dark", "Dark", "dark", "theme", true, None);
    theme.radio("Light", "Light", "light", "theme", true, None);
    speed.build(&mut reg, font(), &vec![20, 20, 20], &metrics()).unwrap();
    theme.build(&mut reg, font(), &vec![20, 20], &metrics()).unwrap();
    menu.build(&mut reg, font(), &vec![40, 40, 40, 0, 40, 40], &metrics()).unwrap();
    assert_eq!((menu.width, menu.height), (88, 141));
    assert_eq!((speed.width, speed.height), (68, 81));
    let started = menu.popup_at(&mut reg, 300, 200, &monitors()).unwrap();
    assert_eq!(
        started,
        vec![
            Action::ShowWindow { hwnd: ROOT, x: 300, y: 200, width: 88, height: 141 },
            Action::SetCapture { hwnd: ROOT },
        ]
    );
    (reg, menu)
}

fn root_of(reg: &MenuRegistry) -> &popup_menu::menu::MenuData {
    &reg.menus[reg.find(ROOT).unwrap()]
}

fn menu_of(reg: &MenuRegistry, hwnd: isize) -> &popup_menu::menu::MenuData {
    &reg.menus[reg.find(hwnd).unwrap()]
}

fn row_rect(row_top: i32, row_bottom: i32, width: i32) -> Rect {
    Rect { left: 1, top: row_top + 1, right: width - 1, bottom: row_bottom + 1 }
}

fn over_root_row(client_y: i32) -> Point {
    Point { x: 310, y: 200 + client_y }
}

fn open_speed(reg: &mut MenuRegistry) {
    reg.handle_event(ROOT, Event::PointerMove { pt: over_root_row(30) });
    let fired = reg.handle_event(ROOT, Event::TimerFired { token: 1, work: work() });
    assert_eq!(
        fired.actions,
        vec![
            Action::StopTimer { hwnd: ROOT, token: 1 },
            Action::ShowWindow { hwnd: SPEED, x: 383, y: 227, width: 68, height: 81 },
        ]
    );
}

#[test]
fn popup_shows_the_root_menu_where_it_was_asked_for() {
    let (reg, _) = session();
    let root = root_of(&reg);
    assert!(root.visible);
    assert_eq!(root.origin, Point { x: 300, y: 200 });
    assert_eq!((root.selected_index, root.visible_submenu_index), (-1, -1));
}

#[test]
fn popup_of_an_unbuilt_menu_fails() {
    let mut reg = MenuRegistry::new();
    let menu = MenuX::new(OWNER, ROOT);
    assert_eq!(menu.popup_at(&mut reg, 10, 10, &monitors()), Err(PopupError::NotBuilt));
}

#[test]
fn popup_that_cannot_be_placed_fails_and_shows_nothing() {
    let (mut reg, menu) = session();
    let odd = Rect { left: i32::MIN, top: 0, right: i32::MIN + 10, bottom: 1080 };
    let monitors = Monitors { at_point: None, at_owner: odd };
    let at = menu_of(&reg, ROOT).origin;
    assert_eq!(menu.popup_at(&mut reg, i32::MIN + 5, 10, &monitors), Err(PopupError::OffScreen));
    assert_eq!(menu_of(&reg, ROOT).origin, at);
}

#[test]
fn pointer_over_a_row_selects_and_repaints_it() {
    let (mut reg, _) = session();
    let reaction = reg.handle_event(ROOT, Event::PointerMove { pt: over_root_row(10) });
    assert!(matches!(reaction.outcome, Outcome::Continue));
    assert_eq!(reaction.actions, vec![Action::Invalidate { hwnd: ROOT, rect: row_rect(2, 27, 88) }]);
    assert_eq!(root_of(&reg).selected_index, 0);
    let reaction = reg.handle_event(ROOT, Event::PointerMove { pt: over_root_row(60) });
    assert_eq!(
        reaction.actions,
        vec![
            Action::Invalidate { hwnd: ROOT, rect: row_rect(52, 77, 88) },
            Action::Invalidate { hwnd: ROOT, rect: row_rect(2, 27, 88) },
        ]
    );
    assert_eq!(root_of(&reg).selected_index, 2);
    let again = reg.handle_event(ROOT, Event::PointerMove { pt: over_root_row(61) });
    assert!(again.actions.is_empty());
}

#[test]
fn pointer_leaving_the_menu_clears_the_selection() {
    let (mut reg, _) = session();
    reg.handle_event(ROOT, Event::PointerMove { pt: over_root_row(10) });
    let reaction = reg.handle_event(ROOT, Event::PointerMove { pt: Point { x: 10, y: 10 } });
    assert_eq!(reaction.actions, vec![Action::Invalidate { hwnd: ROOT, rect: row_rect(2, 27, 88) }]);
    assert_eq!(root_of(&reg).selected_index, -1);
}

#[test]
fn pointer_over_a_separator_selects_nothing() {
    let (mut reg, _) = session();
    let reaction = reg.handle_event(ROOT, Event::PointerMove { pt: over_root_row(83) });
    assert!(reaction.actions.is_empty());
    assert_eq!(root_of(&reg).selected_index, -1);
}

#[test]
fn entering_a_submenu_row_starts_the_delay_and_opens_nothing_yet() {
    let (mut reg, _) = session();
    let reaction = reg.handle_event(ROOT, Event::PointerMove { pt: over_root_row(30) });
    assert_eq!(SUBMENU_TIMEOUT_MSEC, 400);
    assert_eq!(
        reaction.actions,
        vec![
            Action::Invalidate { hwnd: ROOT, rect: row_rect(27, 52, 88) },
            Action::StartTimer { hwnd: ROOT, token: 1, delay_ms: 400 },
        ]
    );
    assert_eq!(root_of(&reg).visible_submenu_index, -1);
    assert!(!menu_of(&reg, SPEED).visible);
}

#[test]
fn delay_running_out_opens_the_submenu_beside_its_row() {
    let (mut reg, _) = session();
    open_speed(&mut reg);
    assert_eq!(root_of(&reg).visible_submenu_index, 1);
    let speed = menu_of(&reg, SPEED);
    assert!(speed.visible);
    assert_eq!(speed.origin, Point { x: 383, y: 227 });
}

#[test]
fn delay_running_out_after_the_pointer_moved_on_opens_nothing() {
    let (mut reg, _) = session();
    reg.handle_event(ROOT, Event::PointerMove { pt: over_root_row(30) });
    reg.handle_event(ROOT, Event::PointerMove { pt: over_root_row(10) });
    let fired = reg.handle_event(ROOT, Event::TimerFired { token: 1, work: work() });
    assert_eq!(fired.actions, vec![Action::StopTimer { hwnd: ROOT, token: 1 }]);
    assert_eq!(root_of(&reg).visible_submenu_index, -1);
    assert!(!menu_of(&reg, SPEED).visible);
}

#[test]
fn delay_for_a_row_that_opens_nothing_is_only_stopped() {
    let (mut reg, _) = session();
    reg.handle_event(ROOT, Event::PointerMove { pt: over_root_row(10) });
    for token in [0, -1, 6, 99] {
        let fired = reg.handle_event(ROOT, Event::TimerFired { token, work: work() });
        assert_eq!(fired.actions, vec![Action::StopTimer { hwnd: ROOT, token }]);
        assert_eq!(root_of(&reg).visible_submenu_index, -1);
    }
}

#[test]
fn pointer_in_the_open_submenu_keeps_it_open_and_selects_there() {
    let (mut reg, _) = session();
    open_speed(&mut reg);
    let in_submenu = Point { x: 400, y: 227 + 30 };
    let reaction = reg.handle_event(ROOT, Event::PointerMove { pt: in_submenu });
    assert_eq!(reaction.actions, vec![Action::Invalidate { hwnd: SPEED, rect: row_rect(27, 52, 68) }]);
    assert_eq!(root_of(&reg).selected_index, 1);
    assert_eq!(root_of(&reg).visible_submenu_index, 1);
    assert_eq!(menu_of(&reg, SPEED).selected_index, 1);
}

#[test]
fn moving_to_another_row_hides_the_open_submenu_at_once() {
    let (mut reg, _) = session();
    open_speed(&mut reg);
    reg.handle_event(ROOT, Event::PointerMove { pt: Point { x: 400, y: 227 + 30 } });
    let reaction = reg.handle_event(ROOT, Event::PointerMove { pt: over_root_row(10) });
    assert_eq!(
        reaction.actions,
        vec![
            Action::HideWindow { hwnd: SPEED },
            Action::Invalidate { hwnd: ROOT, rect: row_rect(2, 27, 88) },
            Action::Invalidate { hwnd: ROOT, rect: row_rect(27, 52, 88) },
        ]
    );
    assert_eq!(root_of(&reg).visible_submenu_index, -1);
    let speed = menu_of(&reg, SPEED);
    assert!(!speed.visible);
    assert_eq!(speed.selected_index, -1);
}

#[test]
fn at_most_one_submenu_is_open_at_any_time() {
    let (mut reg, _) = session();
    open_speed(&mut reg);
    let reaction = reg.handle_event(ROOT, Event::PointerMove { pt: over_root_row(100) });
    assert_eq!(
        reaction.actions,
        vec![
            Action::HideWindow { hwnd: SPEED },
            Action::Invalidate { hwnd: ROOT, rect: row_rect(87, 112, 88) },
            Action::Invalidate { hwnd: ROOT, rect: row_rect(27, 52, 88) },
            Action::StartTimer { hwnd: ROOT, token: 4, delay_ms: 400 },
        ]
    );
    assert!(!menu_of(&reg, SPEED).visible);
    assert!(!menu_of(&reg, THEME).visible);
    reg.handle_event(ROOT, Event::TimerFired { token: 4, work: work() });
    assert_eq!(root_of(&reg).visible_submenu_index, 4);
    assert!(!menu_of(&reg, SPEED).visible);
    assert!(menu_of(&reg, THEME).visible);
    // a stale delay for the first submenu opens nothing beside the second
    let stale = reg.handle_event(ROOT, Event::TimerFired { token: 1, work: work() });
    assert_eq!(stale.actions, vec![Action::StopTimer { hwnd: ROOT, token: 1 }]);
    assert!(!menu_of(&reg, SPEED).visible);
    assert_eq!(root_of(&reg).visible_submenu_index, 4);
}

#[test]
fn commit_on_a_checkbox_flips_it_and_hands_its_id_and_value_back() {
    let (mut reg, _) = session();
    let reaction = reg.handle_event(ROOT, Event::PointerUp { pt: over_root_row(60), window_under_pointer: ROOT });
    match reaction.outcome {
        Outcome::Selected(item) => {
            assert_eq!(item.id, "vol");
            assert_eq!(item.label, "Mute");
            assert_eq!(item.value, "true");
            assert_eq!(item.name, "");
            assert_eq!(item.state.0, MENU_NORMAL | MENU_CHECKED);
        }
        _ => panic!("the commit did not select"),
    }
    assert_eq!(
        reaction.actions,
        vec![
            Action::Invalidate { hwnd: ROOT, rect: row_rect(52, 77, 88) },
            Action::ReleaseCapture,
            Action::HideWindow { hwnd: ROOT },
        ]
    );
    let root = root_of(&reg);
    assert_eq!(root.items[2].state.0, MENU_NORMAL | MENU_CHECKED);
    assert!(!root.visible);
    assert_eq!((root.selected_index, root.visible_submenu_index), (-1, -1));
}

#[test]
fn second_commit_on_a_checkbox_clears_it_again() {
    let (mut reg, menu) = session();
    reg.handle_event(ROOT, Event::PointerUp { pt: over_root_row(60), window_under_pointer: ROOT });
    menu.popup_at(&mut reg, 300, 200, &monitors()).unwrap();
    let reaction = reg.handle_event(ROOT, Event::PointerUp { pt: over_root_row(60), window_under_pointer: ROOT });
    match reaction.outcome {
        Outcome::Selected(item) => assert_eq!(item.state.0, MENU_NORMAL),
        _ => panic!("the commit did not select"),
    }
    assert_eq!(root_of(&reg).items[2].state.0, MENU_NORMAL);
}

#[test]
fn commit_in_the_open_submenu_chooses_within_its_group_and_ends_the_session() {
    let (mut reg, _) = session();
    open_speed(&mut reg);
    let in_submenu = Point { x: 400, y: 227 + 30 };
    reg.handle_event(ROOT, Event::PointerMove { pt: in_submenu });
    let reaction = reg.handle_event(ROOT, Event::PointerUp { pt: in_submenu, window_under_pointer: SPEED });
    match reaction.outcome {
        Outcome::Selected(item) => {
            assert_eq!(item.id, "s2");
            assert_eq!(item.value, "1");
            assert_eq!(item.name, "speed");
            assert_eq!(item.state.0, MENU_NORMAL | MENU_CHECKED);
        }
        _ => panic!("the commit did not select"),
    }
    assert_eq!(
        reaction.actions,
        vec![
            Action::ReleaseCapture,
            Action::HideWindow { hwnd: SPEED },
            Action::HideWindow { hwnd: ROOT },
        ]
    );
    let speed = menu_of(&reg, SPEED);
    let marks: Vec<bool> = speed.items.iter().map(|i| i.state.0 & MENU_CHECKED != 0).collect();
    assert_eq!(marks, vec![false, true, false]);
    assert!(!speed.visible);
    assert_eq!(speed.selected_index, -1);
    let root = root_of(&reg);
    assert!(!root.visible);
    assert_eq!((root.selected_index, root.visible_submenu_index), (-1, -1));
}

#[test]
fn commit_on_a_radio_row_leaves_exactly_one_of_its_group_checked() {
    let (mut reg, _) = session();
    reg.handle_event(ROOT, Event::PointerMove { pt: over_root_row(100) });
    reg.handle_event(ROOT, Event::TimerFired { token: 4, work: work() });
    let theme_at = menu_of(&reg, THEME).origin;
    assert_eq!(theme_at, Point { x: 383, y: 287 });
    // both rows of the group start out checked; the commit is on the second
    let pt = Point { x: theme_at.x + 10, y: theme_at.y + 40 };
    let reaction = reg.handle_event(ROOT, Event::PointerUp { pt, window_under_pointer: THEME });
    assert!(matches!(reaction.outcome, Outcome::Selected(_)));
    let marks: Vec<bool> =
        menu_of(&reg, THEME).items.iter().map(|i| i.state.0 & MENU_CHECKED != 0).collect();
    assert_eq!(marks, vec![false, true]);
    // the group of the other submenu is not touched
    let other: Vec<bool> =
        menu_of(&reg, SPEED).items.iter().map(|i| i.state.0 & MENU_CHECKED != 0).collect();
    assert_eq!(other, vec![false, false, true]);
}

#[test]
fn commit_on_a_disabled_row_still_answers_with_it() {
    let (mut reg, _) = session();
    let reaction = reg.handle_event(ROOT, Event::PointerUp { pt: over_root_row(120), window_under_pointer: ROOT });
    match reaction.outcome {
        Outcome::Selected(item) => {
            assert_eq!(item.id, "z");
            assert_eq!(item.value, "");
            assert_eq!(item.state.0, MENU_NORMAL | MENU_DISABLED);
        }
        _ => panic!("the commit did not select"),
    }
}

#[test]
fn release_over_a_separator_a_submenu_row_or_no_row_changes_nothing() {
    let (mut reg, _) = session();
    for y in [83, 30, 100, 0, 1, 141] {
        let reaction =
            reg.handle_event(ROOT, Event::PointerUp { pt: over_root_row(y), window_under_pointer: ROOT });
        assert!(matches!(reaction.outcome, Outcome::Continue));
        assert!(reaction.actions.is_empty());
        assert!(root_of(&reg).visible);
    }
}

#[test]
fn release_over_a_foreign_window_changes_nothing() {
    let (mut reg, _) = session();
    let reaction = reg.handle_event(ROOT, Event::PointerUp { pt: over_root_row(60), window_under_pointer: 999 });
    assert!(matches!(reaction.outcome, Outcome::Continue));
    assert!(reaction.actions.is_empty());
    assert_eq!(root_of(&reg).items[2].state.0, MENU_NORMAL);
}

#[test]
fn release_on_the_edge_between_two_rows_goes_to_the_lower_one() {
    let (mut reg, _) = session();
    // 52 is the lower edge of the submenu row and the upper edge of the checkbox
    let reaction = reg.handle_event(ROOT, Event::PointerUp { pt: over_root_row(52), window_under_pointer: ROOT });
    match reaction.outcome {
        Outcome::Selected(item) => assert_eq!(item.id, "vol"),
        _ => panic!("the commit did not select"),
    }
}

#[test]
fn press_outside_dismisses_and_is_delivered_to_the_owner_below() {
    let (mut reg, _) = session();
    open_speed(&mut reg);
    let pt = Point { x: 50, y: 60 };
    let reaction = reg.handle_event(
        ROOT,
        Event::PointerDown {
            pt,
            button: MouseButton::Right,
            window_under_pointer: 999,
            owner_rects: vec![Rect { left: 0, top: 0, right: 800, bottom: 600 }],
        },
    );
    assert!(matches!(reaction.outcome, Outcome::Dismissed));
    assert_eq!(
        reaction.actions,
        vec![
            Action::ReleaseCapture,
            Action::HideWindow { hwnd: SPEED },
            Action::HideWindow { hwnd: ROOT },
            Action::SendClick { pt, button: MouseButton::Right },
        ]
    );
    let root = root_of(&reg);
    assert!(!root.visible);
    assert_eq!((root.selected_index, root.visible_submenu_index), (-1, -1));
    assert!(!menu_of(&reg, SPEED).visible);
}

#[test]
fn press_outside_and_off_the_owner_is_not_delivered_again() {
    let (mut reg, _) = session();
    let pt = Point { x: 1500, y: 900 };
    let reaction = reg.handle_event(
        ROOT,
        Event::PointerDown {
            pt,
            button: MouseButton::Left,
            window_under_pointer: 999,
            owner_rects: vec![Rect { left: 0, top: 0, right: 800, bottom: 600 }],
        },
    );
    assert!(matches!(reaction.outcome, Outcome::Dismissed));
    assert_eq!(reaction.actions, vec![Action::ReleaseCapture, Action::HideWindow { hwnd: ROOT }]);
}

#[test]
fn press_inside_a_window_of_the_session_changes_nothing() {
    let (mut reg, _) = session();
    open_speed(&mut reg);
    for window in [ROOT, SPEED] {
        let reaction = reg.handle_event(
            ROOT,
            Event::PointerDown {
                pt: over_root_row(10),
                button: MouseButton::Left,
                window_under_pointer: window,
                owner_rects: vec![Rect { left: 0, top: 0, right: 800, bottom: 600 }],
            },
        );
        assert!(matches!(reaction.outcome, Outcome::Continue));
        assert!(reaction.actions.is_empty());
    }
    assert_eq!(root_of(&reg).visible_submenu_index, 1);
}

#[test]
fn point_over_a_rectangle_counts_left_and_top_edges_only() {
    let rects = vec![Rect { left: 0, top: 0, right: 10, bottom: 10 }, Rect { left: 20, top: 20, right: 30, bottom: 30 }];
    assert!(is_over_any(Point { x: 0, y: 0 }, &rects));
    assert!(is_over_any(Point { x: 29, y: 20 }, &rects));
    assert!(!is_over_any(Point { x: 10, y: 5 }, &rects));
    assert!(!is_over_any(Point { x: 5, y: 10 }, &rects));
    assert!(!is_over_any(Point { x: 15, y: 15 }, &rects));
    assert!(!is_over_any(Point { x: 5, y: 5 }, &Vec::new()));
}

#[test]
fn losing_activation_dismisses_a_visible_session() {
    let (mut reg, _) = session();
    open_speed(&mut reg);
    let reaction = reg.handle_event(ROOT, Event::Inactivated);
    assert!(matches!(reaction.outcome, Outcome::Dismissed));
    assert_eq!(
        reaction.actions,
        vec![Action::ReleaseCapture, Action::HideWindow { hwnd: SPEED }, Action::HideWindow { hwnd: ROOT }]
    );
    let again = reg.handle_event(ROOT, Event::Inactivated);
    assert!(matches!(again.outcome, Outcome::Continue));
    assert!(again.actions.is_empty());
}

#[test]
fn pump_ends_the_session_when_the_owner_is_not_active() {
    let (mut reg, _) = session();
    let reaction = reg.pump(ROOT, OWNER, Event::PointerMove { pt: over_root_row(10) });
    assert!(matches!(reaction.outcome, Outcome::Continue));
    assert_eq!(reaction.actions.len(), 1);
    let reaction = reg.pump(ROOT, 555, Event::PointerMove { pt: over_root_row(60) });
    assert!(matches!(reaction.outcome, Outcome::Dismissed));
    assert_eq!(
        reaction.actions,
        vec![
            Action::Invalidate { hwnd: ROOT, rect: row_rect(52, 77, 88) },
            Action::Invalidate { hwnd: ROOT, rect: row_rect(2, 27, 88) },
            Action::ReleaseCapture,
            Action::HideWindow { hwnd: ROOT },
        ]
    );
}

#[test]
fn pump_lets_a_selection_stand_although_the_owner_is_not_active() {
    let (mut reg, _) = session();
    let reaction = reg.pump(ROOT, 555, Event::PointerUp { pt: over_root_row(10), window_under_pointer: ROOT });
    match reaction.outcome {
        Outcome::Selected(item) => assert_eq!(item.id, "a"),
        _ => panic!("the commit did not select"),
    }
    assert_eq!(reaction.actions, vec![Action::ReleaseCapture, Action::HideWindow { hwnd: ROOT }]);
}

#[test]
fn unrelated_input_leaves_the_session_alone() {
    let (mut reg, _) = session();
    reg.handle_event(ROOT, Event::PointerMove { pt: over_root_row(10) });
    let reaction = reg.pump(ROOT, OWNER, Event::Unrelated);
    assert!(matches!(reaction.outcome, Outcome::Continue));
    assert!(reaction.actions.is_empty());
    assert_eq!(root_of(&reg).selected_index, 0);
    let reaction = reg.pump(ROOT, 555, Event::Unrelated);
    assert!(matches!(reaction.outcome, Outcome::Dismissed));
    assert_eq!(reaction.actions, vec![Action::ReleaseCapture, Action::HideWindow { hwnd: ROOT }]);
}

#[test]
fn event_for_a_window_without_a_menu_finds_the_session_over() {
    let (mut reg, _) = session();
    let reaction = reg.handle_event(12345, Event::PointerMove { pt: over_root_row(10) });
    assert!(matches!(reaction.outcome, Outcome::Dismissed));
    assert!(reaction.actions.is_empty());
    assert_eq!(root_of(&reg).selected_index, -1);
}

#[test]
fn theme_change_reaches_the_root_menu_and_every_submenu() {
    let (mut reg, menu) = session();
    assert_eq!(menu.theme(&reg), Theme::Light);
    let reaction = reg.handle_event(ROOT, Event::ThemeChanged { is_dark: true });
    assert!(matches!(reaction.outcome, Outcome::Continue));
    assert_eq!(
        reaction.actions,
        vec![
            Action::AllowDarkMode { hwnd: ROOT, is_dark: true },
            Action::OpenTheme { hwnd: ROOT },
            Action::UpdateWindow { hwnd: ROOT },
            Action::UpdateWindow { hwnd: SPEED },
            Action::UpdateWindow { hwnd: THEME },
        ]
    );
    for hwnd in [ROOT, SPEED, THEME] {
        assert!(menu_of(&reg, hwnd).theme.is_dark);
    }
    assert_eq!(menu.theme(&reg), Theme::Dark);
    reg.install_theme(77);
    assert_eq!(reg.get_theme(SPEED), Some(77));
    assert_eq!(reg.get_theme(999), None);
    let back = menu.set_theme(&mut reg, Theme::Light);
    assert_eq!(back.actions[0], Action::AllowDarkMode { hwnd: ROOT, is_dark: false });
    assert_eq!(back.actions[1], Action::CloseTheme { handle: 77 });
    assert_eq!(back.actions[2], Action::OpenTheme { hwnd: ROOT });
    assert_eq!(back.actions.len(), 6);
    assert_eq!(reg.theme, None);
    for hwnd in [ROOT, SPEED, THEME] {
        assert!(!menu_of(&reg, hwnd).theme.is_dark);
    }
}

#[test]
fn destroying_the_last_root_menu_closes_the_theme() {
    let (mut reg, _) = session();
    reg.install_theme(77);
    assert!(reg.destroy(SPEED).is_empty());
    assert!(!reg.contains(SPEED));
    assert_eq!(reg.theme, Some(77));
    let actions = reg.destroy(ROOT);
    assert_eq!(
        actions,
        vec![Action::DetachOwner { hwnd: ROOT, owner: OWNER, id: 400 }, Action::CloseTheme { handle: 77 }]
    );
    assert!(!reg.contains(ROOT));
    assert_eq!(reg.theme, None);
    assert!(reg.destroy(ROOT).is_empty());
    assert!(reg.contains(THEME));
}

#[test]
fn destroying_one_of_two_root_menus_keeps_the_theme() {
    let (mut reg, _) = session();
    let mut other = MenuX::new(OWNER, 200);
    other.text("x", "Other", None);
    other.build(&mut reg, font(), &vec![30], &metrics()).unwrap();
    reg.install_theme(77);
    assert_eq!(reg.destroy(ROOT), vec![Action::DetachOwner { hwnd: ROOT, owner: OWNER, id: 400 }]);
    assert_eq!(reg.theme, Some(77));
    assert_eq!(
        reg.destroy(200),
        vec![Action::DetachOwner { hwnd: 200, owner: OWNER, id: 401 }, Action::CloseTheme { handle: 77 }]
    );
}

#[test]
fn submenu_whose_window_is_gone_is_passed_over() {
    let (mut reg, _) = session();
    reg.destroy(SPEED);
    reg.handle_event(ROOT, Event::PointerMove { pt: over_root_row(30) });
    let fired = reg.handle_event(ROOT, Event::TimerFired { token: 1, work: work() });
    assert_eq!(fired.actions, vec![Action::StopTimer { hwnd: ROOT, token: 1 }]);
    assert_eq!(root_of(&reg).visible_submenu_index, -1);
}

#[test]
fn menu_goes_through_its_phases() {
    let (mut reg, _) = session();
    assert_eq!(root_of(&reg).phase(), Phase::Idle);
    reg.handle_event(ROOT, Event::PointerMove { pt: over_root_row(10) });
    assert_eq!(root_of(&reg).phase(), Phase::Hovering(0));
    reg.handle_event(ROOT, Event::PointerMove { pt: over_root_row(30) });
    assert_eq!(root_of(&reg).phase(), Phase::SubmenuPending(1));
    reg.handle_event(ROOT, Event::TimerFired { token: 1, work: work() });
    assert_eq!(root_of(&reg).phase(), Phase::SubmenuOpen(1));
    reg.handle_event(ROOT, Event::PointerMove { pt: Point { x: 400, y: 227 + 30 } });
    assert_eq!(root_of(&reg).phase(), Phase::SubmenuOpen(1));
    assert_eq!(menu_of(&reg, SPEED).phase(), Phase::Hovering(1));
    reg.handle_event(ROOT, Event::PointerMove { pt: over_root_row(100) });
    assert_eq!(root_of(&reg).phase(), Phase::SubmenuPending(4));
    assert_eq!(menu_of(&reg, SPEED).phase(), Phase::Idle);
    reg.handle_event(ROOT, Event::Inactivated);
    assert_eq!(root_of(&reg).phase(), Phase::Idle);
}

#[test]
fn theme_change_reaches_submenus_at_every_depth() {
    let mut reg = MenuRegistry::new();
    let mut root = MenuX::new(OWNER, 10);
    let mut first = root.submenu("First", 11);
    let mut second = first.submenu("Second", 12);
    let mut third = second.submenu("Third", 13);
    third.text("leaf", "Leaf", None);
    // the deepest menu leads back to the first: the walk must not go round for ever
    let _again = third.submenu("Again", 11);
    let mut other = MenuX::new(OWNER, 20);
    let mut others_child = other.submenu("Child", 21);
    others_child.text("x", "X", None);
    root.build(&mut reg, font(), &vec![40], &metrics()).unwrap();
    other.build(&mut reg, font(), &vec![40], &metrics()).unwrap();
    third.build(&mut reg, font(), &vec![40, 40], &metrics()).unwrap();
    others_child.build(&mut reg, font(), &vec![40], &metrics()).unwrap();
    first.build(&mut reg, font(), &vec![40], &metrics()).unwrap();
    second.build(&mut reg, font(), &vec![40], &metrics()).unwrap();
    assert_eq!(reg.session_slots(10), vec![true, false, true, false, true, true]);
    assert_eq!(reg.session_slots(20), vec![false, true, false, true, false, false]);
    assert_eq!(reg.session_slots(12), vec![false, false, true, false, true, true]);
    assert_eq!(reg.session_slots(999), vec![false; 6]);
    let reaction = reg.handle_event(10, Event::ThemeChanged { is_dark: true });
    assert_eq!(
        reaction.actions,
        vec![
            Action::AllowDarkMode { hwnd: 10, is_dark: true },
            Action::OpenTheme { hwnd: 10 },
            Action::UpdateWindow { hwnd: 10 },
            Action::UpdateWindow { hwnd: 13 },
            Action::UpdateWindow { hwnd: 11 },
            Action::UpdateWindow { hwnd: 12 },
        ]
    );
    for hwnd in [10, 11, 12, 13] {
        assert!(menu_of(&reg, hwnd).theme.is_dark, "menu {hwnd}");
    }
    for hwnd in [20, 21] {
        assert!(!menu_of(&reg, hwnd).theme.is_dark, "menu {hwnd}");
    }
}

#[test]
fn every_menu_is_idle_when_a_session_has_ended() {
    let (mut reg, _) = session();
    open_speed(&mut reg);
    reg.handle_event(ROOT, Event::PointerMove { pt: Point { x: 400, y: 227 + 30 } });
    assert_eq!(menu_of(&reg, THEME).phase(), Phase::Idle);
    assert_ne!(menu_of(&reg, SPEED).phase(), Phase::Idle);
    reg.handle_event(ROOT, Event::PointerMove { pt: over_root_row(100) });
    assert_eq!(menu_of(&reg, SPEED).phase(), Phase::Idle);
    reg.handle_event(ROOT, Event::TimerFired { token: 4, work: work() });
    reg.handle_event(ROOT, Event::PointerMove { pt: Point { x: 390, y: 287 + 10 } });
    assert_ne!(menu_of(&reg, THEME).phase(), Phase::Idle);
    assert_eq!(menu_of(&reg, SPEED).phase(), Phase::Idle);
    reg.handle_event(ROOT, Event::Inactivated);
    for menu in reg.menus.iter() {
        assert_eq!((menu.selected_index, menu.visible_submenu_index), (-1, -1));
    }
}

#[test]
fn radio_row_is_chosen_within_its_group_only() {
    let (mut reg, _) = session();
    let slot = reg.find(THEME).unwrap();
    let menu = &mut reg.menus[slot];
    menu.items[0].name = Some("other".to_string());
    assert!(menu.items[1].menu_type.0 == popup_menu::item::XMT_RADIO && menu.items[1].name.is_some());
    menu.toggle_radio(1);
    let marks: Vec<bool> = menu.items.iter().map(|i| i.state.0 & MENU_CHECKED != 0).collect();
    // the first row is of another group now and keeps its mark
    assert_eq!(marks, vec![true, true]);
    menu.items[0].name = Some("theme".to_string());
    menu.toggle_radio(1);
    let marks: Vec<bool> = menu.items.iter().map(|i| i.state.0 & MENU_CHECKED != 0).collect();
    assert_eq!(marks, vec![false, true]);
}
