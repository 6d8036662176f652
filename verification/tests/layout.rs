use popup_menu::builder::MenuX;
use popup_menu::config::{Config, MenuSize, MenuTheme};
use popup_menu::item::{InnerMenuItem, MenuItemState, MENU_NORMAL, MENU_TYPE, XMT_SEPARATOR, XMT_STRING};
use popup_menu::layout::{
    get_font, layout_items, measure_item, BuildError, FontMetrics, SystemMetrics, ACCELERATOR_SPACING,
    LR_BUTTON_SIZE,
};
use popup_menu::registry::MenuRegistry;
use popup_menu::session::Action;

fn metrics() -> SystemMetrics {
    SystemMetrics { menu_height: 20, menu_check_width: 15, arrow_width: 17 }
}

fn font() -> Option<FontMetrics> {
    Some(FontMetrics { height: -12, weight: 400 })
}

fn sample(hwnd: isize) -> MenuX {
    let mut menu = MenuX::new(1, hwnd);
    menu.text("a", "Open", None);
    menu.separator();
    menu.radio("b1", "25%", "0.25", "speed", false, None);
    menu.radio("b2", "50%", "0.5", "speed", true, None);
    menu
}

#[test]
fn text_row_is_measured_by_the_formula() {
    let size = MenuSize::default();
    let item = InnerMenuItem::new("a", "Open", "", None, None, MenuItemState(MENU_NORMAL), MENU_TYPE(XMT_STRING));
    let measured = measure_item(&size, &item, font(), 40, &metrics());
    // 40 + 2*5 + 2*25 - (15 - 1) wide; max(12 + 12, 25) high
    assert_eq!(measured, Ok((86, 25)));
}

#[test]
fn accelerator_adds_its_spacing() {
    let size = MenuSize::default();
    let item = InnerMenuItem::new(
        "a",
        "Open",
        "",
        Some("Ctrl+O"),
        None,
        MenuItemState(MENU_NORMAL),
        MENU_TYPE(XMT_STRING),
    );
    let measured = measure_item(&size, &item, font(), 90, &metrics());
    assert_eq!(ACCELERATOR_SPACING, 30);
    assert_eq!(measured, Ok((90 + 10 + 50 + 30 - 14, 25)));
}

#[test]
fn tall_font_makes_a_tall_row() {
    let size = MenuSize::default();
    let item = InnerMenuItem::new("a", "Open", "", None, None, MenuItemState(MENU_NORMAL), MENU_TYPE(XMT_STRING));
    let big = Some(FontMetrics { height: 30, weight: 400 });
    assert_eq!(measure_item(&size, &item, big, 40, &metrics()), Ok((86, 42)));
    let big_negative = Some(FontMetrics { height: -30, weight: 400 });
    assert_eq!(measure_item(&size, &item, big_negative, 40, &metrics()), Ok((86, 42)));
}

#[test]
fn row_is_never_lower_than_the_check_mark() {
    let size = MenuSize { item_vertical_padding: 0, ..MenuSize::default() };
    let item = InnerMenuItem::new("a", "Open", "", None, None, MenuItemState(MENU_NORMAL), MENU_TYPE(XMT_STRING));
    let small = Some(FontMetrics { height: -8, weight: 400 });
    assert_eq!(measure_item(&size, &item, small, 40, &metrics()), Ok((86, LR_BUTTON_SIZE)));
}

#[test]
fn separator_takes_half_the_host_row_height() {
    let size = MenuSize::default();
    let item = InnerMenuItem::new("", "", "", None, None, MenuItemState(MENU_NORMAL), MENU_TYPE(XMT_SEPARATOR));
    assert_eq!(measure_item(&size, &item, None, 0, &metrics()), Ok((0, 10)));
    let odd = SystemMetrics { menu_height: 19, menu_check_width: 15, arrow_width: 17 };
    assert_eq!(measure_item(&size, &item, None, 0, &odd), Ok((0, 10)));
    let unit = SystemMetrics { menu_height: 1, menu_check_width: 15, arrow_width: 17 };
    assert_eq!(measure_item(&size, &item, None, 0, &unit), Ok((0, 1)));
    let none = SystemMetrics { menu_height: 0, menu_check_width: 15, arrow_width: 17 };
    assert_eq!(measure_item(&size, &item, None, 0, &none), Ok((0, 0)));
    let largest = SystemMetrics { menu_height: u16::MAX, menu_check_width: 15, arrow_width: 17 };
    assert_eq!(measure_item(&size, &item, None, 0, &largest), Ok((0, 32768)));
}

#[test]
fn measuring_text_without_a_font_fails() {
    let size = MenuSize::default();
    let item = InnerMenuItem::new("a", "Open", "", None, None, MenuItemState(MENU_NORMAL), MENU_TYPE(XMT_STRING));
    assert_eq!(measure_item(&size, &item, None, 40, &metrics()), Err(BuildError::FontUnavailable));
}

#[test]
fn measuring_an_enormous_text_fails() {
    let size = MenuSize::default();
    let item = InnerMenuItem::new("a", "Open", "", None, None, MenuItemState(MENU_NORMAL), MENU_TYPE(XMT_STRING));
    assert_eq!(measure_item(&size, &item, font(), i32::MAX, &metrics()), Err(BuildError::TooLarge));
}

#[test]
fn dark_theme_takes_the_bold_font() {
    let base = FontMetrics { height: -12, weight: 400 };
    assert_eq!(get_font(true, Some(base)), Ok(FontMetrics { height: -12, weight: 700 }));
    assert_eq!(get_font(false, Some(base)), Ok(base));
    assert_eq!(get_font(true, None), Err(BuildError::FontUnavailable));
    assert_eq!(get_font(false, None), Err(BuildError::FontUnavailable));
}

#[test]
fn build_places_every_row_and_sizes_the_menu() {
    let mut reg = MenuRegistry::new();
    let mut menu = sample(100);
    let widths = vec![40, 0, 30, 30];
    assert!(!reg.contains(100));
    let actions = menu.build(&mut reg, font(), &widths, &metrics()).unwrap();
    let edges: Vec<(i32, i32, i32)> = menu.items.iter().map(|i| (i.index, i.top, i.bottom)).collect();
    assert_eq!(edges, vec![(0, 2, 27), (1, 27, 37), (2, 37, 62), (3, 62, 87)]);
    // widest row 86, frame of 1 on both sides
    assert_eq!(menu.width, 88);
    // rows 85 high together, margin 2 and frame 1 above and below
    assert_eq!(menu.height, 91);
    assert_eq!(
        actions,
        vec![Action::OpenTheme { hwnd: 100 }, Action::AttachOwner { hwnd: 100, owner: 1, id: 400 }]
    );
    assert!(reg.contains(100));
    let data = &reg.menus[0];
    assert!(data.main);
    assert_eq!((data.width, data.height), (88, 91));
    assert_eq!((data.selected_index, data.visible_submenu_index), (-1, -1));
    assert!(!data.visible);
    assert_eq!(data.win_subclass_id, Some(400));
    let stored: Vec<(i32, i32, i32)> = data.items.iter().map(|i| (i.index, i.top, i.bottom)).collect();
    assert_eq!(stored, edges);
    assert_eq!(reg.next_subclass_id, 401);
}

#[test]
fn two_builds_of_equal_menus_agree() {
    let mut reg = MenuRegistry::new();
    let mut first = sample(100);
    let mut second = sample(200);
    let widths = vec![40, 0, 30, 30];
    first.build(&mut reg, font(), &widths, &metrics()).unwrap();
    second.build(&mut reg, font(), &widths, &metrics()).unwrap();
    assert_eq!((first.width, first.height), (second.width, second.height));
    for (a, b) in first.items.iter().zip(second.items.iter()) {
        assert_eq!((a.index, a.top, a.bottom), (b.index, b.top, b.bottom));
    }
    let direct = layout_items(&sample(300).items, &MenuSize::default(), font(), &widths, &metrics()).unwrap();
    assert_eq!(direct.edges, vec![(2, 27), (27, 37), (37, 62), (62, 87)]);
    assert_eq!((direct.width, direct.height), (88, 91));
}

#[test]
fn second_root_menu_does_not_open_the_theme_again() {
    let mut reg = MenuRegistry::new();
    let mut first = sample(100);
    let mut second = sample(200);
    let widths = vec![40, 0, 30, 30];
    first.build(&mut reg, font(), &widths, &metrics()).unwrap();
    let actions = second.build(&mut reg, font(), &widths, &metrics()).unwrap();
    assert_eq!(actions, vec![Action::AttachOwner { hwnd: 200, owner: 1, id: 401 }]);
}

#[test]
fn menu_is_as_wide_as_its_widest_row_plus_the_frame() {
    let config = Config {
        size: MenuSize {
            border_width: 3,
            vertical_margin: 4,
            item_vertical_padding: 10,
            item_horizontal_padding: 20,
        },
        theme: MenuTheme::default(),
    };
    let mut reg = MenuRegistry::new();
    let mut menu = MenuX::new_from_config(1, 100, config);
    menu.text("a", "Open", None);
    menu.text("b", "Close", Some(true));
    let widths = vec![40, 50];
    menu.build(&mut reg, font(), &widths, &metrics()).unwrap();
    // rows: 40 + 40 + 50 - 14 = 116 and 50 + 40 + 50 - 14 = 126 wide, max(12 + 10, 25) high
    assert_eq!(menu.width, 126 + 2 * 3);
    assert_eq!(menu.height, 50 + 2 * (4 + 3));
    assert_eq!((menu.items[0].top, menu.items[0].bottom), (4, 29));
    assert_eq!((menu.items[1].top, menu.items[1].bottom), (29, 54));
}

#[test]
fn empty_menu_is_margins_and_frame() {
    let mut reg = MenuRegistry::new();
    let mut menu = MenuX::new(1, 100);
    let widths: Vec<i32> = Vec::new();
    menu.build(&mut reg, None, &widths, &metrics()).unwrap();
    assert_eq!((menu.width, menu.height), (2, 6));
}

#[test]
fn build_without_a_font_fails_and_changes_nothing() {
    let mut reg = MenuRegistry::new();
    let mut menu = sample(100);
    let widths = vec![40, 0, 30, 30];
    let built = menu.build(&mut reg, None, &widths, &metrics());
    assert_eq!(built, Err(BuildError::FontUnavailable));
    assert_eq!((menu.width, menu.height), (0, 0));
    assert!(menu.items.iter().all(|i| i.index == -1 && i.top == 0 && i.bottom == 0));
    assert!(!reg.contains(100));
    assert_eq!(reg.next_subclass_id, 400);
}

#[test]
fn separators_alone_need_no_font() {
    let mut reg = MenuRegistry::new();
    let mut menu = MenuX::new(1, 100);
    menu.separator();
    menu.separator();
    let widths = vec![0, 0];
    assert!(menu.build(&mut reg, None, &widths, &metrics()).is_ok());
    assert_eq!((menu.width, menu.height), (2, 20 + 6));
}

#[test]
fn build_of_an_oversized_menu_fails_and_changes_nothing() {
    let mut reg = MenuRegistry::new();
    let mut menu = sample(100);
    let widths = vec![40, 0, i32::MAX - 40, 30];
    let built = menu.build(&mut reg, font(), &widths, &metrics());
    assert_eq!(built, Err(BuildError::TooLarge));
    assert_eq!((menu.width, menu.height), (0, 0));
    assert!(menu.items.iter().all(|i| i.index == -1));
    assert!(!reg.contains(100));
}

#[test]
fn build_fails_when_the_rows_run_past_the_coordinate_range() {
    let config = Config {
        size: MenuSize { vertical_margin: i32::MAX - 30, ..MenuSize::default() },
        theme: MenuTheme::default(),
    };
    let mut reg = MenuRegistry::new();
    let mut menu = MenuX::new_from_config(1, 100, config);
    menu.text("a", "Open", None);
    menu.text("b", "Close", None);
    let widths = vec![40, 40];
    assert_eq!(menu.build(&mut reg, font(), &widths, &metrics()), Err(BuildError::TooLarge));
}

#[test]
fn submenu_is_built_without_owner_or_theme() {
    let mut reg = MenuRegistry::new();
    let mut menu = MenuX::new(1, 100);
    let mut nested = menu.submenu("Speed", 101);
    nested.radio("s1", "1x", "1", "speed", true, None);
    let actions = nested.build(&mut reg, font(), &vec![20], &metrics()).unwrap();
    assert!(actions.is_empty());
    assert!(!reg.menus[0].main);
    assert_eq!(reg.menus[0].parent, 100);
    assert_eq!(reg.menus[0].win_subclass_id, None);
    assert_eq!(reg.next_subclass_id, 400);
    assert_eq!(menu.items[0].submenu, Some(101));
    assert_eq!(menu.items[0].id, "Speed");
    assert_eq!(menu.items[0].label, "Speed");
}

#[test]
fn narrow_rows_do_not_widen_the_menu_beyond_the_widest() {
    let mut reg = MenuRegistry::new();
    let mut menu = MenuX::new(1, 100);
    menu.text("a", "A", None);
    menu.text("b", "B", None);
    // with a check mark 200 wide both rows ask for less than nothing
    let wide_mark = SystemMetrics { menu_height: 20, menu_check_width: 200, arrow_width: 17 };
    menu.build(&mut reg, font(), &vec![10, 30], &wide_mark).unwrap();
    // rows: 10 + 60 - 199 = -129 and 30 + 60 - 199 = -109
    assert_eq!(menu.width, -109 + 2);
}

#[test]
fn builder_rows_are_well_formed() {
    let mut menu = sample(100);
    assert!(menu.rows_are_well_formed());
    let _nested = menu.submenu("More", 101);
    assert!(menu.rows_are_well_formed());
    menu.items[2].name = None;
    assert!(!menu.rows_are_well_formed());
    menu.items[2].name = Some("speed".to_string());
    menu.items[0].name = Some("speed".to_string());
    assert!(!menu.rows_are_well_formed());
}
