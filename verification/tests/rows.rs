use popup_menu::builder::MenuX;
use popup_menu::item::{
    get_state, toggle_checked, toggle_disabled, InnerMenuItem, MenuItemState, SelectedMenuItem, MENU_CHECKED,
    MENU_DISABLED, MENU_NORMAL, MENU_TYPE, XMT_CHECKBOX, XMT_RADIO, XMT_SEPARATOR, XMT_STRING, XMT_SUBMENU,
};
use popup_menu::layout::{FontMetrics, SystemMetrics};
use popup_menu::menu_id::MenuIdExt;
use popup_menu::config::{ColorScheme, Theme};
use popup_menu::menus::{create_playlist_menu, create_sort_menu, get_menu_config, PlaylistMenu, SortMenu};
use popup_menu::registry::MenuRegistry;
use popup_menu::settings::{Sort, SortOrder};

fn metrics() -> SystemMetrics {
    SystemMetrics { menu_height: 20, menu_check_width: 15, arrow_width: 17 }
}

fn font() -> Option<FontMetrics> {
    Some(FontMetrics { height: -12, weight: 400 })
}

#[test]
fn new_row_state_is_normal_plus_the_flags_asked_for() {
    assert_eq!(get_state(None, None), MenuItemState(1));
    assert_eq!(get_state(Some(false), Some(false)), MenuItemState(1));
    assert_eq!(get_state(Some(true), None), MenuItemState(5));
    assert_eq!(get_state(None, Some(true)), MenuItemState(3));
    assert_eq!(get_state(Some(true), Some(true)), MenuItemState(7));
    assert_eq!((MENU_NORMAL, MENU_CHECKED, MENU_DISABLED), (1, 2, 4));
}

#[test]
fn radio_row_keeps_value_group_and_accelerator() {
    let item = InnerMenuItem::new("id", "Label", "v", Some("F2"), Some("g"), MenuItemState(3), MENU_TYPE(XMT_RADIO));
    assert_eq!((item.id.as_str(), item.label.as_str(), item.value.as_str()), ("id", "Label", "v"));
    assert_eq!(item.accelerator.as_deref(), Some("F2"));
    assert_eq!(item.name.as_deref(), Some("g"));
    assert_eq!(item.state, MenuItemState(3));
    assert_eq!((item.index, item.top, item.bottom, item.submenu), (-1, 0, 0, None));
}

#[test]
fn checkbox_row_has_no_group() {
    let item = InnerMenuItem::new("id", "Label", "v", Some("F2"), Some("g"), MenuItemState(1), MENU_TYPE(XMT_CHECKBOX));
    assert_eq!(item.value, "v");
    assert_eq!(item.accelerator.as_deref(), Some("F2"));
    assert_eq!(item.name, None);
}

#[test]
fn text_row_has_neither_value_nor_group() {
    let item = InnerMenuItem::new("id", "Label", "v", Some("F2"), Some("g"), MenuItemState(5), MENU_TYPE(XMT_STRING));
    assert_eq!((item.id.as_str(), item.label.as_str(), item.value.as_str()), ("id", "Label", ""));
    assert_eq!(item.accelerator.as_deref(), Some("F2"));
    assert_eq!(item.name, None);
    assert_eq!(item.state, MenuItemState(5));
    let other = InnerMenuItem::new("id", "Label", "v", None, None, MenuItemState(1), MENU_TYPE(9));
    assert_eq!((other.id.as_str(), other.value.as_str(), other.menu_type.0), ("id", "", 9));
}

#[test]
fn submenu_row_keeps_only_id_and_label() {
    let item = InnerMenuItem::new("id", "Label", "v", Some("F2"), Some("g"), MenuItemState(1), MENU_TYPE(XMT_SUBMENU));
    assert_eq!((item.id.as_str(), item.label.as_str(), item.value.as_str()), ("id", "Label", ""));
    assert_eq!((item.accelerator, item.name, item.submenu), (None, None, None));
}

#[test]
fn separator_carries_nothing() {
    let item = InnerMenuItem::new("id", "Label", "v", Some("F2"), Some("g"), MenuItemState(7), MENU_TYPE(XMT_SEPARATOR));
    assert_eq!((item.id.as_str(), item.label.as_str(), item.value.as_str()), ("", "", ""));
    assert_eq!((item.accelerator, item.name), (None, None));
    assert_eq!(item.state, MenuItemState(MENU_NORMAL));
}

#[test]
fn toggling_a_flag_leaves_the_other_flag_alone() {
    let mut item = InnerMenuItem::new("id", "L", "v", None, None, MenuItemState(5), MENU_TYPE(XMT_CHECKBOX));
    toggle_checked(&mut item, true);
    assert_eq!(item.state.0, 7);
    toggle_checked(&mut item, true);
    assert_eq!(item.state.0, 7);
    toggle_disabled(&mut item, false);
    assert_eq!(item.state.0, 3);
    toggle_checked(&mut item, false);
    assert_eq!(item.state.0, 1);
    toggle_checked(&mut item, false);
    assert_eq!(item.state.0, 1);
    toggle_disabled(&mut item, true);
    assert_eq!(item.state.0, 5);
    let copy = item.clone();
    assert_eq!((copy.id, copy.state, copy.menu_type), (item.id, item.state, item.menu_type));
}

#[test]
fn selection_packages_the_row() {
    let item = InnerMenuItem::new("vol", "Mute", "true", None, None, MenuItemState(3), MENU_TYPE(XMT_CHECKBOX));
    let selected = SelectedMenuItem::from(&item);
    assert_eq!((selected.id.as_str(), selected.label.as_str(), selected.value.as_str()), ("vol", "Mute", "true"));
    assert_eq!((selected.name.as_str(), selected.state.0), ("", 3));
    let radio = InnerMenuItem::new("r", "R", "1", None, Some("g"), MenuItemState(1), MENU_TYPE(XMT_RADIO));
    assert_eq!(SelectedMenuItem::from(&radio).name, "g");
}

#[test]
fn builder_appends_rows_in_call_order() {
    let mut menu = MenuX::new(7, 100);
    assert!(menu.is_main);
    assert_eq!((menu.parent, menu.hwnd), (7, 100));
    menu.text("t", "Text", None);
    menu.text_with_accelerator("ta", "Text", Some(true), "F1");
    menu.check("c", "Check", "cv", true, None);
    menu.check_with_accelerator("ca", "Check", "cav", false, Some(true), "F2");
    menu.radio("r", "Radio", "rv", "g", true, None);
    menu.radio_with_accelerator("ra", "Radio", "rav", "g", false, None, "F3");
    let nested = menu.submenu("More", 101);
    menu.separator();
    let seen: Vec<(&str, i32, i32, &str, Option<&str>, Option<&str>)> = menu
        .items
        .iter()
        .map(|i| (i.id.as_str(), i.menu_type.0, i.state.0, i.value.as_str(), i.accelerator.as_deref(), i.name.as_deref()))
        .collect();
    assert_eq!(
        seen,
        vec![
            ("t", 0, 1, "", None, None),
            ("ta", 0, 5, "", Some("F1"), None),
            ("c", 1, 3, "cv", None, None),
            ("ca", 1, 5, "cav", Some("F2"), None),
            ("r", 2, 3, "rv", None, Some("g")),
            ("ra", 2, 1, "rav", Some("F3"), Some("g")),
            ("More", 3, 1, "", None, None),
            ("", 4, 1, "", None, None),
        ]
    );
    assert_eq!(menu.items[6].submenu, Some(101));
    assert!(!nested.is_main);
    assert_eq!((nested.parent, nested.hwnd), (100, 101));
    assert!(nested.items.is_empty());
    assert_eq!((nested.size, nested.theme), (menu.size, menu.theme));
}

#[test]
fn handles_read_and_change_the_rows_of_the_built_menu() {
    let mut reg = MenuRegistry::new();
    let mut menu = MenuX::new(1, 100);
    menu.check_with_accelerator("vol", "Mute", "true", false, None, "M");
    menu.radio("r", "Loop", "loop", "mode", true, Some(true));
    assert!(menu.items(&reg).is_empty());
    menu.build(&mut reg, font(), &vec![40, 40], &metrics()).unwrap();
    let handles = menu.items(&reg);
    assert_eq!(handles.len(), 2);
    assert_eq!((handles[0].index, handles[0].hwnd), (0, 100));
    assert_eq!((handles[0].id.as_str(), handles[0].label.as_str(), handles[0].value.as_str()), ("vol", "Mute", "true"));
    assert_eq!((handles[0].accelerator.as_str(), handles[0].name.as_str()), ("M", ""));
    assert_eq!((handles[1].accelerator.as_str(), handles[1].name.as_str()), ("", "mode"));
    assert_eq!((handles[1].state.0, handles[1].menu_type.0), (7, XMT_RADIO));
    assert!(!handles[0].checked(&reg));
    assert!(handles[1].checked(&reg));
    assert!(!handles[0].disabled(&reg));
    assert!(handles[1].disabled(&reg));
    handles[0].set_checked(&mut reg, true);
    handles[1].set_disabled(&mut reg, false);
    handles[1].set_checked(&mut reg, false);
    handles[0].set_disabled(&mut reg, true);
    handles[0].set_label(&mut reg, "Unmute");
    assert!(handles[0].checked(&reg));
    assert!(handles[0].disabled(&reg));
    assert!(!handles[1].checked(&reg));
    assert!(!handles[1].disabled(&reg));
    assert_eq!(reg.menus[0].items[0].state.0, 7);
    assert_eq!(reg.menus[0].items[1].state.0, 1);
    assert_eq!(reg.menus[0].items[0].label, "Unmute");
    assert_eq!(reg.menus[0].items[0].id, "vol");
    assert_eq!(menu.items(&reg)[0].label, "Unmute");
}

#[test]
fn handle_to_a_row_that_is_gone_reads_false_and_changes_nothing() {
    let mut reg = MenuRegistry::new();
    let mut menu = MenuX::new(1, 100);
    menu.check("vol", "Mute", "true", true, Some(true));
    menu.build(&mut reg, font(), &vec![40], &metrics()).unwrap();
    let mut handles = menu.items(&reg);
    handles[0].index = 5;
    assert!(!handles[0].checked(&reg));
    assert!(!handles[0].disabled(&reg));
    handles[0].set_checked(&mut reg, false);
    handles[0].set_label(&mut reg, "x");
    assert_eq!(reg.menus[0].items[0].state.0, 7);
    handles[0].index = 0;
    reg.destroy(100);
    assert!(!handles[0].checked(&reg));
    handles[0].set_disabled(&mut reg, false);
    assert!(reg.menus.is_empty());
}

#[test]
fn compound_identifier_joins_its_parts_with_colons() {
    let menu_id = MenuIdExt::new("Player");
    assert_eq!((menu_id.label.as_str(), menu_id.id.as_str(), menu_id.name.as_str()), ("Player", "", ""));
    assert_eq!((menu_id.value.as_str(), menu_id.group.as_str()), ("", ""));
    assert_eq!(menu_id.id("Capture"), "Player:Capture::");
    let named = menu_id.with_name("PlaybackSpeed");
    assert_eq!(named.id, "Player:PlaybackSpeed::");
    assert_eq!((named.label.as_str(), named.name.as_str()), ("Player", "PlaybackSpeed"));
    assert_eq!(named.id_from("1.5"), "Player:PlaybackSpeed:1.5:Player:PlaybackSpeed::");
    assert_eq!(menu_id.id_from("x"), "Player::x:Player:::");
    assert_eq!(
        MenuIdExt::create_id(&"a".to_string(), &"b".to_string(), &"c".to_string(), &"d".to_string()),
        "a:b:c:d"
    );
}

#[test]
fn sort_menu_checks_the_order_in_force() {
    let mut menu = MenuX::new(1, 100);
    create_sort_menu(&mut menu, &Sort { order: SortOrder::DateAsc, groupBy: true });
    let seen: Vec<(&str, &str, i32, i32, Option<&str>)> = menu
        .items
        .iter()
        .map(|i| (i.id.as_str(), i.label.as_str(), i.menu_type.0, i.state.0, i.name.as_deref()))
        .collect();
    assert_eq!(
        seen,
        vec![
            ("GroupBy", "Group By Directory", 1, 3, None),
            ("", "", 4, 1, None),
            ("NameAsc", "Name(Asc)", 2, 1, Some("Sort")),
            ("NameDesc", "Name(Desc)", 2, 1, Some("Sort")),
            ("DateAsc", "Date(Asc)", 2, 3, Some("Sort")),
            ("DateDesc", "Date(Desc", 2, 1, Some("Sort")),
        ]
    );
    assert_eq!(SortOrder::NameDesc.name(), "NameDesc");
    assert_eq!(SortMenu::GroupBy.name(), "GroupBy");
    assert_eq!(PlaylistMenu::Sort.name(), "Sort");
}

#[test]
fn playlist_menu_lists_its_commands() {
    let mut menu = MenuX::new(1, 100);
    menu.text("first", "First", None);
    create_playlist_menu(&mut menu);
    let seen: Vec<(&str, &str, Option<&str>)> =
        menu.items.iter().map(|i| (i.id.as_str(), i.label.as_str(), i.accelerator.as_deref())).collect();
    assert_eq!(
        seen,
        vec![
            ("first", "First", None),
            ("Remove", "Remove", Some("Delete")),
            ("Trash", "Trash", Some("Shift+Delete")),
            ("", "", None),
            ("CopyFileName", "Copy Name", Some("Ctrl+C")),
            ("CopyFullpath", "Copy Full Path", Some("Ctrl+Shift+C")),
            ("Reveal", "Reveal in File Explorer", Some("Ctrl+R")),
            ("", "", None),
            ("Rename", "Rename", Some("F2")),
            ("Metadata", "View Metadata", None),
            ("Convert", "Convert", None),
            ("", "", None),
            ("Move", "Move File", None),
            ("", "", None),
            ("RemoveAll", "Clear Playlist", None),
        ]
    );
    assert!(menu.items.iter().all(|i| i.state.0 == MENU_NORMAL));
}

#[test]
fn compound_identifier_comes_apart_as_it_was_joined() {
    let named = MenuIdExt::new("Player").with_name("PlaybackSpeed");
    let id = named.id_from("1.5");
    assert!(MenuIdExt::is_joined(&id));
    let parts = MenuIdExt::get(&id);
    assert_eq!(parts.label, "Player");
    assert_eq!(parts.name, "PlaybackSpeed");
    assert_eq!(parts.value, "1.5");
    assert_eq!(parts.group, "Player:PlaybackSpeed::");
    assert_eq!(parts.id, id);
    let short = MenuIdExt::get("a:b:c");
    assert_eq!(
        (short.label.as_str(), short.name.as_str(), short.value.as_str(), short.group.as_str()),
        ("a", "b", "c", "")
    );
    assert_eq!(short.id, "a:b:c");
    let empty_parts = MenuIdExt::get(":::");
    assert_eq!(
        (empty_parts.label.as_str(), empty_parts.name.as_str(), empty_parts.value.as_str(), empty_parts.group.as_str()),
        ("", "", "", "")
    );
    let wide = MenuIdExt::get("é:ü:ö:ß:x");
    assert_eq!(
        (wide.label.as_str(), wide.name.as_str(), wide.value.as_str(), wide.group.as_str()),
        ("é", "ü", "ö", "ß:x")
    );
}

#[test]
fn text_without_a_colon_has_no_parts() {
    assert!(MenuIdExt::is_joined("GroupBy"));
    assert!(MenuIdExt::is_joined(""));
    let parts = MenuIdExt::get("GroupBy");
    assert_eq!(
        (parts.label.as_str(), parts.id.as_str(), parts.name.as_str(), parts.value.as_str(), parts.group.as_str()),
        ("", "", "", "", "")
    );
    assert!(!MenuIdExt::is_joined("a:b"));
    assert!(!MenuIdExt::is_joined(":"));
    assert!(MenuIdExt::is_joined("::"));
}

#[test]
fn player_menus_have_no_frame_and_their_own_dark_palette() {
    let config = get_menu_config(Theme::Dark);
    assert!(config.theme.is_dark);
    assert_eq!((config.size.border_width, config.size.item_horizontal_padding), (0, 20));
    assert_eq!((config.size.vertical_margin, config.size.item_vertical_padding), (2, 12));
    assert_eq!(
        config.theme.color.dark,
        ColorScheme { color: 0x00efefef, border: 0x00454545, disabled: 0x00565659, background_color: 0x00202020 }
    );
    assert_eq!(config.theme.color.light, ColorScheme::light());
    assert!(!get_menu_config(Theme::Light).theme.is_dark);
}
