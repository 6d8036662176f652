use popup_menu::builder::MenuX;
use popup_menu::geometry::{Point, Rect};
use popup_menu::layout::{FontMetrics, SystemMetrics};
use popup_menu::menu::MenuData;
use popup_menu::placement::Monitors;
use popup_menu::registry::MenuRegistry;

fn built(x: i32, y: i32) -> MenuRegistry {
    let mut reg = MenuRegistry::new();
    let mut menu = MenuX::new(1, 100);
    menu.text("a", "Open", None);
    menu.separator();
    menu.radio("b1", "25%", "0.25", "speed", false, None);
    menu.radio("b2", "50%", "0.5", "speed", true, None);
    menu.separator();
    let metrics = SystemMetrics { menu_height: 20, menu_check_width: 15, arrow_width: 17 };
    let font = Some(FontMetrics { height: -12, weight: 400 });
    menu.build(&mut reg, font, &vec![40, 0, 30, 30, 0], &metrics).unwrap();
    let work = Rect { left: 0, top: 0, right: 1920, bottom: 1080 };
    menu.popup_at(&mut reg, x, y, &Monitors { at_point: Some(work), at_owner: work }).unwrap();
    reg
}

fn menu(reg: &MenuRegistry) -> &MenuData {
    &reg.menus[0]
}

#[test]
fn every_point_of_a_row_answers_with_the_row() {
    // rows: 0 text 2..27, 1 separator 27..37, 2 radio 37..62, 3 radio 62..87, 4 separator 87..97
    let reg = built(0, 0);
    let data = menu(&reg);
    assert_eq!((data.width, data.height), (88, 101));
    for x in [0, 1, 44, 87] {
        for y in 2..27 {
            assert_eq!(data.index_from_point(Point { x, y }), 0);
        }
        for y in 38..62 {
            assert_eq!(data.index_from_point(Point { x, y }), 2);
        }
        for y in 63..87 {
            assert_eq!(data.index_from_point(Point { x, y }), 3);
        }
    }
}

#[test]
fn points_strictly_inside_a_separator_answer_with_no_row() {
    let reg = built(0, 0);
    let data = menu(&reg);
    for y in 28..37 {
        assert_eq!(data.index_from_point(Point { x: 10, y }), -1);
    }
    for y in 88..=97 {
        assert_eq!(data.index_from_point(Point { x: 10, y }), -1);
    }
}

#[test]
fn shared_edge_of_two_rows_answers_with_the_lower_row() {
    let reg = built(0, 0);
    let data = menu(&reg);
    assert_eq!(data.index_from_point(Point { x: 10, y: 62 }), 3);
}

#[test]
fn edge_shared_with_a_separator_answers_with_the_row_beside_it() {
    let reg = built(0, 0);
    let data = menu(&reg);
    assert_eq!(data.index_from_point(Point { x: 10, y: 27 }), 0);
    assert_eq!(data.index_from_point(Point { x: 10, y: 37 }), 2);
    assert_eq!(data.index_from_point(Point { x: 10, y: 87 }), 3);
}

#[test]
fn points_off_the_menu_answer_with_no_row() {
    let reg = built(0, 0);
    let data = menu(&reg);
    assert_eq!(data.index_from_point(Point { x: -1, y: 10 }), -1);
    assert_eq!(data.index_from_point(Point { x: 88, y: 10 }), -1);
    assert_eq!(data.index_from_point(Point { x: 10, y: -1 }), -1);
    assert_eq!(data.index_from_point(Point { x: 10, y: 101 }), -1);
    assert_eq!(data.index_from_point(Point { x: 10, y: 0 }), -1);
    assert_eq!(data.index_from_point(Point { x: 10, y: 1 }), -1);
    assert_eq!(data.index_from_point(Point { x: 10, y: 100 }), -1);
}

#[test]
fn screen_points_are_taken_relative_to_the_window() {
    let reg = built(500, 300);
    let data = menu(&reg);
    assert_eq!(data.origin, Point { x: 500, y: 300 });
    assert_eq!(data.index_from_point(Point { x: 510, y: 310 }), 0);
    assert_eq!(data.index_from_point(Point { x: 510, y: 350 }), 2);
    assert_eq!(data.index_from_point(Point { x: 10, y: 10 }), -1);
    assert_eq!(data.index_from_point(Point { x: 499, y: 310 }), -1);
    assert_eq!(data.index_from_point(Point { x: i32::MIN, y: i32::MAX }), -1);
}

#[test]
fn row_rectangle_lies_between_the_frame() {
    let reg = built(0, 0);
    let data = menu(&reg);
    assert_eq!(data.get_item_rect(0), Rect { left: 1, top: 3, right: 87, bottom: 28 });
    assert_eq!(data.get_item_rect(1), Rect { left: 1, top: 28, right: 87, bottom: 38 });
    assert_eq!(data.get_item_rect(4), Rect { left: 1, top: 88, right: 87, bottom: 98 });
}

#[test]
fn paint_request_for_the_edges_of_a_row_is_about_that_row() {
    let reg = built(0, 0);
    let data = menu(&reg);
    for row in 0..5 {
        assert_eq!(data.index_from_rect(data.get_item_rect(row)), Some(row as i32));
    }
    assert_eq!(data.index_from_rect(Rect { left: 0, top: 38, right: 88, bottom: 63 }), Some(2));
    assert_eq!(data.index_from_rect(Rect { left: 5, top: 28, right: 6, bottom: 38 }), Some(1));
    // the rows' own edges, without the frame, are no row's rectangle
    assert_eq!(data.index_from_rect(Rect { left: 0, top: 37, right: 88, bottom: 62 }), None);
    assert_eq!(data.index_from_rect(Rect { left: 0, top: 39, right: 88, bottom: 63 }), None);
    assert_eq!(data.index_from_rect(Rect { left: 0, top: 0, right: 88, bottom: 101 }), None);
    assert_eq!(data.index_from_rect(Rect { left: 0, top: 0, right: 88, bottom: 50 }), None);
}
