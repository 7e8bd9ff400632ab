use tuifw::items::{ItemsPresenterWidget, VirtItemsPresenterWidget, VirtItemsPresenter, ItemNav, NavFlags, NewItem, VirtPlan, item_navigation};
use tuifw::tree::{WindowTree, Window};
use tuifw::screen::Key;
use tuifw::geom::{Point, Vector, Rect};

fn setup() -> (WindowTree<u32>, Window, Window, Window, Window, Window) {
    let mut t: WindowTree<u32> = WindowTree::new();
    let presenter = t.new_window(0, None, None);
    let panel = t.new_window(1, Some(presenter), None);
    let a = t.new_window(2, Some(panel), None);
    let b = t.new_window(3, Some(panel), Some(a));
    let c = t.new_window(4, Some(panel), Some(b));
    (t, presenter, panel, a, b, c)
}

const ALL: NavFlags = NavFlags { tab: true, up_down: true, left_right: true };

#[test]
fn down_and_up_move_focus() {
    let (mut t, p, _panel, a, b, c) = setup();
    t.focus_primary(Some(b));
    assert_eq!(item_navigation(&t, p, b, Key::Down, ALL, false), ItemNav::Focus { target: c, secondary: false });
    assert_eq!(item_navigation(&t, p, b, Key::Up, ALL, false), ItemNav::Focus { target: a, secondary: false });
    t.focus_primary(Some(c));
    assert_eq!(item_navigation(&t, p, c, Key::Down, ALL, false), ItemNav::Unhandled);
    t.focus_primary(Some(a));
    assert_eq!(item_navigation(&t, p, a, Key::Up, ALL, false), ItemNav::Unhandled);
}

#[test]
fn tab_wraps_or_restarts() {
    let (mut t, p, _panel, a, _b, c) = setup();
    t.focus_primary(Some(c));
    assert_eq!(ItemsPresenterWidget::update(&t, p, c, Key::Tab, ALL), ItemNav::Focus { target: a, secondary: false });
    assert_eq!(VirtItemsPresenterWidget::update(&t, p, c, Key::Tab, ALL), ItemNav::RestartAtFirst { secondary: false });
    t.focus_secondary(Some(a), true);
    assert_eq!(ItemsPresenterWidget::update(&t, p, a, Key::Right, ALL), ItemNav::Focus { target: Window(a.0 + 1), secondary: true });
}

#[test]
fn navigation_needs_flags_and_focus() {
    let (mut t, p, panel, a, b, _c) = setup();
    let none = NavFlags { tab: false, up_down: false, left_right: false };
    t.focus_primary(Some(a));
    assert_eq!(item_navigation(&t, p, a, Key::Down, none, false), ItemNav::Unhandled);
    assert_eq!(item_navigation(&t, p, b, Key::Down, ALL, false), ItemNav::Unhandled);
    assert_eq!(item_navigation(&t, panel, a, Key::Down, ALL, false), ItemNav::Unhandled);
}

#[test]
fn items_plan_builds_all() {
    let plan = ItemsPresenterWidget::plan(0, 3, true, false);
    assert_eq!(plan, vec![
        NewItem { index: 0, focus_primary: true, focus_secondary: false },
        NewItem { index: 1, focus_primary: false, focus_secondary: false },
        NewItem { index: 2, focus_primary: false, focus_secondary: false },
    ]);
}

fn presenter(len: usize, offset: i16, viewport: i16) -> VirtItemsPresenter {
    let mut p = VirtItemsPresenter::new();
    p.items_len = len;
    p.offset = offset;
    p.viewport = viewport;
    p
}

#[test]
fn virt_visible_range() {
    let mut p = presenter(100, 0, 5);
    p.templates_changed = true;
    assert_eq!(p.plan_update(false, true), VirtPlan::Rebuild { margin: 0, start: 0, end: 6, focus_primary: false, focus_secondary: false });
    assert_eq!((p.visible_start, p.visible_end), (0, 6));
    assert!(!p.templates_changed);
    p.offset = 10;
    assert_eq!(p.plan_update(true, true), VirtPlan::Shift {
        margin: 1, drop_head: 6, drop_tail: 0, head_start: 9, head_end: 0, tail_start: 9, tail_end: 16,
    });
    assert_eq!((p.visible_start, p.visible_end), (9, 16));
}

#[test]
fn virt_shift_overlapping() {
    let mut p = presenter(100, 3, 5);
    p.visible_start = 0;
    p.visible_end = 6;
    assert_eq!(p.plan_update(true, true), VirtPlan::Shift {
        margin: 1, drop_head: 2, drop_tail: 0, head_start: 2, head_end: 0, tail_start: 6, tail_end: 9,
    });
}

#[test]
fn virt_range_clipped_to_items() {
    let mut p = presenter(4, 0, 10);
    assert_eq!(p.plan_update(false, true), VirtPlan::NoPanel);
    assert_eq!((p.visible_start, p.visible_end), (0, 4));
    p.error = true;
    assert_eq!(p.plan_update(false, true), VirtPlan::Nothing);
}

#[test]
fn virt_extent() {
    let mut p = presenter(7, 0, 0);
    p.item_size = 3;
    assert_eq!(p.extent(), 21);
    p.items_len = 70000;
    p.item_size = 1;
    assert_eq!(p.extent(), 4464);
}

#[test]
fn virt_measure_arrange() {
    let d = [Vector { x: 4, y: 2 }];
    assert_eq!(VirtItemsPresenterWidget::measure(true, Some(9), None, &d), Vector { x: 4, y: 1 });
    assert_eq!(VirtItemsPresenterWidget::measure(false, Some(9), None, &d), Vector { x: 9, y: 2 });
    let mut p = VirtItemsPresenter::new();
    let fb = Rect { tl: Point { x: 0, y: 0 }, size: Vector { x: 6, y: 8 } };
    let (size, vchanged, ichanged) = VirtItemsPresenterWidget::arrange(&mut p, fb, &[Vector { x: 6, y: 3 }], Some(Vector { x: 6, y: 2 }));
    assert_eq!(size, Vector { x: 6, y: 8 });
    assert!(vchanged);
    assert!(ichanged);
    assert_eq!(p.viewport, 8);
    assert_eq!(p.item_size, 2);
}

#[test]
fn virt_bring_into_view() {
    let mut p = VirtItemsPresenter::new();
    p.offset = 10;
    let bounds = Rect { tl: Point { x: 0, y: 0 }, size: Vector { x: 5, y: 4 } };
    assert_eq!(p.bring_into_view(bounds, Rect { tl: Point { x: 0, y: 6 }, size: Vector { x: 5, y: 1 } }), Some(13));
    assert_eq!(p.bring_into_view(bounds, Rect { tl: Point { x: 0, y: -2 }, size: Vector { x: 5, y: 1 } }), Some(8));
    assert_eq!(p.bring_into_view(bounds, Rect { tl: Point { x: 0, y: 1 }, size: Vector { x: 5, y: 1 } }), None);
}

#[test]
fn virt_restart_at_first() {
    let mut p = presenter(10, 7, 3);
    VirtItemsPresenterWidget::restart_at_first(&mut p, true);
    assert_eq!(p.offset, 0);
    assert!(p.templates_changed);
    assert!(p.focus_first_item_secondary_once);
    assert!(!p.focus_first_item_primary_once);
}
