use tuifw::dock_view::{DockPanelBehavior, DockOf, Orient};
use tuifw::geom::{Side, Vector, Point, Rect};

fn v(x: i16, y: i16) -> Vector {
    Vector { x, y }
}

#[test]
fn docked_then_shared() {
    let layouts = [DockOf::Docked(Side::Left), DockOf::Docked(Side::Top), DockOf::Shared, DockOf::Shared];
    let desired = [v(5, 8), v(12, 3), v(7, 2), v(6, 4)];
    let shares = [0, 0, 3, 0];
    let size = DockPanelBehavior::children_desired_size((Some(20), Some(10)), Side::Top, &layouts, &desired, &shares);
    assert_eq!(size, v(24, 17));
}

#[test]
fn steps_offer_room() {
    let s = DockPanelBehavior::docked_start((Some(20), Some(10)));
    assert_eq!(DockPanelBehavior::docked_request(&s, Side::Left), (None, Some(10)));
    let s = DockPanelBehavior::docked_step(s, Side::Left, v(5, 8));
    assert_eq!(s.size, (Some(15), Some(10)));
    assert_eq!(s.children_size, v(5, 0));
    assert_eq!(s.orient, Some(Orient::Hor));
    assert_eq!(s.breadth, 8);
    assert_eq!(DockPanelBehavior::docked_request(&s, Side::Top), (Some(15), None));
    let s = DockPanelBehavior::docked_step(s, Side::Top, v(12, 3));
    assert_eq!(s.children_size, v(5, 11));
    assert_eq!(DockPanelBehavior::docked_finish(&s), v(17, 11));
    let sh = DockPanelBehavior::shared_start(Side::Top, s.size);
    let (request, sh) = DockPanelBehavior::shared_request(sh, false, 3);
    assert_eq!(request, (Some(15), Some(3)));
    let sh = DockPanelBehavior::shared_step(sh, v(7, 2));
    let (request, sh) = DockPanelBehavior::shared_request(sh, true, 0);
    assert_eq!(request, (Some(15), Some(4)));
    let sh = DockPanelBehavior::shared_step(sh, v(6, 4));
    assert_eq!(DockPanelBehavior::shared_finish(v(17, 11), &sh), v(24, 17));
}

#[test]
fn lengths_saturate() {
    let s = DockPanelBehavior::docked_start((Some(3), None));
    let s = DockPanelBehavior::docked_step(s, Side::Right, v(-2, 1));
    assert_eq!(s.size, (Some(0), None));
    assert_eq!(s.children_size, v(-2, 0));
    let s = DockPanelBehavior::docked_step(s, Side::Right, v(10, 1));
    assert_eq!(s.children_size, v(-1, 0));
}

#[test]
fn no_children() {
    assert_eq!(DockPanelBehavior::children_desired_size((None, None), Side::Left, &[], &[], &[]), v(0, 0));
}

fn rect(x: i16, y: i16, w: i16, h: i16) -> Rect {
    Rect { tl: Point { x, y }, size: Vector { x: w, y: h } }
}

#[test]
fn dock_arrange_docked_then_shared() {
    let layouts = [DockOf::Docked(Side::Left), DockOf::Shared, DockOf::Docked(Side::Top), DockOf::Shared];
    let desired = [Vector { x: 2, y: 1 }, Vector { x: 0, y: 0 }, Vector { x: 3, y: 1 }, Vector { x: 0, y: 0 }];
    let bounds = rect(0, 0, 10, 5);
    assert_eq!(DockPanelBehavior::docked_rest(bounds, &layouts, &desired), rect(2, 1, 8, 4));
    let (rects, all) = DockPanelBehavior::children_arrange(bounds, Side::Top, &layouts, &desired, &[0, 2, 0, 7]);
    assert_eq!(rects, vec![rect(0, 0, 2, 5), rect(2, 1, 8, 2), rect(2, 0, 8, 1), rect(2, 3, 8, 2)]);
    assert_eq!(all, bounds);
}

#[test]
fn dock_arrange_far_sides_and_overflow() {
    let bounds = rect(0, 0, 10, 5);
    let layouts = [DockOf::Docked(Side::Right), DockOf::Docked(Side::Bottom), DockOf::Docked(Side::Left)];
    let desired = [Vector { x: 3, y: 9 }, Vector { x: 1, y: 2 }, Vector { x: 20, y: 1 }];
    let (rects, all) = DockPanelBehavior::children_arrange(bounds, Side::Top, &layouts, &desired, &[0, 0, 0]);
    assert_eq!(rects, vec![rect(7, 0, 3, 5), rect(0, 3, 7, 2), rect(0, 0, 20, 3)]);
    assert_eq!(all, bounds);
    assert_eq!(DockPanelBehavior::docked_rest(bounds, &layouts, &desired), rect(7, 0, 0, 3));
}

#[test]
fn dock_arrange_bounds_of_docked_children() {
    let bounds = rect(2, 3, 10, 5);
    let (rects, all) = DockPanelBehavior::children_arrange(bounds, Side::Top, &[], &[], &[]);
    assert!(rects.is_empty());
    assert_eq!(all, rect(2, 3, 0, 0));
    let layouts = [DockOf::Docked(Side::Left)];
    let (rects, all) = DockPanelBehavior::children_arrange(bounds, Side::Top, &layouts, &[Vector { x: 4, y: 1 }], &[0]);
    assert_eq!(rects, vec![rect(2, 3, 4, 5)]);
    assert_eq!(all, rect(2, 3, 4, 5));
    let layouts = [DockOf::Docked(Side::Top), DockOf::Docked(Side::Left)];
    let desired = [Vector { x: 1, y: 2 }, Vector { x: 3, y: 1 }];
    let (rects, all) = DockPanelBehavior::children_arrange(bounds, Side::Top, &layouts, &desired, &[0, 0]);
    assert_eq!(rects, vec![rect(2, 3, 10, 2), rect(2, 5, 3, 3)]);
    assert_eq!(all, rect(2, 3, 10, 5));
}

#[test]
fn rect_union_intersect_cases() {
    let b = rect(0, 0, 10, 5);
    assert_eq!(rect(0, 0, 0, 0).union_intersect(rect(7, 0, 3, 5), b), rect(7, 0, 3, 5));
    assert_eq!(rect(7, 0, 3, 5).union_intersect(rect(0, 3, 7, 2), b), rect(0, 0, 10, 5));
    assert_eq!(rect(1, 1, 2, 2).union_intersect(rect(0, 0, 0, 0), b), rect(1, 1, 2, 2));
    assert_eq!(rect(1, 1, 2, 1).union_intersect(rect(5, 1, 2, 1), b), rect(1, 1, 6, 1));
}
