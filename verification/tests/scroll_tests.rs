use tuifw::scroll::{ScrollViewer, ScrollViewerWidget, ScrollClick};
use tuifw::geom::{Point, Vector, Rect, HAlign};

fn viewer() -> ScrollViewer {
    ScrollViewer {
        text: String::new(),
        text_align: HAlign::Left,
        h_scroll: false,
        v_scroll: true,
        h_extent: 0,
        h_offset: 0,
        h_viewport: 0,
        v_extent: 0,
        v_offset: 0,
        v_viewport: 0,
        has_virtual_child: false,
    }
}

fn r(x: i16, y: i16, w: i16, h: i16) -> Rect { Rect { tl: Point { x, y }, size: Vector { x: w, y: h } } }

#[test]
fn child_request_unbounded_when_scrolled() {
    let sv = viewer();
    assert_eq!(ScrollViewerWidget::child_request(&sv, Some(10), Some(6), false), (Some(8), None));
    assert_eq!(ScrollViewerWidget::child_request(&sv, Some(10), Some(6), true), (Some(8), Some(4)));
    assert_eq!(ScrollViewerWidget::child_request(&sv, None, Some(6), true), (None, Some(4)));
}

#[test]
fn measure_takes_extents() {
    let mut sv = viewer();
    let size = ScrollViewerWidget::measure(&mut sv, Some(10), Some(6), false, &[Vector { x: 5, y: 20 }]);
    assert_eq!(size, Vector { x: 7, y: 6 });
    assert_eq!((sv.v_extent, sv.v_viewport, sv.h_extent, sv.h_viewport), (20, 4, 5, 8));
    assert!(!sv.has_virtual_child);
}

#[test]
fn measure_with_virtual_child_keeps_extents() {
    let mut sv = viewer();
    sv.v_extent = 50;
    let _ = ScrollViewerWidget::measure(&mut sv, Some(10), Some(6), true, &[Vector { x: 5, y: 20 }]);
    assert_eq!(sv.v_extent, 50);
    assert!(sv.has_virtual_child);
}

#[test]
fn child_bounds_follow_offset() {
    let mut sv = viewer();
    sv.v_offset = 3;
    sv.v_extent = 20;
    let (b, clip) = ScrollViewerWidget::child_bounds(&sv, r(0, 0, 10, 6), false);
    assert_eq!(b, r(1, -2, 8, 20));
    assert_eq!(clip, Some(r(0, 3, 8, 4)));
    assert_eq!(ScrollViewerWidget::child_bounds(&sv, r(0, 0, 10, 6), true), (r(1, 1, 8, 4), None));
}

#[test]
fn indicator_positions() {
    let mut sv = viewer();
    sv.v_extent = 20;
    sv.v_viewport = 4;
    sv.v_offset = 0;
    assert_eq!(ScrollViewerWidget::indicators(&sv, r(0, 0, 10, 6)), (Some(1), None));
    sv.v_offset = 16;
    assert_eq!(ScrollViewerWidget::indicators(&sv, r(0, 0, 10, 6)), (Some(4), None));
    sv.v_offset = 8;
    assert_eq!(ScrollViewerWidget::indicators(&sv, r(0, 0, 10, 6)), (Some(3), None));
}

#[test]
fn click_on_track_scrolls() {
    let mut sv = viewer();
    sv.v_extent = 20;
    sv.v_viewport = 4;
    let bounds = r(0, 0, 10, 6);
    assert_eq!(ScrollViewerWidget::click(&sv, bounds, Point { x: 9, y: 4 }), ScrollClick::Scroll { vertical: true, offset: 16 });
    assert_eq!(ScrollViewerWidget::click(&sv, bounds, Point { x: 9, y: 1 }), ScrollClick::Scroll { vertical: true, offset: 0 });
    assert_eq!(ScrollViewerWidget::click(&sv, bounds, Point { x: 9, y: 0 }), ScrollClick::Missed);
    assert_eq!(ScrollViewerWidget::click(&sv, bounds, Point { x: 3, y: 2 }), ScrollClick::Missed);
}

#[test]
fn vertical_click_ignores_the_horizontal_span() {
    let mut sv = viewer();
    sv.v_extent = 20;
    sv.v_viewport = 4;
    sv.h_scroll = true;
    sv.h_extent = 1;
    sv.h_viewport = 8;
    let bounds = r(0, 0, 10, 6);
    assert_eq!(ScrollViewerWidget::click(&sv, bounds, Point { x: 9, y: 4 }), ScrollClick::Scroll { vertical: true, offset: 16 });
}

#[test]
fn bring_into_view_scrolls() {
    let mut sv = viewer();
    sv.v_offset = 10;
    let bounds = r(0, 0, 10, 6);
    assert_eq!(ScrollViewerWidget::bring_into_view(&sv, bounds, r(1, 7, 3, 1)), (Some(4294901773), None));
    assert_eq!(ScrollViewerWidget::bring_into_view(&sv, bounds, r(1, 2, 3, 1)), (None, None));
    sv.has_virtual_child = true;
    assert_eq!(ScrollViewerWidget::bring_into_view(&sv, bounds, r(1, 7, 3, 1)), (None, None));
}
