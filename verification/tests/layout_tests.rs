use tuifw::geom::{Point, Vector, Rect, HAlign};
use tuifw::panels::{StackPanelWidget, StretchPanelWidget, DockPanelWidget, Dock, GridWidget, GridLayout, max_size_of};
use tuifw::widgets::{CanvasWidget, BackgroundWidget, FrameWidget, ContentPresenterWidget, StaticTextWidget, LabelWidget, ButtonWidget, CheckBoxWidget, RadioButtonWidget};

fn v(x: i16, y: i16) -> Vector { Vector { x, y } }
fn r(x: i16, y: i16, w: i16, h: i16) -> Rect { Rect { tl: Point { x, y }, size: Vector { x: w, y: h } } }

#[test]
fn stack_measure_vertical_and_horizontal() {
    let ds = [v(3, 1), v(5, 2), v(2, 4)];
    assert_eq!(StackPanelWidget::measure(true, &ds), v(5, 7));
    assert_eq!(StackPanelWidget::measure(false, &ds), v(10, 4));
    assert_eq!(StackPanelWidget::measure(true, &[]), v(0, 0));
    assert_eq!(StackPanelWidget::child_request(true, Some(8), Some(9)), (Some(8), None));
    assert_eq!(StackPanelWidget::child_request(false, Some(8), Some(9)), (None, Some(9)));
}

#[test]
fn stack_arrange_places_in_order() {
    let ds = [v(3, 1), v(5, 2)];
    let (rects, size) = StackPanelWidget::arrange(true, r(1, 1, 10, 10), &ds);
    assert_eq!(rects, vec![r(1, 1, 10, 1), r(1, 2, 10, 2)]);
    assert_eq!(size, v(10, 3));
    let (rects, size) = StackPanelWidget::arrange(false, r(0, 0, 10, 4), &ds);
    assert_eq!(rects, vec![r(0, 0, 3, 4), r(3, 0, 5, 4)]);
    assert_eq!(size, v(8, 4));
}

#[test]
fn grid_lays_out_as_stack() {
    let ds = [v(3, 1), v(5, 2)];
    assert_eq!(GridWidget::measure(true, &ds), v(5, 3));
    assert_eq!(GridLayout::new(), GridLayout { row: 0, column: 0, row_span: 1, column_span: 1 });
}

#[test]
fn dock_measure_steps() {
    let s = DockPanelWidget::measure_start(Some(20), Some(10));
    assert_eq!(DockPanelWidget::docked_request(&s, Dock::Left), (None, Some(10)));
    let s = DockPanelWidget::docked_step(s, Dock::Left, v(4, 3));
    assert_eq!(s.available_width, Some(16));
    assert_eq!(DockPanelWidget::docked_request(&s, Dock::Top), (Some(16), None));
    let s = DockPanelWidget::docked_step(s, Dock::Top, v(16, 2));
    assert_eq!(s.available_height, Some(8));
    assert_eq!(DockPanelWidget::fill_request(&s), (Some(16), Some(8)));
    let s = DockPanelWidget::fill_step(s, v(5, 5));
    assert_eq!(DockPanelWidget::measure_result(&s), v(20, 7));
}

#[test]
fn dock_measure_whole_pass() {
    let docks = [Some(Dock::Left), None, Some(Dock::Top)];
    let desired = [v(4, 3), v(5, 5), v(16, 2)];
    assert_eq!(DockPanelWidget::measure(Some(20), Some(10), &docks, &desired), v(20, 7));
}

#[test]
fn dock_available_saturates_at_zero() {
    let s = DockPanelWidget::measure_start(Some(3), None);
    let s = DockPanelWidget::docked_step(s, Dock::Right, v(5, 1));
    assert_eq!(s.available_width, Some(0));
    assert_eq!(s.available_height, None);
}

#[test]
fn dock_arrange_places_sides_then_fill() {
    let docks = [Some(Dock::Left), None, Some(Dock::Bottom)];
    let desired = [v(4, 3), v(5, 5), v(16, 2)];
    let filled = [v(0, 0), v(16, 8), v(0, 0)];
    let (rects, size) = DockPanelWidget::arrange(r(0, 0, 20, 10), &docks, &desired, &filled);
    assert_eq!(rects, vec![r(0, 0, 4, 10), r(4, 0, 16, 8), r(4, 8, 16, 2)]);
    assert_eq!(size, v(20, 10));
}

#[test]
fn max_of_sizes() {
    assert_eq!(max_size_of(&[v(1, 5), v(3, 2)]), v(3, 5));
    assert_eq!(max_size_of(&[]), v(0, 0));
}

#[test]
fn canvas_background_presenter() {
    assert_eq!(CanvasWidget::measure(Some(7), None), v(7, 1));
    assert_eq!(CanvasWidget::child_bounds(Point { x: 2, y: 3 }, v(4, 1)), r(2, 3, 4, 1));
    assert_eq!(CanvasWidget::arrange(r(1, 1, 5, 6)), v(5, 6));
    assert_eq!(BackgroundWidget::measure(&[v(1, 5), v(3, 2)]), v(3, 5));
    assert_eq!(BackgroundWidget::arrange(r(0, 0, 5, 6)), (r(0, 0, 5, 6), v(5, 6)));
    assert_eq!(ContentPresenterWidget::arrange(r(0, 0, 5, 6), &[v(2, 2)]), (r(0, 0, 5, 6), v(2, 2)));
}

#[test]
fn frame_border_and_title() {
    assert_eq!(FrameWidget::child_request(Some(10), None), (Some(8), None));
    assert_eq!(FrameWidget::measure(&[v(3, 1)]), v(5, 3));
    assert_eq!(FrameWidget::arrange(r(0, 0, 10, 5)), (r(1, 1, 8, 3), v(10, 5)));
    assert_eq!(FrameWidget::title_layout(r(0, 0, 20, 5), 4, HAlign::Center), (true, r(8, 0, 4, 1)));
    assert_eq!(FrameWidget::title_layout(r(0, 0, 20, 5), 4, HAlign::Left), (true, r(2, 0, 4, 1)));
    assert_eq!(FrameWidget::title_layout(r(0, 0, 8, 5), 6, HAlign::Left), (false, r(2, 0, 4, 1)));
}

#[test]
fn text_widgets_measure() {
    assert_eq!(StaticTextWidget::measure("hello"), v(5, 1));
    assert_eq!(LabelWidget::measure("~O~pen"), v(4, 1));
    assert_eq!(ButtonWidget::measure("~O~K"), v(4, 1));
    assert_eq!(CheckBoxWidget::measure(""), v(3, 1));
    assert_eq!(CheckBoxWidget::measure("~B~old"), v(8, 1));
    assert_eq!(RadioButtonWidget::measure("One"), v(7, 1));
}

#[test]
fn stretch_panel_shares_length() {
    assert_eq!(StretchPanelWidget::child_request(true, Some(5), Some(20), 7), (Some(5), Some(7)));
    assert_eq!(StretchPanelWidget::child_request(true, Some(5), None, 7), (Some(5), None));
    assert_eq!(StretchPanelWidget::child_request(false, Some(5), Some(20), 2), (Some(2), Some(20)));
    assert_eq!(StretchPanelWidget::measure(true, &[v(4, 3), v(7, 2)]), v(7, 5));
    let (rects, size) = StretchPanelWidget::arrange(true, r(1, 2, 10, 9), &[3, 6]);
    assert_eq!(rects, vec![r(1, 2, 10, 3), r(1, 5, 10, 6)]);
    assert_eq!(size, v(10, 9));
    let (rects, size) = StretchPanelWidget::arrange(false, r(0, 0, 8, 4), &[5, 3]);
    assert_eq!(rects, vec![r(0, 0, 5, 4), r(5, 0, 3, 4)]);
    assert_eq!(size, v(8, 4));
}
