use tuifw::text_edit::{TextEdit, TextEditWidget, TextEditDraw, Line};
use tuifw::geom::{Point, Rect, Vector};
use tuifw::event::Event;
use tuifw::screen::{Key, Fg};

fn line(rs: usize, re: usize, vs: usize, ve: usize, filled: bool, padding: u16) -> Line {
    Line { range_start: rs, range_end: re, view_start: vs, view_end: ve, filled, padding }
}

fn editor(text: &str, w: i16, h: i16) -> TextEdit {
    let mut e = TextEdit::new();
    e.set_text(text);
    let size = TextEditWidget::arrange(&mut e, Rect { tl: Point { x: 0, y: 0 }, size: Vector { x: w, y: h } });
    assert_eq!(size, Vector { x: w, y: h });
    e
}

#[test]
fn new_editor_is_empty() {
    let e = TextEdit::new();
    assert!(e.text.is_empty());
    assert_eq!(e.line_break, vec!['\n']);
    assert!(e.lines.is_empty());
    assert_eq!(e.cursor, 0);
    assert_eq!(e.cursor_line, None);
}

#[test]
fn arrange_lays_lines_out() {
    let e = editor("ab\ncd", 10, 3);
    assert_eq!(e.lines, vec![
        line(0, 3, 0, 3, false, 0),
        line(3, 5, 3, 5, false, 0),
        line(5, 5, 5, 5, false, 0),
    ]);
    assert_eq!(e.cursor_line, Some(0));
}

#[test]
fn narrow_view_is_filled() {
    let e = editor("abcd", 2, 1);
    assert_eq!(e.lines, vec![line(0, 4, 0, 2, true, 0)]);
}

#[test]
fn cursor_moves_right_and_stops_at_line_break() {
    let mut e = editor("ab\ncd", 10, 3);
    assert!(e.cursor_right());
    assert!(e.cursor_right());
    assert_eq!(e.cursor, 2);
    assert!(!e.cursor_right());
    assert_eq!(e.cursor, 2);
}

#[test]
fn cursor_moves_left_and_stops_at_line_start() {
    let mut e = editor("ab\ncd", 10, 3);
    e.cursor_right();
    e.cursor_right();
    assert!(e.cursor_left());
    assert_eq!(e.cursor, 1);
    assert!(e.cursor_left());
    assert!(!e.cursor_left());
    assert_eq!(e.cursor, 0);
}

#[test]
fn cursor_moves_down_to_same_column() {
    let mut e = editor("ab\ncd", 10, 3);
    e.cursor_right();
    e.cursor_right();
    assert!(e.cursor_down());
    assert_eq!(e.cursor, 5);
    assert_eq!(e.cursor_line, Some(1));
    assert!(!e.cursor_down());
    assert_eq!(e.cursor, 5);
}

#[test]
fn typing_inserts_and_scrolls() {
    let mut e = editor("ab\ncd", 10, 3);
    e.cursor_right();
    e.cursor_right();
    e.cursor_down();
    assert!(TextEditWidget::update(&mut e, Event::Key(Key::Char('x'))));
    assert_eq!(e.text, vec!['a', 'b', '\n', 'c', 'd', 'x']);
    assert_eq!(e.cursor, 6);
    assert_eq!(e.column, 2);
    assert_eq!(e.cursor_line, Some(1));
    assert_eq!(e.lines, vec![
        line(0, 3, 2, 3, false, 0),
        line(3, 6, 5, 6, false, 0),
        line(6, 6, 6, 6, false, 0),
    ]);
}

#[test]
fn insert_keeps_cursor_before_text() {
    let mut e = editor("ab\ncd", 10, 3);
    e.insert("xy");
    assert_eq!(e.text, vec!['x', 'y', 'a', 'b', '\n', 'c', 'd']);
    assert_eq!(e.cursor, 0);
    assert_eq!(e.lines, vec![
        line(0, 5, 0, 5, false, 0),
        line(5, 7, 5, 7, false, 0),
        line(7, 7, 7, 7, false, 0),
    ]);
}

#[test]
fn scroll_left_walks_back() {
    let mut e = editor("ab\ncd", 10, 3);
    e.cursor_right();
    e.cursor_right();
    e.cursor_down();
    TextEditWidget::update(&mut e, Event::Key(Key::Char('x')));
    e.scroll_left(1);
    assert_eq!(e.column, 1);
    assert_eq!(e.lines, vec![
        line(0, 3, 1, 3, false, 0),
        line(3, 6, 4, 6, false, 0),
        line(6, 6, 6, 6, false, 0),
    ]);
}

#[test]
fn wide_char_cut_by_view_edge() {
    let mut e = editor("\u{6f22}x", 10, 1);
    e.scroll_right(1);
    assert_eq!(e.column, 1);
    assert_eq!(e.lines, vec![line(0, 2, 1, 2, false, 1)]);
    e.scroll_left(1);
    assert_eq!(e.column, 0);
    assert_eq!(e.lines, vec![line(0, 2, 0, 2, false, 0)]);
}

#[test]
fn two_char_line_break() {
    let mut e = TextEdit::new();
    e.set_line_break("\r\n");
    e.set_text("a\r\nb");
    TextEditWidget::arrange(&mut e, Rect { tl: Point { x: 0, y: 0 }, size: Vector { x: 10, y: 2 } });
    assert_eq!(e.lines, vec![line(0, 3, 0, 3, false, 0), line(3, 4, 3, 4, false, 0)]);
    assert!(e.cursor_right());
    assert!(!e.cursor_right());
    assert_eq!(e.cursor, 1);
}

#[test]
fn look_draws_lines_and_cursor() {
    let e = editor("ab\ncd", 10, 3);
    let draws = e.look(true);
    assert_eq!(draws.len(), 5);
    match &draws[0] {
        TextEditDraw::Text(p, fg, t) => {
            assert_eq!(*p, Point { x: 0, y: 0 });
            assert_eq!(*fg, Fg::LightGray);
            assert_eq!(*t, vec!['a', 'b']);
        },
        _ => panic!("text expected"),
    }
    match &draws[1] {
        TextEditDraw::Cursor(p) => assert_eq!(*p, Point { x: 0, y: 0 }),
        _ => panic!("cursor expected"),
    }
    match &draws[2] {
        TextEditDraw::Text(p, fg, t) => {
            assert_eq!(*p, Point { x: 0, y: 1 });
            assert_eq!(*fg, Fg::LightGray);
            assert_eq!(*t, vec!['c', 'd']);
        },
        _ => panic!("text expected"),
    }
    match &draws[3] {
        TextEditDraw::Text(p, fg, t) => {
            assert_eq!(*p, Point { x: 2, y: 1 });
            assert_eq!(*fg, Fg::DarkGray);
            assert_eq!(*t, vec!['%']);
        },
        _ => panic!("text expected"),
    }
    match &draws[4] {
        TextEditDraw::Text(p, fg, t) => {
            assert_eq!(*p, Point { x: 0, y: 2 });
            assert_eq!(*fg, Fg::DarkGray);
            assert_eq!(*t, vec!['~']);
        },
        _ => panic!("text expected"),
    }
    assert_eq!(e.look(false).len(), 4);
}

#[test]
fn measure_takes_offered_room() {
    assert_eq!(TextEditWidget::measure(Some(7), None), Vector { x: 7, y: 1 });
    assert_eq!(TextEditWidget::measure(None, Some(3)), Vector { x: 1, y: 3 });
}

#[test]
fn unhandled_event() {
    let mut e = editor("ab", 10, 1);
    assert!(!TextEditWidget::update(&mut e, Event::Cmd(1)));
    assert!(!TextEditWidget::update(&mut e, Event::Key(Key::Escape)));
    assert_eq!(e.cursor, 0);
}
