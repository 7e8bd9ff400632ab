use tuifw::input::{InputLine, IntValidator, Validator, InputLineWidget, CMD_INPUT_LINE_IS_VALID_CHANGED};
use tuifw::event::{Event, CMD_GOT_PRIMARY_FOCUS, CMD_LOST_PRIMARY_FOCUS};
use tuifw::screen::Key;
use tuifw::geom::{Point, Vector, Rect};

fn line(width: i16) -> InputLine<IntValidator> {
    let mut l: InputLine<IntValidator> = InputLine::new();
    l.width = width;
    l
}

fn text(l: &InputLine<IntValidator>) -> String {
    l.text.iter().collect()
}

#[test]
fn int_validator_accepts_range() {
    let v = IntValidator { min: -5, max: 100 };
    assert!(v.is_valid(false, "42"));
    assert!(v.is_valid(false, "-5"));
    assert!(!v.is_valid(false, "101"));
    assert!(!v.is_valid(false, "4x"));
    assert!(!v.is_valid(false, ""));
    assert!(v.is_valid(true, ""));
    assert!(v.is_numeric());
}

#[test]
fn typing_inserts_at_cursor() {
    let mut l = line(10);
    for c in "abc".chars() {
        assert_eq!(l.update(Event::Key(Key::Char(c)), true), (true, 0));
    }
    assert_eq!(text(&l), "abc");
    assert_eq!(l.cursor, 3);
    l.update(Event::Key(Key::Left), true);
    l.update(Event::Key(Key::Char('x')), true);
    assert_eq!(text(&l), "abxc");
    assert_eq!(l.cursor, 3);
}

#[test]
fn typing_disabled_is_not_handled() {
    let mut l = line(10);
    assert_eq!(l.update(Event::Key(Key::Char('a')), false), (false, 0));
    assert_eq!(text(&l), "");
}

#[test]
fn backspace_and_delete() {
    let mut l = line(10);
    for c in "abcd".chars() {
        l.update(Event::Key(Key::Char(c)), true);
    }
    assert_eq!(l.update(Event::Key(Key::Backspace), true), (true, 0));
    assert_eq!(text(&l), "abc");
    l.update(Event::Key(Key::Home), true);
    assert_eq!(l.cursor, 0);
    assert_eq!(l.update(Event::Key(Key::Delete), true), (true, 0));
    assert_eq!(text(&l), "bc");
    l.update(Event::Key(Key::End), true);
    assert_eq!(l.cursor, 2);
    assert_eq!(l.update(Event::Key(Key::Delete), true), (true, 0));
    assert_eq!(text(&l), "bc");
}

#[test]
fn view_scrolls_to_follow_cursor() {
    let mut l = line(3);
    for c in "abcdef".chars() {
        l.update(Event::Key(Key::Char(c)), true);
    }
    assert_eq!(l.cursor, 6);
    assert_eq!((l.view_start, l.view_end), (3, 6));
    l.update(Event::Key(Key::Home), true);
    assert_eq!((l.view_start, l.view_end), (0, 3));
}

#[test]
fn validity_changes_are_counted() {
    let mut l = line(10);
    l.validator = Some(IntValidator { min: 0, max: 9 });
    assert_eq!(l.update(Event::Key(Key::Char('x')), true), (true, 1));
    assert!(!l.is_valid);
    assert_eq!(l.update(Event::Key(Key::Backspace), true), (true, 0));
    assert!(!l.is_valid);
    assert!(!l.editing);
    assert_eq!(l.update(Event::Key(Key::Char('5')), true), (true, 1));
    assert!(l.is_valid);
    assert!(l.editing);
    assert_eq!(CMD_INPUT_LINE_IS_VALID_CHANGED, 110);
}

#[test]
fn focus_commands() {
    let mut l = line(10);
    l.validator = Some(IntValidator { min: 0, max: 9 });
    assert_eq!(l.update(Event::Cmd(CMD_GOT_PRIMARY_FOCUS), true), (false, 0));
    assert!(l.editing);
    assert_eq!(l.update(Event::Cmd(CMD_LOST_PRIMARY_FOCUS), true), (false, 1));
    assert!(!l.editing);
    assert!(!l.is_valid);
}

#[test]
fn numeric_input_is_right_aligned() {
    let mut l = line(5);
    l.validator = Some(IntValidator { min: 0, max: 999 });
    for c in "12".chars() {
        l.update(Event::Key(Key::Char(c)), true);
    }
    assert_eq!(l.view_padding, 3);
}

#[test]
fn widget_measure_arrange_look() {
    assert_eq!(InputLineWidget::measure(Some(12)), Vector { x: 12, y: 1 });
    assert_eq!(InputLineWidget::measure(None), Vector { x: 1, y: 1 });
    let mut l = line(0);
    for c in "hi".chars() {
        l.update(Event::Key(Key::Char(c)), true);
    }
    let size = InputLineWidget::arrange(&mut l, Rect { tl: Point { x: 0, y: 0 }, size: Vector { x: 7, y: 1 } }, true);
    assert_eq!(size, Vector { x: 7, y: 1 });
    assert_eq!(l.width, 5);
    assert_eq!(l.cursor, 2);
    let look = InputLineWidget::look(&l, true, true);
    assert_eq!(look.color, 3);
    assert_eq!(look.text_x, 1);
    assert!(!look.more_left);
    assert!(!look.more_right);
    assert_eq!(look.cursor_x, Some(3));
    assert_eq!(InputLineWidget::look(&l, false, false).color, 1);
}
