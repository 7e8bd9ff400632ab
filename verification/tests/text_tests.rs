use tuifw::text::{char_width, text_width, label, label_width};
use tuifw::text_edit::{Char, first_char, last_char};

#[test]
fn char_width_of_ascii_and_controls() {
    assert_eq!(char_width('a'), 1);
    assert_eq!(char_width(' '), 1);
    assert_eq!(char_width('\0'), 0);
    assert_eq!(char_width('\n'), 0);
    assert_eq!(char_width('\u{7f}'), 0);
}

#[test]
fn char_width_of_wide_char() {
    assert_eq!(char_width('中'), 2);
}

#[test]
fn text_width_sums_char_widths() {
    assert_eq!(text_width(""), 0);
    assert_eq!(text_width("abc"), 3);
    assert_eq!(text_width("a\tb"), 2);
    assert_eq!(text_width("中文"), 4);
}

#[test]
fn label_finds_hotkey() {
    assert_eq!(label("~F~ile"), Some('f'));
    assert_eq!(label("E~x~it"), Some('x'));
    assert_eq!(label("Plain"), None);
    assert_eq!(label(""), None);
}

#[test]
fn label_double_tilde_is_literal() {
    assert_eq!(label("a~~b"), None);
    assert_eq!(label("~~"), None);
    assert_eq!(label_width("a~~b"), 3);
    assert_eq!(label_width("~~"), 1);
}

#[test]
fn label_width_skips_markers() {
    assert_eq!(label_width("~F~ile"), 4);
    assert_eq!(label_width("E~x~it"), 4);
    assert_eq!(label_width("Plain"), 5);
    assert_eq!(label_width(""), 0);
}

#[test]
fn label_width_is_width_of_shown_text() {
    for (marked, shown) in [("~F~ile", "File"), ("a~~b", "a~b"), ("~S~ave ~A~s", "Save As"), ("x~", "x")] {
        assert_eq!(label_width(marked), text_width(shown));
    }
}

#[test]
fn label_hotkey_lowercases() {
    assert_eq!(label("~Q~uit"), Some('q'));
    assert_eq!(label("~7~"), Some('7'));
}

#[test]
fn first_and_last_char_of_text() {
    assert!(first_char("\r\nabc", "\r\n") == Some(Char::LineBreak));
    assert!(first_char("abc", "\r\n") == Some(Char::Char('a')));
    assert!(first_char("", "\r\n") == None);
    assert!(last_char("abc\r\n", "\r\n") == Some(Char::LineBreak));
    assert!(last_char("abc", "\r\n") == Some(Char::Char('c')));
    assert!(last_char("", "\n") == None);
}

#[test]
fn char_width_and_len() {
    assert_eq!(Char::LineBreak.width(), 1);
    assert_eq!(Char::Char('\0').width(), 0);
    assert_eq!(Char::Char('x').width(), 1);
    assert_eq!(Char::Char('x').len("\r\n"), 1);
    assert_eq!(Char::Char('é').len("\r\n"), 2);
    assert_eq!(Char::Char('中').len("\r\n"), 3);
    assert_eq!(Char::LineBreak.len("\r\n"), 2);
}

#[test]
fn label_spans_place_runs() {
    let spans = tuifw::text::label_spans(3, "~F~ile ~~x");
    assert_eq!(spans.len(), 5);
    let texts: Vec<String> = spans.iter().map(|s| s.text.iter().collect()).collect();
    assert_eq!(texts, vec!["", "F", "ile ", "~", "x"]);
    let xs: Vec<i16> = spans.iter().map(|s| s.x).collect();
    assert_eq!(xs, vec![3, 3, 4, 8, 9]);
    let hot: Vec<bool> = spans.iter().map(|s| s.hotkey).collect();
    assert_eq!(hot, vec![false, true, false, false, false]);
}

#[test]
fn hotkey_chars_are_lowercase() {
    assert_eq!(tuifw::text::hotkey_char('F'), 'f');
    assert_eq!(tuifw::text::hotkey_char('f'), 'f');
    assert_eq!(tuifw::text::hotkey_char('7'), '7');
}
