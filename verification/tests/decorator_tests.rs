use tuifw::decorators::{BorderDecoratorBehavior, BorderLook, BorderPaddings, BorderPart, LabelDecoratorBehavior, LineDecoratorBehavior, Redo, TextDecoratorBehavior, ViewColors, frame_char, window_border};
use tuifw::text::graphemes_width;
use tuifw::screen::{Bg, Fg};
use tuifw::dock_view::Orient;
use tuifw::geom::{Point, Rect, Vector};

fn rect(x: i16, y: i16, w: i16, h: i16) -> Rect {
    Rect { tl: Point { x, y }, size: Vector { x: w, y: h } }
}

#[test]
fn border_padding_rule() {
    assert!(BorderDecoratorBehavior::has_padding(true, "", "┌", ""));
    assert!(BorderDecoratorBehavior::has_padding(true, "│", "", ""));
    assert!(!BorderDecoratorBehavior::has_padding(true, "", "", ""));
    assert!(!BorderDecoratorBehavior::has_padding(false, "│", "┌", "└"));
}

#[test]
fn border_edge_text() {
    assert_eq!(BorderDecoratorBehavior::edge_text("─", "┌", "┐"), "─");
    assert_eq!(BorderDecoratorBehavior::edge_text("", "┌", ""), " ");
    assert_eq!(BorderDecoratorBehavior::edge_text("", "", ""), "");
}

#[test]
fn border_sizes() {
    let all = BorderPaddings { l: true, t: true, r: true, b: true };
    let left_only = BorderPaddings { l: true, t: false, r: false, b: false };
    assert_eq!(BorderDecoratorBehavior::children_measure_size(all, (Some(10), None)), (Some(8), None));
    assert_eq!(BorderDecoratorBehavior::children_measure_size(all, (Some(1), Some(5))), (Some(0), Some(3)));
    assert_eq!(BorderDecoratorBehavior::children_measure_size(left_only, (Some(10), Some(5))), (Some(9), Some(5)));
    assert_eq!(BorderDecoratorBehavior::desired_size(all, Vector { x: 8, y: 3 }), Vector { x: 10, y: 5 });
    assert_eq!(BorderDecoratorBehavior::desired_size(all, Vector { x: -1, y: -2 }), Vector { x: -1, y: -1 });
    assert_eq!(BorderDecoratorBehavior::desired_size(left_only, Vector { x: 8, y: 3 }), Vector { x: 9, y: 3 });
}

#[test]
fn border_padding_round_trip_example() {
    let all = BorderPaddings { l: true, t: true, r: false, b: true };
    let inner = BorderDecoratorBehavior::children_measure_size(all, (Some(7), Some(4)));
    let outer = BorderDecoratorBehavior::desired_size(all, Vector { x: inner.0.unwrap(), y: inner.1.unwrap() });
    assert_eq!(outer, Vector { x: 7, y: 4 });
}

#[test]
fn border_part_rects() {
    let size = Vector { x: 6, y: 4 };
    assert_eq!(BorderDecoratorBehavior::part_rect(BorderPart::Tl, size), rect(0, 0, 1, 1));
    assert_eq!(BorderDecoratorBehavior::part_rect(BorderPart::Tr, size), rect(5, 0, 1, 1));
    assert_eq!(BorderDecoratorBehavior::part_rect(BorderPart::Bl, size), rect(0, 3, 1, 1));
    assert_eq!(BorderDecoratorBehavior::part_rect(BorderPart::Br, size), rect(5, 3, 1, 1));
    assert_eq!(BorderDecoratorBehavior::part_rect(BorderPart::L, size), rect(0, 0, 1, 4));
    assert_eq!(BorderDecoratorBehavior::part_rect(BorderPart::T, size), rect(0, 0, 6, 1));
    assert_eq!(BorderDecoratorBehavior::part_rect(BorderPart::R, size), rect(5, 0, 1, 4));
    assert_eq!(BorderDecoratorBehavior::part_rect(BorderPart::B, size), rect(0, 3, 6, 1));
}

#[test]
fn window_frame_chars() {
    assert_eq!(frame_char(BorderPart::Tl, true), '╔');
    assert_eq!(frame_char(BorderPart::Tl, false), '┌');
    assert_eq!(frame_char(BorderPart::Br, true), '╝');
    assert_eq!(frame_char(BorderPart::Br, false), '┘');
    assert_eq!(frame_char(BorderPart::R, true), '║');
    assert_eq!(frame_char(BorderPart::B, false), '─');
}

#[test]
fn line_decorator_geometry() {
    assert_eq!(LineDecoratorBehavior::size(Orient::Hor, 3), Vector { x: 3, y: 1 });
    assert_eq!(LineDecoratorBehavior::size(Orient::Vert, 5), Vector { x: 1, y: 5 });
    assert_eq!(LineDecoratorBehavior::cell(Orient::Vert, 2), Point { x: 0, y: 2 });
    assert_eq!(LineDecoratorBehavior::far_cell(Orient::Hor, 3), Point { x: 2, y: 0 });
    assert_eq!(LineDecoratorBehavior::far_cell(Orient::Vert, 0), Point { x: 0, y: -1 });
}

fn colors() -> ViewColors {
    ViewColors { fg: Fg::White, bg: Bg::Blue, attr: 0 }
}

fn plain_border() -> BorderLook {
    BorderLook {
        enable: BorderPaddings { l: true, t: true, r: true, b: true },
        tl: String::new(),
        tr: String::new(),
        bl: String::new(),
        br: String::new(),
        l: String::new(),
        t: String::new(),
        r: String::new(),
        b: String::new(),
        fill: String::new(),
        colors: colors(),
    }
}

#[test]
fn window_border_looks() {
    let focused = window_border(true, colors());
    assert_eq!(focused.tl, "╔");
    assert_eq!(focused.tr, "╗");
    assert_eq!(focused.bl, "╚");
    assert_eq!(focused.br, "╝");
    assert_eq!(focused.l, "║");
    assert_eq!(focused.t, "═");
    assert_eq!(focused.r, "║");
    assert_eq!(focused.b, "═");
    assert_eq!(focused.fill, " ");
    assert_eq!(focused.enable, BorderPaddings { l: true, t: false, r: true, b: true });
    assert_eq!(focused.paddings(), BorderPaddings { l: true, t: false, r: true, b: true });
    let plain = window_border(false, colors());
    assert_eq!(plain.tl, "┌");
    assert_eq!(plain.tr, "┐");
    assert_eq!(plain.bl, "└");
    assert_eq!(plain.br, "┘");
    assert_eq!(plain.l, "│");
    assert_eq!(plain.t, "─");
    assert_eq!(plain.r, "│");
    assert_eq!(plain.b, "─");
}

#[test]
fn window_focus_redraws_frame_only() {
    let a = window_border(false, colors());
    let b = window_border(true, colors());
    assert_eq!(a.redo(&b), vec![
        Redo::Part(BorderPart::Tl), Redo::Part(BorderPart::Tr), Redo::Part(BorderPart::Bl),
        Redo::Part(BorderPart::Br), Redo::Part(BorderPart::L), Redo::Part(BorderPart::T),
        Redo::Part(BorderPart::R), Redo::Part(BorderPart::B),
    ]);
    assert_eq!(a.redo(&window_border(false, colors())), vec![]);
}

#[test]
fn border_redo_rules() {
    let a = plain_border();
    let mut b = plain_border();
    b.tl = String::from("+");
    assert_eq!(a.redo(&b), vec![Redo::Measure, Redo::Measure, Redo::Part(BorderPart::Tl)]);
    let mut c = plain_border();
    c.colors.fg = Fg::Black;
    c.fill = String::from(".");
    assert_eq!(a.redo(&c), vec![Redo::Render, Redo::Render]);
    let mut d = plain_border();
    d.enable.l = false;
    assert_eq!(a.redo(&d), vec![]);
    let mut e = plain_border();
    e.l = String::from("|");
    e.enable.l = false;
    assert_eq!(a.redo(&e), vec![Redo::Part(BorderPart::L)]);
}

#[test]
fn text_width_by_grapheme_clusters() {
    assert_eq!(graphemes_width(""), 0);
    assert_eq!(graphemes_width("abc"), 3);
    assert_eq!(graphemes_width("a\u{310}e\u{301}o\u{308}\u{332}"), 3);
    assert_eq!(graphemes_width("\u{65e5}\u{672c}"), 4);
    assert_eq!(graphemes_width("a\r\nb"), 3);
    assert_eq!(graphemes_width("\u{1}"), 1);
}

#[test]
fn text_and_label_decorator_layout() {
    assert_eq!(TextDecoratorBehavior::desired_size("Hello"), Vector { x: 5, y: 1 });
    assert_eq!(TextDecoratorBehavior::render_bounds("Hi"), rect(0, 0, 2, 1));
    assert_eq!(TextDecoratorBehavior::children_measure_size(), (Some(0), Some(0)));
    assert_eq!(TextDecoratorBehavior::children_arrange_bounds(), rect(0, 0, 0, 0));
    assert_eq!(LabelDecoratorBehavior::desired_size("\u{65e5}x"), Vector { x: 3, y: 1 });
    assert_eq!(LabelDecoratorBehavior::render_bounds(""), rect(0, 0, 0, 1));
}
