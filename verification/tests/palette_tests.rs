use tuifw::palette::{Palette, PaletteEntry, root_palette, COLOR_TEXT, COLOR_FRAME, COLOR_IN_FRAME, COLOR_BUTTON_PRESSED};
use tuifw::screen::{Fg, Bg};

#[test]
fn palette_get_defaults_to_identity() {
    let p = Palette::new();
    assert_eq!(p.get(0), PaletteEntry::Index(0));
    assert_eq!(p.get(200), PaletteEntry::Index(200));
}

#[test]
fn palette_set_then_get() {
    let mut p = Palette::new();
    p.set(3, PaletteEntry::Color(Fg::Red, Bg::Blue));
    assert_eq!(p.get(3), PaletteEntry::Color(Fg::Red, Bg::Blue));
    assert_eq!(p.get(2), PaletteEntry::Index(2));
    assert_eq!(p.get(4), PaletteEntry::Index(4));
    p.set(1, PaletteEntry::Index(12));
    assert_eq!(p.get(1), PaletteEntry::Index(12));
    assert_eq!(p.get(3), PaletteEntry::Color(Fg::Red, Bg::Blue));
}

#[test]
fn palette_set_last_index() {
    let mut p = Palette::new();
    p.set(255, PaletteEntry::Index(0));
    assert_eq!(p.get(255), PaletteEntry::Index(0));
    assert_eq!(p.get(254), PaletteEntry::Index(254));
}

#[test]
fn root_palette_colors() {
    let p = root_palette();
    assert_eq!(p.get(COLOR_TEXT), PaletteEntry::Color(Fg::LightGray, Bg::Transparent));
    assert_eq!(p.get(COLOR_FRAME), PaletteEntry::Color(Fg::LightGray, Bg::Black));
    assert_eq!(p.get(COLOR_IN_FRAME + COLOR_TEXT), PaletteEntry::Color(Fg::LightGray, Bg::Black));
    assert_eq!(p.get(COLOR_BUTTON_PRESSED), PaletteEntry::Color(Fg::Blue, Bg::Transparent));
    assert_eq!(p.get(0), PaletteEntry::Index(0));
}
