use tuifw::xaml_values::{
    bool_value, thickness_value, point_value, h_align_value, v_align_value, dock_value, focus_value,
    visibility_value, color_value, i16_value, u16_value, i32_value, ThicknessValue, Focus,
};
use tuifw::geom::{Point, HAlign, VAlign};
use tuifw::panels::Dock;
use tuifw::tree::Visibility;
use tuifw::screen::{Fg, Bg};

#[test]
fn bools() {
    assert_eq!(bool_value("True"), Some(true));
    assert_eq!(bool_value("False"), Some(false));
    assert_eq!(bool_value("true"), None);
}

#[test]
fn integers() {
    assert_eq!(i16_value("-7"), Some(-7));
    assert_eq!(i16_value("40000"), None);
    assert_eq!(u16_value("65535"), Some(65535));
    assert_eq!(u16_value("-1"), None);
    assert_eq!(i32_value("12"), Some(12));
    assert_eq!(i32_value(""), None);
}

#[test]
fn thicknesses() {
    assert_eq!(thickness_value("1,2,3,4"), Some(ThicknessValue::Sides(1, 2, 3, 4)));
    assert_eq!(thickness_value("5"), Some(ThicknessValue::All(5)));
    assert_eq!(thickness_value("-65535"), Some(ThicknessValue::All(-65535)));
    assert_eq!(thickness_value("70000"), None);
    assert_eq!(thickness_value("1,2"), None);
    assert_eq!(thickness_value("1,x,3,4"), None);
    assert_eq!(thickness_value("1,2,3,65536"), None);
}

#[test]
fn points() {
    assert_eq!(point_value("3,-4"), Some(Point { x: 3, y: -4 }));
    assert_eq!(point_value("3"), None);
    assert_eq!(point_value("40000,1"), None);
}

#[test]
fn keywords() {
    assert_eq!(h_align_value("Center"), Some(HAlign::Center));
    assert_eq!(h_align_value("Top"), None);
    assert_eq!(v_align_value("Bottom"), Some(VAlign::Bottom));
    assert_eq!(dock_value("Top"), Some(Dock::Top));
    assert_eq!(focus_value("Secondary"), Some(Focus::Secondary));
    assert_eq!(visibility_value("Collapsed"), Some(Visibility::Collapsed));
    assert_eq!(visibility_value("Gone"), None);
}

#[test]
fn colors() {
    assert_eq!(color_value("White/None"), Some((Fg::White, Bg::Transparent)));
    assert_eq!(color_value("Red/Blue"), Some((Fg::Red, Bg::Blue)));
    assert_eq!(color_value("Red"), None);
    assert_eq!(color_value("Pink/Blue"), None);
    assert_eq!(color_value("Red/Blue/Green"), None);
}

#[test]
fn integer_texts_read_as_from_str_reads_them() {
    assert_eq!(i16_value("+7"), Some(7));
    assert_eq!(i16_value("-0"), Some(0));
    assert_eq!(i16_value("-32768"), Some(-32768));
    assert_eq!(i16_value("32768"), None);
    assert_eq!(i16_value("-"), None);
    assert_eq!(i16_value(" 1"), None);
    assert_eq!(u16_value("+65535"), Some(65535));
    assert_eq!(u16_value("-0"), None);
    assert_eq!(u16_value(""), None);
    assert_eq!(i32_value("007"), Some(7));
    assert_eq!(i32_value("1e3"), None);
}
