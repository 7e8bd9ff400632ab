//! The literal values of the markup that describes window trees: how the
//! text of a literal reads as a value of its type.  A text that does not
//! read as one is not a literal of the type.

use vstd::prelude::*;
use crate::text::str_chars;
use crate::num::int_from_text;
use crate::input::{i32_from_str, parse_i32, chars_to_string};
use crate::xaml::chars_eq;
use crate::geom::{Point, HAlign, VAlign};
use crate::panels::Dock;
use crate::tree::Visibility;
use crate::screen::{Fg, Bg};

verus! {

/// What `i16::from_str` gives for a text: the integer it reads as, when
/// that is in range; `None` on error.
pub open spec fn i16_from_str(text: Seq<char>) -> Option<i16> {
    match int_from_text(text, true) {
        Some(v) => if i16::MIN <= v <= i16::MAX { Some(v as i16) } else { None },
        None => None,
    }
}

/// What `u16::from_str` gives for a text: the integer it reads as (with no
/// `-` sign), when that is in range; `None` on error.
pub open spec fn u16_from_str(text: Seq<char>) -> Option<u16> {
    match int_from_text(text, false) {
        Some(v) => if 0 <= v <= u16::MAX { Some(v as u16) } else { None },
        None => None,
    }
}

/// Calls `i16::from_str`.
///
/// Claimed, as its documentation gives it: an optional `+` or `-` sign, then
/// decimal digits only, in range; anything else is an error.
#[verifier::external_body]
fn parse_i16(text: &str) -> (r: Option<i16>)
    ensures
        r == i16_from_str(text@),
        text@.len() == 0 ==> r is None,
        (exists|i: int| 0 <= i < text@.len() && !('0' <= #[trigger] text@[i] <= '9') && text@[i] != '+' && text@[i] != '-')
            ==> r is None,
{
    <i16 as std::str::FromStr>::from_str(text).ok()
}

/// Calls `u16::from_str`.
///
/// Claimed, as its documentation gives it: an optional `+` sign, then
/// decimal digits only, in range; anything else is an error.
#[verifier::external_body]
fn parse_u16(text: &str) -> (r: Option<u16>)
    ensures
        r == u16_from_str(text@),
        text@.len() == 0 ==> r is None,
        (exists|i: int| 0 <= i < text@.len() && !('0' <= #[trigger] text@[i] <= '9') && text@[i] != '+' && text@[i] != '-')
            ==> r is None,
{
    <u16 as std::str::FromStr>::from_str(text).ok()
}

/// The pieces of `s` between its `sep` chars (one more piece than there
/// are `sep` chars).
pub open spec fn split_on(s: Seq<char>, sep: char) -> Seq<Seq<char>>
    decreases s.len(),
{
    if s.len() == 0 {
        seq![Seq::<char>::empty()]
    } else {
        let p = split_on(s.drop_last(), sep);
        if s.last() == sep {
            p.push(Seq::<char>::empty())
        } else {
            p.update(p.len() - 1, p.last().push(s.last()))
        }
    }
}

pub proof fn lemma_split_on_len(s: Seq<char>, sep: char)
    ensures
        split_on(s, sep).len() >= 1,
    decreases s.len(),
{
    if s.len() > 0 {
        lemma_split_on_len(s.drop_last(), sep);
    }
}

pub open spec fn pieces_of(segs: Seq<Vec<char>>) -> Seq<Seq<char>> {
    segs.map_values(|v: Vec<char>| v@)
}

/// The pieces of `cs` between its `sep` chars.
fn split_chars(cs: &Vec<char>, sep: char) -> (segs: Vec<Vec<char>>)
    ensures
        pieces_of(segs@) == split_on(cs@, sep),
{
    let mut segs: Vec<Vec<char>> = Vec::new();
    segs.push(Vec::new());
    let mut k: usize = 0;
    proof {
        assert(cs@.take(0) == Seq::<char>::empty());
        assert(pieces_of(segs@) =~= seq![Seq::<char>::empty()]);
    }
    while k < cs.len()
        invariant
            k <= cs@.len(),
            pieces_of(segs@) == split_on(cs@.take(k as int), sep),
            segs@.len() >= 1,
        decreases cs@.len() - k,
    {
        let c = cs[k];
        let ghost before = pieces_of(segs@);
        proof {
            assert(cs@.take(k as int + 1).drop_last() == cs@.take(k as int));
            assert(cs@.take(k as int + 1).last() == c);
        }
        if c == sep {
            segs.push(Vec::new());
            proof {
                assert(pieces_of(segs@) =~= before.push(Seq::<char>::empty()));
            }
        } else {
            let mut last = segs.pop().unwrap();
            last.push(c);
            segs.push(last);
            proof {
                assert(pieces_of(segs@) =~= before.update(before.len() - 1, before.last().push(c)));
            }
        }
        k = k + 1;
    }
    proof {
        assert(cs@.take(cs@.len() as int) == cs@);
    }
    segs
}

/// `cs` is the word `w`.
fn is_word(cs: &Vec<char>, w: &str) -> (r: bool)
    ensures
        r == (cs@ == w@),
{
    let wc = str_chars(w);
    chars_eq(cs, &wc)
}

fn i32_of(cs: &Vec<char>) -> (r: Option<i32>)
    ensures
        r == i32_from_str(cs@),
{
    let s = chars_to_string(cs.as_slice());
    parse_i32(&s)
}

fn i16_of(cs: &Vec<char>) -> (r: Option<i16>)
    ensures
        r == i16_from_str(cs@),
{
    let s = chars_to_string(cs.as_slice());
    parse_i16(&s)
}

/// `True` or `False`.
pub open spec fn bool_value_spec(s: Seq<char>) -> Option<bool> {
    if s == "True"@ {
        Some(true)
    } else if s == "False"@ {
        Some(false)
    } else {
        None
    }
}

pub fn bool_value(text: &str) -> (r: Option<bool>)
    ensures
        r == bool_value_spec(text@),
{
    let cs = str_chars(text);
    if is_word(&cs, "True") {
        Some(true)
    } else if is_word(&cs, "False") {
        Some(false)
    } else {
        None
    }
}

/// A decimal `i16`.
pub fn i16_value(text: &str) -> (r: Option<i16>)
    ensures
        r == i16_from_str(text@),
{
    parse_i16(text)
}

/// A decimal `u16`.
pub fn u16_value(text: &str) -> (r: Option<u16>)
    ensures
        r == u16_from_str(text@),
{
    parse_u16(text)
}

/// A decimal `i32`.
pub fn i32_value(text: &str) -> (r: Option<i32>)
    ensures
        r == i32_from_str(text@),
{
    parse_i32(text)
}

/// A thickness: one width for all four sides, or four (left, top, right,
/// bottom), each within `-65535 ..= 65535`.
#[derive(Clone, Copy, Debug, PartialEq, Eq, Structural)]
pub enum ThicknessValue {
    All(i32),
    Sides(i32, i32, i32, i32),
}

pub open spec fn in_band(v: i32) -> bool {
    -65535 <= v <= 65535
}

/// `a` or `l,t,r,b`, decimal integers within `-65535 ..= 65535`.
pub open spec fn thickness_value_spec(s: Seq<char>) -> Option<ThicknessValue> {
    let parts = split_on(s, ',');
    if parts.len() == 4 {
        match (i32_from_str(parts[0]), i32_from_str(parts[1]), i32_from_str(parts[2]), i32_from_str(parts[3])) {
            (Some(l), Some(t), Some(r), Some(b)) =>
                if in_band(l) && in_band(t) && in_band(r) && in_band(b) {
                    Some(ThicknessValue::Sides(l, t, r, b))
                } else {
                    None
                },
            _ => None,
        }
    } else if parts.len() == 1 {
        match i32_from_str(parts[0]) {
            Some(a) => if in_band(a) { Some(ThicknessValue::All(a)) } else { None },
            None => None,
        }
    } else {
        None
    }
}

pub fn thickness_value(text: &str) -> (r: Option<ThicknessValue>)
    ensures
        r == thickness_value_spec(text@),
{
    let cs = str_chars(text);
    let parts = split_chars(&cs, ',');
    proof {
        assert(pieces_of(parts@).len() == parts@.len());
    }
    if parts.len() == 4 {
        proof {
            assert(pieces_of(parts@)[0] == parts@[0]@);
            assert(pieces_of(parts@)[1] == parts@[1]@);
            assert(pieces_of(parts@)[2] == parts@[2]@);
            assert(pieces_of(parts@)[3] == parts@[3]@);
        }
        let l = i32_of(&parts[0]);
        let t = i32_of(&parts[1]);
        let r = i32_of(&parts[2]);
        let b = i32_of(&parts[3]);
        match (l, t, r, b) {
            (Some(l), Some(t), Some(r), Some(b)) => {
                let band = |v: i32| -> (ok: bool)
                    ensures ok == in_band(v)
                { -65535 <= v && v <= 65535 };
                if band(l) && band(t) && band(r) && band(b) {
                    Some(ThicknessValue::Sides(l, t, r, b))
                } else {
                    None
                }
            },
            _ => None,
        }
    } else if parts.len() == 1 {
        proof {
            assert(pieces_of(parts@)[0] == parts@[0]@);
        }
        match i32_of(&parts[0]) {
            Some(a) => if -65535 <= a && a <= 65535 { Some(ThicknessValue::All(a)) } else { None },
            None => None,
        }
    } else {
        None
    }
}

/// `x,y`, decimal `i16` values.
pub open spec fn point_value_spec(s: Seq<char>) -> Option<Point> {
    let parts = split_on(s, ',');
    if parts.len() == 2 {
        match (i16_from_str(parts[0]), i16_from_str(parts[1])) {
            (Some(x), Some(y)) => Some(Point { x, y }),
            _ => None,
        }
    } else {
        None
    }
}

pub fn point_value(text: &str) -> (r: Option<Point>)
    ensures
        r == point_value_spec(text@),
{
    let cs = str_chars(text);
    let parts = split_chars(&cs, ',');
    proof {
        assert(pieces_of(parts@).len() == parts@.len());
    }
    if parts.len() == 2 {
        proof {
            assert(pieces_of(parts@)[0] == parts@[0]@);
            assert(pieces_of(parts@)[1] == parts@[1]@);
        }
        match (i16_of(&parts[0]), i16_of(&parts[1])) {
            (Some(x), Some(y)) => Some(Point { x, y }),
            _ => None,
        }
    } else {
        None
    }
}

pub open spec fn h_align_value_spec(n: Seq<char>) -> Option<HAlign> {
    if n == "Left"@ {
        Some(HAlign::Left)
    }     else if n == "Center"@ {
        Some(HAlign::Center)
    }     else if n == "Right"@ {
        Some(HAlign::Right)
    } else {
        None
    }
}

pub fn h_align_value(text: &str) -> (r: Option<HAlign>)
    ensures
        r == h_align_value_spec(text@),
{
    let cs = str_chars(text);
    if is_word(&cs, "Left") {
        return Some(HAlign::Left);
    }
    if is_word(&cs, "Center") {
        return Some(HAlign::Center);
    }
    if is_word(&cs, "Right") {
        return Some(HAlign::Right);
    }
    None
}

pub open spec fn v_align_value_spec(n: Seq<char>) -> Option<VAlign> {
    if n == "Top"@ {
        Some(VAlign::Top)
    }     else if n == "Center"@ {
        Some(VAlign::Center)
    }     else if n == "Bottom"@ {
        Some(VAlign::Bottom)
    } else {
        None
    }
}

pub fn v_align_value(text: &str) -> (r: Option<VAlign>)
    ensures
        r == v_align_value_spec(text@),
{
    let cs = str_chars(text);
    if is_word(&cs, "Top") {
        return Some(VAlign::Top);
    }
    if is_word(&cs, "Center") {
        return Some(VAlign::Center);
    }
    if is_word(&cs, "Bottom") {
        return Some(VAlign::Bottom);
    }
    None
}

pub open spec fn dock_value_spec(n: Seq<char>) -> Option<Dock> {
    if n == "Left"@ {
        Some(Dock::Left)
    }     else if n == "Top"@ {
        Some(Dock::Top)
    }     else if n == "Right"@ {
        Some(Dock::Right)
    }     else if n == "Bottom"@ {
        Some(Dock::Bottom)
    } else {
        None
    }
}

pub fn dock_value(text: &str) -> (r: Option<Dock>)
    ensures
        r == dock_value_spec(text@),
{
    let cs = str_chars(text);
    if is_word(&cs, "Left") {
        return Some(Dock::Left);
    }
    if is_word(&cs, "Top") {
        return Some(Dock::Top);
    }
    if is_word(&cs, "Right") {
        return Some(Dock::Right);
    }
    if is_word(&cs, "Bottom") {
        return Some(Dock::Bottom);
    }
    None
}

/// Which focus a window takes when clicked.
#[derive(Clone, Copy, Debug, PartialEq, Eq, Hash, Structural)]
pub enum Focus {
    Primary,
    Secondary,
}

pub open spec fn focus_value_spec(n: Seq<char>) -> Option<Focus> {
    if n == "Primary"@ {
        Some(Focus::Primary)
    }     else if n == "Secondary"@ {
        Some(Focus::Secondary)
    } else {
        None
    }
}

pub fn focus_value(text: &str) -> (r: Option<Focus>)
    ensures
        r == focus_value_spec(text@),
{
    let cs = str_chars(text);
    if is_word(&cs, "Primary") {
        return Some(Focus::Primary);
    }
    if is_word(&cs, "Secondary") {
        return Some(Focus::Secondary);
    }
    None
}

pub open spec fn visibility_value_spec(n: Seq<char>) -> Option<Visibility> {
    if n == "Visible"@ {
        Some(Visibility::Visible)
    }     else if n == "Hidden"@ {
        Some(Visibility::Hidden)
    }     else if n == "Collapsed"@ {
        Some(Visibility::Collapsed)
    } else {
        None
    }
}

pub fn visibility_value(text: &str) -> (r: Option<Visibility>)
    ensures
        r == visibility_value_spec(text@),
{
    let cs = str_chars(text);
    if is_word(&cs, "Visible") {
        return Some(Visibility::Visible);
    }
    if is_word(&cs, "Hidden") {
        return Some(Visibility::Hidden);
    }
    if is_word(&cs, "Collapsed") {
        return Some(Visibility::Collapsed);
    }
    None
}

/// A foreground color by its name.
pub open spec fn fg_named(n: Seq<char>) -> Option<Fg> {
    if n == "Black"@ {
        Some(Fg::Black)
    }     else if n == "Red"@ {
        Some(Fg::Red)
    }     else if n == "Green"@ {
        Some(Fg::Green)
    }     else if n == "Brown"@ {
        Some(Fg::Brown)
    }     else if n == "Blue"@ {
        Some(Fg::Blue)
    }     else if n == "Magenta"@ {
        Some(Fg::Magenta)
    }     else if n == "Cyan"@ {
        Some(Fg::Cyan)
    }     else if n == "LightGray"@ {
        Some(Fg::LightGray)
    }     else if n == "DarkGray"@ {
        Some(Fg::DarkGray)
    }     else if n == "BrightRed"@ {
        Some(Fg::BrightRed)
    }     else if n == "BrightGreen"@ {
        Some(Fg::BrightGreen)
    }     else if n == "Yellow"@ {
        Some(Fg::Yellow)
    }     else if n == "BrightBlue"@ {
        Some(Fg::BrightBlue)
    }     else if n == "BrightMagenta"@ {
        Some(Fg::BrightMagenta)
    }     else if n == "BrightCyan"@ {
        Some(Fg::BrightCyan)
    }     else if n == "White"@ {
        Some(Fg::White)
    } else {
        None
    }
}

fn fg_of(cs: &Vec<char>) -> (r: Option<Fg>)
    ensures
        r == fg_named(cs@),
{
    if is_word(cs, "Black") {
        return Some(Fg::Black);
    }
    if is_word(cs, "Red") {
        return Some(Fg::Red);
    }
    if is_word(cs, "Green") {
        return Some(Fg::Green);
    }
    if is_word(cs, "Brown") {
        return Some(Fg::Brown);
    }
    if is_word(cs, "Blue") {
        return Some(Fg::Blue);
    }
    if is_word(cs, "Magenta") {
        return Some(Fg::Magenta);
    }
    if is_word(cs, "Cyan") {
        return Some(Fg::Cyan);
    }
    if is_word(cs, "LightGray") {
        return Some(Fg::LightGray);
    }
    if is_word(cs, "DarkGray") {
        return Some(Fg::DarkGray);
    }
    if is_word(cs, "BrightRed") {
        return Some(Fg::BrightRed);
    }
    if is_word(cs, "BrightGreen") {
        return Some(Fg::BrightGreen);
    }
    if is_word(cs, "Yellow") {
        return Some(Fg::Yellow);
    }
    if is_word(cs, "BrightBlue") {
        return Some(Fg::BrightBlue);
    }
    if is_word(cs, "BrightMagenta") {
        return Some(Fg::BrightMagenta);
    }
    if is_word(cs, "BrightCyan") {
        return Some(Fg::BrightCyan);
    }
    if is_word(cs, "White") {
        return Some(Fg::White);
    }
    None
}

/// A background color by its name (`None` for the transparent one).
pub open spec fn bg_named(n: Seq<char>) -> Option<Bg> {
    if n == "None"@ {
        Some(Bg::Transparent)
    }     else if n == "Black"@ {
        Some(Bg::Black)
    }     else if n == "Red"@ {
        Some(Bg::Red)
    }     else if n == "Green"@ {
        Some(Bg::Green)
    }     else if n == "Brown"@ {
        Some(Bg::Brown)
    }     else if n == "Blue"@ {
        Some(Bg::Blue)
    }     else if n == "Magenta"@ {
        Some(Bg::Magenta)
    }     else if n == "Cyan"@ {
        Some(Bg::Cyan)
    }     else if n == "LightGray"@ {
        Some(Bg::LightGray)
    } else {
        None
    }
}

fn bg_of(cs: &Vec<char>) -> (r: Option<Bg>)
    ensures
        r == bg_named(cs@),
{
    if is_word(cs, "None") {
        return Some(Bg::Transparent);
    }
    if is_word(cs, "Black") {
        return Some(Bg::Black);
    }
    if is_word(cs, "Red") {
        return Some(Bg::Red);
    }
    if is_word(cs, "Green") {
        return Some(Bg::Green);
    }
    if is_word(cs, "Brown") {
        return Some(Bg::Brown);
    }
    if is_word(cs, "Blue") {
        return Some(Bg::Blue);
    }
    if is_word(cs, "Magenta") {
        return Some(Bg::Magenta);
    }
    if is_word(cs, "Cyan") {
        return Some(Bg::Cyan);
    }
    if is_word(cs, "LightGray") {
        return Some(Bg::LightGray);
    }
    None
}

/// `fg/bg`: a foreground and a background color by their names.
pub open spec fn color_value_spec(s: Seq<char>) -> Option<(Fg, Bg)> {
    let parts = split_on(s, '/');
    if parts.len() == 2 {
        match (fg_named(parts[0]), bg_named(parts[1])) {
            (Some(fg), Some(bg)) => Some((fg, bg)),
            _ => None,
        }
    } else {
        None
    }
}

pub fn color_value(text: &str) -> (r: Option<(Fg, Bg)>)
    ensures
        r == color_value_spec(text@),
{
    let cs = str_chars(text);
    let parts = split_chars(&cs, '/');
    proof {
        assert(pieces_of(parts@).len() == parts@.len());
    }
    if parts.len() == 2 {
        proof {
            assert(pieces_of(parts@)[0] == parts@[0]@);
            assert(pieces_of(parts@)[1] == parts@[1]@);
        }
        match (fg_of(&parts[0]), bg_of(&parts[1])) {
            (Some(fg), Some(bg)) => Some((fg, bg)),
            _ => None,
        }
    } else {
        None
    }
}

} // verus!
