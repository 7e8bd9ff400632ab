//! Decorators of the view layer.
//!
//! The border decorator: which sides take a padding column or row, the sizes
//! that follow from them, what each edge shows, and where each part of the
//! border lies.  A side takes a padding when it is enabled and the border shows
//! something there: its edge text or one of the two corners at its ends.
//! An edge left empty between two shown corners is drawn as blanks.
//!
//! The line decorator: a line of a given length, across or down.

use vstd::prelude::*;
use crate::geom::{Point, Rect, Vector};
use crate::dock_view::Orient;
use crate::num::{uv, wrap16, to_u16, from_u16, lemma_wrapping_sub};
use crate::screen::{Fg, Bg};
use crate::input::chars_to_string;
use crate::text::{graphemes_width, graphemes_width_spec};

verus! {

/// Which sides of a border take a padding column or row.
#[derive(Clone, Copy, Debug, PartialEq, Eq, Structural)]
pub struct BorderPaddings {
    pub l: bool,
    pub t: bool,
    pub r: bool,
    pub b: bool,
}

/// The parts of a border.
#[derive(Clone, Copy, Debug, PartialEq, Eq, Structural)]
pub enum BorderPart {
    Tl,
    Tr,
    Bl,
    Br,
    L,
    T,
    R,
    B,
}

/// `x - k` on the unsigned reading of `x`, 0 at least.
pub open spec fn sat_sub_spec(x: i16, k: int) -> i16 {
    if uv(x) >= k { wrap16(uv(x) - k) } else { 0 }
}

/// `x + k` on the unsigned reading of `x`, `u16::MAX` at most.
pub open spec fn sat_add_spec(x: i16, k: int) -> i16 {
    if uv(x) + k > u16::MAX { wrap16(u16::MAX as int) } else { wrap16(uv(x) + k) }
}

pub open spec fn count(a: bool, b: bool) -> int {
    (if a { 1int } else { 0int }) + (if b { 1int } else { 0int })
}

/// The room the children are measured with: the border's room less the
/// padding on each side.
pub open spec fn children_measure_size_spec(p: BorderPaddings, measure_size: (Option<i16>, Option<i16>)) -> (Option<i16>, Option<i16>) {
    (
        match measure_size.0 { Some(w) => Some(sat_sub_spec(w, count(p.l, p.r))), None => None },
        match measure_size.1 { Some(h) => Some(sat_sub_spec(h, count(p.t, p.b))), None => None },
    )
}

/// The size a border wants: its children's size with the paddings added.
pub open spec fn desired_size_spec(p: BorderPaddings, children: Vector) -> Vector {
    Vector { x: sat_add_spec(children.x, count(p.l, p.r)), y: sat_add_spec(children.y, count(p.t, p.b)) }
}

/// Where a part of a border of size `size` lies.
pub open spec fn part_rect_spec(part: BorderPart, size: Vector) -> Rect {
    let r = wrap16(size.x - 1);
    let b = wrap16(size.y - 1);
    match part {
        BorderPart::Tl => Rect { tl: Point { x: 0, y: 0 }, size: Vector { x: 1, y: 1 } },
        BorderPart::Tr => Rect { tl: Point { x: r, y: 0 }, size: Vector { x: 1, y: 1 } },
        BorderPart::Bl => Rect { tl: Point { x: 0, y: b }, size: Vector { x: 1, y: 1 } },
        BorderPart::Br => Rect { tl: Point { x: r, y: b }, size: Vector { x: 1, y: 1 } },
        BorderPart::L => Rect { tl: Point { x: 0, y: 0 }, size: Vector { x: 1, y: size.y } },
        BorderPart::T => Rect { tl: Point { x: 0, y: 0 }, size: Vector { x: size.x, y: 1 } },
        BorderPart::R => Rect { tl: Point { x: r, y: 0 }, size: Vector { x: 1, y: size.y } },
        BorderPart::B => Rect { tl: Point { x: 0, y: b }, size: Vector { x: size.x, y: 1 } },
    }
}

fn sat_sub_exec(x: i16, k: u16) -> (r: i16)
    requires
        k <= 2,
    ensures
        r == sat_sub_spec(x, k as int),
{
    let u = to_u16(x);
    if u >= k { from_u16(u - k) } else { 0 }
}

fn sat_add_exec(x: i16, k: u16) -> (r: i16)
    requires
        k <= 2,
    ensures
        r == sat_add_spec(x, k as int),
{
    let u = to_u16(x);
    if u as u32 + k as u32 > u16::MAX as u32 { from_u16(u16::MAX) } else { from_u16(u + k) }
}

fn count_exec(a: bool, b: bool) -> (r: u16)
    ensures
        r == count(a, b),
{
    (if a { 1u16 } else { 0u16 }) + (if b { 1u16 } else { 0u16 })
}

/// The border decorator's own logic in the view layer.
pub struct BorderDecoratorBehavior;

impl BorderDecoratorBehavior {
    /// Whether a side takes a padding: it is enabled, and its edge or one of
    /// its two corners shows something.
    pub fn has_padding(enable: bool, edge: &str, corner_a: &str, corner_b: &str) -> (r: bool)
        ensures
            r == (enable && (edge@.len() > 0 || corner_a@.len() > 0 || corner_b@.len() > 0)),
    {
        enable && (!edge.is_empty() || !corner_a.is_empty() || !corner_b.is_empty())
    }

    /// What an edge shows: its own text, or a blank where one of the corners
    /// at its ends shows something, or nothing.
    pub fn edge_text<'a>(edge: &'a str, corner_a: &'a str, corner_b: &'a str) -> (r: &'a str)
        ensures
            edge@.len() > 0 ==> r@ == edge@,
            edge@.len() == 0 && (corner_a@.len() > 0 || corner_b@.len() > 0) ==> r@ == " "@,
            edge@.len() == 0 && corner_a@.len() == 0 && corner_b@.len() == 0 ==> r@.len() == 0,
    {
        if !edge.is_empty() {
            edge
        } else if !corner_a.is_empty() || !corner_b.is_empty() {
            " "
        } else {
            edge
        }
    }

    /// The room the children are measured with.
    pub fn children_measure_size(p: BorderPaddings, measure_size: (Option<i16>, Option<i16>)) -> (r: (Option<i16>, Option<i16>))
        ensures
            r == children_measure_size_spec(p, measure_size),
    {
        (
            match measure_size.0 { Some(w) => Some(sat_sub_exec(w, count_exec(p.l, p.r))), None => None },
            match measure_size.1 { Some(h) => Some(sat_sub_exec(h, count_exec(p.t, p.b))), None => None },
        )
    }

    /// The size the border wants around its children's size.
    pub fn desired_size(p: BorderPaddings, children_desired_size: Vector) -> (r: Vector)
        ensures
            r == desired_size_spec(p, children_desired_size),
    {
        Vector {
            x: sat_add_exec(children_desired_size.x, count_exec(p.l, p.r)),
            y: sat_add_exec(children_desired_size.y, count_exec(p.t, p.b)),
        }
    }

    /// Where a part of a border of size `size` lies: what is drawn again when
    /// that part changes.
    pub fn part_rect(part: BorderPart, size: Vector) -> (r: Rect)
        ensures
            r == part_rect_spec(part, size),
    {
        let r = size.x.wrapping_sub(1);
        let b = size.y.wrapping_sub(1);
        proof {
            lemma_wrapping_sub(size.x, 1);
            lemma_wrapping_sub(size.y, 1);
        }
        match part {
            BorderPart::Tl => Rect { tl: Point { x: 0, y: 0 }, size: Vector { x: 1, y: 1 } },
            BorderPart::Tr => Rect { tl: Point { x: r, y: 0 }, size: Vector { x: 1, y: 1 } },
            BorderPart::Bl => Rect { tl: Point { x: 0, y: b }, size: Vector { x: 1, y: 1 } },
            BorderPart::Br => Rect { tl: Point { x: r, y: b }, size: Vector { x: 1, y: 1 } },
            BorderPart::L => Rect { tl: Point { x: 0, y: 0 }, size: Vector { x: 1, y: size.y } },
            BorderPart::T => Rect { tl: Point { x: 0, y: 0 }, size: Vector { x: size.x, y: 1 } },
            BorderPart::R => Rect { tl: Point { x: r, y: 0 }, size: Vector { x: 1, y: size.y } },
            BorderPart::B => Rect { tl: Point { x: 0, y: b }, size: Vector { x: size.x, y: 1 } },
        }
    }
}

/// The frame char a window draws for a part of its border: a double line
/// while it has the focus, a single line otherwise.
pub open spec fn frame_char_spec(part: BorderPart, focused: bool) -> char {
    match part {
        BorderPart::Tl => if focused { '\u{2554}' } else { '\u{250c}' },
        BorderPart::Tr => if focused { '\u{2557}' } else { '\u{2510}' },
        BorderPart::Bl => if focused { '\u{255a}' } else { '\u{2514}' },
        BorderPart::Br => if focused { '\u{255d}' } else { '\u{2518}' },
        BorderPart::L | BorderPart::R => if focused { '\u{2551}' } else { '\u{2502}' },
        BorderPart::T | BorderPart::B => if focused { '\u{2550}' } else { '\u{2500}' },
    }
}

pub fn frame_char(part: BorderPart, focused: bool) -> (r: char)
    ensures
        r == frame_char_spec(part, focused),
{
    match part {
        BorderPart::Tl => if focused { '\u{2554}' } else { '\u{250c}' },
        BorderPart::Tr => if focused { '\u{2557}' } else { '\u{2510}' },
        BorderPart::Bl => if focused { '\u{255a}' } else { '\u{2514}' },
        BorderPart::Br => if focused { '\u{255d}' } else { '\u{2518}' },
        BorderPart::L | BorderPart::R => if focused { '\u{2551}' } else { '\u{2502}' },
        BorderPart::T | BorderPart::B => if focused { '\u{2550}' } else { '\u{2500}' },
    }
}

/// A border adds its paddings around its children and gives them back: the
/// children measured with the room it has, once their size has the paddings
/// added, fit that room again, as long as nothing saturates.
pub proof fn law_border_padding_round_trip(p: BorderPaddings, w: i16, h: i16)
    requires
        count(p.l, p.r) <= uv(w),
        count(p.t, p.b) <= uv(h),
    ensures
        ({
            let inner = children_measure_size_spec(p, (Some(w), Some(h)));
            desired_size_spec(p, Vector { x: inner.0->0, y: inner.1->0 }) == Vector { x: w, y: h }
        }),
{
    let cw = count(p.l, p.r);
    let ch = count(p.t, p.b);
    assert(uv(wrap16(uv(w) - cw)) == uv(w) - cw);
    assert(uv(wrap16(uv(h) - ch)) == uv(h) - ch);
}

/// The text decorator's own logic in the view layer: one row of text, as
/// wide as its grapheme clusters, with no room for children.
pub struct TextDecoratorBehavior;

impl TextDecoratorBehavior {
    /// The children are measured in no room.
    pub fn children_measure_size() -> (r: (Option<i16>, Option<i16>))
        ensures
            r == (Some(0i16), Some(0i16)),
    {
        (Some(0), Some(0))
    }

    /// The size the text wants: its width, on one row.
    pub fn desired_size(text: &str) -> (r: Vector)
        ensures
            r == (Vector { x: graphemes_width_spec(text@), y: 1 }),
    {
        Vector { x: graphemes_width(text), y: 1 }
    }

    /// The children are arranged in no room.
    pub fn children_arrange_bounds() -> (r: Rect)
        ensures
            r == (Rect { tl: Point { x: 0, y: 0 }, size: Vector { x: 0, y: 0 } }),
    {
        Rect { tl: Point { x: 0, y: 0 }, size: Vector { x: 0, y: 0 } }
    }

    /// Where the text is drawn: its width, on the first row.
    pub fn render_bounds(text: &str) -> (r: Rect)
        ensures
            r == (Rect { tl: Point { x: 0, y: 0 }, size: Vector { x: graphemes_width_spec(text@), y: 1 } }),
    {
        Rect { tl: Point { x: 0, y: 0 }, size: Vector { x: graphemes_width(text), y: 1 } }
    }
}

/// The label decorator's own logic in the view layer: laid out as the text
/// decorator is.
pub struct LabelDecoratorBehavior;

impl LabelDecoratorBehavior {
    /// The children are measured in no room.
    pub fn children_measure_size() -> (r: (Option<i16>, Option<i16>))
        ensures
            r == (Some(0i16), Some(0i16)),
    {
        TextDecoratorBehavior::children_measure_size()
    }

    /// The size the label wants: its width, on one row.
    pub fn desired_size(text: &str) -> (r: Vector)
        ensures
            r == (Vector { x: graphemes_width_spec(text@), y: 1 }),
    {
        TextDecoratorBehavior::desired_size(text)
    }

    /// The children are arranged in no room.
    pub fn children_arrange_bounds() -> (r: Rect)
        ensures
            r == (Rect { tl: Point { x: 0, y: 0 }, size: Vector { x: 0, y: 0 } }),
    {
        TextDecoratorBehavior::children_arrange_bounds()
    }

    /// Where the label is drawn: its width, on the first row.
    pub fn render_bounds(text: &str) -> (r: Rect)
        ensures
            r == (Rect { tl: Point { x: 0, y: 0 }, size: Vector { x: graphemes_width_spec(text@), y: 1 } }),
    {
        TextDecoratorBehavior::render_bounds(text)
    }
}

/// The line decorator's own logic in the view layer.
pub struct LineDecoratorBehavior;

impl LineDecoratorBehavior {
    /// A line of `length` cells, across or down.
    pub fn size(orient: Orient, length: i16) -> (r: Vector)
        ensures
            r == (match orient {
                Orient::Vert => Vector { x: 1, y: length },
                Orient::Hor => Vector { x: length, y: 1 },
            }),
    {
        match orient {
            Orient::Vert => Vector { x: 1, y: length },
            Orient::Hor => Vector { x: length, y: 1 },
        }
    }

    /// The cell `i` cells along the line.
    pub fn cell(orient: Orient, i: i16) -> (r: Point)
        ensures
            r == (match orient {
                Orient::Vert => Point { x: 0, y: i },
                Orient::Hor => Point { x: i, y: 0 },
            }),
    {
        match orient {
            Orient::Vert => Point { x: 0, y: i },
            Orient::Hor => Point { x: i, y: 0 },
        }
    }

    /// The last cell of a line of `length` cells, where its far end is drawn.
    pub fn far_cell(orient: Orient, length: i16) -> (r: Point)
        ensures
            r == (match orient {
                Orient::Vert => Point { x: 0, y: wrap16(length - 1) },
                Orient::Hor => Point { x: wrap16(length - 1), y: 0 },
            }),
    {
        proof {
            lemma_wrapping_sub(length, 1);
        }
        Self::cell(orient, length.wrapping_sub(1))
    }
}

/// The colors a view draws with: its foreground, background and text
/// attributes (a bit set).
#[derive(Clone, Copy, Debug, PartialEq, Eq, Structural)]
pub struct ViewColors {
    pub fg: Fg,
    pub bg: Bg,
    pub attr: u8,
}

/// What a border decorator is set to, with the colors of its view: which
/// sides may take a padding, the text of each part, and the fill.
pub struct BorderLook {
    pub enable: BorderPaddings,
    pub tl: String,
    pub tr: String,
    pub bl: String,
    pub br: String,
    pub l: String,
    pub t: String,
    pub r: String,
    pub b: String,
    pub fill: String,
    pub colors: ViewColors,
}

/// The text of a part of a border.
pub open spec fn part_text(look: BorderLook, part: BorderPart) -> Seq<char> {
    match part {
        BorderPart::Tl => look.tl@,
        BorderPart::Tr => look.tr@,
        BorderPart::Bl => look.bl@,
        BorderPart::Br => look.br@,
        BorderPart::L => look.l@,
        BorderPart::T => look.t@,
        BorderPart::R => look.r@,
        BorderPart::B => look.b@,
    }
}

/// A side takes a padding when it is enabled and its edge or one of the
/// corners at its ends shows something.
pub open spec fn side_padding(enable: bool, edge: Seq<char>, a: Seq<char>, b: Seq<char>) -> bool {
    enable && (edge.len() > 0 || a.len() > 0 || b.len() > 0)
}

/// The paddings a border takes.
pub open spec fn paddings_spec(look: BorderLook) -> BorderPaddings {
    BorderPaddings {
        l: side_padding(look.enable.l, look.l@, look.tl@, look.bl@),
        t: side_padding(look.enable.t, look.t@, look.tl@, look.tr@),
        r: side_padding(look.enable.r, look.r@, look.tr@, look.br@),
        b: side_padding(look.enable.b, look.b@, look.bl@, look.br@),
    }
}

/// What a change of a border asks to be done again: the measure of its
/// view, the drawing of all of it, or the drawing of one part (where
/// `part_rect` says).
#[derive(Clone, Copy, Debug, PartialEq, Eq, Structural)]
pub enum Redo {
    Measure,
    Render,
    Part(BorderPart),
}

/// `r` when `c` holds, nothing otherwise.
#[verifier::opaque]
pub open spec fn redo_when(c: bool, r: Redo) -> Seq<Redo> {
    if c { seq![r] } else { Seq::empty() }
}

/// What a change from `old` to `new` asks to be done again, in the order
/// the border's settings are watched: each side whose padding changes
/// asks for a new measure; a change of a color, and of the fill, for a new
/// drawing; a change of the text of a part, for the drawing of that part.
pub open spec fn redo_spec(old: BorderLook, new: BorderLook) -> Seq<Redo> {
    let po = paddings_spec(old);
    let pn = paddings_spec(new);
    redo_when(po.l != pn.l, Redo::Measure)
        + redo_when(po.t != pn.t, Redo::Measure)
        + redo_when(po.r != pn.r, Redo::Measure)
        + redo_when(po.b != pn.b, Redo::Measure)
        + redo_when(old.colors.bg != new.colors.bg, Redo::Render)
        + redo_when(old.colors.fg != new.colors.fg, Redo::Render)
        + redo_when(old.colors.attr != new.colors.attr, Redo::Render)
        + redo_when(old.tl@ != new.tl@, Redo::Part(BorderPart::Tl))
        + redo_when(old.tr@ != new.tr@, Redo::Part(BorderPart::Tr))
        + redo_when(old.bl@ != new.bl@, Redo::Part(BorderPart::Bl))
        + redo_when(old.br@ != new.br@, Redo::Part(BorderPart::Br))
        + redo_when(old.l@ != new.l@, Redo::Part(BorderPart::L))
        + redo_when(old.t@ != new.t@, Redo::Part(BorderPart::T))
        + redo_when(old.r@ != new.r@, Redo::Part(BorderPart::R))
        + redo_when(old.b@ != new.b@, Redo::Part(BorderPart::B))
        + redo_when(old.fill@ != new.fill@, Redo::Render)
}

fn push_when(rs: &mut Vec<Redo>, c: bool, r: Redo)
    ensures
        final(rs)@ == old(rs)@ + redo_when(c, r),
{
    if c {
        rs.push(r);
    }
    proof {
        reveal(redo_when);
        assert(final(rs)@ =~= old(rs)@ + redo_when(c, r));
    }
}

impl BorderLook {
    /// The paddings this border takes.
    pub fn paddings(&self) -> (r: BorderPaddings)
        ensures
            r == paddings_spec(*self),
    {
        BorderPaddings {
            l: BorderDecoratorBehavior::has_padding(self.enable.l, self.l.as_str(), self.tl.as_str(), self.bl.as_str()),
            t: BorderDecoratorBehavior::has_padding(self.enable.t, self.t.as_str(), self.tl.as_str(), self.tr.as_str()),
            r: BorderDecoratorBehavior::has_padding(self.enable.r, self.r.as_str(), self.tr.as_str(), self.br.as_str()),
            b: BorderDecoratorBehavior::has_padding(self.enable.b, self.b.as_str(), self.bl.as_str(), self.br.as_str()),
        }
    }

    /// What changing this border to `new` asks to be done again.
    pub fn redo(&self, new: &BorderLook) -> (r: Vec<Redo>)
        ensures
            r@ == redo_spec(*self, *new),
    {
        let po = self.paddings();
        let pn = new.paddings();
        let mut rs: Vec<Redo> = Vec::new();
        push_when(&mut rs, po.l != pn.l, Redo::Measure);
        push_when(&mut rs, po.t != pn.t, Redo::Measure);
        push_when(&mut rs, po.r != pn.r, Redo::Measure);
        push_when(&mut rs, po.b != pn.b, Redo::Measure);
        push_when(&mut rs, self.colors.bg != new.colors.bg, Redo::Render);
        push_when(&mut rs, self.colors.fg != new.colors.fg, Redo::Render);
        push_when(&mut rs, self.colors.attr != new.colors.attr, Redo::Render);
        push_when(&mut rs, self.tl != new.tl, Redo::Part(BorderPart::Tl));
        push_when(&mut rs, self.tr != new.tr, Redo::Part(BorderPart::Tr));
        push_when(&mut rs, self.bl != new.bl, Redo::Part(BorderPart::Bl));
        push_when(&mut rs, self.br != new.br, Redo::Part(BorderPart::Br));
        push_when(&mut rs, self.l != new.l, Redo::Part(BorderPart::L));
        push_when(&mut rs, self.t != new.t, Redo::Part(BorderPart::T));
        push_when(&mut rs, self.r != new.r, Redo::Part(BorderPart::R));
        push_when(&mut rs, self.b != new.b, Redo::Part(BorderPart::B));
        push_when(&mut rs, self.fill != new.fill, Redo::Render);
        proof {
            reveal(redo_when);
            assert(Seq::<Redo>::empty() + redo_when(paddings_spec(*self).l != paddings_spec(*new).l, Redo::Measure)
                =~= redo_when(paddings_spec(*self).l != paddings_spec(*new).l, Redo::Measure));
        }
        rs
    }
}

/// Whether `rs` holds `x`, item by item from the back.
#[verifier::opaque]
spec fn asks(rs: Seq<Redo>, x: Redo) -> bool
    decreases rs.len(),
{
    rs.len() > 0 && (rs.last() == x || asks(rs.drop_last(), x))
}

proof fn lemma_asks_contains(rs: Seq<Redo>, x: Redo)
    ensures
        asks(rs, x) <==> rs.contains(x),
    decreases rs.len(),
{
    reveal(asks);
    if rs.len() > 0 {
        lemma_asks_contains(rs.drop_last(), x);
        if rs.contains(x) {
            let i = choose|i: int| 0 <= i < rs.len() && rs[i] == x;
            if i < rs.len() - 1 {
                assert(rs.drop_last()[i] == x);
            }
        }
        if rs.drop_last().contains(x) {
            let i = choose|i: int| 0 <= i < rs.drop_last().len() && rs.drop_last()[i] == x;
            assert(rs[i] == x);
        }
    }
}

proof fn lemma_when_asks(c: bool, r: Redo, x: Redo)
    ensures
        asks(redo_when(c, r), x) <==> (c && r == x),
{
    reveal(asks);
    reveal(redo_when);
    if c {
        assert(redo_when(c, r).drop_last() =~= Seq::<Redo>::empty());
        assert(!asks(Seq::<Redo>::empty(), x));
    }
}

proof fn lemma_cat_asks(a: Seq<Redo>, b: Seq<Redo>, x: Redo)
    ensures
        asks(a + b, x) <==> (asks(a, x) || asks(b, x)),
    decreases b.len(),
{
    reveal(asks);
    if b.len() == 0 {
        assert(a + b =~= a);
    } else {
        assert((a + b).drop_last() =~= a + b.drop_last());
        lemma_cat_asks(a, b.drop_last(), x);
    }
}

/// The first eight items that a change may ask for.
spec fn redo_front(old: BorderLook, new: BorderLook) -> Seq<Redo> {
    let po = paddings_spec(old);
    let pn = paddings_spec(new);
    redo_when(po.l != pn.l, Redo::Measure)
        + redo_when(po.t != pn.t, Redo::Measure)
        + redo_when(po.r != pn.r, Redo::Measure)
        + redo_when(po.b != pn.b, Redo::Measure)
        + redo_when(old.colors.bg != new.colors.bg, Redo::Render)
        + redo_when(old.colors.fg != new.colors.fg, Redo::Render)
        + redo_when(old.colors.attr != new.colors.attr, Redo::Render)
        + redo_when(old.tl@ != new.tl@, Redo::Part(BorderPart::Tl))
}

proof fn lemma_redo_front_asks(old: BorderLook, new: BorderLook, x: Redo)
    ensures
        ({
            let po = paddings_spec(old);
            let pn = paddings_spec(new);
            asks(redo_front(old, new), x) <==> (
            (po.l != pn.l && Redo::Measure == x)
            || (po.t != pn.t && Redo::Measure == x)
            || (po.r != pn.r && Redo::Measure == x)
            || (po.b != pn.b && Redo::Measure == x)
            || (old.colors.bg != new.colors.bg && Redo::Render == x)
            || (old.colors.fg != new.colors.fg && Redo::Render == x)
            || (old.colors.attr != new.colors.attr && Redo::Render == x)
            || (old.tl@ != new.tl@ && Redo::Part(BorderPart::Tl) == x))
        }),
{
    let po = paddings_spec(old);
    let pn = paddings_spec(new);
    lemma_when_asks(po.l != pn.l, Redo::Measure, x);
    lemma_when_asks(po.t != pn.t, Redo::Measure, x);
    lemma_when_asks(po.r != pn.r, Redo::Measure, x);
    lemma_when_asks(po.b != pn.b, Redo::Measure, x);
    lemma_when_asks(old.colors.bg != new.colors.bg, Redo::Render, x);
    lemma_when_asks(old.colors.fg != new.colors.fg, Redo::Render, x);
    lemma_when_asks(old.colors.attr != new.colors.attr, Redo::Render, x);
    lemma_when_asks(old.tl@ != new.tl@, Redo::Part(BorderPart::Tl), x);
    lemma_cat_asks(redo_when(po.l != pn.l, Redo::Measure), redo_when(po.t != pn.t, Redo::Measure), x);
    lemma_cat_asks(redo_when(po.l != pn.l, Redo::Measure) + redo_when(po.t != pn.t, Redo::Measure), redo_when(po.r != pn.r, Redo::Measure), x);
    lemma_cat_asks(redo_when(po.l != pn.l, Redo::Measure) + redo_when(po.t != pn.t, Redo::Measure) + redo_when(po.r != pn.r, Redo::Measure), redo_when(po.b != pn.b, Redo::Measure), x);
    lemma_cat_asks(redo_when(po.l != pn.l, Redo::Measure) + redo_when(po.t != pn.t, Redo::Measure) + redo_when(po.r != pn.r, Redo::Measure) + redo_when(po.b != pn.b, Redo::Measure), redo_when(old.colors.bg != new.colors.bg, Redo::Render), x);
    lemma_cat_asks(redo_when(po.l != pn.l, Redo::Measure) + redo_when(po.t != pn.t, Redo::Measure) + redo_when(po.r != pn.r, Redo::Measure) + redo_when(po.b != pn.b, Redo::Measure) + redo_when(old.colors.bg != new.colors.bg, Redo::Render), redo_when(old.colors.fg != new.colors.fg, Redo::Render), x);
    lemma_cat_asks(redo_when(po.l != pn.l, Redo::Measure) + redo_when(po.t != pn.t, Redo::Measure) + redo_when(po.r != pn.r, Redo::Measure) + redo_when(po.b != pn.b, Redo::Measure) + redo_when(old.colors.bg != new.colors.bg, Redo::Render) + redo_when(old.colors.fg != new.colors.fg, Redo::Render), redo_when(old.colors.attr != new.colors.attr, Redo::Render), x);
    lemma_cat_asks(redo_when(po.l != pn.l, Redo::Measure) + redo_when(po.t != pn.t, Redo::Measure) + redo_when(po.r != pn.r, Redo::Measure) + redo_when(po.b != pn.b, Redo::Measure) + redo_when(old.colors.bg != new.colors.bg, Redo::Render) + redo_when(old.colors.fg != new.colors.fg, Redo::Render) + redo_when(old.colors.attr != new.colors.attr, Redo::Render), redo_when(old.tl@ != new.tl@, Redo::Part(BorderPart::Tl)), x);
}

proof fn lemma_redo_asks(old: BorderLook, new: BorderLook, x: Redo)
    ensures
        ({
            let po = paddings_spec(old);
            let pn = paddings_spec(new);
            asks(redo_spec(old, new), x) <==> (asks(redo_front(old, new), x)
            || (old.tr@ != new.tr@ && Redo::Part(BorderPart::Tr) == x)
            || (old.bl@ != new.bl@ && Redo::Part(BorderPart::Bl) == x)
            || (old.br@ != new.br@ && Redo::Part(BorderPart::Br) == x)
            || (old.l@ != new.l@ && Redo::Part(BorderPart::L) == x)
            || (old.t@ != new.t@ && Redo::Part(BorderPart::T) == x)
            || (old.r@ != new.r@ && Redo::Part(BorderPart::R) == x)
            || (old.b@ != new.b@ && Redo::Part(BorderPart::B) == x)
            || (old.fill@ != new.fill@ && Redo::Render == x))
        }),
{
    let po = paddings_spec(old);
    let pn = paddings_spec(new);
    lemma_when_asks(old.tr@ != new.tr@, Redo::Part(BorderPart::Tr), x);
    lemma_when_asks(old.bl@ != new.bl@, Redo::Part(BorderPart::Bl), x);
    lemma_when_asks(old.br@ != new.br@, Redo::Part(BorderPart::Br), x);
    lemma_when_asks(old.l@ != new.l@, Redo::Part(BorderPart::L), x);
    lemma_when_asks(old.t@ != new.t@, Redo::Part(BorderPart::T), x);
    lemma_when_asks(old.r@ != new.r@, Redo::Part(BorderPart::R), x);
    lemma_when_asks(old.b@ != new.b@, Redo::Part(BorderPart::B), x);
    lemma_when_asks(old.fill@ != new.fill@, Redo::Render, x);
    lemma_cat_asks(redo_front(old, new), redo_when(old.tr@ != new.tr@, Redo::Part(BorderPart::Tr)), x);
    lemma_cat_asks(redo_front(old, new) + redo_when(old.tr@ != new.tr@, Redo::Part(BorderPart::Tr)), redo_when(old.bl@ != new.bl@, Redo::Part(BorderPart::Bl)), x);
    lemma_cat_asks(redo_front(old, new) + redo_when(old.tr@ != new.tr@, Redo::Part(BorderPart::Tr)) + redo_when(old.bl@ != new.bl@, Redo::Part(BorderPart::Bl)), redo_when(old.br@ != new.br@, Redo::Part(BorderPart::Br)), x);
    lemma_cat_asks(redo_front(old, new) + redo_when(old.tr@ != new.tr@, Redo::Part(BorderPart::Tr)) + redo_when(old.bl@ != new.bl@, Redo::Part(BorderPart::Bl)) + redo_when(old.br@ != new.br@, Redo::Part(BorderPart::Br)), redo_when(old.l@ != new.l@, Redo::Part(BorderPart::L)), x);
    lemma_cat_asks(redo_front(old, new) + redo_when(old.tr@ != new.tr@, Redo::Part(BorderPart::Tr)) + redo_when(old.bl@ != new.bl@, Redo::Part(BorderPart::Bl)) + redo_when(old.br@ != new.br@, Redo::Part(BorderPart::Br)) + redo_when(old.l@ != new.l@, Redo::Part(BorderPart::L)), redo_when(old.t@ != new.t@, Redo::Part(BorderPart::T)), x);
    lemma_cat_asks(redo_front(old, new) + redo_when(old.tr@ != new.tr@, Redo::Part(BorderPart::Tr)) + redo_when(old.bl@ != new.bl@, Redo::Part(BorderPart::Bl)) + redo_when(old.br@ != new.br@, Redo::Part(BorderPart::Br)) + redo_when(old.l@ != new.l@, Redo::Part(BorderPart::L)) + redo_when(old.t@ != new.t@, Redo::Part(BorderPart::T)), redo_when(old.r@ != new.r@, Redo::Part(BorderPart::R)), x);
    lemma_cat_asks(redo_front(old, new) + redo_when(old.tr@ != new.tr@, Redo::Part(BorderPart::Tr)) + redo_when(old.bl@ != new.bl@, Redo::Part(BorderPart::Bl)) + redo_when(old.br@ != new.br@, Redo::Part(BorderPart::Br)) + redo_when(old.l@ != new.l@, Redo::Part(BorderPart::L)) + redo_when(old.t@ != new.t@, Redo::Part(BorderPart::T)) + redo_when(old.r@ != new.r@, Redo::Part(BorderPart::R)), redo_when(old.b@ != new.b@, Redo::Part(BorderPart::B)), x);
    lemma_cat_asks(redo_front(old, new) + redo_when(old.tr@ != new.tr@, Redo::Part(BorderPart::Tr)) + redo_when(old.bl@ != new.bl@, Redo::Part(BorderPart::Bl)) + redo_when(old.br@ != new.br@, Redo::Part(BorderPart::Br)) + redo_when(old.l@ != new.l@, Redo::Part(BorderPart::L)) + redo_when(old.t@ != new.t@, Redo::Part(BorderPart::T)) + redo_when(old.r@ != new.r@, Redo::Part(BorderPart::R)) + redo_when(old.b@ != new.b@, Redo::Part(BorderPart::B)), redo_when(old.fill@ != new.fill@, Redo::Render), x);
}

/// What the redo list of a change holds, item by item.
proof fn lemma_redo_contains(old: BorderLook, new: BorderLook, x: Redo)
    ensures
        redo_spec(old, new).contains(x) <==> (
            (x == Redo::Measure && paddings_spec(old) != paddings_spec(new))
            || (x == Redo::Render && (old.colors != new.colors || old.fill@ != new.fill@))
            || (x matches Redo::Part(p) && part_text(old, p) != part_text(new, p))),
{
    lemma_redo_front_asks(old, new, x);
    lemma_redo_asks(old, new, x);
    lemma_asks_contains(redo_spec(old, new), x);
}

/// A border whose settings do not change asks for nothing to be done
/// again; one whose paddings change asks for a new measure, and only then;
/// one whose colors or fill change asks for a new drawing, and only then;
/// and the drawing of a part is asked for exactly when its text changes.
pub proof fn law_border_redo(old: BorderLook, new: BorderLook)
    ensures
        redo_spec(old, new).contains(Redo::Measure) <==> paddings_spec(old) != paddings_spec(new),
        redo_spec(old, new).contains(Redo::Render) <==> (old.colors != new.colors || old.fill@ != new.fill@),
        forall|p: BorderPart| redo_spec(old, new).contains(Redo::Part(p)) <==> part_text(old, p) != part_text(new, p),
        old.colors == new.colors && old.fill@ == new.fill@ && old.enable == new.enable
            && (forall|p: BorderPart| part_text(old, p) == part_text(new, p))
            ==> redo_spec(old, new).len() == 0,
{
    lemma_redo_contains(old, new, Redo::Measure);
    lemma_redo_contains(old, new, Redo::Render);
    assert forall|p: BorderPart| redo_spec(old, new).contains(Redo::Part(p)) <==> part_text(old, p) != part_text(new, p) by {
        lemma_redo_contains(old, new, Redo::Part(p));
    }
    if old.colors == new.colors && old.fill@ == new.fill@ && old.enable == new.enable
        && (forall|p: BorderPart| part_text(old, p) == part_text(new, p)) {
        assert(part_text(old, BorderPart::Tl) == part_text(new, BorderPart::Tl));
        assert(part_text(old, BorderPart::Tr) == part_text(new, BorderPart::Tr));
        assert(part_text(old, BorderPart::Bl) == part_text(new, BorderPart::Bl));
        assert(part_text(old, BorderPart::Br) == part_text(new, BorderPart::Br));
        assert(part_text(old, BorderPart::L) == part_text(new, BorderPart::L));
        assert(part_text(old, BorderPart::T) == part_text(new, BorderPart::T));
        assert(part_text(old, BorderPart::R) == part_text(new, BorderPart::R));
        assert(part_text(old, BorderPart::B) == part_text(new, BorderPart::B));
        reveal(redo_when);
        assert(redo_spec(old, new) =~= Seq::<Redo>::empty());
    }
}

/// Whether `look` is the border of a window's view: a blank fill, no
/// padding taken at the top (the header row stands there), the frame char
/// of each part by focus, and the view's colors.
pub open spec fn is_window_border(look: BorderLook, focused: bool, colors: ViewColors) -> bool {
    &&& look.enable == (BorderPaddings { l: true, t: false, r: true, b: true })
    &&& look.fill@ == seq![' ']
    &&& forall|p: BorderPart| part_text(look, p) == seq![#[trigger] frame_char_spec(p, focused)]
    &&& look.colors == colors
}

fn frame_text(part: BorderPart, focused: bool) -> (r: String)
    ensures
        r@ == seq![frame_char_spec(part, focused)],
{
    let mut v: Vec<char> = Vec::new();
    v.push(frame_char(part, focused));
    proof {
        assert(v@ =~= seq![frame_char_spec(part, focused)]);
    }
    chars_to_string(v.as_slice())
}

/// The border a window's view is built with, for the window's focus and
/// the view's colors (its background is the window's).
pub fn window_border(focused: bool, colors: ViewColors) -> (r: BorderLook)
    ensures
        is_window_border(r, focused, colors),
{
    let mut fill: Vec<char> = Vec::new();
    fill.push(' ');
    proof {
        assert(fill@ =~= seq![' ']);
    }
    let r = BorderLook {
        enable: BorderPaddings { l: true, t: false, r: true, b: true },
        tl: frame_text(BorderPart::Tl, focused),
        tr: frame_text(BorderPart::Tr, focused),
        bl: frame_text(BorderPart::Bl, focused),
        br: frame_text(BorderPart::Br, focused),
        l: frame_text(BorderPart::L, focused),
        t: frame_text(BorderPart::T, focused),
        r: frame_text(BorderPart::R, focused),
        b: frame_text(BorderPart::B, focused),
        fill: chars_to_string(fill.as_slice()),
        colors,
    };
    proof {
        assert forall|p: BorderPart| part_text(r, p) == seq![#[trigger] frame_char_spec(p, focused)] by {
            match p {
                BorderPart::Tl => {},
                BorderPart::Tr => {},
                BorderPart::Bl => {},
                BorderPart::Br => {},
                BorderPart::L => {},
                BorderPart::T => {},
                BorderPart::R => {},
                BorderPart::B => {},
            }
        }
    }
    r
}

/// A window's frame takes a padding on the left, right and bottom, none at
/// the top; and when the window gains or loses the focus, its frame asks
/// for each of its eight parts to be drawn again, in turn, and for nothing
/// else: no new measure, no drawing of the whole.
pub proof fn law_window_focus_redraws_frame(a: BorderLook, b: BorderLook, focused: bool, colors: ViewColors)
    requires
        is_window_border(a, focused, colors),
        is_window_border(b, !focused, colors),
    ensures
        paddings_spec(a) == (BorderPaddings { l: true, t: false, r: true, b: true }),
        redo_spec(a, b) == seq![
            Redo::Part(BorderPart::Tl), Redo::Part(BorderPart::Tr), Redo::Part(BorderPart::Bl),
            Redo::Part(BorderPart::Br), Redo::Part(BorderPart::L), Redo::Part(BorderPart::T),
            Redo::Part(BorderPart::R), Redo::Part(BorderPart::B),
        ],
{
    let parts = seq![BorderPart::Tl, BorderPart::Tr, BorderPart::Bl, BorderPart::Br,
        BorderPart::L, BorderPart::T, BorderPart::R, BorderPart::B];
    assert forall|i: int| 0 <= i < 8 implies
        part_text(a, #[trigger] parts[i]) == seq![frame_char_spec(parts[i], focused)]
        && part_text(b, parts[i]) == seq![frame_char_spec(parts[i], !focused)]
        && part_text(a, parts[i]) != part_text(b, parts[i]) by {
        assert(seq![frame_char_spec(parts[i], focused)][0] != seq![frame_char_spec(parts[i], !focused)][0]);
    }
    assert(parts[0] == BorderPart::Tl);
    assert(parts[1] == BorderPart::Tr);
    assert(parts[2] == BorderPart::Bl);
    assert(parts[3] == BorderPart::Br);
    assert(parts[4] == BorderPart::L);
    assert(parts[5] == BorderPart::T);
    assert(parts[6] == BorderPart::R);
    assert(parts[7] == BorderPart::B);
    reveal(redo_when);
    assert(a.tl@.len() > 0 && b.tl@.len() > 0);
    assert(a.tr@.len() > 0 && b.tr@.len() > 0);
    assert(a.bl@.len() > 0 && b.bl@.len() > 0);
    assert(a.br@.len() > 0 && b.br@.len() > 0);
    assert(redo_spec(a, b) =~= seq![
        Redo::Part(BorderPart::Tl), Redo::Part(BorderPart::Tr), Redo::Part(BorderPart::Bl),
        Redo::Part(BorderPart::Br), Redo::Part(BorderPart::L), Redo::Part(BorderPart::T),
        Redo::Part(BorderPart::R), Redo::Part(BorderPart::B),
    ]);
}

} // verus!
