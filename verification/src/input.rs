//! A one-line text input with an optional validator.
//!
//! Positions in the text (the cursor, the shown range) count chars.  The
//! shown range is chosen to fit the width: from a start going right, or
//! back from an end going left; a numeric input keeps its text right-aligned.

use vstd::prelude::*;
use crate::num::{uv, wrap16, lemma_wrapping_add, lemma_wrapping_sub, int_from_text};
use crate::geom::{Vector, Rect, Thickness, thickness_shrink_rect};
use crate::screen::Key;
use crate::event::{Event, CMD_GOT_PRIMARY_FOCUS, CMD_LOST_PRIMARY_FOCUS, CMD_LOST_ATTENTION};
use crate::text::{char_width, char_width_spec, chars_width, text_width_spec};

verus! {

pub const CMD_INPUT_LINE_IS_VALID_CHANGED: u16 = 110;

/// What `i32::from_str` gives for a text: the integer it reads as, when
/// that is in range; `None` on error.
pub open spec fn i32_from_str(text: Seq<char>) -> Option<i32> {
    match int_from_text(text, true) {
        Some(v) => if i32::MIN <= v <= i32::MAX { Some(v as i32) } else { None },
        None => None,
    }
}

/// Calls `i32::from_str`.
///
/// Claimed, as its documentation gives it: an optional `+` or `-` sign, then
/// decimal digits only, in range; anything else (an empty text, whitespace,
/// a sign alone) is an error.
#[verifier::external_body]
pub(crate) fn parse_i32(text: &str) -> (r: Option<i32>)
    ensures
        r == i32_from_str(text@),
        text@.len() == 0 ==> r is None,
        (exists|i: int| 0 <= i < text@.len() && !('0' <= #[trigger] text@[i] <= '9') && text@[i] != '+' && text@[i] != '-')
            ==> r is None,
{
    <i32 as std::str::FromStr>::from_str(text).ok()
}

/// Collects chars into a `String` (`FromIterator<char>` for `String`).
///
/// Claimed: the string holds the chars, in order.
#[verifier::external_body]
pub(crate) fn chars_to_string(cs: &[char]) -> (r: String)
    ensures
        r@ == cs@,
{
    cs.iter().collect::<String>()
}

/// Decides whether the text of an input is acceptable.
///
/// A validator that keeps to the specs below says so with
/// `obeys_validator_spec`; one that does not (such as one written outside
/// this library, which keeps the defaults) is trusted for nothing, and the
/// contracts of an input line that uses it say nothing of its state.
pub trait Validator {
    open spec fn obeys_validator_spec() -> bool {
        false
    }

    /// Whether the input is numeric (shown right-aligned).
    open spec fn numeric_spec(&self) -> bool {
        false
    }

    /// Whether `text` is acceptable, while the user edits it (`editing`) or when done.
    open spec fn valid_spec(&self, editing: bool, text: Seq<char>) -> bool {
        false
    }

    fn is_numeric(&self) -> (r: bool)
        ensures
            Self::obeys_validator_spec() ==> r == self.numeric_spec();

    fn is_valid(&self, editing: bool, text: &str) -> (r: bool)
        ensures
            Self::obeys_validator_spec() ==> r == self.valid_spec(editing, text@);
}

/// Accepts a decimal integer within `min ..= max`; while editing, also an empty text.
pub struct IntValidator {
    pub min: i32,
    pub max: i32,
}

impl Validator for IntValidator {
    open spec fn obeys_validator_spec() -> bool {
        true
    }

    open spec fn numeric_spec(&self) -> bool {
        true
    }

    open spec fn valid_spec(&self, editing: bool, text: Seq<char>) -> bool {
        if editing && text.len() == 0 {
            true
        } else {
            match i32_from_str(text) {
                Some(v) => self.min <= v <= self.max,
                None => false,
            }
        }
    }

    fn is_numeric(&self) -> (r: bool) {
        true
    }

    fn is_valid(&self, editing: bool, text: &str) -> (r: bool) {
        if editing && text.is_empty() {
            return true;
        }
        match parse_i32(text) {
            Some(v) => self.min <= v && v <= self.max,
            None => false,
        }
    }
}

/// The state of an input line, as values.
pub struct LineModel {
    pub text: Seq<char>,
    pub cursor: int,
    pub view_start: int,
    pub view_end: int,
    pub view_padding: i16,
    pub width: i16,
    pub is_valid: bool,
    pub editing: bool,
}

/// The part of an input's state that does not rest on what its validator
/// answers: the text, the cursor, the shown range and the width (the
/// padding of a numeric input and the validity are left out).
pub open spec fn shape(m: LineModel) -> LineModel {
    LineModel { view_padding: 0, is_valid: false, editing: false, ..m }
}

/// Whether one more char of width `cw` still fits when `w` columns of the
/// `width` are taken.
pub open spec fn fits(width: i16, w: i16, cw: i16) -> bool {
    uv(wrap16(width - w)) >= uv(cw)
}

/// Going left from `i`: where the shown range starts, and the width it takes.
pub open spec fn scan_back(text: Seq<char>, width: i16, i: int, w: i16) -> (int, i16)
    decreases i,
{
    if i <= 0 {
        (0, w)
    } else if !fits(width, w, char_width_spec(text[i - 1])) {
        (i, w)
    } else {
        scan_back(text, width, i - 1, wrap16(w + char_width_spec(text[i - 1])))
    }
}

/// Going right from `i`: where the shown range ends, and the width it takes.
pub open spec fn scan_fwd(text: Seq<char>, width: i16, i: int, w: i16) -> (int, i16)
    decreases text.len() - i,
{
    if i >= text.len() {
        (text.len() as int, w)
    } else if !fits(width, w, char_width_spec(text[i])) {
        (i, w)
    } else {
        scan_fwd(text, width, i + 1, wrap16(w + char_width_spec(text[i])))
    }
}

/// The shown range ending at `end`, as wide as fits.
pub open spec fn with_view_start(m: LineModel, numeric: bool, end: int) -> LineModel {
    let (s, w) = scan_back(m.text, m.width, end, 0);
    LineModel { view_start: s, view_end: end, view_padding: if numeric { wrap16(m.width - w) } else { 0 }, ..m }
}

/// The shown range starting at `start`, as wide as fits.
pub open spec fn with_view_end(m: LineModel, numeric: bool, start: int) -> LineModel {
    let (e, w) = scan_fwd(m.text, m.width, start, 0);
    LineModel { view_start: start, view_end: e, view_padding: if numeric { wrap16(m.width - w) } else { 0 }, ..m }
}

/// The cursor at the end; the text shown up to its end when focused or
/// numeric, else from its start.
pub open spec fn reset_view_spec(m: LineModel, numeric: bool, focused: bool) -> LineModel {
    let m1 = LineModel { cursor: m.text.len() as int, ..m };
    if focused || numeric {
        with_view_start(m1, numeric, m.text.len() as int)
    } else {
        with_view_end(m1, numeric, 0)
    }
}

pub open spec fn cursor_left_spec(m: LineModel, numeric: bool) -> LineModel {
    if m.cursor <= 0 {
        m
    } else {
        let m1 = LineModel { cursor: m.cursor - 1, ..m };
        if m1.cursor < m.view_start { with_view_end(m1, numeric, m1.cursor) } else { m1 }
    }
}

pub open spec fn cursor_right_spec(m: LineModel, numeric: bool) -> LineModel {
    if m.cursor >= m.text.len() {
        m
    } else {
        let m1 = LineModel { cursor: m.cursor + 1, ..m };
        if m1.cursor >= m.view_end {
            let e = if m1.cursor < m.text.len() { m1.cursor + 1 } else { m.text.len() as int };
            with_view_start(m1, numeric, e)
        } else {
            m1
        }
    }
}

/// The state after validity is checked again, and how many times it changed.
pub open spec fn recheck<V: Validator>(v: Option<V>, m: LineModel) -> (LineModel, nat) {
    let valid = match v { None => true, Some(val) => val.valid_spec(m.editing, m.text) };
    (LineModel { is_valid: valid, ..m }, if valid != m.is_valid { 1nat } else { 0nat })
}

/// After an edit: check validity; a valid text puts the input in editing
/// mode, and validity is then checked again.
pub open spec fn after_edit<V: Validator>(v: Option<V>, m: LineModel) -> (LineModel, nat) {
    let (m1, c1) = recheck(v, m);
    if m1.is_valid && !m1.editing {
        let (m2, c2) = recheck(v, LineModel { editing: true, ..m1 });
        (m2, c1 + c2)
    } else {
        (m1, c1)
    }
}

/// What an input does on an event: whether it handled it, its new state,
/// and how many validity changes it announces.
pub open spec fn input_update<V: Validator>(v: Option<V>, m: LineModel, e: Event, enabled: bool) -> (bool, LineModel, nat) {
    input_update_with(v, numeric_of(v), m, e, enabled)
}

/// What an input does on an event, when it is numeric or not as `numeric` says.
pub open spec fn input_update_with<V: Validator>(v: Option<V>, numeric: bool, m: LineModel, e: Event, enabled: bool) -> (bool, LineModel, nat) {
    match e {
        Event::Cmd(n) => if n == CMD_GOT_PRIMARY_FOCUS {
            let m1 = reset_view_spec(m, numeric, true);
            if m1.is_valid {
                let (m2, c) = recheck(v, LineModel { editing: true, ..m1 });
                (false, m2, c)
            } else {
                (false, m1, 0)
            }
        } else if n == CMD_LOST_PRIMARY_FOCUS {
            let m1 = reset_view_spec(m, numeric, false);
            let (m2, c) = recheck(v, LineModel { editing: false, ..m1 });
            (false, m2, c)
        } else if n == CMD_LOST_ATTENTION {
            let (m1, c1) = recheck(v, LineModel { editing: false, ..m });
            if m1.is_valid {
                let (m2, c2) = recheck(v, LineModel { editing: true, ..m1 });
                (false, m2, c1 + c2)
            } else {
                (false, m1, c1)
            }
        } else {
            (false, m, 0)
        },
        Event::Key(Key::Char(c)) => if enabled {
            let m1 = LineModel { text: m.text.insert(m.cursor, c), ..m };
            let m2 = with_view_end(m1, numeric, m.view_start);
            let (m3, n) = after_edit(v, cursor_right_spec(m2, numeric));
            (true, m3, n)
        } else {
            (false, m, 0)
        },
        Event::Key(Key::Backspace) => if enabled {
            if m.text.len() == 0 {
                (true, m, 0)
            } else {
                let m1 = cursor_left_spec(m, numeric);
                let m2 = LineModel { text: m1.text.remove(m1.cursor), ..m1 };
                let (m3, n) = after_edit(v, with_view_start(m2, numeric, m1.view_end - 1));
                (true, m3, n)
            }
        } else {
            (false, m, 0)
        },
        Event::Key(Key::Delete) => if enabled {
            if m.cursor == m.text.len() {
                (true, m, 0)
            } else {
                let m1 = LineModel { text: m.text.remove(m.cursor), ..m };
                let (m2, n) = after_edit(v, with_view_start(m1, numeric, m.view_end - 1));
                (true, m2, n)
            }
        } else {
            (false, m, 0)
        },
        Event::Key(Key::Left) => (true, cursor_left_spec(m, numeric), 0),
        Event::Key(Key::Right) => (true, cursor_right_spec(m, numeric), 0),
        Event::Key(Key::Home) => (true, with_view_end(LineModel { cursor: 0, ..m }, numeric, 0), 0),
        Event::Key(Key::End) => (
            true,
            with_view_start(LineModel { cursor: m.text.len() as int, ..m }, numeric, m.text.len() as int),
            0,
        ),
        _ => (false, m, 0),
    }
}

/// The inputs on which an event can be handled: removing a char never takes
/// the end of the shown range below zero.
pub open spec fn input_update_ok<V: Validator>(v: Option<V>, m: LineModel, e: Event, enabled: bool) -> bool {
    let numeric = match v { None => false, Some(val) => val.numeric_spec() };
    match e {
        Event::Key(Key::Backspace) => enabled && m.text.len() > 0 ==> cursor_left_spec(m, numeric).view_end >= 1,
        Event::Key(Key::Delete) => enabled && m.cursor != m.text.len() ==> m.view_end >= 1,
        _ => true,
    }
}

pub struct InputLine<V> {
    pub validator: Option<V>,
    pub text: Vec<char>,
    pub is_valid: bool,
    pub editing: bool,
    pub view_padding: i16,
    pub view_start: usize,
    pub view_end: usize,
    pub cursor: usize,
    pub width: i16,
}

/// Whether an input is numeric.
pub open spec fn numeric_of<V: Validator>(v: Option<V>) -> bool {
    match v { None => false, Some(val) => val.numeric_spec() }
}

impl<V: Validator> InputLine<V> {
    pub open spec fn model(&self) -> LineModel {
        LineModel {
            text: self.text@,
            cursor: self.cursor as int,
            view_start: self.view_start as int,
            view_end: self.view_end as int,
            view_padding: self.view_padding,
            width: self.width,
            is_valid: self.is_valid,
            editing: self.editing,
        }
    }

    /// The cursor and the shown range lie within the text.
    pub open spec fn wf(&self) -> bool {
        &&& self.cursor <= self.text@.len()
        &&& self.view_start <= self.view_end <= self.text@.len()
    }

    pub fn new() -> (r: Self)
        ensures
            r.wf(),
            r.validator is None,
            r.model() == (LineModel {
                text: Seq::<char>::empty(),
                cursor: 0,
                view_start: 0,
                view_end: 0,
                view_padding: 0,
                width: 0,
                is_valid: true,
                editing: false,
            }),
    {
        InputLine {
            validator: None,
            text: Vec::new(),
            is_valid: true,
            editing: false,
            view_padding: 0,
            view_start: 0,
            view_end: 0,
            cursor: 0,
            width: 0,
        }
    }

    pub fn is_numeric(&self) -> (r: bool)
        ensures
            V::obeys_validator_spec() ==> r == numeric_of(self.validator),
    {
        match &self.validator {
            None => false,
            Some(v) => v.is_numeric(),
        }
    }

    /// Shows the range that ends at `view_end`.
    pub fn calc_view_start(&mut self, view_end: usize)
        requires
            view_end <= old(self).text@.len(),
            old(self).cursor <= old(self).text@.len(),
        ensures
            V::obeys_validator_spec() ==> final(self).model() == with_view_start(old(self).model(), numeric_of(old(self).validator), view_end as int),
            shape(final(self).model()) == shape(with_view_start(old(self).model(), numeric_of(old(self).validator), view_end as int)),
            final(self).is_valid == old(self).is_valid,
            final(self).editing == old(self).editing,
            final(self).validator == old(self).validator,
            final(self).wf(),
    {
        let mut w: i16 = 0;
        let mut i: usize = view_end;
        let mut start: usize = 0;
        loop
            invariant
                i <= view_end <= self.text@.len(),
                scan_back(self.text@, self.width, view_end as int, 0) == scan_back(self.text@, self.width, i as int, w),
            ensures
                scan_back(self.text@, self.width, view_end as int, 0) == (start as int, w),
                start <= view_end,
            decreases i,
        {
            if i == 0 {
                start = 0;
                break;
            }
            let cw = char_width(self.text[i - 1]);
            proof {
                lemma_wrapping_sub(self.width, w);
            }
            if (self.width.wrapping_sub(w) as u16) < (cw as u16) {
                proof {
                    assert(!fits(self.width, w, cw)) by {
                        crate::num::lemma_uv_cast(wrap16(self.width - w));
                        crate::num::lemma_uv_cast(cw);
                    }
                }
                start = i;
                break;
            }
            proof {
                assert(fits(self.width, w, cw)) by {
                    crate::num::lemma_uv_cast(wrap16(self.width - w));
                    crate::num::lemma_uv_cast(cw);
                }
                lemma_wrapping_add(w, cw);
            }
            w = w.wrapping_add(cw);
            i = i - 1;
        }
        self.view_start = start;
        self.view_end = view_end;
        if self.is_numeric() {
            proof {
                lemma_wrapping_sub(self.width, w);
            }
            self.view_padding = self.width.wrapping_sub(w);
        } else {
            self.view_padding = 0;
        }
    }

    /// Shows the range that starts at `view_start`.
    pub fn calc_view_end(&mut self, view_start: usize)
        requires
            view_start <= old(self).text@.len(),
            old(self).cursor <= old(self).text@.len(),
        ensures
            V::obeys_validator_spec() ==> final(self).model() == with_view_end(old(self).model(), numeric_of(old(self).validator), view_start as int),
            shape(final(self).model()) == shape(with_view_end(old(self).model(), numeric_of(old(self).validator), view_start as int)),
            final(self).is_valid == old(self).is_valid,
            final(self).editing == old(self).editing,
            final(self).validator == old(self).validator,
            final(self).wf(),
    {
        let mut w: i16 = 0;
        let mut i: usize = view_start;
        let mut end: usize = 0;
        loop
            invariant
                view_start <= i <= self.text@.len(),
                scan_fwd(self.text@, self.width, view_start as int, 0) == scan_fwd(self.text@, self.width, i as int, w),
            ensures
                scan_fwd(self.text@, self.width, view_start as int, 0) == (end as int, w),
                view_start <= end <= self.text@.len(),
            decreases self.text@.len() - i,
        {
            if i >= self.text.len() {
                end = self.text.len();
                break;
            }
            let cw = char_width(self.text[i]);
            proof {
                lemma_wrapping_sub(self.width, w);
            }
            if (self.width.wrapping_sub(w) as u16) < (cw as u16) {
                proof {
                    assert(!fits(self.width, w, cw)) by {
                        crate::num::lemma_uv_cast(wrap16(self.width - w));
                        crate::num::lemma_uv_cast(cw);
                    }
                }
                end = i;
                break;
            }
            proof {
                assert(fits(self.width, w, cw)) by {
                    crate::num::lemma_uv_cast(wrap16(self.width - w));
                    crate::num::lemma_uv_cast(cw);
                }
                lemma_wrapping_add(w, cw);
            }
            w = w.wrapping_add(cw);
            i = i + 1;
        }
        self.view_start = view_start;
        self.view_end = end;
        if self.is_numeric() {
            proof {
                lemma_wrapping_sub(self.width, w);
            }
            self.view_padding = self.width.wrapping_sub(w);
        } else {
            self.view_padding = 0;
        }
    }

    /// Puts the cursor at the end and picks the shown range anew.
    pub fn reset_view(&mut self, focused: bool)
        requires
            old(self).wf(),
        ensures
            V::obeys_validator_spec() ==> final(self).model() == reset_view_spec(old(self).model(), numeric_of(old(self).validator), focused),
            shape(final(self).model()) == shape(reset_view_spec(old(self).model(), true, focused))
                || shape(final(self).model()) == shape(reset_view_spec(old(self).model(), false, focused)),
            final(self).is_valid == old(self).is_valid,
            final(self).editing == old(self).editing,
            final(self).validator == old(self).validator,
            final(self).wf(),
    {
        self.cursor = self.text.len();
        let len = self.text.len();
        if focused || self.is_numeric() {
            self.calc_view_start(len);
        } else {
            self.calc_view_end(0);
        }
    }

    pub fn cursor_left(&mut self)
        requires
            old(self).wf(),
        ensures
            V::obeys_validator_spec() ==> final(self).model() == cursor_left_spec(old(self).model(), numeric_of(old(self).validator)),
            shape(final(self).model()) == shape(cursor_left_spec(old(self).model(), numeric_of(old(self).validator))),
            final(self).is_valid == old(self).is_valid,
            final(self).editing == old(self).editing,
            final(self).validator == old(self).validator,
            final(self).wf(),
    {
        if self.cursor == 0 {
            return;
        }
        self.cursor = self.cursor - 1;
        if self.cursor < self.view_start {
            let c = self.cursor;
            self.calc_view_end(c);
        }
    }

    pub fn cursor_right(&mut self)
        requires
            old(self).wf(),
        ensures
            V::obeys_validator_spec() ==> final(self).model() == cursor_right_spec(old(self).model(), numeric_of(old(self).validator)),
            shape(final(self).model()) == shape(cursor_right_spec(old(self).model(), numeric_of(old(self).validator))),
            final(self).is_valid == old(self).is_valid,
            final(self).editing == old(self).editing,
            final(self).validator == old(self).validator,
            final(self).wf(),
    {
        if self.cursor >= self.text.len() {
            return;
        }
        self.cursor = self.cursor + 1;
        if self.cursor >= self.view_end {
            let e = if self.cursor < self.text.len() { self.cursor + 1 } else { self.text.len() };
            self.calc_view_start(e);
        }
    }

    /// Checks validity again; returns whether it changed.
    pub fn update_is_valid(&mut self) -> (changed: bool)
        ensures
            V::obeys_validator_spec() ==> final(self).model() == recheck(old(self).validator, old(self).model()).0,
            V::obeys_validator_spec() ==> (if changed { 1nat } else { 0nat }) == recheck(old(self).validator, old(self).model()).1,
            final(self).editing == old(self).editing,
            final(self).width == old(self).width,
            final(self).view_padding == old(self).view_padding,
            final(self).validator == old(self).validator,
            final(self).text@ == old(self).text@,
            final(self).cursor == old(self).cursor,
            final(self).view_start == old(self).view_start,
            final(self).view_end == old(self).view_end,
    {
        let valid = match &self.validator {
            None => true,
            Some(v) => {
                let t = chars_to_string(self.text.as_slice());
                v.is_valid(self.editing, t.as_str())
            },
        };
        let changed = valid != self.is_valid;
        self.is_valid = valid;
        changed
    }

    /// Checks validity after an edit; a valid text starts editing mode.
    /// Returns how many times validity changed.
    fn after_edit(&mut self) -> (n: u8)
        requires
            old(self).wf(),
        ensures
            V::obeys_validator_spec() ==> final(self).model() == after_edit(old(self).validator, old(self).model()).0,
            V::obeys_validator_spec() ==> n as nat == after_edit(old(self).validator, old(self).model()).1,
            shape(final(self).model()) == shape(old(self).model()),
            final(self).view_padding == old(self).view_padding,
            final(self).validator == old(self).validator,
            final(self).wf(),
    {
        let c1 = self.update_is_valid();
        let mut n: u8 = if c1 { 1 } else { 0 };
        if self.is_valid && !self.editing {
            self.editing = true;
            let c2 = self.update_is_valid();
            if c2 {
                n = n + 1;
            }
        }
        n
    }

    fn on_cmd(&mut self, n: u16) -> (r: (bool, u8))
        requires
            old(self).wf(),
        ensures
            final(self).wf(),
            final(self).validator == old(self).validator,
            V::obeys_validator_spec() ==> ({
                let (h, m, k) = input_update(old(self).validator, old(self).model(), Event::Cmd(n), true);
                r.0 == h && final(self).model() == m && r.1 as nat == k
            }),
            r.0 == input_update(old(self).validator, old(self).model(), Event::Cmd(n), true).0,
            shape(final(self).model()) == shape(input_update_with(old(self).validator, true, old(self).model(), Event::Cmd(n), true).1)
                || shape(final(self).model()) == shape(input_update_with(old(self).validator, false, old(self).model(), Event::Cmd(n), true).1),
    {
        if n == CMD_GOT_PRIMARY_FOCUS {
            self.reset_view(true);
            if self.is_valid {
                self.editing = true;
                let c = self.update_is_valid();
                return (false, if c { 1 } else { 0 });
            }
            (false, 0)
        } else if n == CMD_LOST_PRIMARY_FOCUS {
            self.reset_view(false);
            self.editing = false;
            let c = self.update_is_valid();
            (false, if c { 1 } else { 0 })
        } else if n == CMD_LOST_ATTENTION {
            self.editing = false;
            let c1 = self.update_is_valid();
            let mut k: u8 = if c1 { 1 } else { 0 };
            if self.is_valid {
                self.editing = true;
                let c2 = self.update_is_valid();
                if c2 {
                    k = k + 1;
                }
            }
            (false, k)
        } else {
            (false, 0)
        }
    }

    fn insert_char(&mut self, c: char) -> (r: u8)
        requires
            old(self).wf(),
            old(self).text@.len() < usize::MAX,
        ensures
            final(self).wf(),
            final(self).validator == old(self).validator,
            V::obeys_validator_spec() ==> ({
                let (h, m, k) = input_update(old(self).validator, old(self).model(), Event::Key(Key::Char(c)), true);
                final(self).model() == m && r as nat == k
            }),
            shape(final(self).model()) == shape(input_update(old(self).validator, old(self).model(), Event::Key(Key::Char(c)), true).1),
    {
        let cur = self.cursor;
        self.text.insert(cur, c);
        let vs = self.view_start;
        self.calc_view_end(vs);
        self.cursor_right();
        self.after_edit()
    }

    fn backspace(&mut self) -> (r: u8)
        requires
            old(self).wf(),
            old(self).text@.len() > 0,
            cursor_left_spec(old(self).model(), numeric_of(old(self).validator)).view_end >= 1,
        ensures
            final(self).wf(),
            final(self).validator == old(self).validator,
            V::obeys_validator_spec() ==> ({
                let (h, m, k) = input_update(old(self).validator, old(self).model(), Event::Key(Key::Backspace), true);
                final(self).model() == m && r as nat == k
            }),
            shape(final(self).model()) == shape(input_update(old(self).validator, old(self).model(), Event::Key(Key::Backspace), true).1),
    {
        self.cursor_left();
        let cur = self.cursor;
        self.text.remove(cur);
        let e = self.view_end - 1;
        self.calc_view_start(e);
        self.after_edit()
    }

    fn delete(&mut self) -> (r: u8)
        requires
            old(self).wf(),
            old(self).cursor < old(self).text@.len(),
            old(self).view_end >= 1,
        ensures
            final(self).wf(),
            final(self).validator == old(self).validator,
            V::obeys_validator_spec() ==> ({
                let (h, m, k) = input_update(old(self).validator, old(self).model(), Event::Key(Key::Delete), true);
                final(self).model() == m && r as nat == k
            }),
            shape(final(self).model()) == shape(input_update(old(self).validator, old(self).model(), Event::Key(Key::Delete), true).1),
    {
        let cur = self.cursor;
        self.text.remove(cur);
        let e = self.view_end - 1;
        self.calc_view_start(e);
        self.after_edit()
    }

    /// Handles an event; `enabled` is whether the window is enabled.
    /// Returns whether the event was handled and how many times validity
    /// changed (each change is announced with
    /// [`CMD_INPUT_LINE_IS_VALID_CHANGED`]).
    pub fn update(&mut self, event: Event, enabled: bool) -> (r: (bool, u8))
        requires
            old(self).wf(),
            old(self).text@.len() < usize::MAX,
            input_update_ok(old(self).validator, old(self).model(), event, enabled),
        ensures
            final(self).wf(),
            final(self).validator == old(self).validator,
            V::obeys_validator_spec() ==> ({
                let (h, m, n) = input_update(old(self).validator, old(self).model(), event, enabled);
                r.0 == h && final(self).model() == m && r.1 as nat == n
            }),
            r.0 == input_update(old(self).validator, old(self).model(), event, enabled).0,
            !(event is Cmd) ==> shape(final(self).model()) == shape(input_update(old(self).validator, old(self).model(), event, enabled).1),
            event is Cmd ==> ({
                ||| shape(final(self).model()) == shape(input_update_with(old(self).validator, true, old(self).model(), event, enabled).1)
                ||| shape(final(self).model()) == shape(input_update_with(old(self).validator, false, old(self).model(), event, enabled).1)
            }),
    {
        match event {
            Event::Cmd(n) => self.on_cmd(n),
            Event::Key(Key::Char(c)) => {
                if !enabled {
                    return (false, 0);
                }
                let k = self.insert_char(c);
                (true, k)
            },
            Event::Key(Key::Backspace) => {
                if !enabled {
                    return (false, 0);
                }
                if self.text.len() == 0 {
                    return (true, 0);
                }
                let k = self.backspace();
                (true, k)
            },
            Event::Key(Key::Delete) => {
                if !enabled {
                    return (false, 0);
                }
                if self.cursor == self.text.len() {
                    return (true, 0);
                }
                let k = self.delete();
                (true, k)
            },
            Event::Key(Key::Left) => {
                self.cursor_left();
                (true, 0)
            },
            Event::Key(Key::Right) => {
                self.cursor_right();
                (true, 0)
            },
            Event::Key(Key::Home) => {
                self.cursor = 0;
                self.calc_view_end(0);
                (true, 0)
            },
            Event::Key(Key::End) => {
                self.cursor = self.text.len();
                let len = self.text.len();
                self.calc_view_start(len);
                (true, 0)
            },
            _ => (false, 0),
        }
    }
}


/// The color index an input is drawn with: disabled (1); focused, invalid
/// (4) or valid (3); unfocused, invalid (2) or valid (0).
pub open spec fn input_color(enabled: bool, focused: bool, valid: bool) -> u8 {
    if !enabled { 1 } else if focused { if !valid { 4 } else { 3 } } else { if !valid { 2 } else { 0 } }
}

/// How an input line is drawn: where its shown text starts, whether the
/// marks for text hidden on the left and on the right show, and where the
/// cursor goes when focused.
#[derive(Clone, Copy, Debug)]
pub struct InputLineLook {
    pub color: u8,
    pub text_x: i16,
    pub more_left: bool,
    pub more_right: bool,
    pub cursor_x: Option<i16>,
}

/// A one-line text input.
#[derive(Clone, Copy, Debug, Default)]
pub struct InputLineWidget;

impl InputLineWidget {
    /// One line, as wide as offered (1 when unbounded).
    pub fn measure(aw: Option<i16>) -> (r: Vector)
        ensures
            r == (Vector { x: match aw { Some(x) => x, None => 1 }, y: 1 }),
    {
        Vector { x: match aw { Some(x) => x, None => 1 }, y: 1 }
    }

    /// Takes the width inside a column at each end and picks the shown
    /// range anew; the input is as wide as its bounds.
    pub fn arrange<V: Validator>(line: &mut InputLine<V>, fb: Rect, focused: bool) -> (r: Vector)
        requires
            old(line).wf(),
        ensures
            final(line).wf(),
            final(line).validator == old(line).validator,
            V::obeys_validator_spec() ==> final(line).model() == reset_view_spec(
                LineModel {
                    width: thickness_shrink_rect(Thickness { l: 1, t: 0, r: 1, b: 0 }, fb).size.x,
                    ..old(line).model()
                },
                numeric_of(old(line).validator),
                focused,
            ),
            r == (Vector { x: fb.size.x, y: 1 }),
    {
        line.width = Thickness::new(1, 0, 1, 0).shrink_rect(fb).w();
        line.reset_view(focused);
        Vector { x: fb.w(), y: 1 }
    }

    /// How the input is drawn.
    pub fn look<V: Validator>(line: &InputLine<V>, enabled: bool, focused: bool) -> (r: InputLineLook)
        requires
            line.wf(),
            line.view_start <= line.cursor,
        ensures
            r.color == input_color(enabled, focused, line.is_valid),
            r.text_x == wrap16(line.view_padding + 1),
            r.more_left == (line.view_start > 0),
            r.more_right == (line.view_end < line.text@.len()),
            r.cursor_x == (if focused {
                Some(wrap16(wrap16(text_width_spec(line.text@.subrange(line.view_start as int, line.cursor as int)) + line.view_padding) + 1))
            } else {
                None::<i16>
            }),
    {
        let color: u8 = if !enabled { 1 } else if focused { if !line.is_valid { 4 } else { 3 } } else { if !line.is_valid { 2 } else { 0 } };
        proof {
            lemma_wrapping_add(line.view_padding, 1);
        }
        let text_x = line.view_padding.wrapping_add(1);
        let cursor_x = if focused {
            let mut seg: Vec<char> = Vec::new();
            let mut i = line.view_start;
            while i < line.cursor
                invariant
                    line.view_start <= i <= line.cursor <= line.text@.len(),
                    seg@ == line.text@.subrange(line.view_start as int, i as int),
                decreases line.cursor - i,
            {
                seg.push(line.text[i]);
                i = i + 1;
                proof {
                    assert(seg@ =~= line.text@.subrange(line.view_start as int, i as int));
                }
            }
            let w = chars_width(seg.as_slice());
            proof {
                lemma_wrapping_add(w, line.view_padding);
                lemma_wrapping_add(wrap16(w + line.view_padding), 1);
            }
            Some(w.wrapping_add(line.view_padding).wrapping_add(1))
        } else {
            None
        };
        InputLineLook {
            color,
            text_x,
            more_left: line.view_start > 0,
            more_right: line.view_end < line.text.len(),
            cursor_x,
        }
    }
}

/// The arrow keys move the cursor one char and touch nothing else that
/// the user typed: Right, before the end of the text, is handled and moves
/// the cursor exactly one char right, with the shown range reaching at
/// least to it; at the end it changes nothing.  Left, after the start,
/// moves it exactly one char left, with the shown range starting at most
/// there; at the start it changes nothing.  Neither changes the text, the
/// width or the validity, nor announces a validity change.
pub proof fn law_input_arrows<V: Validator>(v: Option<V>, numeric: bool, m: LineModel, enabled: bool)
    requires
        0 <= m.cursor <= m.text.len(),
    ensures
        ({
            let (h, m1, n) = input_update_with(v, numeric, m, Event::Key(Key::Right), enabled);
            &&& h && n == 0
            &&& m1.text == m.text && m1.width == m.width && m1.is_valid == m.is_valid && m1.editing == m.editing
            &&& (m.cursor < m.text.len() ==> m1.cursor == m.cursor + 1 && m1.view_end >= m1.cursor)
            &&& (m.cursor == m.text.len() ==> m1 == m)
        }),
        ({
            let (h, m1, n) = input_update_with(v, numeric, m, Event::Key(Key::Left), enabled);
            &&& h && n == 0
            &&& m1.text == m.text && m1.width == m.width && m1.is_valid == m.is_valid && m1.editing == m.editing
            &&& (m.cursor > 0 ==> m1.cursor == m.cursor - 1)
            &&& (m.cursor > 0 && m.cursor - 1 < m.view_start ==> m1.view_start == m.cursor - 1)
            &&& (m.cursor == 0 ==> m1 == m)
        }),
{
}

/// Right and then Left bring the cursor back where it was, when it was not
/// at the end of the text; Left and then Right likewise, when it was not
/// at the start.
pub proof fn law_input_right_left<V: Validator>(v: Option<V>, numeric: bool, m: LineModel, enabled: bool)
    requires
        0 <= m.cursor <= m.text.len(),
    ensures
        m.cursor < m.text.len() ==> input_update_with(v, numeric,
            input_update_with(v, numeric, m, Event::Key(Key::Right), enabled).1, Event::Key(Key::Left), enabled).1.cursor == m.cursor,
        m.cursor > 0 ==> input_update_with(v, numeric,
            input_update_with(v, numeric, m, Event::Key(Key::Left), enabled).1, Event::Key(Key::Right), enabled).1.cursor == m.cursor,
{
}

} // verus!
