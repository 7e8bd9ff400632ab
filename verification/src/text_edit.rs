//! A multi-line text editor: the text cut into lines at a line break (a
//! text of its own, such as `"\r\n"`, that counts as one char), the part
//! of each line in view, and a cursor.
//!
//! Positions in the text are char indices.  Only the chars in the first
//! `u32::MAX` bytes of the text (in UTF-8) are edited and shown.

use vstd::prelude::*;
use crate::text::{char_width, char_width_spec, str_chars};
use crate::geom::{Vector, Rect};
use crate::screen::{Key, Fg};
use crate::geom::Point;
use crate::text::text_width_spec;
use crate::num::{wrap16, lemma_wrapping_add, lemma_wrap16_add_right};
use crate::event::Event;

verus! {

/// A char of a text, or a whole line break.
#[derive(Clone, Copy, Debug, PartialEq, Eq, Hash, Structural)]
pub enum Char {
    Char(char),
    LineBreak,
}

/// The number of bytes of `c` in UTF-8.
pub open spec fn utf8_len(c: char) -> nat {
    if (c as u32) < 0x80 {
        1
    } else if (c as u32) < 0x800 {
        2
    } else if (c as u32) < 0x10000 {
        3
    } else {
        4
    }
}

/// The number of bytes of a text in UTF-8.
pub open spec fn utf8_len_of(s: Seq<char>) -> nat
    decreases s.len(),
{
    if s.len() == 0 {
        0
    } else {
        utf8_len_of(s.drop_last()) + utf8_len(s.last())
    }
}

pub open spec fn char_cols(ch: Char) -> u64 {
    match ch {
        Char::Char(c) => if c == '\0' { 0 } else { char_width_spec(c) as u64 },
        Char::LineBreak => 1,
    }
}

pub open spec fn char_bytes(ch: Char, line_break: Seq<char>) -> nat {
    match ch {
        Char::Char(c) => utf8_len(c),
        Char::LineBreak => utf8_len_of(line_break),
    }
}

pub open spec fn first_char_spec(text: Seq<char>, line_break: Seq<char>) -> Option<Char> {
    if line_break.len() <= text.len() && text.subrange(0, line_break.len() as int) == line_break {
        Some(Char::LineBreak)
    } else if text.len() > 0 {
        Some(Char::Char(text[0]))
    } else {
        None
    }
}

pub open spec fn last_char_spec(text: Seq<char>, line_break: Seq<char>) -> Option<Char> {
    if line_break.len() <= text.len() && text.subrange(text.len() - line_break.len(), text.len() as int) == line_break {
        Some(Char::LineBreak)
    } else if text.len() > 0 {
        Some(Char::Char(text.last()))
    } else {
        None
    }
}

fn utf8_len_exec(c: char) -> (r: usize)
    ensures
        r == utf8_len(c),
{
    let u = c as u32;
    if u < 0x80 {
        1
    } else if u < 0x800 {
        2
    } else if u < 0x10000 {
        3
    } else {
        4
    }
}

impl Char {
    /// The columns the char takes: none for `'\0'` and control codes, one
    /// for a line break.
    pub fn width(self) -> (r: u64)
        ensures
            r == char_cols(self),
            r <= 255,
    {
        match self {
            Char::Char(c) => if c == '\0' { 0 } else { char_width(c) as u64 },
            Char::LineBreak => 1,
        }
    }

    /// The bytes the char takes in the text.
    pub fn len(self, line_break: &str) -> (r: usize)
        requires
            utf8_len_of(line_break@) <= usize::MAX,
        ensures
            r == char_bytes(self, line_break@),
    {
        match self {
            Char::Char(c) => utf8_len_exec(c),
            Char::LineBreak => {
                let cs = str_chars(line_break);
                let mut n: usize = 0;
                let mut i: usize = 0;
                while i < cs.len()
                    invariant
                        i <= cs@.len(),
                        cs@ == line_break@,
                        n == utf8_len_of(cs@.take(i as int)),
                        utf8_len_of(cs@) <= usize::MAX,
                    decreases cs@.len() - i,
                {
                    proof {
                        assert(cs@.take(i as int + 1).drop_last() == cs@.take(i as int));
                        lemma_utf8_len_prefix(cs@, i as int + 1);
                    }
                    n = n + utf8_len_exec(cs[i]);
                    i = i + 1;
                }
                proof {
                    assert(cs@.take(cs@.len() as int) == cs@);
                }
                n
            },
        }
    }
}

/// A prefix takes no more bytes than the whole.
pub proof fn lemma_utf8_len_prefix(s: Seq<char>, k: int)
    requires
        0 <= k <= s.len(),
    ensures
        utf8_len_of(s.take(k)) <= utf8_len_of(s),
    decreases s.len(),
{
    if k < s.len() {
        assert(s.drop_last().take(k) == s.take(k));
        lemma_utf8_len_prefix(s.drop_last(), k);
    } else {
        assert(s.take(k) == s);
    }
}

fn is_prefix_at(text: &Vec<char>, at: usize, part: &Vec<char>) -> (r: bool)
    requires
        at + part@.len() <= text@.len(),
    ensures
        r == (text@.subrange(at as int, at + part@.len()) == part@),
{
    let _n = text.len();
    let mut i: usize = 0;
    while i < part.len()
        invariant
            i <= part@.len(),
            at + part@.len() <= text@.len(),
            text@.len() <= usize::MAX,
            forall|k: int| 0 <= k < i ==> text@[at + k] == part@[k],
        decreases part@.len() - i,
    {
        if text[at + i] != part[i] {
            proof {
                assert(text@.subrange(at as int, at + part@.len())[i as int] != part@[i as int]);
            }
            return false;
        }
        i = i + 1;
    }
    proof {
        assert(text@.subrange(at as int, at + part@.len()) =~= part@);
    }
    true
}

/// The first char of `text`: a whole line break when it starts with one.
pub fn first_char(text: &str, line_break: &str) -> (r: Option<Char>)
    ensures
        r == first_char_spec(text@, line_break@),
{
    let t = str_chars(text);
    let b = str_chars(line_break);
    if b.len() <= t.len() && is_prefix_at(&t, 0, &b) {
        Some(Char::LineBreak)
    } else if t.len() > 0 {
        Some(Char::Char(t[0]))
    } else {
        None
    }
}

/// The last char of `text`: a whole line break when it ends with one.
pub fn last_char(text: &str, line_break: &str) -> (r: Option<Char>)
    ensures
        r == last_char_spec(text@, line_break@),
{
    let t = str_chars(text);
    let b = str_chars(line_break);
    if b.len() <= t.len() && is_prefix_at(&t, t.len() - b.len(), &b) {
        Some(Char::LineBreak)
    } else if t.len() > 0 {
        Some(Char::Char(t[t.len() - 1]))
    } else {
        None
    }
}


// ------------------------------------------------------------------ the editor

/// How many of the first chars of `t` fit in `limit` bytes.
pub open spec fn fit_len(t: Seq<char>, limit: int) -> int
    decreases t.len(),
{
    if t.len() == 0 || utf8_len_of(t) <= limit { t.len() as int } else { fit_len(t.drop_last(), limit) }
}

/// The part of a text that is edited: the chars in its first `u32::MAX` bytes.
pub open spec fn actual_text(t: Seq<char>) -> Seq<char> {
    t.take(fit_len(t, u32::MAX as int))
}

/// A text that can be cut to its edited part: it takes no more than
/// `u32::MAX` bytes, or a char ends right at that byte.
pub open spec fn cut_ok(t: Seq<char>) -> bool {
    utf8_len_of(t) <= u32::MAX || utf8_len_of(actual_text(t)) == u32::MAX
}

proof fn lemma_utf8_size_bounds(t: Seq<char>)
    ensures
        t.len() <= utf8_len_of(t) <= 4 * t.len(),
    decreases t.len(),
{
    if t.len() > 0 {
        lemma_utf8_size_bounds(t.drop_last());
    }
}

proof fn lemma_utf8_single(c: char)
    ensures
        utf8_len_of(seq![c]) == utf8_len(c),
{
    assert(seq![c].drop_last() =~= Seq::<char>::empty());
    assert(utf8_len_of(Seq::<char>::empty()) == 0);
}

proof fn lemma_utf8_size_step(t: Seq<char>, k: int)
    requires
        0 <= k < t.len(),
    ensures
        utf8_len_of(t.take(k + 1)) == utf8_len_of(t.take(k)) + utf8_len(t[k]),
{
    assert(t.take(k + 1).drop_last() =~= t.take(k));
}

proof fn lemma_utf8_size_mono(t: Seq<char>, j: int, k: int)
    requires
        0 <= j <= k <= t.len(),
    ensures
        utf8_len_of(t.take(j)) <= utf8_len_of(t.take(k)),
    decreases k - j,
{
    if j < k {
        lemma_utf8_size_step(t, k - 1);
        lemma_utf8_size_mono(t, j, k - 1);
    }
}

pub proof fn lemma_utf8_size_concat(a: Seq<char>, b: Seq<char>)
    ensures
        utf8_len_of(a + b) == utf8_len_of(a) + utf8_len_of(b),
    decreases b.len(),
{
    if b.len() == 0 {
        assert(a + b =~= a);
    } else {
        assert((a + b).drop_last() =~= a + b.drop_last());
        lemma_utf8_size_concat(a, b.drop_last());
    }
}

/// `fit_len` is the longest prefix that fits.
proof fn lemma_fit_len(t: Seq<char>, limit: int, k: int)
    requires
        0 <= k <= t.len(),
        utf8_len_of(t.take(k)) <= limit,
        k == t.len() || utf8_len_of(t.take(k + 1)) > limit,
    ensures
        fit_len(t, limit) == k,
    decreases t.len(),
{
    assert(t.take(t.len() as int) =~= t);
    if t.len() == 0 {
    } else if utf8_len_of(t) <= limit {
        if k < t.len() {
            lemma_utf8_size_mono(t, k + 1, t.len() as int);
        }
    } else {
        let u = t.drop_last();
        assert(u.take(k) =~= t.take(k));
        if k < u.len() {
            assert(u.take(k + 1) =~= t.take(k + 1));
        }
        lemma_fit_len(u, limit, k);
    }
}

/// The edited part of a text is a prefix of it that fits in `u32::MAX`
/// bytes, and all of it when it fits.
pub proof fn lemma_actual_text(t: Seq<char>)
    ensures
        0 <= fit_len(t, u32::MAX as int) <= t.len(),
        actual_text(t) == t.take(fit_len(t, u32::MAX as int)),
        utf8_len_of(actual_text(t)) <= u32::MAX,
        actual_text(t).len() <= u32::MAX,
        utf8_len_of(t) <= u32::MAX ==> actual_text(t) == t,
        cut_ok(t) && utf8_len_of(actual_text(t)) < u32::MAX ==> actual_text(t) == t,
{
    lemma_fit_len_fits(t, u32::MAX as int);
    lemma_utf8_size_bounds(actual_text(t));
    assert(t.take(t.len() as int) =~= t);
}

proof fn lemma_fit_len_fits(t: Seq<char>, limit: int)
    requires
        limit >= 0,
    ensures
        0 <= fit_len(t, limit) <= t.len(),
        utf8_len_of(t.take(fit_len(t, limit))) <= limit,
        utf8_len_of(t) <= limit ==> fit_len(t, limit) == t.len(),
    decreases t.len(),
{
    assert(t.take(t.len() as int) =~= t);
    if t.len() == 0 {
        assert(t.take(0) =~= t);
    } else if utf8_len_of(t) <= limit {
    } else {
        let u = t.drop_last();
        lemma_fit_len_fits(u, limit);
        assert(u.take(fit_len(u, limit)) =~= t.take(fit_len(u, limit)));
    }
}

/// `lb` occurs in `t` at `q`.
pub open spec fn occurs_at(t: Seq<char>, lb: Seq<char>, q: int) -> bool {
    0 <= q && q + lb.len() <= t.len() && t.subrange(q, q + lb.len()) == lb
}

/// `s` ends with `lb`.
pub open spec fn ends_with(s: Seq<char>, lb: Seq<char>) -> bool {
    lb.len() <= s.len() && s.subrange(s.len() - lb.len(), s.len() as int) == lb
}

/// Where the line that starts at `s` ends: just after the first line break
/// at or after `s`, or at the end of the text.
pub open spec fn line_end_of(t: Seq<char>, lb: Seq<char>, s: int) -> int
    decreases t.len() - s,
{
    if s < 0 || lb.len() == 0 || s + lb.len() > t.len() {
        t.len() as int
    } else if occurs_at(t, lb, s) {
        s + lb.len()
    } else {
        line_end_of(t, lb, s + 1)
    }
}

/// How many positions of the text a char spans.
pub open spec fn char_step(c: Char, lb: Seq<char>) -> int {
    match c {
        Char::Char(_) => 1,
        Char::LineBreak => lb.len() as int,
    }
}

pub open spec fn cols(c: Char) -> int {
    char_cols(c) as int
}

/// The first char of `t[a..b]`.
pub open spec fn first_in(t: Seq<char>, lb: Seq<char>, a: int, b: int) -> Option<Char> {
    first_char_spec(t.subrange(a, b), lb)
}

/// The last char of `t[a..b]`.
pub open spec fn last_in(t: Seq<char>, lb: Seq<char>, a: int, b: int) -> Option<Char> {
    last_char_spec(t.subrange(a, b), lb)
}

/// Walking from `pos` (with `width` columns passed) towards `end`, where the
/// view starts so that `column` columns are passed: the position, and the
/// columns of a char cut by the view's left edge that stay hidden.
pub open spec fn view_start_of(t: Seq<char>, lb: Seq<char>, pos: int, end: int, width: int, column: int) -> (int, int)
    decreases end - pos,
{
    if width == column || lb.len() == 0 || pos < 0 || end > t.len() || pos >= end {
        (pos, 0)
    } else {
        match first_in(t, lb, pos, end) {
            None => (pos, 0),
            Some(c) => if width + cols(c) > column {
                (pos + char_step(c, lb), width + cols(c) - column)
            } else {
                view_start_of(t, lb, pos + char_step(c, lb), end, width + cols(c), column)
            },
        }
    }
}

/// Walking from `pos` (with `width` columns filled) towards `end`, where the
/// view ends in `limit` columns, and whether those are filled.
pub open spec fn view_end_of(t: Seq<char>, lb: Seq<char>, pos: int, end: int, width: int, limit: int) -> (int, bool)
    decreases end - pos,
{
    if width == limit {
        (pos, true)
    } else if lb.len() == 0 || pos < 0 || end > t.len() || pos >= end {
        (pos, false)
    } else {
        match first_in(t, lb, pos, end) {
            None => (pos, false),
            Some(c) => if width + cols(c) > limit {
                (pos, true)
            } else {
                view_end_of(t, lb, pos + char_step(c, lb), end, width + cols(c), limit)
            },
        }
    }
}

/// A line of the text as shown: the positions it spans, the part of them in
/// view, whether the view is full, and how many columns of a wide char cut
/// by the view's left edge stay hidden.
#[derive(Clone, Copy, Debug, PartialEq, Eq, Structural)]
pub struct Line {
    pub range_start: usize,
    pub range_end: usize,
    pub view_start: usize,
    pub view_end: usize,
    pub filled: bool,
    pub padding: u16,
}

/// The line that starts at `s`, viewed from `column` on, `limit` columns wide.
pub open spec fn line_of(t: Seq<char>, lb: Seq<char>, s: int, column: int, limit: int) -> Line {
    let e = line_end_of(t, lb, s);
    let vs = view_start_of(t, lb, s, e, 0, column);
    let ve = view_end_of(t, lb, vs.0, e, 0, limit);
    Line {
        range_start: s as usize,
        range_end: e as usize,
        view_start: vs.0 as usize,
        view_end: ve.0 as usize,
        filled: ve.1,
        padding: vs.1 as u16,
    }
}

/// `k` lines, one after another, from `s` on.
pub open spec fn lines_from(t: Seq<char>, lb: Seq<char>, s: int, column: int, limit: int, k: nat) -> Seq<Line>
    decreases k,
{
    if k == 0 {
        Seq::empty()
    } else {
        let l = line_of(t, lb, s, column, limit);
        seq![l] + lines_from(t, lb, l.range_end as int, column, limit, (k - 1) as nat)
    }
}

/// The line holds the cursor: the cursor is in it, or just after it where it
/// does not end with a line break.
pub open spec fn holds_cursor(t: Seq<char>, lb: Seq<char>, l: Line, cursor: int) -> bool {
    (l.range_start <= cursor < l.range_end)
        || (!ends_with(t.subrange(l.range_start as int, l.range_end as int), lb) && cursor == l.range_end)
}

/// The first of `lines`, from the `i`-th on, that holds the cursor.
pub open spec fn first_holding(t: Seq<char>, lb: Seq<char>, lines: Seq<Line>, cursor: int, i: int) -> Option<usize>
    decreases lines.len() - i,
{
    if i < 0 || i >= lines.len() {
        None
    } else if holds_cursor(t, lb, lines[i], cursor) {
        Some(i as usize)
    } else {
        first_holding(t, lb, lines, cursor, i + 1)
    }
}

pub open spec fn line_bounds(l: Line, n: int) -> bool {
    l.range_start <= l.view_start <= l.view_end <= l.range_end <= n
}

/// A line ends just after its first line break, or at the end of the text.
pub proof fn lemma_line_end_bounds(t: Seq<char>, lb: Seq<char>, s: int)
    requires
        0 <= s <= t.len(),
        lb.len() >= 1,
    ensures
        s <= line_end_of(t, lb, s) <= t.len(),
    decreases t.len() - s,
{
    if s + lb.len() <= t.len() && !occurs_at(t, lb, s) {
        lemma_line_end_bounds(t, lb, s + 1);
    }
}

fn char_step_exec(c: Char, lb: &Vec<char>) -> (r: usize)
    ensures
        r == char_step(c, lb@),
{
    match c {
        Char::Char(_) => 1,
        Char::LineBreak => lb.len(),
    }
}

/// The first char of `text[a..b]`, of the edited part `text[..n]`.
fn first_char_at(text: &Vec<char>, n: usize, lb: &Vec<char>, a: usize, b: usize) -> (r: Option<Char>)
    requires
        a <= b <= n <= text@.len(),
    ensures
        r == first_in(text@.take(n as int), lb@, a as int, b as int),
{
    let ghost t = text@.take(n as int);
    proof {
        assert(t.subrange(a as int, b as int) =~= text@.subrange(a as int, b as int));
    }
    if lb.len() <= b - a {
        let m = is_prefix_at(text, a, lb);
        proof {
            assert(text@.subrange(a as int, b as int).subrange(0, lb@.len() as int)
                =~= text@.subrange(a as int, a + lb@.len()));
        }
        if m {
            return Some(Char::LineBreak);
        }
    }
    if a < b {
        Some(Char::Char(text[a]))
    } else {
        None
    }
}

/// The last char of `text[a..b]`, of the edited part `text[..n]`.
fn last_char_at(text: &Vec<char>, n: usize, lb: &Vec<char>, a: usize, b: usize) -> (r: Option<Char>)
    requires
        a <= b <= n <= text@.len(),
    ensures
        r == last_in(text@.take(n as int), lb@, a as int, b as int),
{
    let ghost t = text@.take(n as int);
    proof {
        assert(t.subrange(a as int, b as int) =~= text@.subrange(a as int, b as int));
    }
    if lb.len() <= b - a {
        let m = is_prefix_at(text, b - lb.len(), lb);
        proof {
            let s = text@.subrange(a as int, b as int);
            assert(s.subrange(s.len() - lb@.len(), s.len() as int)
                =~= text@.subrange(b - lb@.len(), b - lb@.len() + lb@.len()));
        }
        if m {
            return Some(Char::LineBreak);
        }
    }
    if a < b {
        Some(Char::Char(text[b - 1]))
    } else {
        None
    }
}

/// `text[a..b]` ends with the line break.
fn ends_with_at(text: &Vec<char>, n: usize, lb: &Vec<char>, a: usize, b: usize) -> (r: bool)
    requires
        a <= b <= n <= text@.len(),
    ensures
        r == ends_with(text@.take(n as int).subrange(a as int, b as int), lb@),
{
    let ghost t = text@.take(n as int);
    proof {
        assert(t.subrange(a as int, b as int) =~= text@.subrange(a as int, b as int));
    }
    if lb.len() <= b - a {
        let m = is_prefix_at(text, b - lb.len(), lb);
        proof {
            let s = text@.subrange(a as int, b as int);
            assert(s.subrange(s.len() - lb@.len(), s.len() as int)
                =~= text@.subrange(b - lb@.len(), b - lb@.len() + lb@.len()));
        }
        m
    } else {
        false
    }
}

/// Where the line that starts at `s` ends.
fn find_line_end(text: &Vec<char>, n: usize, lb: &Vec<char>, s: usize) -> (e: usize)
    requires
        s <= n <= text@.len(),
        lb@.len() >= 1,
    ensures
        e == line_end_of(text@.take(n as int), lb@, s as int),
        s <= e <= n,
{
    let ghost t = text@.take(n as int);
    let mut q = s;
    while lb.len() <= n - q
        invariant
            s <= q <= n <= text@.len(),
            t == text@.take(n as int),
            lb@.len() >= 1,
            line_end_of(t, lb@, s as int) == line_end_of(t, lb@, q as int),
        decreases n - q,
    {
        let m = is_prefix_at(text, q, lb);
        proof {
            assert(t.subrange(q as int, q + lb@.len()) =~= text@.subrange(q as int, q + lb@.len()));
        }
        if m {
            return q + lb.len();
        }
        q = q + 1;
    }
    n
}

/// Walks from `s` to where the view starts for `column`.
fn skip_to_column(text: &Vec<char>, n: usize, lb: &Vec<char>, s: usize, e: usize, column: u64) -> (r: (usize, u64))
    requires
        s <= e <= n <= text@.len(),
        lb@.len() >= 1,
    ensures
        r.0 as int == view_start_of(text@.take(n as int), lb@, s as int, e as int, 0, column as int).0,
        r.1 as int == view_start_of(text@.take(n as int), lb@, s as int, e as int, 0, column as int).1,
        s <= r.0 <= e,
        r.1 <= 255,
{
    let ghost t = text@.take(n as int);
    let mut pos = s;
    let mut width: u64 = 0;
    loop
        invariant
            s <= pos <= e <= n <= text@.len(),
            t == text@.take(n as int),
            lb@.len() >= 1,
            width <= column,
            view_start_of(t, lb@, s as int, e as int, 0, column as int)
                == view_start_of(t, lb@, pos as int, e as int, width as int, column as int),
        decreases e - pos,
    {
        if width == column {
            return (pos, 0);
        }
        match first_char_at(text, n, lb, pos, e) {
            None => {
                return (pos, 0);
            },
            Some(c) => {
                let cw = c.width();
                let st = char_step_exec(c, lb);
                if cw > column - width {
                    return (pos + st, cw - (column - width));
                }
                pos = pos + st;
                width = width + cw;
            },
        }
    }
}

/// Walks from `vs` to where the view ends in `limit` columns.
fn fill_view(text: &Vec<char>, n: usize, lb: &Vec<char>, vs: usize, e: usize, limit: u64) -> (r: (usize, bool))
    requires
        vs <= e <= n <= text@.len(),
        lb@.len() >= 1,
    ensures
        r == ({
            let v = view_end_of(text@.take(n as int), lb@, vs as int, e as int, 0, limit as int);
            (v.0 as usize, v.1)
        }),
        vs <= r.0 <= e,
{
    let ghost t = text@.take(n as int);
    let mut pos = vs;
    let mut width: u64 = 0;
    loop
        invariant
            vs <= pos <= e <= n <= text@.len(),
            t == text@.take(n as int),
            lb@.len() >= 1,
            width <= limit,
            view_end_of(t, lb@, vs as int, e as int, 0, limit as int)
                == view_end_of(t, lb@, pos as int, e as int, width as int, limit as int),
        decreases e - pos,
    {
        if width == limit {
            return (pos, true);
        }
        match first_char_at(text, n, lb, pos, e) {
            None => {
                return (pos, false);
            },
            Some(c) => {
                let cw = c.width();
                let st = char_step_exec(c, lb);
                if cw > limit - width {
                    return (pos, true);
                }
                pos = pos + st;
                width = width + cw;
            },
        }
    }
}

/// The first of `lines` that holds the cursor.
fn find_cursor_line(text: &Vec<char>, n: usize, lb: &Vec<char>, lines: &Vec<Line>, cursor: usize) -> (r: Option<usize>)
    requires
        n <= text@.len(),
        forall|k: int| 0 <= k < lines@.len() ==> line_bounds(#[trigger] lines@[k], n as int),
    ensures
        r == first_holding(text@.take(n as int), lb@, lines@, cursor as int, 0),
{
    let ghost t = text@.take(n as int);
    let mut i: usize = 0;
    while i < lines.len()
        invariant
            i <= lines@.len(),
            n <= text@.len(),
            t == text@.take(n as int),
            forall|k: int| 0 <= k < lines@.len() ==> line_bounds(#[trigger] lines@[k], n as int),
            first_holding(t, lb@, lines@, cursor as int, 0) == first_holding(t, lb@, lines@, cursor as int, i as int),
        decreases lines@.len() - i,
    {
        let l = lines[i];
        assert(line_bounds(lines@[i as int], n as int));
        let holds = (l.range_start <= cursor && cursor < l.range_end)
            || (!ends_with_at(text, n, lb, l.range_start, l.range_end) && cursor == l.range_end);
        if holds {
            return Some(i);
        }
        i = i + 1;
    }
    None
}

fn scroll_left_one(text: &Vec<char>, n: usize, lb: &Vec<char>, l: Line, delta: u64, limit: u64) -> (r: Line)
    requires
        n <= text@.len(),
        lb@.len() >= 1,
        line_ok(text@.take(n as int), lb@, l),
    ensures
        r == scroll_left_line(text@.take(n as int), lb@, l, delta as int, limit as int),
{
    let ghost t = text@.take(n as int);
    let rs = l.range_start;
    let mut delta = delta;
    let mut padding: u16 = l.padding;
    let mut vs = l.view_start;
    proof {
        lemma_line_end_bounds(t, lb@, rs as int);
    }
    if padding != 0 {
        match last_char_at(text, n, lb, rs, vs) {
            Some(c) => {
                let cw = c.width();
                let room = cw - padding as u64;
                let pd: u64 = if delta < room { delta } else { room };
                padding = padding + pd as u16;
                delta = delta - pd;
                if padding as u64 == cw {
                    padding = 0;
                    vs = vs - char_step_exec(c, lb);
                }
            },
            None => {},
        }
    }
    let ghost first = (padding as int, vs as int, delta as int);
    if delta != 0 {
        loop
            invariant_except_break
                back_walk(t, lb@, rs as int, first.1, first.2) == back_walk(t, lb@, rs as int, vs as int, delta as int),
            invariant
                rs <= vs <= first.1,
                first.1 <= l.range_end <= n <= text@.len(),
                t == text@.take(n as int),
                lb@.len() >= 1,
            ensures
                back_walk(t, lb@, rs as int, first.1, first.2) == (vs as int, padding as int),
            decreases vs - rs,
        {
            match last_char_at(text, n, lb, rs, vs) {
                None => {
                    padding = 0;
                    break;
                },
                Some(c) => {
                    let cw = c.width();
                    if cw > delta {
                        padding = delta as u16;
                        break;
                    }
                    delta = delta - cw;
                    vs = vs - char_step_exec(c, lb);
                },
            }
        }
    }
    let (ve, filled) = fill_view(text, n, lb, vs, l.range_end, limit);
    Line { view_start: vs, view_end: ve, filled, padding, ..l }
}

fn scroll_right_one(text: &Vec<char>, n: usize, lb: &Vec<char>, l: Line, delta: u64, limit: u64) -> (r: Line)
    requires
        n <= text@.len(),
        lb@.len() >= 1,
        line_ok(text@.take(n as int), lb@, l),
    ensures
        r == scroll_right_line(text@.take(n as int), lb@, l, delta as int, limit as int),
{
    let ghost t = text@.take(n as int);
    let re = l.range_end;
    let pd: u16 = if delta < l.padding as u64 { delta as u16 } else { l.padding };
    let mut padding: u16 = l.padding - pd;
    let mut delta = delta - pd as u64;
    let mut vs = l.view_start;
    let ghost d0 = delta as int;
    if delta != 0 {
        loop
            invariant_except_break
                0 < delta,
                fwd_walk(t, lb@, l.view_start as int, re as int, d0) == fwd_walk(t, lb@, vs as int, re as int, delta as int),
            invariant
                l.view_start <= vs <= re <= n <= text@.len(),
                t == text@.take(n as int),
                lb@.len() >= 1,
            ensures
                fwd_walk(t, lb@, l.view_start as int, re as int, d0) == (vs as int, padding as int),
            decreases re - vs,
        {
            match first_char_at(text, n, lb, vs, re) {
                None => {
                    padding = 0;
                    break;
                },
                Some(c) => {
                    let cw = c.width();
                    if cw >= delta {
                        padding = (cw - delta) as u16;
                        vs = vs + char_step_exec(c, lb);
                        break;
                    }
                    delta = delta - cw;
                    vs = vs + char_step_exec(c, lb);
                },
            }
        }
    }
    let (ve, filled) = fill_view(text, n, lb, vs, re, limit);
    Line { view_start: vs, view_end: ve, filled, padding, ..l }
}

/// Walks through a line's chars from `start` until `target` columns are
/// passed, or a char would pass them, or a line break comes.
fn walk_down(text: &Vec<char>, n: usize, lb: &Vec<char>, start: usize, end: usize, target: u64) -> (r: usize)
    requires
        start <= end <= n <= text@.len(),
    ensures
        r == down_walk(text@.take(n as int), lb@, start as int, end as int, 0, target as int),
{
    let ghost t = text@.take(n as int);
    let mut pos = start;
    let mut width: u64 = 0;
    loop
        invariant
            start <= pos <= end <= n <= text@.len(),
            t == text@.take(n as int),
            width <= target,
            down_walk(t, lb@, start as int, end as int, 0, target as int)
                == down_walk(t, lb@, pos as int, end as int, width as int, target as int),
        decreases end - pos,
    {
        if width == target {
            return pos;
        }
        match first_char_at(text, n, lb, pos, end) {
            Some(Char::Char(c)) => {
                let cw = Char::Char(c).width();
                if cw > target - width {
                    return pos;
                }
                pos = pos + 1;
                width = width + cw;
            },
            _ => {
                return pos;
            },
        }
    }
}

/// An editor of a multi-line text.
pub struct TextEdit {
    pub text: Vec<char>,
    pub line_break: Vec<char>,
    /// The size of the view.
    pub size: Vector,
    /// The lines in view, top down.
    pub lines: Vec<Line>,
    /// The first column in view.
    pub column: u64,
    pub cursor: usize,
    /// The line in view that holds the cursor.
    pub cursor_line: Option<usize>,
}

impl TextEdit {
    pub open spec fn edited(&self) -> Seq<char> {
        actual_text(self.text@)
    }

    /// The width of the view in columns.
    pub open spec fn view_width(&self) -> int {
        (self.size.x as u16) as int
    }

    /// The height of the view in lines.
    pub open spec fn view_height(&self) -> nat {
        (self.size.y as u16) as nat
    }

    /// A line break that is not empty, a text that can be cut to its edited
    /// part, and the cursor in the edited text.
    pub open spec fn base_ok(&self) -> bool {
        &&& self.line_break@.len() >= 1
        &&& !self_overlapping(self.line_break@)
        &&& cut_ok(self.text@)
        &&& self.cursor <= self.edited().len()
        &&& !inside_break(self.edited(), self.line_break@, self.cursor as int)
    }

    /// The lines in view fill the view, each starting where the one before
    /// ends, and the cursor's line holds it.
    pub open spec fn wf(&self) -> bool {
        &&& self.base_ok()
        &&& lines_ok(self.edited(), self.line_break@, self.lines@, self.view_height())
        &&& forall|k: int| 0 <= k < self.lines@.len()
            ==> !inside_break(self.edited(), self.line_break@, (#[trigger] self.lines@[k]).range_start as int)
        &&& (self.cursor_line matches Some(i) ==> i < self.lines@.len()
            && holds_cursor(self.edited(), self.line_break@, self.lines@[i as int], self.cursor as int)
            && (i > 0 ==> !holds_cursor(self.edited(), self.line_break@, self.lines@[i - 1], self.cursor as int)))
    }

    /// Where `recalc_view(start)` starts: at `start`, or at the first line in view.
    pub open spec fn recalc_start(&self, start: Option<usize>) -> int {
        match start {
            Some(s) => s as int,
            None => if self.lines@.len() > 0 { self.lines@[0].range_start as int } else { 0 },
        }
    }

    /// The editor of an empty text, with `"\n"` as its line break, and no view.
    pub fn new() -> (r: TextEdit)
        ensures
            r.wf(),
            r.text@ == Seq::<char>::empty(),
            r.line_break@ == seq!['\n'],
            r.size == (Vector { x: 0, y: 0 }),
            r.lines@ == Seq::<Line>::empty(),
            r.column == 0,
            r.cursor == 0,
            r.cursor_line is None,
    {
        let mut lb: Vec<char> = Vec::new();
        lb.push('\n');
        TextEdit {
            text: Vec::new(),
            line_break: lb,
            size: Vector { x: 0, y: 0 },
            lines: Vec::new(),
            column: 0,
            cursor: 0,
            cursor_line: None,
        }
    }

    fn actual_len(&self) -> (n: usize)
        ensures
            n == self.edited().len(),
            self.text@.take(n as int) == self.edited(),
            n <= self.text@.len(),
            n <= u32::MAX,
    {
        let len = self.text.len();
        let mut i: usize = 0;
        let mut size: u64 = 0;
        while i < len
            invariant
                i <= len,
                len == self.text@.len(),
                size == utf8_len_of(self.text@.take(i as int)),
                size <= u32::MAX,
            ensures
                i <= len,
                size == utf8_len_of(self.text@.take(i as int)),
                size <= u32::MAX,
                i == len || size + utf8_len(self.text@[i as int]) > u32::MAX,
            decreases len - i,
        {
            let b = utf8_len_exec(self.text[i]) as u64;
            if size + b > u32::MAX as u64 {
                break;
            }
            proof {
                lemma_utf8_size_step(self.text@, i as int);
            }
            size = size + b;
            i = i + 1;
        }
        proof {
            if i < len {
                lemma_utf8_size_step(self.text@, i as int);
            }
            lemma_fit_len(self.text@, u32::MAX as int, i as int);
            lemma_actual_text(self.text@);
        }
        i
    }

    /// Cuts the text into the lines in view, from `start` (or from the first
    /// line in view) on, and finds the line that holds the cursor.
    pub fn recalc_view(&mut self, start: Option<usize>)
        requires
            old(self).base_ok(),
            old(self).recalc_start(start) <= old(self).edited().len(),
            !inside_break(old(self).edited(), old(self).line_break@, old(self).recalc_start(start)),
        ensures
            final(self).wf(),
            final(self).lines@ == lines_from(old(self).edited(), old(self).line_break@,
                old(self).recalc_start(start), old(self).column as int, old(self).view_width(), old(self).view_height()),
            final(self).cursor_line == first_holding(old(self).edited(), old(self).line_break@,
                final(self).lines@, old(self).cursor as int, 0),
            final(self).text == old(self).text,
            final(self).line_break == old(self).line_break,
            final(self).size == old(self).size,
            final(self).column == old(self).column,
            final(self).cursor == old(self).cursor,
    {
        let ghost t = self.edited();
        let ghost lb = self.line_break@;
        let ghost s0 = self.recalc_start(start);
        let n = self.actual_len();
        let mut line_start: usize = match start {
            Some(s) => s,
            None => if self.lines.len() > 0 { self.lines[0].range_start } else { 0 },
        };
        let h: u16 = #[verifier::truncate] (self.size.y as u16);
        let limit: u64 = (#[verifier::truncate] (self.size.x as u16)) as u64;
        let column = self.column;
        let mut lines: Vec<Line> = Vec::new();
        let mut i: u16 = 0;
        while i < h
            invariant
                i <= h,
                h as nat == self.view_height(),
                limit as int == self.view_width(),
                column == self.column,
                t == self.edited(),
                t == self.text@.take(n as int),
                n <= self.text@.len(),
                lb == self.line_break@,
                lb.len() >= 1,
                line_start <= n,
                lines@ + lines_from(t, lb, line_start as int, column as int, limit as int, (h - i) as nat)
                    == lines_from(t, lb, s0, column as int, limit as int, h as nat),
                forall|k: int| 0 <= k < lines@.len() ==> line_bounds(#[trigger] lines@[k], n as int),
            decreases h - i,
        {
            let e = find_line_end(&self.text, n, &self.line_break, line_start);
            let (vs, pad) = skip_to_column(&self.text, n, &self.line_break, line_start, e, column);
            let (ve, filled) = fill_view(&self.text, n, &self.line_break, vs, e, limit);
            let l = Line {
                range_start: line_start,
                range_end: e,
                view_start: vs,
                view_end: ve,
                filled,
                padding: pad as u16,
            };
            proof {
                let k = (h - i) as nat;
                assert(l == line_of(t, lb, line_start as int, column as int, limit as int));
                assert(lines_from(t, lb, line_start as int, column as int, limit as int, k)
                    == seq![l] + lines_from(t, lb, e as int, column as int, limit as int, (k - 1) as nat));
                assert(lines@.push(l) + lines_from(t, lb, e as int, column as int, limit as int, (k - 1) as nat)
                    =~= lines@ + (seq![l] + lines_from(t, lb, e as int, column as int, limit as int, (k - 1) as nat)));
            }
            lines.push(l);
            line_start = e;
            i = i + 1;
        }
        proof {
            assert(lines@ + lines_from(t, lb, line_start as int, column as int, limit as int, 0) =~= lines@);
        }
        let cl = find_cursor_line(&self.text, n, &self.line_break, &lines, self.cursor);
        let _len = lines.len();
        self.lines = lines;
        self.cursor_line = cl;
        proof {
            lemma_lines_from_ok(t, lb, s0, column as int, limit as int, h as nat);
            lemma_lines_from_starts(t, lb, s0, column as int, limit as int, h as nat);
            if let Some(j) = cl {
                assert(self.lines@.len() == _len);
                lemma_first_holding_in(t, lb, self.lines@, self.cursor as int, 0);
            }
        }
    }

    pub open spec fn state(&self) -> EditState {
        EditState {
            lines: self.lines@,
            column: self.column as int,
            cursor: self.cursor as int,
            cursor_line: self.cursor_line,
        }
    }

    /// Lays the lines out anew from the cursor's line, unless one in view
    /// already holds the cursor.
    fn ensure_cursor_line(&mut self)
        requires
            old(self).wf(),
            old(self).view_height() >= 1,
        ensures
            final(self).wf(),
            final(self).state() == with_cursor_line(old(self).edited(), old(self).line_break@,
                old(self).view_width(), old(self).view_height(), old(self).state()),
            final(self).cursor_line is Some,
            final(self).text == old(self).text,
            final(self).line_break == old(self).line_break,
            final(self).size == old(self).size,
    {
        if self.cursor_line.is_none() {
            let ghost t = self.edited();
            let ghost lb = self.line_break@;
            let n = self.actual_len();
            let ls = line_start_at(&self.text, n, &self.line_break, self.cursor);
            proof {
                lemma_line_start_holds(t, lb, self.cursor as int, self.column as int, self.view_width());
                lemma_last_break_end(t, lb, self.cursor - lb.len());
                if ls > 0 {
                    let q = (self.cursor - lb.len()) as int;
                    lemma_break_start_found(t, lb, q);
                    lemma_break_end_not_inside(t, lb, ls - lb.len());
                }
            }
            self.recalc_view(Some(ls));
            proof {
                let h = self.view_height();
                let l0 = line_of(t, lb, ls as int, self.column as int, self.view_width());
                assert(self.lines@ == seq![l0] + lines_from(t, lb, l0.range_end as int, self.column as int, self.view_width(), (h - 1) as nat));
                assert(self.lines@[0] == l0);
                assert(holds_cursor(t, lb, self.lines@[0], self.cursor as int));
                assert(self.cursor_line == Some(0usize));
            }
        }
    }

    /// Sets the first column in view to the cursor's column in `line`, its
    /// line, and lays the lines out anew.
    #[verifier::spinoff_prover]
    fn reposition(&mut self, line: Line)
        requires
            old(self).wf(),
            old(self).cursor_line matches Some(i) && line == old(self).lines@[i as int],
        ensures
            final(self).wf(),
            final(self).state() == with_column(old(self).edited(), old(self).line_break@,
                old(self).view_width(), old(self).view_height(), old(self).state(), line),
            final(self).cursor_line == old(self).cursor_line,
            final(self).lines@[final(self).cursor_line->0 as int].view_start <= final(self).cursor,
            final(self).text == old(self).text,
            final(self).line_break == old(self).line_break,
            final(self).size == old(self).size,
    {
        let ghost t = self.edited();
        let ghost lb = self.line_break@;
        let ghost i = self.cursor_line->0 as int;
        let ghost old_lines = self.lines@;
        let n = self.actual_len();
        proof {
            assert(line_ok(t, lb, old_lines[i]));
        }
        self.column = chars_cols(&self.text, n, line.range_start, self.cursor);
        self.recalc_view(None);
        proof {
            lemma_reposition(t, lb, old_lines, self.lines@, self.view_height(), i, self.cursor as int,
                self.column as int, self.view_width());
        }
    }

    /// Moves the cursor a char to the left, within its line, and the view
    /// with it; whether it moved.
    pub fn cursor_left(&mut self) -> (moved: bool)
        requires
            old(self).wf(),
            old(self).view_height() >= 1,
            cursor_left_spec(old(self).edited(), old(self).line_break@, old(self).view_width(),
                old(self).view_height(), old(self).state()).2,
        ensures
            final(self).wf(),
            final(self).state() == cursor_left_spec(old(self).edited(), old(self).line_break@,
                old(self).view_width(), old(self).view_height(), old(self).state()).0,
            moved == cursor_left_spec(old(self).edited(), old(self).line_break@, old(self).view_width(),
                old(self).view_height(), old(self).state()).1,
            final(self).text == old(self).text,
            final(self).line_break == old(self).line_break,
            final(self).size == old(self).size,
    {
        self.prepare_left();
        self.step_left()
    }

    fn prepare_left(&mut self)
        requires
            old(self).wf(),
            old(self).view_height() >= 1,
        ensures
            final(self).wf(),
            final(self).state() == left_prepared(old(self).edited(), old(self).line_break@,
                old(self).view_width(), old(self).view_height(), old(self).state()),
            final(self).cursor_line is Some,
            final(self).text == old(self).text,
            final(self).line_break == old(self).line_break,
            final(self).size == old(self).size,
    {
        self.ensure_cursor_line();
        let line = self.lines[self.cursor_line.unwrap()];
        if self.cursor > line.view_end || (self.cursor == line.view_end && line.filled) {
            self.reposition(line);
        }
    }

    #[verifier::spinoff_prover]
    fn step_left(&mut self) -> (moved: bool)
        requires
            old(self).wf(),
            old(self).cursor_line is Some,
            left_step(old(self).edited(), old(self).line_break@, old(self).view_width(), old(self).state()).2,
        ensures
            final(self).wf(),
            final(self).state() == left_step(old(self).edited(), old(self).line_break@,
                old(self).view_width(), old(self).state()).0,
            moved == left_step(old(self).edited(), old(self).line_break@, old(self).view_width(), old(self).state()).1,
            final(self).text == old(self).text,
            final(self).line_break == old(self).line_break,
            final(self).size == old(self).size,
    {
        let ghost t = self.edited();
        let ghost lb = self.line_break@;
        let ghost w = self.view_width();
        let ghost st2 = self.state();
        let i = self.cursor_line.unwrap();
        let line = self.lines[i];
        let n = self.actual_len();
        proof {
            assert(line_ok(t, lb, self.lines@[i as int]));
        }
        match last_char_at(&self.text, n, &self.line_break, line.range_start, self.cursor) {
            Some(Char::Char(_)) => {
                proof {
                    assert(!inside_break(t, lb, line.range_start as int));
                    lemma_step_back_not_inside(t, lb, line.range_start as int, self.cursor as int);
                    if i > 0 {
                        let prev = self.lines@[i - 1];
                        assert(line_ok(t, lb, prev));
                        assert(prev.range_end == line.range_start);
                        if !ends_with(t.subrange(prev.range_start as int, prev.range_end as int), lb) {
                            lemma_not_ending_is_last(t, lb, prev);
                        }
                    }
                }
                self.cursor = self.cursor - 1;
                if self.cursor < line.view_start {
                    let offset = chars_cols(&self.text, n, self.cursor, line.view_start);
                    self.scroll_left(offset);
                    proof {
                        let st3 = EditState { cursor: st2.cursor - 1, ..st2 };
                        assert(self.lines@ =~= scrolled(t, lb, w, st3, offset as int, true).lines);
                    }
                }
                true
            },
            _ => false,
        }
    }

    /// Moves the cursor a char to the right, within its line, and the view
    /// with it; whether it moved.
    pub fn cursor_right(&mut self) -> (moved: bool)
        requires
            old(self).wf(),
            old(self).view_height() >= 1,
            cursor_right_spec(old(self).edited(), old(self).line_break@, old(self).view_width(),
                old(self).view_height(), old(self).state()).2,
        ensures
            final(self).wf(),
            final(self).state() == cursor_right_spec(old(self).edited(), old(self).line_break@,
                old(self).view_width(), old(self).view_height(), old(self).state()).0,
            moved == cursor_right_spec(old(self).edited(), old(self).line_break@, old(self).view_width(),
                old(self).view_height(), old(self).state()).1,
            final(self).text == old(self).text,
            final(self).line_break == old(self).line_break,
            final(self).size == old(self).size,
    {
        self.prepare_right();
        self.step_right()
    }

    fn prepare_right(&mut self)
        requires
            old(self).wf(),
            old(self).view_height() >= 1,
        ensures
            final(self).wf(),
            final(self).state() == right_prepared(old(self).edited(), old(self).line_break@,
                old(self).view_width(), old(self).view_height(), old(self).state()),
            final(self).cursor_line is Some,
            final(self).lines@[final(self).cursor_line->0 as int].view_start <= final(self).cursor,
            final(self).text == old(self).text,
            final(self).line_break == old(self).line_break,
            final(self).size == old(self).size,
    {
        self.ensure_cursor_line();
        let line = self.lines[self.cursor_line.unwrap()];
        if self.cursor < line.view_start {
            self.reposition(line);
        }
    }

    #[verifier::spinoff_prover]
    fn step_right(&mut self) -> (moved: bool)
        requires
            old(self).wf(),
            old(self).cursor_line is Some,
            right_step(old(self).edited(), old(self).line_break@, old(self).view_width(), old(self).state()).2,
        ensures
            final(self).wf(),
            final(self).state() == right_step(old(self).edited(), old(self).line_break@,
                old(self).view_width(), old(self).state()).0,
            moved == right_step(old(self).edited(), old(self).line_break@, old(self).view_width(), old(self).state()).1,
            final(self).text == old(self).text,
            final(self).line_break == old(self).line_break,
            final(self).size == old(self).size,
    {
        let ghost t = self.edited();
        let ghost lb = self.line_break@;
        let ghost w = self.view_width();
        let ghost st2 = self.state();
        let i = self.cursor_line.unwrap();
        let line = self.lines[i];
        let n = self.actual_len();
        proof {
            assert(line_ok(t, lb, self.lines@[i as int]));
            lemma_line_end_bounds(t, lb, line.range_start as int);
            lemma_cursor_aligned(t, lb, line, self.cursor as int);
        }
        match first_char_at(&self.text, n, &self.line_break, self.cursor, line.range_end) {
            Some(Char::Char(c)) => {
                proof {
                    lemma_scan_step(t, lb, line.range_start as int, self.cursor as int, Char::Char(c));
                    lemma_char_step_not_inside(t, lb, line.range_start as int, self.cursor as int);
                    if self.cursor + 1 == line.range_end {
                        lemma_not_ends_with(t, lb, line.range_start as int, line.range_end as int);
                    }
                }
                self.cursor = self.cursor + 1;
                if self.cursor > line.view_end || (self.cursor == line.view_end && line.filled) {
                    let cols = chars_cols(&self.text, n, line.view_end, self.cursor);
                    let next = match first_char_at(&self.text, n, &self.line_break, self.cursor, line.range_end) {
                        Some(c) => c.width(),
                        None => 1,
                    };
                    let offset = cols + next;
                    if offset != 0 {
                        self.scroll_right(offset);
                        proof {
                            let st3 = EditState { cursor: st2.cursor + 1, ..st2 };
                            assert(self.lines@ =~= scrolled(t, lb, w, st3, offset as int, false).lines);
                        }
                    }
                }
                true
            },
            _ => false,
        }
    }

    /// Moves the cursor to the next line, at about the same column; whether
    /// it moved (the view does not scroll down).
    pub fn cursor_down(&mut self) -> (moved: bool)
        requires
            old(self).wf(),
            old(self).view_height() >= 1,
        ensures
            final(self).wf(),
            final(self).state() == cursor_down_spec(old(self).edited(), old(self).line_break@,
                old(self).view_width(), old(self).view_height(), old(self).state()).0,
            moved == cursor_down_spec(old(self).edited(), old(self).line_break@, old(self).view_width(),
                old(self).view_height(), old(self).state()).1,
            final(self).text == old(self).text,
            final(self).line_break == old(self).line_break,
            final(self).size == old(self).size,
    {
        self.prepare_down();
        self.step_down()
    }

    fn prepare_down(&mut self)
        requires
            old(self).wf(),
            old(self).view_height() >= 1,
        ensures
            final(self).wf(),
            final(self).state() == down_prepared(old(self).edited(), old(self).line_break@,
                old(self).view_width(), old(self).view_height(), old(self).state()),
            final(self).cursor_line is Some,
            final(self).text == old(self).text,
            final(self).line_break == old(self).line_break,
            final(self).size == old(self).size,
    {
        self.ensure_cursor_line();
        let line = self.lines[self.cursor_line.unwrap()];
        if !(line.view_start <= self.cursor && self.cursor < line.view_end) {
            self.reposition(line);
        }
    }

    #[verifier::spinoff_prover]
    fn step_down(&mut self) -> (moved: bool)
        requires
            old(self).wf(),
            old(self).cursor_line is Some,
        ensures
            final(self).wf(),
            final(self).state() == down_step(old(self).edited(), old(self).line_break@, old(self).state()).0,
            moved == down_step(old(self).edited(), old(self).line_break@, old(self).state()).1,
            final(self).text == old(self).text,
            final(self).line_break == old(self).line_break,
            final(self).size == old(self).size,
    {
        let ghost t = self.edited();
        let ghost lb = self.line_break@;
        let i = self.cursor_line.unwrap();
        if i == self.lines.len() - 1 || self.lines[i + 1].range_start >= self.lines[i + 1].range_end {
            return self.scroll_down();
        }
        let n = self.actual_len();
        let line = self.lines[i];
        let target = chars_cols(&self.text, n, line.range_start, self.cursor);
        let next = self.lines[i + 1];
        proof {
            assert(line_ok(t, lb, self.lines@[i as int]));
            assert(line_ok(t, lb, self.lines@[i + 1]));
            assert(next.range_start == line.range_end);
            assert(!inside_break(t, lb, next.range_start as int));
            assert(no_break_in(t, lb, next.range_start as int, next.range_start as int));
            lemma_down_walk_holds(t, lb, next, next.range_start as int, 0, target as int);
            lemma_down_walk_not_inside(t, lb, next, next.range_start as int, 0, target as int);
            if !ends_with(t.subrange(line.range_start as int, line.range_end as int), lb) {
                lemma_not_ending_is_last(t, lb, line);
            }
        }
        let pos = walk_down(&self.text, n, &self.line_break, next.range_start, next.range_end, target);
        self.cursor = pos;
        self.cursor_line = Some(i + 1);
        true
    }

    /// Inserts `s` at the cursor (which stays before it), growing the
    /// cursor's line and moving the lines after it.  `s` makes no line break,
    /// in it or across its ends.
    pub fn insert(&mut self, s: &str)
        requires
            old(self).wf(),
            old(self).view_height() >= 1,
            utf8_len_of(old(self).text@) + utf8_len_of(s@) <= u32::MAX,
            insert_keeps_breaks(old(self).text@, old(self).line_break@, old(self).cursor as int, s@),
        ensures
            final(self).wf(),
            final(self).edited() == final(self).text@,
            final(self).text@ == inserted(old(self).text@, old(self).cursor as int, s@),
            final(self).state() == insert_step(final(self).text@, old(self).line_break@, old(self).view_width(),
                right_prepared(old(self).edited(), old(self).line_break@, old(self).view_width(),
                    old(self).view_height(), old(self).state()), s@.len() as int),
            final(self).line_break == old(self).line_break,
            final(self).size == old(self).size,
    {
        let sc = str_chars(s);
        self.insert_vec(&sc);
    }

    fn insert_vec(&mut self, sc: &Vec<char>)
        requires
            old(self).wf(),
            old(self).view_height() >= 1,
            utf8_len_of(old(self).text@) + utf8_len_of(sc@) <= u32::MAX,
            insert_keeps_breaks(old(self).text@, old(self).line_break@, old(self).cursor as int, sc@),
        ensures
            final(self).wf(),
            final(self).edited() == final(self).text@,
            final(self).text@ == inserted(old(self).text@, old(self).cursor as int, sc@),
            final(self).state() == insert_step(final(self).text@, old(self).line_break@, old(self).view_width(),
                right_prepared(old(self).edited(), old(self).line_break@, old(self).view_width(),
                    old(self).view_height(), old(self).state()), sc@.len() as int),
            final(self).line_break == old(self).line_break,
            final(self).size == old(self).size,
    {
        proof {
            lemma_utf8_size_bounds(sc@);
            lemma_actual_text(old(self).text@);
            assert(old(self).text@ == old(self).edited());
        }
        self.prepare_right();
        self.insert_at_cursor(sc);
    }

    #[verifier::spinoff_prover]
    fn insert_at_cursor(&mut self, sc: &Vec<char>)
        requires
            old(self).wf(),
            old(self).cursor_line is Some,
            old(self).lines@[old(self).cursor_line->0 as int].view_start <= old(self).cursor,
            utf8_len_of(old(self).text@) + utf8_len_of(sc@) <= u32::MAX,
            insert_keeps_breaks(old(self).text@, old(self).line_break@, old(self).cursor as int, sc@),
        ensures
            final(self).wf(),
            final(self).edited() == final(self).text@,
            final(self).text@ == inserted(old(self).text@, old(self).cursor as int, sc@),
            final(self).state() == insert_step(final(self).text@, old(self).line_break@, old(self).view_width(),
                old(self).state(), sc@.len() as int),
            final(self).line_break == old(self).line_break,
            final(self).size == old(self).size,
    {
        let ghost t = self.edited();
        let ghost lb = self.line_break@;
        let ghost old_lines = self.lines@;
        let ghost h = self.view_height();
        let ghost w = self.view_width();
        let ghost c = self.cursor as int;
        proof {
            lemma_actual_text(self.text@);
            assert(t == self.text@);
            lemma_utf8_size_bounds(t);
            lemma_utf8_size_bounds(sc@);
        }
        let d = sc.len();
        let i = self.cursor_line.unwrap();
        let new_text = with_inserted(&self.text, self.cursor, sc);
        self.text = new_text;
        let ghost t2 = self.text@;
        proof {
            assert(t == t.take(c) + t.skip(c));
            lemma_utf8_size_concat(t.take(c), t.skip(c));
            lemma_utf8_size_concat(t.take(c), sc@);
            lemma_utf8_size_concat(t.take(c) + sc@, t.skip(c));
            lemma_actual_text(t2);
            assert(t2 == self.edited());
            assert(line_ok(t, lb, old_lines[i as int]));
        }
        let mut line = self.lines[i];
        line.range_end = line.range_end + d;
        if self.cursor < line.view_end {
            let n = self.actual_len();
            let limit: u64 = (#[verifier::truncate] (self.size.x as u16)) as u64;
            let (ve, filled) = fill_view(&self.text, n, &self.line_break, line.view_start, line.range_end, limit);
            line.view_end = ve;
            line.filled = filled;
        }
        self.lines.set(i, line);
        let mut k = i + 1;
        while k < self.lines.len()
            invariant
                i < k <= self.lines@.len(),
                self.lines@.len() == old_lines.len(),
                old_lines.len() == h,
                self.text@ == t2,
                self.line_break == old(self).line_break,
                self.size == old(self).size,
                self.cursor == old(self).cursor,
                self.cursor_line == old(self).cursor_line,
                self.column == old(self).column,
                d == sc@.len(),
                lines_ok(t, lb, old_lines, h),
                t.len() + d <= u32::MAX,
                self.lines@[i as int] == line,
                forall|j: int| 0 <= j < i ==> #[trigger] self.lines@[j] == old_lines[j],
                forall|j: int| i < j < k ==> #[trigger] self.lines@[j] == shifted(old_lines[j], d as int),
                forall|j: int| k <= j < old_lines.len() ==> #[trigger] self.lines@[j] == old_lines[j],
            decreases self.lines@.len() - k,
        {
            let l = self.lines[k];
            proof {
                assert(line_ok(t, lb, old_lines[k as int]));
            }
            let moved = Line {
                range_start: l.range_start + d,
                range_end: l.range_end + d,
                view_start: l.view_start + d,
                view_end: l.view_end + d,
                ..l
            };
            self.lines.set(k, moved);
            k = k + 1;
        }
        proof {
            lemma_view_end_bounds(t2, lb, line.view_start as int, line.range_end as int, 0, w);
            lemma_insert_lines_ok(t, lb, c, sc@, old_lines, h, i as int, self.lines@);
            let st2 = old(self).state();
            assert(self.lines@ =~= insert_step(t2, lb, w, st2, d as int).lines);
        }
    }

    /// Scrolling down is not supported: nothing moves.
    pub fn scroll_down(&self) -> (r: bool)
        ensures
            !r,
    {
        false
    }

    /// Moves the view `delta` columns to the left.
    pub fn scroll_left(&mut self, delta: u64)
        requires
            old(self).wf(),
            delta <= old(self).column,
        ensures
            final(self).wf(),
            final(self).column == old(self).column - delta,
            final(self).lines@.len() == old(self).lines@.len(),
            forall|k: int| 0 <= k < old(self).lines@.len() ==> #[trigger] final(self).lines@[k]
                == scroll_left_line(old(self).edited(), old(self).line_break@, old(self).lines@[k], delta as int, old(self).view_width()),
            final(self).text == old(self).text,
            final(self).line_break == old(self).line_break,
            final(self).size == old(self).size,
            final(self).cursor == old(self).cursor,
            final(self).cursor_line == old(self).cursor_line,
    {
        self.column = self.column - delta;
        self.scroll_lines(delta, true);
    }

    /// Moves the view `delta` columns to the right.
    pub fn scroll_right(&mut self, delta: u64)
        requires
            old(self).wf(),
            old(self).column + delta <= u64::MAX,
        ensures
            final(self).wf(),
            final(self).column == old(self).column + delta,
            final(self).lines@.len() == old(self).lines@.len(),
            forall|k: int| 0 <= k < old(self).lines@.len() ==> #[trigger] final(self).lines@[k]
                == scroll_right_line(old(self).edited(), old(self).line_break@, old(self).lines@[k], delta as int, old(self).view_width()),
            final(self).text == old(self).text,
            final(self).line_break == old(self).line_break,
            final(self).size == old(self).size,
            final(self).cursor == old(self).cursor,
            final(self).cursor_line == old(self).cursor_line,
    {
        self.column = self.column + delta;
        self.scroll_lines(delta, false);
    }

    fn scroll_lines(&mut self, delta: u64, left: bool)
        requires
            old(self).wf(),
        ensures
            final(self).wf(),
            final(self).lines@.len() == old(self).lines@.len(),
            forall|k: int| 0 <= k < old(self).lines@.len() ==> #[trigger] final(self).lines@[k]
                == if left {
                    scroll_left_line(old(self).edited(), old(self).line_break@, old(self).lines@[k], delta as int, old(self).view_width())
                } else {
                    scroll_right_line(old(self).edited(), old(self).line_break@, old(self).lines@[k], delta as int, old(self).view_width())
                },
            final(self).text == old(self).text,
            final(self).line_break == old(self).line_break,
            final(self).size == old(self).size,
            final(self).column == old(self).column,
            final(self).cursor == old(self).cursor,
            final(self).cursor_line == old(self).cursor_line,
    {
        let ghost t = self.edited();
        let ghost lb = self.line_break@;
        let ghost w = self.view_width();
        let n = self.actual_len();
        let limit: u64 = (#[verifier::truncate] (self.size.x as u16)) as u64;
        let mut i: usize = 0;
        while i < self.lines.len()
            invariant
                i <= self.lines@.len(),
                self.lines@.len() == old(self).lines@.len(),
                self.text == old(self).text,
                self.line_break == old(self).line_break,
                self.size == old(self).size,
                self.column == old(self).column,
                self.cursor == old(self).cursor,
                self.cursor_line == old(self).cursor_line,
                t == self.edited(),
                t == self.text@.take(n as int),
                n <= self.text@.len(),
                lb == self.line_break@,
                lb.len() >= 1,
                limit as int == w,
                w == old(self).view_width(),
                old(self).wf(),
                forall|k: int| 0 <= k < i ==> #[trigger] self.lines@[k]
                    == if left {
                        scroll_left_line(t, lb, old(self).lines@[k], delta as int, w)
                    } else {
                        scroll_right_line(t, lb, old(self).lines@[k], delta as int, w)
                    },
                forall|k: int| i <= k < self.lines@.len() ==> #[trigger] self.lines@[k] == old(self).lines@[k],
            decreases self.lines@.len() - i,
        {
            let l = self.lines[i];
            assert(line_ok(t, lb, old(self).lines@[i as int]));
            let moved = if left {
                scroll_left_one(&self.text, n, &self.line_break, l, delta, limit)
            } else {
                scroll_right_one(&self.text, n, &self.line_break, l, delta, limit)
            };
            self.lines.set(i, moved);
            i = i + 1;
        }
        proof {
            let o = old(self).lines@;
            let f = self.lines@;
            assert forall|k: int| 0 <= k < f.len() implies line_ok(t, lb, #[trigger] f[k]) by {
                assert(line_ok(t, lb, o[k]));
                lemma_scroll_lines_ok(t, lb, o[k], delta as int, w);
            }
            assert forall|k: int| 0 < k < f.len() implies (#[trigger] f[k]).range_start == f[k - 1].range_end by {
                assert(line_ok(t, lb, o[k]));
                assert(line_ok(t, lb, o[k - 1]));
                lemma_scroll_lines_ok(t, lb, o[k], delta as int, w);
                lemma_scroll_lines_ok(t, lb, o[k - 1], delta as int, w);
                assert(o[k].range_start == o[k - 1].range_end);
            }
            if let Some(j) = self.cursor_line {
                assert(line_ok(t, lb, o[j as int]));
                lemma_scroll_lines_ok(t, lb, o[j as int], delta as int, w);
            }
        }
    }

    /// Goes back to the start of the text: cursor and view at its first char.
    pub fn reset_view(&mut self)
        requires
            old(self).line_break@.len() >= 1,
            !self_overlapping(old(self).line_break@),
            cut_ok(old(self).text@),
        ensures
            final(self).wf(),
            final(self).cursor == 0,
            final(self).column == 0,
            final(self).lines@ == lines_from(old(self).edited(), old(self).line_break@, 0, 0,
                old(self).view_width(), old(self).view_height()),
            final(self).cursor_line == first_holding(old(self).edited(), old(self).line_break@, final(self).lines@, 0, 0),
            final(self).text == old(self).text,
            final(self).line_break == old(self).line_break,
            final(self).size == old(self).size,
    {
        self.cursor = 0;
        self.column = 0;
        self.lines = Vec::new();
        self.cursor_line = None;
        self.recalc_view(None);
    }

    /// Replaces the text, and goes back to its start.
    pub fn set_text(&mut self, text: &str)
        requires
            old(self).line_break@.len() >= 1,
            !self_overlapping(old(self).line_break@),
            cut_ok(text@),
        ensures
            final(self).wf(),
            final(self).text@ == text@,
            final(self).cursor == 0,
            final(self).column == 0,
            final(self).lines@ == lines_from(actual_text(text@), old(self).line_break@, 0, 0,
                old(self).view_width(), old(self).view_height()),
            final(self).cursor_line == first_holding(actual_text(text@), old(self).line_break@, final(self).lines@, 0, 0),
            final(self).line_break == old(self).line_break,
            final(self).size == old(self).size,
    {
        self.text = str_chars(text);
        self.cursor = 0;
        self.lines = Vec::new();
        self.cursor_line = None;
        self.reset_view();
    }

    /// Replaces the line break (which is never empty), and goes back to the
    /// start of the text.
    pub fn set_line_break(&mut self, line_break: &str)
        requires
            line_break@.len() >= 1,
            !self_overlapping(line_break@),
            cut_ok(old(self).text@),
        ensures
            final(self).wf(),
            final(self).line_break@ == line_break@,
            final(self).cursor == 0,
            final(self).column == 0,
            final(self).lines@ == lines_from(old(self).edited(), line_break@, 0, 0,
                old(self).view_width(), old(self).view_height()),
            final(self).cursor_line == first_holding(old(self).edited(), line_break@, final(self).lines@, 0, 0),
            final(self).text == old(self).text,
            final(self).size == old(self).size,
    {
        self.line_break = str_chars(line_break);
        self.cursor = 0;
        self.lines = Vec::new();
        self.cursor_line = None;
        self.reset_view();
    }
}

/// No line break starts in `[a, b)`.
pub open spec fn no_break_in(t: Seq<char>, lb: Seq<char>, a: int, b: int) -> bool {
    forall|q: int| a <= q < b ==> !#[trigger] occurs_at(t, lb, q)
}

/// The view of a line starts at a char of it, not inside its line break.
pub open spec fn aligned(t: Seq<char>, lb: Seq<char>, l: Line) -> bool {
    no_break_in(t, lb, l.range_start as int, l.view_start as int) || l.view_start == l.range_end
}

/// A hidden part of a char cut by the view's left edge is a part of the
/// char just before the view.
pub open spec fn pad_ok(t: Seq<char>, lb: Seq<char>, l: Line) -> bool {
    l.padding != 0 ==> (last_in(t, lb, l.range_start as int, l.view_start as int) matches Some(c)
        && l.padding <= cols(c))
}

pub open spec fn line_ok(t: Seq<char>, lb: Seq<char>, l: Line) -> bool {
    &&& line_bounds(l, t.len() as int)
    &&& l.range_end == line_end_of(t, lb, l.range_start as int)
    &&& aligned(t, lb, l)
    &&& pad_ok(t, lb, l)
}

/// `h` well-formed lines, each starting where the one before ends.
pub open spec fn lines_ok(t: Seq<char>, lb: Seq<char>, lines: Seq<Line>, h: nat) -> bool {
    &&& lines.len() == h
    &&& forall|k: int| 0 <= k < lines.len() ==> line_ok(t, lb, #[trigger] lines[k])
    &&& forall|k: int| 0 < k < lines.len() ==> (#[trigger] lines[k]).range_start == lines[k - 1].range_end
}

/// Where the line that starts at `s` ends: after the first line break from
/// `s` on, or, with none, at the end of the text.
pub proof fn lemma_line_end_first(t: Seq<char>, lb: Seq<char>, s: int)
    requires
        0 <= s <= t.len(),
        lb.len() >= 1,
    ensures
        ({
            let e = line_end_of(t, lb, s);
            ||| (occurs_at(t, lb, e - lb.len()) && s <= e - lb.len() && no_break_in(t, lb, s, e - lb.len()))
            ||| (e == t.len() && no_break_in(t, lb, s, t.len() as int))
        }),
    decreases t.len() - s,
{
    if s + lb.len() > t.len() {
        assert forall|q: int| s <= q < t.len() implies !#[trigger] occurs_at(t, lb, q) by {}
    } else if occurs_at(t, lb, s) {
    } else {
        lemma_line_end_first(t, lb, s + 1);
        let e = line_end_of(t, lb, s);
        assert(e == line_end_of(t, lb, s + 1));
        assert forall|q: int| s <= q < e - lb.len() && q == s implies !#[trigger] occurs_at(t, lb, q) by {}
        assert forall|q: int| s <= q < t.len() && q == s implies !#[trigger] occurs_at(t, lb, q) by {}
    }
}

/// One step of a walk through a line, from a position before its line break.
pub proof fn lemma_scan_step(t: Seq<char>, lb: Seq<char>, rs: int, pos: int, c: Char)
    requires
        0 <= rs <= pos,
        lb.len() >= 1,
        rs <= t.len(),
        pos < line_end_of(t, lb, rs),
        no_break_in(t, lb, rs, pos),
        first_in(t, lb, pos, line_end_of(t, lb, rs)) == Some(c),
    ensures
        pos + char_step(c, lb) <= line_end_of(t, lb, rs),
        last_in(t, lb, rs, pos + char_step(c, lb)) == Some(c),
        c is Char ==> no_break_in(t, lb, rs, pos + 1),
        c is LineBreak ==> pos + lb.len() == line_end_of(t, lb, rs),
{
    let e = line_end_of(t, lb, rs);
    lemma_line_end_bounds(t, lb, rs);
    lemma_line_end_first(t, lb, rs);
    let sub = t.subrange(pos, e);
    match c {
        Char::LineBreak => {
            assert(sub.subrange(0, lb.len() as int) =~= t.subrange(pos, pos + lb.len()));
            assert(occurs_at(t, lb, pos));
            let w = t.subrange(rs, pos + lb.len());
            assert(w.subrange(w.len() - lb.len(), w.len() as int) =~= t.subrange(pos, pos + lb.len()));
            if pos + lb.len() != e {
                assert(!no_break_in(t, lb, rs, t.len() as int));
                assert(occurs_at(t, lb, e - lb.len()));
                assert(pos >= e - lb.len());
            }
        },
        Char::Char(x) => {
            assert(x == t[pos]);
            if occurs_at(t, lb, pos) {
                if pos + lb.len() <= e {
                    assert(sub.subrange(0, lb.len() as int) =~= t.subrange(pos, pos + lb.len()));
                } else {
                    assert(!no_break_in(t, lb, rs, t.len() as int));
                    assert(occurs_at(t, lb, e - lb.len()));
                }
            }
            let w = t.subrange(rs, pos + 1);
            if ends_with(w, lb) {
                let q = pos + 1 - lb.len();
                assert(w.subrange(w.len() - lb.len(), w.len() as int) =~= t.subrange(q, q + lb.len()));
                assert(occurs_at(t, lb, q));
            }
            assert forall|q: int| rs <= q < pos + 1 implies !#[trigger] occurs_at(t, lb, q) by {
                if q < pos {
                }
            }
        },
    }
}

/// Where the view starts is at a char of the line, and a hidden part is a
/// part of the char just before it.
pub proof fn lemma_view_start_ok(t: Seq<char>, lb: Seq<char>, rs: int, pos: int, width: int, column: int)
    requires
        0 <= rs <= pos <= line_end_of(t, lb, rs),
        rs <= t.len(),
        lb.len() >= 1,
        no_break_in(t, lb, rs, pos) || pos == line_end_of(t, lb, rs),
        0 <= width <= column,
    ensures
        ({
            let r = view_start_of(t, lb, pos, line_end_of(t, lb, rs), width, column);
            &&& pos <= r.0 <= line_end_of(t, lb, rs)
            &&& 0 <= r.1
            &&& (no_break_in(t, lb, rs, r.0) || r.0 == line_end_of(t, lb, rs))
            &&& (r.1 != 0 ==> (last_in(t, lb, rs, r.0) matches Some(c) && r.1 < cols(c)))
        }),
    decreases line_end_of(t, lb, rs) - pos,
{
    let e = line_end_of(t, lb, rs);
    lemma_line_end_bounds(t, lb, rs);
    if width == column || pos >= e {
    } else {
        match first_in(t, lb, pos, e) {
            None => {},
            Some(c) => {
                lemma_scan_step(t, lb, rs, pos, c);
                if width + cols(c) > column {
                } else {
                    lemma_view_start_ok(t, lb, rs, pos + char_step(c, lb), width + cols(c), column);
                }
            },
        }
    }
}

pub proof fn lemma_view_end_bounds(t: Seq<char>, lb: Seq<char>, pos: int, end: int, width: int, limit: int)
    requires
        0 <= pos <= end <= t.len(),
        lb.len() >= 1,
    ensures
        pos <= view_end_of(t, lb, pos, end, width, limit).0 <= end,
    decreases end - pos,
{
    if width == limit || pos >= end {
    } else {
        match first_in(t, lb, pos, end) {
            None => {},
            Some(c) => {
                if width + cols(c) > limit {
                } else {
                    assert(pos + char_step(c, lb) <= end);
                    lemma_view_end_bounds(t, lb, pos + char_step(c, lb), end, width + cols(c), limit);
                }
            },
        }
    }
}

/// A line as laid out is well formed.
pub proof fn lemma_line_of_ok(t: Seq<char>, lb: Seq<char>, s: int, column: int, limit: int)
    requires
        0 <= s <= t.len(),
        t.len() <= usize::MAX,
        lb.len() >= 1,
        0 <= column,
    ensures
        line_ok(t, lb, line_of(t, lb, s, column, limit)),
        line_of(t, lb, s, column, limit).range_start == s,
{
    let e = line_end_of(t, lb, s);
    lemma_line_end_bounds(t, lb, s);
    assert(no_break_in(t, lb, s, s));
    lemma_view_start_ok(t, lb, s, s, 0, column);
    let vs = view_start_of(t, lb, s, e, 0, column);
    lemma_view_end_bounds(t, lb, vs.0, e, 0, limit);
    let l = line_of(t, lb, s, column, limit);
    if l.padding != 0 {
        assert(vs.1 != 0);
        if vs.1 <= u16::MAX {
            assert(vs.1 as u16 == vs.1);
        }
    }
}

/// Lines laid out one after another are well formed.
pub proof fn lemma_lines_from_ok(t: Seq<char>, lb: Seq<char>, s: int, column: int, limit: int, k: nat)
    requires
        0 <= s <= t.len(),
        t.len() <= usize::MAX,
        lb.len() >= 1,
        0 <= column,
    ensures
        lines_ok(t, lb, lines_from(t, lb, s, column, limit, k), k),
        k > 0 ==> lines_from(t, lb, s, column, limit, k)[0].range_start == s,
    decreases k,
{
    if k > 0 {
        let l = line_of(t, lb, s, column, limit);
        lemma_line_of_ok(t, lb, s, column, limit);
        lemma_line_end_bounds(t, lb, s);
        let rest = lines_from(t, lb, l.range_end as int, column, limit, (k - 1) as nat);
        lemma_lines_from_ok(t, lb, l.range_end as int, column, limit, (k - 1) as nat);
        let all = lines_from(t, lb, s, column, limit, k);
        assert(all == seq![l] + rest);
        assert forall|j: int| 0 <= j < all.len() implies line_ok(t, lb, #[trigger] all[j]) by {
            if j > 0 {
                assert(all[j] == rest[j - 1]);
            }
        }
        assert forall|j: int| 0 < j < all.len() implies (#[trigger] all[j]).range_start == all[j - 1].range_end by {
            assert(all[j] == rest[j - 1]);
            if j > 1 {
                assert(all[j - 1] == rest[j - 2]);
            }
        }
    }
}

/// Walking back from `pos` towards `rs` by `delta` columns: where the view
/// starts, and the hidden columns of the char cut by its edge.
pub open spec fn back_walk(t: Seq<char>, lb: Seq<char>, rs: int, pos: int, delta: int) -> (int, int)
    decreases pos - rs,
{
    if lb.len() == 0 || rs < 0 || pos > t.len() || pos <= rs {
        (pos, 0)
    } else {
        match last_in(t, lb, rs, pos) {
            None => (pos, 0),
            Some(c) => if cols(c) > delta {
                (pos, delta)
            } else {
                back_walk(t, lb, rs, pos - char_step(c, lb), delta - cols(c))
            },
        }
    }
}

/// Walking on from `pos` towards `end` by `delta` columns: where the view
/// starts, and the hidden columns of the char cut by its edge.
pub open spec fn fwd_walk(t: Seq<char>, lb: Seq<char>, pos: int, end: int, delta: int) -> (int, int)
    decreases end - pos,
{
    if lb.len() == 0 || pos < 0 || end > t.len() || pos >= end {
        (pos, 0)
    } else {
        match first_in(t, lb, pos, end) {
            None => (pos, 0),
            Some(c) => if cols(c) >= delta {
                (pos + char_step(c, lb), cols(c) - delta)
            } else {
                fwd_walk(t, lb, pos + char_step(c, lb), end, delta - cols(c))
            },
        }
    }
}

/// A line with its view moved to start at `vs` with `padding` hidden columns.
pub open spec fn with_view(t: Seq<char>, lb: Seq<char>, l: Line, vs: int, padding: int, limit: int) -> Line {
    let ve = view_end_of(t, lb, vs, l.range_end as int, 0, limit);
    Line {
        view_start: vs as usize,
        view_end: ve.0 as usize,
        filled: ve.1,
        padding: padding as u16,
        ..l
    }
}

/// A line with its view moved `delta` columns to the left.
pub open spec fn scroll_left_line(t: Seq<char>, lb: Seq<char>, l: Line, delta: int, limit: int) -> Line {
    let rs = l.range_start as int;
    let vs = l.view_start as int;
    let p = l.padding as int;
    let first = if p != 0 {
        match last_in(t, lb, rs, vs) {
            Some(c) => {
                let pd = if delta < cols(c) - p { delta } else { cols(c) - p };
                if p + pd == cols(c) {
                    (0int, vs - char_step(c, lb), delta - pd)
                } else {
                    (p + pd, vs, delta - pd)
                }
            },
            None => (p, vs, delta),
        }
    } else {
        (0int, vs, delta)
    };
    let moved = if first.2 != 0 { back_walk(t, lb, rs, first.1, first.2) } else { (first.1, first.0) };
    with_view(t, lb, l, moved.0, moved.1, limit)
}

/// A line with its view moved `delta` columns to the right.
pub open spec fn scroll_right_line(t: Seq<char>, lb: Seq<char>, l: Line, delta: int, limit: int) -> Line {
    let p = l.padding as int;
    let pd = if delta < p { delta } else { p };
    let d = delta - pd;
    let moved = if d != 0 {
        fwd_walk(t, lb, l.view_start as int, l.range_end as int, d)
    } else {
        (l.view_start as int, p - pd)
    };
    with_view(t, lb, l, moved.0, moved.1, limit)
}

/// Walking back stays in the line, at a char of it, and a hidden part is a
/// part of the char just before the view.
pub proof fn lemma_back_walk_ok(t: Seq<char>, lb: Seq<char>, rs: int, pos: int, delta: int)
    requires
        0 <= rs <= pos <= line_end_of(t, lb, rs),
        rs <= t.len(),
        lb.len() >= 1,
        no_break_in(t, lb, rs, pos) || pos == line_end_of(t, lb, rs),
        0 <= delta,
    ensures
        ({
            let r = back_walk(t, lb, rs, pos, delta);
            &&& rs <= r.0 <= pos
            &&& 0 <= r.1
            &&& (no_break_in(t, lb, rs, r.0) || r.0 == line_end_of(t, lb, rs))
            &&& (r.1 != 0 ==> (last_in(t, lb, rs, r.0) matches Some(c) && r.1 < cols(c)))
        }),
    decreases pos - rs,
{
    lemma_line_end_bounds(t, lb, rs);
    if pos > rs {
        match last_in(t, lb, rs, pos) {
            None => {},
            Some(c) => {
                if cols(c) > delta {
                } else {
                    lemma_step_back_aligned(t, lb, rs, pos, c);
                    lemma_back_walk_ok(t, lb, rs, pos - char_step(c, lb), delta - cols(c));
                }
            },
        }
    }
}

/// A step back from a char of a line lands on a char of it.
pub proof fn lemma_step_back_aligned(t: Seq<char>, lb: Seq<char>, rs: int, pos: int, c: Char)
    requires
        0 <= rs < pos <= line_end_of(t, lb, rs),
        rs <= t.len(),
        lb.len() >= 1,
        no_break_in(t, lb, rs, pos) || pos == line_end_of(t, lb, rs),
        last_in(t, lb, rs, pos) == Some(c),
    ensures
        rs <= pos - char_step(c, lb),
        no_break_in(t, lb, rs, pos - char_step(c, lb)),
{
    let e = line_end_of(t, lb, rs);
    lemma_line_end_bounds(t, lb, rs);
    lemma_line_end_first(t, lb, rs);
    let w = t.subrange(rs, pos);
    match c {
        Char::LineBreak => {
            let q = pos - lb.len();
            assert(w.subrange(w.len() - lb.len(), w.len() as int) =~= t.subrange(q, q + lb.len()));
            assert(occurs_at(t, lb, q));
            if no_break_in(t, lb, rs, pos) {
                assert(!occurs_at(t, lb, q));
            }
            assert(pos == e);
            if no_break_in(t, lb, rs, t.len() as int) {
                assert(!occurs_at(t, lb, q));
            }
        },
        Char::Char(_) => {
            if !no_break_in(t, lb, rs, pos) {
                assert(pos == e);
                if occurs_at(t, lb, e - lb.len()) && rs <= e - lb.len() {
                    assert(w.subrange(w.len() - lb.len(), w.len() as int) =~= t.subrange(e - lb.len(), e));
                    assert(ends_with(w, lb));
                }
            }
        },
    }
}

/// Walking on stays in the line, at a char of it, and a hidden part is a
/// part of the char just before the view.
pub proof fn lemma_fwd_walk_ok(t: Seq<char>, lb: Seq<char>, rs: int, pos: int, delta: int)
    requires
        0 <= rs <= pos <= line_end_of(t, lb, rs),
        rs <= t.len(),
        lb.len() >= 1,
        no_break_in(t, lb, rs, pos) || pos == line_end_of(t, lb, rs),
        0 < delta,
    ensures
        ({
            let r = fwd_walk(t, lb, pos, line_end_of(t, lb, rs), delta);
            &&& pos <= r.0 <= line_end_of(t, lb, rs)
            &&& 0 <= r.1
            &&& (no_break_in(t, lb, rs, r.0) || r.0 == line_end_of(t, lb, rs))
            &&& (r.1 != 0 ==> (last_in(t, lb, rs, r.0) matches Some(c) && r.1 < cols(c)))
        }),
    decreases line_end_of(t, lb, rs) - pos,
{
    let e = line_end_of(t, lb, rs);
    lemma_line_end_bounds(t, lb, rs);
    if pos < e {
        match first_in(t, lb, pos, e) {
            None => {},
            Some(c) => {
                lemma_scan_step(t, lb, rs, pos, c);
                if cols(c) >= delta {
                } else {
                    lemma_fwd_walk_ok(t, lb, rs, pos + char_step(c, lb), delta - cols(c));
                }
            },
        }
    }
}

/// A line with its view moved keeps well formed.
pub proof fn lemma_with_view_ok(t: Seq<char>, lb: Seq<char>, l: Line, vs: int, padding: int, limit: int)
    requires
        line_ok(t, lb, l),
        lb.len() >= 1,
        l.range_start <= vs <= l.range_end,
        0 <= padding,
        no_break_in(t, lb, l.range_start as int, vs) || vs == l.range_end,
        padding != 0 ==> (last_in(t, lb, l.range_start as int, vs) matches Some(c) && padding <= cols(c)),
    ensures
        line_ok(t, lb, with_view(t, lb, l, vs, padding, limit)),
        with_view(t, lb, l, vs, padding, limit).range_start == l.range_start,
        with_view(t, lb, l, vs, padding, limit).range_end == l.range_end,
{
    lemma_view_end_bounds(t, lb, vs, l.range_end as int, 0, limit);
    let r = with_view(t, lb, l, vs, padding, limit);
    if r.padding != 0 {
        if padding <= u16::MAX {
            assert(padding as u16 == padding);
        }
    }
}

/// Scrolling a well-formed line keeps it well formed.
pub proof fn lemma_scroll_lines_ok(t: Seq<char>, lb: Seq<char>, l: Line, delta: int, limit: int)
    requires
        line_ok(t, lb, l),
        lb.len() >= 1,
        0 <= delta,
    ensures
        line_ok(t, lb, scroll_left_line(t, lb, l, delta, limit)),
        scroll_left_line(t, lb, l, delta, limit).range_start == l.range_start,
        scroll_left_line(t, lb, l, delta, limit).range_end == l.range_end,
        line_ok(t, lb, scroll_right_line(t, lb, l, delta, limit)),
        scroll_right_line(t, lb, l, delta, limit).range_start == l.range_start,
        scroll_right_line(t, lb, l, delta, limit).range_end == l.range_end,
{
    let rs = l.range_start as int;
    let vs = l.view_start as int;
    let p = l.padding as int;
    lemma_line_end_bounds(t, lb, rs);
    // to the left
    let first = if p != 0 {
        match last_in(t, lb, rs, vs) {
            Some(c) => {
                let pd = if delta < cols(c) - p { delta } else { cols(c) - p };
                if p + pd == cols(c) {
                    (0int, vs - char_step(c, lb), delta - pd)
                } else {
                    (p + pd, vs, delta - pd)
                }
            },
            None => (p, vs, delta),
        }
    } else {
        (0int, vs, delta)
    };
    if p != 0 {
        let c = last_in(t, lb, rs, vs)->0;
        let pd = if delta < cols(c) - p { delta } else { cols(c) - p };
        if p + pd == cols(c) {
            lemma_step_back_aligned(t, lb, rs, vs, c);
        }
    }
    if first.2 != 0 {
        lemma_back_walk_ok(t, lb, rs, first.1, first.2);
        let m = back_walk(t, lb, rs, first.1, first.2);
        lemma_with_view_ok(t, lb, l, m.0, m.1, limit);
    } else {
        lemma_with_view_ok(t, lb, l, first.1, first.0, limit);
    }
    // to the right
    let pd = if delta < p { delta } else { p };
    let d = delta - pd;
    if d != 0 {
        lemma_fwd_walk_ok(t, lb, rs, vs, d);
        let m = fwd_walk(t, lb, vs, l.range_end as int, d);
        lemma_with_view_ok(t, lb, l, m.0, m.1, limit);
    } else {
        lemma_with_view_ok(t, lb, l, vs, p - pd, limit);
    }
}

/// What changes of an editor as its cursor moves.
pub struct EditState {
    pub lines: Seq<Line>,
    pub column: int,
    pub cursor: int,
    pub cursor_line: Option<usize>,
}

/// The state after the lines in view are laid out anew from `start` (or
/// from the first line in view).
pub open spec fn recalc_state(t: Seq<char>, lb: Seq<char>, w: int, h: nat, st: EditState, start: Option<int>) -> EditState {
    let s0 = match start {
        Some(s) => s,
        None => if st.lines.len() > 0 { st.lines[0].range_start as int } else { 0 },
    };
    let lines = lines_from(t, lb, s0, st.column, w, h);
    EditState { lines, cursor_line: first_holding(t, lb, lines, st.cursor, 0), ..st }
}

/// Just after the last line break that ends at or before `q + lb.len()`,
/// or 0.
pub open spec fn last_break_end(t: Seq<char>, lb: Seq<char>, q: int) -> int
    decreases q + 1,
{
    if q < 0 {
        0
    } else if occurs_at(t, lb, q) {
        q + lb.len()
    } else {
        last_break_end(t, lb, q - 1)
    }
}

/// Where the line of the cursor starts: after the last line break before it.
pub open spec fn line_start_of(t: Seq<char>, lb: Seq<char>, cursor: int) -> int {
    last_break_end(t, lb, cursor - lb.len())
}

/// The state with a line in view that holds the cursor: the lines laid out
/// anew from the cursor's line, unless one already holds it.
pub open spec fn with_cursor_line(t: Seq<char>, lb: Seq<char>, w: int, h: nat, st: EditState) -> EditState {
    if st.cursor_line is None {
        recalc_state(t, lb, w, h, st, Some(line_start_of(t, lb, st.cursor)))
    } else {
        st
    }
}

/// The columns the chars of `s` take, one by one (a line break's chars too).
pub open spec fn cols_sum(s: Seq<char>) -> int
    decreases s.len(),
{
    if s.len() == 0 {
        0
    } else {
        cols_sum(s.drop_last()) + cols(Char::Char(s.last()))
    }
}

/// The state with the view from the cursor's column on, for the cursor in `line`.
pub open spec fn with_column(t: Seq<char>, lb: Seq<char>, w: int, h: nat, st: EditState, line: Line) -> EditState {
    recalc_state(t, lb, w, h,
        EditState { column: cols_sum(t.subrange(line.range_start as int, st.cursor)), ..st }, None)
}

/// The state with the view moved `delta` columns to the left or right.
pub open spec fn scrolled(t: Seq<char>, lb: Seq<char>, w: int, st: EditState, delta: int, left: bool) -> EditState {
    EditState {
        lines: Seq::new(st.lines.len(), |k: int|
            if left { scroll_left_line(t, lb, st.lines[k], delta, w) } else { scroll_right_line(t, lb, st.lines[k], delta, w) }),
        column: if left { st.column - delta } else { st.column + delta },
        ..st
    }
}

/// Before moving the cursor left: a line in view that holds it, and the
/// view from its column on where it is right of the view.
pub open spec fn left_prepared(t: Seq<char>, lb: Seq<char>, w: int, h: nat, st0: EditState) -> EditState {
    let st1 = with_cursor_line(t, lb, w, h, st0);
    let line = st1.lines[st1.cursor_line->0 as int];
    if st1.cursor > line.view_end || (st1.cursor == line.view_end && line.filled) {
        with_column(t, lb, w, h, st1, line)
    } else {
        st1
    }
}

/// Moving the cursor a char left from a prepared state: the new state,
/// whether it moved, and whether the columns to scroll back are no more
/// than the first column in view.
pub open spec fn left_step(t: Seq<char>, lb: Seq<char>, w: int, st2: EditState) -> (EditState, bool, bool) {
    let line2 = st2.lines[st2.cursor_line->0 as int];
    match last_in(t, lb, line2.range_start as int, st2.cursor) {
        Some(Char::Char(_)) => {
            let st3 = EditState { cursor: st2.cursor - 1, ..st2 };
            if st3.cursor < line2.view_start {
                let offset = cols_sum(t.subrange(st3.cursor, line2.view_start as int));
                (scrolled(t, lb, w, st3, offset, true), true, offset <= st3.column)
            } else {
                (st3, true, true)
            }
        },
        _ => (st2, false, true),
    }
}

/// Moving the cursor a char left: the new state, whether it moved, and
/// whether the columns to scroll back are no more than the first column in
/// view.
pub open spec fn cursor_left_spec(t: Seq<char>, lb: Seq<char>, w: int, h: nat, st0: EditState) -> (EditState, bool, bool) {
    left_step(t, lb, w, left_prepared(t, lb, w, h, st0))
}

/// Before moving the cursor right: a line in view that holds it, and the
/// view from its column on where it is left of the view.
pub open spec fn right_prepared(t: Seq<char>, lb: Seq<char>, w: int, h: nat, st0: EditState) -> EditState {
    let st1 = with_cursor_line(t, lb, w, h, st0);
    let line = st1.lines[st1.cursor_line->0 as int];
    if st1.cursor < line.view_start {
        with_column(t, lb, w, h, st1, line)
    } else {
        st1
    }
}

/// Moving the cursor a char right from a prepared state: the new state,
/// whether it moved, and whether the first column in view stays a `u64`.
pub open spec fn right_step(t: Seq<char>, lb: Seq<char>, w: int, st2: EditState) -> (EditState, bool, bool) {
    let line2 = st2.lines[st2.cursor_line->0 as int];
    match first_in(t, lb, st2.cursor, line2.range_end as int) {
        Some(Char::Char(_)) => {
            let st3 = EditState { cursor: st2.cursor + 1, ..st2 };
            if st3.cursor > line2.view_end || (st3.cursor == line2.view_end && line2.filled) {
                let offset = cols_sum(t.subrange(line2.view_end as int, st3.cursor)) + match first_in(t, lb, st3.cursor, line2.range_end as int) {
                    Some(c) => cols(c),
                    None => 1,
                };
                if offset != 0 {
                    (scrolled(t, lb, w, st3, offset, false), true, st3.column + offset <= u64::MAX)
                } else {
                    (st3, true, true)
                }
            } else {
                (st3, true, true)
            }
        },
        _ => (st2, false, true),
    }
}

/// Moving the cursor a char right: the new state, whether it moved, and
/// whether the first column in view stays a `u64`.
pub open spec fn cursor_right_spec(t: Seq<char>, lb: Seq<char>, w: int, h: nat, st0: EditState) -> (EditState, bool, bool) {
    right_step(t, lb, w, right_prepared(t, lb, w, h, st0))
}

/// Walking through a line's chars from `pos` until `target` columns are
/// passed, or a char would pass them, or a line break comes.
pub open spec fn down_walk(t: Seq<char>, lb: Seq<char>, pos: int, end: int, width: int, target: int) -> int
    decreases end - pos,
{
    if width == target || pos < 0 || end > t.len() || pos >= end {
        pos
    } else {
        match first_in(t, lb, pos, end) {
            Some(Char::Char(c)) => if width + cols(Char::Char(c)) > target {
                pos
            } else {
                down_walk(t, lb, pos + 1, end, width + cols(Char::Char(c)), target)
            },
            _ => pos,
        }
    }
}

/// Before moving the cursor down: a line in view that holds it, and the
/// view from its column on where it is out of the view.
pub open spec fn down_prepared(t: Seq<char>, lb: Seq<char>, w: int, h: nat, st0: EditState) -> EditState {
    let st1 = with_cursor_line(t, lb, w, h, st0);
    let line = st1.lines[st1.cursor_line->0 as int];
    if !(line.view_start <= st1.cursor < line.view_end) {
        with_column(t, lb, w, h, st1, line)
    } else {
        st1
    }
}

/// Moving the cursor a line down from a prepared state: the new state, and
/// whether it moved (not from the last line of the text or of the view).
pub open spec fn down_step(t: Seq<char>, lb: Seq<char>, st2: EditState) -> (EditState, bool) {
    let i = st2.cursor_line->0 as int;
    if i == st2.lines.len() - 1 || st2.lines[i + 1].range_start >= st2.lines[i + 1].range_end {
        (st2, false)
    } else {
        let line2 = st2.lines[i];
        let target = cols_sum(t.subrange(line2.range_start as int, st2.cursor));
        let next = st2.lines[i + 1];
        let nc = down_walk(t, lb, next.range_start as int, next.range_end as int, 0, target);
        (EditState { cursor: nc, cursor_line: Some((i + 1) as usize), ..st2 }, true)
    }
}

/// Moving the cursor a line down, to about the same column: the new state,
/// and whether it moved (not from the last line of the text or of the view).
pub open spec fn cursor_down_spec(t: Seq<char>, lb: Seq<char>, w: int, h: nat, st0: EditState) -> (EditState, bool) {
    down_step(t, lb, down_prepared(t, lb, w, h, st0))
}

/// A line that does not end with a line break is the last of the text.
pub proof fn lemma_not_ending_is_last(t: Seq<char>, lb: Seq<char>, l: Line)
    requires
        line_ok(t, lb, l),
        lb.len() >= 1,
        !ends_with(t.subrange(l.range_start as int, l.range_end as int), lb),
    ensures
        l.range_end == t.len(),
{
    let rs = l.range_start as int;
    let e = l.range_end as int;
    lemma_line_end_first(t, lb, rs);
    if occurs_at(t, lb, e - lb.len()) && rs <= e - lb.len() {
        let sub = t.subrange(rs, e);
        assert(sub.subrange(sub.len() - lb.len(), sub.len() as int) =~= t.subrange(e - lb.len(), e));
    }
}

/// The last line break before the cursor ends at or before it.
pub proof fn lemma_last_break_end(t: Seq<char>, lb: Seq<char>, q: int)
    requires
        lb.len() >= 1,
    ensures
        0 <= last_break_end(t, lb, q),
        q >= 0 ==> last_break_end(t, lb, q) <= q + lb.len(),
        q < 0 ==> last_break_end(t, lb, q) == 0,
        no_break_in(t, lb, last_break_end(t, lb, q), q + 1),
    decreases q + 1,
{
    if q >= 0 && !occurs_at(t, lb, q) {
        lemma_last_break_end(t, lb, q - 1);
        let r = last_break_end(t, lb, q);
        assert forall|x: int| r <= x < q + 1 implies !#[trigger] occurs_at(t, lb, x) by {
            if x < q {
            }
        }
    }
}

/// A line start after a line break is the end of that line break.
pub proof fn lemma_break_start_found(t: Seq<char>, lb: Seq<char>, q: int)
    requires
        lb.len() >= 1,
        last_break_end(t, lb, q) > 0,
    ensures
        occurs_at(t, lb, last_break_end(t, lb, q) - lb.len()),
    decreases q + 1,
{
    if q >= 0 && !occurs_at(t, lb, q) {
        lemma_break_start_found(t, lb, q - 1);
    }
}

/// The line laid out from the cursor's line start holds the cursor.
pub proof fn lemma_line_start_holds(t: Seq<char>, lb: Seq<char>, cursor: int, column: int, w: int)
    requires
        0 <= cursor <= t.len(),
        t.len() <= usize::MAX,
        lb.len() >= 1,
    ensures
        0 <= line_start_of(t, lb, cursor) <= cursor,
        holds_cursor(t, lb, line_of(t, lb, line_start_of(t, lb, cursor), column, w), cursor),
{
    let ls = line_start_of(t, lb, cursor);
    lemma_last_break_end(t, lb, cursor - lb.len());
    lemma_line_end_first(t, lb, ls);
    lemma_line_end_bounds(t, lb, ls);
    let e = line_end_of(t, lb, ls);
    let l = line_of(t, lb, ls, column, w);
    assert(l.range_start == ls && l.range_end == e);
    if occurs_at(t, lb, e - lb.len()) && ls <= e - lb.len() && no_break_in(t, lb, ls, e - lb.len()) {
        if e <= cursor {
            assert(!occurs_at(t, lb, e - lb.len()));
        }
        assert(e > cursor);
    } else {
        if cursor == t.len() {
            let sub = t.subrange(ls, e);
            if ends_with(sub, lb) {
                assert(sub.subrange(sub.len() - lb.len(), sub.len() as int) =~= t.subrange(e - lb.len(), e));
                assert(occurs_at(t, lb, e - lb.len()));
            }
        }
    }
}

/// Well-formed lines have the ranges of the lines laid out anew from the
/// first of them, whatever the column.
pub proof fn lemma_ranges_match(t: Seq<char>, lb: Seq<char>, lines: Seq<Line>, h: nat, j: int, column: int, w: int)
    requires
        lines_ok(t, lb, lines, h),
        0 <= j < h,
    ensures
        forall|k: int| 0 <= k < h - j ==> {
            &&& (#[trigger] lines_from(t, lb, lines[j].range_start as int, column, w, (h - j) as nat)[k]).range_start == lines[j + k].range_start
            &&& lines_from(t, lb, lines[j].range_start as int, column, w, (h - j) as nat)[k].range_end == lines[j + k].range_end
        },
        lines_from(t, lb, lines[j].range_start as int, column, w, (h - j) as nat).len() == h - j,
    decreases h - j,
{
    let s = lines[j].range_start as int;
    let lf = lines_from(t, lb, s, column, w, (h - j) as nat);
    let l = line_of(t, lb, s, column, w);
    assert(line_ok(t, lb, lines[j]));
    assert(lf == seq![l] + lines_from(t, lb, l.range_end as int, column, w, (h - j - 1) as nat));
    assert(l.range_end == lines[j].range_end);
    if j + 1 < h {
        assert(lines[j + 1].range_start == lines[j].range_end);
        lemma_ranges_match(t, lb, lines, h, j + 1, column, w);
        assert forall|k: int| 0 <= k < h - j implies {
            &&& (#[trigger] lf[k]).range_start == lines[j + k].range_start
            &&& lf[k].range_end == lines[j + k].range_end
        } by {
            if k > 0 {
                assert(lf[k] == lines_from(t, lb, lines[j + 1].range_start as int, column, w, (h - (j + 1)) as nat)[k - 1]);
            }
        }
    } else {
        lemma_lines_from_len(t, lb, l.range_end as int, column, w, 0);
    }
}

pub proof fn lemma_lines_from_len(t: Seq<char>, lb: Seq<char>, s: int, column: int, w: int, k: nat)
    ensures
        lines_from(t, lb, s, column, w, k).len() == k,
    decreases k,
{
    if k > 0 {
        let l = line_of(t, lb, s, column, w);
        lemma_lines_from_len(t, lb, l.range_end as int, column, w, (k - 1) as nat);
    }
}

/// Walking down into a line that is not empty stops at a char of it that a
/// cursor can stand at.
pub proof fn lemma_down_walk_holds(t: Seq<char>, lb: Seq<char>, l: Line, pos: int, width: int, target: int)
    requires
        line_ok(t, lb, l),
        lb.len() >= 1,
        l.range_start <= pos <= l.range_end,
        no_break_in(t, lb, l.range_start as int, pos),
        l.range_start < l.range_end,
    ensures
        holds_cursor(t, lb, l, down_walk(t, lb, pos, l.range_end as int, width, target)),
        down_walk(t, lb, pos, l.range_end as int, width, target) >= l.range_start,
    decreases l.range_end - pos,
{
    let rs = l.range_start as int;
    let e = l.range_end as int;
    lemma_line_end_bounds(t, lb, rs);
    let r = down_walk(t, lb, pos, e, width, target);
    if width == target || pos >= e {
        if pos == e {
            lemma_not_ends_with(t, lb, rs, e);
        }
    } else {
        match first_in(t, lb, pos, e) {
            Some(Char::Char(c)) => {
                lemma_scan_step(t, lb, rs, pos, Char::Char(c));
                if width + cols(Char::Char(c)) > target {
                } else {
                    lemma_down_walk_holds(t, lb, l, pos + 1, width + cols(Char::Char(c)), target);
                }
            },
            _ => {},
        }
    }
}

/// A line with no line break in it does not end with one.
pub proof fn lemma_not_ends_with(t: Seq<char>, lb: Seq<char>, rs: int, e: int)
    requires
        0 <= rs <= e <= t.len(),
        lb.len() >= 1,
        no_break_in(t, lb, rs, e),
    ensures
        !ends_with(t.subrange(rs, e), lb),
{
    let sub = t.subrange(rs, e);
    if ends_with(sub, lb) {
        assert(sub.subrange(sub.len() - lb.len(), sub.len() as int) =~= t.subrange(e - lb.len(), e));
        assert(occurs_at(t, lb, e - lb.len()));
    }
}

/// `p` is strictly inside a line break of `t`.
pub open spec fn inside_break(t: Seq<char>, lb: Seq<char>, p: int) -> bool {
    exists|q: int| #[trigger] occurs_at(t, lb, q) && q < p < q + lb.len()
}

/// A proper suffix of `lb` is also a prefix of it, so that two of its
/// occurrences can overlap (as in `"aa"`).
pub open spec fn self_overlapping(lb: Seq<char>) -> bool {
    exists|k: int| 0 < k < lb.len() && #[trigger] lb.subrange(k, lb.len() as int) == lb.subrange(0, lb.len() - k)
}

/// Two occurrences of a line break that cannot overlap itself do not overlap.
pub proof fn lemma_no_overlap(t: Seq<char>, lb: Seq<char>, q1: int, q2: int)
    requires
        !self_overlapping(lb),
    ensures
        !(occurs_at(t, lb, q1) && occurs_at(t, lb, q2) && q1 < q2 < q1 + lb.len()),
{
    if occurs_at(t, lb, q1) && occurs_at(t, lb, q2) && q1 < q2 < q1 + lb.len() {
        let k = q2 - q1;
        let a = lb.subrange(k, lb.len() as int);
        let b = lb.subrange(0, lb.len() - k);
        assert forall|i: int| 0 <= i < a.len() implies a[i] == b[i] by {
            assert(t.subrange(q1, q1 + lb.len())[k + i] == lb[k + i]);
            assert(t.subrange(q2, q2 + lb.len())[i] == lb[i]);
        }
        assert(a =~= b);
    }
}

/// The end of a line is not inside a line break.
pub proof fn lemma_line_end_not_inside(t: Seq<char>, lb: Seq<char>, s: int)
    requires
        0 <= s <= t.len(),
        lb.len() >= 1,
        !self_overlapping(lb),
    ensures
        !inside_break(t, lb, line_end_of(t, lb, s)),
{
    let e = line_end_of(t, lb, s);
    lemma_line_end_first(t, lb, s);
    lemma_line_end_bounds(t, lb, s);
    if inside_break(t, lb, e) {
        let q = choose|q: int| #[trigger] occurs_at(t, lb, q) && q < e < q + lb.len();
        if occurs_at(t, lb, e - lb.len()) && s <= e - lb.len() {
            if q != e - lb.len() {
                if q < e - lb.len() {
                    lemma_no_overlap(t, lb, q, e - lb.len());
                } else {
                    lemma_no_overlap(t, lb, e - lb.len(), q);
                }
            }
        }
    }
}

/// Lines laid out from a start outside the line breaks all start outside them.
pub proof fn lemma_lines_from_starts(t: Seq<char>, lb: Seq<char>, s: int, column: int, w: int, k: nat)
    requires
        0 <= s <= t.len(),
        t.len() <= usize::MAX,
        lb.len() >= 1,
        !self_overlapping(lb),
        !inside_break(t, lb, s),
    ensures
        forall|j: int| 0 <= j < k ==> !inside_break(t, lb, (#[trigger] lines_from(t, lb, s, column, w, k)[j]).range_start as int),
    decreases k,
{
    if k > 0 {
        let l = line_of(t, lb, s, column, w);
        lemma_line_end_bounds(t, lb, s);
        lemma_line_end_not_inside(t, lb, s);
        lemma_lines_from_starts(t, lb, l.range_end as int, column, w, (k - 1) as nat);
        lemma_lines_from_len(t, lb, l.range_end as int, column, w, (k - 1) as nat);
        lemma_lines_from_len(t, lb, s, column, w, k);
        let all = lines_from(t, lb, s, column, w, k);
        let rest = lines_from(t, lb, l.range_end as int, column, w, (k - 1) as nat);
        assert(all == seq![l] + rest);
        assert forall|j: int| 0 <= j < k implies !inside_break(t, lb, (#[trigger] all[j]).range_start as int) by {
            if j > 0 {
                assert(all[j] == rest[j - 1]);
            }
        }
    }
}

/// A cursor outside the line breaks, in a line that holds it, has no line
/// break between the line's start and it.
pub proof fn lemma_cursor_aligned(t: Seq<char>, lb: Seq<char>, l: Line, cursor: int)
    requires
        line_ok(t, lb, l),
        lb.len() >= 1,
        !self_overlapping(lb),
        holds_cursor(t, lb, l, cursor),
        !inside_break(t, lb, cursor),
    ensures
        no_break_in(t, lb, l.range_start as int, cursor),
{
    let rs = l.range_start as int;
    let e = l.range_end as int;
    lemma_line_end_first(t, lb, rs);
    lemma_line_end_bounds(t, lb, rs);
    assert forall|q: int| rs <= q < cursor implies !#[trigger] occurs_at(t, lb, q) by {
        if occurs_at(t, lb, q) {
            let p = e - lb.len();
            if occurs_at(t, lb, p) && rs <= p && no_break_in(t, lb, rs, p) {
                assert(q >= p);
                if q > p {
                    lemma_no_overlap(t, lb, p, q);
                }
                if cursor < e {
                    assert(occurs_at(t, lb, p) && p < cursor < p + lb.len());
                } else {
                    let sub = t.subrange(rs, e);
                    assert(sub.subrange(sub.len() - lb.len(), sub.len() as int) =~= t.subrange(p, e));
                }
            }
        }
    }
}

/// The end of a line break is not inside another one.
pub proof fn lemma_break_end_not_inside(t: Seq<char>, lb: Seq<char>, q: int)
    requires
        occurs_at(t, lb, q),
        !self_overlapping(lb),
    ensures
        !inside_break(t, lb, q + lb.len()),
{
    if inside_break(t, lb, q + lb.len()) {
        let q2 = choose|q2: int| #[trigger] occurs_at(t, lb, q2) && q2 < q + lb.len() < q2 + lb.len();
        lemma_no_overlap(t, lb, q, q2);
    }
}

/// A step over a char of a line keeps the cursor outside the line breaks.
pub proof fn lemma_char_step_not_inside(t: Seq<char>, lb: Seq<char>, rs: int, pos: int)
    requires
        rs <= pos,
        no_break_in(t, lb, rs, pos + 1),
        !inside_break(t, lb, pos),
    ensures
        !inside_break(t, lb, pos + 1),
{
    if inside_break(t, lb, pos + 1) {
        let q = choose|q: int| #[trigger] occurs_at(t, lb, q) && q < pos + 1 < q + lb.len();
        if q == pos {
            assert(!occurs_at(t, lb, pos));
        } else {
            assert(occurs_at(t, lb, q) && q < pos < q + lb.len());
        }
    }
}

/// A step back over a char of a line keeps the cursor outside the line breaks.
pub proof fn lemma_step_back_not_inside(t: Seq<char>, lb: Seq<char>, rs: int, cursor: int)
    requires
        0 <= rs < cursor <= t.len(),
        !inside_break(t, lb, rs),
        !inside_break(t, lb, cursor),
        last_in(t, lb, rs, cursor) matches Some(Char::Char(_)),
    ensures
        !inside_break(t, lb, cursor - 1),
{
    if inside_break(t, lb, cursor - 1) {
        let q = choose|q: int| #[trigger] occurs_at(t, lb, q) && q < cursor - 1 < q + lb.len();
        if q + lb.len() > cursor {
            assert(occurs_at(t, lb, q) && q < cursor < q + lb.len());
        } else if q >= rs {
            let w = t.subrange(rs, cursor);
            assert(w.subrange(w.len() - lb.len(), w.len() as int) =~= t.subrange(q, q + lb.len()));
        } else {
            assert(occurs_at(t, lb, q) && q < rs < q + lb.len());
        }
    }
}

/// Walking down into a line keeps the cursor outside the line breaks.
pub proof fn lemma_down_walk_not_inside(t: Seq<char>, lb: Seq<char>, l: Line, pos: int, width: int, target: int)
    requires
        line_ok(t, lb, l),
        lb.len() >= 1,
        l.range_start <= pos <= l.range_end,
        no_break_in(t, lb, l.range_start as int, pos),
        !inside_break(t, lb, pos),
    ensures
        !inside_break(t, lb, down_walk(t, lb, pos, l.range_end as int, width, target)),
    decreases l.range_end - pos,
{
    let rs = l.range_start as int;
    let e = l.range_end as int;
    lemma_line_end_bounds(t, lb, rs);
    if width == target || pos >= e {
    } else {
        match first_in(t, lb, pos, e) {
            Some(Char::Char(c)) => {
                lemma_scan_step(t, lb, rs, pos, Char::Char(c));
                if width + cols(Char::Char(c)) > target {
                } else {
                    lemma_char_step_not_inside(t, lb, rs, pos);
                    lemma_down_walk_not_inside(t, lb, l, pos + 1, width + cols(Char::Char(c)), target);
                }
            },
            _ => {},
        }
    }
}

/// Where the line of the cursor starts: after the last line break before it.
fn line_start_at(text: &Vec<char>, n: usize, lb: &Vec<char>, cursor: usize) -> (r: usize)
    requires
        cursor <= n <= text@.len(),
        lb@.len() >= 1,
    ensures
        r == line_start_of(text@.take(n as int), lb@, cursor as int),
{
    let ghost t = text@.take(n as int);
    if cursor < lb.len() {
        return 0;
    }
    let mut q = cursor - lb.len();
    loop
        invariant
            q + lb@.len() <= cursor <= n <= text@.len(),
            t == text@.take(n as int),
            lb@.len() >= 1,
            line_start_of(t, lb@, cursor as int) == last_break_end(t, lb@, q as int),
        decreases q,
    {
        let m = is_prefix_at(text, q, lb);
        proof {
            assert(t.subrange(q as int, q + lb@.len()) =~= text@.subrange(q as int, q + lb@.len()));
        }
        if m {
            return q + lb.len();
        }
        if q == 0 {
            proof {
                assert(last_break_end(t, lb@, q as int - 1) == 0);
            }
            return 0;
        }
        q = q - 1;
    }
}

/// The columns the chars of `text[a..b]` take, one by one.
fn chars_cols(text: &Vec<char>, n: usize, a: usize, b: usize) -> (r: u64)
    requires
        a <= b <= n <= text@.len(),
        n <= u32::MAX,
    ensures
        r == cols_sum(text@.take(n as int).subrange(a as int, b as int)),
{
    let ghost t = text@.take(n as int);
    let mut w: u64 = 0;
    let mut i = a;
    while i < b
        invariant
            a <= i <= b <= n <= text@.len(),
            n <= u32::MAX,
            t == text@.take(n as int),
            w == cols_sum(t.subrange(a as int, i as int)),
            w <= 255 * (i - a),
        decreases b - i,
    {
        let cw = Char::Char(text[i]).width();
        proof {
            assert(t.subrange(a as int, i + 1).drop_last() =~= t.subrange(a as int, i as int));
            assert(t.subrange(a as int, i + 1).last() == text@[i as int]);
        }
        w = w + cw;
        i = i + 1;
    }
    w
}

/// `t` with `s` inserted at `c`.
pub open spec fn inserted(t: Seq<char>, c: int, s: Seq<char>) -> Seq<char> {
    t.take(c) + s + t.skip(c)
}

/// The inserted text makes no line break inside it or across its ends.
pub open spec fn insert_keeps_breaks(t: Seq<char>, lb: Seq<char>, c: int, s: Seq<char>) -> bool {
    forall|q: int| #[trigger] occurs_at(inserted(t, c, s), lb, q) ==> q + lb.len() <= c || q >= c + s.len()
}

/// With a line break of one char (such as the default `"\n"`), a text to
/// insert that holds no line break makes none inside it or across its ends.
pub proof fn lemma_one_char_break_keeps(t: Seq<char>, lb: Seq<char>, c: int, s: Seq<char>)
    requires
        lb.len() == 1,
        0 <= c <= t.len(),
        forall|i: int| 0 <= i < s.len() ==> s[i] != lb[0],
    ensures
        insert_keeps_breaks(t, lb, c, s),
{
    let u = inserted(t, c, s);
    assert forall|q: int| #[trigger] occurs_at(u, lb, q) implies q + lb.len() <= c || q >= c + s.len() by {
        assert(u.subrange(q, q + 1)[0] == u[q]);
        if c <= q < c + s.len() {
            assert(u[q] == s[q - c]);
        }
    }
}

/// Walking down a line from `pos` (with the columns of `t[s0..pos]` passed)
/// stops within the line, never past `target` columns, and only where the
/// target is reached, the line ends, or the next char would pass it (or is
/// a line break).
pub proof fn lemma_down_walk_column(t: Seq<char>, lb: Seq<char>, s0: int, pos: int, end: int, width: int, target: int)
    requires
        0 <= s0 <= pos <= end <= t.len(),
        width == cols_sum(t.subrange(s0, pos)),
        width <= target,
    ensures
        ({
            let r = down_walk(t, lb, pos, end, width, target);
            let c = cols_sum(t.subrange(s0, r));
            &&& pos <= r <= end
            &&& c <= target
            &&& (c == target || r == end
                || !(first_in(t, lb, r, end) matches Some(Char::Char(ch)) && c + cols(Char::Char(ch)) <= target))
        }),
    decreases end - pos,
{
    if width == target || pos >= end {
    } else {
        match first_in(t, lb, pos, end) {
            Some(Char::Char(ch)) => {
                if width + cols(Char::Char(ch)) > target {
                } else {
                    let sub = t.subrange(pos, end);
                    assert(sub[0] == t[pos]);
                    assert(ch == t[pos]);
                    assert(t.subrange(s0, pos + 1).drop_last() =~= t.subrange(s0, pos));
                    assert(t.subrange(s0, pos + 1).last() == t[pos]);
                    lemma_down_walk_column(t, lb, s0, pos + 1, end, width + cols(Char::Char(ch)), target);
                }
            },
            _ => {},
        }
    }
}

/// The Down key, with the cursor shown in its line and a non-empty line
/// after it in view, is handled: the text and the lines in view stay, the
/// cursor goes to the next line, within its range, at the column it had
/// (or as near before it as the next line's chars allow: short of it only
/// where the line ends, a line break comes, or the next char would pass
/// it).
pub proof fn law_down_moves_to_next_line(t: Seq<char>, lb: Seq<char>, w: int, h: nat, st: EditState, i: usize)
    requires
        st.cursor_line == Some(i),
        i + 1 < st.lines.len(),
        st.lines[i as int].range_start <= st.cursor,
        st.lines[i as int].view_start <= st.cursor < st.lines[i as int].view_end,
        st.lines[i + 1].range_start < st.lines[i + 1].range_end <= t.len(),
    ensures
        ({
            let r = update_spec(t, lb, w, h, st, Key::Down);
            let line = st.lines[i as int];
            let next = st.lines[i + 1];
            let target = cols_sum(t.subrange(line.range_start as int, st.cursor));
            let c = cols_sum(t.subrange(next.range_start as int, r.1.cursor));
            &&& r.0 == t
            &&& r.2
            &&& r.1.cursor_line == Some((i + 1) as usize)
            &&& r.1.lines == st.lines
            &&& r.1.column == st.column
            &&& next.range_start <= r.1.cursor <= next.range_end
            &&& c <= target
            &&& (c == target || r.1.cursor == next.range_end
                || !(first_in(t, lb, r.1.cursor, next.range_end as int) matches Some(Char::Char(ch))
                    && c + cols(Char::Char(ch)) <= target))
        }),
{
    let line = st.lines[i as int];
    let next = st.lines[i + 1];
    let target = cols_sum(t.subrange(line.range_start as int, st.cursor));
    lemma_cols_sum_nonneg(t.subrange(line.range_start as int, st.cursor));
    assert(t.subrange(next.range_start as int, next.range_start as int) =~= Seq::<char>::empty());
    lemma_down_walk_column(t, lb, next.range_start as int, next.range_start as int, next.range_end as int, 0, target);
}

/// Right and Left, with the cursor shown in its line: Right over an
/// ordinary char is handled and moves the cursor exactly one char right,
/// in the same line; at a line break or the line's end it is not handled
/// and nothing changes.  Left likewise moves the cursor exactly one char
/// left over an ordinary char before it, and does nothing at a line's
/// start.  Neither changes the text.
pub proof fn law_left_right_move_one_char(t: Seq<char>, lb: Seq<char>, w: int, h: nat, st: EditState, i: usize)
    requires
        st.cursor_line == Some(i),
        i < st.lines.len(),
        st.lines[i as int].view_start <= st.cursor < st.lines[i as int].view_end,
    ensures
        ({
            let line = st.lines[i as int];
            let r = update_spec(t, lb, w, h, st, Key::Right);
            &&& r.0 == t
            &&& (first_in(t, lb, st.cursor, line.range_end as int) is Some
                && first_in(t, lb, st.cursor, line.range_end as int)->0 is Char ==>
                r.2 && r.1.cursor == st.cursor + 1 && r.1.cursor_line == Some(i))
            &&& (!(first_in(t, lb, st.cursor, line.range_end as int) is Some
                && first_in(t, lb, st.cursor, line.range_end as int)->0 is Char) ==> !r.2 && r.1 == st)
        }),
        ({
            let line = st.lines[i as int];
            let r = update_spec(t, lb, w, h, st, Key::Left);
            &&& r.0 == t
            &&& (last_in(t, lb, line.range_start as int, st.cursor) is Some
                && last_in(t, lb, line.range_start as int, st.cursor)->0 is Char ==>
                r.2 && r.1.cursor == st.cursor - 1 && r.1.cursor_line == Some(i))
            &&& (!(last_in(t, lb, line.range_start as int, st.cursor) is Some
                && last_in(t, lb, line.range_start as int, st.cursor)->0 is Char) ==> !r.2 && r.1 == st)
        }),
{
}

/// The Down key, with the cursor shown in the last line in view, or with
/// only an empty line after it (the end of the text), is not handled and
/// changes nothing.
pub proof fn law_down_stays_at_end(t: Seq<char>, lb: Seq<char>, w: int, h: nat, st: EditState, i: usize)
    requires
        st.cursor_line == Some(i),
        i < st.lines.len(),
        st.lines[i as int].view_start <= st.cursor < st.lines[i as int].view_end,
        i + 1 == st.lines.len() || st.lines[i + 1].range_start >= st.lines[i + 1].range_end,
    ensures
        update_spec(t, lb, w, h, st, Key::Down) == (t, st, false, true),
{
}

pub open spec fn shifted(l: Line, d: int) -> Line {
    Line {
        range_start: (l.range_start + d) as usize,
        range_end: (l.range_end + d) as usize,
        view_start: (l.view_start + d) as usize,
        view_end: (l.view_end + d) as usize,
        ..l
    }
}

/// The state after `d` chars are inserted at the cursor of a prepared state
/// (`t2` is the new text): the cursor's line grows, with its view's end
/// found anew where the cursor is in view, and the lines after it move.
pub open spec fn insert_step(t2: Seq<char>, lb: Seq<char>, w: int, st2: EditState, d: int) -> EditState {
    let i = st2.cursor_line->0 as int;
    let line = st2.lines[i];
    let grown = Line { range_end: (line.range_end + d) as usize, ..line };
    let line2 = if st2.cursor < line.view_end {
        let ve = view_end_of(t2, lb, line.view_start as int, grown.range_end as int, 0, w);
        Line { view_end: ve.0 as usize, filled: ve.1, ..grown }
    } else {
        grown
    };
    EditState {
        lines: Seq::new(st2.lines.len(), |k: int|
            if k < i { st2.lines[k] } else if k == i { line2 } else { shifted(st2.lines[k], d) }),
        ..st2
    }
}

/// The end of a line is after its first line break, or at the end of the text.
pub proof fn lemma_line_end_is(t: Seq<char>, lb: Seq<char>, rs: int, e: int)
    requires
        0 <= rs <= t.len(),
        lb.len() >= 1,
        (occurs_at(t, lb, e - lb.len()) && rs <= e - lb.len() && no_break_in(t, lb, rs, e - lb.len()))
            || (e == t.len() && no_break_in(t, lb, rs, t.len() as int)),
    ensures
        line_end_of(t, lb, rs) == e,
    decreases t.len() - rs,
{
    if rs + lb.len() > t.len() {
        if occurs_at(t, lb, e - lb.len()) && rs <= e - lb.len() {
        }
    } else if occurs_at(t, lb, rs) {
        if !(occurs_at(t, lb, e - lb.len()) && rs <= e - lb.len() && no_break_in(t, lb, rs, e - lb.len())) {
            assert(!occurs_at(t, lb, rs));
        } else if rs < e - lb.len() {
            assert(!occurs_at(t, lb, rs));
        }
    } else {
        if occurs_at(t, lb, e - lb.len()) && rs <= e - lb.len() && no_break_in(t, lb, rs, e - lb.len()) {
            assert(rs != e - lb.len());
        }
        lemma_line_end_is(t, lb, rs + 1, e);
    }
}

/// A line break before the insertion, or after it, is one of the text with
/// the insertion too.
pub proof fn lemma_occurs_inserted(t: Seq<char>, lb: Seq<char>, c: int, s: Seq<char>, q: int)
    requires
        0 <= c <= t.len(),
    ensures
        0 <= q && q + lb.len() <= c ==> (occurs_at(inserted(t, c, s), lb, q) == occurs_at(t, lb, q)),
        q >= c ==> (occurs_at(inserted(t, c, s), lb, q + s.len()) == occurs_at(t, lb, q)),
{
    let t2 = inserted(t, c, s);
    assert(t2.len() == t.len() + s.len());
    if 0 <= q && q + lb.len() <= c {
        assert(t2.subrange(q, q + lb.len()) =~= t.subrange(q, q + lb.len()));
    }
    if q >= c && q + lb.len() <= t.len() {
        assert(t2.subrange(q + s.len(), q + s.len() + lb.len()) =~= t.subrange(q, q + lb.len()));
    }
}

/// Each line of a well-formed layout ends at or before the next ones start.
pub proof fn lemma_chain_mono(t: Seq<char>, lb: Seq<char>, lines: Seq<Line>, h: nat, k: int, j: int)
    requires
        lines_ok(t, lb, lines, h),
        0 <= k < j < h,
    ensures
        lines[k].range_end <= lines[j].range_start,
    decreases j - k,
{
    assert(lines[j].range_start == lines[j - 1].range_end);
    if k < j - 1 {
        lemma_chain_mono(t, lb, lines, h, k, j - 1);
        assert(line_ok(t, lb, lines[j - 1]));
    }
}

/// Where the cursor's line is the first line that holds it, no line before
/// it does.
pub proof fn lemma_first_is_cursor_line(t: Seq<char>, lb: Seq<char>, lines: Seq<Line>, h: nat, i: int, cursor: int)
    requires
        lines_ok(t, lb, lines, h),
        lb.len() >= 1,
        0 <= i < h,
        holds_cursor(t, lb, lines[i], cursor),
        i > 0 ==> !holds_cursor(t, lb, lines[i - 1], cursor),
    ensures
        forall|k: int| 0 <= k < i ==> !holds_cursor(t, lb, #[trigger] lines[k], cursor),
{
    assert forall|k: int| 0 <= k < i implies !holds_cursor(t, lb, #[trigger] lines[k], cursor) by {
        if k < i - 1 && holds_cursor(t, lb, lines[k], cursor) {
            lemma_chain_mono(t, lb, lines, h, k, i - 1);
            lemma_chain_mono(t, lb, lines, h, k, i);
            assert(line_ok(t, lb, lines[k]));
            assert(line_ok(t, lb, lines[i - 1]));
            lemma_not_ending_is_last(t, lb, lines[k]);
            assert(lines[i - 1].range_end == lines[i].range_start);
            lemma_not_ends_with(t, lb, lines[i - 1].range_start as int, lines[i - 1].range_end as int);
        }
    }
}

pub proof fn lemma_cols_sum_concat(a: Seq<char>, b: Seq<char>)
    ensures
        cols_sum(a + b) == cols_sum(a) + cols_sum(b),
    decreases b.len(),
{
    if b.len() > 0 {
        assert((a + b).drop_last() =~= a + b.drop_last());
        lemma_cols_sum_concat(a, b.drop_last());
    } else {
        assert(a + b =~= a);
    }
}

pub proof fn lemma_cols_sum_nonneg(a: Seq<char>)
    ensures
        cols_sum(a) >= 0,
    decreases a.len(),
{
    if a.len() > 0 {
        lemma_cols_sum_nonneg(a.drop_last());
    }
}

/// The view laid out from the cursor's column starts at or before the cursor.
pub proof fn lemma_view_start_le(t: Seq<char>, lb: Seq<char>, rs: int, pos: int, e: int, width: int, cursor: int)
    requires
        0 <= rs <= pos <= cursor <= e <= t.len(),
        lb.len() >= 1,
        e == line_end_of(t, lb, rs),
        no_break_in(t, lb, rs, cursor),
        0 <= width,
    ensures
        view_start_of(t, lb, pos, e, width, width + cols_sum(t.subrange(pos, cursor))).0 <= cursor,
    decreases e - pos,
{
    let column = width + cols_sum(t.subrange(pos, cursor));
    if width == column || pos >= e {
    } else if pos == cursor {
        assert(t.subrange(pos, cursor).len() == 0);
    } else {
        let x = t[pos];
        assert(!occurs_at(t, lb, pos));
        let sub = t.subrange(pos, e);
        if lb.len() <= sub.len() {
            assert(sub.subrange(0, lb.len() as int) =~= t.subrange(pos, pos + lb.len()));
        }
        assert(first_in(t, lb, pos, e) == Some(Char::Char(x)));
        assert(t.subrange(pos, cursor) =~= seq![x] + t.subrange(pos + 1, cursor));
        lemma_cols_sum_concat(seq![x], t.subrange(pos + 1, cursor));
        assert(seq![x].drop_last() =~= Seq::<char>::empty());
        assert(cols_sum(Seq::<char>::empty()) == 0);
        assert(seq![x].last() == x);
        assert(cols_sum(seq![x]) == cols(Char::Char(x)));
        lemma_cols_sum_nonneg(t.subrange(pos + 1, cursor));
        let rest = cols_sum(t.subrange(pos + 1, cursor));
        assert(column == width + cols(Char::Char(x)) + rest);
        assert(char_step(Char::Char(x), lb) == 1);
        assert(view_start_of(t, lb, pos, e, width, column) == view_start_of(t, lb, pos + 1, e, width + cols(Char::Char(x)), column));
        lemma_view_start_le(t, lb, rs, pos + 1, e, width + cols(Char::Char(x)), cursor);
    }
}

/// Each line laid out is the line of its own start.
pub proof fn lemma_lines_from_each(t: Seq<char>, lb: Seq<char>, s: int, column: int, w: int, k: nat)
    requires
        0 <= s <= t.len(),
        t.len() <= usize::MAX,
        lb.len() >= 1,
    ensures
        forall|j: int| 0 <= j < k ==> #[trigger] lines_from(t, lb, s, column, w, k)[j]
            == line_of(t, lb, lines_from(t, lb, s, column, w, k)[j].range_start as int, column, w),
    decreases k,
{
    if k > 0 {
        let l = line_of(t, lb, s, column, w);
        lemma_line_end_bounds(t, lb, s);
        lemma_lines_from_each(t, lb, l.range_end as int, column, w, (k - 1) as nat);
        lemma_lines_from_len(t, lb, l.range_end as int, column, w, (k - 1) as nat);
        let all = lines_from(t, lb, s, column, w, k);
        let rest = lines_from(t, lb, l.range_end as int, column, w, (k - 1) as nat);
        assert(all == seq![l] + rest);
        assert forall|j: int| 0 <= j < k implies #[trigger] all[j] == line_of(t, lb, all[j].range_start as int, column, w) by {
            if j > 0 {
                assert(all[j] == rest[j - 1]);
            } else {
                assert(l.range_start as int == s);
            }
        }
    }
}

/// The cursor's line, after an insertion at the cursor, ends as many chars
/// later as were inserted.
pub proof fn lemma_insert_line_end_cursor(t: Seq<char>, lb: Seq<char>, c: int, s: Seq<char>, rs: int)
    requires
        0 <= rs <= c <= t.len(),
        lb.len() >= 1,
        no_break_in(t, lb, rs, c),
        insert_keeps_breaks(t, lb, c, s),
    ensures
        line_end_of(t, lb, rs) >= c,
        line_end_of(inserted(t, c, s), lb, rs) == line_end_of(t, lb, rs) + s.len(),
{
    let t2 = inserted(t, c, s);
    let d = s.len() as int;
    let e = line_end_of(t, lb, rs);
    lemma_line_end_first(t, lb, rs);
    lemma_line_end_bounds(t, lb, rs);
    assert(t2.len() == t.len() + d);
    if occurs_at(t, lb, e - lb.len()) && rs <= e - lb.len() && no_break_in(t, lb, rs, e - lb.len()) {
        let p = e - lb.len();
        if p < c {
            assert(!occurs_at(t, lb, p));
        }
        lemma_occurs_inserted(t, lb, c, s, p);
        assert forall|q: int| rs <= q < p + d implies !#[trigger] occurs_at(t2, lb, q) by {
            if q + lb.len() <= c {
                lemma_occurs_inserted(t, lb, c, s, q);
            } else if q >= c + d {
                lemma_occurs_inserted(t, lb, c, s, q - d);
            }
        }
        lemma_line_end_is(t2, lb, rs, e + d);
    } else {
        assert forall|q: int| rs <= q < t2.len() implies !#[trigger] occurs_at(t2, lb, q) by {
            if q + lb.len() <= c {
                lemma_occurs_inserted(t, lb, c, s, q);
            } else if q >= c + d {
                lemma_occurs_inserted(t, lb, c, s, q - d);
            }
        }
        lemma_line_end_is(t2, lb, rs, e + d);
    }
}

/// A line that ends with a line break before the insertion ends there still.
pub proof fn lemma_insert_line_end_before(t: Seq<char>, lb: Seq<char>, c: int, s: Seq<char>, rs: int)
    requires
        0 <= rs,
        lb.len() >= 1,
        rs <= line_end_of(t, lb, rs) <= c <= t.len(),
        occurs_at(t, lb, line_end_of(t, lb, rs) - lb.len()),
        rs <= line_end_of(t, lb, rs) - lb.len(),
        insert_keeps_breaks(t, lb, c, s),
    ensures
        line_end_of(inserted(t, c, s), lb, rs) == line_end_of(t, lb, rs),
{
    let t2 = inserted(t, c, s);
    let e = line_end_of(t, lb, rs);
    let p = e - lb.len();
    lemma_line_end_first(t, lb, rs);
    if !no_break_in(t, lb, rs, p) {
        assert(!no_break_in(t, lb, rs, t.len() as int));
    }
    lemma_occurs_inserted(t, lb, c, s, p);
    assert forall|q: int| rs <= q < p implies !#[trigger] occurs_at(t2, lb, q) by {
        lemma_occurs_inserted(t, lb, c, s, q);
    }
    lemma_line_end_is(t2, lb, rs, e);
}

/// A line after the insertion moves by as many chars as were inserted.
pub proof fn lemma_insert_line_end_after(t: Seq<char>, lb: Seq<char>, c: int, s: Seq<char>, rs: int)
    requires
        0 <= c <= rs <= t.len(),
        lb.len() >= 1,
    ensures
        line_end_of(inserted(t, c, s), lb, rs + s.len()) == line_end_of(t, lb, rs) + s.len(),
{
    let t2 = inserted(t, c, s);
    let d = s.len() as int;
    let e = line_end_of(t, lb, rs);
    lemma_line_end_first(t, lb, rs);
    lemma_line_end_bounds(t, lb, rs);
    assert(t2.len() == t.len() + d);
    if occurs_at(t, lb, e - lb.len()) && rs <= e - lb.len() && no_break_in(t, lb, rs, e - lb.len()) {
        lemma_occurs_inserted(t, lb, c, s, e - lb.len());
        assert forall|q: int| rs + d <= q < e - lb.len() + d implies !#[trigger] occurs_at(t2, lb, q) by {
            lemma_occurs_inserted(t, lb, c, s, q - d);
        }
    } else {
        assert forall|q: int| rs + d <= q < t2.len() implies !#[trigger] occurs_at(t2, lb, q) by {
            lemma_occurs_inserted(t, lb, c, s, q - d);
        }
    }
    lemma_line_end_is(t2, lb, rs + d, e + d);
}

/// A position before the insertion (or after it, moved) that is not inside
/// a line break is not inside one after the insertion either.
pub proof fn lemma_insert_not_inside(t: Seq<char>, lb: Seq<char>, c: int, s: Seq<char>, x: int)
    requires
        0 <= c <= t.len(),
        0 <= x <= t.len(),
        lb.len() >= 1,
        !inside_break(t, lb, x),
        insert_keeps_breaks(t, lb, c, s),
    ensures
        x <= c ==> !inside_break(inserted(t, c, s), lb, x),
        x >= c ==> !inside_break(inserted(t, c, s), lb, x + s.len()),
{
    let t2 = inserted(t, c, s);
    let d = s.len() as int;
    if x <= c && inside_break(t2, lb, x) {
        let q = choose|q: int| #[trigger] occurs_at(t2, lb, q) && q < x < q + lb.len();
        lemma_occurs_inserted(t, lb, c, s, q);
        assert(occurs_at(t, lb, q) && q < x < q + lb.len());
    }
    if x >= c && inside_break(t2, lb, x + d) {
        let q = choose|q: int| #[trigger] occurs_at(t2, lb, q) && q < x + d < q + lb.len();
        if q >= c + d {
            lemma_occurs_inserted(t, lb, c, s, q - d);
            assert(occurs_at(t, lb, q - d) && q - d < x < q - d + lb.len());
        }
    }
}

/// A line before the insertion stays well formed.
pub proof fn lemma_insert_line_ok_before(t: Seq<char>, lb: Seq<char>, c: int, s: Seq<char>, l: Line)
    requires
        line_ok(t, lb, l),
        lb.len() >= 1,
        l.range_end <= c <= t.len(),
        t.len() + s.len() <= usize::MAX,
        occurs_at(t, lb, l.range_end - lb.len()),
        l.range_start <= l.range_end - lb.len(),
        insert_keeps_breaks(t, lb, c, s),
    ensures
        line_ok(inserted(t, c, s), lb, l),
{
    let t2 = inserted(t, c, s);
    let rs = l.range_start as int;
    let vs = l.view_start as int;
    lemma_insert_line_end_before(t, lb, c, s, rs);
    assert(t2.subrange(rs, vs) =~= t.subrange(rs, vs));
    if no_break_in(t, lb, rs, vs) {
        assert forall|q: int| rs <= q < vs implies !#[trigger] occurs_at(t2, lb, q) by {
            lemma_occurs_inserted(t, lb, c, s, q);
        }
    }
}

/// A line after the insertion, moved, stays well formed.
pub proof fn lemma_insert_line_ok_after(t: Seq<char>, lb: Seq<char>, c: int, s: Seq<char>, l: Line)
    requires
        line_ok(t, lb, l),
        lb.len() >= 1,
        0 <= c <= l.range_start,
        t.len() + s.len() <= usize::MAX,
    ensures
        line_ok(inserted(t, c, s), lb, shifted(l, s.len() as int)),
{
    let t2 = inserted(t, c, s);
    let d = s.len() as int;
    let rs = l.range_start as int;
    let vs = l.view_start as int;
    lemma_insert_line_end_after(t, lb, c, s, rs);
    assert(t2.subrange(rs + d, vs + d) =~= t.subrange(rs, vs));
    if no_break_in(t, lb, rs, vs) {
        assert forall|q: int| rs + d <= q < vs + d implies !#[trigger] occurs_at(t2, lb, q) by {
            lemma_occurs_inserted(t, lb, c, s, q - d);
        }
    }
}

/// The cursor's line, grown by the insertion, stays well formed.
pub proof fn lemma_insert_line_ok_cursor(t: Seq<char>, lb: Seq<char>, c: int, s: Seq<char>, l: Line, l2: Line)
    requires
        line_ok(t, lb, l),
        lb.len() >= 1,
        l.view_start <= c <= l.range_end,
        t.len() + s.len() <= usize::MAX,
        no_break_in(t, lb, l.range_start as int, c),
        insert_keeps_breaks(t, lb, c, s),
        l2.range_start == l.range_start,
        l2.view_start == l.view_start,
        l2.padding == l.padding,
        l2.range_end == l.range_end + s.len(),
        l.view_start <= l2.view_end <= l2.range_end,
    ensures
        line_ok(inserted(t, c, s), lb, l2),
{
    let t2 = inserted(t, c, s);
    let rs = l.range_start as int;
    let vs = l.view_start as int;
    lemma_insert_line_end_cursor(t, lb, c, s, rs);
    assert(t2.subrange(rs, vs) =~= t.subrange(rs, vs));
    assert forall|q: int| rs <= q < vs implies !#[trigger] occurs_at(t2, lb, q) by {
        lemma_occurs_inserted(t, lb, c, s, q);
    }
}

/// Laying the lines out anew from the cursor's column keeps the cursor in
/// the same line, and the view starts at or before it.
pub proof fn lemma_reposition(t: Seq<char>, lb: Seq<char>, old_lines: Seq<Line>, lines: Seq<Line>, h: nat,
    i: int, c: int, column: int, w: int)
    requires
        lines_ok(t, lb, old_lines, h),
        lb.len() >= 1,
        !self_overlapping(lb),
        t.len() <= usize::MAX,
        h <= usize::MAX,
        0 <= i < h,
        0 <= c <= t.len(),
        holds_cursor(t, lb, old_lines[i], c),
        i > 0 ==> !holds_cursor(t, lb, old_lines[i - 1], c),
        !inside_break(t, lb, c),
        lines == lines_from(t, lb, old_lines[0].range_start as int, column, w, h),
        column == cols_sum(t.subrange(old_lines[i].range_start as int, c)),
    ensures
        first_holding(t, lb, lines, c, 0) == Some(i as usize),
        lines[i].view_start <= c,
        lines[i].range_start == old_lines[i].range_start,
        lines[i].range_end == old_lines[i].range_end,
{
    lemma_ranges_match(t, lb, old_lines, h, 0, column, w);
    assert(lines[i].range_start == old_lines[i].range_start);
    assert(lines[i].range_end == old_lines[i].range_end);
    assert(holds_cursor(t, lb, lines[i], c));
    lemma_first_is_cursor_line(t, lb, old_lines, h, i, c);
    assert forall|k: int| 0 <= k < i implies !holds_cursor(t, lb, #[trigger] lines[k], c) by {
        assert(!holds_cursor(t, lb, old_lines[k], c));
        assert(lines[k].range_start == old_lines[k].range_start);
        assert(lines[k].range_end == old_lines[k].range_end);
    }
    lemma_first_holding_in(t, lb, lines, c, 0);
    assert(line_ok(t, lb, old_lines[i]));
    assert(line_ok(t, lb, old_lines[0]));
    lemma_cursor_aligned(t, lb, old_lines[i], c);
    let rs0 = old_lines[0].range_start as int;
    lemma_lines_from_each(t, lb, rs0, column, w, h);
    let rsi = old_lines[i].range_start as int;
    let ei = line_end_of(t, lb, rsi);
    lemma_line_end_bounds(t, lb, rsi);
    lemma_view_start_le(t, lb, rsi, rsi, ei, 0, c);
    assert(lines[i] == line_of(t, lb, rsi, column, w));
    let v = view_start_of(t, lb, rsi, ei, 0, column);
    lemma_cols_sum_nonneg(t.subrange(rsi, c));
    assert(no_break_in(t, lb, rsi, rsi));
    lemma_view_start_ok(t, lb, rsi, rsi, 0, column);
    assert(column == 0 + cols_sum(t.subrange(rsi, c)));
    assert(v.0 <= c);
    assert(lines[i].view_start as int == v.0);
}

/// After an insertion at the cursor, with the cursor's line grown and the
/// lines after it moved, the lines are well formed, and the cursor's line
/// still holds it.
#[verifier::spinoff_prover]
#[verifier::rlimit(40)]
pub proof fn lemma_insert_lines_ok(t: Seq<char>, lb: Seq<char>, c: int, s: Seq<char>, lines: Seq<Line>, h: nat,
    i: int, lines2: Seq<Line>)
    requires
        lines_ok(t, lb, lines, h),
        lb.len() >= 1,
        !self_overlapping(lb),
        forall|k: int| 0 <= k < lines.len() ==> !inside_break(t, lb, (#[trigger] lines[k]).range_start as int),
        0 <= i < h,
        holds_cursor(t, lb, lines[i], c),
        i > 0 ==> !holds_cursor(t, lb, lines[i - 1], c),
        !inside_break(t, lb, c),
        lines[i].view_start <= c <= t.len(),
        t.len() + s.len() <= usize::MAX,
        insert_keeps_breaks(t, lb, c, s),
        lines2.len() == h,
        forall|k: int| 0 <= k < i ==> #[trigger] lines2[k] == lines[k],
        forall|k: int| i < k < h ==> #[trigger] lines2[k] == shifted(lines[k], s.len() as int),
        lines2[i].range_start == lines[i].range_start,
        lines2[i].view_start == lines[i].view_start,
        lines2[i].padding == lines[i].padding,
        lines2[i].range_end == lines[i].range_end + s.len(),
        lines[i].view_start <= lines2[i].view_end <= lines2[i].range_end,
    ensures
        lines_ok(inserted(t, c, s), lb, lines2, h),
        forall|k: int| 0 <= k < lines2.len() ==> !inside_break(inserted(t, c, s), lb, (#[trigger] lines2[k]).range_start as int),
        holds_cursor(inserted(t, c, s), lb, lines2[i], c),
        i > 0 ==> !holds_cursor(inserted(t, c, s), lb, lines2[i - 1], c),
        !inside_break(inserted(t, c, s), lb, c),
{
    let t2 = inserted(t, c, s);
    let d = s.len() as int;
    assert(t2.len() == t.len() + d);
    lemma_first_is_cursor_line(t, lb, lines, h, i, c);
    assert(line_ok(t, lb, lines[i]));
    lemma_cursor_aligned(t, lb, lines[i], c);
    assert forall|k: int| 0 <= k < h implies line_ok(t2, lb, #[trigger] lines2[k]) by {
        assert(line_ok(t, lb, lines[k]));
        if k < i {
            lemma_chain_mono(t, lb, lines, h, k, i);
            let l = lines[k];
            let sub = t.subrange(l.range_start as int, l.range_end as int);
            if !ends_with(sub, lb) {
                lemma_not_ending_is_last(t, lb, l);
                assert(!holds_cursor(t, lb, l, c));
            }
            assert(sub.subrange(sub.len() - lb.len(), sub.len() as int)
                =~= t.subrange(l.range_end - lb.len(), l.range_end as int));
            lemma_insert_line_ok_before(t, lb, c, s, l);
        } else if k == i {
            lemma_insert_line_ok_cursor(t, lb, c, s, lines[i], lines2[i]);
        } else {
            lemma_chain_mono(t, lb, lines, h, i, k);
            lemma_insert_line_ok_after(t, lb, c, s, lines[k]);
        }
    }
    assert forall|k: int| 0 < k < h implies (#[trigger] lines2[k]).range_start == lines2[k - 1].range_end by {
        assert(lines[k].range_start == lines[k - 1].range_end);
        assert(line_ok(t, lb, lines[k]));
        assert(line_ok(t, lb, lines[k - 1]));
    }
    assert forall|k: int| 0 <= k < lines2.len() implies !inside_break(t2, lb, (#[trigger] lines2[k]).range_start as int) by {
        assert(line_ok(t, lb, lines[k]));
        assert(!inside_break(t, lb, lines[k].range_start as int));
        if k <= i {
            if k < i {
                lemma_chain_mono(t, lb, lines, h, k, i);
            }
            lemma_insert_not_inside(t, lb, c, s, lines[k].range_start as int);
        } else {
            lemma_chain_mono(t, lb, lines, h, i, k);
            lemma_insert_not_inside(t, lb, c, s, lines[k].range_start as int);
        }
    }
    let li = lines[i];
    if c == li.range_end && d == 0 {
        assert(t2 =~= t);
    }
    if i > 0 {
        let lp = lines[i - 1];
        assert(lp.range_end == li.range_start);
        assert(line_ok(t, lb, lp));
        assert(t2.subrange(lp.range_start as int, lp.range_end as int) =~= t.subrange(lp.range_start as int, lp.range_end as int));
    }
    if inside_break(t2, lb, c) {
        let q = choose|q: int| #[trigger] occurs_at(t2, lb, q) && q < c < q + lb.len();
    }
}

/// `text` with `s` inserted at `c`.
fn with_inserted(text: &Vec<char>, c: usize, s: &Vec<char>) -> (r: Vec<char>)
    requires
        c <= text@.len(),
    ensures
        r@ == inserted(text@, c as int, s@),
{
    let mut r: Vec<char> = Vec::new();
    let mut i: usize = 0;
    while i < c
        invariant
            i <= c <= text@.len(),
            r@ == text@.take(i as int),
        decreases c - i,
    {
        r.push(text[i]);
        i = i + 1;
        proof {
            assert(r@ =~= text@.take(i as int));
        }
    }
    let mut j: usize = 0;
    while j < s.len()
        invariant
            j <= s@.len(),
            c <= text@.len(),
            r@ == text@.take(c as int) + s@.take(j as int),
        decreases s@.len() - j,
    {
        r.push(s[j]);
        j = j + 1;
        proof {
            assert(r@ =~= text@.take(c as int) + s@.take(j as int));
        }
    }
    let mut k: usize = c;
    proof {
        assert(s@.take(s@.len() as int) =~= s@);
        assert(r@ =~= text@.take(c as int) + s@ + text@.subrange(c as int, k as int));
    }
    while k < text.len()
        invariant
            c <= k <= text@.len(),
            r@ == text@.take(c as int) + s@ + text@.subrange(c as int, k as int),
        decreases text@.len() - k,
    {
        r.push(text[k]);
        k = k + 1;
        proof {
            assert(r@ =~= text@.take(c as int) + s@ + text@.subrange(c as int, k as int));
        }
    }
    proof {
        assert(text@.subrange(c as int, text@.len() as int) =~= text@.skip(c as int));
    }
    r
}

/// What `first_holding` finds is one of the lines, and holds the cursor.
pub proof fn lemma_first_holding_in(t: Seq<char>, lb: Seq<char>, lines: Seq<Line>, cursor: int, i: int)
    requires
        0 <= i,
        lines.len() <= usize::MAX,
    ensures
        first_holding(t, lb, lines, cursor, i) matches Some(j) ==> {
            &&& i <= j < lines.len()
            &&& holds_cursor(t, lb, lines[j as int], cursor)
            &&& forall|k: int| i <= k < j ==> !holds_cursor(t, lb, #[trigger] lines[k], cursor)
        },
        first_holding(t, lb, lines, cursor, i) is None ==>
            forall|k: int| i <= k < lines.len() ==> !holds_cursor(t, lb, #[trigger] lines[k], cursor),
    decreases lines.len() - i,
{
    if i < lines.len() && !holds_cursor(t, lb, lines[i], cursor) {
        lemma_first_holding_in(t, lb, lines, cursor, i + 1);
        assert forall|k: int| i <= k < lines.len() && k <= i implies !holds_cursor(t, lb, #[trigger] lines[k], cursor) by {
            assert(k == i);
        }
        if let Some(j) = first_holding(t, lb, lines, cursor, i) {
            assert forall|k: int| i <= k < j implies !holds_cursor(t, lb, #[trigger] lines[k], cursor) by {
                if k > i {
                } else {
                    assert(k == i);
                }
            }
        }
    }
}

/// What a key does to an editor: the new text and state, whether the key
/// was handled, and whether the editor can handle it (for a char: the text
/// stays short enough, the char makes no line break, and the view can
/// follow the cursor).
pub open spec fn update_spec(t: Seq<char>, lb: Seq<char>, w: int, h: nat, st: EditState, key: Key)
    -> (Seq<char>, EditState, bool, bool)
{
    match key {
        Key::Right => {
            let r = cursor_right_spec(t, lb, w, h, st);
            (t, r.0, r.1, r.2)
        },
        Key::Left => {
            let r = cursor_left_spec(t, lb, w, h, st);
            (t, r.0, r.1, r.2)
        },
        Key::Down => {
            let r = cursor_down_spec(t, lb, w, h, st);
            (t, r.0, r.1, true)
        },
        Key::Char(c) => {
            let t2 = inserted(t, st.cursor, seq![c]);
            let st2 = insert_step(t2, lb, w, right_prepared(t, lb, w, h, st), 1);
            let r = cursor_right_spec(t2, lb, w, h, st2);
            (t2, r.0, true,
                utf8_len_of(t) + utf8_len(c) <= u32::MAX && insert_keeps_breaks(t, lb, st.cursor, seq![c]) && r.2)
        },
        _ => (t, st, false, true),
    }
}

/// What the editor draws: a text in a color (over the background as it
/// is), or where the cursor is.
#[derive(Debug)]
pub enum TextEditDraw {
    Text(Point, Fg, Vec<char>),
    Cursor(Point),
}

/// A drawing, with its text as a sequence.
pub enum DrawSpec {
    Text(Point, Fg, Seq<char>),
    Cursor(Point),
}

impl TextEditDraw {
    pub open spec fn spec(self) -> DrawSpec {
        match self {
            TextEditDraw::Text(p, fg, text) => DrawSpec::Text(p, fg, text@),
            TextEditDraw::Cursor(p) => DrawSpec::Cursor(p),
        }
    }
}

pub open spec fn draw_specs(v: Seq<TextEditDraw>) -> Seq<DrawSpec> {
    v.map_values(|d: TextEditDraw| d.spec())
}

/// The line has no line break at its end, and its view reaches that end.
pub open spec fn open_end(t: Seq<char>, lb: Seq<char>, l: Line) -> bool {
    l.view_end == l.range_end && !ends_with(t.subrange(l.range_start as int, l.range_end as int), lb)
}

/// What a line in view draws on row `y`: `~` for a line past the text's
/// end; else its chars in view (without a line break), and `%` after them
/// where the line ends without one; then the cursor, where it is in the
/// line's view and the editor has the focus.
pub open spec fn line_draws(t: Seq<char>, lb: Seq<char>, l: Line, y: i16, cursor: int, focused: bool) -> Seq<DrawSpec> {
    let x = l.padding as i16;
    let vs = l.view_start as int;
    let ve = l.view_end as int;
    let texts = if l.range_end == l.range_start {
        seq![DrawSpec::Text(Point { x, y }, Fg::DarkGray, seq!['~'])]
    } else {
        let vt = t.subrange(vs, ve);
        let shown = if ends_with(vt, lb) { t.subrange(vs, ve - lb.len()) } else { vt };
        seq![DrawSpec::Text(Point { x, y }, Fg::LightGray, shown)] + if open_end(t, lb, l) {
            seq![DrawSpec::Text(Point { x: wrap16(x + text_width_spec(vt)), y }, Fg::DarkGray, seq!['%'])]
        } else {
            Seq::empty()
        }
    };
    let at_cursor = focused && ((vs <= cursor < ve) || (open_end(t, lb, l) && cursor == l.range_end));
    texts + if at_cursor {
        seq![DrawSpec::Cursor(Point { x: wrap16(x + text_width_spec(t.subrange(vs, cursor))), y })]
    } else {
        Seq::empty()
    }
}

/// What the first `k` lines in view draw, row by row.
pub open spec fn lines_draws(t: Seq<char>, lb: Seq<char>, lines: Seq<Line>, cursor: int, focused: bool, k: nat) -> Seq<DrawSpec>
    decreases k,
{
    if k == 0 {
        Seq::empty()
    } else {
        lines_draws(t, lb, lines, cursor, focused, (k - 1) as nat)
            + line_draws(t, lb, lines[k - 1], wrap16(k - 1), cursor, focused)
    }
}

/// The width of `text[a..b]`.
fn range_width(text: &Vec<char>, a: usize, b: usize) -> (r: i16)
    requires
        a <= b <= text@.len(),
    ensures
        r == text_width_spec(text@.subrange(a as int, b as int)),
{
    let mut w: i16 = 0;
    let mut i = a;
    while i < b
        invariant
            a <= i <= b <= text@.len(),
            w == text_width_spec(text@.subrange(a as int, i as int)),
        decreases b - i,
    {
        let cw = char_width(text[i]);
        proof {
            lemma_wrapping_add(w, cw);
            assert(text@.subrange(a as int, i + 1).drop_last() =~= text@.subrange(a as int, i as int));
        }
        w = w.wrapping_add(cw);
        i = i + 1;
    }
    w
}

/// The chars `text[a..b]`.
fn range_copy(text: &Vec<char>, a: usize, b: usize) -> (r: Vec<char>)
    requires
        a <= b <= text@.len(),
    ensures
        r@ == text@.subrange(a as int, b as int),
{
    let mut r: Vec<char> = Vec::new();
    let mut i = a;
    while i < b
        invariant
            a <= i <= b <= text@.len(),
            r@ == text@.subrange(a as int, i as int),
        decreases b - i,
    {
        r.push(text[i]);
        i = i + 1;
        proof {
            assert(r@ =~= text@.subrange(a as int, i as int));
        }
    }
    r
}

impl TextEdit {
    /// What the editor draws, line by line.
    pub fn look(&self, focused: bool) -> (r: Vec<TextEditDraw>)
        requires
            self.wf(),
        ensures
            draw_specs(r@) == lines_draws(self.text@, self.line_break@, self.lines@, self.cursor as int,
                focused, self.lines@.len()),
    {
        let ghost t = self.text@;
        let ghost lb = self.line_break@;
        let mut out: Vec<TextEditDraw> = Vec::new();
        let mut y: i16 = 0;
        let mut k: usize = 0;
        while k < self.lines.len()
            invariant
                k <= self.lines@.len(),
                self.wf(),
                t == self.text@,
                lb == self.line_break@,
                y == wrap16(k as int),
                draw_specs(out@) == lines_draws(t, lb, self.lines@, self.cursor as int, focused, k as nat),
            decreases self.lines@.len() - k,
        {
            let ghost before = out@;
            let mut drawn = self.line_look(k, y, focused);
            let ghost mine = drawn@;
            out.append(&mut drawn);
            proof {
                assert(draw_specs(out@) =~= draw_specs(before) + draw_specs(mine));
                lemma_wrap16_add_right(k as int, 1);
                lemma_wrapping_add(y, 1);
            }
            y = y.wrapping_add(1);
            k = k + 1;
        }
        out
    }

    /// What the `k`-th line in view draws on row `y`.
    fn line_look(&self, k: usize, y: i16, focused: bool) -> (r: Vec<TextEditDraw>)
        requires
            self.wf(),
            k < self.lines@.len(),
        ensures
            draw_specs(r@) == line_draws(self.text@, self.line_break@, self.lines@[k as int], y, self.cursor as int, focused),
    {
        let ghost t = self.text@;
        let ghost lb = self.line_break@;
        let l = self.lines[k];
        let n = self.text.len();
        proof {
            lemma_actual_text(self.text@);
            assert(line_ok(self.edited(), lb, self.lines@[k as int]));
            assert(self.text@.take(n as int) =~= self.text@);
        }
        let mut out: Vec<TextEditDraw> = Vec::new();
        let x = l.padding as i16;
        let open = l.view_end == l.range_end && !ends_with_at(&self.text, n, &self.line_break, l.range_start, l.range_end);
        if l.range_end == l.range_start {
            let mut tilde: Vec<char> = Vec::new();
            tilde.push('~');
            out.push(TextEditDraw::Text(Point { x, y }, Fg::DarkGray, tilde));
        } else {
            let vt_ends = ends_with_at(&self.text, n, &self.line_break, l.view_start, l.view_end);
            let shown = if vt_ends {
                range_copy(&self.text, l.view_start, l.view_end - self.line_break.len())
            } else {
                range_copy(&self.text, l.view_start, l.view_end)
            };
            out.push(TextEditDraw::Text(Point { x, y }, Fg::LightGray, shown));
            if open {
                let vw = range_width(&self.text, l.view_start, l.view_end);
                proof {
                    lemma_wrapping_add(x, vw);
                }
                let mut pct: Vec<char> = Vec::new();
                pct.push('%');
                out.push(TextEditDraw::Text(Point { x: x.wrapping_add(vw), y }, Fg::DarkGray, pct));
            }
        }
        let at_cursor = focused && ((l.view_start <= self.cursor && self.cursor < l.view_end)
            || (open && self.cursor == l.range_end));
        if at_cursor {
            let cw = range_width(&self.text, l.view_start, self.cursor);
            proof {
                lemma_wrapping_add(x, cw);
            }
            out.push(TextEditDraw::Cursor(Point { x: x.wrapping_add(cw), y }));
        }
        proof {
            assert(draw_specs(out@) =~= line_draws(t, lb, l, y, self.cursor as int, focused));
        }
        out
    }
}

/// The widget that shows a text editor.
pub struct TextEditWidget;

impl TextEditWidget {
    /// The editor takes the room it is offered, one cell where none is.
    pub fn measure(available_width: Option<i16>, available_height: Option<i16>) -> (r: Vector)
        ensures
            r.x == (match available_width { Some(x) => x, None => 1 }),
            r.y == (match available_height { Some(y) => y, None => 1 }),
    {
        Vector {
            x: match available_width { Some(x) => x, None => 1 },
            y: match available_height { Some(y) => y, None => 1 },
        }
    }

    /// The editor takes the bounds it gets, and lays its lines out anew.
    pub fn arrange(edit: &mut TextEdit, final_inner_bounds: Rect) -> (r: Vector)
        requires
            old(edit).wf(),
        ensures
            r == final_inner_bounds.size,
            final(edit).wf(),
            final(edit).size == final_inner_bounds.size,
            final(edit).lines@ == lines_from(old(edit).edited(), old(edit).line_break@,
                old(edit).recalc_start(None), old(edit).column as int,
                (final_inner_bounds.size.x as u16) as int, (final_inner_bounds.size.y as u16) as nat),
            final(edit).cursor_line == first_holding(old(edit).edited(), old(edit).line_break@,
                final(edit).lines@, old(edit).cursor as int, 0),
            final(edit).text == old(edit).text,
            final(edit).line_break == old(edit).line_break,
            final(edit).column == old(edit).column,
            final(edit).cursor == old(edit).cursor,
    {
        proof {
            if old(edit).lines@.len() > 0 {
                assert(line_ok(old(edit).edited(), old(edit).line_break@, old(edit).lines@[0]));
            }
        }
        edit.size = final_inner_bounds.size;
        edit.recalc_view(None);
        final_inner_bounds.size
    }

    /// Handles a key: the arrows move the cursor, a char is inserted before
    /// it (and the cursor moves past it); whether the key was handled.
    pub fn update(edit: &mut TextEdit, event: Event) -> (handled: bool)
        requires
            old(edit).wf(),
            old(edit).view_height() >= 1,
            event matches Event::Key(k) ==> update_spec(old(edit).edited(), old(edit).line_break@,
                old(edit).view_width(), old(edit).view_height(), old(edit).state(), k).3,
        ensures
            final(edit).wf(),
            final(edit).line_break == old(edit).line_break,
            final(edit).size == old(edit).size,
            match event {
                Event::Key(k) => {
                    let r = update_spec(old(edit).edited(), old(edit).line_break@,
                        old(edit).view_width(), old(edit).view_height(), old(edit).state(), k);
                    &&& final(edit).edited() == r.0
                    &&& final(edit).state() == r.1
                    &&& handled == r.2
                },
                _ => !handled && final(edit).state() == old(edit).state() && final(edit).text == old(edit).text,
            },
    {
        match event {
            Event::Key(Key::Right) => edit.cursor_right(),
            Event::Key(Key::Left) => edit.cursor_left(),
            Event::Key(Key::Down) => edit.cursor_down(),
            Event::Key(Key::Char(c)) => {
                let mut sc: Vec<char> = Vec::new();
                sc.push(c);
                proof {
                    lemma_actual_text(old(edit).text@);
                    assert(old(edit).text@ == old(edit).edited());
                    assert(sc@ =~= seq![c]);
                    lemma_utf8_single(c);
                }
                edit.insert_vec(&sc);
                proof {
                    assert(edit.text@ == edit.edited());
                }
                edit.cursor_right();
                true
            },
            _ => false,
        }
    }
}

} // verus!
