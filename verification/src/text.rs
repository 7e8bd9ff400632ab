//! Text measurement on a character grid, and `~`-marked labels.
//!
//! A label such as `"~F~ile"` shows `File` with `F` as its hotkey; `"~~"`
//! stands for a literal tilde.

use vstd::prelude::*;
use crate::num::{wrap16, lemma_wrapping_add, lemma_wrap16_add_right};
use vstd::std_specs::iter::IteratorSpec;
use unicode_segmentation::UnicodeSegmentation;

verus! {

/// What `unicode_width::UnicodeWidthChar::width` returns for `c`.
pub uninterp spec fn unicode_char_width(c: char) -> Option<usize>;

/// What `c.to_lowercase().next()` (the first char of the lowercase mapping) is for `c`.
pub uninterp spec fn lowercase_first(c: char) -> char;

/// Calls `unicode_width::UnicodeWidthChar::width`.
///
/// Claimed, as its source shows: control codes (below U+0020, and U+007F up to
/// U+00A0) have no width; printable ASCII has width 1; every other char has a
/// width read from a table of `u8` values.
#[verifier::external_body]
fn unicode_width_of(c: char) -> (r: Option<usize>)
    ensures
        r == unicode_char_width(c),
        (c as u32) < 0x20 ==> r is None,
        0x20 <= (c as u32) < 0x7F ==> r == Some(1usize),
        0x7F <= (c as u32) < 0xA0 ==> r is None,
        0xA0 <= (c as u32) ==> r is Some && r->0 <= 255,
{
    unicode_width::UnicodeWidthChar::width(c)
}

/// What `unicode_segmentation::UnicodeSegmentation::graphemes(s, true)` yields
/// for `s`: its extended grapheme clusters in order, each as its chars.
pub uninterp spec fn grapheme_clusters(s: Seq<char>) -> Seq<Seq<char>>;

/// Calls `unicode_segmentation::UnicodeSegmentation::graphemes` for extended
/// clusters and collects the chars of each cluster.
///
/// Claimed: the clusters are a function of `s` alone (fixed Unicode tables
/// decide them).  Nothing is said of where the text is cut.
#[verifier::external_body]
fn graphemes_of(s: &str) -> (r: Vec<Vec<char>>)
    ensures
        r@.map_values(|g: Vec<char>| g@) == grapheme_clusters(s@),
{
    s.graphemes(true).map(|g| g.chars().collect()).collect()
}

/// Calls `char::to_lowercase` and takes the first char it yields (there is always one).
///
/// Claimed: the result is a function of `c`; ASCII capitals map to their small
/// letters, and ASCII small letters and digits map to themselves.
#[verifier::external_body]
fn to_lowercase_first(c: char) -> (r: char)
    ensures
        r == lowercase_first(c),
        'A' <= c <= 'Z' ==> r as u32 == c as u32 + 32,
        ('a' <= c <= 'z') || ('0' <= c <= '9') ==> r == c,
{
    c.to_lowercase().next().unwrap()
}

/// The hotkey a char stands for: its lowercase form (the first char of it).
/// ASCII capitals give their small letters; ASCII small letters and digits
/// stay as they are.
pub fn hotkey_char(c: char) -> (r: char)
    ensures
        r == lowercase_first(c),
        'A' <= c <= 'Z' ==> r as u32 == c as u32 + 32,
        ('a' <= c <= 'z') || ('0' <= c <= '9') ==> r == c,
{
    to_lowercase_first(c)
}

/// Width of a char on screen: `'\0'` and control codes take no room.
pub open spec fn char_width_spec(c: char) -> i16 {
    if c == '\0' {
        0
    } else {
        match unicode_char_width(c) {
            Some(w) => w as i16,
            None => 0,
        }
    }
}

/// Width of a text: the sum of its chars' widths, modulo 2^16.
pub open spec fn text_width_spec(s: Seq<char>) -> i16
    decreases s.len(),
{
    if s.len() == 0 {
        0
    } else {
        wrap16(text_width_spec(s.drop_last()) + char_width_spec(s.last()))
    }
}

pub fn char_width(c: char) -> (r: i16)
    ensures
        r == char_width_spec(c),
        0 <= r <= 255,
{
    if c == '\0' {
        0
    } else {
        match unicode_width_of(c) {
            Some(w) => w as i16,
            None => 0,
        }
    }
}

/// The chars of a string, in order.
pub fn str_chars(s: &str) -> (r: Vec<char>)
    ensures
        r@ == s@,
{
    broadcast use vstd::string::group_string_axioms;
    let mut r: Vec<char> = Vec::new();
    let mut it = s.chars();
    let ghost all = s@;
    loop
        invariant
            it.obeys_prophetic_iter_laws(),
            r@ + it.remaining() == all,
            all == s@,
        ensures
            r@ == all,
        decreases all.len() - r@.len(),
    {
        match it.next() {
            Some(c) => {
                r.push(c);
            },
            None => {
                assert(it.remaining().len() == 0);
                assert(r@ + it.remaining() == r@);
                break;
            },
        }
    }
    r
}

pub fn chars_width(s: &[char]) -> (r: i16)
    ensures
        r == text_width_spec(s@),
{
    let mut w: i16 = 0;
    let mut i: usize = 0;
    while i < s.len()
        invariant
            i <= s@.len(),
            w == text_width_spec(s@.take(i as int)),
        decreases s@.len() - i,
    {
        let c = s[i];
        let cw = char_width(c);
        proof {
            lemma_wrapping_add(w, cw);
            assert(s@.take(i as int + 1).drop_last() == s@.take(i as int));
        }
        w = w.wrapping_add(cw);
        i = i + 1;
    }
    proof {
        assert(s@.take(s@.len() as int) == s@);
    }
    w
}

pub fn text_width(s: &str) -> (r: i16)
    ensures
        r == text_width_spec(s@),
{
    let cs = str_chars(s);
    chars_width(cs.as_slice())
}


// ------------------------------------------------------------------ grapheme widths

/// The room a char takes within a grapheme cluster: its width, a char with
/// no width of its own (a control code) counting as one.
pub open spec fn cluster_char_width(c: char) -> int {
    match unicode_char_width(c) {
        Some(w) => w as int,
        None => 1,
    }
}

/// The room a grapheme cluster takes: the width of its first char that
/// takes room, or none.
pub open spec fn cluster_width(g: Seq<char>) -> int
    decreases g.len(),
{
    if g.len() == 0 {
        0
    } else if cluster_char_width(g[0]) != 0 {
        cluster_char_width(g[0])
    } else {
        cluster_width(g.drop_first())
    }
}

/// The room clusters take side by side, summed modulo 2^16.
pub open spec fn clusters_width(gs: Seq<Seq<char>>) -> i16
    decreases gs.len(),
{
    if gs.len() == 0 {
        0
    } else {
        wrap16(clusters_width(gs.drop_last()) + cluster_width(gs.last()))
    }
}

/// The room a text takes, cluster by cluster.
pub open spec fn graphemes_width_spec(s: Seq<char>) -> i16 {
    clusters_width(grapheme_clusters(s))
}

fn cluster_width_exec(g: &Vec<char>) -> (r: i16)
    ensures
        r == cluster_width(g@),
        0 <= r <= 255,
{
    let mut i: usize = 0;
    proof {
        assert(g@.skip(0) =~= g@);
    }
    while i < g.len()
        invariant
            i <= g@.len(),
            cluster_width(g@) == cluster_width(g@.skip(i as int)),
        decreases g@.len() - i,
    {
        let w = match unicode_width_of(g[i]) {
            Some(w) => w as i16,
            None => 1,
        };
        proof {
            assert(g@.skip(i as int)[0] == g@[i as int]);
            assert(g@.skip(i as int).drop_first() =~= g@.skip(i + 1));
        }
        if w != 0 {
            return w;
        }
        i = i + 1;
    }
    proof {
        assert(g@.skip(i as int).len() == 0);
    }
    0
}

/// The room a text takes on screen, cluster by cluster: each extended
/// grapheme cluster takes the width of its first char that takes room, a
/// control code counting as one; the sum is taken modulo 2^16.
pub fn graphemes_width(text: &str) -> (r: i16)
    ensures
        r == graphemes_width_spec(text@),
{
    let gs = graphemes_of(text);
    let ghost cl = gs@.map_values(|g: Vec<char>| g@);
    let mut w: i16 = 0;
    let mut i: usize = 0;
    while i < gs.len()
        invariant
            i <= gs@.len(),
            cl == gs@.map_values(|g: Vec<char>| g@),
            w == clusters_width(cl.take(i as int)),
        decreases gs@.len() - i,
    {
        let cw = cluster_width_exec(&gs[i]);
        proof {
            lemma_wrapping_add(w, cw);
            assert(cl.take(i as int + 1).drop_last() =~= cl.take(i as int));
            assert(cl.take(i as int + 1).last() == gs@[i as int]@);
        }
        w = w.wrapping_add(cw);
        i = i + 1;
    }
    proof {
        assert(cl.take(gs@.len() as int) =~= cl);
    }
    w
}


// ------------------------------------------------------------------ labels

/// The pieces of `s` between its `~` chars (one more piece than there are `~`).
pub open spec fn split_tilde(s: Seq<char>) -> Seq<Seq<char>>
    decreases s.len(),
{
    if s.len() == 0 {
        seq![Seq::<char>::empty()]
    } else {
        let p = split_tilde(s.drop_last());
        if s.last() == '~' {
            p.push(Seq::<char>::empty())
        } else {
            p.update(p.len() - 1, p.last().push(s.last()))
        }
    }
}

/// What piece `i` shows: an empty piece between two `~` (not the first nor
/// the last piece) stands for a literal `~`.
pub open spec fn shown_piece(segs: Seq<Seq<char>>, i: int) -> Seq<char> {
    if 0 < i && i < segs.len() - 1 && segs[i].len() == 0 {
        seq!['~']
    } else {
        segs[i]
    }
}

/// Whether piece `i` is drawn in the hotkey color.  Each `~` flips the color,
/// and a `~~` pair (an empty inner piece) flips it back after its literal `~`;
/// so a non-empty piece is a hotkey piece exactly at odd positions.
pub open spec fn piece_is_hotkey(segs: Seq<Seq<char>>, i: int) -> bool {
    if i == 0 {
        false
    } else if segs[i].len() > 0 {
        i % 2 == 1
    } else {
        i % 2 == 0
    }
}

/// The hotkey state before piece `i` is read.
pub open spec fn hotkey_before(i: int) -> bool {
    i > 0 && i % 2 == 0
}

/// Width of the first `n` shown pieces, modulo 2^16.
pub open spec fn pieces_width(segs: Seq<Seq<char>>, n: int) -> i16
    decreases n,
{
    if n <= 0 {
        0
    } else {
        wrap16(pieces_width(segs, n - 1) + text_width_spec(shown_piece(segs, n - 1)))
    }
}

/// The first `n` shown pieces, joined.
pub open spec fn pieces_text(segs: Seq<Seq<char>>, n: int) -> Seq<char>
    decreases n,
{
    if n <= 0 {
        Seq::<char>::empty()
    } else {
        pieces_text(segs, n - 1) + shown_piece(segs, n - 1)
    }
}

/// The text a label shows: its pieces with the markers taken out.
pub open spec fn label_text(s: Seq<char>) -> Seq<char> {
    pieces_text(split_tilde(s), split_tilde(s).len() as int)
}

pub open spec fn label_width_spec(s: Seq<char>) -> i16 {
    pieces_width(split_tilde(s), split_tilde(s).len() as int)
}

/// The hotkey found from piece `i` on: the lowercased first char of the first
/// non-empty hotkey piece.
pub open spec fn hotkey_from(segs: Seq<Seq<char>>, i: int) -> Option<char>
    decreases segs.len() - i,
{
    if i < 0 || i >= segs.len() {
        None
    } else if piece_is_hotkey(segs, i) && shown_piece(segs, i).len() > 0 {
        Some(lowercase_first(shown_piece(segs, i)[0]))
    } else {
        hotkey_from(segs, i + 1)
    }
}

pub open spec fn label_spec(s: Seq<char>) -> Option<char> {
    hotkey_from(split_tilde(s), 0)
}

pub proof fn lemma_split_tilde_len(s: Seq<char>)
    ensures
        split_tilde(s).len() >= 1,
    decreases s.len(),
{
    if s.len() > 0 {
        lemma_split_tilde_len(s.drop_last());
    }
}

/// The width of a joined text is the sum of the widths of its parts.
pub proof fn lemma_text_width_concat(a: Seq<char>, b: Seq<char>)
    ensures
        text_width_spec(a + b) == wrap16(text_width_spec(a) + text_width_spec(b)),
    decreases b.len(),
{
    if b.len() == 0 {
        assert(a + b == a);
        assert(text_width_spec(b) == 0);
        crate::num::lemma_wrap16_id(text_width_spec(a) as int);
    } else {
        lemma_text_width_concat(a, b.drop_last());
        assert((a + b).drop_last() == a + b.drop_last());
        assert((a + b).last() == b.last());
        let x = text_width_spec(a) as int;
        let y = text_width_spec(b.drop_last()) as int;
        let c = char_width_spec(b.last()) as int;
        // tw(a+b) = wrap(wrap(x + y) + c) = wrap(x + y + c)
        lemma_wrap16_add_right(x + y, c);
        // tw(b) = wrap(y + c); wrap(x + wrap(y + c)) = wrap(x + y + c)
        lemma_wrap16_add_right(y + c, x);
    }
}

pub proof fn lemma_pieces_width_text(segs: Seq<Seq<char>>, n: int)
    ensures
        pieces_width(segs, n) == text_width_spec(pieces_text(segs, n)),
    decreases n,
{
    if n > 0 {
        lemma_pieces_width_text(segs, n - 1);
        lemma_text_width_concat(pieces_text(segs, n - 1), shown_piece(segs, n - 1));
    }
}

/// A label is as wide as the text it shows.
pub proof fn law_label_width_is_shown_text_width(s: Seq<char>)
    ensures
        label_width_spec(s) == text_width_spec(label_text(s)),
{
    lemma_pieces_width_text(split_tilde(s), split_tilde(s).len() as int);
}

pub open spec fn pieces_view(segs: Seq<Vec<char>>) -> Seq<Seq<char>> {
    segs.map_values(|v: Vec<char>| v@)
}

/// The pieces of `s` between its `~` chars, as vectors.
fn split_pieces(cs: &[char]) -> (segs: Vec<Vec<char>>)
    ensures
        pieces_view(segs@) == split_tilde(cs@),
{
    let mut segs: Vec<Vec<char>> = Vec::new();
    segs.push(Vec::new());
    let mut k: usize = 0;
    proof {
        assert(cs@.take(0) == Seq::<char>::empty());
        assert(pieces_view(segs@) =~= seq![Seq::<char>::empty()]);
    }
    while k < cs.len()
        invariant
            k <= cs@.len(),
            pieces_view(segs@) == split_tilde(cs@.take(k as int)),
            segs@.len() >= 1,
        decreases cs@.len() - k,
    {
        let c = cs[k];
        let ghost before = pieces_view(segs@);
        proof {
            assert(cs@.take(k as int + 1).drop_last() == cs@.take(k as int));
            assert(cs@.take(k as int + 1).last() == c);
        }
        if c == '~' {
            segs.push(Vec::new());
            proof {
                assert(pieces_view(segs@) =~= before.push(Seq::<char>::empty()));
            }
        } else {
            let mut last = segs.pop().unwrap();
            last.push(c);
            segs.push(last);
            proof {
                assert(pieces_view(segs@) =~= before.update(before.len() - 1, before.last().push(c)));
            }
        }
        k = k + 1;
    }
    proof {
        assert(cs@.take(cs@.len() as int) == cs@);
    }
    segs
}

/// The shown piece `i` of `segs`.
fn shown_piece_exec(segs: &Vec<Vec<char>>, i: usize) -> (r: Vec<char>)
    requires
        i < segs@.len(),
    ensures
        r@ == shown_piece(pieces_view(segs@), i as int),
{
    if 0 < i && i < segs.len() - 1 && segs[i].len() == 0 {
        let mut t: Vec<char> = Vec::new();
        t.push('~');
        proof {
            assert(t@ =~= seq!['~']);
        }
        t
    } else {
        let r = segs[i].clone();
        proof {
            assert(r@ == pieces_view(segs@)[i as int]);
        }
        r
    }
}

/// The width of a `~`-marked label: that of the text it shows.
pub fn label_width(text: &str) -> (r: i16)
    ensures
        r == label_width_spec(text@),
{
    let cs = str_chars(text);
    let segs = split_pieces(cs.as_slice());
    let mut width: i16 = 0;
    let mut i: usize = 0;
    while i < segs.len()
        invariant
            i <= segs@.len(),
            pieces_view(segs@) == split_tilde(cs@),
            width == pieces_width(pieces_view(segs@), i as int),
        decreases segs@.len() - i,
    {
        let shown = shown_piece_exec(&segs, i);
        let w = chars_width(shown.as_slice());
        proof {
            lemma_wrapping_add(width, w);
        }
        width = width.wrapping_add(w);
        i = i + 1;
    }
    width
}

/// The hotkey of a `~`-marked label: the first char of its first hotkey
/// piece, lowercased; `None` when it has none.
pub fn label(text: &str) -> (r: Option<char>)
    ensures
        r == label_spec(text@),
{
    let cs = str_chars(text);
    let segs = split_pieces(cs.as_slice());
    let mut hotkey = false;
    let mut i: usize = 0;
    while i < segs.len()
        invariant
            i <= segs@.len(),
            pieces_view(segs@) == split_tilde(cs@),
            hotkey == hotkey_before(i as int),
            cs@ == text@,
            hotkey_from(pieces_view(segs@), 0) == hotkey_from(pieces_view(segs@), i as int),
        decreases segs@.len() - i,
    {
        let first = i == 0;
        let empty = segs[i].len() == 0;
        proof {
            assert(segs[i as int]@ == pieces_view(segs@)[i as int]);
            assert(segs[i as int]@.len() == segs[i as int].len());
        }
        if !first && !empty {
            hotkey = !hotkey;
        }
        let shown = shown_piece_exec(&segs, i);
        assert(hotkey == piece_is_hotkey(pieces_view(segs@), i as int));
        if hotkey && shown.len() > 0 {
            let c = to_lowercase_first(shown[0]);
            proof {
                assert(shown[0] == shown@[0]);
                assert(hotkey_from(pieces_view(segs@), i as int) == Some(lowercase_first(shown@[0])));
            }
            return Some(c);
        }
        if !first && empty {
            hotkey = !hotkey;
        }
        i = i + 1;
    }
    None
}


/// One run of a label as it is drawn: where it starts, whether it is drawn in
/// the hotkey color, and its text.
#[derive(Clone, Debug)]
pub struct LabelSpan {
    pub x: i16,
    pub hotkey: bool,
    pub text: Vec<char>,
}

/// What span `i` of the label `s` drawn from column `x` is.
pub open spec fn label_span_spec(x: i16, s: Seq<char>, i: int, span: LabelSpan) -> bool {
    let segs = split_tilde(s);
    &&& span.x == wrap16(x + pieces_width(segs, i))
    &&& span.hotkey == piece_is_hotkey(segs, i)
    &&& span.text@ == shown_piece(segs, i)
}

/// The runs a label is drawn in, from column `x` on: one for each piece
/// between its `~` markers, each starting where the text before it ends.
pub fn label_spans(x: i16, text: &str) -> (r: Vec<LabelSpan>)
    ensures
        r@.len() == split_tilde(text@).len(),
        forall|i: int| 0 <= i < r@.len() ==> #[trigger] label_span_spec(x, text@, i, r@[i]),
{
    let cs = str_chars(text);
    let segs = split_pieces(cs.as_slice());
    let mut spans: Vec<LabelSpan> = Vec::new();
    let mut at: i16 = x;
    let mut i: usize = 0;
    while i < segs.len()
        invariant
            i <= segs@.len(),
            pieces_view(segs@) == split_tilde(text@),
            cs@ == text@,
            spans@.len() == i,
            at == wrap16(x + pieces_width(pieces_view(segs@), i as int)),
            forall|j: int| 0 <= j < i ==> #[trigger] label_span_spec(x, text@, j, spans@[j]),
        decreases segs@.len() - i,
    {
        let empty = segs[i].len() == 0;
        proof {
            assert(segs[i as int]@ == pieces_view(segs@)[i as int]);
            assert(segs[i as int]@.len() == segs[i as int].len());
        }
        let hotkey = if i == 0 { false } else if !empty { i % 2 == 1 } else { i % 2 == 0 };
        let shown = shown_piece_exec(&segs, i);
        let w = chars_width(shown.as_slice());
        let span = LabelSpan { x: at, hotkey, text: shown };
        spans.push(span);
        proof {
            lemma_wrapping_add(at, w);
            let segv = pieces_view(segs@);
            lemma_wrap16_add_right(x + pieces_width(segv, i as int), w as int);
            lemma_wrap16_add_right(pieces_width(segv, i as int) + w, x as int);
            assert(pieces_width(segv, i as int + 1) == wrap16(pieces_width(segv, i as int) + w));
            crate::num::lemma_wrap16_shift(x as int, pieces_width(segv, i as int) + w);
        }
        at = at.wrapping_add(w);
        i = i + 1;
    }
    spans
}

} // verus!
