//! Palettes: per-window tables that map a color index either to a color or
//! to an index into the parent's palette.

use vstd::prelude::*;
use crate::screen::{Fg, Bg};

verus! {

/// A palette entry: an index into the parent's palette, or a color.
#[derive(Clone, Copy, Debug, PartialEq, Eq, Structural)]
pub enum PaletteEntry {
    Index(u8),
    Color(Fg, Bg),
}

/// A palette; an index past its stored entries maps to itself.
pub struct Palette {
    entries: Vec<PaletteEntry>,
}

/// The entry of `i` in a palette holding `s`.
pub open spec fn palette_get(s: Seq<PaletteEntry>, i: u8) -> PaletteEntry {
    if (i as int) < s.len() {
        s[i as int]
    } else {
        PaletteEntry::Index(i)
    }
}

/// The entries after setting `i` to `o`: missing entries up to `i` are
/// filled with the identity.
pub open spec fn palette_set(s: Seq<PaletteEntry>, i: u8, o: PaletteEntry) -> Seq<PaletteEntry> {
    let n = if (i as int) < s.len() { s.len() as int } else { i as int + 1 };
    Seq::new(n as nat, |k: int| if k == i as int { o } else if k < s.len() { s[k] } else { PaletteEntry::Index(k as u8) })
}

impl View for Palette {
    type V = Seq<PaletteEntry>;

    closed spec fn view(&self) -> Seq<PaletteEntry> {
        self.entries@
    }
}

impl Palette {
    pub fn new() -> (r: Palette)
        ensures
            r@ == Seq::<PaletteEntry>::empty(),
    {
        Palette { entries: Vec::new() }
    }

    pub fn get(&self, i: u8) -> (r: PaletteEntry)
        ensures
            r == palette_get(self@, i),
    {
        if (i as usize) < self.entries.len() {
            self.entries[i as usize]
        } else {
            PaletteEntry::Index(i)
        }
    }

    pub fn set(&mut self, i: u8, o: PaletteEntry)
        ensures
            final(self)@ == palette_set(old(self)@, i, o),
    {
        let ghost s0 = self@;
        let mut k = self.entries.len();
        while k <= i as usize
            invariant
                s0.len() <= k,
                k <= i as usize + 1 || k == s0.len(),
                self.entries@.len() == k,
                forall|j: int| 0 <= j < s0.len() ==> #[trigger] self.entries@[j] == s0[j],
                forall|j: int| s0.len() <= j < k ==> #[trigger] self.entries@[j] == PaletteEntry::Index(j as u8),
            decreases i as usize + 1 - k,
        {
            self.entries.push(PaletteEntry::Index(k as u8));
            k = k + 1;
        }
        self.entries.set(i as usize, o);
        proof {
            assert(self@ =~= palette_set(s0, i, o));
        }
    }
}

/// Setting an entry changes that entry and no other lookup.
pub proof fn law_palette_set_get(s: Seq<PaletteEntry>, i: u8, o: PaletteEntry, j: u8)
    ensures
        palette_get(palette_set(s, i, o), j) == (if j == i { o } else { palette_get(s, j) }),
{
}


pub const COLOR_BACKGROUND: u8 = 10;
pub const COLOR_TEXT: u8 = 11;
pub const COLOR_DISABLED: u8 = 12;
pub const COLOR_HOTKEY: u8 = 13;
pub const COLOR_INPUT_LINE_INVALID: u8 = 14;
pub const COLOR_INPUT_LINE_FOCUSED: u8 = 15;
pub const COLOR_INPUT_LINE_FOCUSED_INVALID: u8 = 16;
pub const COLOR_INPUT_LINE_FOCUSED_DISABLED: u8 = 17;
pub const COLOR_BUTTON_FOCUSED: u8 = 18;
pub const COLOR_BUTTON_FOCUSED_HOTKEY: u8 = 19;
pub const COLOR_BUTTON_FOCUSED_DISABLED: u8 = 20;
pub const COLOR_BUTTON_PRESSED: u8 = 21;
pub const COLOR_FRAME: u8 = 22;

/// Added to a color index, picks the variant of that color used inside a frame.
pub const COLOR_IN_FRAME: u8 = 20;

/// The entries of the root palette: the colors of the standard color indices,
/// and of their variants inside a frame.
pub open spec fn root_palette_entries() -> Seq<PaletteEntry> {
    let s = Seq::<PaletteEntry>::empty();
    let s = palette_set(s, COLOR_BACKGROUND, PaletteEntry::Color(Fg::LightGray, Bg::Transparent));
    let s = palette_set(s, COLOR_TEXT, PaletteEntry::Color(Fg::LightGray, Bg::Transparent));
    let s = palette_set(s, COLOR_DISABLED, PaletteEntry::Color(Fg::DarkGray, Bg::Transparent));
    let s = palette_set(s, COLOR_HOTKEY, PaletteEntry::Color(Fg::White, Bg::Transparent));
    let s = palette_set(s, COLOR_INPUT_LINE_INVALID, PaletteEntry::Color(Fg::Red, Bg::Transparent));
    let s = palette_set(s, COLOR_INPUT_LINE_FOCUSED, PaletteEntry::Color(Fg::LightGray, Bg::Blue));
    let s = palette_set(s, COLOR_INPUT_LINE_FOCUSED_DISABLED, PaletteEntry::Color(Fg::DarkGray, Bg::Blue));
    let s = palette_set(s, COLOR_INPUT_LINE_FOCUSED_INVALID, PaletteEntry::Color(Fg::LightGray, Bg::Red));
    let s = palette_set(s, COLOR_BUTTON_FOCUSED, PaletteEntry::Color(Fg::LightGray, Bg::Blue));
    let s = palette_set(s, COLOR_BUTTON_FOCUSED_HOTKEY, PaletteEntry::Color(Fg::White, Bg::Blue));
    let s = palette_set(s, COLOR_BUTTON_FOCUSED_DISABLED, PaletteEntry::Color(Fg::DarkGray, Bg::Blue));
    let s = palette_set(s, COLOR_BUTTON_PRESSED, PaletteEntry::Color(Fg::Blue, Bg::Transparent));
    let s = palette_set(s, COLOR_FRAME, PaletteEntry::Color(Fg::LightGray, Bg::Black));
    let s = palette_set(s, (COLOR_BACKGROUND + COLOR_IN_FRAME) as u8, PaletteEntry::Color(Fg::LightGray, Bg::Black));
    let s = palette_set(s, (COLOR_TEXT + COLOR_IN_FRAME) as u8, PaletteEntry::Color(Fg::LightGray, Bg::Black));
    let s = palette_set(s, (COLOR_DISABLED + COLOR_IN_FRAME) as u8, PaletteEntry::Color(Fg::DarkGray, Bg::Black));
    let s = palette_set(s, (COLOR_HOTKEY + COLOR_IN_FRAME) as u8, PaletteEntry::Color(Fg::White, Bg::Black));
    let s = palette_set(s, (COLOR_INPUT_LINE_INVALID + COLOR_IN_FRAME) as u8, PaletteEntry::Color(Fg::Red, Bg::Black));
    let s = palette_set(s, (COLOR_INPUT_LINE_FOCUSED + COLOR_IN_FRAME) as u8, PaletteEntry::Color(Fg::LightGray, Bg::Blue));
    let s = palette_set(s, (COLOR_INPUT_LINE_FOCUSED_DISABLED + COLOR_IN_FRAME) as u8, PaletteEntry::Color(Fg::DarkGray, Bg::Blue));
    let s = palette_set(s, (COLOR_INPUT_LINE_FOCUSED_INVALID + COLOR_IN_FRAME) as u8, PaletteEntry::Color(Fg::LightGray, Bg::Red));
    let s = palette_set(s, (COLOR_BUTTON_FOCUSED + COLOR_IN_FRAME) as u8, PaletteEntry::Color(Fg::LightGray, Bg::Blue));
    let s = palette_set(s, (COLOR_BUTTON_FOCUSED_HOTKEY + COLOR_IN_FRAME) as u8, PaletteEntry::Color(Fg::White, Bg::Blue));
    let s = palette_set(s, (COLOR_BUTTON_FOCUSED_DISABLED + COLOR_IN_FRAME) as u8, PaletteEntry::Color(Fg::DarkGray, Bg::Blue));
    let s = palette_set(s, (COLOR_BUTTON_PRESSED + COLOR_IN_FRAME) as u8, PaletteEntry::Color(Fg::Blue, Bg::Black));
    let s = palette_set(s, (COLOR_FRAME + COLOR_IN_FRAME) as u8, PaletteEntry::Color(Fg::LightGray, Bg::Black));
    s
}

pub fn root_palette() -> (r: Palette)
    ensures
        r@ == root_palette_entries(),
{
    let mut p = Palette::new();
    p.set(COLOR_BACKGROUND, PaletteEntry::Color(Fg::LightGray, Bg::Transparent));
    p.set(COLOR_TEXT, PaletteEntry::Color(Fg::LightGray, Bg::Transparent));
    p.set(COLOR_DISABLED, PaletteEntry::Color(Fg::DarkGray, Bg::Transparent));
    p.set(COLOR_HOTKEY, PaletteEntry::Color(Fg::White, Bg::Transparent));
    p.set(COLOR_INPUT_LINE_INVALID, PaletteEntry::Color(Fg::Red, Bg::Transparent));
    p.set(COLOR_INPUT_LINE_FOCUSED, PaletteEntry::Color(Fg::LightGray, Bg::Blue));
    p.set(COLOR_INPUT_LINE_FOCUSED_DISABLED, PaletteEntry::Color(Fg::DarkGray, Bg::Blue));
    p.set(COLOR_INPUT_LINE_FOCUSED_INVALID, PaletteEntry::Color(Fg::LightGray, Bg::Red));
    p.set(COLOR_BUTTON_FOCUSED, PaletteEntry::Color(Fg::LightGray, Bg::Blue));
    p.set(COLOR_BUTTON_FOCUSED_HOTKEY, PaletteEntry::Color(Fg::White, Bg::Blue));
    p.set(COLOR_BUTTON_FOCUSED_DISABLED, PaletteEntry::Color(Fg::DarkGray, Bg::Blue));
    p.set(COLOR_BUTTON_PRESSED, PaletteEntry::Color(Fg::Blue, Bg::Transparent));
    p.set(COLOR_FRAME, PaletteEntry::Color(Fg::LightGray, Bg::Black));
    p.set(COLOR_BACKGROUND + COLOR_IN_FRAME, PaletteEntry::Color(Fg::LightGray, Bg::Black));
    p.set(COLOR_TEXT + COLOR_IN_FRAME, PaletteEntry::Color(Fg::LightGray, Bg::Black));
    p.set(COLOR_DISABLED + COLOR_IN_FRAME, PaletteEntry::Color(Fg::DarkGray, Bg::Black));
    p.set(COLOR_HOTKEY + COLOR_IN_FRAME, PaletteEntry::Color(Fg::White, Bg::Black));
    p.set(COLOR_INPUT_LINE_INVALID + COLOR_IN_FRAME, PaletteEntry::Color(Fg::Red, Bg::Black));
    p.set(COLOR_INPUT_LINE_FOCUSED + COLOR_IN_FRAME, PaletteEntry::Color(Fg::LightGray, Bg::Blue));
    p.set(COLOR_INPUT_LINE_FOCUSED_DISABLED + COLOR_IN_FRAME, PaletteEntry::Color(Fg::DarkGray, Bg::Blue));
    p.set(COLOR_INPUT_LINE_FOCUSED_INVALID + COLOR_IN_FRAME, PaletteEntry::Color(Fg::LightGray, Bg::Red));
    p.set(COLOR_BUTTON_FOCUSED + COLOR_IN_FRAME, PaletteEntry::Color(Fg::LightGray, Bg::Blue));
    p.set(COLOR_BUTTON_FOCUSED_HOTKEY + COLOR_IN_FRAME, PaletteEntry::Color(Fg::White, Bg::Blue));
    p.set(COLOR_BUTTON_FOCUSED_DISABLED + COLOR_IN_FRAME, PaletteEntry::Color(Fg::DarkGray, Bg::Blue));
    p.set(COLOR_BUTTON_PRESSED + COLOR_IN_FRAME, PaletteEntry::Color(Fg::Blue, Bg::Black));
    p.set(COLOR_FRAME + COLOR_IN_FRAME, PaletteEntry::Color(Fg::LightGray, Bg::Black));
    p
}

} // verus!
