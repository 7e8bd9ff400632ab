//! Per-window layout: invalidation, and the two layout passes.
//!
//! A pass over a window has a part that this module computes and a part that
//! the window's widget computes.  `measure_begin` says what to ask the widget
//! (or that nothing needs asking), `measure_end` takes the widget's answer;
//! `arrange_begin` and `arrange_end` do the same for arranging.

use vstd::prelude::*;
use crate::geom::{
    Point, Vector, Rect, Thickness, HAlign, VAlign, vec_max, vec_min, thickness_shrink_size,
    thickness_expand_size, thickness_shrink_rect, thickness_align, rect_intersect,
};
use crate::tree::{WindowTree, Window, Props, Visibility};
use crate::palette::{PaletteEntry, palette_get};
use crate::screen::{Fg, Bg, Key};
use crate::geom::vec_add;

verus! {

/// The windows whose cached measure (`arrange` false) or arrange
/// (`arrange` true) size an invalidation that starts at `w` clears: `w`,
/// then its parent as long as the window just cleared held a cached size.
pub open spec fn in_invalidation<W>(t: WindowTree<W>, v: usize, w: usize, arrange: bool) -> bool
    decreases w,
{
    if v == w {
        true
    } else {
        let cached = if arrange { t.props_of(w).arrange_size is Some } else { t.props_of(w).measure_size is Some };
        match t.parent_of(w) {
            Some(p) => cached && p < w && in_invalidation(t, v, p, arrange),
            None => false,
        }
    }
}

pub open spec fn cleared(p: Props, arrange: bool) -> Props {
    if arrange {
        Props { arrange_size: None, ..p }
    } else {
        Props { measure_size: None, ..p }
    }
}

pub proof fn lemma_invalidation_le<W>(t: WindowTree<W>, v: usize, w: usize, arrange: bool)
    requires
        in_invalidation(t, v, w, arrange),
    ensures
        v <= w,
    decreases w,
{
    if v != w {
        let p = t.parent_of(w)->0;
        lemma_invalidation_le(t, v, p, arrange);
    }
}

/// The smallest size a window accepts.
pub open spec fn min_size(p: Props) -> Vector {
    Vector {
        x: match p.width { Some(w) => w, None => p.min_width },
        y: match p.height { Some(h) => h, None => p.min_height },
    }
}

/// The largest size a window accepts.
pub open spec fn max_size(p: Props) -> Vector {
    Vector {
        x: match p.width { Some(w) => w, None => p.max_width },
        y: match p.height { Some(h) => h, None => p.max_height },
    }
}

/// `s` limited by the window's largest size and then raised to its smallest.
pub open spec fn clamp_size(p: Props, s: Vector) -> Vector {
    vec_max(vec_min(s, max_size(p)), min_size(p))
}

/// The size offered to a window's widget when the window is offered
/// `aw` by `ah`; an unbounded direction stays unbounded.
pub open spec fn measure_request(p: Props, aw: Option<i16>, ah: Option<i16>) -> (Option<i16>, Option<i16>) {
    let avail = Vector {
        x: match aw { Some(x) => x, None => 0 },
        y: match ah { Some(y) => y, None => 0 },
    };
    let ms = clamp_size(p, thickness_shrink_size(p.margin, avail));
    (
        match aw { Some(_) => Some(ms.x), None => None },
        match ah { Some(_) => Some(ms.y), None => None },
    )
}

/// The size given to a window's widget to arrange in, for final bounds `fb`.
pub open spec fn arrange_request(p: Props, fb: Rect) -> Vector {
    let s = Vector {
        x: if p.h_align is None { fb.size.x } else { p.desired_size.x },
        y: if p.v_align is None { fb.size.y } else { p.desired_size.y },
    };
    clamp_size(p, thickness_shrink_size(p.margin, s))
}

/// Where an arranged window lands within its final bounds `fb`.
pub open spec fn arranged_bounds(p: Props, fb: Rect) -> Rect {
    let margined = thickness_shrink_rect(p.margin, fb);
    let h = match p.h_align { Some(h) => h, None => HAlign::Left };
    let v = match p.v_align { Some(v) => v, None => VAlign::Top };
    rect_intersect(
        thickness_shrink_rect(thickness_align(p.arranged_size, margined.size, h, v), margined),
        margined,
    )
}

pub open spec fn zero_rect() -> Rect {
    Rect { tl: Point { x: 0, y: 0 }, size: Vector { x: 0, y: 0 } }
}

fn clamp_size_exec(p: &Props, s: Vector) -> (r: Vector)
    ensures
        r == clamp_size(*p, s),
{
    let min = Vector {
        x: match p.width { Some(w) => w, None => p.min_width },
        y: match p.height { Some(h) => h, None => p.min_height },
    };
    let max = Vector {
        x: match p.width { Some(w) => w, None => p.max_width },
        y: match p.height { Some(h) => h, None => p.max_height },
    };
    s.min(max).max(min)
}

impl<W> WindowTree<W> {
    /// Clears the cached measure (or arrange) size of `w`, and of its
    /// ancestors up to the first one that had none cached.
    pub fn invalidate(&mut self, w: Window, arrange: bool)
        requires
            old(self).wf(),
            old(self).live(w.0),
        ensures
            final(self).wf(),
            final(self).same_structure(*old(self)),
            forall|v: usize| v < old(self).slots() ==> #[trigger] final(self).props_of(v) == (
                if in_invalidation(*old(self), v, w.0, arrange) {
                    cleared(old(self).props_of(v), arrange)
                } else {
                    old(self).props_of(v)
                }),
            forall|v: usize| #[trigger] final(self).palette_of(v) == old(self).palette_of(v),
            final(self).state_spec() == old(self).state_spec(),
    {
        let ghost o = *self;
        let ghost mut done: Set<usize> = Set::empty();
        let mut cur = w;
        proof {
            o.lemma_same_structure_refl();
        }
        loop
            invariant_except_break
                forall|v: usize| done.contains(v) ==> v > cur.0,
            invariant
                o.wf(),
                self.wf(),
                self.same_structure(o),
                self.live(cur.0),
                forall|v: usize| #[trigger] in_invalidation(o, v, w.0, arrange)
                    <==> (done.contains(v) || in_invalidation(o, v, cur.0, arrange)),
                forall|v: usize| v < o.slots() ==> #[trigger] self.props_of(v) == (
                    if done.contains(v) { cleared(o.props_of(v), arrange) } else { o.props_of(v) }),
                forall|v: usize| #[trigger] self.palette_of(v) == o.palette_of(v),
                self.state_spec() == o.state_spec(),
            ensures
                forall|v: usize| #[trigger] in_invalidation(o, v, w.0, arrange) <==> done.contains(v),
            decreases cur.0,
        {
            proof {
                self.lemma_same_structure(o);
                self.lemma_live(cur.0);
            }
            let p = self.get_props(cur);
            let cached = if arrange { p.arrange_size.is_some() } else { p.measure_size.is_some() };
            let np = if arrange { Props { arrange_size: None, ..p } } else { Props { measure_size: None, ..p } };
            let ghost before = *self;
            self.set_props(cur, np);
            proof {
                self.lemma_same_structure_trans(before, o);
                self.lemma_same_structure(o);
                assert(!done.contains(cur.0));
                assert(o.props_of(cur.0) == p);
                done = done.insert(cur.0);
            }
            let parent = self.parent(cur);
            if !cached {
                proof {
                    assert forall|v: usize| #[trigger] in_invalidation(o, v, w.0, arrange)
                        <==> done.contains(v) by {
                        if in_invalidation(o, v, cur.0, arrange) && v != cur.0 {
                            assert(false);
                        }
                    }
                }
                break;
            }
            match parent {
                None => {
                    proof {
                        assert forall|v: usize| #[trigger] in_invalidation(o, v, w.0, arrange)
                            <==> done.contains(v) by {
                            if in_invalidation(o, v, cur.0, arrange) && v != cur.0 {
                                assert(false);
                            }
                        }
                    }
                    break;
                },
                Some(q) => {
                    proof {
                        assert(q.0 < cur.0);
                        assert forall|v: usize| #[trigger] in_invalidation(o, v, w.0, arrange)
                            <==> (done.contains(v) || in_invalidation(o, v, q.0, arrange)) by {
                            if in_invalidation(o, v, q.0, arrange) {
                                lemma_invalidation_le(o, v, q.0, arrange);
                            }
                        }
                    }
                    cur = q;
                },
            }
        }
        proof {
            assert forall|v: usize| v < o.slots() implies #[trigger] self.props_of(v) == (
                if in_invalidation(o, v, w.0, arrange) { cleared(o.props_of(v), arrange) } else { o.props_of(v) }) by {
                assert(in_invalidation(o, v, w.0, arrange) <==> done.contains(v));
            }
        }
    }

    pub fn invalidate_measure(&mut self, w: Window)
        requires
            old(self).wf(),
            old(self).live(w.0),
        ensures
            final(self).wf(),
            final(self).same_structure(*old(self)),
            forall|v: usize| v < old(self).slots() ==> #[trigger] final(self).props_of(v) == (
                if in_invalidation(*old(self), v, w.0, false) {
                    cleared(old(self).props_of(v), false)
                } else {
                    old(self).props_of(v)
                }),
            forall|v: usize| #[trigger] final(self).palette_of(v) == old(self).palette_of(v),
            final(self).state_spec() == old(self).state_spec(),
    {
        self.invalidate(w, false);
    }

    pub fn invalidate_arrange(&mut self, w: Window)
        requires
            old(self).wf(),
            old(self).live(w.0),
        ensures
            final(self).wf(),
            final(self).same_structure(*old(self)),
            forall|v: usize| v < old(self).slots() ==> #[trigger] final(self).props_of(v) == (
                if in_invalidation(*old(self), v, w.0, true) {
                    cleared(old(self).props_of(v), true)
                } else {
                    old(self).props_of(v)
                }),
            forall|v: usize| #[trigger] final(self).palette_of(v) == old(self).palette_of(v),
            final(self).state_spec() == old(self).state_spec(),
    {
        self.invalidate(w, true);
    }

    /// The first half of measuring `w` when it is offered `aw` by `ah`:
    /// returns the size to ask its widget to measure in, or `None` when the
    /// widget need not be asked (the window is collapsed, or was measured
    /// for that size already).
    pub fn measure_begin(&mut self, w: Window, aw: Option<i16>, ah: Option<i16>) -> (r: Option<(Option<i16>, Option<i16>)>)
        requires
            old(self).wf(),
            old(self).live(w.0),
            old(self).props_of(w.0).margin.wf(),
        ensures
            final(self).wf(),
            final(self).same_structure(*old(self)),
            forall|v: usize| v != w.0 && v < old(self).slots() ==> #[trigger] final(self).props_of(v) == old(self).props_of(v),
            forall|v: usize| #[trigger] final(self).palette_of(v) == old(self).palette_of(v),
            final(self).state_spec() == old(self).state_spec(),
            ({
                let p = old(self).props_of(w.0);
                let req = measure_request(p, aw, ah);
                if p.visibility == Visibility::Collapsed {
                    r is None && final(self).props_of(w.0) == (Props { desired_size: Vector { x: 0, y: 0 }, ..p })
                } else if p.measure_size == Some(req) {
                    r is None && final(self).props_of(w.0) == p
                } else {
                    r == Some(req) && final(self).props_of(w.0) == (Props { measure_size: Some(req), ..p })
                }
            }),
    {
        let p = self.get_props(w);
        proof {
            old(self).lemma_same_structure_refl();
        }
        if matches!(p.visibility, Visibility::Collapsed) {
            self.set_props(w, Props { desired_size: Vector { x: 0, y: 0 }, ..p });
            return None;
        }
        let avail = Vector {
            x: match aw { Some(x) => x, None => 0 },
            y: match ah { Some(y) => y, None => 0 },
        };
        let ms = clamp_size_exec(&p, p.margin.shrink_rect_size(avail));
        let req = (
            match aw { Some(_) => Some(ms.x), None => None },
            match ah { Some(_) => Some(ms.y), None => None },
        );
        let same = match p.measure_size {
            Some(m) => m.0 == req.0 && m.1 == req.1,
            None => false,
        };
        if same {
            return None;
        }
        self.set_props(w, Props { measure_size: Some(req), ..p });
        Some(req)
    }

    /// The second half of measuring `w`: its widget measured `measured`.
    /// Sets the desired size and clears the cached arrange sizes from `w` up.
    pub fn measure_end(&mut self, w: Window, measured: Vector)
        requires
            old(self).wf(),
            old(self).live(w.0),
            old(self).props_of(w.0).margin.wf(),
        ensures
            final(self).wf(),
            final(self).same_structure(*old(self)),
            ({
                let p = old(self).props_of(w.0);
                final(self).props_of(w.0) == (Props {
                    desired_size: thickness_expand_size(p.margin, clamp_size(p, measured)),
                    arrange_size: None,
                    ..p
                })
            }),
            forall|v: usize| v != w.0 && v < old(self).slots() ==> #[trigger] final(self).props_of(v) == (
                if in_invalidation(*old(self), v, w.0, true) {
                    cleared(old(self).props_of(v), true)
                } else {
                    old(self).props_of(v)
                }),
            forall|v: usize| #[trigger] final(self).palette_of(v) == old(self).palette_of(v),
            final(self).state_spec() == old(self).state_spec(),
    {
        let p = self.get_props(w);
        let measured = clamp_size_exec(&p, measured);
        let desired = p.margin.expand_rect_size(measured);
        self.set_props(w, Props { desired_size: desired, ..p });
        let ghost mid = *self;
        proof {
            self.lemma_same_structure(*old(self));
            old(self).lemma_live(w.0);
            assert forall|v: usize| #[trigger] in_invalidation(mid, v, w.0, true)
                == in_invalidation(*old(self), v, w.0, true) by {
                lemma_invalidation_same(mid, *old(self), v, w.0, true);
            }
        }
        self.invalidate(w, true);
        proof {
            self.lemma_same_structure_trans(mid, *old(self));
            assert(in_invalidation(mid, w.0, w.0, true));
            assert(self.props_of(w.0) == cleared(mid.props_of(w.0), true));
        }
    }

    /// The first half of arranging `w` in the final bounds `fb`: returns the
    /// rectangle to ask its widget to arrange in, or `None` when the widget
    /// need not be asked (the window is collapsed, or was arranged for that
    /// size already).
    pub fn arrange_begin(&mut self, w: Window, fb: Rect) -> (r: Option<Rect>)
        requires
            old(self).wf(),
            old(self).live(w.0),
            old(self).props_of(w.0).margin.wf(),
        ensures
            final(self).wf(),
            final(self).same_structure(*old(self)),
            forall|v: usize| v != w.0 && v < old(self).slots() ==> #[trigger] final(self).props_of(v) == old(self).props_of(v),
            forall|v: usize| #[trigger] final(self).palette_of(v) == old(self).palette_of(v),
            final(self).state_spec() == old(self).state_spec(),
            ({
                let p = old(self).props_of(w.0);
                let req = arrange_request(p, fb);
                if p.visibility == Visibility::Collapsed || p.arrange_size == Some(req) {
                    r is None && final(self).props_of(w.0) == p
                } else {
                    r == Some(Rect { tl: Point { x: 0, y: 0 }, size: req })
                        && final(self).props_of(w.0) == (Props { arrange_size: Some(req), ..p })
                }
            }),
    {
        let p = self.get_props(w);
        proof {
            old(self).lemma_same_structure_refl();
        }
        if matches!(p.visibility, Visibility::Collapsed) {
            return None;
        }
        let s = Vector {
            x: if p.h_align.is_none() { fb.size.x } else { p.desired_size.x },
            y: if p.v_align.is_none() { fb.size.y } else { p.desired_size.y },
        };
        let req = clamp_size_exec(&p, p.margin.shrink_rect_size(s));
        let same = match p.arrange_size {
            Some(a) => a.x == req.x && a.y == req.y,
            None => false,
        };
        if same {
            return None;
        }
        self.set_props(w, Props { arrange_size: Some(req), ..p });
        Some(Rect { tl: Point { x: 0, y: 0 }, size: req })
    }

    /// The second half of arranging `w` in the final bounds `fb`; `arranged`
    /// is what its widget answered, if it was asked.  Places the window and
    /// returns the bounds it had before (the screen must be redrawn in both).
    pub fn arrange_end(&mut self, w: Window, fb: Rect, arranged: Option<Vector>) -> (old_bounds: Rect)
        requires
            old(self).wf(),
            old(self).live(w.0),
            old(self).props_of(w.0).margin.wf(),
        ensures
            final(self).wf(),
            final(self).same_structure(*old(self)),
            forall|v: usize| v != w.0 && v < old(self).slots() ==> #[trigger] final(self).props_of(v) == old(self).props_of(v),
            forall|v: usize| #[trigger] final(self).palette_of(v) == old(self).palette_of(v),
            final(self).state_spec() == old(self).state_spec(),
            old_bounds == old(self).props_of(w.0).window_bounds,
            ({
                let p = old(self).props_of(w.0);
                let p1 = match arranged {
                    Some(a) => Props { arranged_size: clamp_size(p, a), ..p },
                    None => p,
                };
                if p.visibility == Visibility::Collapsed {
                    final(self).props_of(w.0) == (Props { render_bounds: zero_rect(), window_bounds: zero_rect(), ..p })
                } else {
                    final(self).props_of(w.0) == (Props {
                        render_bounds: fb,
                        window_bounds: arranged_bounds(p1, fb),
                        ..p1
                    })
                }
            }),
    {
        let p = self.get_props(w);
        let old_bounds = p.window_bounds;
        let zero = Rect { tl: Point { x: 0, y: 0 }, size: Vector { x: 0, y: 0 } };
        if matches!(p.visibility, Visibility::Collapsed) {
            self.set_props(w, Props { render_bounds: zero, window_bounds: zero, ..p });
            return old_bounds;
        }
        let p1 = match arranged {
            Some(a) => Props { arranged_size: clamp_size_exec(&p, a), ..p },
            None => p,
        };
        let margined = p1.margin.shrink_rect(fb);
        let h = match p1.h_align { Some(h) => h, None => HAlign::Left };
        let v = match p1.v_align { Some(v) => v, None => VAlign::Top };
        let nb = Thickness::align(p1.arranged_size, margined.size, h, v).shrink_rect(margined).intersect(margined);
        self.set_props(w, Props { render_bounds: fb, window_bounds: nb, ..p1 });
        old_bounds
    }
}

/// The invalidation chain depends only on parents and on the cached sizes.
pub proof fn lemma_invalidation_same<W>(a: WindowTree<W>, b: WindowTree<W>, v: usize, w: usize, arrange: bool)
    requires
        a.same_structure(b),
        a.wf(),
        w < a.slots(),
        forall|u: usize| u < a.slots() ==> (#[trigger] a.props_of(u)).arrange_size == b.props_of(u).arrange_size,
        forall|u: usize| u < a.slots() ==> (#[trigger] a.props_of(u)).measure_size == b.props_of(u).measure_size,
    ensures
        in_invalidation(a, v, w, arrange) == in_invalidation(b, v, w, arrange),
    decreases w,
{
    a.lemma_same_structure(b);
    if v != w {
        match a.parent_of(w) {
            Some(p) => {
                if p < w {
                    lemma_invalidation_same(a, b, v, p, arrange);
                }
            },
            None => {},
        }
    }
}


/// A direction in which focus moves between windows.
#[derive(Clone, Copy, Debug, PartialEq, Eq, Structural)]
pub enum FocusDir {
    Right,
    Left,
    Up,
    Down,
}

pub open spec fn opposite(d: FocusDir) -> FocusDir {
    match d {
        FocusDir::Right => FocusDir::Left,
        FocusDir::Left => FocusDir::Right,
        FocusDir::Up => FocusDir::Down,
        FocusDir::Down => FocusDir::Up,
    }
}

pub open spec fn focus_link(p: Props, d: FocusDir) -> usize {
    match d {
        FocusDir::Right => p.focus_right,
        FocusDir::Left => p.focus_left,
        FocusDir::Up => p.focus_up,
        FocusDir::Down => p.focus_down,
    }
}

pub open spec fn with_focus_link(p: Props, d: FocusDir, v: usize) -> Props {
    match d {
        FocusDir::Right => Props { focus_right: v, ..p },
        FocusDir::Left => Props { focus_left: v, ..p },
        FocusDir::Up => Props { focus_up: v, ..p },
        FocusDir::Down => Props { focus_down: v, ..p },
    }
}

fn with_focus_link_exec(p: Props, d: FocusDir, v: usize) -> (r: Props)
    ensures
        r == with_focus_link(p, d, v),
{
    match d {
        FocusDir::Right => Props { focus_right: v, ..p },
        FocusDir::Left => Props { focus_left: v, ..p },
        FocusDir::Up => Props { focus_up: v, ..p },
        FocusDir::Down => Props { focus_down: v, ..p },
    }
}

fn opposite_exec(d: FocusDir) -> (r: FocusDir)
    ensures
        r == opposite(d),
{
    match d {
        FocusDir::Right => FocusDir::Left,
        FocusDir::Left => FocusDir::Right,
        FocusDir::Up => FocusDir::Down,
        FocusDir::Down => FocusDir::Up,
    }
}

/// The color of index `i` for window `w`: look `i` up in the palette of `w`;
/// an index entry sends the lookup on to the parent, and at the top to the
/// root palette, where a missing color reads as red on green.
pub open spec fn color_of<W>(t: WindowTree<W>, w: usize, i: u8) -> (Fg, Bg)
    decreases w,
{
    match palette_get(t.palette_of(w), i) {
        PaletteEntry::Color(f, b) => (f, b),
        PaletteEntry::Index(j) => match t.parent_of(w) {
            Some(p) => if p < w { color_of(t, p, j) } else { (Fg::Red, Bg::Green) },
            None => match palette_get(t.root_palette_view(), j) {
                PaletteEntry::Color(f, b) => (f, b),
                PaletteEntry::Index(_) => (Fg::Red, Bg::Green),
            },
        },
    }
}

/// What a change of visibility asks to be redone.
#[derive(Clone, Copy, Debug, PartialEq, Eq, Structural)]
pub enum VisibilityEffect {
    /// Nothing changed.
    Nothing,
    /// The window must be drawn again.
    Render,
    /// The parent's layout was invalidated.
    ParentMeasure,
}

pub open spec fn visibility_effect(old: Visibility, new: Visibility) -> VisibilityEffect {
    match (old, new) {
        (Visibility::Visible, Visibility::Hidden) => VisibilityEffect::Render,
        (Visibility::Hidden, Visibility::Visible) => VisibilityEffect::Render,
        (Visibility::Visible, Visibility::Collapsed) => VisibilityEffect::ParentMeasure,
        (Visibility::Collapsed, Visibility::Visible) => VisibilityEffect::ParentMeasure,
        (Visibility::Collapsed, Visibility::Hidden) => VisibilityEffect::ParentMeasure,
        (Visibility::Hidden, Visibility::Collapsed) => VisibilityEffect::ParentMeasure,
        _ => VisibilityEffect::Nothing,
    }
}

/// The sum of the window-bounds positions of `w` and its ancestors: the
/// offset of `w`'s inside from the screen origin.
pub open spec fn offset_of<W>(t: WindowTree<W>, w: usize) -> Vector
    decreases w,
{
    let tl = t.props_of(w).window_bounds.tl;
    let here = Vector { x: tl.x, y: tl.y };
    match t.parent_of(w) {
        Some(p) => if p < w { vec_add(here, offset_of(t, p)) } else { here },
        None => here,
    }
}

impl<W> WindowTree<W> {
    /// Links `w` to `v` in direction `d`; when that changes the link, also
    /// links `v` back to `w` in the opposite direction.
    pub fn set_focus_link(&mut self, w: Window, v: Window, d: FocusDir)
        requires
            old(self).wf(),
            old(self).live(w.0),
            old(self).live(v.0),
        ensures
            final(self).wf(),
            final(self).same_structure(*old(self)),
            ({
                let pw = with_focus_link(old(self).props_of(w.0), d, v.0);
                if focus_link(old(self).props_of(w.0), d) == v.0 {
                    &&& final(self).props_of(w.0) == pw
                    &&& forall|u: usize| u != w.0 && u < old(self).slots() ==> #[trigger] final(self).props_of(u) == old(self).props_of(u)
                } else if v == w {
                    &&& final(self).props_of(w.0) == with_focus_link(pw, opposite(d), w.0)
                    &&& forall|u: usize| u != w.0 && u < old(self).slots() ==> #[trigger] final(self).props_of(u) == old(self).props_of(u)
                } else {
                    &&& final(self).props_of(w.0) == pw
                    &&& final(self).props_of(v.0) == with_focus_link(old(self).props_of(v.0), opposite(d), w.0)
                    &&& forall|u: usize| u != w.0 && u != v.0 && u < old(self).slots() ==> #[trigger] final(self).props_of(u) == old(self).props_of(u)
                }
            }),
            forall|u: usize| #[trigger] final(self).palette_of(u) == old(self).palette_of(u),
            final(self).state_spec() == old(self).state_spec(),
    {
        proof {
            old(self).lemma_same_structure_refl();
            old(self).lemma_live(w.0);
            old(self).lemma_live(v.0);
        }
        let pw = self.get_props(w);
        let changed = match d {
            FocusDir::Right => pw.focus_right != v.0,
            FocusDir::Left => pw.focus_left != v.0,
            FocusDir::Up => pw.focus_up != v.0,
            FocusDir::Down => pw.focus_down != v.0,
        };
        self.set_props(w, with_focus_link_exec(pw, d, v.0));
        if changed {
            let ghost mid = *self;
            proof {
                self.lemma_same_structure(*old(self));
            }
            let pv = self.get_props(v);
            self.set_props(v, with_focus_link_exec(pv, opposite_exec(d), w.0));
            proof {
                self.lemma_same_structure_trans(mid, *old(self));
            }
        }
    }

    pub fn set_focus_right(&mut self, w: Window, v: Window)
        requires
            old(self).wf(),
            old(self).live(w.0),
            old(self).live(v.0),
        ensures
            final(self).wf(),
            final(self).same_structure(*old(self)),
            final(self).props_of(w.0).focus_right == v.0,
            old(self).props_of(w.0).focus_right != v.0 ==> final(self).props_of(v.0).focus_left == w.0,
            forall|u: usize| u != w.0 && u != v.0 && u < old(self).slots() ==> #[trigger] final(self).props_of(u) == old(self).props_of(u),
    {
        self.set_focus_link(w, v, FocusDir::Right);
    }

    pub fn set_focus_left(&mut self, w: Window, v: Window)
        requires
            old(self).wf(),
            old(self).live(w.0),
            old(self).live(v.0),
        ensures
            final(self).wf(),
            final(self).same_structure(*old(self)),
            final(self).props_of(w.0).focus_left == v.0,
            old(self).props_of(w.0).focus_left != v.0 ==> final(self).props_of(v.0).focus_right == w.0,
            forall|u: usize| u != w.0 && u != v.0 && u < old(self).slots() ==> #[trigger] final(self).props_of(u) == old(self).props_of(u),
    {
        self.set_focus_link(w, v, FocusDir::Left);
    }

    pub fn set_focus_up(&mut self, w: Window, v: Window)
        requires
            old(self).wf(),
            old(self).live(w.0),
            old(self).live(v.0),
        ensures
            final(self).wf(),
            final(self).same_structure(*old(self)),
            final(self).props_of(w.0).focus_up == v.0,
            old(self).props_of(w.0).focus_up != v.0 ==> final(self).props_of(v.0).focus_down == w.0,
            forall|u: usize| u != w.0 && u != v.0 && u < old(self).slots() ==> #[trigger] final(self).props_of(u) == old(self).props_of(u),
    {
        self.set_focus_link(w, v, FocusDir::Up);
    }

    pub fn set_focus_down(&mut self, w: Window, v: Window)
        requires
            old(self).wf(),
            old(self).live(w.0),
            old(self).live(v.0),
        ensures
            final(self).wf(),
            final(self).same_structure(*old(self)),
            final(self).props_of(w.0).focus_down == v.0,
            old(self).props_of(w.0).focus_down != v.0 ==> final(self).props_of(v.0).focus_up == w.0,
            forall|u: usize| u != w.0 && u != v.0 && u < old(self).slots() ==> #[trigger] final(self).props_of(u) == old(self).props_of(u),
    {
        self.set_focus_link(w, v, FocusDir::Down);
    }

    pub fn set_focus_tab(&mut self, w: Window, v: Window)
        requires
            old(self).wf(),
            old(self).live(w.0),
        ensures
            final(self).wf(),
            final(self).same_structure(*old(self)),
            final(self).props_of(w.0) == (Props { focus_tab: v.0, ..old(self).props_of(w.0) }),
            forall|u: usize| u != w.0 && u < old(self).slots() ==> #[trigger] final(self).props_of(u) == old(self).props_of(u),
    {
        let p = self.get_props(w);
        self.set_props(w, Props { focus_tab: v.0, ..p });
    }

    pub fn is_focused(&self, w: Window) -> (r: bool)
        ensures
            r == (self.primary() == Some(w.0) || self.secondary() == Some(w.0)),
    {
        let p = self.primary_focused();
        let s = self.secondary_focused();
        p == Some(w) || s == Some(w)
    }

    /// Asks for `w` to get (`value`) or to lose the primary focus at the next update.
    pub fn set_focused_primary(&mut self, w: Window, value: bool)
        requires
            old(self).wf(),
        ensures
            final(self).wf(),
            final(self).same_structure(*old(self)),
            final(self).primary() == old(self).primary(),
            final(self).secondary() == old(self).secondary(),
            final(self).next_secondary() == old(self).next_secondary(),
            final(self).next_primary() == (
                if value {
                    Some(Some(w.0))
                } else if old(self).next_primary() == Some(Some(w.0))
                    || (old(self).next_primary() is None && old(self).primary() == Some(w.0)) {
                    Some(None::<usize>)
                } else {
                    old(self).next_primary()
                }),
            forall|u: usize| #[trigger] final(self).props_of(u) == old(self).props_of(u),
    {
        let primary = match self.primary_focused() { None => None, Some(p) => Some(p.0) };
        let secondary = match self.secondary_focused() { None => None, Some(p) => Some(p.0) };
        let next_primary = self.next_primary_focused();
        let next_secondary = self.next_secondary_focused();
        let np = if value {
            Some(Some(w.0))
        } else if next_primary == Some(Some(w.0)) || (next_primary.is_none() && primary == Some(w.0)) {
            Some(None)
        } else {
            next_primary
        };
        self.set_focus_state(primary, secondary, np, next_secondary);
    }

    /// Asks for `w` to get (`value`) or to lose the secondary focus at the next update.
    pub fn set_focused_secondary(&mut self, w: Window, value: bool)
        requires
            old(self).wf(),
        ensures
            final(self).wf(),
            final(self).same_structure(*old(self)),
            final(self).primary() == old(self).primary(),
            final(self).secondary() == old(self).secondary(),
            final(self).next_primary() == old(self).next_primary(),
            final(self).next_secondary() == (
                if value {
                    Some(Some(w.0))
                } else if old(self).next_secondary() == Some(Some(w.0))
                    || (old(self).next_secondary() is None && old(self).secondary() == Some(w.0)) {
                    Some(None::<usize>)
                } else {
                    old(self).next_secondary()
                }),
            forall|u: usize| #[trigger] final(self).props_of(u) == old(self).props_of(u),
    {
        let primary = match self.primary_focused() { None => None, Some(p) => Some(p.0) };
        let secondary = match self.secondary_focused() { None => None, Some(p) => Some(p.0) };
        let next_primary = self.next_primary_focused();
        let next_secondary = self.next_secondary_focused();
        let ns = if value {
            Some(Some(w.0))
        } else if next_secondary == Some(Some(w.0)) || (next_secondary.is_none() && secondary == Some(w.0)) {
            Some(None)
        } else {
            next_secondary
        };
        self.set_focus_state(primary, secondary, next_primary, ns);
    }

    /// The color of index `i` for `w`, looked up through the palettes of
    /// `w`, its ancestors and the root.
    pub fn color(&self, w: Window, i: u8) -> (r: (Fg, Bg))
        requires
            self.wf(),
            self.live(w.0),
        ensures
            r == color_of(*self, w.0, i),
    {
        let mut cur = w;
        let mut index = i;
        loop
            invariant
                self.wf(),
                self.live(cur.0),
                color_of(*self, w.0, i) == color_of(*self, cur.0, index),
            decreases cur.0,
        {
            proof {
                self.lemma_live(cur.0);
            }
            match self.palette(cur).get(index) {
                PaletteEntry::Color(f, b) => {
                    return (f, b);
                },
                PaletteEntry::Index(j) => {
                    match self.parent(cur) {
                        Some(p) => {
                            cur = p;
                            index = j;
                        },
                        None => {
                            return match self.root_palette().get(j) {
                                PaletteEntry::Color(f, b) => (f, b),
                                PaletteEntry::Index(_) => (Fg::Red, Bg::Green),
                            };
                        },
                    }
                },
            }
        }
    }

    /// `w` and all its ancestors are enabled.
    pub fn actual_is_enabled(&self, w: Window) -> (r: bool)
        requires
            self.wf(),
            self.live(w.0),
        ensures
            r == (forall|a: usize| self.in_subtree(w.0, a) ==> #[trigger] self.props_of(a).is_enabled),
    {
        let mut cur = w;
        proof {
            self.lemma_subtree_unfold(w.0, w.0);
        }
        loop
            invariant
                self.wf(),
                self.live(cur.0),
                self.in_subtree(w.0, cur.0),
                forall|a: usize| #[trigger] self.in_subtree(w.0, a)
                    ==> (self.in_subtree(cur.0, a) || self.props_of(a).is_enabled),
            decreases cur.0,
        {
            proof {
                self.lemma_live(cur.0);
                self.lemma_subtree_unfold(cur.0, cur.0);
            }
            if !self.get_props(cur).is_enabled {
                return false;
            }
            match self.parent(cur) {
                Some(p) => {
                    proof {
                        assert forall|a: usize| #[trigger] self.in_subtree(w.0, a)
                            implies (self.in_subtree(p.0, a) || self.props_of(a).is_enabled) by {
                            self.lemma_subtree_unfold(cur.0, a);
                        }
                        self.lemma_subtree_unfold(cur.0, p.0);
                        self.lemma_live(cur.0);
                        self.lemma_subtree_unfold(p.0, p.0);
                        self.lemma_subtree_chain(w.0, cur.0, p.0);
                    }
                    cur = p;
                },
                None => {
                    proof {
                        assert forall|a: usize| #[trigger] self.in_subtree(w.0, a)
                            implies self.props_of(a).is_enabled by {
                            self.lemma_subtree_unfold(cur.0, a);
                        }
                    }
                    return true;
                },
            }
        }
    }

    pub fn set_is_enabled(&mut self, w: Window, value: bool)
        requires
            old(self).wf(),
            old(self).live(w.0),
        ensures
            final(self).wf(),
            final(self).same_structure(*old(self)),
            final(self).props_of(w.0) == (Props { is_enabled: value, ..old(self).props_of(w.0) }),
            forall|u: usize| u != w.0 && u < old(self).slots() ==> #[trigger] final(self).props_of(u) == old(self).props_of(u),
    {
        let p = self.get_props(w);
        self.set_props(w, Props { is_enabled: value, ..p });
    }

    /// Sets the visibility of `w`; a change that affects the layout
    /// invalidates the parent's measure.  Says what else must be redone.
    pub fn set_visibility(&mut self, w: Window, value: Visibility) -> (r: VisibilityEffect)
        requires
            old(self).wf(),
            old(self).live(w.0),
        ensures
            final(self).wf(),
            final(self).same_structure(*old(self)),
            r == visibility_effect(old(self).props_of(w.0).visibility, value),
            final(self).props_of(w.0).visibility == value,
            r != VisibilityEffect::ParentMeasure || old(self).parent_of(w.0) is None ==> {
                &&& final(self).props_of(w.0) == (Props { visibility: value, ..old(self).props_of(w.0) })
                &&& forall|u: usize| u != w.0 && u < old(self).slots() ==> #[trigger] final(self).props_of(u) == old(self).props_of(u)
            },
            forall|u: usize| #[trigger] final(self).palette_of(u) == old(self).palette_of(u),
            final(self).state_spec() == old(self).state_spec(),
    {
        let p = self.get_props(w);
        let effect = match (p.visibility, value) {
            (Visibility::Visible, Visibility::Hidden) => VisibilityEffect::Render,
            (Visibility::Hidden, Visibility::Visible) => VisibilityEffect::Render,
            (Visibility::Visible, Visibility::Collapsed) => VisibilityEffect::ParentMeasure,
            (Visibility::Collapsed, Visibility::Visible) => VisibilityEffect::ParentMeasure,
            (Visibility::Collapsed, Visibility::Hidden) => VisibilityEffect::ParentMeasure,
            (Visibility::Hidden, Visibility::Collapsed) => VisibilityEffect::ParentMeasure,
            _ => VisibilityEffect::Nothing,
        };
        self.set_props(w, Props { visibility: value, ..p });
        let ghost mid = *self;
        proof {
            self.lemma_same_structure(*old(self));
        }
        if matches!(effect, VisibilityEffect::ParentMeasure) {
            if let Some(parent) = self.parent(w) {
                proof {
                    old(self).lemma_live(w.0);
                }
                self.invalidate_measure(parent);
                proof {
                    self.lemma_same_structure_trans(mid, *old(self));
                    old(self).lemma_live(w.0);
                    if in_invalidation(mid, w.0, parent.0, false) {
                        lemma_invalidation_le(mid, w.0, parent.0, false);
                    }
                }
            }
        }
        effect
    }

    /// The offset of the inside of `w` from the screen origin; zero for `None`.
    pub fn offset_from_root(&self, w: Option<Window>) -> (r: Vector)
        requires
            self.wf(),
            w matches Some(v) ==> self.live(v.0),
        ensures
            r == (match w { None => Vector { x: 0, y: 0 }, Some(v) => offset_of(*self, v.0) }),
        decreases (match w { None => 0int, Some(v) => v.0 as int + 1 }),
    {
        match w {
            None => Vector { x: 0, y: 0 },
            Some(v) => {
                proof {
                    self.lemma_live(v.0);
                }
                let tl = self.get_props(v).window_bounds.tl;
                let here = Vector { x: tl.x, y: tl.y };
                match self.parent(v) {
                    None => here,
                    Some(p) => {
                        let up = self.offset_from_root(Some(p));
                        here.add(up)
                    },
                }
            }
        }
    }
}


/// The primary-focus marks agree with the focus: a live window is marked
/// exactly when the primarily focused window is it or lies below it.
pub open spec fn focus_marks_ok<W>(t: WindowTree<W>) -> bool {
    forall|v: usize| #[trigger] t.live(v) ==> (t.props_of(v).contains_primary_focus
        <==> (t.primary() matches Some(f) && t.live(f) && t.in_subtree(f, v)))
}

/// The candidates that a navigation key moves the focus to: the link of the
/// primarily focused window in the key's direction, and (for the arrow keys)
/// that of the secondarily focused one.
pub open spec fn nav_candidates<W>(t: WindowTree<W>, key: Key) -> (Option<usize>, Option<usize>) {
    let pri = t.primary();
    let sec = t.secondary();
    match key {
        Key::Tab => (match pri { Some(f) => Some(t.props_of(f).focus_tab), None => None }, None),
        Key::Left => (
            match pri { Some(f) => Some(t.props_of(f).focus_left), None => None },
            match sec { Some(f) => Some(t.props_of(f).focus_left), None => None },
        ),
        Key::Right => (
            match pri { Some(f) => Some(t.props_of(f).focus_right), None => None },
            match sec { Some(f) => Some(t.props_of(f).focus_right), None => None },
        ),
        Key::Up => (
            match pri { Some(f) => Some(t.props_of(f).focus_up), None => None },
            match sec { Some(f) => Some(t.props_of(f).focus_up), None => None },
        ),
        Key::Down => (
            match pri { Some(f) => Some(t.props_of(f).focus_down), None => None },
            match sec { Some(f) => Some(t.props_of(f).focus_down), None => None },
        ),
        _ => (None, None),
    }
}

impl<W> WindowTree<W> {
    /// Sets the primary-focus mark of `w` and of all its ancestors to `value`.
    fn mark_chain(&mut self, w: Window, value: bool)
        requires
            old(self).wf(),
            old(self).live(w.0),
        ensures
            final(self).wf(),
            final(self).same_structure(*old(self)),
            forall|v: usize| v < old(self).slots() ==> #[trigger] final(self).props_of(v) == (
                if old(self).in_subtree(w.0, v) {
                    Props { contains_primary_focus: value, ..old(self).props_of(v) }
                } else {
                    old(self).props_of(v)
                }),
            forall|v: usize| #[trigger] final(self).palette_of(v) == old(self).palette_of(v),
            final(self).state_spec() == old(self).state_spec(),
    {
        let ghost o = *self;
        let mut cur = w;
        proof {
            o.lemma_same_structure_refl();
            o.lemma_subtree_unfold(w.0, w.0);
        }
        loop
            invariant
                o == *old(self),
                o.wf(),
                self.wf(),
                self.same_structure(o),
                o.live(cur.0),
                o.in_subtree(w.0, cur.0),
                forall|v: usize| v < o.slots() ==> #[trigger] self.props_of(v) == (
                    if o.in_subtree(w.0, v) && !o.in_subtree(cur.0, v) {
                        Props { contains_primary_focus: value, ..o.props_of(v) }
                    } else {
                        o.props_of(v)
                    }),
                forall|v: usize| #[trigger] self.palette_of(v) == o.palette_of(v),
                self.state_spec() == o.state_spec(),
            decreases cur.0,
        {
            proof {
                self.lemma_same_structure(o);
                o.lemma_live(cur.0);
            }
            let p = self.get_props(cur);
            let ghost before = *self;
            self.set_props(cur, Props { contains_primary_focus: value, ..p });
            proof {
                before.lemma_same_structure(o);
                self.lemma_same_structure_trans(before, o);
                self.lemma_same_structure(o);
                o.lemma_subtree_unfold(cur.0, cur.0);
            }
            match self.parent(cur) {
                None => {
                    proof {
                        assert forall|v: usize| v < o.slots() implies #[trigger] self.props_of(v) == (
                            if o.in_subtree(w.0, v) {
                                Props { contains_primary_focus: value, ..o.props_of(v) }
                            } else {
                                o.props_of(v)
                            }) by {
                            o.lemma_subtree_unfold(cur.0, v);
                            if o.in_subtree(w.0, v) && !o.in_subtree(cur.0, v) {
                            } else if o.in_subtree(w.0, v) {
                                assert(v == cur.0);
                            }
                        }
                    }
                    return;
                },
                Some(q) => {
                    proof {
                        o.lemma_subtree_unfold(cur.0, q.0);
                        o.lemma_subtree_unfold(q.0, q.0);
                        o.lemma_subtree_chain(w.0, cur.0, q.0);
                        assert forall|v: usize| v < o.slots() implies #[trigger] self.props_of(v) == (
                            if o.in_subtree(w.0, v) && !o.in_subtree(q.0, v) {
                                Props { contains_primary_focus: value, ..o.props_of(v) }
                            } else {
                                o.props_of(v)
                            }) by {
                            o.lemma_subtree_unfold(cur.0, v);
                            if v == cur.0 && o.in_subtree(q.0, cur.0) {
                                o.lemma_subtree_ge(q.0, cur.0);
                            }
                            assert(o.parent_of(cur.0) == Some(q.0));
                        }
                    }
                    cur = q;
                },
            }
        }
    }

    /// Moves the primary focus to `window`; returns whether it moved.  The
    /// primary-focus marks move with it.
    pub fn focus_primary(&mut self, window: Option<Window>) -> (r: bool)
        requires
            old(self).wf(),
            old(self).primary() matches Some(f) ==> old(self).live(f),
            window matches Some(w) ==> old(self).live(w.0),
        ensures
            final(self).wf(),
            final(self).same_structure(*old(self)),
            r == (old(self).primary() != (match window { None => None::<usize>, Some(w) => Some(w.0) })),
            final(self).primary() == (match window { None => None::<usize>, Some(w) => Some(w.0) }),
            final(self).secondary() == old(self).secondary(),
            final(self).next_primary() == old(self).next_primary(),
            final(self).next_secondary() == old(self).next_secondary(),
            focus_marks_ok(*old(self)) ==> focus_marks_ok(*final(self)),
    {
        let old_focused = self.primary_focused();
        let new_id = match window { None => None, Some(w) => Some(w.0) };
        let old_id = match old_focused { None => None, Some(w) => Some(w.0) };
        if new_id == old_id {
            proof {
                old(self).lemma_same_structure_refl();
            }
            return false;
        }
        let ghost o = *self;
        if let Some(f) = old_focused {
            self.mark_chain(f, false);
        }
        let ghost mid = *self;
        proof {
            if old_focused is None {
                o.lemma_same_structure_refl();
            }
            mid.lemma_same_structure(o);
        }
        let secondary = match self.secondary_focused() { None => None, Some(w) => Some(w.0) };
        let np = self.next_primary_focused();
        let ns = self.next_secondary_focused();
        self.set_focus_state(new_id, secondary, np, ns);
        let ghost mid2 = *self;
        proof {
            mid2.lemma_same_structure_trans(mid, o);
            mid2.lemma_same_structure(o);
        }
        if let Some(w) = window {
            self.mark_chain(w, true);
        }
        proof {
            if window is None {
                mid2.lemma_same_structure_refl();
            }
            self.lemma_same_structure_trans(mid2, o);
            self.lemma_same_structure(o);
            mid2.lemma_same_structure(o);
            mid.lemma_same_structure(o);
            if focus_marks_ok(o) {
                assert forall|v: usize| #[trigger] self.live(v) implies (self.props_of(v).contains_primary_focus
                    <==> (self.primary() matches Some(f) && self.live(f) && self.in_subtree(f, v))) by {
                    assert(o.live(v));
                    o.lemma_live(v);
                    assert(mid2.props_of(v) == mid.props_of(v));
                    if let Some(f) = old_focused {
                        assert(o.props_of(v).contains_primary_focus == o.in_subtree(f.0, v));
                    } else {
                        assert(!o.props_of(v).contains_primary_focus);
                    }
                }
            }
        }
        true
    }

    /// Moves the secondary focus to `window` when it differs and, for a
    /// window, when its widget takes secondary focus (`focusable`); returns
    /// whether it moved.
    pub fn focus_secondary(&mut self, window: Option<Window>, focusable: bool) -> (r: bool)
        requires
            old(self).wf(),
        ensures
            final(self).wf(),
            final(self).same_structure(*old(self)),
            ({
                let new_id = match window { None => None::<usize>, Some(w) => Some(w.0) };
                &&& r == (old(self).secondary() != new_id && (window is None || focusable))
                &&& final(self).secondary() == (if r { new_id } else { old(self).secondary() })
            }),
            final(self).primary() == old(self).primary(),
            final(self).next_primary() == old(self).next_primary(),
            final(self).next_secondary() == old(self).next_secondary(),
            forall|v: usize| #[trigger] final(self).props_of(v) == old(self).props_of(v),
    {
        let new_id = match window { None => None, Some(w) => Some(w.0) };
        let old_id = match self.secondary_focused() { None => None, Some(w) => Some(w.0) };
        if new_id == old_id || (window.is_some() && !focusable) {
            proof {
                old(self).lemma_same_structure_refl();
            }
            return false;
        }
        let primary = match self.primary_focused() { None => None, Some(w) => Some(w.0) };
        let np = self.next_primary_focused();
        let ns = self.next_secondary_focused();
        self.set_focus_state(primary, new_id, np, ns);
        true
    }

    /// The windows a navigation key would move the primary and the
    /// secondary focus to.
    pub fn nav_targets(&self, key: Key) -> (r: (Option<Window>, Option<Window>))
        requires
            self.wf(),
            self.primary() matches Some(f) ==> self.live(f),
            self.secondary() matches Some(f) ==> self.live(f),
        ensures
            r.0 == (match nav_candidates(*self, key).0 { None => None::<Window>, Some(v) => Some(Window(v)) }),
            r.1 == (match nav_candidates(*self, key).1 { None => None::<Window>, Some(v) => Some(Window(v)) }),
    {
        let pri = self.primary_focused();
        let sec = self.secondary_focused();
        match key {
            Key::Tab => (match pri { Some(f) => Some(Window(self.get_props(f).focus_tab)), None => None }, None),
            Key::Left => (
                match pri { Some(f) => Some(Window(self.get_props(f).focus_left)), None => None },
                match sec { Some(f) => Some(Window(self.get_props(f).focus_left)), None => None },
            ),
            Key::Right => (
                match pri { Some(f) => Some(Window(self.get_props(f).focus_right)), None => None },
                match sec { Some(f) => Some(Window(self.get_props(f).focus_right)), None => None },
            ),
            Key::Up => (
                match pri { Some(f) => Some(Window(self.get_props(f).focus_up)), None => None },
                match sec { Some(f) => Some(Window(self.get_props(f).focus_up)), None => None },
            ),
            Key::Down => (
                match pri { Some(f) => Some(Window(self.get_props(f).focus_down)), None => None },
                match sec { Some(f) => Some(Window(self.get_props(f).focus_down)), None => None },
            ),
            _ => (None, None),
        }
    }
}

/// A focus target as a window handle.
pub open spec fn as_window(v: Option<usize>) -> Option<Window> {
    match v { None => None, Some(x) => Some(Window(x)) }
}

impl<W> WindowTree<W> {
    /// The navigation step of a key, tried before the key is dispatched: the
    /// primary focus moves to its link in the key's direction; if it does
    /// not move, the secondary focus moves to its link (when that window's
    /// widget takes secondary focus: `secondary_focusable`).  Returns whether
    /// the focus moved, in which case the key is consumed.
    pub fn navigate(&mut self, key: Key, secondary_focusable: bool) -> (consumed: bool)
        requires
            old(self).wf(),
            old(self).primary() matches Some(f) ==> old(self).live(f),
            old(self).secondary() matches Some(f) ==> old(self).live(f),
            nav_candidates(*old(self), key).0 matches Some(v) ==> old(self).live(v),
        ensures
            final(self).wf(),
            final(self).same_structure(*old(self)),
            ({
                let c = nav_candidates(*old(self), key);
                let pm = c.0 is Some && old(self).primary() != c.0;
                let sm = !pm && c.1 is Some && old(self).secondary() != c.1 && secondary_focusable;
                &&& consumed == (pm || sm)
                &&& final(self).primary() == (if pm { c.0 } else { old(self).primary() })
                &&& final(self).secondary() == (if sm { c.1 } else { old(self).secondary() })
            }),
            final(self).next_primary() == old(self).next_primary(),
            final(self).next_secondary() == old(self).next_secondary(),
    {
        let targets = self.nav_targets(key);
        if let Some(p) = targets.0 {
            if self.focus_primary(Some(p)) {
                return true;
            }
        }
        let ghost mid = *self;
        proof {
            if targets.0 is None {
                mid.lemma_same_structure_refl();
            }
        }
        if let Some(s) = targets.1 {
            let moved = self.focus_secondary(Some(s), secondary_focusable);
            proof {
                self.lemma_same_structure_trans(mid, *old(self));
            }
            return moved;
        }
        false
    }

    /// Applies the focus asked for while the tree was busy, and clears the
    /// request: first the pending primary focus, then the pending secondary
    /// one (taken where its window's widget takes secondary focus:
    /// `secondary_focusable`).  Returns whether each focus moved.
    pub fn apply_pending_focus(&mut self, secondary_focusable: bool) -> (r: (bool, bool))
        requires
            old(self).wf(),
            old(self).primary() matches Some(f) ==> old(self).live(f),
            old(self).next_primary() matches Some(Some(v)) ==> old(self).live(v),
        ensures
            final(self).wf(),
            final(self).same_structure(*old(self)),
            final(self).next_primary() is None,
            final(self).next_secondary() is None,
            ({
                let p = match old(self).next_primary() { Some(n) => n, None => old(self).primary() };
                &&& final(self).primary() == p
                &&& r.0 == (old(self).next_primary() is Some && old(self).primary() != p)
            }),
            ({
                let sm = old(self).next_secondary() matches Some(n)
                    && old(self).secondary() != n && (n is None || secondary_focusable);
                &&& r.1 == sm
                &&& final(self).secondary() == (if sm { old(self).next_secondary()->0 } else { old(self).secondary() })
            }),
    {
        let np = self.next_primary_focused();
        let ns = self.next_secondary_focused();
        let pri = match self.primary_focused() { None => None, Some(w) => Some(w.0) };
        let sec = match self.secondary_focused() { None => None, Some(w) => Some(w.0) };
        self.set_focus_state(pri, sec, None, ns);
        let ghost s1 = *self;
        proof {
            s1.lemma_same_structure(*old(self));
        }
        let moved_primary = match np {
            Some(n) => self.focus_primary(match n { None => None, Some(v) => Some(Window(v)) }),
            None => {
                proof {
                    s1.lemma_same_structure_refl();
                }
                false
            },
        };
        let ghost s2 = *self;
        proof {
            s2.lemma_same_structure_trans(s1, *old(self));
        }
        let pri2 = match self.primary_focused() { None => None, Some(w) => Some(w.0) };
        self.set_focus_state(pri2, sec, None, None);
        let ghost s3 = *self;
        proof {
            s3.lemma_same_structure_trans(s2, *old(self));
        }
        let moved_secondary = match ns {
            Some(n) => self.focus_secondary(match n { None => None, Some(v) => Some(Window(v)) }, secondary_focusable),
            None => {
                proof {
                    s3.lemma_same_structure_refl();
                }
                false
            },
        };
        proof {
            self.lemma_same_structure_trans(s3, *old(self));
        }
        (moved_primary, moved_secondary)
    }
}

/// The arrow key that moves the focus in direction `d`.
pub open spec fn dir_key(d: FocusDir) -> Key {
    match d {
        FocusDir::Right => Key::Right,
        FocusDir::Left => Key::Left,
        FocusDir::Up => Key::Up,
        FocusDir::Down => Key::Down,
    }
}

/// Each arrow key leads the primary focus, and the secondary focus, along
/// the focused window's link in the key's own direction (the link that
/// `set_focus_link` sets); Tab leads the primary focus along its tab link
/// and moves no secondary focus; no other key leads anywhere.
pub proof fn law_nav_follows_links<W>(t: WindowTree<W>, d: FocusDir, key: Key)
    ensures
        nav_candidates(t, dir_key(d)).0 == (match t.primary() {
            Some(f) => Some(focus_link(t.props_of(f), d)), None => None::<usize> }),
        nav_candidates(t, dir_key(d)).1 == (match t.secondary() {
            Some(f) => Some(focus_link(t.props_of(f), d)), None => None::<usize> }),
        nav_candidates(t, Key::Tab).0 == (match t.primary() {
            Some(f) => Some(t.props_of(f).focus_tab), None => None::<usize> }),
        nav_candidates(t, Key::Tab).1 is None,
        !(key is Tab || key is Left || key is Right || key is Up || key is Down) ==> nav_candidates(t, key) == (None::<usize>, None::<usize>),
{
}

/// Going one way and back: when `f` links to `g` in direction `d` and `g`
/// links back to `f` in the opposite direction (as `set_focus_link` leaves
/// them), the key of `d` leads from `f` to `g`, and the opposite key leads
/// from `g` back to `f`.
pub proof fn law_nav_round_trip<W>(t1: WindowTree<W>, t2: WindowTree<W>, d: FocusDir, f: usize, g: usize)
    requires
        t1.primary() == Some(f),
        t2.primary() == Some(g),
        focus_link(t1.props_of(f), d) == g,
        focus_link(t2.props_of(g), opposite(d)) == f,
    ensures
        nav_candidates(t1, dir_key(d)).0 == Some(g),
        nav_candidates(t2, dir_key(opposite(d))).0 == Some(f),
{
}

} // verus!
