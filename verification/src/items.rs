//! Item presenters: a panel of item windows made from a template, one per
//! data item; the virtual one makes windows only for the items in view.
//!
//! Keys move the focus between the item windows (the children of the
//! presenter's panel, itself the presenter's first child).

use vstd::prelude::*;
use crate::num::{uv, wrap16, to_u16, from_u16, lemma_wrapping_add, lemma_wrapping_sub};
use crate::geom::{Vector, Rect, Thickness, range_intersect, rect_h_range, rect_v_range, rect_r, rect_b};
use crate::panels::{max_fold, max_size_of};
use crate::screen::Key;
use crate::tree::{WindowTree, Window, next_idx, prev_idx};

verus! {

pub const CMD_ITEMS_PRESENTER_BIND: u16 = 140;
pub const CMD_ITEMS_PRESENTER_UNBIND: u16 = 141;
pub const CMD_VIRT_ITEMS_PRESENTER_BIND: u16 = 150;
pub const CMD_VIRT_ITEMS_PRESENTER_UNBIND: u16 = 151;

/// What a presenter does with a navigation key.
#[derive(Clone, Copy, Debug, PartialEq, Eq, Structural)]
pub enum ItemNav {
    /// The key is not the presenter's to handle.
    Unhandled,
    /// Give the primary (or, `secondary`, the secondary) focus to `target`.
    Focus { target: Window, secondary: bool },
    /// Scroll back to the first item and focus it once it exists.
    RestartAtFirst { secondary: bool },
}

/// Which navigations a presenter does.
#[derive(Clone, Copy, Debug, PartialEq, Eq, Structural)]
pub struct NavFlags {
    pub tab: bool,
    pub up_down: bool,
    pub left_right: bool,
}

/// The navigation decided for `key` raised by the item window `src` of the
/// presenter `w`: the next item for Tab, Down and Right, the previous one
/// for Up and Left, in the focus role `src` holds; Down and Right stop at
/// the last item and Up and Left at the first.  Tab wraps around; a virtual
/// presenter (`virt`) instead restarts at the first item.
pub open spec fn item_nav<W>(t: WindowTree<W>, w: usize, src: usize, key: Key, flags: NavFlags, virt: bool) -> ItemNav {
    let enabled = match key {
        Key::Tab => flags.tab,
        Key::Down | Key::Up => flags.up_down,
        Key::Right | Key::Left => flags.left_right,
        _ => false,
    };
    let panel = t.parent_of(src);
    if !enabled || !(panel matches Some(p) && t.parent_of(p) == Some(w)) {
        ItemNav::Unhandled
    } else {
        let l = t.children(panel);
        let i = t.pos(src);
        let next = l[next_idx(i, l.len() as int)];
        let prev = l[prev_idx(i, l.len() as int)];
        let secondary = t.secondary() == Some(src);
        let primary = t.primary() == Some(src);
        let forward = key is Tab || key is Down || key is Right;
        let target = if forward { next } else { prev };
        let at_edge = if forward { next == l[0] } else { src == l[0] };
        if !secondary && !primary {
            ItemNav::Unhandled
        } else if key is Tab {
            if virt && at_edge {
                ItemNav::RestartAtFirst { secondary }
            } else {
                ItemNav::Focus { target: Window(target), secondary }
            }
        } else if at_edge {
            ItemNav::Unhandled
        } else {
            ItemNav::Focus { target: Window(target), secondary }
        }
    }
}

/// Decides what a navigation key does; see [`item_nav`].
pub fn item_navigation<W>(t: &WindowTree<W>, w: Window, src: Window, key: Key, flags: NavFlags, virt: bool) -> (r: ItemNav)
    requires
        t.wf(),
        t.live(w.0),
        t.live(src.0),
    ensures
        r == item_nav(*t, w.0, src.0, key, flags, virt),
{
    let enabled = match key {
        Key::Tab => flags.tab,
        Key::Down | Key::Up => flags.up_down,
        Key::Right | Key::Left => flags.left_right,
        _ => false,
    };
    if !enabled {
        return ItemNav::Unhandled;
    }
    proof {
        t.lemma_live(src.0);
    }
    let panel = match t.parent(src) {
        None => {
            return ItemNav::Unhandled;
        },
        Some(p) => p,
    };
    match t.parent(panel) {
        Some(q) => {
            if q != w {
                return ItemNav::Unhandled;
            }
        },
        None => {
            return ItemNav::Unhandled;
        },
    }
    let next = t.next(src);
    let prev = t.prev(src);
    let first = t.first_child(Some(panel));
    let first = match first {
        Some(f) => f,
        None => {
            proof {
                assert(false);
            }
            return ItemNav::Unhandled;
        },
    };
    let pri = t.primary_focused();
    let sec = t.secondary_focused();
    let secondary = sec == Some(src);
    let primary = pri == Some(src);
    let forward = matches!(key, Key::Tab) || matches!(key, Key::Down) || matches!(key, Key::Right);
    let target = if forward { next } else { prev };
    let at_edge = if forward { next == first } else { src == first };
    if !secondary && !primary {
        ItemNav::Unhandled
    } else if matches!(key, Key::Tab) {
        if virt && at_edge {
            ItemNav::RestartAtFirst { secondary }
        } else {
            ItemNav::Focus { target, secondary }
        }
    } else if at_edge {
        ItemNav::Unhandled
    } else {
        ItemNav::Focus { target, secondary }
    }
}

/// What to tell a new item window.
#[derive(Clone, Copy, Debug, PartialEq, Eq, Structural)]
pub struct NewItem {
    pub index: usize,
    pub focus_primary: bool,
    pub focus_secondary: bool,
}

/// A presenter of all its items.
#[derive(Clone, Copy, Debug, Default)]
pub struct ItemsPresenterWidget;

impl ItemsPresenterWidget {
    /// The item windows to build, after dropping the old panel and making a new one.
    pub fn plan(start: usize, end: usize, focus_primary: bool, focus_secondary: bool) -> (r: Vec<NewItem>)
        requires
            start <= end,
        ensures
            r@.len() == end - start,
            forall|k: int| 0 <= k < r@.len() ==> #[trigger] r@[k] == (NewItem {
                index: (start + k) as usize,
                focus_primary: focus_primary && k == 0,
                focus_secondary: focus_secondary && k == 0,
            }),
    {
        let mut r: Vec<NewItem> = Vec::new();
        let mut i = start;
        while i < end
            invariant
                start <= i <= end,
                r@.len() == i - start,
                forall|k: int| 0 <= k < r@.len() ==> #[trigger] r@[k] == (NewItem {
                    index: (start + k) as usize,
                    focus_primary: focus_primary && k == 0,
                    focus_secondary: focus_secondary && k == 0,
                }),
            decreases end - i,
        {
            r.push(NewItem { index: i, focus_primary: focus_primary && i == start, focus_secondary: focus_secondary && i == start });
            i = i + 1;
        }
        r
    }

    pub fn measure(desired: &[Vector]) -> (r: Vector)
        ensures
            r == max_fold(desired@),
    {
        max_size_of(desired)
    }

    /// Children get the whole area; the presenter is as large as the
    /// largest bounds its children took.
    pub fn arrange(fb: Rect, rendered: &[Vector]) -> (r: (Rect, Vector))
        ensures
            r == (fb, max_fold(rendered@)),
    {
        (fb, max_size_of(rendered))
    }

    pub fn update<W>(t: &WindowTree<W>, w: Window, src: Window, key: Key, flags: NavFlags) -> (r: ItemNav)
        requires
            t.wf(),
            t.live(w.0),
            t.live(src.0),
        ensures
            r == item_nav(*t, w.0, src.0, key, flags, false),
    {
        item_navigation(t, w, src, key, flags, false)
    }
}


// ----------------------------------------------------------- virtual items

/// `-|d|`, with the most negative value standing for itself.
pub open spec fn neg_abs16(d: i16) -> i16 {
    if d < 0 { d } else { (-d) as i16 }
}

fn neg_abs16_exec(d: i16) -> (r: i16)
    ensures
        r == neg_abs16(d),
{
    if d < 0 { d } else { -d }
}

/// The offset that brings the range `r` (from `r0` to `r1`) into a view
/// from `b0` to `b1` that it misses: scrolled by the distance of the nearer
/// of the two ends.
pub open spec fn scroll_into(offset: i16, r0: i16, r1: i16, b0: i16, b1: i16) -> i16 {
    let from_near = neg_abs16(wrap16(r0 - b0));
    let from_far = neg_abs16(wrap16(r1 - b1));
    if from_near >= from_far { wrap16(offset + from_near) } else { wrap16(offset - from_far) }
}

pub fn scroll_into_exec(offset: i16, r0: i16, r1: i16, b0: i16, b1: i16) -> (r: i16)
    ensures
        r == scroll_into(offset, r0, r1, b0, b1),
{
    proof {
        lemma_wrapping_sub(r0, b0);
        lemma_wrapping_sub(r1, b1);
    }
    let from_near = neg_abs16_exec(r0.wrapping_sub(b0));
    let from_far = neg_abs16_exec(r1.wrapping_sub(b1));
    if from_near >= from_far {
        proof {
            lemma_wrapping_add(offset, from_near);
        }
        offset.wrapping_add(from_near)
    } else {
        proof {
            lemma_wrapping_sub(offset, from_far);
        }
        offset.wrapping_sub(from_far)
    }
}

/// The items in view: how many to skip (all but one of those scrolled past,
/// so that the one cut at the top is there), the range of item indices to
/// show, and the margin that hides what is scrolled past of the first shown.
pub open spec fn visible_items(len: usize, offset: i16, viewport: i16, item_size: i16) -> (int, int, int) {
    let o = uv(offset);
    let s = uv(item_size);
    let skip = if o / s >= 1 { o / s - 1 } else { 0 };
    let margin = o - skip * s;
    let take = (uv(viewport) + margin + s - 1) / s + 1;
    let start = if len < skip { len as int } else { skip };
    let end = if len < take + skip { len as int } else { take + skip };
    (start, end, margin)
}

/// The total length of `len` items of size `item_size`, modulo 2^16 (the
/// count is taken modulo 2^16 first).
pub open spec fn extent_of(len: usize, item_size: i16) -> i16 {
    wrap16((len % 0x10000) as int * item_size)
}

/// The item windows an update leaves, from the old range `old_s .. old_e`
/// to the new range `new_s .. new_e`: how many old ones to drop at the head
/// and at the tail, and the indices to add in front and behind.
pub open spec fn shift_plan(old_s: int, old_e: int, new_s: int, new_e: int) -> (int, int, (int, int), (int, int)) {
    let dh_end = if new_s < old_e { new_s } else { old_e };
    let drop_head = if dh_end > old_s { dh_end - old_s } else { 0 };
    let dt_start = if new_e > old_s { new_e } else { old_s };
    let drop_tail = if old_e > dt_start { old_e - dt_start } else { 0 };
    let head = (new_s, if old_s < new_e { old_s } else { new_e });
    let tail = (if old_e > new_s { old_e } else { new_s }, new_e);
    (drop_head, drop_tail, head, tail)
}

pub open spec fn span(r: (int, int)) -> int {
    if r.1 > r.0 { r.1 - r.0 } else { 0 }
}

/// An update of a virtual presenter keeps the windows of the items still in
/// view, and adds windows for exactly the others in view: the new range is
/// the added head, then the kept items, then the added tail.
pub proof fn law_shift_covers_range(old_s: int, old_e: int, new_s: int, new_e: int)
    requires
        old_s <= old_e,
        new_s <= new_e,
    ensures
        ({
            let (dh, dt, head, tail) = shift_plan(old_s, old_e, new_s, new_e);
            let kept = old_e - old_s - dh - dt;
            &&& 0 <= dh && 0 <= dt && kept >= 0
            &&& span(head) + kept + span(tail) == new_e - new_s
            &&& kept > 0 ==> (head.0 == new_s && old_s + dh == (if span(head) > 0 { head.1 } else { new_s })
                && old_e - dt == (if span(tail) > 0 { tail.0 } else { new_e }))
        }),
{
}

/// What an update of a virtual presenter does to its item windows.
#[derive(Clone, Copy, Debug, PartialEq, Eq, Structural)]
pub enum VirtPlan {
    /// Nothing: the presenter shows an error.
    Nothing,
    /// Drop the panel and, with a template, make a new one with the items
    /// `start .. end`; the first of them takes the focus the flags ask for.
    Rebuild { margin: i16, start: usize, end: usize, focus_primary: bool, focus_secondary: bool },
    /// Keep the panel: drop `drop_head` item windows at its head and
    /// `drop_tail` at its tail, add the items `head_start .. head_end` in
    /// front and `tail_start .. tail_end` behind.
    Shift {
        margin: i16,
        drop_head: usize,
        drop_tail: usize,
        head_start: usize,
        head_end: usize,
        tail_start: usize,
        tail_end: usize,
    },
    /// No panel to change.
    NoPanel,
}

/// The state of a virtual items presenter (its data items are counted, not held).
pub struct VirtItemsPresenter {
    pub items_len: usize,
    pub vertical: bool,
    pub offset: i16,
    pub viewport: i16,
    pub item_size: i16,
    pub templates_changed: bool,
    pub error: bool,
    pub tab_navigation: bool,
    pub up_down_navigation: bool,
    pub left_right_navigation: bool,
    pub focus_first_item_primary: bool,
    pub focus_first_item_secondary: bool,
    pub visible_start: usize,
    pub visible_end: usize,
    pub focus_first_item_primary_once: bool,
    pub focus_first_item_secondary_once: bool,
}

impl VirtItemsPresenter {
    pub fn new() -> (r: Self)
        ensures
            r.items_len == 0,
            r.vertical,
            r.offset == 0,
            r.viewport == 0,
            r.item_size == 1,
            !r.templates_changed,
            !r.error,
            !r.tab_navigation && !r.up_down_navigation && !r.left_right_navigation,
            !r.focus_first_item_primary && !r.focus_first_item_secondary,
            r.visible_start == 0 && r.visible_end == 0,
            !r.focus_first_item_primary_once && !r.focus_first_item_secondary_once,
    {
        VirtItemsPresenter {
            items_len: 0,
            vertical: true,
            offset: 0,
            viewport: 0,
            item_size: 1,
            templates_changed: false,
            error: false,
            tab_navigation: false,
            up_down_navigation: false,
            left_right_navigation: false,
            focus_first_item_primary: false,
            focus_first_item_secondary: false,
            visible_start: 0,
            visible_end: 0,
            focus_first_item_primary_once: false,
            focus_first_item_secondary_once: false,
        }
    }

    /// The scroll extent: the length of all the items.
    pub fn extent(&self) -> (r: i16)
        ensures
            r == extent_of(self.items_len, self.item_size),
    {
        let a = (self.items_len % 0x10000) as u64;
        let s = to_u16(self.item_size) as u64;
        assert(a * s < 0x1_0000_0000) by (nonlinear_arith)
            requires
                a < 0x10000,
                s < 0x10000;
        let p = a * s;
        let m = (p % 0x10000) as u16;
        proof {
            vstd::arithmetic::div_mod::lemma_mul_mod_noop_right((self.items_len % 0x10000) as int, self.item_size as int, 0x10000);
            assert(uv(self.item_size) == (self.item_size as int) % 0x10000);
            crate::num::lemma_wrap16_congr((m as int), (self.items_len % 0x10000) as int * self.item_size);
        }
        from_u16(m)
    }

    /// Works out the item windows to have after the offset, the viewport,
    /// the item size or the templates changed; records the new visible range.
    pub fn plan_update(&mut self, has_panel: bool, has_template: bool) -> (r: VirtPlan)
        requires
            uv(old(self).item_size) > 0,
            old(self).visible_start <= old(self).visible_end,
        ensures
            ({
                let o = *old(self);
                let (start, end, margin) = visible_items(o.items_len, o.offset, o.viewport, o.item_size);
                if o.error {
                    r == VirtPlan::Nothing && *final(self) == o
                } else {
                    &&& final(self).visible_start == start
                    &&& final(self).visible_end == end
                    &&& final(self).items_len == o.items_len
                    &&& final(self).offset == o.offset
                    &&& final(self).viewport == o.viewport
                    &&& final(self).item_size == o.item_size
                    &&& final(self).vertical == o.vertical
                    &&& if o.templates_changed {
                        &&& r == VirtPlan::Rebuild {
                            margin: margin as i16,
                            start: start as usize,
                            end: if has_template { end as usize } else { start as usize },
                            focus_primary: o.focus_first_item_primary || o.focus_first_item_primary_once,
                            focus_secondary: o.focus_first_item_secondary || o.focus_first_item_secondary_once,
                        }
                        &&& !final(self).templates_changed
                        &&& !final(self).focus_first_item_primary_once
                        &&& !final(self).focus_first_item_secondary_once
                    } else if has_panel {
                        let (dh, dt, head, tail) = shift_plan(o.visible_start as int, o.visible_end as int, start, end);
                        &&& r == VirtPlan::Shift {
                            margin: margin as i16,
                            drop_head: dh as usize,
                            drop_tail: dt as usize,
                            head_start: head.0 as usize,
                            head_end: head.1 as usize,
                            tail_start: tail.0 as usize,
                            tail_end: tail.1 as usize,
                        }
                        &&& final(self).templates_changed == o.templates_changed
                    } else {
                        r == VirtPlan::NoPanel && final(self).templates_changed == o.templates_changed
                    }
                }
            }),
            final(self).visible_start <= final(self).visible_end,
    {
        if self.error {
            return VirtPlan::Nothing;
        }
        let o = to_u16(self.offset) as u32;
        let s = to_u16(self.item_size) as u32;
        let q = o / s;
        let skip: u32 = if q >= 1 { q - 1 } else { 0 };
        proof {
            assert(skip * s <= o) by (nonlinear_arith)
                requires
                    q == o / s,
                    s > 0,
                    skip == (if q >= 1 { q - 1 } else { 0 });
        }
        let margin: u32 = o - skip * s;
        let v = to_u16(self.viewport) as u32;
        let take: u32 = (v + margin + s - 1) / s + 1;
        proof {
            assert(take <= 0x20001) by (nonlinear_arith)
                requires
                    take == (v + margin + s - 1) as int / s as int + 1,
                    v < 0x10000,
                    margin <= o,
                    o < 0x10000,
                    s >= 1,
                    s < 0x10000;
            assert(skip < 0x10000) by (nonlinear_arith)
                requires
                    q == o / s,
                    s > 0,
                    o < 0x10000,
                    skip <= q;
        }
        let skip_u = skip as usize;
        let te = (take + skip) as usize;
        let start = if self.items_len < skip_u { self.items_len } else { skip_u };
        let end = if self.items_len < te { self.items_len } else { te };
        let m = margin as i16;
        let plan = if self.templates_changed {
            let fp = self.focus_first_item_primary || self.focus_first_item_primary_once;
            let fs = self.focus_first_item_secondary || self.focus_first_item_secondary_once;
            self.focus_first_item_primary_once = false;
            self.focus_first_item_secondary_once = false;
            self.templates_changed = false;
            VirtPlan::Rebuild { margin: m, start, end: if has_template { end } else { start }, focus_primary: fp, focus_secondary: fs }
        } else if has_panel {
            let os = self.visible_start;
            let oe = self.visible_end;
            let dh_end = if start < oe { start } else { oe };
            let drop_head = if dh_end > os { dh_end - os } else { 0 };
            let dt_start = if end > os { end } else { os };
            let drop_tail = if oe > dt_start { oe - dt_start } else { 0 };
            VirtPlan::Shift {
                margin: m,
                drop_head,
                drop_tail,
                head_start: start,
                head_end: if os < end { os } else { end },
                tail_start: if oe > start { oe } else { start },
                tail_end: end,
            }
        } else {
            VirtPlan::NoPanel
        };
        self.visible_start = start;
        self.visible_end = end;
        plan
    }

    /// The offset that brings `rect` into the view `bounds`, when it is out of view.
    pub fn bring_into_view(&self, bounds: Rect, rect: Rect) -> (r: Option<i16>)
        ensures
            r == (if self.vertical {
                if range_intersect(rect_v_range(rect), rect_v_range(bounds)).start
                    == range_intersect(rect_v_range(rect), rect_v_range(bounds)).end {
                    Some(scroll_into(self.offset, rect.tl.y, rect_b(rect), bounds.tl.y, rect_b(bounds)))
                } else {
                    None::<i16>
                }
            } else {
                if range_intersect(rect_h_range(rect), rect_h_range(bounds)).start
                    == range_intersect(rect_h_range(rect), rect_h_range(bounds)).end {
                    Some(scroll_into(self.offset, rect.tl.x, rect_r(rect), bounds.tl.x, rect_r(bounds)))
                } else {
                    None::<i16>
                }
            }),
    {
        if self.vertical {
            if rect.v_range().intersect(bounds.v_range()).is_empty() {
                Some(scroll_into_exec(self.offset, rect.t(), rect.b(), bounds.t(), bounds.b()))
            } else {
                None
            }
        } else {
            if rect.h_range().intersect(bounds.h_range()).is_empty() {
                Some(scroll_into_exec(self.offset, rect.l(), rect.r(), bounds.l(), bounds.r()))
            } else {
                None
            }
        }
    }
}

/// A presenter of the items in view.
#[derive(Clone, Copy, Debug, Default)]
pub struct VirtItemsPresenterWidget;

impl VirtItemsPresenterWidget {
    /// The largest of the children's sizes, taking all the room offered
    /// along the scrolling direction (1 when unbounded).
    pub fn measure(vertical: bool, aw: Option<i16>, ah: Option<i16>, desired: &[Vector]) -> (r: Vector)
        ensures
            r == (if vertical {
                Vector { y: match ah { Some(y) => y, None => 1 }, ..max_fold(desired@) }
            } else {
                Vector { x: match aw { Some(x) => x, None => 1 }, ..max_fold(desired@) }
            }),
    {
        let size = max_size_of(desired);
        if vertical {
            Vector { y: match ah { Some(y) => y, None => 1 }, ..size }
        } else {
            Vector { x: match aw { Some(x) => x, None => 1 }, ..size }
        }
    }

    /// Arranges in `fb`: children get the whole area; the viewport and the
    /// item size (that of the first item window, 1 without one) follow.
    /// Returns the size and whether the viewport and the item size changed
    /// (each asks for an update, and the item size also for a new extent).
    pub fn arrange(p: &mut VirtItemsPresenter, fb: Rect, rendered: &[Vector], first_item: Option<Vector>) -> (r: (Vector, bool, bool))
        ensures
            ({
                let o = *old(p);
                let size = max_fold(rendered@);
                let item = match first_item { Some(v) => v, None => Vector { x: 1, y: 1 } };
                let along = if o.vertical { fb.size.y } else { fb.size.x };
                let item_along = if o.vertical { item.y } else { item.x };
                &&& r.0 == (if o.vertical { Vector { y: fb.size.y, ..size } } else { Vector { x: fb.size.x, ..size } })
                &&& r.1 == (o.viewport != along)
                &&& r.2 == (o.item_size != item_along)
                &&& *final(p) == (VirtItemsPresenter { viewport: along, item_size: item_along, ..o })
            }),
    {
        let size = max_size_of(rendered);
        let item = match first_item { Some(v) => v, None => Vector { x: 1, y: 1 } };
        let along = if p.vertical { fb.h() } else { fb.w() };
        let item_along = if p.vertical { item.y } else { item.x };
        let vchanged = p.viewport != along;
        let ichanged = p.item_size != item_along;
        p.viewport = along;
        p.item_size = item_along;
        let out = if p.vertical { Vector { y: fb.h(), ..size } } else { Vector { x: fb.w(), ..size } };
        (out, vchanged, ichanged)
    }

    /// What a navigation key does; Tab at the last item restarts at the first.
    pub fn update<W>(t: &WindowTree<W>, w: Window, src: Window, key: Key, flags: NavFlags) -> (r: ItemNav)
        requires
            t.wf(),
            t.live(w.0),
            t.live(src.0),
        ensures
            r == item_nav(*t, w.0, src.0, key, flags, true),
    {
        item_navigation(t, w, src, key, flags, true)
    }

    /// Restarts at the first item: scroll to the top, rebuild, and focus the
    /// first item in the given role once it exists.
    pub fn restart_at_first(p: &mut VirtItemsPresenter, secondary: bool)
        ensures
            *final(p) == (if secondary {
                VirtItemsPresenter { focus_first_item_secondary_once: true, offset: 0, templates_changed: true, ..*old(p) }
            } else {
                VirtItemsPresenter { focus_first_item_primary_once: true, offset: 0, templates_changed: true, ..*old(p) }
            }),
    {
        if secondary {
            p.focus_first_item_secondary_once = true;
        } else {
            p.focus_first_item_primary_once = true;
        }
        p.offset = 0;
        p.templates_changed = true;
    }
}

} // verus!
