//! A scroll viewer: a frame that shows a part of its child, with scroll
//! bars whose indicator tracks the offset.
//!
//! Per direction the viewer keeps an extent (the child's length), a
//! viewport (the length shown) and an offset (where the view starts).  A
//! virtual child (an item presenter of the items in view) scrolls itself
//! and reports these lengths to the viewer.

use vstd::prelude::*;
use crate::num::{uv, wrap16, to_u16, from_u16, lemma_wrapping_sub, lemma_wrap16_add_right, lemma_wrap16_id};
use crate::geom::{
    Point, Vector, Rect, Thickness, HAlign, vec_max, vec_neg, point_offset, range_intersect,
    rect_h_range, rect_v_range, rect_r, rect_b, rect_r_inner, rect_b_inner, range_contains, thickness_shrink_rect,
    thickness_shrink_size, thickness_expand_size, point_offset_from, range_len,
};
use crate::panels::{max_fold, max_size_of};
use crate::items::{neg_abs16, scroll_into};

verus! {

/// The state of a scroll viewer.
pub struct ScrollViewer {
    pub text: String,
    pub text_align: HAlign,
    pub h_scroll: bool,
    pub v_scroll: bool,
    pub h_extent: u32,
    pub h_offset: u32,
    pub h_viewport: u32,
    pub v_extent: u32,
    pub v_offset: u32,
    pub v_viewport: u32,
    pub has_virtual_child: bool,
}

pub open spec fn border() -> Thickness {
    Thickness { l: 1, t: 1, r: 1, b: 1 }
}

pub open spec fn avail_size(aw: Option<i16>, ah: Option<i16>) -> Vector {
    Vector { x: match aw { Some(x) => x, None => 0 }, y: match ah { Some(y) => y, None => 0 } }
}

/// What a child is offered: the room inside the border, but no limit in a
/// scrolled direction unless the child scrolls itself (is virtual).
pub open spec fn scroll_child_request(sv: ScrollViewer, aw: Option<i16>, ah: Option<i16>, virtual_child: bool) -> (Option<i16>, Option<i16>) {
    let inner = thickness_shrink_size(border(), avail_size(aw, ah));
    (
        if (sv.h_scroll && !virtual_child) || aw is None { None } else { Some(inner.x) },
        if (sv.v_scroll && !virtual_child) || ah is None { None } else { Some(inner.y) },
    )
}

/// Where the indicator of a scroll bar with `range + 1` positions sits for
/// `offset` within `span` (extent less viewport), rounded to nearest.
pub open spec fn indicator_pos(offset: u32, range: int, span: u32) -> i16 {
    wrap16((offset as int * range + span as int / 2) / span as int)
}

/// The offset for a click at position `pos` of a scroll bar with `range + 1`
/// positions, for the span `extent - viewport`, rounded to nearest.
pub open spec fn offset_at(pos: i16, range: int, extent: u32, viewport: u32) -> u32 {
    if range == 0 {
        0
    } else {
        ((uv(pos) * (extent - viewport) + range / 2) / range) as u32
    }
}

/// The number of indicator positions less one along a bar of length `len`.
pub open spec fn indicator_range(len: i16) -> int {
    if uv(len) >= 1 { uv(len) - 1 } else { 0 }
}

/// What a click on a scroll viewer asks for.
#[derive(Clone, Copy, Debug, PartialEq, Eq, Structural)]
pub enum ScrollClick {
    /// Not on an indicator track.
    Missed,
    /// Scroll vertically (or horizontally) to `offset`.
    Scroll { vertical: bool, offset: u32 },
}

/// A scroll viewer.
#[derive(Clone, Copy, Debug, Default)]
pub struct ScrollViewerWidget;

fn indicator_range_exec(len: i16) -> (r: u16)
    ensures
        r as int == indicator_range(len),
{
    let u = to_u16(len);
    if u >= 1 { u - 1 } else { 0 }
}

impl ScrollViewerWidget {
    pub fn child_request(sv: &ScrollViewer, aw: Option<i16>, ah: Option<i16>, virtual_child: bool) -> (r: (Option<i16>, Option<i16>))
        ensures
            r == scroll_child_request(*sv, aw, ah, virtual_child),
    {
        let avail = Vector { x: match aw { Some(x) => x, None => 0 }, y: match ah { Some(y) => y, None => 0 } };
        let inner = Thickness::all(1).shrink_rect_size(avail);
        (
            if (sv.h_scroll && !virtual_child) || aw.is_none() { None } else { Some(inner.x) },
            if (sv.v_scroll && !virtual_child) || ah.is_none() { None } else { Some(inner.y) },
        )
    }

    /// Ends a measure pass: `any_virtual` says whether a child is virtual,
    /// `desired` holds the children's answers.  Without a virtual child the
    /// viewer takes the extents and viewports itself.  The viewer takes all
    /// the room offered in a scrolled direction.
    pub fn measure(sv: &mut ScrollViewer, aw: Option<i16>, ah: Option<i16>, any_virtual: bool, desired: &[Vector]) -> (r: Vector)
        ensures
            ({
                let o = *old(sv);
                let size = max_fold(desired@);
                let inner = thickness_shrink_size(border(), avail_size(aw, ah));
                let outer = thickness_expand_size(border(), size);
                &&& final(sv).has_virtual_child == any_virtual
                &&& if any_virtual {
                    *final(sv) == (ScrollViewer { has_virtual_child: any_virtual, ..o })
                } else {
                    *final(sv) == (ScrollViewer {
                        has_virtual_child: any_virtual,
                        h_extent: uv(size.x) as u32,
                        h_viewport: uv(inner.x) as u32,
                        v_extent: uv(size.y) as u32,
                        v_viewport: uv(inner.y) as u32,
                        ..o
                    })
                }
                &&& r == (Vector {
                    x: if o.h_scroll { avail_size(aw, ah).x } else { outer.x },
                    y: if o.v_scroll { avail_size(aw, ah).y } else { outer.y },
                })
            }),
    {
        let avail = Vector { x: match aw { Some(x) => x, None => 0 }, y: match ah { Some(y) => y, None => 0 } };
        let inner = Thickness::all(1).shrink_rect_size(avail);
        let size = max_size_of(desired);
        sv.has_virtual_child = any_virtual;
        if !any_virtual {
            sv.h_extent = to_u16(size.x) as u32;
            sv.h_viewport = to_u16(inner.x) as u32;
            sv.v_extent = to_u16(size.y) as u32;
            sv.v_viewport = to_u16(inner.y) as u32;
        }
        let outer = Thickness::all(1).expand_rect_size(size);
        Vector { x: if sv.h_scroll { avail.x } else { outer.x }, y: if sv.v_scroll { avail.y } else { outer.y } }
    }

    /// The bounds of a child, and the part of it to show (for a child that
    /// does not scroll itself), when the viewer is arranged in `fb`: inside
    /// the border, moved back by the offsets, as long as the extents in the
    /// scrolled directions.
    pub fn child_bounds(sv: &ScrollViewer, fb: Rect, virtual_child: bool) -> (r: (Rect, Option<Rect>))
        requires
            sv.h_offset <= 0xFFFF,
            sv.v_offset <= 0xFFFF,
            sv.h_extent <= 0xFFFF,
            sv.v_extent <= 0xFFFF,
        ensures
            ({
                let base = thickness_shrink_rect(border(), fb);
                if virtual_child {
                    r == (base, None::<Rect>)
                } else {
                    let off = vec_neg(Vector { x: wrap16(sv.h_offset as int), y: wrap16(sv.v_offset as int) });
                    let moved = Rect { tl: point_offset(base.tl, off), size: base.size };
                    let sized = Rect {
                        tl: moved.tl,
                        size: Vector {
                            x: if sv.h_scroll { wrap16(sv.h_extent as int) } else { moved.size.x },
                            y: if sv.v_scroll { wrap16(sv.v_extent as int) } else { moved.size.y },
                        },
                    };
                    let nx = wrap16(-off.x);
                    let ny = wrap16(-off.y);
                    r == (sized, Some(Rect {
                        tl: Point { x: if 0 >= nx { 0 } else { nx }, y: if 0 >= ny { 0 } else { ny } },
                        size: base.size,
                    }))
                }
            }),
    {
        let base = Thickness::all(1).shrink_rect(fb);
        if virtual_child {
            return (base, None);
        }
        let off = Vector { x: from_u16(sv.h_offset as u16), y: from_u16(sv.v_offset as u16) }.neg();
        let moved = base.offset(off);
        let sized = Rect {
            tl: moved.tl,
            size: Vector {
                x: if sv.h_scroll { from_u16(sv.h_extent as u16) } else { moved.size.x },
                y: if sv.v_scroll { from_u16(sv.v_extent as u16) } else { moved.size.y },
            },
        };
        let back = off.neg();
        let clip = Rect {
            tl: Point { x: if 0 >= back.x { 0 } else { back.x }, y: if 0 >= back.y { 0 } else { back.y } },
            size: base.size,
        };
        (sized, Some(clip))
    }

    /// Where the indicators go for a viewer drawn in `bounds`: the row of
    /// the vertical one, the column of the horizontal one, in a scrolled
    /// direction.
    pub fn indicators(sv: &ScrollViewer, bounds: Rect) -> (r: (Option<i16>, Option<i16>))
        requires
            sv.v_scroll ==> sv.v_extent > sv.v_viewport,
            sv.h_scroll ==> sv.h_extent > sv.h_viewport,
        ensures
            ({
                let area = thickness_shrink_rect(border(), bounds);
                &&& r.0 == (if sv.v_scroll {
                    Some(wrap16(area.tl.y + indicator_pos(sv.v_offset, indicator_range(area.size.y), (sv.v_extent - sv.v_viewport) as u32)))
                } else {
                    None::<i16>
                })
                &&& r.1 == (if sv.h_scroll {
                    Some(wrap16(area.tl.x + indicator_pos(sv.h_offset, indicator_range(area.size.x), (sv.h_extent - sv.h_viewport) as u32)))
                } else {
                    None::<i16>
                })
            }),
    {
        let area = Thickness::all(1).shrink_rect(bounds);
        let v = if sv.v_scroll {
            let range = indicator_range_exec(area.h()) as i64;
            let span = (sv.v_extent - sv.v_viewport) as i64;
            assert(sv.v_offset as i64 * range <= 0xFFFF_FFFF * 0xFFFF) by (nonlinear_arith)
                requires
                    range <= 0xFFFF,
                    range >= 0;
            let q = (sv.v_offset as i64 * range + span / 2) / span;
            Some(wrap_add_i64(area.t(), q))
        } else {
            None
        };
        let h = if sv.h_scroll {
            let range = indicator_range_exec(area.w()) as i64;
            let span = (sv.h_extent - sv.h_viewport) as i64;
            assert(sv.h_offset as i64 * range <= 0xFFFF_FFFF * 0xFFFF) by (nonlinear_arith)
                requires
                    range <= 0xFFFF,
                    range >= 0;
            let q = (sv.h_offset as i64 * range + span / 2) / span;
            Some(wrap_add_i64(area.l(), q))
        } else {
            None
        };
        (v, h)
    }

    /// A click at `point` (inside the viewer of inner bounds `bounds`): on
    /// the right border's track of a vertical bar, or the bottom border's
    /// track of a horizontal one, it scrolls to the matching offset.
    pub fn click(sv: &ScrollViewer, bounds: Rect, point: Point) -> (r: ScrollClick)
        requires
            ({
                let area = thickness_shrink_rect(border(), bounds);
                &&& point.x == rect_r_inner(bounds) && sv.v_scroll && needs_span(area, point, true)
                    ==> sv.v_extent >= sv.v_viewport
                &&& !(point.x == rect_r_inner(bounds) && sv.v_scroll) && point.y == rect_b_inner(bounds) && sv.h_scroll
                    && needs_span(area, point, false) ==> sv.h_extent >= sv.h_viewport
            }),
        ensures
            r == click_spec(*sv, bounds, point),
    {
        let area = Thickness::all(1).shrink_rect(bounds);
        if point.x == bounds.r_inner() && sv.v_scroll {
            track_click_exec(area, point, true, sv.v_extent, sv.v_viewport)
        } else if point.y == bounds.b_inner() && sv.h_scroll {
            track_click_exec(area, point, false, sv.h_extent, sv.h_viewport)
        } else {
            ScrollClick::Missed
        }
    }

    /// The offsets that bring `rect` into view inside the border of a viewer
    /// of inner bounds `bounds`, per scrolled direction where it is out of
    /// view; nothing for a viewer with a virtual child.
    pub fn bring_into_view(sv: &ScrollViewer, bounds: Rect, rect: Rect) -> (r: (Option<u32>, Option<u32>))
        ensures
            ({
                let b = thickness_shrink_rect(border(), bounds);
                let vi = range_intersect(rect_v_range(rect), rect_v_range(b));
                let hi = range_intersect(rect_h_range(rect), rect_h_range(b));
                if sv.has_virtual_child {
                    r == (None::<u32>, None::<u32>)
                } else {
                    &&& r.0 == (if sv.v_scroll && vi.start == vi.end {
                        Some(scroll_u32(sv.v_offset, rect.tl.y, rect_b(rect), b.tl.y, rect_b(b)))
                    } else {
                        None::<u32>
                    })
                    &&& r.1 == (if sv.h_scroll && hi.start == hi.end {
                        Some(scroll_u32(sv.h_offset, rect.tl.x, rect_r(rect), b.tl.x, rect_r(b)))
                    } else {
                        None::<u32>
                    })
                }
            }),
    {
        if sv.has_virtual_child {
            return (None, None);
        }
        let b = Thickness::all(1).shrink_rect(bounds);
        let v = if sv.v_scroll && rect.v_range().intersect(b.v_range()).is_empty() {
            Some(scroll_u32_exec(sv.v_offset, rect.t(), rect.b(), b.t(), b.b()))
        } else {
            None
        };
        let h = if sv.h_scroll && rect.h_range().intersect(b.h_range()).is_empty() {
            Some(scroll_u32_exec(sv.h_offset, rect.l(), rect.r(), b.l(), b.r()))
        } else {
            None
        };
        (v, h)
    }
}

/// What a click at `point` inside a viewer of inner bounds `bounds` asks
/// for: on the right border of a vertical bar, a click on its track; else
/// on the bottom border of a horizontal bar, a click on its track.
pub open spec fn click_spec(sv: ScrollViewer, bounds: Rect, point: Point) -> ScrollClick {
    let area = thickness_shrink_rect(border(), bounds);
    if point.x == rect_r_inner(bounds) && sv.v_scroll {
        track_click(area, point, true, sv.v_extent, sv.v_viewport)
    } else if point.y == rect_b_inner(bounds) && sv.h_scroll {
        track_click(area, point, false, sv.h_extent, sv.h_viewport)
    } else {
        ScrollClick::Missed
    }
}

/// Which bar a click scrolls: a click on the right border of a viewer with
/// a vertical bar scrolls vertically, to the offset for its row on the
/// track (by the vertical extent and viewport); one elsewhere on the
/// bottom border of a viewer with a horizontal bar scrolls horizontally,
/// to the offset for its column (by the horizontal extent and viewport);
/// a click off both, or on a border without a bar, asks for nothing.
pub proof fn law_click_picks_bar(sv: ScrollViewer, bounds: Rect, point: Point)
    ensures
        ({
            let area = thickness_shrink_rect(border(), bounds);
            let r = click_spec(sv, bounds, point);
            let on_v = point.x == rect_r_inner(bounds) && sv.v_scroll;
            let on_h = !on_v && point.y == rect_b_inner(bounds) && sv.h_scroll;
            &&& (on_v && range_contains(rect_v_range(area), point.y) ==> r == (ScrollClick::Scroll {
                vertical: true,
                offset: offset_at(wrap16(point.y - area.tl.y), indicator_range(area.size.y), sv.v_extent, sv.v_viewport),
            }))
            &&& (on_h && range_contains(rect_h_range(area), point.x) ==> r == (ScrollClick::Scroll {
                vertical: false,
                offset: offset_at(wrap16(point.x - area.tl.x), indicator_range(area.size.x), sv.h_extent, sv.h_viewport),
            }))
            &&& (on_v && !range_contains(rect_v_range(area), point.y) ==> r == ScrollClick::Missed)
            &&& (on_h && !range_contains(rect_h_range(area), point.x) ==> r == ScrollClick::Missed)
            &&& (!on_v && !on_h ==> r == ScrollClick::Missed)
        }),
{
}

/// A click at `point` on the track of a bar along `area` (vertical or
/// horizontal): inside the track it scrolls to the matching offset.
pub open spec fn track_click(area: Rect, point: Point, vertical: bool, extent: u32, viewport: u32) -> ScrollClick {
    if vertical {
        if range_contains(rect_v_range(area), point.y) {
            ScrollClick::Scroll {
                vertical: true,
                offset: offset_at(point_offset_from(point, area.tl).y, indicator_range(area.size.y), extent, viewport),
            }
        } else {
            ScrollClick::Missed
        }
    } else {
        if range_contains(rect_h_range(area), point.x) {
            ScrollClick::Scroll {
                vertical: false,
                offset: offset_at(point_offset_from(point, area.tl).x, indicator_range(area.size.x), extent, viewport),
            }
        } else {
            ScrollClick::Missed
        }
    }
}

/// Whether a click at `point` on the track of `area` works out an offset
/// from the span: it is on the track, and the track has more than one
/// position.
pub open spec fn needs_span(area: Rect, point: Point, vertical: bool) -> bool {
    if vertical {
        range_contains(rect_v_range(area), point.y) && indicator_range(area.size.y) != 0
    } else {
        range_contains(rect_h_range(area), point.x) && indicator_range(area.size.x) != 0
    }
}

fn track_click_exec(area: Rect, point: Point, vertical: bool, extent: u32, viewport: u32) -> (r: ScrollClick)
    requires
        needs_span(area, point, vertical) ==> extent >= viewport,
    ensures
        r == track_click(area, point, vertical, extent, viewport),
{
    if vertical {
        if area.v_range().contains(point.y) {
            let pos = point.offset_from(area.tl).y;
            let range = indicator_range_exec(area.h());
            ScrollClick::Scroll { vertical: true, offset: offset_at_exec(pos, range, extent, viewport) }
        } else {
            ScrollClick::Missed
        }
    } else {
        if area.h_range().contains(point.x) {
            let pos = point.offset_from(area.tl).x;
            let range = indicator_range_exec(area.w());
            ScrollClick::Scroll { vertical: false, offset: offset_at_exec(pos, range, extent, viewport) }
        } else {
            ScrollClick::Missed
        }
    }
}

/// The scroll offset that brings a range into view, on an unsigned 32-bit
/// offset: the nearer end's distance, read as unsigned 16 bits, is added or
/// taken away, wrapping.
pub open spec fn scroll_u32(offset: u32, r0: i16, r1: i16, b0: i16, b1: i16) -> u32 {
    let from_near = neg_abs16(wrap16(r0 - b0));
    let from_far = neg_abs16(wrap16(r1 - b1));
    if from_near >= from_far {
        ((offset as int + uv(from_near)) % 0x1_0000_0000) as u32
    } else {
        ((offset as int - uv(from_far)) % 0x1_0000_0000) as u32
    }
}

fn scroll_u32_exec(offset: u32, r0: i16, r1: i16, b0: i16, b1: i16) -> (r: u32)
    ensures
        r == scroll_u32(offset, r0, r1, b0, b1),
{
    proof {
        lemma_wrapping_sub(r0, b0);
        lemma_wrapping_sub(r1, b1);
    }
    let d0 = r0.wrapping_sub(b0);
    let d1 = r1.wrapping_sub(b1);
    let from_near: i16 = if d0 < 0 { d0 } else { -d0 };
    let from_far: i16 = if d1 < 0 { d1 } else { -d1 };
    if from_near >= from_far {
        let a = to_u16(from_near) as u32;
        offset.wrapping_add(a)
    } else {
        let a = to_u16(from_far) as u32;
        offset.wrapping_sub(a)
    }
}

fn offset_at_exec(pos: i16, range: u16, extent: u32, viewport: u32) -> (r: u32)
    requires
        range != 0 ==> extent >= viewport,
    ensures
        r == offset_at(pos, range as int, extent, viewport),
{
    if range == 0 {
        return 0;
    }
    let span = extent - viewport;
    let p = to_u16(pos) as u64;
    assert(p * span as u64 <= 0xFFFF * 0xFFFF_FFFF) by (nonlinear_arith)
        requires
            p <= 0xFFFF;
    let q = (p * span as u64 + range as u64 / 2) / range as u64;
    q as u32
}

/// `base + q` wrapping, for a non-negative quotient `q` that may exceed 16 bits.
fn wrap_add_i64(base: i16, q: i64) -> (r: i16)
    requires
        q >= 0,
    ensures
        r == wrap16(base + wrap16(q as int)),
{
    let m = (q % 0x10000) as u16;
    let qi = from_u16(m);
    proof {
        crate::num::lemma_wrap16_congr(m as int, q as int);
        crate::num::lemma_wrapping_add(base, qi);
    }
    base.wrapping_add(qi)
}

/// The offset for a position on a track lies between no scroll at all and
/// the whole span; the first position gives no scroll, the last the whole
/// span, and a later position never gives less than an earlier one.
pub proof fn law_offset_at(p: i16, q: i16, range: int, extent: u32, viewport: u32)
    requires
        uv(p) <= range,
        uv(q) <= range,
        extent >= viewport,
    ensures
        offset_at(p, range, extent, viewport) <= extent - viewport,
        uv(p) == 0 ==> offset_at(p, range, extent, viewport) == 0,
        uv(p) == range && range > 0 ==> offset_at(p, range, extent, viewport) == extent - viewport,
        uv(p) <= uv(q) ==> offset_at(p, range, extent, viewport) <= offset_at(q, range, extent, viewport),
{
    if range > 0 {
        let s = extent - viewport;
        let a = uv(p);
        let b = uv(q);
        assert(0 <= a * s <= range * s) by (nonlinear_arith)
            requires 0 <= a <= range, s >= 0;
        assert((a * s + range / 2) / range <= s) by (nonlinear_arith)
            requires 0 <= a * s <= range * s, range > 0, s >= 0;
        assert(a == range ==> (a * s + range / 2) / range == s) by (nonlinear_arith)
            requires range > 0, s >= 0;
        assert(a == 0 ==> (a * s + range / 2) / range == 0) by (nonlinear_arith)
            requires range > 0;
        assert(a <= b ==> (a * s + range / 2) / range <= (b * s + range / 2) / range) by (nonlinear_arith)
            requires range > 0, s >= 0, 0 <= a, 0 <= b;
        assert(0 <= b * s <= range * s) by (nonlinear_arith)
            requires 0 <= b <= range, s >= 0;
        assert((b * s + range / 2) / range <= s) by (nonlinear_arith)
            requires 0 <= b * s <= range * s, range > 0, s >= 0;
        assert(0 <= (a * s + range / 2) / range);
        assert(0 <= (b * s + range / 2) / range);
        assert(offset_at(p, range, extent, viewport) == (a * s + range / 2) / range);
        assert(offset_at(q, range, extent, viewport) == (b * s + range / 2) / range);
    }
}

/// A click on a bar's track: it scrolls exactly when it lands on the track
/// (along the bar's own direction), the scroll is along that bar's
/// direction (a vertical bar scrolls vertically, a horizontal one
/// horizontally), and the offset lies within the span, from none at the
/// track's first cell to the whole span at its last.
pub proof fn law_track_click(area: Rect, point: Point, vertical: bool, extent: u32, viewport: u32)
    ensures
        ({
            let pos = if vertical { point_offset_from(point, area.tl).y } else { point_offset_from(point, area.tl).x };
            let range = if vertical { indicator_range(area.size.y) } else { indicator_range(area.size.x) };
            let on_track = if vertical { range_contains(rect_v_range(area), point.y) }
                else { range_contains(rect_h_range(area), point.x) };
            let r = track_click(area, point, vertical, extent, viewport);
            &&& (r is Scroll <==> on_track)
            &&& (r matches ScrollClick::Scroll { vertical: f, offset } ==> {
                &&& f == vertical
                &&& (extent >= viewport ==> offset <= extent - viewport)
                &&& (extent >= viewport && uv(pos) == 0 ==> offset == 0)
                &&& (extent >= viewport && uv(pos) == range && range > 0 ==> offset == extent - viewport)
            })
        }),
{
    let r = track_click(area, point, vertical, extent, viewport);
    lemma_wrap16_id(area.size.x as int);
    lemma_wrap16_id(area.size.y as int);
    lemma_wrap16_add_right(area.tl.x + area.size.x, -area.tl.x);
    lemma_wrap16_add_right(area.tl.y + area.size.y, -area.tl.y);
    assert(range_len(rect_v_range(area)) == uv(area.size.y));
    assert(range_len(rect_h_range(area)) == uv(area.size.x));
    if vertical {
        if range_contains(rect_v_range(area), point.y) && extent >= viewport {
            let pos = point_offset_from(point, area.tl).y;
            law_offset_at(pos, pos, indicator_range(area.size.y), extent, viewport);
        }
    } else {
        if range_contains(rect_h_range(area), point.x) && extent >= viewport {
            let pos = point_offset_from(point, area.tl).x;
            law_offset_at(pos, pos, indicator_range(area.size.x), extent, viewport);
        }
    }
}

} // verus!
