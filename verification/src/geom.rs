//! Screen geometry: points, vectors, rectangles, one-dimensional ranges and
//! thicknesses (margins), all in wrapping 16-bit coordinates.
//!
//! Sizes are read as unsigned 16-bit numbers; positions wrap around.

use vstd::prelude::*;
use crate::num::{uv, wrap16, to_u16, from_u16, wadd, wsub, wadd_u, wsub_u};

verus! {

#[derive(Clone, Copy, Debug, PartialEq, Eq, Structural)]
pub struct Point {
    pub x: i16,
    pub y: i16,
}

#[derive(Clone, Copy, Debug, PartialEq, Eq, Structural)]
pub struct Vector {
    pub x: i16,
    pub y: i16,
}

#[derive(Clone, Copy, Debug, PartialEq, Eq, Structural)]
pub struct Rect {
    pub tl: Point,
    pub size: Vector,
}

/// A half-open range `start .. end` of coordinates, read modulo 2^16.
#[derive(Clone, Copy, Debug, PartialEq, Eq, Structural)]
pub struct Range1d {
    pub start: i16,
    pub end: i16,
}

#[derive(Clone, Copy, Debug, PartialEq, Eq, Structural)]
pub enum Side {
    Left,
    Top,
    Right,
    Bottom,
}

#[derive(Clone, Copy, Debug, PartialEq, Eq, Structural)]
pub enum HAlign {
    Left,
    Center,
    Right,
}

#[derive(Clone, Copy, Debug, PartialEq, Eq, Structural)]
pub enum VAlign {
    Top,
    Center,
    Bottom,
}

/// Distances from the four sides of a rectangle; a negative side expands.
/// Each side lies in `-(2^16 - 1) ..= 2^16 - 1` (see [`Thickness::wf`]).
#[derive(Clone, Copy, Debug, PartialEq, Eq, Structural)]
pub struct Thickness {
    pub l: i32,
    pub t: i32,
    pub r: i32,
    pub b: i32,
}

pub open spec fn side_ok(a: int) -> bool {
    -0xFFFF <= a <= 0xFFFF
}

// ---------------------------------------------------------------- Point, Vector

pub open spec fn point_offset(p: Point, d: Vector) -> Point {
    Point { x: wrap16(p.x + d.x), y: wrap16(p.y + d.y) }
}

pub open spec fn point_offset_from(p: Point, o: Point) -> Vector {
    Vector { x: wrap16(p.x - o.x), y: wrap16(p.y - o.y) }
}

/// The larger of two sizes, read as unsigned numbers.
pub open spec fn umax(a: i16, b: i16) -> i16 {
    if uv(a) >= uv(b) { a } else { b }
}

/// The smaller of two sizes, read as unsigned numbers.
pub open spec fn umin(a: i16, b: i16) -> i16 {
    if uv(a) <= uv(b) { a } else { b }
}

pub open spec fn vec_max(a: Vector, b: Vector) -> Vector {
    Vector { x: umax(a.x, b.x), y: umax(a.y, b.y) }
}

pub open spec fn vec_min(a: Vector, b: Vector) -> Vector {
    Vector { x: umin(a.x, b.x), y: umin(a.y, b.y) }
}

pub open spec fn vec_add(a: Vector, b: Vector) -> Vector {
    Vector { x: wrap16(a.x + b.x), y: wrap16(a.y + b.y) }
}

pub open spec fn vec_neg(a: Vector) -> Vector {
    Vector { x: wrap16(-a.x), y: wrap16(-a.y) }
}

impl Point {
    pub fn offset(self, d: Vector) -> (r: Point)
        ensures
            r == point_offset(self, d),
    {
        Point { x: wadd(self.x, d.x), y: wadd(self.y, d.y) }
    }

    pub fn offset_from(self, other: Point) -> (r: Vector)
        ensures
            r == point_offset_from(self, other),
    {
        Vector { x: wsub(self.x, other.x), y: wsub(self.y, other.y) }
    }
}

pub fn umax16(a: i16, b: i16) -> (r: i16)
    ensures
        r == umax(a, b),
{
    if to_u16(a) >= to_u16(b) { a } else { b }
}

pub fn umin16(a: i16, b: i16) -> (r: i16)
    ensures
        r == umin(a, b),
{
    if to_u16(a) <= to_u16(b) { a } else { b }
}

impl Vector {
    pub fn null() -> (r: Vector)
        ensures
            r == (Vector { x: 0, y: 0 }),
    {
        Vector { x: 0, y: 0 }
    }

    pub fn is_null(self) -> (r: bool)
        ensures
            r == (self.x == 0 && self.y == 0),
    {
        self.x == 0 && self.y == 0
    }

    pub fn max(self, other: Vector) -> (r: Vector)
        ensures
            r == vec_max(self, other),
    {
        Vector { x: umax16(self.x, other.x), y: umax16(self.y, other.y) }
    }

    pub fn min(self, other: Vector) -> (r: Vector)
        ensures
            r == vec_min(self, other),
    {
        Vector { x: umin16(self.x, other.x), y: umin16(self.y, other.y) }
    }

    pub fn add(self, other: Vector) -> (r: Vector)
        ensures
            r == vec_add(self, other),
    {
        Vector { x: wadd(self.x, other.x), y: wadd(self.y, other.y) }
    }

    pub fn neg(self) -> (r: Vector)
        ensures
            r == vec_neg(self),
    {
        Vector { x: wsub(0, self.x), y: wsub(0, self.y) }
    }
}

// ---------------------------------------------------------------- Range1d

pub open spec fn range_len(a: Range1d) -> int {
    uv(wrap16(a.end - a.start))
}

pub open spec fn range_contains(a: Range1d, c: i16) -> bool {
    uv(wrap16(c - a.start)) < range_len(a)
}

/// The intersection of two ranges, as `Range1d::intersect` computes it: the
/// longer range is taken as the reference; an empty result starts at
/// `a.start`.
pub open spec fn range_intersect(a: Range1d, b: Range1d) -> Range1d {
    let long = if range_len(a) <= range_len(b) { b } else { a };
    let short = if range_len(a) <= range_len(b) { a } else { b };
    if range_contains(long, short.start) {
        if range_contains(long, short.end) {
            short
        } else {
            Range1d { start: short.start, end: long.end }
        }
    } else {
        if range_contains(long, short.end) {
            Range1d { start: long.start, end: short.end }
        } else {
            Range1d { start: a.start, end: a.start }
        }
    }
}

/// The union of two ranges, as `Range1d::union` computes it: `None` where
/// the two together cover every coordinate or leave no gap that a single
/// range could close the shorter way.
pub open spec fn range_union(a: Range1d, b: Range1d) -> Option<Range1d> {
    let long = if range_len(a) <= range_len(b) { b } else { a };
    let short = if range_len(a) <= range_len(b) { a } else { b };
    if range_contains(long, short.start) {
        if range_contains(long, short.end) {
            if range_len(Range1d { start: long.start, end: short.end }) >= range_len(Range1d { start: long.start, end: short.start }) {
                Some(long)
            } else {
                None
            }
        } else {
            let res = Range1d { start: long.start, end: short.end };
            if res.start == res.end { None } else { Some(res) }
        }
    } else {
        if range_contains(long, short.end) {
            let res = Range1d { start: short.start, end: long.end };
            if res.start == res.end { None } else { Some(res) }
        } else if b.start == b.end {
            Some(a)
        } else if a.start == a.end {
            Some(b)
        } else {
            let u = Range1d { start: a.start, end: b.end };
            let v = Range1d { start: b.start, end: a.end };
            if u.start == u.end {
                if v.start == v.end { None } else { Some(v) }
            } else if v.start == v.end {
                Some(u)
            } else if range_len(u) < range_len(v) {
                Some(u)
            } else {
                Some(v)
            }
        }
    }
}

impl Range1d {
    pub fn new(start: i16, end: i16) -> (r: Range1d)
        ensures
            r == (Range1d { start, end }),
    {
        Range1d { start, end }
    }

    pub fn len(self) -> (r: u16)
        ensures
            r == range_len(self),
    {
        to_u16(wsub(self.end, self.start))
    }

    pub fn is_empty(self) -> (r: bool)
        ensures
            r == (self.start == self.end),
    {
        self.start == self.end
    }

    pub fn contains(self, c: i16) -> (r: bool)
        ensures
            r == range_contains(self, c),
    {
        to_u16(wsub(c, self.start)) < self.len()
    }

    pub fn intersect(self, other: Range1d) -> (r: Range1d)
        ensures
            r == range_intersect(self, other),
    {
        let (long, short) = if self.len() <= other.len() { (other, self) } else { (self, other) };
        if long.contains(short.start) {
            if long.contains(short.end) {
                short
            } else {
                Range1d::new(short.start, long.end)
            }
        } else {
            if long.contains(short.end) {
                Range1d::new(long.start, short.end)
            } else {
                Range1d::new(self.start, self.start)
            }
        }
    }

    pub fn union(self, other: Range1d) -> (r: Option<Range1d>)
        ensures
            r == range_union(self, other),
    {
        let (long, short) = if self.len() <= other.len() { (other, self) } else { (self, other) };
        if long.contains(short.start) {
            if long.contains(short.end) {
                if Range1d::new(long.start, short.end).len() >= Range1d::new(long.start, short.start).len() {
                    Some(long)
                } else {
                    None
                }
            } else {
                let res = Range1d::new(long.start, short.end);
                if res.is_empty() { None } else { Some(res) }
            }
        } else {
            if long.contains(short.end) {
                let res = Range1d::new(short.start, long.end);
                if res.is_empty() { None } else { Some(res) }
            } else if other.is_empty() {
                Some(self)
            } else if self.is_empty() {
                Some(other)
            } else {
                let u = Range1d::new(self.start, other.end);
                let v = Range1d::new(other.start, self.end);
                if u.is_empty() {
                    if v.is_empty() { None } else { Some(v) }
                } else if v.is_empty() {
                    Some(u)
                } else if u.len() < v.len() {
                    Some(u)
                } else {
                    Some(v)
                }
            }
        }
    }
}

// ---------------------------------------------------------------- Rect

pub open spec fn rect_r(a: Rect) -> i16 {
    wrap16(a.tl.x + a.size.x)
}

pub open spec fn rect_b(a: Rect) -> i16 {
    wrap16(a.tl.y + a.size.y)
}

pub open spec fn rect_h_range(a: Rect) -> Range1d {
    Range1d { start: a.tl.x, end: rect_r(a) }
}

pub open spec fn rect_v_range(a: Rect) -> Range1d {
    Range1d { start: a.tl.y, end: rect_b(a) }
}

pub open spec fn rect_from_tl_br(tl: Point, br: Point) -> Rect {
    Rect { tl, size: point_offset_from(br, tl) }
}

pub open spec fn rect_from_ranges(h: Range1d, v: Range1d) -> Rect {
    rect_from_tl_br(Point { x: h.start, y: v.start }, Point { x: h.end, y: v.end })
}

pub open spec fn rect_intersect(a: Rect, b: Rect) -> Rect {
    rect_from_ranges(
        range_intersect(rect_h_range(a), rect_h_range(b)),
        range_intersect(rect_v_range(a), rect_v_range(b)),
    )
}

pub open spec fn rect_is_empty(a: Rect) -> bool {
    a.size.x == 0 || a.size.y == 0
}

/// `a` united with `u` and cut to `b`, as `Rect::union_intersect` computes
/// it: an empty rectangle adds nothing; where the union of the columns (or
/// the rows) is not a range, the result spans all of `b` that way.
pub open spec fn rect_union_intersect(a: Rect, u: Rect, b: Rect) -> Rect {
    if rect_is_empty(u) {
        rect_intersect(a, b)
    } else if rect_is_empty(a) {
        rect_intersect(u, b)
    } else {
        let hr = range_union(rect_h_range(a), rect_h_range(u));
        let vr = range_union(rect_v_range(a), rect_v_range(u));
        match (hr, vr) {
            (Some(h), Some(v)) => rect_intersect(rect_from_ranges(h, v), b),
            (Some(h), None) => Rect { tl: Point { x: h.start, y: b.tl.y }, size: Vector { x: wrap16(h.end - h.start), y: b.size.y } },
            (None, Some(v)) => Rect { tl: Point { x: b.tl.x, y: v.start }, size: Vector { x: b.size.x, y: wrap16(v.end - v.start) } },
            (None, None) => b,
        }
    }
}

/// The last column of a rectangle (its left column when it has no width).
pub open spec fn rect_r_inner(a: Rect) -> i16 {
    wrap16(a.tl.x + (if uv(a.size.x) == 0 { 0 } else { uv(a.size.x) - 1 }))
}

/// The last row of a rectangle (its top row when it has no height).
pub open spec fn rect_b_inner(a: Rect) -> i16 {
    wrap16(a.tl.y + (if uv(a.size.y) == 0 { 0 } else { uv(a.size.y) - 1 }))
}

pub open spec fn rect_contains(a: Rect, p: Point) -> bool {
    range_contains(rect_h_range(a), p.x) && range_contains(rect_v_range(a), p.y)
}

impl Rect {
    pub fn from_tl_br(tl: Point, br: Point) -> (r: Rect)
        ensures
            r == rect_from_tl_br(tl, br),
    {
        Rect { tl, size: br.offset_from(tl) }
    }

    pub fn from_h_v_ranges(h: Range1d, v: Range1d) -> (r: Rect)
        ensures
            r == rect_from_ranges(h, v),
    {
        Rect::from_tl_br(Point { x: h.start, y: v.start }, Point { x: h.end, y: v.end })
    }

    pub fn is_empty(self) -> (r: bool)
        ensures
            r == (self.size.x == 0 || self.size.y == 0),
    {
        self.size.x == 0 || self.size.y == 0
    }

    pub fn w(self) -> (r: i16)
        ensures
            r == self.size.x,
    {
        self.size.x
    }

    pub fn h(self) -> (r: i16)
        ensures
            r == self.size.y,
    {
        self.size.y
    }

    pub fn l(self) -> (r: i16)
        ensures
            r == self.tl.x,
    {
        self.tl.x
    }

    pub fn t(self) -> (r: i16)
        ensures
            r == self.tl.y,
    {
        self.tl.y
    }

    pub fn r(self) -> (r: i16)
        ensures
            r == rect_r(self),
    {
        wadd(self.tl.x, self.size.x)
    }

    pub fn b(self) -> (r: i16)
        ensures
            r == rect_b(self),
    {
        wadd(self.tl.y, self.size.y)
    }

    pub fn tr(self) -> (r: Point)
        ensures
            r == (Point { x: rect_r(self), y: self.tl.y }),
    {
        Point { x: self.r(), y: self.t() }
    }

    pub fn bl(self) -> (r: Point)
        ensures
            r == (Point { x: self.tl.x, y: rect_b(self) }),
    {
        Point { x: self.l(), y: self.b() }
    }

    pub fn br(self) -> (r: Point)
        ensures
            r == (Point { x: rect_r(self), y: rect_b(self) }),
    {
        Point { x: self.r(), y: self.b() }
    }

    pub fn r_inner(self) -> (r: i16)
        ensures
            r == rect_r_inner(self),
    {
        let w = to_u16(self.size.x);
        let d: u16 = if w == 0 { 0 } else { w - 1 };
        wadd_u(self.tl.x, d)
    }

    pub fn b_inner(self) -> (r: i16)
        ensures
            r == rect_b_inner(self),
    {
        let h = to_u16(self.size.y);
        let d: u16 = if h == 0 { 0 } else { h - 1 };
        wadd_u(self.tl.y, d)
    }

    pub fn tr_inner(self) -> (r: Point)
        ensures
            r == (Point { x: rect_r_inner(self), y: self.tl.y }),
    {
        Point { x: self.r_inner(), y: self.t() }
    }

    pub fn bl_inner(self) -> (r: Point)
        ensures
            r == (Point { x: self.tl.x, y: rect_b_inner(self) }),
    {
        Point { x: self.l(), y: self.b_inner() }
    }

    pub fn br_inner(self) -> (r: Point)
        ensures
            r == (Point { x: rect_r_inner(self), y: rect_b_inner(self) }),
    {
        Point { x: self.r_inner(), y: self.b_inner() }
    }

    pub fn h_range(self) -> (r: Range1d)
        ensures
            r == rect_h_range(self),
    {
        Range1d { start: self.l(), end: self.r() }
    }

    pub fn v_range(self) -> (r: Range1d)
        ensures
            r == rect_v_range(self),
    {
        Range1d { start: self.t(), end: self.b() }
    }

    pub fn contains(self, p: Point) -> (r: bool)
        ensures
            r == rect_contains(self, p),
    {
        self.h_range().contains(p.x) && self.v_range().contains(p.y)
    }

    pub fn intersect(self, other: Rect) -> (r: Rect)
        ensures
            r == rect_intersect(self, other),
    {
        let h = self.h_range().intersect(other.h_range());
        let v = self.v_range().intersect(other.v_range());
        Rect::from_h_v_ranges(h, v)
    }

    /// This rectangle united with `u` and cut to `b`.
    pub fn union_intersect(self, u: Rect, b: Rect) -> (r: Rect)
        ensures
            r == rect_union_intersect(self, u, b),
    {
        if u.is_empty() {
            return self.intersect(b);
        }
        if self.is_empty() {
            return u.intersect(b);
        }
        let hr = self.h_range().union(u.h_range());
        let vr = self.v_range().union(u.v_range());
        match (hr, vr) {
            (Some(h), Some(v)) => Rect::from_h_v_ranges(h, v).intersect(b),
            (Some(h), None) => Rect { tl: Point { x: h.start, y: b.tl.y }, size: Vector { x: wsub(h.end, h.start), y: b.size.y } },
            (None, Some(v)) => Rect { tl: Point { x: b.tl.x, y: v.start }, size: Vector { x: b.size.x, y: wsub(v.end, v.start) } },
            (None, None) => b,
        }
    }

    pub fn offset(self, d: Vector) -> (r: Rect)
        ensures
            r == (Rect { tl: point_offset(self.tl, d), size: self.size }),
    {
        Rect { tl: self.tl.offset(d), size: self.size }
    }

    /// The top row of the rectangle (empty when the rectangle has no height).
    pub fn t_line(self) -> (r: Rect)
        ensures
            r == (Rect {
                tl: self.tl,
                size: Vector { x: self.size.x, y: if self.size.y == 0 { 0 } else { 1 } },
            }),
    {
        let height: i16 = if self.size.y == 0 { 0 } else { 1 };
        Rect { tl: self.tl, size: Vector { x: self.size.x, y: height } }
    }
}

// ---------------------------------------------------------------- Thickness

/// Shrinks the interval `(p, w)` from its near end by `n` (at most its length).
pub open spec fn shrink_near(n: int, p: i16, w: i16) -> (i16, i16) {
    let k = if n <= uv(w) { n } else { uv(w) };
    (wrap16(p + k), wrap16(w - k))
}

/// Shrinks the interval `(p, w)` from its far end by `n` (at most its length).
pub open spec fn shrink_far(n: int, p: i16, w: i16) -> (i16, i16) {
    let k = if n <= uv(w) { n } else { uv(w) };
    (p, wrap16(w - k))
}

/// Grows the interval `(p, w)` at its near end by `n` (while its length fits 16 bits).
pub open spec fn expand_near(n: int, p: i16, w: i16) -> (i16, i16) {
    let k = if n <= 0xFFFF - uv(w) { n } else { 0xFFFF - uv(w) };
    (wrap16(p - k), wrap16(w + k))
}

/// Grows the interval `(p, w)` at its far end by `n` (while its length fits 16 bits).
pub open spec fn expand_far(n: int, p: i16, w: i16) -> (i16, i16) {
    let k = if n <= 0xFFFF - uv(w) { n } else { 0xFFFF - uv(w) };
    (p, wrap16(w + k))
}

pub open spec fn near_side(s: int, p: i16, w: i16) -> (i16, i16) {
    if s < 0 { expand_near(-s, p, w) } else { shrink_near(s, p, w) }
}

pub open spec fn far_side(s: int, p: i16, w: i16) -> (i16, i16) {
    if s < 0 { expand_far(-s, p, w) } else { shrink_far(s, p, w) }
}

pub open spec fn thickness_shrink_rect(th: Thickness, a: Rect) -> Rect {
    let h1 = near_side(th.l as int, a.tl.x, a.size.x);
    let v1 = near_side(th.t as int, a.tl.y, a.size.y);
    let h2 = far_side(th.r as int, h1.0, h1.1);
    let v2 = far_side(th.b as int, v1.0, v1.1);
    Rect { tl: Point { x: h2.0, y: v2.0 }, size: Vector { x: h2.1, y: v2.1 } }
}

pub open spec fn thickness_neg(th: Thickness) -> Thickness {
    Thickness { l: (-th.l) as i32, t: (-th.t) as i32, r: (-th.r) as i32, b: (-th.b) as i32 }
}

pub open spec fn thickness_expand_rect(th: Thickness, a: Rect) -> Rect {
    thickness_shrink_rect(thickness_neg(th), a)
}

pub open spec fn origin_rect(size: Vector) -> Rect {
    Rect { tl: Point { x: 0, y: 0 }, size }
}

pub open spec fn thickness_shrink_size(th: Thickness, s: Vector) -> Vector {
    thickness_shrink_rect(th, origin_rect(s)).size
}

pub open spec fn thickness_expand_size(th: Thickness, s: Vector) -> Vector {
    thickness_expand_rect(th, origin_rect(s)).size
}

/// The margins that place an `inner` extent inside an `outer` one; when the
/// inner extent is the larger, the margins are negative.
pub open spec fn align_pair(inner: i16, outer: i16, near: bool, far: bool) -> (int, int) {
    let neg = uv(inner) > uv(outer);
    let d = if neg { uv(inner) - uv(outer) } else { uv(outer) - uv(inner) };
    let (a, b) = if near { (0int, d) } else if far { (d, 0int) } else { (d / 2, d - d / 2) };
    if neg { (-a, -b) } else { (a, b) }
}

pub open spec fn thickness_align(inner: Vector, outer: Vector, h: HAlign, v: VAlign) -> Thickness {
    let (l, r) = align_pair(inner.x, outer.x, h == HAlign::Left, h == HAlign::Right);
    let (t, b) = align_pair(inner.y, outer.y, v == VAlign::Top, v == VAlign::Bottom);
    Thickness { l: l as i32, t: t as i32, r: r as i32, b: b as i32 }
}

/// Adds two thickness sides: same-signed sides saturate at `2^16 - 1`.
pub open spec fn add_side(a: int, b: int) -> int {
    if a < 0 {
        if b < 0 {
            if -a - b <= 0xFFFF { a + b } else { -0xFFFF }
        } else {
            a + b
        }
    } else {
        if b > 0 {
            if a + b <= 0xFFFF { a + b } else { 0xFFFF }
        } else {
            a + b
        }
    }
}

pub open spec fn thickness_add(a: Thickness, b: Thickness) -> Thickness {
    Thickness {
        l: add_side(a.l as int, b.l as int) as i32,
        t: add_side(a.t as int, b.t as int) as i32,
        r: add_side(a.r as int, b.r as int) as i32,
        b: add_side(a.b as int, b.b as int) as i32,
    }
}

fn shrink_near_exec(n: u16, p: i16, w: i16) -> (r: (i16, i16))
    ensures
        r == shrink_near(n as int, p, w),
{
    let wu = to_u16(w);
    let k = if n <= wu { n } else { wu };
    (wadd_u(p, k), wsub_u(w, k))
}

fn shrink_far_exec(n: u16, p: i16, w: i16) -> (r: (i16, i16))
    ensures
        r == shrink_far(n as int, p, w),
{
    let wu = to_u16(w);
    let k = if n <= wu { n } else { wu };
    (p, wsub_u(w, k))
}

fn expand_near_exec(n: u16, p: i16, w: i16) -> (r: (i16, i16))
    ensures
        r == expand_near(n as int, p, w),
{
    let room = 0xFFFFu16 - to_u16(w);
    let k = if n <= room { n } else { room };
    (wsub_u(p, k), wadd_u(w, k))
}

fn expand_far_exec(n: u16, p: i16, w: i16) -> (r: (i16, i16))
    ensures
        r == expand_far(n as int, p, w),
{
    let room = 0xFFFFu16 - to_u16(w);
    let k = if n <= room { n } else { room };
    (p, wadd_u(w, k))
}

fn near_side_exec(s: i32, p: i16, w: i16) -> (r: (i16, i16))
    requires
        side_ok(s as int),
    ensures
        r == near_side(s as int, p, w),
{
    if s < 0 {
        expand_near_exec((-s) as u16, p, w)
    } else {
        shrink_near_exec(s as u16, p, w)
    }
}

fn far_side_exec(s: i32, p: i16, w: i16) -> (r: (i16, i16))
    requires
        side_ok(s as int),
    ensures
        r == far_side(s as int, p, w),
{
    if s < 0 {
        expand_far_exec((-s) as u16, p, w)
    } else {
        shrink_far_exec(s as u16, p, w)
    }
}

fn align_pair_exec(inner: i16, outer: i16, near: bool, far: bool) -> (r: (i32, i32))
    ensures
        r.0 == align_pair(inner, outer, near, far).0,
        r.1 == align_pair(inner, outer, near, far).1,
        side_ok(r.0 as int),
        side_ok(r.1 as int),
{
    let iu = to_u16(inner);
    let ou = to_u16(outer);
    let neg = iu > ou;
    let d: u16 = if neg { iu - ou } else { ou - iu };
    let (a, b): (u16, u16) = if near { (0, d) } else if far { (d, 0) } else { (d / 2, d - d / 2) };
    let a = a as i32;
    let b = b as i32;
    if neg { (-a, -b) } else { (a, b) }
}

fn add_side_exec(a: i32, b: i32) -> (r: i32)
    requires
        side_ok(a as int),
        side_ok(b as int),
    ensures
        r == add_side(a as int, b as int),
        side_ok(r as int),
{
    if a < 0 {
        if b < 0 {
            if -a - b <= 0xFFFF { a + b } else { -0xFFFF }
        } else {
            a + b
        }
    } else {
        if b > 0 {
            if a + b <= 0xFFFF { a + b } else { 0xFFFF }
        } else {
            a + b
        }
    }
}

impl Thickness {
    /// The thickness is well formed: every side lies in `-(2^16 - 1) ..= 2^16 - 1`.
    pub open spec fn wf(self) -> bool {
        side_ok(self.l as int) && side_ok(self.t as int) && side_ok(self.r as int) && side_ok(self.b as int)
    }

    pub fn new(l: i32, t: i32, r: i32, b: i32) -> (res: Thickness)
        requires
            side_ok(l as int),
            side_ok(t as int),
            side_ok(r as int),
            side_ok(b as int),
        ensures
            res == (Thickness { l, t, r, b }),
            res.wf(),
    {
        Thickness { l, t, r, b }
    }

    pub fn all(a: i32) -> (res: Thickness)
        requires
            side_ok(a as int),
        ensures
            res == (Thickness { l: a, t: a, r: a, b: a }),
            res.wf(),
    {
        Thickness { l: a, t: a, r: a, b: a }
    }

    pub fn neg(self) -> (res: Thickness)
        requires
            self.wf(),
        ensures
            res == thickness_neg(self),
            res.wf(),
    {
        Thickness { l: -self.l, t: -self.t, r: -self.r, b: -self.b }
    }

    pub fn add(self, other: Thickness) -> (res: Thickness)
        requires
            self.wf(),
            other.wf(),
        ensures
            res == thickness_add(self, other),
            res.wf(),
    {
        Thickness {
            l: add_side_exec(self.l, other.l),
            t: add_side_exec(self.t, other.t),
            r: add_side_exec(self.r, other.r),
            b: add_side_exec(self.b, other.b),
        }
    }

    pub fn align(inner: Vector, outer: Vector, h_align: HAlign, v_align: VAlign) -> (res: Thickness)
        ensures
            res == thickness_align(inner, outer, h_align, v_align),
            res.wf(),
    {
        let (l, r) = align_pair_exec(
            inner.x,
            outer.x,
            matches!(h_align, HAlign::Left),
            matches!(h_align, HAlign::Right),
        );
        let (t, b) = align_pair_exec(
            inner.y,
            outer.y,
            matches!(v_align, VAlign::Top),
            matches!(v_align, VAlign::Bottom),
        );
        Thickness { l, t, r, b }
    }

    pub fn shrink_rect(self, rect: Rect) -> (res: Rect)
        requires
            self.wf(),
        ensures
            res == thickness_shrink_rect(self, rect),
    {
        let (l, w) = near_side_exec(self.l, rect.tl.x, rect.size.x);
        let (t, h) = near_side_exec(self.t, rect.tl.y, rect.size.y);
        let (l, w) = far_side_exec(self.r, l, w);
        let (t, h) = far_side_exec(self.b, t, h);
        Rect { tl: Point { x: l, y: t }, size: Vector { x: w, y: h } }
    }

    pub fn expand_rect(self, rect: Rect) -> (res: Rect)
        requires
            self.wf(),
        ensures
            res == thickness_expand_rect(self, rect),
    {
        self.neg().shrink_rect(rect)
    }

    pub fn shrink_rect_size(self, size: Vector) -> (res: Vector)
        requires
            self.wf(),
        ensures
            res == thickness_shrink_size(self, size),
    {
        self.shrink_rect(Rect { tl: Point { x: 0, y: 0 }, size }).size
    }

    pub fn expand_rect_size(self, size: Vector) -> (res: Vector)
        requires
            self.wf(),
        ensures
            res == thickness_expand_size(self, size),
    {
        self.expand_rect(Rect { tl: Point { x: 0, y: 0 }, size }).size
    }
}

} // verus!
