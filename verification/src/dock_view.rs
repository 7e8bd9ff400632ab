//! Measuring the children of a dock panel in the view layer.
//!
//! Docked children come first, in order: each is offered what is left of
//! the room across its side, and takes its length off it; runs of children
//! docked in the same orientation share a breadth.  The children that are
//! not docked then share what is left along the panel's base side, each by
//! a fraction that the caller works out (the fractions are floats), the
//! last one taking the rest.  Lengths and breadths are unsigned 16-bit
//! values that saturate.
//!
//! Arranging goes the same way: each docked child gets a strip at its side
//! of what is left, as long as it wants, and the strip is cut off; then the
//! shared children get strips along the base side, by their shares of what
//! the docked children left, the last one taking the rest.

use vstd::prelude::*;
use crate::geom::{Side, Vector, Point, Rect, Thickness, rect_r, rect_b, thickness_shrink_rect, side_ok, rect_union_intersect};
use crate::num::{wrap16, uv, to_u16};

verus! {

#[derive(Clone, Copy, Debug, PartialEq, Eq, Structural)]
pub enum Orient {
    Hor,
    Vert,
}

/// How a child of a dock panel is laid out: docked at a side, or sharing
/// the rest of the room.
#[derive(Clone, Copy, Debug, PartialEq, Eq, Structural)]
pub enum DockOf {
    Docked(Side),
    Shared,
}

/// `a - b` on unsigned 16-bit readings, 0 at least.
pub open spec fn sat_sub_u(a: i16, b: i16) -> i16 {
    if (a as u16) >= (b as u16) { ((a as u16) - (b as u16)) as u16 as i16 } else { 0 }
}

/// `a + b` on unsigned 16-bit readings, `u16::MAX` at most.
pub open spec fn sat_add_u(a: i16, b: u16) -> i16 {
    if (a as u16) + b > u16::MAX { u16::MAX as i16 } else { ((a as u16) + b) as u16 as i16 }
}

pub open spec fn sat_add_u16(a: u16, b: u16) -> u16 {
    if a + b > u16::MAX { u16::MAX } else { (a + b) as u16 }
}

pub open spec fn max_u16(a: u16, b: u16) -> u16 {
    if a >= b { a } else { b }
}

fn sat_sub_u_exec(a: i16, b: i16) -> (r: i16)
    ensures
        r == sat_sub_u(a, b),
{
    let x = a as u16;
    let y = b as u16;
    if x >= y { (x - y) as i16 } else { 0 }
}

fn sat_add_u_exec(a: i16, b: u16) -> (r: i16)
    ensures
        r == sat_add_u(a, b),
{
    let x = a as u16;
    if x as u32 + b as u32 > u16::MAX as u32 { u16::MAX as i16 } else { (x + b) as i16 }
}

fn sat_add_u16_exec(a: u16, b: u16) -> (r: u16)
    ensures
        r == sat_add_u16(a, b),
{
    if a as u32 + b as u32 > u16::MAX as u32 { u16::MAX } else { a + b }
}

/// Measuring the docked children: the room left, the children's size so
/// far, and the orientation and breadth of the current run.
#[derive(Clone, Copy, Debug)]
pub struct DockedMeasure {
    pub size: (Option<i16>, Option<i16>),
    pub children_size: Vector,
    pub orient: Option<Orient>,
    pub breadth: u16,
}

pub open spec fn is_hor(side: Side) -> bool {
    side == Side::Left || side == Side::Right
}

/// The children's size with the breadth of a run added across it.
pub open spec fn add_breadth(children_size: Vector, orient: Option<Orient>, breadth: u16) -> Vector {
    match orient {
        Some(Orient::Hor) => Vector { y: sat_add_u(children_size.y, breadth), ..children_size },
        Some(Orient::Vert) => Vector { x: sat_add_u(children_size.x, breadth), ..children_size },
        None => children_size,
    }
}

/// What a child docked at `side` is offered: no limit along its side.
pub open spec fn docked_request_spec(s: DockedMeasure, side: Side) -> (Option<i16>, Option<i16>) {
    (if is_hor(side) { None } else { s.size.0 }, if is_hor(side) { s.size.1 } else { None })
}

/// After a child docked at `side` wants `d`.
pub open spec fn docked_step_spec(s: DockedMeasure, side: Side, d: Vector) -> DockedMeasure {
    let (size, children_size, orient, breadth) = if is_hor(side) {
        (
            (match s.size.0 { Some(w) => Some(sat_sub_u(w, d.x)), None => None }, s.size.1),
            Vector { x: sat_add_u(s.children_size.x, d.x as u16), ..s.children_size },
            Orient::Hor,
            d.y as u16,
        )
    } else {
        (
            (s.size.0, match s.size.1 { Some(h) => Some(sat_sub_u(h, d.y)), None => None }),
            Vector { y: sat_add_u(s.children_size.y, d.y as u16), ..s.children_size },
            Orient::Vert,
            d.x as u16,
        )
    };
    if s.orient == Some(orient) {
        DockedMeasure { size, children_size, orient: s.orient, breadth: max_u16(s.breadth, breadth) }
    } else {
        DockedMeasure {
            size,
            children_size: add_breadth(children_size, s.orient, s.breadth),
            orient: Some(orient),
            breadth,
        }
    }
}

/// Measuring the shared children along orientation `orient`: the room along
/// it (the whole, and what is left for the last child), the room across it,
/// and the length and breadth so far.
#[derive(Clone, Copy, Debug)]
pub struct SharedMeasure {
    pub orient: Orient,
    pub along: Option<(i16, i16)>,
    pub across: Option<i16>,
    pub length: u16,
    pub breadth: u16,
}

pub open spec fn shared_start_spec(base: Side, size: (Option<i16>, Option<i16>)) -> SharedMeasure {
    if is_hor(base) {
        SharedMeasure {
            orient: Orient::Hor,
            along: match size.0 { Some(w) => Some((w, w)), None => None },
            across: size.1,
            length: 0,
            breadth: 0,
        }
    } else {
        SharedMeasure {
            orient: Orient::Vert,
            along: match size.1 { Some(h) => Some((h, h)), None => None },
            across: size.0,
            length: 0,
            breadth: 0,
        }
    }
}

/// What a shared child is offered along the panel: its share of the whole
/// (`share`, which the caller works out from the whole), or what is left
/// for the last one; and the room left after it.
pub open spec fn shared_request_spec(s: SharedMeasure, is_last: bool, share: i16) -> ((Option<i16>, Option<i16>), SharedMeasure) {
    let (along, child_along) = match s.along {
        Some((whole, left)) => if is_last {
            (Some((whole, left)), Some(left))
        } else {
            (Some((whole, sat_sub_u(left, share))), Some(share))
        },
        None => (None, None),
    };
    let request = match s.orient {
        Orient::Hor => (child_along, s.across),
        Orient::Vert => (s.across, child_along),
    };
    (request, SharedMeasure { along, ..s })
}

/// After a shared child wants `d`.
pub open spec fn shared_step_spec(s: SharedMeasure, d: Vector) -> SharedMeasure {
    match s.orient {
        Orient::Hor => SharedMeasure {
            length: sat_add_u16(s.length, d.x as u16),
            breadth: max_u16(s.breadth, d.y as u16),
            ..s
        },
        Orient::Vert => SharedMeasure {
            length: sat_add_u16(s.length, d.y as u16),
            breadth: max_u16(s.breadth, d.x as u16),
            ..s
        },
    }
}

/// The children's size with the shared children's length and breadth added.
pub open spec fn shared_finish_spec(children_size: Vector, s: SharedMeasure) -> Vector {
    match s.orient {
        Orient::Hor => Vector { x: sat_add_u(children_size.x, s.length), y: sat_add_u(children_size.y, s.breadth) },
        Orient::Vert => Vector { x: sat_add_u(children_size.x, s.breadth), y: sat_add_u(children_size.y, s.length) },
    }
}

/// The docked children's pass over the first `n` children.
pub open spec fn docked_pass(s: DockedMeasure, layouts: Seq<DockOf>, desired: Seq<Vector>, n: int) -> DockedMeasure
    decreases n,
{
    if n <= 0 {
        s
    } else {
        let prev = docked_pass(s, layouts, desired, n - 1);
        match layouts[n - 1] {
            DockOf::Docked(side) => docked_step_spec(prev, side, desired[n - 1]),
            DockOf::Shared => prev,
        }
    }
}

/// The index of the last shared child among the first `n`, or `-1`.
pub open spec fn last_shared(layouts: Seq<DockOf>, n: int) -> int
    decreases n,
{
    if n <= 0 {
        -1
    } else if layouts[n - 1] == DockOf::Shared {
        n - 1
    } else {
        last_shared(layouts, n - 1)
    }
}

/// The shared children's pass over the first `n` children.
pub open spec fn shared_pass(s: SharedMeasure, layouts: Seq<DockOf>, desired: Seq<Vector>, shares: Seq<i16>, last: int, n: int) -> SharedMeasure
    decreases n,
{
    if n <= 0 {
        s
    } else {
        let prev = shared_pass(s, layouts, desired, shares, last, n - 1);
        match layouts[n - 1] {
            DockOf::Shared => {
                let after = shared_request_spec(prev, n - 1 == last, shares[n - 1]).1;
                shared_step_spec(after, desired[n - 1])
            },
            DockOf::Docked(_) => prev,
        }
    }
}

/// The size of a dock panel's children, measured with `measure_size`: the
/// docked pass, then, where a child is shared, the shared pass along the
/// panel's base side.
pub open spec fn children_desired_size_spec(
    measure_size: (Option<i16>, Option<i16>),
    base: Side,
    layouts: Seq<DockOf>,
    desired: Seq<Vector>,
    shares: Seq<i16>,
) -> Vector {
    let start = DockedMeasure { size: measure_size, children_size: Vector { x: 0, y: 0 }, orient: None, breadth: 0 };
    let d = docked_pass(start, layouts, desired, layouts.len() as int);
    let children_size = add_breadth(d.children_size, d.orient, d.breadth);
    let last = last_shared(layouts, layouts.len() as int);
    if last < 0 {
        children_size
    } else {
        let s = shared_pass(shared_start_spec(base, d.size), layouts, desired, shares, last, last + 1);
        shared_finish_spec(children_size, s)
    }
}

/// The measuring and arranging of a dock panel's children in the view layer.
pub struct DockPanelBehavior;

impl DockPanelBehavior {
    pub fn docked_start(measure_size: (Option<i16>, Option<i16>)) -> (r: DockedMeasure)
        ensures
            r == (DockedMeasure { size: measure_size, children_size: Vector { x: 0, y: 0 }, orient: None, breadth: 0 }),
    {
        DockedMeasure { size: measure_size, children_size: Vector { x: 0, y: 0 }, orient: None, breadth: 0 }
    }

    /// What a child docked at `side` is offered.
    pub fn docked_request(s: &DockedMeasure, side: Side) -> (r: (Option<i16>, Option<i16>))
        ensures
            r == docked_request_spec(*s, side),
    {
        let hor = match side { Side::Left | Side::Right => true, _ => false };
        (if hor { None } else { s.size.0 }, if hor { s.size.1 } else { None })
    }

    /// After a child docked at `side` wants `d`.
    pub fn docked_step(s: DockedMeasure, side: Side, d: Vector) -> (r: DockedMeasure)
        ensures
            r == docked_step_spec(s, side, d),
    {
        let hor = match side { Side::Left | Side::Right => true, _ => false };
        let (size, children_size, orient, breadth) = if hor {
            (
                (match s.size.0 { Some(w) => Some(sat_sub_u_exec(w, d.x)), None => None }, s.size.1),
                Vector { x: sat_add_u_exec(s.children_size.x, d.x as u16), ..s.children_size },
                Orient::Hor,
                d.y as u16,
            )
        } else {
            (
                (s.size.0, match s.size.1 { Some(h) => Some(sat_sub_u_exec(h, d.y)), None => None }),
                Vector { y: sat_add_u_exec(s.children_size.y, d.y as u16), ..s.children_size },
                Orient::Vert,
                d.x as u16,
            )
        };
        let same = match (s.orient, orient) {
            (Some(Orient::Hor), Orient::Hor) => true,
            (Some(Orient::Vert), Orient::Vert) => true,
            _ => false,
        };
        if same {
            DockedMeasure { size, children_size, orient: s.orient, breadth: if s.breadth >= breadth { s.breadth } else { breadth } }
        } else {
            DockedMeasure {
                size,
                children_size: Self::add_breadth(children_size, s.orient, s.breadth),
                orient: Some(orient),
                breadth,
            }
        }
    }

    fn add_breadth(children_size: Vector, orient: Option<Orient>, breadth: u16) -> (r: Vector)
        ensures
            r == add_breadth(children_size, orient, breadth),
    {
        match orient {
            Some(Orient::Hor) => Vector { y: sat_add_u_exec(children_size.y, breadth), ..children_size },
            Some(Orient::Vert) => Vector { x: sat_add_u_exec(children_size.x, breadth), ..children_size },
            None => children_size,
        }
    }

    /// The docked children's size, with the last run's breadth added.
    pub fn docked_finish(s: &DockedMeasure) -> (r: Vector)
        ensures
            r == add_breadth(s.children_size, s.orient, s.breadth),
    {
        Self::add_breadth(s.children_size, s.orient, s.breadth)
    }

    /// Starts the shared pass along `base`, with the room the docked children left.
    pub fn shared_start(base: Side, size: (Option<i16>, Option<i16>)) -> (r: SharedMeasure)
        ensures
            r == shared_start_spec(base, size),
    {
        let hor = match base { Side::Left | Side::Right => true, _ => false };
        if hor {
            SharedMeasure {
                orient: Orient::Hor,
                along: match size.0 { Some(w) => Some((w, w)), None => None },
                across: size.1,
                length: 0,
                breadth: 0,
            }
        } else {
            SharedMeasure {
                orient: Orient::Vert,
                along: match size.1 { Some(h) => Some((h, h)), None => None },
                across: size.0,
                length: 0,
                breadth: 0,
            }
        }
    }

    /// What a shared child is offered, and the pass after it.
    pub fn shared_request(s: SharedMeasure, is_last: bool, share: i16) -> (r: ((Option<i16>, Option<i16>), SharedMeasure))
        ensures
            r == shared_request_spec(s, is_last, share),
    {
        let (along, child_along) = match s.along {
            Some((whole, left)) => if is_last {
                (Some((whole, left)), Some(left))
            } else {
                (Some((whole, sat_sub_u_exec(left, share))), Some(share))
            },
            None => (None, None),
        };
        let request = match s.orient {
            Orient::Hor => (child_along, s.across),
            Orient::Vert => (s.across, child_along),
        };
        (request, SharedMeasure { along, ..s })
    }

    /// After a shared child wants `d`.
    pub fn shared_step(s: SharedMeasure, d: Vector) -> (r: SharedMeasure)
        ensures
            r == shared_step_spec(s, d),
    {
        match s.orient {
            Orient::Hor => SharedMeasure {
                length: sat_add_u16_exec(s.length, d.x as u16),
                breadth: if s.breadth >= d.y as u16 { s.breadth } else { d.y as u16 },
                ..s
            },
            Orient::Vert => SharedMeasure {
                length: sat_add_u16_exec(s.length, d.y as u16),
                breadth: if s.breadth >= d.x as u16 { s.breadth } else { d.x as u16 },
                ..s
            },
        }
    }

    pub fn shared_finish(children_size: Vector, s: &SharedMeasure) -> (r: Vector)
        ensures
            r == shared_finish_spec(children_size, *s),
    {
        match s.orient {
            Orient::Hor => Vector { x: sat_add_u_exec(children_size.x, s.length), y: sat_add_u_exec(children_size.y, s.breadth) },
            Orient::Vert => Vector { x: sat_add_u_exec(children_size.x, s.breadth), y: sat_add_u_exec(children_size.y, s.length) },
        }
    }

    /// The size of the children, measured with `measure_size`, from each
    /// child's layout, the size it wants, and (for a shared child) its share
    /// of the room along the base side.
    pub fn children_desired_size(
        measure_size: (Option<i16>, Option<i16>),
        base: Side,
        layouts: &[DockOf],
        desired: &[Vector],
        shares: &[i16],
    ) -> (r: Vector)
        requires
            desired@.len() == layouts@.len(),
            shares@.len() == layouts@.len(),
        ensures
            r == children_desired_size_spec(measure_size, base, layouts@, desired@, shares@),
    {
        let n = layouts.len();
        let mut d = Self::docked_start(measure_size);
        let mut last: usize = n;
        let mut i: usize = 0;
        while i < n
            invariant
                i <= n == layouts@.len() == desired@.len() == shares@.len(),
                d == docked_pass(Self::docked_start_ghost(measure_size), layouts@, desired@, i as int),
                last <= n,
                (last == n) == (last_shared(layouts@, i as int) < 0),
                last < n ==> last as int == last_shared(layouts@, i as int),
            decreases n - i,
        {
            match layouts[i] {
                DockOf::Docked(side) => {
                    d = Self::docked_step(d, side, desired[i]);
                },
                DockOf::Shared => {
                    last = i;
                },
            }
            i = i + 1;
            proof {
                lemma_last_shared_bounds(layouts@, i as int);
            }
        }
        let children_size = Self::docked_finish(&d);
        if last == n {
            return children_size;
        }
        let mut s = Self::shared_start(base, d.size);
        let ghost s0 = s;
        let mut k: usize = 0;
        while k <= last
            invariant
                k <= last + 1,
                last < n == layouts@.len() == desired@.len() == shares@.len(),
                s == shared_pass(s0, layouts@, desired@, shares@, last as int, k as int),
            decreases last + 1 - k,
        {
            match layouts[k] {
                DockOf::Shared => {
                    let (_request, after) = Self::shared_request(s, k == last, shares[k]);
                    s = Self::shared_step(after, desired[k]);
                },
                DockOf::Docked(_) => {},
            }
            k = k + 1;
        }
        Self::shared_finish(children_size, &s)
    }

    pub open spec fn docked_start_ghost(measure_size: (Option<i16>, Option<i16>)) -> DockedMeasure {
        DockedMeasure { size: measure_size, children_size: Vector { x: 0, y: 0 }, orient: None, breadth: 0 }
    }
}

pub proof fn lemma_last_shared_bounds(layouts: Seq<DockOf>, n: int)
    requires
        n >= 0,
    ensures
        last_shared(layouts, n) < n,
        last_shared(layouts, n) >= -1,
    decreases n,
{
    if n > 0 && layouts[n - 1] != DockOf::Shared {
        lemma_last_shared_bounds(layouts, n - 1);
    }
}


/// The strip at `side` of `bounds` that a child `length` long takes.
pub open spec fn strip_at(bounds: Rect, side: Side, length: Vector) -> Rect {
    let size = match side {
        Side::Left | Side::Right => Vector { x: length.x, y: bounds.size.y },
        Side::Top | Side::Bottom => Vector { x: bounds.size.x, y: length.y },
    };
    let tl = match side {
        Side::Left | Side::Top => bounds.tl,
        Side::Right => Point { x: wrap16(rect_r(bounds) - size.x), y: bounds.tl.y },
        Side::Bottom => Point { x: bounds.tl.x, y: wrap16(rect_b(bounds) - size.y) },
    };
    Rect { tl, size }
}

/// How much of `bounds` a strip at `side` cuts off: its length, at most that
/// of `bounds`, read as unsigned.
pub open spec fn cut_of(bounds: Rect, side: Side, strip: Rect) -> Thickness {
    let w = if uv(strip.size.x) <= uv(bounds.size.x) { uv(strip.size.x) } else { uv(bounds.size.x) };
    let h = if uv(strip.size.y) <= uv(bounds.size.y) { uv(strip.size.y) } else { uv(bounds.size.y) };
    match side {
        Side::Left => Thickness { l: w as i32, t: 0, r: 0, b: 0 },
        Side::Right => Thickness { l: 0, t: 0, r: w as i32, b: 0 },
        Side::Top => Thickness { l: 0, t: h as i32, r: 0, b: 0 },
        Side::Bottom => Thickness { l: 0, t: 0, r: 0, b: h as i32 },
    }
}

/// What is left of `bounds` after the strip at `side` is cut off.
pub open spec fn after_strip(bounds: Rect, side: Side, strip: Rect) -> Rect {
    thickness_shrink_rect(cut_of(bounds, side, strip), bounds)
}

/// What the docked children among the first `n` leave of `bounds`.
pub open spec fn docked_left(bounds: Rect, layouts: Seq<DockOf>, desired: Seq<Vector>, n: int) -> Rect
    decreases n,
{
    if n <= 0 {
        bounds
    } else {
        let b = docked_left(bounds, layouts, desired, n - 1);
        match layouts[n - 1] {
            DockOf::Docked(side) => after_strip(b, side, strip_at(b, side, desired[n - 1])),
            DockOf::Shared => b,
        }
    }
}

/// The docked children among the first `n` united, each cut to `bounds`,
/// starting from the empty rectangle at the top left of `bounds`.
pub open spec fn docked_union(bounds: Rect, layouts: Seq<DockOf>, desired: Seq<Vector>, n: int) -> Rect
    decreases n,
{
    if n <= 0 {
        Rect { tl: bounds.tl, size: Vector { x: 0, y: 0 } }
    } else {
        let u = docked_union(bounds, layouts, desired, n - 1);
        match layouts[n - 1] {
            DockOf::Docked(side) => rect_union_intersect(u, strip_at(docked_left(bounds, layouts, desired, n - 1), side, desired[n - 1]), bounds),
            DockOf::Shared => u,
        }
    }
}

/// The strip a shared child gets of `bounds`, along `base`: its `share` of
/// the room the docked children left, or all of `bounds` for the last one.
pub open spec fn shared_strip(bounds: Rect, base: Side, is_last: bool, share: i16) -> Rect {
    if is_last {
        strip_at(bounds, base, bounds.size)
    } else {
        strip_at(bounds, base, Vector { x: share, y: share })
    }
}

/// What the shared children among the first `n` leave of `bounds`.
pub open spec fn shared_left(bounds: Rect, base: Side, layouts: Seq<DockOf>, shares: Seq<i16>, last: int, n: int) -> Rect
    decreases n,
{
    if n <= 0 {
        bounds
    } else {
        let b = shared_left(bounds, base, layouts, shares, last, n - 1);
        match layouts[n - 1] {
            DockOf::Shared => after_strip(b, base, shared_strip(b, base, n - 1 == last, shares[n - 1])),
            DockOf::Docked(_) => b,
        }
    }
}

/// The rectangle child `i` is arranged in, within `bounds`.
pub open spec fn child_rect_spec(bounds: Rect, base: Side, layouts: Seq<DockOf>, desired: Seq<Vector>, shares: Seq<i16>, i: int) -> Rect {
    match layouts[i] {
        DockOf::Docked(side) => {
            let b = docked_left(bounds, layouts, desired, i);
            strip_at(b, side, desired[i])
        },
        DockOf::Shared => {
            let rest = docked_left(bounds, layouts, desired, layouts.len() as int);
            let last = last_shared(layouts, layouts.len() as int);
            let b = shared_left(rest, base, layouts, shares, last, i);
            shared_strip(b, base, i == last, shares[i])
        },
    }
}

fn strip_at_exec(bounds: Rect, side: Side, length: Vector) -> (r: Rect)
    ensures
        r == strip_at(bounds, side, length),
{
    let size = match side {
        Side::Left | Side::Right => Vector { x: length.x, y: bounds.size.y },
        Side::Top | Side::Bottom => Vector { x: bounds.size.x, y: length.y },
    };
    let r = bounds.tl.x.wrapping_add(bounds.size.x);
    let b = bounds.tl.y.wrapping_add(bounds.size.y);
    proof {
        crate::num::lemma_wrapping_add(bounds.tl.x, bounds.size.x);
        crate::num::lemma_wrapping_add(bounds.tl.y, bounds.size.y);
        crate::num::lemma_wrapping_sub(r, size.x);
        crate::num::lemma_wrapping_sub(b, size.y);
    }
    let tl = match side {
        Side::Left | Side::Top => bounds.tl,
        Side::Right => Point { x: r.wrapping_sub(size.x), y: bounds.tl.y },
        Side::Bottom => Point { x: bounds.tl.x, y: b.wrapping_sub(size.y) },
    };
    Rect { tl, size }
}

fn after_strip_exec(bounds: Rect, side: Side, strip: Rect) -> (r: Rect)
    ensures
        r == after_strip(bounds, side, strip),
{
    let sw = to_u16(strip.size.x);
    let bw = to_u16(bounds.size.x);
    let sh = to_u16(strip.size.y);
    let bh = to_u16(bounds.size.y);
    let w: i32 = if sw <= bw { sw as i32 } else { bw as i32 };
    let h: i32 = if sh <= bh { sh as i32 } else { bh as i32 };
    let th = match side {
        Side::Left => Thickness { l: w, t: 0, r: 0, b: 0 },
        Side::Right => Thickness { l: 0, t: 0, r: w, b: 0 },
        Side::Top => Thickness { l: 0, t: h, r: 0, b: 0 },
        Side::Bottom => Thickness { l: 0, t: 0, r: 0, b: h },
    };
    proof {
        assert(th == cut_of(bounds, side, strip));
        assert(side_ok(w as int) && side_ok(h as int) && side_ok(0));
    }
    th.shrink_rect(bounds)
}

impl DockPanelBehavior {
    /// What the docked children leave of `bounds`: the room the shared
    /// children share.
    pub fn docked_rest(bounds: Rect, layouts: &[DockOf], desired: &[Vector]) -> (r: Rect)
        requires
            desired@.len() == layouts@.len(),
        ensures
            r == docked_left(bounds, layouts@, desired@, layouts@.len() as int),
    {
        let mut b = bounds;
        let mut i: usize = 0;
        while i < layouts.len()
            invariant
                i <= layouts@.len() == desired@.len(),
                b == docked_left(bounds, layouts@, desired@, i as int),
            decreases layouts@.len() - i,
        {
            if let DockOf::Docked(side) = layouts[i] {
                let strip = strip_at_exec(b, side, desired[i]);
                b = after_strip_exec(b, side, strip);
            }
            i = i + 1;
        }
        b
    }

    /// The rectangles the children are arranged in within `bounds`, from
    /// each child's layout, the size it wants, and (for a shared child) its
    /// share of the room along the base side; and the bounds of the
    /// children: all of `bounds` when one of them is shared, else the docked
    /// rectangles united and cut to `bounds` (the empty rectangle at the top
    /// left of `bounds` when there are none).
    pub fn children_arrange(
        bounds: Rect,
        base: Side,
        layouts: &[DockOf],
        desired: &[Vector],
        shares: &[i16],
    ) -> (r: (Vec<Rect>, Rect))
        requires
            desired@.len() == layouts@.len(),
            shares@.len() == layouts@.len(),
        ensures
            r.0@.len() == layouts@.len(),
            forall|i: int| 0 <= i < layouts@.len() ==>
                #[trigger] r.0@[i] == child_rect_spec(bounds, base, layouts@, desired@, shares@, i),
            r.1 == (if last_shared(layouts@, layouts@.len() as int) < 0 {
                docked_union(bounds, layouts@, desired@, layouts@.len() as int)
            } else {
                bounds
            }),
    {
        let n = layouts.len();
        let mut rects: Vec<Rect> = Vec::new();
        let mut b = bounds;
        let mut united = Rect { tl: bounds.tl, size: Vector { x: 0, y: 0 } };
        let mut last: usize = n;
        let mut i: usize = 0;
        while i < n
            invariant
                i <= n == layouts@.len() == desired@.len() == shares@.len(),
                b == docked_left(bounds, layouts@, desired@, i as int),
                united == docked_union(bounds, layouts@, desired@, i as int),
                rects@.len() == i,
                forall|j: int| 0 <= j < i ==> (#[trigger] layouts@[j] matches DockOf::Docked(side) ==>
                    rects@[j] == strip_at(docked_left(bounds, layouts@, desired@, j), side, desired@[j])),
                last <= n,
                (last == n) == (last_shared(layouts@, i as int) < 0),
                last < n ==> last as int == last_shared(layouts@, i as int),
            decreases n - i,
        {
            match layouts[i] {
                DockOf::Docked(side) => {
                    let strip = strip_at_exec(b, side, desired[i]);
                    rects.push(strip);
                    united = united.union_intersect(strip, bounds);
                    b = after_strip_exec(b, side, strip);
                },
                DockOf::Shared => {
                    rects.push(b);
                    last = i;
                },
            }
            i = i + 1;
            proof {
                lemma_last_shared_bounds(layouts@, i as int);
            }
        }
        if last == n {
            proof {
                assert forall|j: int| 0 <= j < layouts@.len() implies
                    #[trigger] rects@[j] == child_rect_spec(bounds, base, layouts@, desired@, shares@, j) by {
                    if layouts@[j] is Shared {
                        lemma_no_shared(layouts@, n as int, j);
                    }
                }
            }
            return (rects, united);
        }
        let ghost rest = b;
        let mut k: usize = 0;
        while k <= last
            invariant
                k <= last + 1,
                last < n == layouts@.len() == desired@.len() == shares@.len(),
                last as int == last_shared(layouts@, n as int),
                rest == docked_left(bounds, layouts@, desired@, n as int),
                b == shared_left(rest, base, layouts@, shares@, last as int, k as int),
                rects@.len() == n,
                forall|j: int| 0 <= j < n ==> (#[trigger] layouts@[j] matches DockOf::Docked(side) ==>
                    rects@[j] == strip_at(docked_left(bounds, layouts@, desired@, j), side, desired@[j])),
                forall|j: int| 0 <= j < k ==> (#[trigger] layouts@[j] is Shared ==>
                    rects@[j] == shared_strip(shared_left(rest, base, layouts@, shares@, last as int, j), base, j == last, shares@[j])),
            decreases last + 1 - k,
        {
            match layouts[k] {
                DockOf::Shared => {
                    let strip = if k == last {
                        strip_at_exec(b, base, b.size)
                    } else {
                        strip_at_exec(b, base, Vector { x: shares[k], y: shares[k] })
                    };
                    rects.set(k, strip);
                    b = after_strip_exec(b, base, strip);
                },
                DockOf::Docked(_) => {},
            }
            k = k + 1;
        }
        proof {
            assert forall|j: int| 0 <= j < layouts@.len() implies
                #[trigger] rects@[j] == child_rect_spec(bounds, base, layouts@, desired@, shares@, j) by {
                if layouts@[j] is Shared {
                    lemma_shared_before_last(layouts@, n as int, j);
                }
            }
        }
        (rects, bounds)
    }
}

/// Where no child among the first `n` is shared, child `j` is not shared.
pub proof fn lemma_no_shared(layouts: Seq<DockOf>, n: int, j: int)
    requires
        0 <= j < n <= layouts.len(),
        last_shared(layouts, n) < 0,
    ensures
        layouts[j] != DockOf::Shared,
    decreases n,
{
    if layouts[n - 1] != DockOf::Shared && j < n - 1 {
        lemma_no_shared(layouts, n - 1, j);
    }
}

/// A shared child among the first `n` comes no later than the last one.
pub proof fn lemma_shared_before_last(layouts: Seq<DockOf>, n: int, j: int)
    requires
        0 <= j < n <= layouts.len(),
        layouts[j] == DockOf::Shared,
    ensures
        j <= last_shared(layouts, n),
    decreases n,
{
    if layouts[n - 1] != DockOf::Shared {
        lemma_shared_before_last(layouts, n - 1, j);
    }
}

} // verus!
