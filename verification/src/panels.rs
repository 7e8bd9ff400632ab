//! Layout of panels: how a panel offers room to its children, and how it
//! sizes and places them from what they answer.
//!
//! A panel's measure pass asks each child for its desired size; its arrange
//! pass gives each child its final bounds.  The functions here take the
//! children's answers, in child order, and compute the panel's part.

use vstd::prelude::*;
use crate::num::{uv, from_uv, wrap16, to_u16, from_u16, wsub, lemma_wrap16_id, lemma_wrap16_add_right, lemma_wrap16_shift};
use crate::geom::{
    Point, Vector, Rect, Thickness, vec_max, vec_add, point_offset, rect_r, rect_b,
    rect_from_tl_br, thickness_shrink_rect, thickness_shrink_size, thickness_expand_size,
    thickness_add,
};

verus! {

pub open spec fn zero_vec() -> Vector {
    Vector { x: 0, y: 0 }
}

/// The componentwise largest of some sizes (zero for none).
pub open spec fn max_fold(ds: Seq<Vector>) -> Vector
    decreases ds.len(),
{
    if ds.len() == 0 {
        zero_vec()
    } else {
        vec_max(max_fold(ds.drop_last()), ds.last())
    }
}

/// The componentwise largest of the sizes in `ds`, zero for none.
pub fn max_size_of(ds: &[Vector]) -> (r: Vector)
    ensures
        r == max_fold(ds@),
{
    let mut size = Vector::null();
    let mut i: usize = 0;
    while i < ds.len()
        invariant
            i <= ds@.len(),
            size == max_fold(ds@.take(i as int)),
        decreases ds@.len() - i,
    {
        proof {
            assert(ds@.take(i as int + 1).drop_last() == ds@.take(i as int));
        }
        size = size.max(ds[i]);
        i = i + 1;
    }
    proof {
        assert(ds@.take(ds@.len() as int) == ds@);
    }
    size
}

// ------------------------------------------------------------------ stack

/// What a stack panel offers each child: the full breadth across the
/// stacking direction, no limit along it.
pub open spec fn stack_request(vertical: bool, aw: Option<i16>, ah: Option<i16>) -> (Option<i16>, Option<i16>) {
    if vertical { (aw, None) } else { (None, ah) }
}

/// A stack panel's size after one more child of desired size `d`: the
/// lengths add up along the stacking direction, the breadths take the largest.
pub open spec fn stack_measure_step(vertical: bool, size: Vector, d: Vector) -> Vector {
    if vertical {
        vec_max(vec_add(size, Vector { x: 0, y: d.y }), Vector { x: d.x, y: 0 })
    } else {
        vec_max(vec_add(size, Vector { x: d.x, y: 0 }), Vector { x: 0, y: d.y })
    }
}

pub open spec fn stack_measure_fold(vertical: bool, ds: Seq<Vector>) -> Vector
    decreases ds.len(),
{
    if ds.len() == 0 {
        zero_vec()
    } else {
        stack_measure_step(vertical, stack_measure_fold(vertical, ds.drop_last()), ds.last())
    }
}

/// The size a stack panel gives a child of desired size `d` in bounds `fb`.
pub open spec fn stack_child_size(vertical: bool, fb: Rect, d: Vector) -> Vector {
    if vertical { Vector { x: fb.size.x, y: d.y } } else { Vector { x: d.x, y: fb.size.y } }
}

/// The position of the next child and the size so far, after the first `n`
/// children of a stack panel arranged in `fb`.
pub open spec fn stack_arrange_state(vertical: bool, fb: Rect, ds: Seq<Vector>, n: int) -> (Point, Vector)
    decreases n,
{
    if n <= 0 {
        (fb.tl, zero_vec())
    } else {
        let (pos, size) = stack_arrange_state(vertical, fb, ds, n - 1);
        let cs = stack_child_size(vertical, fb, ds[n - 1]);
        let step = if vertical { Vector { x: 0, y: cs.y } } else { Vector { x: cs.x, y: 0 } };
        (point_offset(pos, step), stack_measure_step(vertical, size, cs))
    }
}

/// The bounds of child `i` of a stack panel arranged in `fb`.
pub open spec fn stack_child_rect(vertical: bool, fb: Rect, ds: Seq<Vector>, i: int) -> Rect {
    Rect { tl: stack_arrange_state(vertical, fb, ds, i).0, size: stack_child_size(vertical, fb, ds[i]) }
}

/// A panel that puts its children one after another, top to bottom
/// (vertical) or left to right.
#[derive(Clone, Copy, Debug, Default)]
pub struct StackPanelWidget;

impl StackPanelWidget {
    /// What to offer each child when the panel is offered `aw` by `ah`.
    pub fn child_request(vertical: bool, aw: Option<i16>, ah: Option<i16>) -> (r: (Option<i16>, Option<i16>))
        ensures
            r == stack_request(vertical, aw, ah),
    {
        if vertical { (aw, None) } else { (None, ah) }
    }

    /// The panel's desired size, from its children's desired sizes.
    pub fn measure(vertical: bool, desired: &[Vector]) -> (r: Vector)
        ensures
            r == stack_measure_fold(vertical, desired@),
    {
        let mut size = Vector::null();
        let mut i: usize = 0;
        while i < desired.len()
            invariant
                i <= desired@.len(),
                size == stack_measure_fold(vertical, desired@.take(i as int)),
            decreases desired@.len() - i,
        {
            proof {
                assert(desired@.take(i as int + 1).drop_last() == desired@.take(i as int));
            }
            let d = desired[i];
            if vertical {
                size = size.add(Vector { x: 0, y: d.y }).max(Vector { x: d.x, y: 0 });
            } else {
                size = size.add(Vector { x: d.x, y: 0 }).max(Vector { x: 0, y: d.y });
            }
            i = i + 1;
        }
        proof {
            assert(desired@.take(desired@.len() as int) == desired@);
        }
        size
    }

    /// The children's bounds and the panel's arranged size, for final
    /// bounds `fb` and the children's desired sizes.
    pub fn arrange(vertical: bool, fb: Rect, desired: &[Vector]) -> (r: (Vec<Rect>, Vector))
        ensures
            r.0@.len() == desired@.len(),
            forall|i: int| 0 <= i < desired@.len() ==> #[trigger] r.0@[i] == stack_child_rect(vertical, fb, desired@, i),
            r.1 == stack_arrange_state(vertical, fb, desired@, desired@.len() as int).1,
    {
        let mut rects: Vec<Rect> = Vec::new();
        let mut pos = fb.tl;
        let mut size = Vector::null();
        let mut i: usize = 0;
        while i < desired.len()
            invariant
                i <= desired@.len(),
                rects@.len() == i,
                (pos, size) == stack_arrange_state(vertical, fb, desired@, i as int),
                forall|j: int| 0 <= j < i ==> #[trigger] rects@[j] == stack_child_rect(vertical, fb, desired@, j),
            decreases desired@.len() - i,
        {
            let d = desired[i];
            let cs = if vertical { Vector { x: fb.size.x, y: d.y } } else { Vector { x: d.x, y: fb.size.y } };
            rects.push(Rect { tl: pos, size: cs });
            if vertical {
                pos = pos.offset(Vector { x: 0, y: cs.y });
                size = size.add(Vector { x: 0, y: cs.y }).max(Vector { x: cs.x, y: 0 });
            } else {
                pos = pos.offset(Vector { x: cs.x, y: 0 });
                size = size.add(Vector { x: cs.x, y: 0 }).max(Vector { x: 0, y: cs.y });
            }
            i = i + 1;
        }
        (rects, size)
    }
}

/// What a stretch panel offers a child: its share of the room along the
/// panel (where there is a limit), all the room across it.
pub open spec fn stretch_request(vertical: bool, aw: Option<i16>, ah: Option<i16>, share: i16) -> (Option<i16>, Option<i16>) {
    if vertical {
        (aw, match ah { Some(_) => Some(share), None => None })
    } else {
        (match aw { Some(_) => Some(share), None => None }, ah)
    }
}

/// Lengths along a stretch panel, as the sizes a stack panel would place.
pub open spec fn stretch_sizes(lengths: Seq<i16>) -> Seq<Vector> {
    lengths.map_values(|l: i16| Vector { x: l, y: l })
}

/// A panel that shares its length among its children by their stretch
/// factors; the shares (worked out in floating point) come from the caller,
/// the rest is laid out as a stack.
#[derive(Clone, Copy, Debug, Default)]
pub struct StretchPanelWidget;

impl StretchPanelWidget {
    /// What to offer a child whose share of the room along the panel is `share`.
    pub fn child_request(vertical: bool, aw: Option<i16>, ah: Option<i16>, share: i16) -> (r: (Option<i16>, Option<i16>))
        ensures
            r == stretch_request(vertical, aw, ah, share),
    {
        if vertical {
            (aw, match ah { Some(_) => Some(share), None => None })
        } else {
            (match aw { Some(_) => Some(share), None => None }, ah)
        }
    }

    /// The panel's desired size: the lengths add up along the panel, the
    /// breadths take the largest.
    pub fn measure(vertical: bool, desired: &[Vector]) -> (r: Vector)
        ensures
            r == stack_measure_fold(vertical, desired@),
    {
        StackPanelWidget::measure(vertical, desired)
    }

    /// The children's bounds, one after another with the given lengths along
    /// the panel and the whole breadth across it, and the panel's size.
    pub fn arrange(vertical: bool, fb: Rect, lengths: &[i16]) -> (r: (Vec<Rect>, Vector))
        ensures
            r.0@.len() == lengths@.len(),
            forall|i: int| 0 <= i < lengths@.len() ==> #[trigger] r.0@[i] == stack_child_rect(vertical, fb, stretch_sizes(lengths@), i),
            r.1 == stack_arrange_state(vertical, fb, stretch_sizes(lengths@), lengths@.len() as int).1,
    {
        let mut sizes: Vec<Vector> = Vec::new();
        let mut i: usize = 0;
        while i < lengths.len()
            invariant
                i <= lengths@.len(),
                sizes@ == stretch_sizes(lengths@.take(i as int)),
            decreases lengths@.len() - i,
        {
            sizes.push(Vector { x: lengths[i], y: lengths[i] });
            i = i + 1;
            proof {
                assert(sizes@ =~= stretch_sizes(lengths@.take(i as int)));
            }
        }
        proof {
            assert(lengths@.take(lengths@.len() as int) =~= lengths@);
        }
        StackPanelWidget::arrange(vertical, fb, sizes.as_slice())
    }
}

/// A grid's place for a child: its cell and how many rows and columns it spans.
#[derive(Clone, Copy, Debug, PartialEq, Eq, Structural)]
pub struct GridLayout {
    pub row: usize,
    pub column: usize,
    pub row_span: usize,
    pub column_span: usize,
}

impl GridLayout {
    /// The place of a child that was given none: the first cell, one cell large.
    pub fn new() -> (r: GridLayout)
        ensures
            r == (GridLayout { row: 0, column: 0, row_span: 1, column_span: 1 }),
    {
        GridLayout { row: 0, column: 0, row_span: 1, column_span: 1 }
    }
}

/// A grid panel; it lays its children out in a stack, one per line.
#[derive(Clone, Copy, Debug, Default)]
pub struct GridWidget;

impl GridWidget {
    pub fn child_request(vertical: bool, aw: Option<i16>, ah: Option<i16>) -> (r: (Option<i16>, Option<i16>))
        ensures
            r == stack_request(vertical, aw, ah),
    {
        StackPanelWidget::child_request(vertical, aw, ah)
    }

    pub fn measure(vertical: bool, desired: &[Vector]) -> (r: Vector)
        ensures
            r == stack_measure_fold(vertical, desired@),
    {
        StackPanelWidget::measure(vertical, desired)
    }

    pub fn arrange(vertical: bool, fb: Rect, desired: &[Vector]) -> (r: (Vec<Rect>, Vector))
        ensures
            r.0@.len() == desired@.len(),
            forall|i: int| 0 <= i < desired@.len() ==> #[trigger] r.0@[i] == stack_child_rect(vertical, fb, desired@, i),
            r.1 == stack_arrange_state(vertical, fb, desired@, desired@.len() as int).1,
    {
        StackPanelWidget::arrange(vertical, fb, desired)
    }
}

// ------------------------------------------------------------------ dock

/// The side of a dock panel that a child sticks to.
#[derive(Clone, Copy, Debug, PartialEq, Eq, Hash, Structural)]
pub enum Dock {
    Left,
    Top,
    Right,
    Bottom,
}

/// `a - b` on sizes read as unsigned 16-bit numbers, stopping at zero.
pub open spec fn sat_sub16(a: i16, b: i16) -> i16 {
    if uv(a) >= uv(b) { from_uv(uv(a) - uv(b)) } else { 0 }
}

fn sat_sub16_exec(a: i16, b: i16) -> (r: i16)
    ensures
        r == sat_sub16(a, b),
{
    let au = to_u16(a);
    let bu = to_u16(b);
    if au >= bu {
        from_u16(au - bu)
    } else {
        0
    }
}

/// The room a docked child takes from its side.
pub open spec fn dock_thickness(dock: Dock, d: Vector) -> Thickness {
    match dock {
        Dock::Left => Thickness { l: d.x as i32, t: 0, r: 0, b: 0 },
        Dock::Top => Thickness { l: 0, t: d.y as i32, r: 0, b: 0 },
        Dock::Right => Thickness { l: 0, t: 0, r: d.x as i32, b: 0 },
        Dock::Bottom => Thickness { l: 0, t: 0, r: 0, b: d.y as i32 },
    }
}

/// Size and docked room after one more docked child of size `d`: the
/// child's breadth counts towards the size, and its length is docked.
pub open spec fn dock_absorb(size: Vector, docked: Thickness, dock: Dock, d: Vector) -> (Vector, Thickness) {
    let size1 = match dock {
        Dock::Left | Dock::Right => vec_max(size, Vector { x: 0, y: d.y }),
        Dock::Top | Dock::Bottom => vec_max(size, Vector { x: d.x, y: 0 }),
    };
    let dc = dock_thickness(dock, d);
    (thickness_shrink_size(dc, size1), thickness_add(docked, dc))
}

/// The state of a dock panel's measure pass.
#[derive(Clone, Copy, Debug)]
pub struct DockMeasure {
    pub available_width: Option<i16>,
    pub available_height: Option<i16>,
    pub size: Vector,
    pub docked: Thickness,
}

/// What to offer a child docked at `dock`: no limit along the docking
/// direction, the room left across it.
pub open spec fn dock_request(s: DockMeasure, dock: Dock) -> (Option<i16>, Option<i16>) {
    match dock {
        Dock::Left | Dock::Right => (None, s.available_height),
        Dock::Top | Dock::Bottom => (s.available_width, None),
    }
}

/// The measure state after a child docked at `dock` answered `d`.
pub open spec fn dock_measure_step(s: DockMeasure, dock: Dock, d: Vector) -> DockMeasure {
    let (size, docked) = dock_absorb(s.size, s.docked, dock, d);
    DockMeasure {
        available_width: match dock {
            Dock::Left | Dock::Right => match s.available_width { Some(a) => Some(sat_sub16(a, d.x)), None => None },
            _ => s.available_width,
        },
        available_height: match dock {
            Dock::Top | Dock::Bottom => match s.available_height { Some(a) => Some(sat_sub16(a, d.y)), None => None },
            _ => s.available_height,
        },
        size,
        docked,
    }
}

/// The measure state after a filling (undocked) child answered `d`.
pub open spec fn dock_fill_step(s: DockMeasure, d: Vector) -> DockMeasure {
    DockMeasure { size: vec_max(s.size, d), ..s }
}

/// The measure state after the first `n` children, docked ones answering
/// first (in order) and then the filling ones: `docks[i]` is the dock of
/// child `i` and `ds[i]` its answer.
pub open spec fn dock_measure_docked(s: DockMeasure, docks: Seq<Option<Dock>>, ds: Seq<Vector>, n: int) -> DockMeasure
    decreases n,
{
    if n <= 0 {
        s
    } else {
        let s1 = dock_measure_docked(s, docks, ds, n - 1);
        match docks[n - 1] {
            Some(dock) => dock_measure_step(s1, dock, ds[n - 1]),
            None => s1,
        }
    }
}

pub open spec fn dock_measure_fill(s: DockMeasure, docks: Seq<Option<Dock>>, ds: Seq<Vector>, n: int) -> DockMeasure
    decreases n,
{
    if n <= 0 {
        s
    } else {
        let s1 = dock_measure_fill(s, docks, ds, n - 1);
        match docks[n - 1] {
            Some(_) => s1,
            None => dock_fill_step(s1, ds[n - 1]),
        }
    }
}

pub open spec fn dock_start(aw: Option<i16>, ah: Option<i16>) -> DockMeasure {
    DockMeasure {
        available_width: aw,
        available_height: ah,
        size: zero_vec(),
        docked: Thickness { l: 0, t: 0, r: 0, b: 0 },
    }
}

/// A dock panel's desired size: the docked room around the largest size seen.
pub open spec fn dock_result(s: DockMeasure) -> Vector {
    thickness_expand_size(s.docked, s.size)
}

/// The bounds a child docked at `dock` gets inside the room `bounds` left.
pub open spec fn dock_child_rect(bounds: Rect, dock: Dock, d: Vector) -> Rect {
    match dock {
        Dock::Left => Rect { tl: bounds.tl, size: Vector { x: d.x, y: bounds.size.y } },
        Dock::Top => Rect { tl: bounds.tl, size: Vector { x: bounds.size.x, y: d.y } },
        Dock::Right => rect_from_tl_br(
            Point { x: wrap16(rect_r(bounds) - d.x), y: bounds.tl.y },
            Point { x: rect_r(bounds), y: rect_b(bounds) },
        ),
        Dock::Bottom => rect_from_tl_br(
            Point { x: bounds.tl.x, y: wrap16(rect_b(bounds) - d.y) },
            Point { x: rect_r(bounds), y: rect_b(bounds) },
        ),
    }
}

impl DockMeasure {
    pub open spec fn wf(self) -> bool {
        self.docked.wf()
    }
}

/// A panel that sticks children to its sides, in order, and lets the
/// undocked ones fill what is left.
#[derive(Clone, Copy, Debug, Default)]
pub struct DockPanelWidget;

impl DockPanelWidget {
    /// The state a measure pass starts from when the panel is offered `aw` by `ah`.
    pub fn measure_start(aw: Option<i16>, ah: Option<i16>) -> (r: DockMeasure)
        ensures
            r == dock_start(aw, ah),
            r.wf(),
    {
        DockMeasure { available_width: aw, available_height: ah, size: Vector::null(), docked: Thickness::all(0) }
    }

    /// What to offer a child docked at `dock`.
    pub fn docked_request(s: &DockMeasure, dock: Dock) -> (r: (Option<i16>, Option<i16>))
        ensures
            r == dock_request(*s, dock),
    {
        match dock {
            Dock::Left | Dock::Right => (None, s.available_height),
            Dock::Top | Dock::Bottom => (s.available_width, None),
        }
    }

    /// Takes in the answer `d` of a child docked at `dock`.
    pub fn docked_step(s: DockMeasure, dock: Dock, d: Vector) -> (r: DockMeasure)
        requires
            s.wf(),
        ensures
            r == dock_measure_step(s, dock, d),
            r.wf(),
    {
        let (size, docked) = absorb(s.size, s.docked, dock, d);
        let available_width = match dock {
            Dock::Left | Dock::Right => match s.available_width {
                Some(a) => Some(sat_sub16_exec(a, d.x)),
                None => None,
            },
            _ => s.available_width,
        };
        let available_height = match dock {
            Dock::Top | Dock::Bottom => match s.available_height {
                Some(a) => Some(sat_sub16_exec(a, d.y)),
                None => None,
            },
            _ => s.available_height,
        };
        DockMeasure { available_width, available_height, size, docked }
    }

    /// What to offer a filling child: all the room left.
    pub fn fill_request(s: &DockMeasure) -> (r: (Option<i16>, Option<i16>))
        ensures
            r == (s.available_width, s.available_height),
    {
        (s.available_width, s.available_height)
    }

    /// Takes in the answer `d` of a filling child.
    pub fn fill_step(s: DockMeasure, d: Vector) -> (r: DockMeasure)
        ensures
            r == dock_fill_step(s, d),
    {
        DockMeasure { size: s.size.max(d), ..s }
    }

    /// The panel's desired size at the end of the pass.
    pub fn measure_result(s: &DockMeasure) -> (r: Vector)
        requires
            s.wf(),
        ensures
            r == dock_result(*s),
    {
        s.docked.expand_rect_size(s.size)
    }

    /// The whole measure pass, from the children's docks and answers:
    /// docked children answer first, in order, then the filling ones.
    pub fn measure(aw: Option<i16>, ah: Option<i16>, docks: &[Option<Dock>], desired: &[Vector]) -> (r: Vector)
        requires
            docks@.len() == desired@.len(),
        ensures
            r == dock_result(dock_measure_fill(
                dock_measure_docked(dock_start(aw, ah), docks@, desired@, docks@.len() as int),
                docks@,
                desired@,
                docks@.len() as int,
            )),
    {
        let mut s = Self::measure_start(aw, ah);
        let mut i: usize = 0;
        while i < docks.len()
            invariant
                i <= docks@.len(),
                docks@.len() == desired@.len(),
                s == dock_measure_docked(dock_start(aw, ah), docks@, desired@, i as int),
                s.wf(),
            decreases docks@.len() - i,
        {
            if let Some(dock) = docks[i] {
                s = Self::docked_step(s, dock, desired[i]);
            }
            i = i + 1;
        }
        let ghost s0 = s;
        let mut i: usize = 0;
        while i < docks.len()
            invariant
                i <= docks@.len(),
                docks@.len() == desired@.len(),
                s == dock_measure_fill(s0, docks@, desired@, i as int),
                s.wf(),
                s0.wf(),
            decreases docks@.len() - i,
        {
            if docks[i].is_none() {
                s = Self::fill_step(s, desired[i]);
            }
            i = i + 1;
        }
        Self::measure_result(&s)
    }

    /// The arrange pass, from the final bounds `fb` and the children's
    /// docks and desired sizes: each docked child gets its side of the room
    /// left, then every filling child gets all the room left, and `filled[i]`
    /// is the size a filling child was arranged to.  Returns the children's
    /// bounds and the panel's size.
    pub fn arrange(fb: Rect, docks: &[Option<Dock>], desired: &[Vector], filled: &[Vector]) -> (r: (Vec<Rect>, Vector))
        requires
            docks@.len() == desired@.len(),
            docks@.len() == filled@.len(),
        ensures
            r.0@.len() == docks@.len(),
            ({
                let st = dock_arrange_docked(fb, docks@, desired@, docks@.len() as int);
                let rest = thickness_shrink_rect(st.1, fb);
                &&& forall|i: int| 0 <= i < docks@.len() ==> #[trigger] r.0@[i] == (match docks@[i] {
                    Some(dock) => dock_child_rect(
                        thickness_shrink_rect(dock_arrange_docked(fb, docks@, desired@, i).1, fb),
                        dock,
                        desired@[i],
                    ),
                    None => rest,
                })
                &&& r.1 == thickness_expand_size(st.1, fill_max(st.0, docks@, filled@, docks@.len() as int))
            }),
    {
        let mut rects: Vec<Rect> = Vec::new();
        let mut size = Vector::null();
        let mut docked = Thickness::all(0);
        let mut i: usize = 0;
        while i < docks.len()
            invariant
                i <= docks@.len(),
                docks@.len() == desired@.len(),
                rects@.len() == i,
                (size, docked) == dock_arrange_docked(fb, docks@, desired@, i as int),
                docked.wf(),
                forall|j: int| 0 <= j < i ==> (#[trigger] docks@[j] is Some) ==> rects@[j] == dock_child_rect(
                    thickness_shrink_rect(dock_arrange_docked(fb, docks@, desired@, j).1, fb),
                    docks@[j]->0,
                    desired@[j],
                ),
            decreases docks@.len() - i,
        {
            let bounds = docked.shrink_rect(fb);
            match docks[i] {
                Some(dock) => {
                    let d = desired[i];
                    rects.push(child_rect(bounds, dock, d));
                    let (s1, d1) = absorb(size, docked, dock, d);
                    size = s1;
                    docked = d1;
                },
                None => {
                    rects.push(bounds);
                },
            }
            i = i + 1;
        }
        let rest = docked.shrink_rect(fb);
        let ghost st = (size, docked);
        let mut j: usize = 0;
        while j < docks.len()
            invariant
                j <= docks@.len(),
                docks@.len() == desired@.len(),
                docks@.len() == filled@.len(),
                rects@.len() == docks@.len(),
                st == dock_arrange_docked(fb, docks@, desired@, docks@.len() as int),
                docked == st.1,
                docked.wf(),
                rest == thickness_shrink_rect(st.1, fb),
                size == fill_max(st.0, docks@, filled@, j as int),
                forall|k: int| 0 <= k < j ==> (#[trigger] docks@[k] is None) ==> rects@[k] == rest,
                forall|k: int| 0 <= k < docks@.len() ==> (#[trigger] docks@[k] is Some) ==> rects@[k] == dock_child_rect(
                    thickness_shrink_rect(dock_arrange_docked(fb, docks@, desired@, k).1, fb),
                    docks@[k]->0,
                    desired@[k],
                ),
            decreases docks@.len() - j,
        {
            if docks[j].is_none() {
                rects.set(j, rest);
                size = size.max(filled[j]);
            }
            j = j + 1;
        }
        (rects, docked.expand_rect_size(size))
    }
}

/// Size and docked room after the docked ones among the first `n` children.
pub open spec fn dock_arrange_docked(fb: Rect, docks: Seq<Option<Dock>>, ds: Seq<Vector>, n: int) -> (Vector, Thickness)
    decreases n,
{
    if n <= 0 {
        (zero_vec(), Thickness { l: 0, t: 0, r: 0, b: 0 })
    } else {
        let (size, docked) = dock_arrange_docked(fb, docks, ds, n - 1);
        match docks[n - 1] {
            Some(dock) => dock_absorb(size, docked, dock, ds[n - 1]),
            None => (size, docked),
        }
    }
}

/// `size` grown by the arranged sizes of the filling ones among the first `n` children.
pub open spec fn fill_max(size: Vector, docks: Seq<Option<Dock>>, fs: Seq<Vector>, n: int) -> Vector
    decreases n,
{
    if n <= 0 {
        size
    } else {
        let s = fill_max(size, docks, fs, n - 1);
        match docks[n - 1] {
            Some(_) => s,
            None => vec_max(s, fs[n - 1]),
        }
    }
}

fn absorb(size: Vector, docked: Thickness, dock: Dock, d: Vector) -> (r: (Vector, Thickness))
    requires
        docked.wf(),
    ensures
        r == dock_absorb(size, docked, dock, d),
        r.1.wf(),
{
    let size1 = match dock {
        Dock::Left | Dock::Right => size.max(Vector { x: 0, y: d.y }),
        Dock::Top | Dock::Bottom => size.max(Vector { x: d.x, y: 0 }),
    };
    let dc = match dock {
        Dock::Left => Thickness::new(d.x as i32, 0, 0, 0),
        Dock::Top => Thickness::new(0, d.y as i32, 0, 0),
        Dock::Right => Thickness::new(0, 0, d.x as i32, 0),
        Dock::Bottom => Thickness::new(0, 0, 0, d.y as i32),
    };
    (dc.shrink_rect_size(size1), docked.add(dc))
}

fn child_rect(bounds: Rect, dock: Dock, d: Vector) -> (r: Rect)
    ensures
        r == dock_child_rect(bounds, dock, d),
{
    match dock {
        Dock::Left => Rect { tl: bounds.tl, size: Vector { x: d.x, y: bounds.h() } },
        Dock::Top => Rect { tl: bounds.tl, size: Vector { x: bounds.w(), y: d.y } },
        Dock::Right => Rect::from_tl_br(Point { x: wsub(bounds.r(), d.x), y: bounds.t() }, bounds.br()),
        Dock::Bottom => Rect::from_tl_br(Point { x: bounds.l(), y: wsub(bounds.b(), d.y) }, bounds.br()),
    }
}

/// A docked child lies flush with its side of the room it is given: one
/// docked left or top shares the room's top-left corner, one docked right
/// shares the room's right edge and top, one docked bottom shares the room's
/// bottom edge and left; it is as wide (left, right) or as tall (top,
/// bottom) as it asked, and spans the whole room the other way.
pub proof fn law_dock_child_flush(bounds: Rect, dock: Dock, d: Vector)
    ensures
        ({
            let c = dock_child_rect(bounds, dock, d);
            match dock {
                Dock::Left => c.tl == bounds.tl && c.size == (Vector { x: d.x, y: bounds.size.y }),
                Dock::Top => c.tl == bounds.tl && c.size == (Vector { x: bounds.size.x, y: d.y }),
                Dock::Right => rect_r(c) == rect_r(bounds) && c.tl.y == bounds.tl.y
                    && c.size == (Vector { x: d.x, y: bounds.size.y }),
                Dock::Bottom => rect_b(c) == rect_b(bounds) && c.tl.x == bounds.tl.x
                    && c.size == (Vector { x: bounds.size.x, y: d.y }),
            }
        }),
{
    let r = rect_r(bounds);
    let b = rect_b(bounds);
    lemma_wrap16_id(r as int);
    lemma_wrap16_id(b as int);
    lemma_wrap16_id(d.x as int);
    lemma_wrap16_id(d.y as int);
    lemma_wrap16_id(bounds.size.x as int);
    lemma_wrap16_id(bounds.size.y as int);
    lemma_wrap16_shift(r as int, r - d.x);
    lemma_wrap16_shift(b as int, b - d.y);
    lemma_wrap16_add_right(r - d.x, d.x as int);
    lemma_wrap16_add_right(b - d.y, d.y as int);
    lemma_wrap16_add_right(bounds.tl.y + bounds.size.y, -bounds.tl.y);
    lemma_wrap16_add_right(bounds.tl.x + bounds.size.x, -bounds.tl.x);
    assert(wrap16(b - bounds.tl.y) == bounds.size.y);
    assert(wrap16(r - bounds.tl.x) == bounds.size.x);
}

} // verus!
