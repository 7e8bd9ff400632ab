//! The window tree: windows in an arena, each with a parent, a ring of
//! siblings and a first child.
//!
//! Every window's children form a circular doubly linked list (`prev`,
//! `next`) whose head is the parent's `first_child`; top-level windows form
//! such a list under the tree itself.  The order of a list is the z-order of
//! its windows.  A handle is the index of a window's slot; slots are never
//! reused, so a handle of a dropped window never names another one.

use vstd::prelude::*;
use crate::geom::{Point, Vector, Rect, Thickness, HAlign, VAlign};
use crate::palette::{Palette, PaletteEntry, root_palette, root_palette_entries, palette_set};

verus! {

/// A handle of a window in a [`WindowTree`].
#[derive(Clone, Copy, Debug, PartialEq, Eq, Hash, Structural)]
pub struct Window(pub usize);

#[derive(Clone, Copy)]
struct Links {
    parent: Option<usize>,
    prev: usize,
    next: usize,
    first_child: Option<usize>,
    live: bool,
}

/// The index after `i` in a ring of `n` slots.
pub open spec fn next_idx(i: int, n: int) -> int {
    if i + 1 < n { i + 1 } else { 0 }
}

/// The index before `i` in a ring of `n` slots.
pub open spec fn prev_idx(i: int, n: int) -> int {
    if i == 0 { n - 1 } else { i - 1 }
}

/// Whether a window takes part in layout and rendering.
#[derive(Clone, Copy, Debug, PartialEq, Eq, Hash, Structural)]
pub enum Visibility {
    Visible,
    Hidden,
    Collapsed,
}

/// The layout and focus properties of a window.
#[derive(Clone, Copy, Debug)]
pub struct Props {
    pub measure_size: Option<(Option<i16>, Option<i16>)>,
    pub desired_size: Vector,
    pub arrange_size: Option<Vector>,
    pub arranged_size: Vector,
    pub render_bounds: Rect,
    pub window_bounds: Rect,
    pub h_align: Option<HAlign>,
    pub v_align: Option<VAlign>,
    pub margin: Thickness,
    pub width: Option<i16>,
    pub min_width: i16,
    pub max_width: i16,
    pub height: Option<i16>,
    pub min_height: i16,
    pub max_height: i16,
    pub focus_tab: usize,
    pub focus_right: usize,
    pub focus_left: usize,
    pub focus_up: usize,
    pub focus_down: usize,
    pub contains_primary_focus: bool,
    pub is_enabled: bool,
    pub visibility: Visibility,
    /// The index of the data item the window shows, for an item window.
    pub source_index: Option<usize>,
}

/// The properties a new window `w` starts with.
pub open spec fn initial_props(w: usize) -> Props {
    Props {
        measure_size: None,
        desired_size: Vector { x: 0, y: 0 },
        arrange_size: None,
        arranged_size: Vector { x: 0, y: 0 },
        render_bounds: Rect { tl: Point { x: 0, y: 0 }, size: Vector { x: 0, y: 0 } },
        window_bounds: Rect { tl: Point { x: 0, y: 0 }, size: Vector { x: 0, y: 0 } },
        h_align: None,
        v_align: None,
        margin: Thickness { l: 0, t: 0, r: 0, b: 0 },
        width: None,
        min_width: 0,
        max_width: -1i16,
        height: None,
        min_height: 0,
        max_height: -1i16,
        focus_tab: w,
        focus_right: w,
        focus_left: w,
        focus_up: w,
        focus_down: w,
        contains_primary_focus: false,
        is_enabled: true,
        visibility: Visibility::Visible,
        source_index: None,
    }
}

/// Tree-wide state: focus, the text cursor, the root palette.
pub struct TreeState {
    pub primary_focused: Option<usize>,
    pub secondary_focused: Option<usize>,
    pub next_primary_focused: Option<Option<usize>>,
    pub next_secondary_focused: Option<Option<usize>>,
    pub cursor: Option<Point>,
    pub quit: bool,
    pub palette: Palette,
}

fn new_props(w: usize) -> (r: Props)
    ensures
        r == initial_props(w),
{
    Props {
        measure_size: None,
        desired_size: Vector { x: 0, y: 0 },
        arrange_size: None,
        arranged_size: Vector { x: 0, y: 0 },
        render_bounds: Rect { tl: Point { x: 0, y: 0 }, size: Vector { x: 0, y: 0 } },
        window_bounds: Rect { tl: Point { x: 0, y: 0 }, size: Vector { x: 0, y: 0 } },
        h_align: None,
        v_align: None,
        margin: Thickness { l: 0, t: 0, r: 0, b: 0 },
        width: None,
        min_width: 0,
        max_width: -1,
        height: None,
        min_height: 0,
        max_height: -1,
        focus_tab: w,
        focus_right: w,
        focus_left: w,
        focus_up: w,
        focus_down: w,
        contains_primary_focus: false,
        is_enabled: true,
        visibility: Visibility::Visible,
        source_index: None,
    }
}

pub struct WindowTree<W> {
    links: Vec<Links>,
    widgets: Vec<Option<W>>,
    props: Vec<Props>,
    palettes: Vec<Palette>,
    state: TreeState,
    first_top: Option<usize>,
    /// The children of each window (`Some(w)`) and the top-level windows (`None`).
    lists: Ghost<Map<Option<usize>, Seq<usize>>>,
}

impl<W> WindowTree<W> {
    /// The window `w` exists (was created and not dropped).
    pub closed spec fn live(self, w: usize) -> bool {
        w < self.links@.len() && self.links@[w as int].live
    }

    /// `None` (the top level) or a live window: a place that has children.
    pub open spec fn key_ok(self, p: Option<usize>) -> bool {
        p is None || self.live(p->0)
    }

    /// The children of `p` (the top-level windows for `None`), in z-order.
    pub closed spec fn children(self, p: Option<usize>) -> Seq<usize> {
        self.lists@[p]
    }

    pub closed spec fn parent_of(self, w: usize) -> Option<usize> {
        self.links@[w as int].parent
    }

    /// The number of slots ever used: every handle is below it.
    pub closed spec fn slots(self) -> nat {
        self.links@.len()
    }

    pub closed spec fn widget_of(self, w: usize) -> Option<W> {
        self.widgets@[w as int]
    }

    pub closed spec fn props_of(self, w: usize) -> Props {
        self.props@[w as int]
    }

    pub closed spec fn palette_of(self, w: usize) -> Seq<PaletteEntry> {
        self.palettes@[w as int]@
    }

    pub open spec fn root_palette_view(self) -> Seq<PaletteEntry> {
        self.state_spec().palette@
    }

    pub open spec fn primary(self) -> Option<usize> {
        self.state_spec().primary_focused
    }

    pub open spec fn secondary(self) -> Option<usize> {
        self.state_spec().secondary_focused
    }

    pub open spec fn next_primary(self) -> Option<Option<usize>> {
        self.state_spec().next_primary_focused
    }

    pub open spec fn next_secondary(self) -> Option<Option<usize>> {
        self.state_spec().next_secondary_focused
    }

    pub open spec fn cursor_spec(self) -> Option<Point> {
        self.state_spec().cursor
    }

    pub closed spec fn state_spec(self) -> TreeState {
        self.state
    }

    pub open spec fn quit_spec(self) -> bool {
        self.state_spec().quit
    }

    spec fn first_of(self, p: Option<usize>) -> Option<usize> {
        match p {
            None => self.first_top,
            Some(q) => self.links@[q as int].first_child,
        }
    }

    spec fn link_ok(self, p: Option<usize>, l: Seq<usize>, i: int) -> bool {
        let x = l[i];
        &&& self.live(x)
        &&& self.links@[x as int].parent == p
        &&& self.links@[x as int].next == l[next_idx(i, l.len() as int)]
        &&& self.links@[x as int].prev == l[prev_idx(i, l.len() as int)]
    }

    spec fn list_ok(self, p: Option<usize>) -> bool {
        let l = self.lists@[p];
        &&& self.first_of(p) == (if l.len() == 0 { None::<usize> } else { Some(l[0]) })
        &&& l.no_duplicates()
        &&& forall|i: int| 0 <= i < l.len() ==> #[trigger] self.link_ok(p, l, i)
    }

    /// A live window sits in the list of its parent, which is older than it.
    spec fn node_ok(self, x: usize) -> bool {
        let p = self.links@[x as int].parent;
        &&& self.key_ok(p)
        &&& (p matches Some(q) ==> q < x)
        &&& self.lists@[p].contains(x)
    }

    /// Well formed, except that the window `d` (if any) is out of every list.
    spec fn wf_except(self, d: Option<usize>) -> bool {
        &&& self.links@.len() == self.widgets@.len()
        &&& self.links@.len() == self.props@.len()
        &&& self.links@.len() == self.palettes@.len()
        &&& self.links@.len() <= usize::MAX
        &&& forall|p: Option<usize>| #[trigger] self.lists@.dom().contains(p) <==> self.key_ok(p)
        &&& forall|p: Option<usize>| #[trigger] self.key_ok(p) ==> self.list_ok(p)
        &&& forall|x: usize| #[trigger] self.live(x) && Some(x) != d ==> self.node_ok(x)
        &&& (d matches Some(x) ==> {
            &&& self.live(x)
            &&& self.links@[x as int].prev == x
            &&& self.links@[x as int].next == x
            &&& self.links@[x as int].parent is None
            &&& forall|p: Option<usize>| #[trigger] self.key_ok(p) ==> !self.lists@[p].contains(x)
        })
    }

    /// The tree is well formed: the lists and the links agree.
    pub closed spec fn wf(self) -> bool {
        self.wf_except(None)
    }

    pub fn new() -> (r: Self)
        ensures
            r.wf(),
            r.slots() == 0,
            r.children(None) == Seq::<usize>::empty(),
            forall|w: usize| !r.live(w),
            r.root_palette_view() == root_palette_entries(),
            r.primary() is None,
            r.secondary() is None,
            r.next_primary() is None,
            r.next_secondary() is None,
            r.cursor_spec() is None,
            !r.quit_spec(),
    {
        let ghost lists = Map::<Option<usize>, Seq<usize>>::empty().insert(None, Seq::<usize>::empty());
        let r = WindowTree {
            links: Vec::new(),
            widgets: Vec::new(),
            props: Vec::new(),
            palettes: Vec::new(),
            state: TreeState {
                primary_focused: None,
                secondary_focused: None,
                next_primary_focused: None,
                next_secondary_focused: None,
                cursor: None,
                quit: false,
                palette: root_palette(),
            },
            first_top: None,
            lists: Ghost(lists),
        };
        proof {
            assert forall|p: Option<usize>| #[trigger] r.lists@.dom().contains(p) <==> r.key_ok(p) by {
                if p is Some {
                    assert(!r.live(p->0));
                }
            }
            assert forall|p: Option<usize>| #[trigger] r.key_ok(p) implies r.list_ok(p) by {
                assert(p is None);
            }
        }
        r
    }

    fn set_links(&mut self, x: usize, v: Links)
        requires
            x < old(self).links@.len(),
        ensures
            final(self).links@ == old(self).links@.update(x as int, v),
            final(self).widgets@ == old(self).widgets@,
            final(self).props@ == old(self).props@,
            final(self).palettes@ == old(self).palettes@,
            final(self).state == old(self).state,
            final(self).first_top == old(self).first_top,
            final(self).lists == old(self).lists,
    {
        self.links.set(x, v);
    }

    fn set_first(&mut self, p: Option<usize>, v: Option<usize>)
        requires
            p matches Some(q) ==> q < old(self).links@.len(),
        ensures
            final(self).first_of(p) == v,
            match p {
                None => final(self).first_top == v && final(self).links@ == old(self).links@,
                Some(q) => final(self).first_top == old(self).first_top
                    && final(self).links@ == old(self).links@.update(
                        q as int,
                        Links { first_child: v, ..old(self).links@[q as int] },
                    ),
            },
            final(self).widgets@ == old(self).widgets@,
            final(self).props@ == old(self).props@,
            final(self).palettes@ == old(self).palettes@,
            final(self).state == old(self).state,
            final(self).lists == old(self).lists,
    {
        match p {
            None => {
                self.first_top = v;
            },
            Some(q) => {
                let lq = self.links[q];
                self.set_links(q, Links { first_child: v, ..lq });
            },
        }
    }

    fn get_first(&self, p: Option<usize>) -> (r: Option<usize>)
        requires
            p matches Some(q) ==> q < self.links@.len(),
        ensures
            r == self.first_of(p),
    {
        match p {
            None => self.first_top,
            Some(q) => self.links[q].first_child,
        }
    }

    /// Links the detached window `x` into the list of `parent`, after `prev`
    /// or, without `prev`, in front.
    #[verifier::rlimit(40)]
    fn attach(&mut self, x: usize, parent: Option<usize>, prev: Option<usize>)
        requires
            old(self).wf_except(Some(x)),
            old(self).key_ok(parent),
            parent matches Some(q) ==> q < x,
            prev matches Some(pv) ==> {
                &&& old(self).live(pv)
                &&& pv != x
                &&& old(self).links@[pv as int].parent == parent
            },
        ensures
            final(self).wf(),
            final(self).lists@ == old(self).lists@.insert(
                parent,
                attach_list(old(self).lists@[parent], x, prev),
            ),
            final(self).links@.len() == old(self).links@.len(),
            forall|w: usize| #[trigger] final(self).live(w) == old(self).live(w),
            forall|w: usize| w != x && w < old(self).links@.len() ==> #[trigger] final(self).parent_of(w) == old(self).parent_of(w),
            final(self).parent_of(x) == parent,
            forall|q: Option<usize>| old(self).key_ok(q) && q != parent ==> #[trigger] final(self).first_of(q) == old(self).first_of(q),
            final(self).widgets@ == old(self).widgets@,
            final(self).props@ == old(self).props@,
            final(self).palettes@ == old(self).palettes@,
            final(self).state == old(self).state,
    {
        let ghost l = self.lists@[parent];
        let ghost k: int;
        proof {
            assert(self.key_ok(parent));
            assert(self.list_ok(parent));
            if let Some(pv) = prev {
                assert(self.live(pv) && Some(pv) != Some(x));
                assert(self.node_ok(pv));
                let j = l.index_of(pv);
                assert(self.link_ok(parent, l, j));
                assert(self.link_ok(parent, l, next_idx(j, l.len() as int)));
                k = j + 1;
            } else {
                k = 0;
                if l.len() > 0 {
                    assert(self.link_ok(parent, l, 0));
                    assert(self.link_ok(parent, l, l.len() - 1));
                }
            }
        }
        match prev {
            Some(pv) => {
                let pl = self.links[pv];
                let next = pl.next;
                self.set_links(pv, Links { next: x, ..pl });
                let nl = self.links[next];
                self.set_links(next, Links { prev: x, ..nl });
                let xl = self.links[x];
                self.set_links(x, Links { parent, prev: pv, next, ..xl });
            },
            None => {
                let first = self.get_first(parent);
                match first {
                    None => {
                        self.set_first(parent, Some(x));
                        let xl = self.links[x];
                        self.set_links(x, Links { parent, prev: x, next: x, ..xl });
                    },
                    Some(f) => {
                        let last = self.links[f].prev;
                        let fl = self.links[f];
                        self.set_links(f, Links { prev: x, ..fl });
                        let ll = self.links[last];
                        self.set_links(last, Links { next: x, ..ll });
                        self.set_first(parent, Some(x));
                        let xl = self.links[x];
                        self.set_links(x, Links { parent, prev: last, next: f, ..xl });
                    },
                }
            },
        }
        proof {
            let o = *old(self);
            let n = l.len() as int;
            let nl = l.insert(k, x);
            l.insert_ensures(k, x);
            assert(nl == attach_list(l, x, prev));
            let a = nl[prev_idx(k, n + 1)];
            let b = nl[next_idx(k, n + 1)];
            if n > 0 {
                assert(o.link_ok(parent, l, 0));
                assert(o.link_ok(parent, l, n - 1));
                if k > 0 {
                    assert(o.link_ok(parent, l, k - 1));
                }
            }
            assert(!l.contains(x)) by {
                assert(o.key_ok(parent));
            }
            self.lists@ = self.lists@.insert(parent, nl);
            lemma_insert_ring(o, *self, parent, l, x, k);
            assert forall|q: Option<usize>| o.key_ok(q) && q != parent implies #[trigger] self.first_of(q) == o.first_of(q) by {
                if let Some(z) = q {
                    assert(o.live(z));
                    assert(self.links@[z as int].first_child == o.links@[z as int].first_child);
                }
            }
            lemma_attach_rest(o, *self, parent, x, k);
        }
    }

    /// Unlinks `x` from the list of its parent; returns that parent.
    fn detach(&mut self, x: usize) -> (parent: Option<usize>)
        requires
            old(self).wf(),
            old(self).live(x),
        ensures
            final(self).wf_except(Some(x)),
            parent == old(self).parent_of(x),
            final(self).lists@ == old(self).lists@.insert(
                parent,
                old(self).lists@[parent].remove(old(self).lists@[parent].index_of(x)),
            ),
            final(self).links@.len() == old(self).links@.len(),
            forall|w: usize| #[trigger] final(self).live(w) == old(self).live(w),
            forall|w: usize| w != x && w < old(self).links@.len() ==> #[trigger] final(self).parent_of(w) == old(self).parent_of(w),
            forall|q: Option<usize>| old(self).key_ok(q) && q != parent ==> #[trigger] final(self).first_of(q) == old(self).first_of(q),
            final(self).links@[x as int].first_child == old(self).links@[x as int].first_child,
            final(self).widgets@ == old(self).widgets@,
            final(self).props@ == old(self).props@,
            final(self).palettes@ == old(self).palettes@,
            final(self).state == old(self).state,
    {
        let ghost o = *self;
        let xl = self.links[x];
        let parent = xl.parent;
        let prev = xl.prev;
        let next = xl.next;
        let ghost l = self.lists@[parent];
        let ghost j = l.index_of(x);
        proof {
            assert(self.node_ok(x));
            assert(self.key_ok(parent));
            assert(self.list_ok(parent));
            assert(self.link_ok(parent, l, j));
            assert(self.link_ok(parent, l, next_idx(j, l.len() as int)));
            assert(self.link_ok(parent, l, prev_idx(j, l.len() as int)));
            assert(self.link_ok(parent, l, 0));
            if l.len() > 1 {
                assert(self.link_ok(parent, l, 1));
            }
        }
        self.set_links(x, Links { parent: None, prev: x, next: x, ..xl });
        let pl = self.links[prev];
        self.set_links(prev, Links { next, ..pl });
        let nl = self.links[next];
        self.set_links(next, Links { prev, ..nl });
        let first = self.get_first(parent);
        if first == Some(x) {
            if next == x {
                self.set_first(parent, None);
            } else {
                self.set_first(parent, Some(next));
            }
        }
        proof {
            let rl = l.remove(j);
            l.remove_ensures(j);
            self.lists@ = self.lists@.insert(parent, rl);
            lemma_remove_ring(o, *self, parent, l, j);
            assert forall|q: Option<usize>| o.key_ok(q) && q != parent implies #[trigger] self.first_of(q) == o.first_of(q) by {
                if let Some(z) = q {
                    assert(o.live(z));
                    assert(self.links@[z as int].first_child == o.links@[z as int].first_child);
                }
            }
            lemma_detach_rest(o, *self, parent, x, j);
        }
        parent
    }

    /// The position of `w` among its siblings.
    pub closed spec fn pos(self, w: usize) -> int {
        self.lists@[self.links@[w as int].parent].index_of(w)
    }

    /// What is known of every live window in a well-formed tree.
    pub proof fn lemma_live(self, w: usize)
        requires
            self.wf(),
            self.live(w),
        ensures
            w < self.slots(),
            self.key_ok(self.parent_of(w)),
            self.parent_of(w) matches Some(q) ==> q < w,
            0 <= self.pos(w) < self.children(self.parent_of(w)).len(),
            self.children(self.parent_of(w))[self.pos(w)] == w,
            self.children(self.parent_of(w)).no_duplicates(),
            forall|i: int| 0 <= i < self.children(self.parent_of(w)).len()
                ==> self.live(#[trigger] self.children(self.parent_of(w))[i]),
    {
        assert(self.node_ok(w));
        let p = self.parent_of(w);
        assert(self.list_ok(p));
        assert forall|i: int| 0 <= i < self.children(p).len() implies self.live(#[trigger] self.children(p)[i]) by {
            assert(self.link_ok(p, self.lists@[p], i));
        }
    }

    /// The children of a place are live windows whose parent is that place.
    pub proof fn lemma_children(self, p: Option<usize>)
        requires
            self.wf(),
            self.key_ok(p),
        ensures
            self.children(p).no_duplicates(),
            forall|i: int| 0 <= i < self.children(p).len() ==> {
                &&& self.live(#[trigger] self.children(p)[i])
                &&& self.parent_of(self.children(p)[i]) == p
                &&& self.pos(self.children(p)[i]) == i
            },
    {
        assert(self.list_ok(p));
        let l = self.lists@[p];
        assert forall|i: int| 0 <= i < l.len() implies {
            &&& self.live(#[trigger] l[i])
            &&& self.parent_of(l[i]) == p
            &&& self.pos(l[i]) == i
        } by {
            assert(self.link_ok(p, l, i));
            let j = l.index_of(l[i]);
            assert(l.contains(l[i]));
        }
    }

    pub fn parent(&self, w: Window) -> (r: Option<Window>)
        requires
            self.wf(),
            self.live(w.0),
        ensures
            r == (match self.parent_of(w.0) {
                None => None::<Window>,
                Some(p) => Some(Window(p)),
            }),
    {
        match self.links[w.0].parent {
            None => None,
            Some(p) => Some(Window(p)),
        }
    }

    /// The first of the children of `w` (of the top-level windows for `None`).
    pub fn first_child(&self, w: Option<Window>) -> (r: Option<Window>)
        requires
            self.wf(),
            w matches Some(v) ==> self.live(v.0),
        ensures
            ({
                let l = self.children(match w { None => None::<usize>, Some(v) => Some(v.0) });
                r == (if l.len() == 0 { None::<Window> } else { Some(Window(l[0])) })
            }),
    {
        let p = match w {
            None => None,
            Some(v) => Some(v.0),
        };
        proof {
            assert(self.key_ok(p));
            assert(self.list_ok(p));
        }
        match self.get_first(p) {
            None => None,
            Some(f) => Some(Window(f)),
        }
    }

    /// The sibling after `w` (the first one, after the last).
    pub fn next(&self, w: Window) -> (r: Window)
        requires
            self.wf(),
            self.live(w.0),
        ensures
            ({
                let l = self.children(self.parent_of(w.0));
                r.0 == l[next_idx(self.pos(w.0), l.len() as int)]
            }),
    {
        proof {
            self.lemma_live(w.0);
            let p = self.parent_of(w.0);
            assert(self.list_ok(p));
            assert(self.link_ok(p, self.lists@[p], self.pos(w.0)));
        }
        Window(self.links[w.0].next)
    }

    /// The sibling before `w` (the last one, before the first).
    pub fn prev(&self, w: Window) -> (r: Window)
        requires
            self.wf(),
            self.live(w.0),
        ensures
            ({
                let l = self.children(self.parent_of(w.0));
                r.0 == l[prev_idx(self.pos(w.0), l.len() as int)]
            }),
    {
        proof {
            self.lemma_live(w.0);
            let p = self.parent_of(w.0);
            assert(self.list_ok(p));
            assert(self.link_ok(p, self.lists@[p], self.pos(w.0)));
        }
        Window(self.links[w.0].prev)
    }

    pub fn is_live(&self, w: Window) -> (r: bool)
        requires
            self.wf(),
        ensures
            r == self.live(w.0),
    {
        w.0 < self.links.len() && self.links[w.0].live
    }

    /// Creates a window with `widget`, as a child of `parent` (top-level for
    /// `None`), placed after `prev` among its siblings, or in front of them.
    pub fn new_window(&mut self, widget: W, parent: Option<Window>, prev: Option<Window>) -> (w: Window)
        requires
            old(self).wf(),
            old(self).slots() < usize::MAX,
            parent matches Some(p) ==> old(self).live(p.0),
            prev matches Some(pv) ==> {
                &&& old(self).live(pv.0)
                &&& old(self).parent_of(pv.0) == (match parent { None => None::<usize>, Some(p) => Some(p.0) })
            },
        ensures
            final(self).wf(),
            w.0 == old(self).slots(),
            final(self).slots() == old(self).slots() + 1,
            final(self).live(w.0),
            forall|v: usize| v != w.0 ==> #[trigger] final(self).live(v) == old(self).live(v),
            final(self).parent_of(w.0) == (match parent { None => None::<usize>, Some(p) => Some(p.0) }),
            forall|v: usize| v < old(self).slots() ==> #[trigger] final(self).parent_of(v) == old(self).parent_of(v),
            final(self).children(Some(w.0)) == Seq::<usize>::empty(),
            ({
                let pk = match parent { None => None::<usize>, Some(p) => Some(p.0) };
                let pv = match prev { None => None::<usize>, Some(v) => Some(v.0) };
                &&& final(self).children(pk) == attach_list(old(self).children(pk), w.0, pv)
                &&& forall|q: Option<usize>| old(self).key_ok(q) && q != pk ==> #[trigger] final(self).children(q) == old(self).children(q)
            }),
            final(self).widget_of(w.0) == Some(widget),
            forall|v: usize| v < old(self).slots() ==> #[trigger] final(self).widget_of(v) == old(self).widget_of(v),
            final(self).props_of(w.0) == initial_props(w.0),
            forall|v: usize| v < old(self).slots() ==> #[trigger] final(self).props_of(v) == old(self).props_of(v),
            final(self).palette_of(w.0) == Seq::<PaletteEntry>::empty(),
            forall|v: usize| v < old(self).slots() ==> #[trigger] final(self).palette_of(v) == old(self).palette_of(v),
            final(self).state_spec() == old(self).state_spec(),
    {
        let x = self.links.len();
        let pk = match parent {
            None => None,
            Some(p) => Some(p.0),
        };
        let pv = match prev {
            None => None,
            Some(v) => Some(v.0),
        };
        let ghost o = *self;
        self.links.push(Links { parent: None, prev: x, next: x, first_child: None, live: true });
        self.widgets.push(Some(widget));
        self.props.push(new_props(x));
        self.palettes.push(Palette::new());
        proof {
            self.lists@ = self.lists@.insert(Some(x), Seq::<usize>::empty());
            assert forall|q: Option<usize>| #[trigger] self.lists@.dom().contains(q) <==> self.key_ok(q) by {
                assert(o.lists@.dom().contains(q) <==> o.key_ok(q));
            }
            assert forall|q: Option<usize>| #[trigger] self.key_ok(q) implies self.list_ok(q) by {
                if q != Some(x) {
                    assert(o.key_ok(q));
                    assert(o.list_ok(q));
                    let lq = o.lists@[q];
                    assert forall|i: int| 0 <= i < lq.len() implies #[trigger] self.link_ok(q, lq, i) by {
                        assert(o.link_ok(q, lq, i));
                    }
                }
            }
            assert forall|v: usize| #[trigger] self.live(v) && Some(v) != Some(x) implies self.node_ok(v) by {
                assert(o.live(v));
                assert(o.node_ok(v));
            }
            assert forall|q: Option<usize>| #[trigger] self.key_ok(q) implies !self.lists@[q].contains(x) by {
                if q != Some(x) {
                    assert(o.key_ok(q));
                    assert(o.list_ok(q));
                    if o.lists@[q].contains(x) {
                        let ix = o.lists@[q].index_of(x);
                        assert(o.link_ok(q, o.lists@[q], ix));
                    }
                }
            }
            assert(self.wf_except(Some(x)));
            if let Some(v) = pv {
                assert(v != x);
            }
        }
        self.attach(x, pk, pv);
        Window(x)
    }

    /// Moves `w` among its siblings: after `prev`, or in front of them.
    pub fn move_z(&mut self, w: Window, prev: Option<Window>)
        requires
            old(self).wf(),
            old(self).live(w.0),
            prev matches Some(pv) ==> {
                &&& old(self).live(pv.0)
                &&& pv != w
                &&& old(self).parent_of(pv.0) == old(self).parent_of(w.0)
            },
        ensures
            final(self).wf(),
            final(self).slots() == old(self).slots(),
            forall|v: usize| #[trigger] final(self).live(v) == old(self).live(v),
            forall|v: usize| v < old(self).slots() ==> #[trigger] final(self).parent_of(v) == old(self).parent_of(v),
            ({
                let pk = old(self).parent_of(w.0);
                let pv = match prev { None => None::<usize>, Some(v) => Some(v.0) };
                let l = old(self).children(pk);
                &&& final(self).children(pk) == attach_list(l.remove(l.index_of(w.0)), w.0, pv)
                &&& forall|q: Option<usize>| old(self).key_ok(q) && q != pk ==> #[trigger] final(self).children(q) == old(self).children(q)
            }),
            forall|v: usize| #[trigger] final(self).widget_of(v) == old(self).widget_of(v),
            forall|v: usize| #[trigger] final(self).props_of(v) == old(self).props_of(v),
            forall|v: usize| #[trigger] final(self).palette_of(v) == old(self).palette_of(v),
            final(self).state_spec() == old(self).state_spec(),
    {
        let pv = match prev {
            None => None,
            Some(v) => Some(v.0),
        };
        proof {
            self.lemma_live(w.0);
            if let Some(v) = pv {
                self.lemma_live(v);
            }
        }
        let parent = self.detach(w.0);
        proof {
            if let Some(v) = pv {
                assert(self.parent_of(v) == parent);
            }
            if let Some(q) = parent {
                assert(self.live(q));
            }
        }
        self.attach(w.0, parent, pv);
    }

    /// `y` is `x` or lies below it.
    pub closed spec fn in_subtree(self, y: usize, x: usize) -> bool
        decreases y,
    {
        if y == x {
            true
        } else {
            match self.links@[y as int].parent {
                Some(p) => p < y && self.in_subtree(p, x),
                None => false,
            }
        }
    }

    spec fn live_count(self) -> nat {
        count_live(self.links@, self.links@.len() as int)
    }

    /// Marks the detached childless window `x` as dropped.
    fn kill_detached(&mut self, x: usize)
        requires
            old(self).wf_except(Some(x)),
            old(self).lists@[Some(x)].len() == 0,
        ensures
            final(self).wf(),
            !final(self).live(x),
            forall|v: usize| v != x ==> #[trigger] final(self).live(v) == old(self).live(v),
            final(self).links@.len() == old(self).links@.len(),
            forall|v: usize| v < old(self).links@.len() ==> #[trigger] final(self).parent_of(v) == old(self).parent_of(v),
            final(self).lists@ == old(self).lists@.remove(Some(x)),
            final(self).live_count() + 1 == old(self).live_count(),
            final(self).widgets@ == old(self).widgets@.update(x as int, None),
            final(self).props@ == old(self).props@,
            final(self).palettes@ == old(self).palettes@,
            final(self).state == old(self).state,
    {
        let ghost o = *self;
        let xl = self.links[x];
        self.set_links(x, Links { live: false, ..xl });
        self.widgets.set(x, None);
        proof {
            self.lists@ = self.lists@.remove(Some(x));
            lemma_count_kill(o.links@, self.links@, x as int, o.links@.len() as int);
            assert forall|q: Option<usize>| #[trigger] self.lists@.dom().contains(q) <==> self.key_ok(q) by {
                assert(o.lists@.dom().contains(q) <==> o.key_ok(q));
            }
            assert forall|q: Option<usize>| #[trigger] self.key_ok(q) implies self.list_ok(q) by {
                assert(o.key_ok(q));
                assert(o.list_ok(q));
                let lq = o.lists@[q];
                assert(!lq.contains(x));
                assert forall|i: int| 0 <= i < lq.len() implies #[trigger] self.link_ok(q, lq, i) by {
                    assert(o.link_ok(q, lq, i));
                    assert(lq[i] != x) by {
                        assert(lq.contains(lq[i]));
                    }
                }
            }
            assert forall|v: usize| #[trigger] self.live(v) && Some(v) != None::<usize> implies self.node_ok(v) by {
                assert(o.live(v));
                assert(o.node_ok(v));
                let pv = o.links@[v as int].parent;
                if pv == Some(x) {
                    assert(o.lists@[Some(x)].contains(v));
                }
            }
        }
    }

    /// If a live window lies strictly below `x`, then `x` has children.
    proof fn lemma_below_has_children(self, v: usize, x: usize)
        requires
            self.wf(),
            self.live(v),
            self.live(x),
            self.in_subtree(v, x),
            v != x,
        ensures
            self.lists@[Some(x)].len() > 0,
        decreases v,
    {
        assert(self.node_ok(v));
        let p = self.links@[v as int].parent->0;
        if p == x {
            assert(self.lists@[Some(x)].contains(v));
        } else {
            self.lemma_below_has_children(p, x);
        }
    }

    /// One step of [`Self::in_subtree`]: `y` is `x`, or its parent is `x` or below it.
    pub proof fn lemma_subtree_unfold(self, y: usize, x: usize)
        requires
            self.wf(),
            self.live(y),
        ensures
            self.in_subtree(y, x) == (y == x || (self.parent_of(y) matches Some(p) && self.in_subtree(p, x))),
    {
        assert(self.node_ok(y));
    }

    /// Lying below is transitive.
    pub proof fn lemma_subtree_chain(self, w: usize, c: usize, p: usize)
        requires
            self.in_subtree(w, c),
            self.in_subtree(c, p),
        ensures
            self.in_subtree(w, p),
        decreases w,
    {
        if w != c {
            let q = self.links@[w as int].parent->0;
            self.lemma_subtree_chain(q, c, p);
        }
    }

    /// Windows below `x` are younger than `x`.
    pub proof fn lemma_subtree_ge(self, y: usize, x: usize)
        requires
            self.in_subtree(y, x),
        ensures
            y >= x,
        decreases y,
    {
        if y != x {
            let p = self.links@[y as int].parent->0;
            self.lemma_subtree_ge(p, x);
        }
    }

    /// Drops `w` and every window below it.
    pub fn drop_window(&mut self, w: Window)
        requires
            old(self).wf(),
            old(self).live(w.0),
        ensures
            final(self).wf(),
            final(self).slots() == old(self).slots(),
            forall|v: usize| #[trigger] final(self).live(v) == (old(self).live(v) && !old(self).in_subtree(v, w.0)),
            forall|v: usize| final(self).live(v) ==> #[trigger] final(self).parent_of(v) == old(self).parent_of(v),
            ({
                let pk = old(self).parent_of(w.0);
                let l = old(self).children(pk);
                &&& final(self).children(pk) == l.remove(l.index_of(w.0))
                &&& forall|q: Option<usize>| final(self).key_ok(q) && q != pk ==> #[trigger] final(self).children(q) == old(self).children(q)
            }),
            forall|v: usize| final(self).live(v) ==> #[trigger] final(self).widget_of(v) == old(self).widget_of(v),
            forall|v: usize| #[trigger] final(self).props_of(v) == old(self).props_of(v),
            final(self).state_spec() == old(self).state_spec(),
    {
        let ghost o = *self;
        let ghost pk = o.parent_of(w.0);
        loop
            invariant_except_break
                self.live(w.0),
            invariant
                o.wf(),
                o.live(w.0),
                pk == o.parent_of(w.0),
                self.wf(),
                self.links@.len() == o.links@.len(),
                forall|v: usize| #[trigger] self.live(v) ==> o.live(v),
                forall|v: usize| o.live(v) && !o.in_subtree(v, w.0) ==> #[trigger] self.live(v),
                forall|v: usize| self.live(v) ==> #[trigger] self.links@[v as int].parent == o.links@[v as int].parent,
                forall|q: Option<usize>| self.key_ok(q) && q != pk && !(q matches Some(z) && o.in_subtree(z, w.0))
                    ==> #[trigger] self.lists@[q] == o.lists@[q],
                self.live(w.0) ==> self.lists@[pk] == o.lists@[pk],
                !self.live(w.0) ==> self.lists@[pk] == o.lists@[pk].remove(o.lists@[pk].index_of(w.0)),
                forall|v: usize| self.live(v) ==> #[trigger] self.widgets@[v as int] == o.widgets@[v as int],
                self.props@ == o.props@,
                self.state_spec() == o.state_spec(),
            ensures
                !self.live(w.0),
                forall|v: usize| o.live(v) && o.in_subtree(v, w.0) ==> !#[trigger] self.live(v),
            decreases self.live_count(),
        {
            let mut cur = w.0;
            proof {
                assert(self.in_subtree(cur, w.0));
            }
            loop
                invariant
                    self.wf(),
                    self.live(cur),
                    o.in_subtree(cur, w.0),
                    self.links@.len() == o.links@.len(),
                    forall|v: usize| self.live(v) ==> #[trigger] self.links@[v as int].parent == o.links@[v as int].parent,
                ensures
                    self.links@[cur as int].first_child is None,
                decreases self.links@.len() - cur,
            {
                proof {
                    assert(self.key_ok(Some(cur)));
                    assert(self.list_ok(Some(cur)));
                }
                match self.links[cur].first_child {
                    None => {
                        break;
                    },
                    Some(c) => {
                        proof {
                            let l = self.lists@[Some(cur)];
                            assert(self.link_ok(Some(cur), l, 0));
                            assert(self.node_ok(c));
                            assert(o.in_subtree(c, w.0)) by {
                                assert(o.links@[c as int].parent == Some(cur));
                            }
                        }
                        cur = c;
                    },
                }
            }
            proof {
                assert(self.key_ok(Some(cur)));
                assert(self.list_ok(Some(cur)));
                assert(self.node_ok(cur));
                assert(self.lists@[Some(cur)].len() == 0);
            }
            let is_w = cur == w.0;
            let ghost before = *self;
            let parent = self.detach(cur);
            let ghost mid = *self;
            proof {
                assert(parent != Some(cur));
                assert forall|i: int| 0 <= i < before.links@.len() implies #[trigger] before.links@[i].live == mid.links@[i].live by {
                    let u = i as usize;
                    assert(u as int == i);
                    assert(before.live(u) == mid.live(u));
                }
                lemma_count_same(before.links@, mid.links@, before.links@.len() as int);
            }
            self.kill_detached(cur);
            proof {
                assert forall|v: usize| self.live(v) implies #[trigger] self.links@[v as int].parent == o.links@[v as int].parent by {
                    assert(self.parent_of(v) == mid.parent_of(v));
                    assert(mid.parent_of(v) == before.parent_of(v));
                    assert(before.live(v));
                }
                if is_w {
                    assert forall|v: usize| o.live(v) && o.in_subtree(v, w.0) implies !#[trigger] self.live(v) by {
                        if self.live(v) && v != w.0 {
                            assert(before.live(v));
                            assert(before.in_subtree(v, w.0)) by {
                                lemma_subtree_same_parents(o, before, v, w.0);
                                assert(before.live(v));
                            }
                            before.lemma_below_has_children(v, w.0);
                        }
                    }
                } else {
                    assert(o.links@[cur as int].parent matches Some(pp) && o.in_subtree(pp, w.0));
                    let pp = o.links@[cur as int].parent->0;
                    o.lemma_subtree_ge(pp, w.0);
                    o.lemma_subtree_ge(cur, w.0);
                    assert(o.node_ok(w.0));
                    assert(parent == Some(pp));
                    assert(pk != Some(pp));
                    assert(pk != Some(cur));
                }
            }
            if is_w {
                break;
            }
        }
    }

    /// The two trees have the same windows, links and widgets.
    pub closed spec fn same_structure(self, other: Self) -> bool {
        &&& self.links@ == other.links@
        &&& self.lists@ == other.lists@
        &&& self.widgets@ == other.widgets@
        &&& self.first_top == other.first_top
        &&& self.props@.len() == other.props@.len()
        &&& self.palettes@.len() == other.palettes@.len()
    }

    pub proof fn lemma_same_structure_refl(self)
        ensures
            self.same_structure(self),
    {
    }

    pub proof fn lemma_same_structure_trans(self, b: Self, c: Self)
        requires
            self.same_structure(b),
            b.same_structure(c),
        ensures
            self.same_structure(c),
            c.same_structure(self),
    {
    }

    pub proof fn lemma_same_structure(self, other: Self)
        requires
            self.same_structure(other),
        ensures
            self.wf() == other.wf(),
            forall|w: usize| #[trigger] self.live(w) == other.live(w),
            forall|w: usize| #[trigger] self.parent_of(w) == other.parent_of(w),
            forall|p: Option<usize>| #[trigger] self.children(p) == other.children(p),
            forall|w: usize| #[trigger] self.pos(w) == other.pos(w),
            forall|w: usize, x: usize| #[trigger] self.in_subtree(w, x) == other.in_subtree(w, x),
            self.slots() == other.slots(),
    {
        assert forall|w: usize, x: usize| #[trigger] self.in_subtree(w, x) == other.in_subtree(w, x) by {
            lemma_subtree_same_links(self, other, w, x);
        }
        if self.wf() {
            assert forall|p: Option<usize>| #[trigger] other.key_ok(p) implies other.list_ok(p) by {
                assert(self.key_ok(p));
                assert(self.list_ok(p));
                let l = self.lists@[p];
                assert forall|i: int| 0 <= i < l.len() implies #[trigger] other.link_ok(p, l, i) by {
                    assert(self.link_ok(p, l, i));
                }
            }
            assert forall|w: usize| #[trigger] other.live(w) && Some(w) != None::<usize> implies other.node_ok(w) by {
                assert(self.live(w));
                assert(self.node_ok(w));
            }
            assert forall|p: Option<usize>| #[trigger] other.lists@.dom().contains(p) <==> other.key_ok(p) by {
                assert(self.lists@.dom().contains(p) <==> self.key_ok(p));
            }
        }
        if other.wf() {
            assert forall|p: Option<usize>| #[trigger] self.key_ok(p) implies self.list_ok(p) by {
                assert(other.key_ok(p));
                assert(other.list_ok(p));
                let l = other.lists@[p];
                assert forall|i: int| 0 <= i < l.len() implies #[trigger] self.link_ok(p, l, i) by {
                    assert(other.link_ok(p, l, i));
                }
            }
            assert forall|w: usize| #[trigger] self.live(w) && Some(w) != None::<usize> implies self.node_ok(w) by {
                assert(other.live(w));
                assert(other.node_ok(w));
            }
            assert forall|p: Option<usize>| #[trigger] self.lists@.dom().contains(p) <==> self.key_ok(p) by {
                assert(other.lists@.dom().contains(p) <==> other.key_ok(p));
            }
        }
    }

    pub fn get_props(&self, w: Window) -> (r: Props)
        requires
            self.wf(),
            self.live(w.0),
        ensures
            r == self.props_of(w.0),
    {
        self.props[w.0]
    }

    /// Replaces the properties of `w`; nothing else changes.
    pub fn set_props(&mut self, w: Window, p: Props)
        requires
            old(self).wf(),
            old(self).live(w.0),
        ensures
            final(self).wf(),
            final(self).same_structure(*old(self)),
            final(self).props_of(w.0) == p,
            forall|v: usize| v != w.0 && v < old(self).slots() ==> #[trigger] final(self).props_of(v) == old(self).props_of(v),
            forall|v: usize| #[trigger] final(self).palette_of(v) == old(self).palette_of(v),
            final(self).state_spec() == old(self).state_spec(),
    {
        self.props.set(w.0, p);
        proof {
            self.lemma_same_structure(*old(self));
        }
    }

    pub fn palette(&self, w: Window) -> (r: &Palette)
        requires
            self.wf(),
            self.live(w.0),
        ensures
            r@ == self.palette_of(w.0),
    {
        &self.palettes[w.0]
    }

    /// Sets entry `i` of the palette of `w`; nothing else changes.
    pub fn set_palette_entry(&mut self, w: Window, i: u8, o: PaletteEntry)
        requires
            old(self).wf(),
            old(self).live(w.0),
        ensures
            final(self).wf(),
            final(self).same_structure(*old(self)),
            final(self).palette_of(w.0) == palette_set(old(self).palette_of(w.0), i, o),
            forall|v: usize| v != w.0 && v < old(self).slots() ==> #[trigger] final(self).palette_of(v) == old(self).palette_of(v),
            forall|v: usize| #[trigger] final(self).props_of(v) == old(self).props_of(v),
            final(self).state_spec() == old(self).state_spec(),
    {
        let mut p = Palette::new();
        self.palettes.set_and_swap(w.0, &mut p);
        p.set(i, o);
        self.palettes.set_and_swap(w.0, &mut p);
        proof {
            self.lemma_same_structure(*old(self));
        }
    }

    pub fn root_palette(&self) -> (r: &Palette)
        ensures
            r@ == self.root_palette_view(),
    {
        &self.state.palette
    }

    /// Sets entry `i` of the root palette; nothing else changes.
    pub fn set_root_palette_entry(&mut self, i: u8, o: PaletteEntry)
        requires
            old(self).wf(),
        ensures
            final(self).wf(),
            final(self).same_structure(*old(self)),
            final(self).root_palette_view() == palette_set(old(self).root_palette_view(), i, o),
            forall|v: usize| #[trigger] final(self).props_of(v) == old(self).props_of(v),
            forall|v: usize| #[trigger] final(self).palette_of(v) == old(self).palette_of(v),
            final(self).primary() == old(self).primary(),
            final(self).secondary() == old(self).secondary(),
            final(self).next_primary() == old(self).next_primary(),
            final(self).next_secondary() == old(self).next_secondary(),
    {
        self.state.palette.set(i, o);
        proof {
            self.lemma_same_structure(*old(self));
        }
    }

    pub fn primary_focused(&self) -> (r: Option<Window>)
        ensures
            r == (match self.primary() { None => None::<Window>, Some(p) => Some(Window(p)) }),
    {
        match self.state.primary_focused {
            None => None,
            Some(p) => Some(Window(p)),
        }
    }

    pub fn secondary_focused(&self) -> (r: Option<Window>)
        ensures
            r == (match self.secondary() { None => None::<Window>, Some(p) => Some(Window(p)) }),
    {
        match self.state.secondary_focused {
            None => None,
            Some(p) => Some(Window(p)),
        }
    }

    pub fn next_primary_focused(&self) -> (r: Option<Option<usize>>)
        ensures
            r == self.next_primary(),
    {
        self.state.next_primary_focused
    }

    pub fn next_secondary_focused(&self) -> (r: Option<Option<usize>>)
        ensures
            r == self.next_secondary(),
    {
        self.state.next_secondary_focused
    }

    /// Sets the four focus fields; nothing else changes.
    pub fn set_focus_state(
        &mut self,
        primary: Option<usize>,
        secondary: Option<usize>,
        next_primary: Option<Option<usize>>,
        next_secondary: Option<Option<usize>>,
    )
        requires
            old(self).wf(),
        ensures
            final(self).wf(),
            final(self).same_structure(*old(self)),
            final(self).primary() == primary,
            final(self).secondary() == secondary,
            final(self).next_primary() == next_primary,
            final(self).next_secondary() == next_secondary,
            final(self).root_palette_view() == old(self).root_palette_view(),
            forall|v: usize| #[trigger] final(self).props_of(v) == old(self).props_of(v),
            forall|v: usize| #[trigger] final(self).palette_of(v) == old(self).palette_of(v),
            final(self).cursor_spec() == old(self).cursor_spec(),
            final(self).quit_spec() == old(self).quit_spec(),
    {
        self.state.primary_focused = primary;
        self.state.secondary_focused = secondary;
        self.state.next_primary_focused = next_primary;
        self.state.next_secondary_focused = next_secondary;
        proof {
            self.lemma_same_structure(*old(self));
        }
    }

    pub fn quit(&mut self)
        requires
            old(self).wf(),
        ensures
            final(self).wf(),
            final(self).same_structure(*old(self)),
            final(self).quit_spec(),
            forall|v: usize| #[trigger] final(self).props_of(v) == old(self).props_of(v),
            forall|v: usize| #[trigger] final(self).palette_of(v) == old(self).palette_of(v),
    {
        self.state.quit = true;
        proof {
            self.lemma_same_structure(*old(self));
        }
    }

    pub fn is_quit(&self) -> (r: bool)
        ensures
            r == self.quit_spec(),
    {
        self.state.quit
    }

    pub fn widget(&self, w: Window) -> (r: &Option<W>)
        requires
            self.wf(),
            self.live(w.0),
        ensures
            *r == self.widget_of(w.0),
    {
        &self.widgets[w.0]
    }
}

/// Inserting `x` at `k` into the ring `l` of `p` needs only the links of `x`
/// and of its two new neighbours to change.
proof fn lemma_insert_ring<W>(o: WindowTree<W>, t: WindowTree<W>, p: Option<usize>, l: Seq<usize>, x: usize, k: int)
    requires
        0 <= k <= l.len(),
        l.no_duplicates(),
        !l.contains(x),
        forall|i: int| 0 <= i < l.len() ==> #[trigger] o.link_ok(p, l, i),
        t.links@.len() == o.links@.len(),
        forall|w: usize| #[trigger] t.live(w) == o.live(w),
        o.live(x),
        ({
            let nl = l.insert(k, x);
            let n = l.len() as int;
            let a = nl[prev_idx(k, n + 1)];
            let b = nl[next_idx(k, n + 1)];
            &&& t.links@[x as int].parent == p
            &&& t.links@[x as int].prev == a
            &&& t.links@[x as int].next == b
            &&& forall|w: usize| w != x && w < t.links@.len() ==> {
                &&& #[trigger] t.links@[w as int].parent == o.links@[w as int].parent
                &&& t.links@[w as int].next == (if w == a { x } else { o.links@[w as int].next })
                &&& t.links@[w as int].prev == (if w == b { x } else { o.links@[w as int].prev })
            }
        }),
    ensures
        l.insert(k, x).no_duplicates(),
        forall|i: int| 0 <= i < l.len() + 1 ==> #[trigger] t.link_ok(p, l.insert(k, x), i),
{
    let nl = l.insert(k, x);
    let n = l.len() as int;
    l.insert_ensures(k, x);
    assert forall|a: int, b: int| 0 <= a < nl.len() && 0 <= b < nl.len() && a != b
        implies nl[a] != nl[b] by {
        if a != k && b != k {
            let a0 = if a < k { a } else { a - 1 };
            let b0 = if b < k { b } else { b - 1 };
            assert(nl[a] == l[a0]);
            assert(nl[b] == l[b0]);
        } else if a == k {
            let b0 = if b < k { b } else { b - 1 };
            assert(nl[b] == l[b0]);
        } else {
            let a0 = if a < k { a } else { a - 1 };
            assert(nl[a] == l[a0]);
        }
    }
    assert forall|i: int| 0 <= i < nl.len() implies #[trigger] t.link_ok(p, nl, i) by {
        if i != k {
            let i0 = if i < k { i } else { i - 1 };
            assert(nl[i] == l[i0]);
            assert(o.link_ok(p, l, i0));
            assert(o.link_ok(p, l, next_idx(i0, n)));
            assert(o.link_ok(p, l, prev_idx(i0, n)));
            let y = nl[i];
            assert(y != x);
        }
    }
}

/// After a ring insert into the list of `p`, every other list, and every
/// window, is as it was.
proof fn lemma_attach_rest<W>(o: WindowTree<W>, t: WindowTree<W>, p: Option<usize>, x: usize, k: int)
    requires
        o.wf_except(Some(x)),
        o.key_ok(p),
        p matches Some(q) ==> q < x,
        0 <= k <= o.lists@[p].len(),
        t.lists@ == o.lists@.insert(p, o.lists@[p].insert(k, x)),
        t.links@.len() == o.links@.len(),
        t.widgets@.len() == o.widgets@.len(),
        t.props@.len() == o.props@.len(),
        t.palettes@.len() == o.palettes@.len(),
        forall|w: usize| #[trigger] t.live(w) == o.live(w),
        t.links@[x as int].parent == p,
        forall|w: usize| w != x && w < t.links@.len() && o.links@[w as int].parent != p ==> {
            &&& #[trigger] t.links@[w as int].parent == o.links@[w as int].parent
            &&& t.links@[w as int].next == o.links@[w as int].next
            &&& t.links@[w as int].prev == o.links@[w as int].prev
        },
        forall|w: usize| w != x && w < t.links@.len() ==> #[trigger] t.links@[w as int].parent == o.links@[w as int].parent,
        forall|q: Option<usize>| o.key_ok(q) && q != p ==> #[trigger] t.first_of(q) == o.first_of(q),
        t.first_of(p) == Some(t.lists@[p][0]),
        t.lists@[p].no_duplicates(),
        forall|i: int| 0 <= i < t.lists@[p].len() ==> #[trigger] t.link_ok(p, t.lists@[p], i),
    ensures
        t.wf(),
{
    let l = o.lists@[p];
    let nl = t.lists@[p];
    l.insert_ensures(k, x);
    assert forall|q: Option<usize>| #[trigger] t.lists@.dom().contains(q) <==> t.key_ok(q) by {
        assert(o.lists@.dom().contains(q) <==> o.key_ok(q));
    }
    assert forall|q: Option<usize>| #[trigger] t.key_ok(q) implies t.list_ok(q) by {
        if q != p {
            assert(o.key_ok(q));
            assert(o.list_ok(q));
            let lq = o.lists@[q];
            assert forall|i: int| 0 <= i < lq.len() implies #[trigger] t.link_ok(q, lq, i) by {
                assert(o.link_ok(q, lq, i));
                assert(lq[i] != x) by {
                    assert(lq.contains(lq[i]));
                }
            }
        }
    }
    assert forall|w: usize| #[trigger] t.live(w) && Some(w) != None::<usize> implies t.node_ok(w) by {
        if w != x {
            assert(o.live(w));
            assert(o.node_ok(w));
            if o.links@[w as int].parent == p {
                let iw = l.index_of(w);
                if iw < k {
                    assert(nl[iw] == w);
                } else {
                    assert(nl[iw + 1] == w);
                }
            }
        } else {
            assert(nl[k] == x);
        }
    }
}

/// Removing the element at `j` from the ring `l` of `p` needs only the links
/// of its two neighbours to change.
proof fn lemma_remove_ring<W>(o: WindowTree<W>, t: WindowTree<W>, p: Option<usize>, l: Seq<usize>, j: int)
    requires
        0 <= j < l.len(),
        l.no_duplicates(),
        forall|i: int| 0 <= i < l.len() ==> #[trigger] o.link_ok(p, l, i),
        t.links@.len() == o.links@.len(),
        forall|w: usize| #[trigger] t.live(w) == o.live(w),
        ({
            let n = l.len() as int;
            let x = l[j];
            let a = l[prev_idx(j, n)];
            let b = l[next_idx(j, n)];
            forall|w: usize| w != x && w < t.links@.len() ==> {
                &&& #[trigger] t.links@[w as int].parent == o.links@[w as int].parent
                &&& t.links@[w as int].next == (if w == a { b } else { o.links@[w as int].next })
                &&& t.links@[w as int].prev == (if w == b { a } else { o.links@[w as int].prev })
            }
        }),
    ensures
        l.remove(j).no_duplicates(),
        forall|i: int| 0 <= i < l.len() - 1 ==> #[trigger] t.link_ok(p, l.remove(j), i),
{
    let rl = l.remove(j);
    let n = l.len() as int;
    l.remove_ensures(j);
    assert forall|a: int, b: int| 0 <= a < rl.len() && 0 <= b < rl.len() && a != b
        implies rl[a] != rl[b] by {
        let a0 = if a < j { a } else { a + 1 };
        let b0 = if b < j { b } else { b + 1 };
        assert(rl[a] == l[a0]);
        assert(rl[b] == l[b0]);
    }
    assert forall|i: int| 0 <= i < rl.len() implies #[trigger] t.link_ok(p, rl, i) by {
        let i0 = if i < j { i } else { i + 1 };
        assert(rl[i] == l[i0]);
        assert(o.link_ok(p, l, i0));
        assert(o.link_ok(p, l, next_idx(i0, n)));
        assert(o.link_ok(p, l, prev_idx(i0, n)));
        assert(o.link_ok(p, l, j));
        assert(l[i0] != l[j]);
        if next_idx(i0, n) == j {
            assert(o.link_ok(p, l, next_idx(j, n)));
        }
        if prev_idx(i0, n) == j {
            assert(o.link_ok(p, l, prev_idx(j, n)));
        }
    }
}

/// After a ring removal from the list of `p`, the removed window is out of
/// every list and everything else is as it was.
proof fn lemma_detach_rest<W>(o: WindowTree<W>, t: WindowTree<W>, p: Option<usize>, x: usize, j: int)
    requires
        o.wf(),
        o.live(x),
        o.links@[x as int].parent == p,
        0 <= j < o.lists@[p].len(),
        o.lists@[p][j] == x,
        t.lists@ == o.lists@.insert(p, o.lists@[p].remove(j)),
        t.links@.len() == o.links@.len(),
        t.widgets@.len() == o.widgets@.len(),
        t.props@.len() == o.props@.len(),
        t.palettes@.len() == o.palettes@.len(),
        forall|w: usize| #[trigger] t.live(w) == o.live(w),
        t.links@[x as int].parent is None,
        t.links@[x as int].prev == x,
        t.links@[x as int].next == x,
        forall|w: usize| w != x && w < t.links@.len() && o.links@[w as int].parent != p ==> {
            &&& #[trigger] t.links@[w as int].parent == o.links@[w as int].parent
            &&& t.links@[w as int].next == o.links@[w as int].next
            &&& t.links@[w as int].prev == o.links@[w as int].prev
        },
        forall|w: usize| w != x && w < t.links@.len() ==> #[trigger] t.links@[w as int].parent == o.links@[w as int].parent,
        forall|q: Option<usize>| o.key_ok(q) && q != p ==> #[trigger] t.first_of(q) == o.first_of(q),
        t.first_of(p) == (if t.lists@[p].len() == 0 { None::<usize> } else { Some(t.lists@[p][0]) }),
        t.lists@[p].no_duplicates(),
        forall|i: int| 0 <= i < t.lists@[p].len() ==> #[trigger] t.link_ok(p, t.lists@[p], i),
    ensures
        t.wf_except(Some(x)),
{
    let l = o.lists@[p];
    let rl = t.lists@[p];
    l.remove_ensures(j);
    assert forall|q: Option<usize>| #[trigger] t.lists@.dom().contains(q) <==> t.key_ok(q) by {
        assert(o.lists@.dom().contains(q) <==> o.key_ok(q));
    }
    assert forall|q: Option<usize>| #[trigger] t.key_ok(q) implies t.list_ok(q) by {
        if q != p {
            assert(o.key_ok(q));
            assert(o.list_ok(q));
            let lq = o.lists@[q];
            assert forall|i: int| 0 <= i < lq.len() implies #[trigger] t.link_ok(q, lq, i) by {
                assert(o.link_ok(q, lq, i));
            }
        }
    }
    assert forall|w: usize| #[trigger] t.live(w) && Some(w) != Some(x) implies t.node_ok(w) by {
        assert(o.live(w));
        assert(o.node_ok(w));
        if o.links@[w as int].parent == p {
            let iw = l.index_of(w);
            assert(iw != j);
            if iw < j {
                assert(rl[iw] == w);
            } else {
                assert(rl[iw - 1] == w);
            }
        }
    }
    assert forall|q: Option<usize>| #[trigger] t.key_ok(q) implies !t.lists@[q].contains(x) by {
        if q == p {
            if rl.contains(x) {
                let ix = rl.index_of(x);
                let ix0 = if ix < j { ix } else { ix + 1 };
                assert(l[ix0] == x);
            }
        } else {
            assert(o.key_ok(q));
            assert(o.list_ok(q));
            if o.lists@[q].contains(x) {
                let ix = o.lists@[q].index_of(x);
                assert(o.link_ok(q, o.lists@[q], ix));
            }
        }
    }
}

/// The number of live slots among the first `n`.
spec fn count_live(links: Seq<Links>, n: int) -> nat
    decreases n,
{
    if n <= 0 {
        0
    } else {
        count_live(links, n - 1) + (if links[n - 1].live { 1nat } else { 0nat })
    }
}

proof fn lemma_count_same(a: Seq<Links>, b: Seq<Links>, n: int)
    requires
        n <= a.len(),
        n <= b.len(),
        forall|i: int| 0 <= i < n ==> #[trigger] a[i].live == b[i].live,
    ensures
        count_live(a, n) == count_live(b, n),
    decreases n,
{
    if n > 0 {
        lemma_count_same(a, b, n - 1);
    }
}

proof fn lemma_count_kill(a: Seq<Links>, b: Seq<Links>, x: int, n: int)
    requires
        0 <= x < n <= a.len(),
        a.len() == b.len(),
        a[x].live,
        !b[x].live,
        forall|i: int| 0 <= i < n && i != x ==> #[trigger] a[i].live == b[i].live,
    ensures
        count_live(b, n) + 1 == count_live(a, n),
    decreases n,
{
    if n - 1 == x {
        lemma_count_same(a, b, n - 1);
    } else {
        lemma_count_kill(a, b, x, n - 1);
    }
}

/// Two trees whose live windows have the same parents agree on which
/// windows lie below which.
proof fn lemma_subtree_same_parents<W>(a: WindowTree<W>, b: WindowTree<W>, v: usize, x: usize)
    requires
        b.wf(),
        b.live(v),
        forall|u: usize| b.live(u) ==> #[trigger] b.links@[u as int].parent == a.links@[u as int].parent,
    ensures
        a.in_subtree(v, x) == b.in_subtree(v, x),
    decreases v,
{
    if v != x {
        assert(b.node_ok(v));
        match b.links@[v as int].parent {
            Some(p) => {
                lemma_subtree_same_parents(a, b, p, x);
            },
            None => {},
        }
    }
}

/// Two trees with the same parent links agree on which windows lie below which.
proof fn lemma_subtree_same_links<W>(a: WindowTree<W>, b: WindowTree<W>, v: usize, x: usize)
    requires
        a.links@ == b.links@,
    ensures
        a.in_subtree(v, x) == b.in_subtree(v, x),
    decreases v,
{
    if v != x {
        match a.links@[v as int].parent {
            Some(p) => {
                if p < v {
                    lemma_subtree_same_links(a, b, p, x);
                }
            },
            None => {},
        }
    }
}

/// The list `l` with `x` put after `prev`, or in front.
pub open spec fn attach_list(l: Seq<usize>, x: usize, prev: Option<usize>) -> Seq<usize> {
    match prev {
        None => l.insert(0, x),
        Some(pv) => l.insert(l.index_of(pv) + 1, x),
    }
}

} // verus!
