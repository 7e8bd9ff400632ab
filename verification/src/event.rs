//! Events, and the order in which windows see them.
//!
//! An event raised at a window is first offered, as its preview, to the
//! window's outermost ancestor and on down to the window; if no one handles
//! the preview, the event itself is offered to the window and on up to the
//! outermost ancestor.  An event of the secondary focus stops at the first
//! window that holds the primary focus.

use vstd::prelude::*;
use crate::geom::Point;
use crate::screen::Key;
use crate::tree::{WindowTree, Window};

verus! {

#[derive(Clone, Copy, Debug, PartialEq, Eq, Structural)]
pub enum Event {
    Key(Key),
    PreviewKey(Key),
    PreProcessKey(Key),
    PostProcessKey(Key),
    Cmd(u16),
    PreviewCmd(u16),
    LmbDown(Point),
}

pub const CMD_GOT_PRIMARY_FOCUS: u16 = 0;
pub const CMD_LOST_PRIMARY_FOCUS: u16 = 1;
pub const CMD_GOT_SECONDARY_FOCUS: u16 = 2;
pub const CMD_LOST_SECONDARY_FOCUS: u16 = 3;
pub const CMD_LOST_ATTENTION: u16 = 4;

pub open spec fn is_preview_spec(e: Event) -> bool {
    e is PreviewKey || e is PreviewCmd
}

/// The preview of a key or command event.
pub open spec fn preview_spec(e: Event) -> Event {
    match e {
        Event::Key(k) => Event::PreviewKey(k),
        Event::Cmd(n) => Event::PreviewCmd(n),
        _ => e,
    }
}

impl Event {
    pub fn is_preview(self) -> (r: bool)
        ensures
            r == is_preview_spec(self),
    {
        match self {
            Event::PreviewKey(_) => true,
            Event::PreviewCmd(_) => true,
            _ => false,
        }
    }

    /// The preview of a key or command event.
    pub fn preview(self) -> (r: Event)
        requires
            self is Key || self is Cmd,
        ensures
            r == preview_spec(self),
            is_preview_spec(r),
    {
        match self {
            Event::Key(k) => Event::PreviewKey(k),
            Event::Cmd(n) => Event::PreviewCmd(n),
            _ => self,
        }
    }
}

/// The windows an event raised at `w` goes through, from `w` up: `w` and
/// its ancestors, but for an event of the secondary focus only those below
/// the first one that holds the primary focus.
pub open spec fn route<W>(t: WindowTree<W>, w: usize, secondary: bool) -> Seq<usize>
    decreases w,
{
    if secondary && t.props_of(w).contains_primary_focus {
        Seq::empty()
    } else {
        match t.parent_of(w) {
            Some(p) => if p < w { seq![w] + route(t, p, secondary) } else { seq![w] },
            None => seq![w],
        }
    }
}

impl<W> WindowTree<W> {
    /// The windows an event raised at `w` is offered to, from `w` up (the
    /// preview goes through them in the other order).
    pub fn event_route(&self, w: Window, secondary: bool) -> (r: Vec<Window>)
        requires
            self.wf(),
            self.live(w.0),
        ensures
            r@.len() == route(*self, w.0, secondary).len(),
            forall|i: int| 0 <= i < r@.len() ==> #[trigger] r@[i].0 == route(*self, w.0, secondary)[i],
    {
        let mut r: Vec<Window> = Vec::new();
        let mut cur = w;
        loop
            invariant
                self.wf(),
                self.live(cur.0),
                route(*self, w.0, secondary).len() == r@.len() + route(*self, cur.0, secondary).len(),
                forall|i: int| 0 <= i < r@.len() ==> #[trigger] r@[i].0 == route(*self, w.0, secondary)[i],
                forall|i: int| 0 <= i < route(*self, cur.0, secondary).len() ==>
                    #[trigger] route(*self, cur.0, secondary)[i] == route(*self, w.0, secondary)[r@.len() + i],
            decreases cur.0,
        {
            proof {
                self.lemma_live(cur.0);
            }
            if secondary && self.get_props(cur).contains_primary_focus {
                return r;
            }
            r.push(cur);
            proof {
                assert(route(*self, cur.0, secondary)[0] == cur.0);
            }
            match self.parent(cur) {
                None => {
                    return r;
                },
                Some(p) => {
                    proof {
                        let rc = route(*self, cur.0, secondary);
                        let rp = route(*self, p.0, secondary);
                        assert(rc == seq![cur.0] + rp);
                        assert forall|i: int| 0 <= i < rp.len() implies
                            #[trigger] rp[i] == route(*self, w.0, secondary)[r@.len() + i] by {
                            assert(rc[i + 1] == rp[i]);
                        }
                    }
                    cur = p;
                },
            }
        }
    }
}

/// A step of offering a key that navigation did not take: to each
/// pre-process handler in turn, then along the primary focus's route, then
/// along the secondary focus's route, then to each post-process handler in
/// turn; the first that handles it ends the offer.  When the secondary
/// route handles it, the primary focus is told it lost attention.
#[derive(Clone, Copy, Debug, PartialEq, Eq, Structural)]
pub enum KeyStep {
    /// Raise the key, as pre-processed, at pre-process handler `i`.
    PreProcess(usize),
    /// Raise the key at the primary focus.
    Primary,
    /// Raise the key at the secondary focus.
    Secondary,
    /// Raise `CMD_LOST_ATTENTION` at the primary focus.
    LostAttention,
    /// Raise the key, as post-processed, at post-process handler `i`.
    PostProcess(usize),
    /// The offer is over.
    Done,
}

/// The first step of the offer from post-process handler `i` on.
pub open spec fn post_from(i: int, n_post: usize) -> KeyStep {
    if 0 <= i < n_post { KeyStep::PostProcess(i as usize) } else { KeyStep::Done }
}

/// The first step of the offer from pre-process handler `i` on.
pub open spec fn pre_from(i: int, n_pre: usize, n_post: usize, has_primary: bool, has_secondary: bool) -> KeyStep {
    if 0 <= i < n_pre {
        KeyStep::PreProcess(i as usize)
    } else if has_primary {
        KeyStep::Primary
    } else if has_secondary {
        KeyStep::Secondary
    } else {
        post_from(0, n_post)
    }
}

/// The step after `s`, which was `handled` or not.
pub open spec fn key_step_after(s: KeyStep, handled: bool, n_pre: usize, n_post: usize, has_primary: bool, has_secondary: bool) -> KeyStep {
    match s {
        KeyStep::PreProcess(i) => if handled { KeyStep::Done } else { pre_from(i + 1, n_pre, n_post, has_primary, has_secondary) },
        KeyStep::Primary => if handled {
            KeyStep::Done
        } else if has_secondary {
            KeyStep::Secondary
        } else {
            post_from(0, n_post)
        },
        KeyStep::Secondary => if handled {
            if has_primary { KeyStep::LostAttention } else { KeyStep::Done }
        } else {
            post_from(0, n_post)
        },
        KeyStep::LostAttention => KeyStep::Done,
        KeyStep::PostProcess(i) => if handled { KeyStep::Done } else { post_from(i + 1, n_post) },
        KeyStep::Done => KeyStep::Done,
    }
}

fn post_from_exec(i: usize, n_post: usize) -> (r: KeyStep)
    ensures
        r == post_from(i as int, n_post),
{
    if i < n_post { KeyStep::PostProcess(i) } else { KeyStep::Done }
}

/// The first step of offering a key, with `n_pre` pre-process and `n_post`
/// post-process handlers, and a primary and a secondary focus or not.
pub fn key_dispatch_start(n_pre: usize, n_post: usize, has_primary: bool, has_secondary: bool) -> (r: KeyStep)
    ensures
        r == pre_from(0, n_pre, n_post, has_primary, has_secondary),
{
    if 0 < n_pre {
        KeyStep::PreProcess(0)
    } else if has_primary {
        KeyStep::Primary
    } else if has_secondary {
        KeyStep::Secondary
    } else {
        post_from_exec(0, n_post)
    }
}

/// The step after `s`, which was `handled` or not.
pub fn key_dispatch_next(s: KeyStep, handled: bool, n_pre: usize, n_post: usize, has_primary: bool, has_secondary: bool) -> (r: KeyStep)
    ensures
        r == key_step_after(s, handled, n_pre, n_post, has_primary, has_secondary),
{
    match s {
        KeyStep::PreProcess(i) => {
            if handled {
                KeyStep::Done
            } else if i < n_pre && i + 1 < n_pre {
                KeyStep::PreProcess(i + 1)
            } else if has_primary {
                KeyStep::Primary
            } else if has_secondary {
                KeyStep::Secondary
            } else {
                post_from_exec(0, n_post)
            }
        },
        KeyStep::Primary => {
            if handled {
                KeyStep::Done
            } else if has_secondary {
                KeyStep::Secondary
            } else {
                post_from_exec(0, n_post)
            }
        },
        KeyStep::Secondary => {
            if handled {
                if has_primary { KeyStep::LostAttention } else { KeyStep::Done }
            } else {
                post_from_exec(0, n_post)
            }
        },
        KeyStep::LostAttention => KeyStep::Done,
        KeyStep::PostProcess(i) => {
            if handled || !(i < n_post && i + 1 < n_post) {
                KeyStep::Done
            } else {
                KeyStep::PostProcess(i + 1)
            }
        },
        KeyStep::Done => KeyStep::Done,
    }
}

} // verus!
