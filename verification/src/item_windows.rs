//! The item windows of a presenter's panel: the panel's children, in order,
//! are the windows of a range of data items, each marked with its item's
//! index.  Updating the presenter drops item windows at either end and adds
//! new ones in front and behind, or builds the panel anew.

use vstd::prelude::*;
use crate::geom::Thickness;
use crate::tree::{WindowTree, Window, Props, attach_list};
use crate::items::{VirtPlan, shift_plan};
use crate::num::uv;

verus! {

/// The children of `panel` are the windows of the items `start .. end`, in
/// order.
pub open spec fn shows_items<W>(t: WindowTree<W>, panel: usize, start: int, end: int) -> bool {
    let ch = t.children(Some(panel));
    &&& start <= end
    &&& ch.len() == end - start
    &&& forall|k: int| 0 <= k < ch.len() ==> #[trigger] t.props_of(ch[k]).source_index == Some((start + k) as usize)
}

/// What an operation on a panel's children leaves as it was: the tree stays
/// well formed, the panel and its place, and the properties of the windows
/// that were there.
pub open spec fn keeps_panel<W>(a: WindowTree<W>, b: WindowTree<W>, panel: usize) -> bool {
    &&& b.wf()
    &&& b.live(panel)
    &&& b.parent_of(panel) == a.parent_of(panel)
    &&& b.slots() >= a.slots()
    &&& forall|v: usize| v < a.slots() ==> #[trigger] b.props_of(v) == a.props_of(v)
    &&& b.state_spec() == a.state_spec()
}

/// Drops the first `n` children of `panel`.
fn drop_first_items<W>(t: &mut WindowTree<W>, panel: Window, n: usize)
    requires
        old(t).wf(),
        old(t).live(panel.0),
        n <= old(t).children(Some(panel.0)).len(),
    ensures
        keeps_panel(*old(t), *final(t), panel.0),
        final(t).slots() == old(t).slots(),
        final(t).children(Some(panel.0)) == old(t).children(Some(panel.0)).subrange(n as int, old(t).children(Some(panel.0)).len() as int),
{
    let ghost l0 = t.children(Some(panel.0));
    let ghost t0 = *t;
    let mut i: usize = 0;
    while i < n
        invariant
            i <= n <= l0.len(),
            t0 == *old(t),
            l0 == t0.children(Some(panel.0)),
            keeps_panel(t0, *t, panel.0),
            t.slots() == t0.slots(),
            t.children(Some(panel.0)) == l0.subrange(i as int, l0.len() as int),
        decreases n - i,
    {
        proof {
            t.lemma_children(Some(panel.0));
        }
        let f = t.first_child(Some(panel)).unwrap();
        proof {
            let l = t.children(Some(panel.0));
            t.lemma_live(f.0);
            t.lemma_live(panel.0);
            if t.in_subtree(panel.0, f.0) {
                t.lemma_subtree_ge(panel.0, f.0);
            }
            assert(l[0] == f.0);
            assert(l.index_of(f.0) == 0);
        }
        let ghost before = *t;
        t.drop_window(f);
        proof {
            let l = before.children(Some(panel.0));
            assert(l.remove(0) =~= l0.subrange(i as int + 1, l0.len() as int));
        }
        i = i + 1;
    }
}

/// Drops the last `n` children of `panel`.
fn drop_last_items<W>(t: &mut WindowTree<W>, panel: Window, n: usize)
    requires
        old(t).wf(),
        old(t).live(panel.0),
        n <= old(t).children(Some(panel.0)).len(),
    ensures
        keeps_panel(*old(t), *final(t), panel.0),
        final(t).slots() == old(t).slots(),
        final(t).children(Some(panel.0)) == old(t).children(Some(panel.0)).subrange(0, old(t).children(Some(panel.0)).len() - n),
{
    let ghost l0 = t.children(Some(panel.0));
    let ghost t0 = *t;
    let mut i: usize = 0;
    while i < n
        invariant
            i <= n <= l0.len(),
            t0 == *old(t),
            l0 == t0.children(Some(panel.0)),
            keeps_panel(t0, *t, panel.0),
            t.slots() == t0.slots(),
            t.children(Some(panel.0)) == l0.subrange(0, l0.len() - i),
        decreases n - i,
    {
        proof {
            t.lemma_children(Some(panel.0));
        }
        let f = t.first_child(Some(panel)).unwrap();
        proof {
            t.lemma_live(f.0);
            assert(t.children(Some(panel.0))[0] == f.0);
            assert(t.pos(f.0) == 0);
        }
        let last = t.prev(f);
        proof {
            let l = t.children(Some(panel.0));
            t.lemma_live(last.0);
            t.lemma_live(panel.0);
            if t.in_subtree(panel.0, last.0) {
                t.lemma_subtree_ge(panel.0, last.0);
            }
            assert(l[l.len() - 1] == last.0);
            assert(l.index_of(last.0) == l.len() - 1);
        }
        let ghost before = *t;
        t.drop_window(last);
        proof {
            let l = before.children(Some(panel.0));
            assert(l.remove(l.len() - 1) =~= l0.subrange(0, l0.len() - i - 1));
        }
        i = i + 1;
    }
}

/// Where new children go after `prev` in `l`: right after it, or in front.
pub open spec fn insert_at(l: Seq<usize>, prev: Option<Window>) -> int {
    match prev {
        None => 0,
        Some(pv) => l.index_of(pv.0) + 1,
    }
}

/// Adds windows (each with the widget `item`) for the items `start .. end`
/// among the children of `panel`, in order, after `prev` or in front.
fn insert_items<W: Copy>(t: &mut WindowTree<W>, panel: Window, prev: Option<Window>, start: usize, end: usize, item: W)
    requires
        old(t).wf(),
        old(t).live(panel.0),
        start <= end,
        old(t).slots() + (end - start) < usize::MAX,
        prev matches Some(pv) ==> old(t).live(pv.0) && old(t).parent_of(pv.0) == Some(panel.0),
    ensures
        keeps_panel(*old(t), *final(t), panel.0),
        final(t).slots() == old(t).slots() + (end - start),
        forall|v: usize| v < old(t).slots() ==> #[trigger] final(t).live(v) == old(t).live(v),
        forall|v: usize| v < old(t).slots() ==> #[trigger] final(t).parent_of(v) == old(t).parent_of(v),
        forall|q: Option<usize>| old(t).key_ok(q) && q != Some(panel.0) ==> #[trigger] final(t).children(q) == old(t).children(q),
        ({
            let l = old(t).children(Some(panel.0));
            let at = insert_at(l, prev);
            let c = final(t).children(Some(panel.0));
            let n = end - start;
            &&& 0 <= at <= l.len()
            &&& c.len() == l.len() + n
            &&& forall|k: int| 0 <= k < at ==> #[trigger] c[k] == l[k]
            &&& forall|k: int| at <= k < at + n ==> #[trigger] final(t).props_of(c[k]).source_index == Some((start + k - at) as usize)
            &&& forall|k: int| at + n <= k < c.len() ==> #[trigger] c[k] == l[k - n]
        }),
{
    let ghost t0 = *t;
    let ghost l = t.children(Some(panel.0));
    proof {
        t.lemma_children(Some(panel.0));
        if let Some(pv) = prev {
            t.lemma_live(pv.0);
            assert(l[t.pos(pv.0)] == pv.0);
            assert(l.index_of(pv.0) == t.pos(pv.0));
        }
    }
    let ghost at = insert_at(l, prev);
    let ghost mut news: Seq<usize> = Seq::empty();
    let mut cur = prev;
    let mut i = start;
    while i < end
        invariant
            start <= i <= end,
            t0 == *old(t),
            l == t0.children(Some(panel.0)),
            0 <= at <= l.len(),
            at == insert_at(l, prev),
            t.slots() + (end - i) < usize::MAX,
            keeps_panel(t0, *t, panel.0),
            t.slots() == t0.slots() + (i - start),
            t0.wf(),
            forall|v: usize| v < t0.slots() ==> #[trigger] t.live(v) == t0.live(v),
            forall|v: usize| v < t0.slots() ==> #[trigger] t.parent_of(v) == t0.parent_of(v),
            forall|q: Option<usize>| t0.key_ok(q) && q != Some(panel.0) ==> #[trigger] t.children(q) == t0.children(q),
            news.len() == i - start,
            t.children(Some(panel.0)) == l.take(at) + news + l.skip(at),
            forall|k: int| 0 <= k < news.len() ==> t0.slots() <= #[trigger] news[k] < t.slots(),
            forall|k: int| 0 <= k < news.len() ==> #[trigger] t.props_of(news[k]).source_index == Some((start + k) as usize),
            match cur {
                None => news.len() == 0 && at == 0,
                Some(cw) => t.live(cw.0) && t.parent_of(cw.0) == Some(panel.0)
                    && t.children(Some(panel.0)).index_of(cw.0) == at + news.len() - 1,
            },
        decreases end - i,
    {
        let ghost before = *t;
        let w = t.new_window(item, Some(panel), cur);
        proof {
            let c = before.children(Some(panel.0));
            let c2 = t.children(Some(panel.0));
            let pos = at + news.len();
            assert(attach_list(c, w.0, match cur { None => None::<usize>, Some(v) => Some(v.0) }) == c.insert(pos, w.0));
            assert(c2 == c.insert(pos, w.0));
            assert(c2 =~= l.take(at) + news.push(w.0) + l.skip(at));
            t.lemma_children(Some(panel.0));
            assert(c2[pos] == w.0);
            assert(c2.index_of(w.0) == pos);
        }
        let ghost mid = *t;
        let p = t.get_props(w);
        t.set_props(w, Props { source_index: Some(i), ..p });
        proof {
            t.lemma_same_structure(mid);
            assert forall|v: usize| v < t0.slots() implies #[trigger] t.props_of(v) == t0.props_of(v) by {
                assert(v < before.slots());
                assert(mid.props_of(v) == before.props_of(v));
                assert(before.props_of(v) == t0.props_of(v));
            }
            assert(t.live(panel.0));
            before.lemma_live(panel.0);
            assert(mid.parent_of(panel.0) == before.parent_of(panel.0));
            assert(t.parent_of(panel.0) == t0.parent_of(panel.0));
            assert(t.wf());
            assert(t.state_spec() == t0.state_spec());
            assert(t.slots() >= t0.slots());
            assert forall|q: Option<usize>| t0.key_ok(q) && q != Some(panel.0) implies #[trigger] t.children(q) == t0.children(q) by {
                if let Some(z) = q {
                    t0.lemma_live(z);
                }
                assert(before.key_ok(q));
                assert(mid.children(q) == before.children(q));
            }
            assert forall|v: usize| v < t0.slots() implies #[trigger] t.live(v) == t0.live(v) by {
                assert(mid.live(v) == before.live(v));
            }
            assert forall|v: usize| v < t0.slots() implies #[trigger] t.parent_of(v) == t0.parent_of(v) by {
                assert(mid.parent_of(v) == before.parent_of(v));
            }
            news = news.push(w.0);
            assert forall|k: int| 0 <= k < news.len() implies #[trigger] t.props_of(news[k]).source_index == Some((start + k) as usize) by {
                if k < news.len() - 1 {
                    assert(news[k] < w.0);
                }
            }
        }
        cur = Some(w);
        i = i + 1;
    }
    proof {
        let c = t.children(Some(panel.0));
        let n = end - start;
        assert forall|k: int| 0 <= k < at implies #[trigger] c[k] == l[k] by {
            assert(c[k] == (l.take(at) + news + l.skip(at))[k]);
        }
        assert forall|k: int| at <= k < at + n implies #[trigger] t.props_of(c[k]).source_index == Some((start + k - at) as usize) by {
            assert(c[k] == news[k - at]);
        }
        assert forall|k: int| at + n <= k < c.len() implies #[trigger] c[k] == l[k - n] by {
            assert(c[k] == l.skip(at)[k - at - n]);
        }
    }
}

/// The parts of a shift, laid end to end, make up the new range: the added
/// head, the kept windows, the added tail.
pub proof fn lemma_shift_layout(old_s: int, old_e: int, new_s: int, new_e: int)
    requires
        old_s <= old_e,
        new_s <= new_e,
    ensures
        ({
            let (dh, dt, head, tail) = shift_plan(old_s, old_e, new_s, new_e);
            let h = if head.1 > head.0 { head.1 - head.0 } else { 0 };
            let tl = if tail.1 > tail.0 { tail.1 - tail.0 } else { 0 };
            let kept = old_e - old_s - dh - dt;
            &&& 0 <= dh && 0 <= dt && 0 <= kept
            &&& h + kept + tl == new_e - new_s
            &&& head.0 == new_s
            &&& kept > 0 ==> old_s + dh == new_s + h
            &&& tl > 0 ==> tail.0 == new_s + h + kept
            &&& tail.1 == new_e
        }),
{
}

/// The top margin a panel gets: what is scrolled past of its first item.
pub open spec fn panel_margin(margin: i16) -> Thickness {
    Thickness { l: 0, t: (-uv(margin)) as i32, r: 0, b: 0 }
}

fn panel_margin_exec(margin: i16) -> (r: Thickness)
    ensures
        r == panel_margin(margin),
{
    let m = crate::num::to_u16(margin);
    proof {
        crate::num::lemma_uv_cast(margin);
    }
    Thickness { l: 0, t: -(m as i32), r: 0, b: 0 }
}

/// Carries out a shift of a virtual presenter's panel, which showed the
/// items `old_start .. old_end`: drops the item windows that left the view,
/// adds windows (each with the widget `item`) for those that came into it,
/// and sets the panel's top margin.  Afterwards the panel shows the items
/// `new_start .. new_end`.
#[verifier::rlimit(100)]
pub fn apply_shift<W: Copy>(
    t: &mut WindowTree<W>,
    panel: Window,
    old_start: usize,
    old_end: usize,
    new_start: usize,
    new_end: usize,
    plan: VirtPlan,
    item: W,
)
    requires
        old(t).wf(),
        old(t).live(panel.0),
        shows_items(*old(t), panel.0, old_start as int, old_end as int),
        new_start <= new_end,
        old(t).slots() + (new_end - new_start) < usize::MAX,
        ({
            let (dh, dt, head, tail) = shift_plan(old_start as int, old_end as int, new_start as int, new_end as int);
            &&& plan matches VirtPlan::Shift { drop_head, drop_tail, head_start, head_end, tail_start, tail_end, .. }
            &&& drop_head == dh && drop_tail == dt
            &&& head_start == head.0 && head_end == head.1
            &&& tail_start == tail.0 && tail_end == tail.1
        }),
    ensures
        final(t).wf(),
        final(t).live(panel.0),
        final(t).parent_of(panel.0) == old(t).parent_of(panel.0),
        final(t).state_spec() == old(t).state_spec(),
        shows_items(*final(t), panel.0, new_start as int, new_end as int),
        final(t).props_of(panel.0) == (Props { margin: panel_margin(plan->Shift_margin), ..old(t).props_of(panel.0) }),
{
    let ghost t0 = *t;
    let ghost l0 = t.children(Some(panel.0));
    proof {
        lemma_shift_layout(old_start as int, old_end as int, new_start as int, new_end as int);
        t.lemma_live(panel.0);
    }
    match plan {
        VirtPlan::Shift { margin, drop_head, drop_tail, head_start, head_end, tail_start, tail_end } => {
            drop_first_items(t, panel, drop_head);
            drop_last_items(t, panel, drop_tail);
            let ghost t1 = *t;
            let ghost mid = t.children(Some(panel.0));
            proof {
                assert(mid =~= l0.subrange(drop_head as int, l0.len() - drop_tail));
            }
            let he = if head_end > head_start { head_end } else { head_start };
            insert_items(t, panel, None, head_start, he, item);
            let ghost t2 = *t;
            let ghost c2 = t.children(Some(panel.0));
            let te = if tail_end > tail_start { tail_end } else { tail_start };
            proof {
                t.lemma_children(Some(panel.0));
            }
            let last = match t.first_child(Some(panel)) {
                None => None,
                Some(f) => {
                    proof {
                        t.lemma_live(f.0);
                        assert(c2[0] == f.0);
                        assert(t.pos(f.0) == 0);
                    }
                    let lw = t.prev(f);
                    proof {
                        t.lemma_live(lw.0);
                        assert(c2[c2.len() - 1] == lw.0);
                        assert(c2.index_of(lw.0) == c2.len() - 1);
                    }
                    Some(lw)
                },
            };
            insert_items(t, panel, last, tail_start, te, item);
            let ghost t3 = *t;
            let p = t.get_props(panel);
            let m = panel_margin_exec(margin);
            t.set_props(panel, Props { margin: m, ..p });
            proof {
                t.lemma_same_structure(t3);
                let c = t.children(Some(panel.0));
                let h = he - head_start;
                let kept = mid.len() as int;
                let tl = te - tail_start;
                assert(c.len() == new_end - new_start);
                assert forall|k: int| 0 <= k < c.len() implies #[trigger] t.props_of(c[k]).source_index == Some((new_start + k) as usize) by {
                    t.lemma_children(Some(panel.0));
                    t.lemma_live(c[k]);
                    assert(t.props_of(c[k]) == t3.props_of(c[k]));
                    if k < h + kept {
                        assert(c[k] == c2[k]);
                        t2.lemma_children(Some(panel.0));
                        t2.lemma_live(c2[k]);
                        assert(c[k] < t2.slots());
                        if k < h {
                            assert(t2.props_of(c2[k]).source_index == Some((head_start + k) as usize));
                        } else {
                            assert(c2[k] == mid[k - h]);
                            assert(mid[k - h] == l0[drop_head + k - h]);
                            t0.lemma_children(Some(panel.0));
                            t0.lemma_live(l0[drop_head + k - h]);
                            assert(l0[drop_head + k - h] < t0.slots());
                            assert(t0.props_of(l0[drop_head + k - h]).source_index == Some((old_start + drop_head + k - h) as usize));
                        }
                    } else {
                        assert(t3.props_of(c[k]).source_index == Some((tail_start + k - (h + kept)) as usize));
                    }
                }
            }
        },
        _ => {},
    }
}

/// Builds a presenter's panel anew: drops the old panel (and its item
/// windows), makes a new one (with the widget `panel_widget`) in front of
/// the presenter's children, sets its top margin, and adds windows (each
/// with the widget `item`) for the items `start .. end`.
pub fn rebuild_panel<W: Copy>(
    t: &mut WindowTree<W>,
    presenter: Window,
    old_panel: Option<Window>,
    panel_widget: W,
    margin: i16,
    start: usize,
    end: usize,
    item: W,
) -> (panel: Window)
    requires
        old(t).wf(),
        old(t).live(presenter.0),
        old_panel matches Some(p) ==> old(t).live(p.0) && old(t).parent_of(p.0) == Some(presenter.0),
        start <= end,
        old(t).slots() + 1 + (end - start) < usize::MAX,
    ensures
        final(t).wf(),
        final(t).live(presenter.0),
        final(t).parent_of(presenter.0) == old(t).parent_of(presenter.0),
        final(t).state_spec() == old(t).state_spec(),
        old_panel matches Some(p) ==> !final(t).live(p.0),
        final(t).live(panel.0),
        final(t).parent_of(panel.0) == Some(presenter.0),
        final(t).children(Some(presenter.0)).len() > 0,
        final(t).children(Some(presenter.0))[0] == panel.0,
        shows_items(*final(t), panel.0, start as int, end as int),
        final(t).props_of(panel.0).margin == panel_margin(margin),
{
    let ghost t0 = *t;
    proof {
        t.lemma_live(presenter.0);
    }
    if let Some(p) = old_panel {
        proof {
            t.lemma_live(p.0);
            t.lemma_subtree_unfold(p.0, p.0);
            if t.in_subtree(presenter.0, p.0) {
                t.lemma_subtree_ge(presenter.0, p.0);
            }
        }
        t.drop_window(p);
    }
    let ghost t1 = *t;
    proof {
        t.lemma_live(presenter.0);
    }
    let panel = t.new_window(panel_widget, Some(presenter), None);
    let ghost t2 = *t;
    let pr = t.get_props(panel);
    let m = panel_margin_exec(margin);
    t.set_props(panel, Props { margin: m, ..pr });
    let ghost t3 = *t;
    proof {
        t.lemma_same_structure(t2);
        assert(t.children(Some(panel.0)).len() == 0);
    }
    insert_items(t, panel, None, start, end, item);
    proof {
        let c = t.children(Some(panel.0));
        assert forall|k: int| 0 <= k < c.len() implies #[trigger] t.props_of(c[k]).source_index == Some((start + k) as usize) by {
            assert(c[k] == c[k]);
        }
        assert(t.children(Some(presenter.0)) == t3.children(Some(presenter.0)));
        assert(t3.children(Some(presenter.0)) == t2.children(Some(presenter.0)));
        assert(t2.children(Some(presenter.0)) == t1.children(Some(presenter.0)).insert(0, panel.0));
        t1.lemma_live(presenter.0);
        assert(t.parent_of(presenter.0) == t0.parent_of(presenter.0));
        if let Some(p) = old_panel {
            t0.lemma_live(p.0);
            assert(!t1.live(p.0));
            assert(!t2.live(p.0));
            assert(!t.live(p.0));
        }
    }
    panel
}

/// Carries out what an update of a virtual presenter planned (see
/// `VirtItemsPresenter::plan_update`): `presenter` is the presenter's
/// window, `panel` its panel if it has one, which showed the items
/// `old_start .. old_end`; `new_start .. new_end` is the range the update
/// put in view.  Returns the panel afterwards.
pub fn apply_plan<W: Copy>(
    t: &mut WindowTree<W>,
    presenter: Window,
    panel: Option<Window>,
    old_start: usize,
    old_end: usize,
    new_start: usize,
    new_end: usize,
    plan: VirtPlan,
    panel_widget: W,
    item: W,
) -> (r: Option<Window>)
    requires
        old(t).wf(),
        old(t).live(presenter.0),
        panel matches Some(p) ==> old(t).live(p.0) && old(t).parent_of(p.0) == Some(presenter.0),
        match plan {
            VirtPlan::Rebuild { start, end, .. } => start <= end && old(t).slots() + 1 + (end - start) < usize::MAX,
            VirtPlan::Shift { drop_head, drop_tail, head_start, head_end, tail_start, tail_end, .. } => {
                let (dh, dt, head, tail) = shift_plan(old_start as int, old_end as int, new_start as int, new_end as int);
                &&& panel is Some
                &&& shows_items(*old(t), (panel->0).0, old_start as int, old_end as int)
                &&& new_start <= new_end
                &&& old(t).slots() + (new_end - new_start) < usize::MAX
                &&& drop_head == dh && drop_tail == dt
                &&& head_start == head.0 && head_end == head.1
                &&& tail_start == tail.0 && tail_end == tail.1
            },
            _ => true,
        },
    ensures
        final(t).wf(),
        final(t).live(presenter.0),
        match plan {
            VirtPlan::Rebuild { margin, start, end, focus_primary, focus_secondary } => {
                let first = final(t).children(Some((r->0).0))[0];
                &&& r matches Some(p) && final(t).live(p.0) && final(t).parent_of(p.0) == Some(presenter.0)
                &&& shows_items(*final(t), (r->0).0, start as int, end as int)
                &&& final(t).props_of((r->0).0).margin == panel_margin(margin)
                &&& panel matches Some(p) ==> !final(t).live(p.0)
                &&& final(t).next_primary() == (if focus_primary && start < end { Some(Some(first)) } else { old(t).next_primary() })
                &&& final(t).next_secondary() == (if focus_secondary && start < end { Some(Some(first)) } else { old(t).next_secondary() })
                &&& final(t).primary() == old(t).primary() && final(t).secondary() == old(t).secondary()
            },
            VirtPlan::Shift { margin, .. } => {
                &&& r == panel
                &&& final(t).live((r->0).0) && final(t).parent_of((r->0).0) == Some(presenter.0)
                &&& shows_items(*final(t), (r->0).0, new_start as int, new_end as int)
                &&& final(t).props_of((r->0).0).margin == panel_margin(margin)
            },
            _ => r == panel && *final(t) == *old(t),
        },
{
    match plan {
        VirtPlan::Rebuild { margin, start, end, focus_primary, focus_secondary } => {
            let p = rebuild_panel(t, presenter, panel, panel_widget, margin, start, end, item);
            if start < end {
                proof {
                    t.lemma_children(Some(p.0));
                }
                let first = t.first_child(Some(p)).unwrap();
                let ghost t1 = *t;
                if focus_primary {
                    t.set_focused_primary(first, true);
                }
                let ghost t2 = *t;
                proof {
                    if !focus_primary {
                        t1.lemma_same_structure_refl();
                    }
                    t.lemma_same_structure(t1);
                }
                if focus_secondary {
                    t.set_focused_secondary(first, true);
                }
                proof {
                    if !focus_secondary {
                        t2.lemma_same_structure_refl();
                    }
                    t.lemma_same_structure_trans(t2, t1);
                    t.lemma_same_structure(t1);
                    t.lemma_live(p.0);
                    assert(t.children(Some(p.0)) == t1.children(Some(p.0)));
                }
            }
            Some(p)
        },
        VirtPlan::Shift { .. } => {
            let p = panel.unwrap();
            proof {
                t.lemma_live(p.0);
            }
            apply_shift(t, p, old_start, old_end, new_start, new_end, plan, item);
            proof {
                t.lemma_live(p.0);
            }
            panel
        },
        _ => panel,
    }
}

} // verus!
