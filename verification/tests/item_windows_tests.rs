use tuifw::item_windows::{apply_shift, rebuild_panel, apply_plan};
use tuifw::items::VirtItemsPresenter;
use tuifw::items::VirtPlan;
use tuifw::tree::{WindowTree, Window};

fn shown(t: &WindowTree<u8>, panel: Window) -> Vec<Option<usize>> {
    let mut r = Vec::new();
    if let Some(first) = t.first_child(Some(panel)) {
        let mut w = first;
        loop {
            r.push(t.get_props(w).source_index);
            w = t.next(w);
            if w == first { break; }
        }
    }
    r
}

#[test]
fn rebuild_then_shift_item_windows() {
    let mut t: WindowTree<u8> = WindowTree::new();
    let presenter = t.new_window(0, None, None);
    let panel = rebuild_panel(&mut t, presenter, None, 1, 3, 0, 3, 2);
    assert_eq!(t.first_child(Some(presenter)), Some(panel));
    assert_eq!(shown(&t, panel), vec![Some(0), Some(1), Some(2)]);
    assert_eq!(t.get_props(panel).margin.t, -3);
    let plan = VirtPlan::Shift { margin: 2, drop_head: 1, drop_tail: 0, head_start: 1, head_end: 0, tail_start: 3, tail_end: 4 };
    apply_shift(&mut t, panel, 0, 3, 1, 4, plan, 2);
    assert_eq!(shown(&t, panel), vec![Some(1), Some(2), Some(3)]);
    assert_eq!(t.get_props(panel).margin.t, -2);
    let plan = VirtPlan::Shift { margin: 0, drop_head: 0, drop_tail: 2, head_start: 0, head_end: 1, tail_start: 4, tail_end: 2 };
    apply_shift(&mut t, panel, 1, 4, 0, 2, plan, 2);
    assert_eq!(shown(&t, panel), vec![Some(0), Some(1)]);
    let panel2 = rebuild_panel(&mut t, presenter, Some(panel), 1, 0, 5, 7, 2);
    assert!(!t.is_live(panel));
    assert_eq!(shown(&t, panel2), vec![Some(5), Some(6)]);
}

#[test]
fn presenter_plan_applied_to_the_tree() {
    let mut t: WindowTree<u8> = WindowTree::new();
    let presenter = t.new_window(0, None, None);
    let mut p = VirtItemsPresenter::new();
    p.items_len = 10;
    p.viewport = 3;
    p.templates_changed = true;
    p.focus_first_item_primary = true;
    let (os, oe) = (p.visible_start, p.visible_end);
    let plan = p.plan_update(false, true);
    let panel = apply_plan(&mut t, presenter, None, os, oe, p.visible_start, p.visible_end, plan, 1, 2);
    let panel = panel.unwrap();
    assert_eq!(shown(&t, panel), vec![Some(0), Some(1), Some(2), Some(3)]);
    let first = t.first_child(Some(panel)).unwrap();
    assert_eq!(t.next_primary_focused(), Some(Some(first.0)));
    assert_eq!(t.next_secondary_focused(), None);
    p.offset = 2;
    let (os, oe) = (p.visible_start, p.visible_end);
    let plan = p.plan_update(true, true);
    let panel2 = apply_plan(&mut t, presenter, Some(panel), os, oe, p.visible_start, p.visible_end, plan, 1, 2);
    assert_eq!(panel2, Some(panel));
    assert_eq!(shown(&t, panel), vec![Some(1), Some(2), Some(3), Some(4), Some(5)]);
}
