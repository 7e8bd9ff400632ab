use tuifw::tree::{WindowTree, Window, Visibility};
use tuifw::window::{VisibilityEffect, FocusDir};
use tuifw::palette::PaletteEntry;
use tuifw::screen::{Fg, Bg, Key};
use tuifw::geom::{Point, Vector, Rect, Thickness};

fn children(t: &WindowTree<u32>, p: Option<Window>) -> Vec<Window> {
    let mut r = Vec::new();
    if let Some(first) = t.first_child(p) {
        let mut c = first;
        loop {
            r.push(c);
            c = t.next(c);
            if c == first { break; }
        }
    }
    r
}

#[test]
fn new_windows_link_in_order() {
    let mut t: WindowTree<u32> = WindowTree::new();
    let a = t.new_window(1, None, None);
    let b = t.new_window(2, Some(a), None);
    let c = t.new_window(3, Some(a), Some(b));
    let d = t.new_window(4, Some(a), None);
    assert_eq!(children(&t, None), vec![a]);
    assert_eq!(children(&t, Some(a)), vec![d, b, c]);
    assert_eq!(t.parent(b), Some(a));
    assert_eq!(t.parent(a), None);
    assert_eq!(t.prev(d), c);
    assert_eq!(t.next(c), d);
    assert_eq!(t.first_child(Some(b)), None);
    assert_eq!(*t.widget(c), Some(3));
}

#[test]
fn single_child_ring() {
    let mut t: WindowTree<u32> = WindowTree::new();
    let a = t.new_window(1, None, None);
    assert_eq!(t.next(a), a);
    assert_eq!(t.prev(a), a);
}

#[test]
fn move_z_reorders_siblings() {
    let mut t: WindowTree<u32> = WindowTree::new();
    let a = t.new_window(1, None, None);
    let b = t.new_window(2, Some(a), None);
    let c = t.new_window(3, Some(a), Some(b));
    let d = t.new_window(4, Some(a), Some(c));
    t.move_z(b, Some(d));
    assert_eq!(children(&t, Some(a)), vec![c, d, b]);
    t.move_z(d, None);
    assert_eq!(children(&t, Some(a)), vec![d, c, b]);
    assert_eq!(t.parent(d), Some(a));
}

#[test]
fn drop_window_drops_subtree() {
    let mut t: WindowTree<u32> = WindowTree::new();
    let a = t.new_window(1, None, None);
    let b = t.new_window(2, Some(a), None);
    let c = t.new_window(3, Some(a), Some(b));
    let e = t.new_window(5, Some(b), None);
    let f = t.new_window(6, Some(e), None);
    t.drop_window(b);
    assert!(!t.is_live(b));
    assert!(!t.is_live(e));
    assert!(!t.is_live(f));
    assert!(t.is_live(a));
    assert!(t.is_live(c));
    assert_eq!(children(&t, Some(a)), vec![c]);
    let g = t.new_window(7, Some(a), None);
    assert_ne!(g, b);
    assert_eq!(children(&t, Some(a)), vec![g, c]);
}

#[test]
fn drop_top_level_window() {
    let mut t: WindowTree<u32> = WindowTree::new();
    let a = t.new_window(1, None, None);
    let b = t.new_window(2, None, Some(a));
    t.drop_window(a);
    assert_eq!(children(&t, None), vec![b]);
    t.drop_window(b);
    assert_eq!(children(&t, None), vec![]);
}

#[test]
fn invalidate_measure_climbs_while_cached() {
    let mut t: WindowTree<u32> = WindowTree::new();
    let a = t.new_window(1, None, None);
    let b = t.new_window(2, Some(a), None);
    let c = t.new_window(3, Some(b), None);
    for w in [a, b, c] {
        let mut p = t.get_props(w);
        p.measure_size = Some((Some(5), None));
        t.set_props(w, p);
    }
    let mut p = t.get_props(b);
    p.measure_size = None;
    t.set_props(b, p);
    t.invalidate_measure(c);
    assert_eq!(t.get_props(c).measure_size, None);
    assert_eq!(t.get_props(b).measure_size, None);
    assert_eq!(t.get_props(a).measure_size, Some((Some(5), None)));
}

#[test]
fn measure_clamps_and_caches() {
    let mut t: WindowTree<u32> = WindowTree::new();
    let a = t.new_window(1, None, None);
    let mut p = t.get_props(a);
    p.margin = Thickness::new(1, 1, 1, 1);
    p.max_width = 10;
    t.set_props(a, p);
    let req = t.measure_begin(a, Some(20), None);
    assert_eq!(req, Some((Some(10), None)));
    t.measure_end(a, Vector { x: 4, y: 3 });
    assert_eq!(t.get_props(a).desired_size, Vector { x: 6, y: 5 });
    assert_eq!(t.measure_begin(a, Some(20), None), None);
    assert_eq!(t.measure_begin(a, Some(8), None), Some((Some(6), None)));
}

#[test]
fn measure_collapsed_is_null() {
    let mut t: WindowTree<u32> = WindowTree::new();
    let a = t.new_window(1, None, None);
    let mut p = t.get_props(a);
    p.desired_size = Vector { x: 3, y: 3 };
    p.visibility = Visibility::Collapsed;
    t.set_props(a, p);
    assert_eq!(t.measure_begin(a, Some(20), Some(20)), None);
    assert_eq!(t.get_props(a).desired_size, Vector { x: 0, y: 0 });
}

#[test]
fn arrange_places_with_alignment() {
    let mut t: WindowTree<u32> = WindowTree::new();
    let a = t.new_window(1, None, None);
    let mut p = t.get_props(a);
    p.desired_size = Vector { x: 4, y: 2 };
    p.h_align = Some(tuifw::geom::HAlign::Center);
    t.set_props(a, p);
    let fb = Rect { tl: Point { x: 0, y: 0 }, size: Vector { x: 10, y: 6 } };
    let req = t.arrange_begin(a, fb);
    assert_eq!(req, Some(Rect { tl: Point { x: 0, y: 0 }, size: Vector { x: 4, y: 6 } }));
    let old = t.arrange_end(a, fb, Some(Vector { x: 4, y: 6 }));
    assert_eq!(old, Rect { tl: Point { x: 0, y: 0 }, size: Vector { x: 0, y: 0 } });
    let got = t.get_props(a);
    assert_eq!(got.render_bounds, fb);
    assert_eq!(got.window_bounds, Rect { tl: Point { x: 3, y: 0 }, size: Vector { x: 4, y: 6 } });
}

#[test]
fn focus_links_are_symmetric() {
    let mut t: WindowTree<u32> = WindowTree::new();
    let a = t.new_window(1, None, None);
    let b = t.new_window(2, None, Some(a));
    t.set_focus_right(a, b);
    assert_eq!(t.get_props(a).focus_right, b.0);
    assert_eq!(t.get_props(b).focus_left, a.0);
    t.set_focus_link(a, b, FocusDir::Down);
    assert_eq!(t.get_props(a).focus_down, b.0);
    assert_eq!(t.get_props(b).focus_up, a.0);
}

#[test]
fn focus_requests() {
    let mut t: WindowTree<u32> = WindowTree::new();
    let a = t.new_window(1, None, None);
    t.set_focused_primary(a, true);
    assert_eq!(t.next_primary_focused(), Some(Some(a.0)));
    t.set_focused_primary(a, false);
    assert_eq!(t.next_primary_focused(), Some(None));
    assert!(!t.is_focused(a));
}

#[test]
fn focus_primary_marks_ancestors() {
    let mut t: WindowTree<u32> = WindowTree::new();
    let a = t.new_window(1, None, None);
    let b = t.new_window(2, Some(a), None);
    let c = t.new_window(3, Some(a), Some(b));
    assert!(t.focus_primary(Some(b)));
    assert!(t.get_props(a).contains_primary_focus);
    assert!(t.get_props(b).contains_primary_focus);
    assert!(!t.get_props(c).contains_primary_focus);
    assert!(t.is_focused(b));
    assert!(!t.focus_primary(Some(b)));
    assert!(t.focus_primary(Some(c)));
    assert!(!t.get_props(b).contains_primary_focus);
    assert!(t.get_props(c).contains_primary_focus);
    assert!(t.get_props(a).contains_primary_focus);
    assert!(t.focus_primary(None));
    assert!(!t.get_props(a).contains_primary_focus);
}

#[test]
fn focus_secondary_needs_focusable() {
    let mut t: WindowTree<u32> = WindowTree::new();
    let a = t.new_window(1, None, None);
    assert!(!t.focus_secondary(Some(a), false));
    assert!(t.focus_secondary(Some(a), true));
    assert_eq!(t.secondary_focused(), Some(a));
}

#[test]
fn navigation_targets_follow_links() {
    let mut t: WindowTree<u32> = WindowTree::new();
    let a = t.new_window(1, None, None);
    let b = t.new_window(2, None, Some(a));
    t.set_focus_tab(a, b);
    t.set_focus_right(a, b);
    t.focus_primary(Some(a));
    assert_eq!(t.nav_targets(Key::Tab), (Some(b), None));
    assert_eq!(t.nav_targets(Key::Right), (Some(b), None));
    assert_eq!(t.nav_targets(Key::Left), (Some(a), None));
    assert_eq!(t.nav_targets(Key::Enter), (None, None));
}

#[test]
fn color_lookup_goes_up() {
    let mut t: WindowTree<u32> = WindowTree::new();
    let a = t.new_window(1, None, None);
    let b = t.new_window(2, Some(a), None);
    t.set_palette_entry(b, 0, PaletteEntry::Index(5));
    t.set_palette_entry(a, 5, PaletteEntry::Index(11));
    assert_eq!(t.color(b, 0), (Fg::LightGray, Bg::Transparent));
    t.set_palette_entry(a, 5, PaletteEntry::Color(Fg::Yellow, Bg::Cyan));
    assert_eq!(t.color(b, 0), (Fg::Yellow, Bg::Cyan));
    assert_eq!(t.color(b, 3), (Fg::Red, Bg::Green));
}

#[test]
fn actual_is_enabled_needs_all_ancestors() {
    let mut t: WindowTree<u32> = WindowTree::new();
    let a = t.new_window(1, None, None);
    let b = t.new_window(2, Some(a), None);
    assert!(t.actual_is_enabled(b));
    t.set_is_enabled(a, false);
    assert!(!t.actual_is_enabled(b));
    assert!(t.get_props(b).is_enabled);
}

#[test]
fn visibility_effects() {
    let mut t: WindowTree<u32> = WindowTree::new();
    let a = t.new_window(1, None, None);
    let b = t.new_window(2, Some(a), None);
    let mut p = t.get_props(a);
    p.measure_size = Some((None, None));
    t.set_props(a, p);
    assert_eq!(t.set_visibility(b, Visibility::Hidden), VisibilityEffect::Render);
    assert_eq!(t.get_props(a).measure_size, Some((None, None)));
    assert_eq!(t.set_visibility(b, Visibility::Collapsed), VisibilityEffect::ParentMeasure);
    assert_eq!(t.get_props(a).measure_size, None);
    assert_eq!(t.set_visibility(b, Visibility::Collapsed), VisibilityEffect::Nothing);
}

#[test]
fn offset_from_root_sums_positions() {
    let mut t: WindowTree<u32> = WindowTree::new();
    let a = t.new_window(1, None, None);
    let b = t.new_window(2, Some(a), None);
    let mut p = t.get_props(a);
    p.window_bounds = Rect { tl: Point { x: 2, y: 3 }, size: Vector { x: 10, y: 10 } };
    t.set_props(a, p);
    let mut p = t.get_props(b);
    p.window_bounds = Rect { tl: Point { x: 1, y: 1 }, size: Vector { x: 3, y: 3 } };
    t.set_props(b, p);
    assert_eq!(t.offset_from_root(Some(b)), Vector { x: 3, y: 4 });
    assert_eq!(t.offset_from_root(None), Vector { x: 0, y: 0 });
}

#[test]
fn navigation_moves_focus_and_consumes_key() {
    let mut t: WindowTree<u32> = WindowTree::new();
    let a = t.new_window(1, None, None);
    let b = t.new_window(2, None, Some(a));
    t.set_focus_tab(a, b);
    t.set_focus_right(a, b);
    t.focus_primary(Some(a));
    assert!(t.navigate(Key::Tab, false));
    assert_eq!(t.primary_focused(), Some(b));
    assert!(!t.navigate(Key::Enter, true));
    assert_eq!(t.primary_focused(), Some(b));
    assert!(t.navigate(Key::Left, false));
    assert_eq!(t.primary_focused(), Some(a));
    assert!(!t.navigate(Key::Left, false));
    assert_eq!(t.primary_focused(), Some(a));
}

#[test]
fn navigation_falls_back_to_secondary_focus() {
    let mut t: WindowTree<u32> = WindowTree::new();
    let a = t.new_window(1, None, None);
    let b = t.new_window(2, None, Some(a));
    t.set_focus_down(a, b);
    assert!(t.focus_secondary(Some(a), true));
    assert!(!t.navigate(Key::Down, false));
    assert_eq!(t.secondary_focused(), Some(a));
    assert!(t.navigate(Key::Down, true));
    assert_eq!(t.secondary_focused(), Some(b));
    assert_eq!(t.primary_focused(), None);
}

#[test]
fn pending_focus_is_applied_once() {
    let mut t: WindowTree<u32> = WindowTree::new();
    let a = t.new_window(1, None, None);
    t.set_focused_primary(a, true);
    assert_eq!(t.primary_focused(), None);
    assert_eq!(t.apply_pending_focus(true), (true, false));
    assert_eq!(t.primary_focused(), Some(a));
    assert_eq!(t.next_primary_focused(), None);
    assert_eq!(t.apply_pending_focus(true), (false, false));
    t.set_focused_secondary(a, true);
    assert_eq!(t.apply_pending_focus(false), (false, false));
    assert_eq!(t.secondary_focused(), None);
    assert_eq!(t.next_secondary_focused(), None);
    t.set_focused_secondary(a, true);
    assert_eq!(t.apply_pending_focus(true), (false, true));
    assert_eq!(t.secondary_focused(), Some(a));
}
