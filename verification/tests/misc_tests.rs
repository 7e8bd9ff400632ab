use tuifw::xaml::{element_name, property_element};
use tuifw::property::Property;
use tuifw::xaml::{Xaml, XamlStruct, XamlProperty, XamlLiteral, XamlType};
use tuifw::event::{Event, KeyStep, key_dispatch_start, key_dispatch_next};
use tuifw::screen::Key;
use tuifw::tree::{WindowTree, Window};

fn bump(owner: &mut u32, ctx: &mut Vec<String>, old: &i32) {
    *owner += 1;
    ctx.push(format!("old={}", old));
}

fn double(owner: &mut u32, ctx: &mut Vec<String>, _old: &i32) {
    *owner *= 2;
    ctx.push("double".to_string());
}

#[test]
fn property_set_get_raise() {
    let mut p: Property<u32, i32, Vec<String>, fn(&mut u32, &mut Vec<String>, &i32)> = Property::new(5);
    assert_eq!(*p.get(), 5);
    p.on_changed(bump);
    p.on_changed(double);
    let (old, on_changed) = p.set(9);
    assert_eq!(old, 5);
    assert_eq!(*p.get(), 9);
    let mut owner = 1u32;
    let mut ctx = Vec::new();
    on_changed.raise(&mut owner, &mut ctx, &old);
    assert_eq!(owner, 4);
    assert_eq!(ctx, vec!["old=5".to_string(), "double".to_string()]);
}

#[test]
fn property_set_hands_back_a_snapshot() {
    let mut p: Property<u32, i32, Vec<String>, fn(&mut u32, &mut Vec<String>, &i32)> = Property::new(5);
    p.on_changed(bump);
    let (old, on_changed) = p.set(6);
    p.on_changed(double);
    let mut owner = 1u32;
    let mut ctx = Vec::new();
    on_changed.raise(&mut owner, &mut ctx, &old);
    assert_eq!(owner, 2);
    assert_eq!(ctx, vec!["old=5".to_string()]);
}

#[test]
fn property_without_callbacks() {
    let mut p: Property<u32, i32, (), fn(&mut u32, &mut (), &i32)> = Property::new(0);
    let (old, on_changed) = p.set(1);
    let mut owner = 7u32;
    on_changed.raise(&mut owner, &mut (), &old);
    assert_eq!(owner, 7);
}

#[test]
fn xaml_properties_found_up_the_chain() {
    let mut x = Xaml::new();
    let widget = XamlStruct::new(&mut x, None, "tuifw", "Widget");
    let button = XamlStruct::new(&mut x, Some(widget), "tuifw", "Button");
    let name = XamlProperty::new(&mut x, widget, "Name", XamlType::Ref, false, true);
    let children = XamlProperty::new(&mut x, widget, "Children", XamlType::Struct(widget), true, false);
    let text = XamlProperty::new(&mut x, button, "Text", XamlType::Ref, false, false);
    assert_eq!(button.property(&x, "Text"), Some(text));
    assert_eq!(button.property(&x, "Name"), Some(name));
    assert_eq!(button.self_property(&x, "Name"), None);
    assert_eq!(widget.property(&x, "Text"), None);
    assert_eq!(button.content_property(&x), Some(children));
    assert_eq!(button.name_property(&x), Some(name));
    assert_eq!(button.self_content_property(&x), None);
    assert_eq!(button.parent(&x), Some(widget));
    assert_eq!(text.owner(&x), button);
    assert_eq!(text.ty(&x), XamlType::Ref);
    let n: String = button.name(&x).iter().collect();
    assert_eq!(n, "{tuifw}Button");
}

#[test]
fn xaml_type_names() {
    let mut x = Xaml::new();
    let widget = XamlStruct::new(&mut x, None, "tuifw", "Widget");
    let int = XamlLiteral::new(&mut x, "xs", "int");
    assert_eq!(x.ty("{tuifw}Widget"), Some(XamlType::Struct(widget)));
    assert_eq!(x.ty("{xs}int"), Some(XamlType::Literal(int)));
    assert_eq!(x.ty("Widget"), None);
    let again = XamlStruct::new(&mut x, None, "tuifw", "Widget");
    assert_eq!(x.ty("{tuifw}Widget"), Some(XamlType::Struct(again)));
    let n: String = int.name(&x).iter().collect();
    assert_eq!(n, "{xs}int");
}

#[test]
fn event_preview() {
    assert!(!Event::Key(Key::Tab).is_preview());
    assert!(Event::Key(Key::Tab).preview().is_preview());
    assert_eq!(Event::Cmd(3).preview(), Event::PreviewCmd(3));
    assert!(!Event::PostProcessKey(Key::Tab).is_preview());
}

#[test]
fn event_route_goes_up_and_stops_at_primary_focus() {
    let mut t: WindowTree<u32> = WindowTree::new();
    let a = t.new_window(1, None, None);
    let b = t.new_window(2, Some(a), None);
    let c = t.new_window(3, Some(b), None);
    assert_eq!(t.event_route(c, false), vec![c, b, a]);
    t.focus_primary(Some(b));
    assert_eq!(t.event_route(c, true), vec![c]);
    assert_eq!(t.event_route(c, false), vec![c, b, a]);
    assert_eq!(t.event_route(a, true), Vec::<Window>::new());
}

#[test]
fn element_names() {
    assert_eq!(element_name(Some("ns"), "A"), "{ns}A".chars().collect::<Vec<char>>());
    assert_eq!(element_name(None, "A"), vec!['A']);
    let ty: Vec<char> = "Button".chars().collect();
    let p = property_element(&"Button.Text".chars().collect(), &ty);
    assert_eq!(p, Some("Text".chars().collect::<Vec<char>>()));
    assert_eq!(property_element(&"Button.".chars().collect(), &ty), None);
    assert_eq!(property_element(&"ButtonXText".chars().collect(), &ty), None);
    assert_eq!(property_element(&"Label".chars().collect(), &ty), None);
}

#[test]
fn key_offer_order() {
    use_key_steps();
}

fn use_key_steps() {
    let (np, nq) = (2usize, 1usize);
    let mut s = key_dispatch_start(np, nq, true, true);
    assert_eq!(s, KeyStep::PreProcess(0));
    s = key_dispatch_next(s, false, np, nq, true, true);
    assert_eq!(s, KeyStep::PreProcess(1));
    s = key_dispatch_next(s, false, np, nq, true, true);
    assert_eq!(s, KeyStep::Primary);
    s = key_dispatch_next(s, false, np, nq, true, true);
    assert_eq!(s, KeyStep::Secondary);
    assert_eq!(key_dispatch_next(s, true, np, nq, true, true), KeyStep::LostAttention);
    assert_eq!(key_dispatch_next(KeyStep::LostAttention, false, np, nq, true, true), KeyStep::Done);
    s = key_dispatch_next(s, false, np, nq, true, true);
    assert_eq!(s, KeyStep::PostProcess(0));
    assert_eq!(key_dispatch_next(s, false, np, nq, true, true), KeyStep::Done);
    assert_eq!(key_dispatch_start(0, 0, false, true), KeyStep::Secondary);
    assert_eq!(key_dispatch_next(KeyStep::Secondary, true, 0, 0, false, true), KeyStep::Done);
    assert_eq!(key_dispatch_start(0, 0, false, false), KeyStep::Done);
    assert_eq!(key_dispatch_next(KeyStep::PreProcess(0), true, 2, 1, true, true), KeyStep::Done);
}
