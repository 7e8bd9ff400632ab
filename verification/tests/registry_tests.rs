use tuifw::registry::{reg_widgets, XMLNS};
use tuifw::xaml::{Xaml, XamlType};

fn full(name: &str) -> String {
    format!("{{{}}}{}", XMLNS, name)
}

#[test]
fn built_in_types_are_found_by_name() {
    let mut x = Xaml::new();
    let r = reg_widgets(&mut x);
    assert_eq!(x.ty(&full("Bool")), Some(XamlType::Literal(r.boolean)));
    assert_eq!(x.ty(&full("Color")), Some(XamlType::Literal(r.color)));
    assert_eq!(x.ty(&full("Widget")), Some(XamlType::Struct(r.widget)));
    assert_eq!(x.ty(&full("VirtItemsPresenter")), Some(XamlType::Struct(r.virt_items_presenter)));
    assert_eq!(x.ty(&full("IntValidator")), Some(XamlType::Struct(r.int_validator)));
    assert_eq!(x.ty("Widget"), None);
}

#[test]
fn built_in_structs_inherit_widget_properties() {
    let mut x = Xaml::new();
    let r = reg_widgets(&mut x);
    assert_eq!(r.button.parent(&x), Some(r.widget));
    assert_eq!(r.int_validator.parent(&x), Some(r.validator));
    assert_eq!(r.widget.parent(&x), None);
    assert_eq!(r.button.property(&x, "Text"), Some(r.button_text));
    assert_eq!(r.button.property(&x, "Name"), Some(r.widget_name));
    assert_eq!(r.button.property(&x, "Dock"), Some(r.widget_dock));
    assert_eq!(r.label.property(&x, "Focus"), Some(r.label_focus));
    assert_eq!(r.widget.property(&x, "Text"), None);
    assert_eq!(r.button.content_property(&x), Some(r.widget_children));
    assert_eq!(r.button.name_property(&x), Some(r.widget_name));
    assert_eq!(r.content_presenter.content_property(&x), Some(r.content_presenter_content_template));
    assert_eq!(r.items_presenter.content_property(&x), Some(r.items_presenter_item_template));
}

#[test]
fn built_in_properties_have_their_types() {
    let mut x = Xaml::new();
    let r = reg_widgets(&mut x);
    assert_eq!(r.widget_width.ty(&x), XamlType::Literal(r.int_16));
    assert_eq!(r.widget_focus_tab.ty(&x), XamlType::Ref);
    assert_eq!(r.widget_children.ty(&x), XamlType::Struct(r.widget));
    assert_eq!(r.input_line_validator.ty(&x), XamlType::Struct(r.validator));
    assert_eq!(r.widget_stretch.owner(&x), r.widget);
    assert_eq!(r.text_edit_line_break.name(&x).iter().collect::<String>(), "LineBreak");
}
