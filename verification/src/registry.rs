//! The built-in types of the markup: the literal types, the validators,
//! the widgets and their properties, registered in one fixed order.

use vstd::prelude::*;
use crate::xaml::{Xaml, XamlStruct, XamlLiteral, XamlProperty, XamlType, qualified};

verus! {

/// The namespace of the built-in types.
pub const XMLNS: &'static str = "https://a1-triard.github.io/tuifw/2023/xaml";

/// The handles of the built-in types and of their properties.
pub struct Registered {
    pub boolean: XamlLiteral,
    pub string: XamlLiteral,
    pub int_16: XamlLiteral,
    pub uint_16: XamlLiteral,
    pub int_32: XamlLiteral,
    pub float_32: XamlLiteral,
    pub float_64: XamlLiteral,
    pub thickness: XamlLiteral,
    pub point: XamlLiteral,
    pub h_align: XamlLiteral,
    pub v_align: XamlLiteral,
    pub dock: XamlLiteral,
    pub focus: XamlLiteral,
    pub visibility: XamlLiteral,
    pub color: XamlLiteral,
    pub validator: XamlStruct,
    pub int_validator: XamlStruct,
    pub int_validator_min: XamlProperty,
    pub int_validator_max: XamlProperty,
    pub float_validator: XamlStruct,
    pub float_validator_min: XamlProperty,
    pub float_validator_max: XamlProperty,
    pub widget: XamlStruct,
    pub widget_children: XamlProperty,
    pub widget_name: XamlProperty,
    pub widget_focus_tab: XamlProperty,
    pub widget_focus_right: XamlProperty,
    pub widget_focus_left: XamlProperty,
    pub widget_focus_up: XamlProperty,
    pub widget_focus_down: XamlProperty,
    pub widget_focus_click: XamlProperty,
    pub widget_focused_primary: XamlProperty,
    pub widget_focused_secondary: XamlProperty,
    pub widget_h_align: XamlProperty,
    pub widget_v_align: XamlProperty,
    pub widget_width: XamlProperty,
    pub widget_height: XamlProperty,
    pub widget_margin: XamlProperty,
    pub widget_min_width: XamlProperty,
    pub widget_max_width: XamlProperty,
    pub widget_min_height: XamlProperty,
    pub widget_max_height: XamlProperty,
    pub widget_is_enabled: XamlProperty,
    pub widget_visibility: XamlProperty,
    pub widget_color_0: XamlProperty,
    pub widget_color_1: XamlProperty,
    pub widget_color_2: XamlProperty,
    pub widget_color_3: XamlProperty,
    pub widget_color_4: XamlProperty,
    pub widget_color_5: XamlProperty,
    pub widget_color_6: XamlProperty,
    pub widget_color_7: XamlProperty,
    pub widget_color_8: XamlProperty,
    pub widget_color_9: XamlProperty,
    pub widget_color_disabled: XamlProperty,
    pub widget_color_hotkey: XamlProperty,
    pub widget_color_background: XamlProperty,
    pub widget_color_label: XamlProperty,
    pub widget_color_input_line: XamlProperty,
    pub widget_color_input_line_invalid: XamlProperty,
    pub widget_color_input_line_focused: XamlProperty,
    pub widget_color_input_line_focused_invalid: XamlProperty,
    pub widget_color_input_line_focused_disabled: XamlProperty,
    pub widget_color_button: XamlProperty,
    pub widget_color_button_focused: XamlProperty,
    pub widget_color_button_focused_hotkey: XamlProperty,
    pub widget_color_button_focused_disabled: XamlProperty,
    pub widget_color_button_pressed: XamlProperty,
    pub widget_color_frame: XamlProperty,
    pub background: XamlStruct,
    pub background_show_pattern: XamlProperty,
    pub background_pattern_even: XamlProperty,
    pub background_pattern_odd: XamlProperty,
    pub stack_panel: XamlStruct,
    pub stack_panel_vertical: XamlProperty,
    pub stretch_panel: XamlStruct,
    pub stretch_panel_vertical: XamlProperty,
    pub widget_stretch: XamlProperty,
    pub dock_panel: XamlStruct,
    pub widget_dock: XamlProperty,
    pub canvas: XamlStruct,
    pub widget_tl: XamlProperty,
    pub static_text: XamlStruct,
    pub static_text_text: XamlProperty,
    pub button: XamlStruct,
    pub button_text: XamlProperty,
    pub input_line: XamlStruct,
    pub input_line_text: XamlProperty,
    pub input_line_validator: XamlProperty,
    pub text_edit: XamlStruct,
    pub text_edit_text: XamlProperty,
    pub text_edit_line_break: XamlProperty,
    pub frame: XamlStruct,
    pub frame_double: XamlProperty,
    pub frame_text: XamlProperty,
    pub frame_text_align: XamlProperty,
    pub scroll_viewer: XamlStruct,
    pub scroll_viewer_text: XamlProperty,
    pub scroll_viewer_text_align: XamlProperty,
    pub scroll_viewer_h_scroll: XamlProperty,
    pub scroll_viewer_v_scroll: XamlProperty,
    pub label: XamlStruct,
    pub label_text: XamlProperty,
    pub label_focus: XamlProperty,
    pub check_box: XamlStruct,
    pub check_box_text: XamlProperty,
    pub check_box_is_on: XamlProperty,
    pub radio_button: XamlStruct,
    pub radio_button_text: XamlProperty,
    pub radio_button_is_on: XamlProperty,
    pub content_presenter: XamlStruct,
    pub content_presenter_content_template: XamlProperty,
    pub items_presenter: XamlStruct,
    pub items_presenter_panel_template: XamlProperty,
    pub items_presenter_item_template: XamlProperty,
    pub items_presenter_tab_navigation: XamlProperty,
    pub items_presenter_up_down_navigation: XamlProperty,
    pub virt_items_presenter: XamlStruct,
    pub virt_items_presenter_item_template: XamlProperty,
    pub virt_items_presenter_tab_navigation: XamlProperty,
    pub virt_items_presenter_up_down_navigation: XamlProperty,
}

fn reg_literal(xaml: &mut Xaml, name: &str) -> (r: XamlLiteral)
    requires
        old(xaml).wf(),
    ensures
        final(xaml).wf(),
        r.0 == old(xaml).literal_names().len(),
        final(xaml).literal_names() == old(xaml).literal_names().push(qualified(XMLNS@, name@)),
        final(xaml).struct_entries() == old(xaml).struct_entries(),
        final(xaml).property_entries() == old(xaml).property_entries(),
{
    proof {
        old(xaml).lemma_entries();
    }
    XamlLiteral::new(xaml, XMLNS, name)
}

fn reg_struct(xaml: &mut Xaml, parent: Option<XamlStruct>, name: &str) -> (r: XamlStruct)
    requires
        old(xaml).wf(),
        parent matches Some(p) ==> p.0 < old(xaml).struct_entries().len(),
    ensures
        final(xaml).wf(),
        r.0 == old(xaml).struct_entries().len(),
        final(xaml).struct_entries() == old(xaml).struct_entries().push((
            match parent { None => None::<usize>, Some(p) => Some(p.0) }, qualified(XMLNS@, name@), None::<usize>, None::<usize>)),
        final(xaml).literal_names() == old(xaml).literal_names(),
        final(xaml).property_entries() == old(xaml).property_entries(),
{
    proof {
        old(xaml).lemma_entries();
    }
    XamlStruct::new(xaml, parent, XMLNS, name)
}

fn reg_property(xaml: &mut Xaml, owner: XamlStruct, name: &str, ty: XamlType, is_content: bool, is_name: bool) -> (r: XamlProperty)
    requires
        old(xaml).wf(),
        owner.0 < old(xaml).struct_entries().len(),
        is_content ==> old(xaml).struct_entries()[owner.0 as int].2 is None,
        is_name ==> old(xaml).struct_entries()[owner.0 as int].3 is None,
    ensures
        final(xaml).wf(),
        r.0 == old(xaml).property_entries().len(),
        final(xaml).property_entries() == old(xaml).property_entries().push((owner.0, name@, ty)),
        final(xaml).struct_entries() == ({
            let e = old(xaml).struct_entries()[owner.0 as int];
            if is_content || is_name {
                old(xaml).struct_entries().update(owner.0 as int,
                    (e.0, e.1, if is_content { Some(r.0) } else { e.2 }, if is_name { Some(r.0) } else { e.3 }))
            } else {
                old(xaml).struct_entries()
            }
        }),
        final(xaml).literal_names() == old(xaml).literal_names(),
{
    proof {
        old(xaml).lemma_entries();
    }
    let r = XamlProperty::new(xaml, owner, name, ty, is_content, is_name);
    proof {
        if !is_content && !is_name {
            let e = old(xaml).struct_entries()[owner.0 as int];
            assert(old(xaml).struct_entries().update(owner.0 as int, e) =~= old(xaml).struct_entries());
        }
    }
    r
}

/// The full names of the built-in literal types, in the order they are registered.
pub open spec fn widget_literal_names() -> Seq<Seq<char>> {
    seq![
        qualified(XMLNS@, "Bool"@),
        qualified(XMLNS@, "String"@),
        qualified(XMLNS@, "I16"@),
        qualified(XMLNS@, "U16"@),
        qualified(XMLNS@, "I32"@),
        qualified(XMLNS@, "F32"@),
        qualified(XMLNS@, "F64"@),
        qualified(XMLNS@, "Thickness"@),
        qualified(XMLNS@, "Point"@),
        qualified(XMLNS@, "HAlign"@),
        qualified(XMLNS@, "VAlign"@),
        qualified(XMLNS@, "Dock"@),
        qualified(XMLNS@, "Focus"@),
        qualified(XMLNS@, "Visibility"@),
        qualified(XMLNS@, "Color"@),
    ]
}

/// The built-in structs, in the order they are registered after `sb` structs
/// and `pb` properties: parent, full name, content and name property.
pub open spec fn widget_structs(sb: int, pb: int) -> Seq<(Option<usize>, Seq<char>, Option<usize>, Option<usize>)> {
    seq![
        (None::<usize>, qualified(XMLNS@, "Validator"@), None::<usize>, None::<usize>),
        (Some((sb + 0) as usize), qualified(XMLNS@, "IntValidator"@), None::<usize>, None::<usize>),
        (Some((sb + 0) as usize), qualified(XMLNS@, "FloatValidator"@), None::<usize>, None::<usize>),
        (None::<usize>, qualified(XMLNS@, "Widget"@), Some((pb + 4) as usize), Some((pb + 5) as usize)),
        (Some((sb + 3) as usize), qualified(XMLNS@, "Background"@), None::<usize>, None::<usize>),
        (Some((sb + 3) as usize), qualified(XMLNS@, "StackPanel"@), None::<usize>, None::<usize>),
        (Some((sb + 3) as usize), qualified(XMLNS@, "StretchPanel"@), None::<usize>, None::<usize>),
        (Some((sb + 3) as usize), qualified(XMLNS@, "DockPanel"@), None::<usize>, None::<usize>),
        (Some((sb + 3) as usize), qualified(XMLNS@, "Canvas"@), None::<usize>, None::<usize>),
        (Some((sb + 3) as usize), qualified(XMLNS@, "StaticText"@), None::<usize>, None::<usize>),
        (Some((sb + 3) as usize), qualified(XMLNS@, "Button"@), None::<usize>, None::<usize>),
        (Some((sb + 3) as usize), qualified(XMLNS@, "InputLine"@), None::<usize>, None::<usize>),
        (Some((sb + 3) as usize), qualified(XMLNS@, "TextEdit"@), None::<usize>, None::<usize>),
        (Some((sb + 3) as usize), qualified(XMLNS@, "Frame"@), None::<usize>, None::<usize>),
        (Some((sb + 3) as usize), qualified(XMLNS@, "ScrollViewer"@), None::<usize>, None::<usize>),
        (Some((sb + 3) as usize), qualified(XMLNS@, "Label"@), None::<usize>, None::<usize>),
        (Some((sb + 3) as usize), qualified(XMLNS@, "CheckBox"@), None::<usize>, None::<usize>),
        (Some((sb + 3) as usize), qualified(XMLNS@, "RadioButton"@), None::<usize>, None::<usize>),
        (Some((sb + 3) as usize), qualified(XMLNS@, "ContentPresenter"@), Some((pb + 77) as usize), None::<usize>),
        (Some((sb + 3) as usize), qualified(XMLNS@, "ItemsPresenter"@), Some((pb + 79) as usize), None::<usize>),
        (Some((sb + 3) as usize), qualified(XMLNS@, "VirtItemsPresenter"@), Some((pb + 82) as usize), None::<usize>),
    ]
}

/// The built-in properties, in the order they are registered after `sb`
/// structs and `lb` literals: owner, name and type.
pub open spec fn widget_properties(sb: int, lb: int) -> Seq<(usize, Seq<char>, XamlType)> {
    seq![
        ((sb + 1) as usize, "Min"@, XamlType::Literal(XamlLiteral((lb + 4) as usize))),
        ((sb + 1) as usize, "Max"@, XamlType::Literal(XamlLiteral((lb + 4) as usize))),
        ((sb + 2) as usize, "Min"@, XamlType::Literal(XamlLiteral((lb + 6) as usize))),
        ((sb + 2) as usize, "Max"@, XamlType::Literal(XamlLiteral((lb + 6) as usize))),
        ((sb + 3) as usize, "Children"@, XamlType::Struct(XamlStruct((sb + 3) as usize))),
        ((sb + 3) as usize, "Name"@, XamlType::Literal(XamlLiteral((lb + 1) as usize))),
        ((sb + 3) as usize, "FocusTab"@, XamlType::Ref),
        ((sb + 3) as usize, "FocusRight"@, XamlType::Ref),
        ((sb + 3) as usize, "FocusLeft"@, XamlType::Ref),
        ((sb + 3) as usize, "FocusUp"@, XamlType::Ref),
        ((sb + 3) as usize, "FocusDown"@, XamlType::Ref),
        ((sb + 3) as usize, "FocusClick"@, XamlType::Literal(XamlLiteral((lb + 12) as usize))),
        ((sb + 3) as usize, "FocusedPrimary"@, XamlType::Literal(XamlLiteral((lb + 0) as usize))),
        ((sb + 3) as usize, "FocusedSecondary"@, XamlType::Literal(XamlLiteral((lb + 0) as usize))),
        ((sb + 3) as usize, "HAlign"@, XamlType::Literal(XamlLiteral((lb + 9) as usize))),
        ((sb + 3) as usize, "VAlign"@, XamlType::Literal(XamlLiteral((lb + 10) as usize))),
        ((sb + 3) as usize, "Width"@, XamlType::Literal(XamlLiteral((lb + 2) as usize))),
        ((sb + 3) as usize, "Height"@, XamlType::Literal(XamlLiteral((lb + 2) as usize))),
        ((sb + 3) as usize, "Margin"@, XamlType::Literal(XamlLiteral((lb + 7) as usize))),
        ((sb + 3) as usize, "MinWidth"@, XamlType::Literal(XamlLiteral((lb + 2) as usize))),
        ((sb + 3) as usize, "MaxWidth"@, XamlType::Literal(XamlLiteral((lb + 2) as usize))),
        ((sb + 3) as usize, "MinHeight"@, XamlType::Literal(XamlLiteral((lb + 2) as usize))),
        ((sb + 3) as usize, "MaxHeight"@, XamlType::Literal(XamlLiteral((lb + 2) as usize))),
        ((sb + 3) as usize, "IsEnabled"@, XamlType::Literal(XamlLiteral((lb + 0) as usize))),
        ((sb + 3) as usize, "Visibility"@, XamlType::Literal(XamlLiteral((lb + 13) as usize))),
        ((sb + 3) as usize, "Color0"@, XamlType::Literal(XamlLiteral((lb + 14) as usize))),
        ((sb + 3) as usize, "Color1"@, XamlType::Literal(XamlLiteral((lb + 14) as usize))),
        ((sb + 3) as usize, "Color2"@, XamlType::Literal(XamlLiteral((lb + 14) as usize))),
        ((sb + 3) as usize, "Color3"@, XamlType::Literal(XamlLiteral((lb + 14) as usize))),
        ((sb + 3) as usize, "Color4"@, XamlType::Literal(XamlLiteral((lb + 14) as usize))),
        ((sb + 3) as usize, "Color5"@, XamlType::Literal(XamlLiteral((lb + 14) as usize))),
        ((sb + 3) as usize, "Color6"@, XamlType::Literal(XamlLiteral((lb + 14) as usize))),
        ((sb + 3) as usize, "Color7"@, XamlType::Literal(XamlLiteral((lb + 14) as usize))),
        ((sb + 3) as usize, "Color8"@, XamlType::Literal(XamlLiteral((lb + 14) as usize))),
        ((sb + 3) as usize, "Color9"@, XamlType::Literal(XamlLiteral((lb + 14) as usize))),
        ((sb + 3) as usize, "ColorDisabled"@, XamlType::Literal(XamlLiteral((lb + 14) as usize))),
        ((sb + 3) as usize, "ColorHotkey"@, XamlType::Literal(XamlLiteral((lb + 14) as usize))),
        ((sb + 3) as usize, "ColorBackground"@, XamlType::Literal(XamlLiteral((lb + 14) as usize))),
        ((sb + 3) as usize, "ColorLabel"@, XamlType::Literal(XamlLiteral((lb + 14) as usize))),
        ((sb + 3) as usize, "ColorInputLine"@, XamlType::Literal(XamlLiteral((lb + 14) as usize))),
        ((sb + 3) as usize, "ColorInputLineInvalid"@, XamlType::Literal(XamlLiteral((lb + 14) as usize))),
        ((sb + 3) as usize, "ColorInputLineFocused"@, XamlType::Literal(XamlLiteral((lb + 14) as usize))),
        ((sb + 3) as usize, "ColorInputLineFocusedInvalid"@, XamlType::Literal(XamlLiteral((lb + 14) as usize))),
        ((sb + 3) as usize, "ColorInputLineFocusedDisabled"@, XamlType::Literal(XamlLiteral((lb + 14) as usize))),
        ((sb + 3) as usize, "ColorButton"@, XamlType::Literal(XamlLiteral((lb + 14) as usize))),
        ((sb + 3) as usize, "ColorButtonFocused"@, XamlType::Literal(XamlLiteral((lb + 14) as usize))),
        ((sb + 3) as usize, "ColorButtonFocusedHotkey"@, XamlType::Literal(XamlLiteral((lb + 14) as usize))),
        ((sb + 3) as usize, "ColorButtonFocusedDisabled"@, XamlType::Literal(XamlLiteral((lb + 14) as usize))),
        ((sb + 3) as usize, "ColorButtonPressed"@, XamlType::Literal(XamlLiteral((lb + 14) as usize))),
        ((sb + 3) as usize, "ColorFrame"@, XamlType::Literal(XamlLiteral((lb + 14) as usize))),
        ((sb + 4) as usize, "ShowPattern"@, XamlType::Literal(XamlLiteral((lb + 0) as usize))),
        ((sb + 4) as usize, "PatternEven"@, XamlType::Literal(XamlLiteral((lb + 1) as usize))),
        ((sb + 4) as usize, "PatternOdd"@, XamlType::Literal(XamlLiteral((lb + 1) as usize))),
        ((sb + 5) as usize, "Vertical"@, XamlType::Literal(XamlLiteral((lb + 0) as usize))),
        ((sb + 6) as usize, "Vertical"@, XamlType::Literal(XamlLiteral((lb + 0) as usize))),
        ((sb + 3) as usize, "Stretch"@, XamlType::Literal(XamlLiteral((lb + 5) as usize))),
        ((sb + 3) as usize, "Dock"@, XamlType::Literal(XamlLiteral((lb + 11) as usize))),
        ((sb + 3) as usize, "Tl"@, XamlType::Literal(XamlLiteral((lb + 8) as usize))),
        ((sb + 9) as usize, "Text"@, XamlType::Literal(XamlLiteral((lb + 1) as usize))),
        ((sb + 10) as usize, "Text"@, XamlType::Literal(XamlLiteral((lb + 1) as usize))),
        ((sb + 11) as usize, "Text"@, XamlType::Literal(XamlLiteral((lb + 1) as usize))),
        ((sb + 11) as usize, "Validator"@, XamlType::Struct(XamlStruct((sb + 0) as usize))),
        ((sb + 12) as usize, "Text"@, XamlType::Literal(XamlLiteral((lb + 1) as usize))),
        ((sb + 12) as usize, "LineBreak"@, XamlType::Literal(XamlLiteral((lb + 1) as usize))),
        ((sb + 13) as usize, "Double"@, XamlType::Literal(XamlLiteral((lb + 0) as usize))),
        ((sb + 13) as usize, "Text"@, XamlType::Literal(XamlLiteral((lb + 1) as usize))),
        ((sb + 13) as usize, "TextAlign"@, XamlType::Literal(XamlLiteral((lb + 9) as usize))),
        ((sb + 14) as usize, "Text"@, XamlType::Literal(XamlLiteral((lb + 1) as usize))),
        ((sb + 14) as usize, "TextAlign"@, XamlType::Literal(XamlLiteral((lb + 9) as usize))),
        ((sb + 14) as usize, "HScroll"@, XamlType::Literal(XamlLiteral((lb + 0) as usize))),
        ((sb + 14) as usize, "VScroll"@, XamlType::Literal(XamlLiteral((lb + 0) as usize))),
        ((sb + 15) as usize, "Text"@, XamlType::Literal(XamlLiteral((lb + 1) as usize))),
        ((sb + 15) as usize, "Focus"@, XamlType::Ref),
        ((sb + 16) as usize, "Text"@, XamlType::Literal(XamlLiteral((lb + 1) as usize))),
        ((sb + 16) as usize, "IsOn"@, XamlType::Literal(XamlLiteral((lb + 0) as usize))),
        ((sb + 17) as usize, "Text"@, XamlType::Literal(XamlLiteral((lb + 1) as usize))),
        ((sb + 17) as usize, "IsOn"@, XamlType::Literal(XamlLiteral((lb + 0) as usize))),
        ((sb + 18) as usize, "ContentTemplate"@, XamlType::Struct(XamlStruct((sb + 3) as usize))),
        ((sb + 19) as usize, "PanelTemplate"@, XamlType::Struct(XamlStruct((sb + 3) as usize))),
        ((sb + 19) as usize, "ItemTemplate"@, XamlType::Struct(XamlStruct((sb + 3) as usize))),
        ((sb + 19) as usize, "TabNavigation"@, XamlType::Literal(XamlLiteral((lb + 0) as usize))),
        ((sb + 19) as usize, "UpDownNavigation"@, XamlType::Literal(XamlLiteral((lb + 0) as usize))),
        ((sb + 20) as usize, "ItemTemplate"@, XamlType::Struct(XamlStruct((sb + 3) as usize))),
        ((sb + 20) as usize, "TabNavigation"@, XamlType::Literal(XamlLiteral((lb + 0) as usize))),
        ((sb + 20) as usize, "UpDownNavigation"@, XamlType::Literal(XamlLiteral((lb + 0) as usize))),
    ]
}

/// The handles of `r` are those of the built-in types registered after `sb`
/// structs, `pb` properties and `lb` literals.
pub open spec fn registered_at(r: Registered, sb: int, pb: int, lb: int) -> bool {
    &&& r.boolean == XamlLiteral((lb + 0) as usize)
    &&& r.string == XamlLiteral((lb + 1) as usize)
    &&& r.int_16 == XamlLiteral((lb + 2) as usize)
    &&& r.uint_16 == XamlLiteral((lb + 3) as usize)
    &&& r.int_32 == XamlLiteral((lb + 4) as usize)
    &&& r.float_32 == XamlLiteral((lb + 5) as usize)
    &&& r.float_64 == XamlLiteral((lb + 6) as usize)
    &&& r.thickness == XamlLiteral((lb + 7) as usize)
    &&& r.point == XamlLiteral((lb + 8) as usize)
    &&& r.h_align == XamlLiteral((lb + 9) as usize)
    &&& r.v_align == XamlLiteral((lb + 10) as usize)
    &&& r.dock == XamlLiteral((lb + 11) as usize)
    &&& r.focus == XamlLiteral((lb + 12) as usize)
    &&& r.visibility == XamlLiteral((lb + 13) as usize)
    &&& r.color == XamlLiteral((lb + 14) as usize)
    &&& r.validator == XamlStruct((sb + 0) as usize)
    &&& r.int_validator == XamlStruct((sb + 1) as usize)
    &&& r.int_validator_min == XamlProperty((pb + 0) as usize)
    &&& r.int_validator_max == XamlProperty((pb + 1) as usize)
    &&& r.float_validator == XamlStruct((sb + 2) as usize)
    &&& r.float_validator_min == XamlProperty((pb + 2) as usize)
    &&& r.float_validator_max == XamlProperty((pb + 3) as usize)
    &&& r.widget == XamlStruct((sb + 3) as usize)
    &&& r.widget_children == XamlProperty((pb + 4) as usize)
    &&& r.widget_name == XamlProperty((pb + 5) as usize)
    &&& r.widget_focus_tab == XamlProperty((pb + 6) as usize)
    &&& r.widget_focus_right == XamlProperty((pb + 7) as usize)
    &&& r.widget_focus_left == XamlProperty((pb + 8) as usize)
    &&& r.widget_focus_up == XamlProperty((pb + 9) as usize)
    &&& r.widget_focus_down == XamlProperty((pb + 10) as usize)
    &&& r.widget_focus_click == XamlProperty((pb + 11) as usize)
    &&& r.widget_focused_primary == XamlProperty((pb + 12) as usize)
    &&& r.widget_focused_secondary == XamlProperty((pb + 13) as usize)
    &&& r.widget_h_align == XamlProperty((pb + 14) as usize)
    &&& r.widget_v_align == XamlProperty((pb + 15) as usize)
    &&& r.widget_width == XamlProperty((pb + 16) as usize)
    &&& r.widget_height == XamlProperty((pb + 17) as usize)
    &&& r.widget_margin == XamlProperty((pb + 18) as usize)
    &&& r.widget_min_width == XamlProperty((pb + 19) as usize)
    &&& r.widget_max_width == XamlProperty((pb + 20) as usize)
    &&& r.widget_min_height == XamlProperty((pb + 21) as usize)
    &&& r.widget_max_height == XamlProperty((pb + 22) as usize)
    &&& r.widget_is_enabled == XamlProperty((pb + 23) as usize)
    &&& r.widget_visibility == XamlProperty((pb + 24) as usize)
    &&& r.widget_color_0 == XamlProperty((pb + 25) as usize)
    &&& r.widget_color_1 == XamlProperty((pb + 26) as usize)
    &&& r.widget_color_2 == XamlProperty((pb + 27) as usize)
    &&& r.widget_color_3 == XamlProperty((pb + 28) as usize)
    &&& r.widget_color_4 == XamlProperty((pb + 29) as usize)
    &&& r.widget_color_5 == XamlProperty((pb + 30) as usize)
    &&& r.widget_color_6 == XamlProperty((pb + 31) as usize)
    &&& r.widget_color_7 == XamlProperty((pb + 32) as usize)
    &&& r.widget_color_8 == XamlProperty((pb + 33) as usize)
    &&& r.widget_color_9 == XamlProperty((pb + 34) as usize)
    &&& r.widget_color_disabled == XamlProperty((pb + 35) as usize)
    &&& r.widget_color_hotkey == XamlProperty((pb + 36) as usize)
    &&& r.widget_color_background == XamlProperty((pb + 37) as usize)
    &&& r.widget_color_label == XamlProperty((pb + 38) as usize)
    &&& r.widget_color_input_line == XamlProperty((pb + 39) as usize)
    &&& r.widget_color_input_line_invalid == XamlProperty((pb + 40) as usize)
    &&& r.widget_color_input_line_focused == XamlProperty((pb + 41) as usize)
    &&& r.widget_color_input_line_focused_invalid == XamlProperty((pb + 42) as usize)
    &&& r.widget_color_input_line_focused_disabled == XamlProperty((pb + 43) as usize)
    &&& r.widget_color_button == XamlProperty((pb + 44) as usize)
    &&& r.widget_color_button_focused == XamlProperty((pb + 45) as usize)
    &&& r.widget_color_button_focused_hotkey == XamlProperty((pb + 46) as usize)
    &&& r.widget_color_button_focused_disabled == XamlProperty((pb + 47) as usize)
    &&& r.widget_color_button_pressed == XamlProperty((pb + 48) as usize)
    &&& r.widget_color_frame == XamlProperty((pb + 49) as usize)
    &&& r.background == XamlStruct((sb + 4) as usize)
    &&& r.background_show_pattern == XamlProperty((pb + 50) as usize)
    &&& r.background_pattern_even == XamlProperty((pb + 51) as usize)
    &&& r.background_pattern_odd == XamlProperty((pb + 52) as usize)
    &&& r.stack_panel == XamlStruct((sb + 5) as usize)
    &&& r.stack_panel_vertical == XamlProperty((pb + 53) as usize)
    &&& r.stretch_panel == XamlStruct((sb + 6) as usize)
    &&& r.stretch_panel_vertical == XamlProperty((pb + 54) as usize)
    &&& r.widget_stretch == XamlProperty((pb + 55) as usize)
    &&& r.dock_panel == XamlStruct((sb + 7) as usize)
    &&& r.widget_dock == XamlProperty((pb + 56) as usize)
    &&& r.canvas == XamlStruct((sb + 8) as usize)
    &&& r.widget_tl == XamlProperty((pb + 57) as usize)
    &&& r.static_text == XamlStruct((sb + 9) as usize)
    &&& r.static_text_text == XamlProperty((pb + 58) as usize)
    &&& r.button == XamlStruct((sb + 10) as usize)
    &&& r.button_text == XamlProperty((pb + 59) as usize)
    &&& r.input_line == XamlStruct((sb + 11) as usize)
    &&& r.input_line_text == XamlProperty((pb + 60) as usize)
    &&& r.input_line_validator == XamlProperty((pb + 61) as usize)
    &&& r.text_edit == XamlStruct((sb + 12) as usize)
    &&& r.text_edit_text == XamlProperty((pb + 62) as usize)
    &&& r.text_edit_line_break == XamlProperty((pb + 63) as usize)
    &&& r.frame == XamlStruct((sb + 13) as usize)
    &&& r.frame_double == XamlProperty((pb + 64) as usize)
    &&& r.frame_text == XamlProperty((pb + 65) as usize)
    &&& r.frame_text_align == XamlProperty((pb + 66) as usize)
    &&& r.scroll_viewer == XamlStruct((sb + 14) as usize)
    &&& r.scroll_viewer_text == XamlProperty((pb + 67) as usize)
    &&& r.scroll_viewer_text_align == XamlProperty((pb + 68) as usize)
    &&& r.scroll_viewer_h_scroll == XamlProperty((pb + 69) as usize)
    &&& r.scroll_viewer_v_scroll == XamlProperty((pb + 70) as usize)
    &&& r.label == XamlStruct((sb + 15) as usize)
    &&& r.label_text == XamlProperty((pb + 71) as usize)
    &&& r.label_focus == XamlProperty((pb + 72) as usize)
    &&& r.check_box == XamlStruct((sb + 16) as usize)
    &&& r.check_box_text == XamlProperty((pb + 73) as usize)
    &&& r.check_box_is_on == XamlProperty((pb + 74) as usize)
    &&& r.radio_button == XamlStruct((sb + 17) as usize)
    &&& r.radio_button_text == XamlProperty((pb + 75) as usize)
    &&& r.radio_button_is_on == XamlProperty((pb + 76) as usize)
    &&& r.content_presenter == XamlStruct((sb + 18) as usize)
    &&& r.content_presenter_content_template == XamlProperty((pb + 77) as usize)
    &&& r.items_presenter == XamlStruct((sb + 19) as usize)
    &&& r.items_presenter_panel_template == XamlProperty((pb + 78) as usize)
    &&& r.items_presenter_item_template == XamlProperty((pb + 79) as usize)
    &&& r.items_presenter_tab_navigation == XamlProperty((pb + 80) as usize)
    &&& r.items_presenter_up_down_navigation == XamlProperty((pb + 81) as usize)
    &&& r.virt_items_presenter == XamlStruct((sb + 20) as usize)
    &&& r.virt_items_presenter_item_template == XamlProperty((pb + 82) as usize)
    &&& r.virt_items_presenter_tab_navigation == XamlProperty((pb + 83) as usize)
    &&& r.virt_items_presenter_up_down_navigation == XamlProperty((pb + 84) as usize)
}

fn reg_part_1(xaml: &mut Xaml, r: &mut Registered)
    requires
        old(xaml).wf(),
    ensures
        final(xaml).wf(),
        final(xaml).literal_names() == old(xaml).literal_names() + seq![
            qualified(XMLNS@, "Bool"@),
            qualified(XMLNS@, "String"@),
            qualified(XMLNS@, "I16"@),
            qualified(XMLNS@, "U16"@),
            qualified(XMLNS@, "I32"@),
            qualified(XMLNS@, "F32"@),
            qualified(XMLNS@, "F64"@),
            qualified(XMLNS@, "Thickness"@),
            qualified(XMLNS@, "Point"@),
            qualified(XMLNS@, "HAlign"@),
            qualified(XMLNS@, "VAlign"@),
            qualified(XMLNS@, "Dock"@),
            qualified(XMLNS@, "Focus"@),
            qualified(XMLNS@, "Visibility"@),
            qualified(XMLNS@, "Color"@),
        ],
        final(xaml).struct_entries() == old(xaml).struct_entries() + seq![
            (None::<usize>, qualified(XMLNS@, "Validator"@), None::<usize>, None::<usize>),
            (Some((old(xaml).struct_entries().len() + 0) as usize), qualified(XMLNS@, "IntValidator"@), None::<usize>, None::<usize>),
            (Some((old(xaml).struct_entries().len() + 0) as usize), qualified(XMLNS@, "FloatValidator"@), None::<usize>, None::<usize>),
        ],
        final(xaml).property_entries() == old(xaml).property_entries() + seq![
            ((old(xaml).struct_entries().len() + 1) as usize, "Min"@, XamlType::Literal(XamlLiteral((old(xaml).literal_names().len() + 4) as usize))),
            ((old(xaml).struct_entries().len() + 1) as usize, "Max"@, XamlType::Literal(XamlLiteral((old(xaml).literal_names().len() + 4) as usize))),
            ((old(xaml).struct_entries().len() + 2) as usize, "Min"@, XamlType::Literal(XamlLiteral((old(xaml).literal_names().len() + 6) as usize))),
            ((old(xaml).struct_entries().len() + 2) as usize, "Max"@, XamlType::Literal(XamlLiteral((old(xaml).literal_names().len() + 6) as usize))),
        ],
        *final(r) == (Registered {
            boolean: XamlLiteral((old(xaml).literal_names().len() + 0) as usize),
            string: XamlLiteral((old(xaml).literal_names().len() + 1) as usize),
            int_16: XamlLiteral((old(xaml).literal_names().len() + 2) as usize),
            uint_16: XamlLiteral((old(xaml).literal_names().len() + 3) as usize),
            int_32: XamlLiteral((old(xaml).literal_names().len() + 4) as usize),
            float_32: XamlLiteral((old(xaml).literal_names().len() + 5) as usize),
            float_64: XamlLiteral((old(xaml).literal_names().len() + 6) as usize),
            thickness: XamlLiteral((old(xaml).literal_names().len() + 7) as usize),
            point: XamlLiteral((old(xaml).literal_names().len() + 8) as usize),
            h_align: XamlLiteral((old(xaml).literal_names().len() + 9) as usize),
            v_align: XamlLiteral((old(xaml).literal_names().len() + 10) as usize),
            dock: XamlLiteral((old(xaml).literal_names().len() + 11) as usize),
            focus: XamlLiteral((old(xaml).literal_names().len() + 12) as usize),
            visibility: XamlLiteral((old(xaml).literal_names().len() + 13) as usize),
            color: XamlLiteral((old(xaml).literal_names().len() + 14) as usize),
            validator: XamlStruct((old(xaml).struct_entries().len() + 0) as usize),
            int_validator: XamlStruct((old(xaml).struct_entries().len() + 1) as usize),
            int_validator_min: XamlProperty((old(xaml).property_entries().len() + 0) as usize),
            int_validator_max: XamlProperty((old(xaml).property_entries().len() + 1) as usize),
            float_validator: XamlStruct((old(xaml).struct_entries().len() + 2) as usize),
            float_validator_min: XamlProperty((old(xaml).property_entries().len() + 2) as usize),
            float_validator_max: XamlProperty((old(xaml).property_entries().len() + 3) as usize),
            ..*old(r)
        }),
{
    let ghost x0 = *xaml;
    proof {
        x0.lemma_entries();
    }
    let boolean = reg_literal(xaml, "Bool");
    let string = reg_literal(xaml, "String");
    let int_16 = reg_literal(xaml, "I16");
    let uint_16 = reg_literal(xaml, "U16");
    let int_32 = reg_literal(xaml, "I32");
    let float_32 = reg_literal(xaml, "F32");
    let float_64 = reg_literal(xaml, "F64");
    let thickness = reg_literal(xaml, "Thickness");
    let point = reg_literal(xaml, "Point");
    let h_align = reg_literal(xaml, "HAlign");
    let v_align = reg_literal(xaml, "VAlign");
    let dock = reg_literal(xaml, "Dock");
    let focus = reg_literal(xaml, "Focus");
    let visibility = reg_literal(xaml, "Visibility");
    let color = reg_literal(xaml, "Color");
    let validator = reg_struct(xaml, None, "Validator");
    let int_validator = reg_struct(xaml, Some(validator), "IntValidator");
    let int_validator_min = reg_property(xaml, int_validator, "Min", XamlType::Literal(int_32), false, false);
    let int_validator_max = reg_property(xaml, int_validator, "Max", XamlType::Literal(int_32), false, false);
    let float_validator = reg_struct(xaml, Some(validator), "FloatValidator");
    let float_validator_min = reg_property(xaml, float_validator, "Min", XamlType::Literal(float_64), false, false);
    let float_validator_max = reg_property(xaml, float_validator, "Max", XamlType::Literal(float_64), false, false);
    r.boolean = boolean;
    r.string = string;
    r.int_16 = int_16;
    r.uint_16 = uint_16;
    r.int_32 = int_32;
    r.float_32 = float_32;
    r.float_64 = float_64;
    r.thickness = thickness;
    r.point = point;
    r.h_align = h_align;
    r.v_align = v_align;
    r.dock = dock;
    r.focus = focus;
    r.visibility = visibility;
    r.color = color;
    r.validator = validator;
    r.int_validator = int_validator;
    r.int_validator_min = int_validator_min;
    r.int_validator_max = int_validator_max;
    r.float_validator = float_validator;
    r.float_validator_min = float_validator_min;
    r.float_validator_max = float_validator_max;
    proof {
        assert(xaml.literal_names() =~= x0.literal_names() + seq![
            qualified(XMLNS@, "Bool"@),
            qualified(XMLNS@, "String"@),
            qualified(XMLNS@, "I16"@),
            qualified(XMLNS@, "U16"@),
            qualified(XMLNS@, "I32"@),
            qualified(XMLNS@, "F32"@),
            qualified(XMLNS@, "F64"@),
            qualified(XMLNS@, "Thickness"@),
            qualified(XMLNS@, "Point"@),
            qualified(XMLNS@, "HAlign"@),
            qualified(XMLNS@, "VAlign"@),
            qualified(XMLNS@, "Dock"@),
            qualified(XMLNS@, "Focus"@),
            qualified(XMLNS@, "Visibility"@),
            qualified(XMLNS@, "Color"@),
        ]);
        assert(xaml.struct_entries() =~= x0.struct_entries() + seq![
            (None::<usize>, qualified(XMLNS@, "Validator"@), None::<usize>, None::<usize>),
            (Some((old(xaml).struct_entries().len() + 0) as usize), qualified(XMLNS@, "IntValidator"@), None::<usize>, None::<usize>),
            (Some((old(xaml).struct_entries().len() + 0) as usize), qualified(XMLNS@, "FloatValidator"@), None::<usize>, None::<usize>),
        ]);
        assert(xaml.property_entries() =~= x0.property_entries() + seq![
            ((old(xaml).struct_entries().len() + 1) as usize, "Min"@, XamlType::Literal(XamlLiteral((old(xaml).literal_names().len() + 4) as usize))),
            ((old(xaml).struct_entries().len() + 1) as usize, "Max"@, XamlType::Literal(XamlLiteral((old(xaml).literal_names().len() + 4) as usize))),
            ((old(xaml).struct_entries().len() + 2) as usize, "Min"@, XamlType::Literal(XamlLiteral((old(xaml).literal_names().len() + 6) as usize))),
            ((old(xaml).struct_entries().len() + 2) as usize, "Max"@, XamlType::Literal(XamlLiteral((old(xaml).literal_names().len() + 6) as usize))),
        ]);
    }
}

fn reg_part_2(xaml: &mut Xaml, r: &mut Registered)
    requires
        old(xaml).wf(),
    ensures
        final(xaml).wf(),
        final(xaml).literal_names() == old(xaml).literal_names(),
        final(xaml).struct_entries() == old(xaml).struct_entries() + seq![
            (None::<usize>, qualified(XMLNS@, "Widget"@), Some((old(xaml).property_entries().len() + 0) as usize), Some((old(xaml).property_entries().len() + 1) as usize)),
        ],
        final(xaml).property_entries() == old(xaml).property_entries() + seq![
            ((old(xaml).struct_entries().len() + 0) as usize, "Children"@, XamlType::Struct(XamlStruct((old(xaml).struct_entries().len() + 0) as usize))),
            ((old(xaml).struct_entries().len() + 0) as usize, "Name"@, XamlType::Literal(old(r).string)),
            ((old(xaml).struct_entries().len() + 0) as usize, "FocusTab"@, XamlType::Ref),
            ((old(xaml).struct_entries().len() + 0) as usize, "FocusRight"@, XamlType::Ref),
            ((old(xaml).struct_entries().len() + 0) as usize, "FocusLeft"@, XamlType::Ref),
            ((old(xaml).struct_entries().len() + 0) as usize, "FocusUp"@, XamlType::Ref),
            ((old(xaml).struct_entries().len() + 0) as usize, "FocusDown"@, XamlType::Ref),
            ((old(xaml).struct_entries().len() + 0) as usize, "FocusClick"@, XamlType::Literal(old(r).focus)),
            ((old(xaml).struct_entries().len() + 0) as usize, "FocusedPrimary"@, XamlType::Literal(old(r).boolean)),
            ((old(xaml).struct_entries().len() + 0) as usize, "FocusedSecondary"@, XamlType::Literal(old(r).boolean)),
            ((old(xaml).struct_entries().len() + 0) as usize, "HAlign"@, XamlType::Literal(old(r).h_align)),
            ((old(xaml).struct_entries().len() + 0) as usize, "VAlign"@, XamlType::Literal(old(r).v_align)),
            ((old(xaml).struct_entries().len() + 0) as usize, "Width"@, XamlType::Literal(old(r).int_16)),
            ((old(xaml).struct_entries().len() + 0) as usize, "Height"@, XamlType::Literal(old(r).int_16)),
            ((old(xaml).struct_entries().len() + 0) as usize, "Margin"@, XamlType::Literal(old(r).thickness)),
            ((old(xaml).struct_entries().len() + 0) as usize, "MinWidth"@, XamlType::Literal(old(r).int_16)),
            ((old(xaml).struct_entries().len() + 0) as usize, "MaxWidth"@, XamlType::Literal(old(r).int_16)),
            ((old(xaml).struct_entries().len() + 0) as usize, "MinHeight"@, XamlType::Literal(old(r).int_16)),
            ((old(xaml).struct_entries().len() + 0) as usize, "MaxHeight"@, XamlType::Literal(old(r).int_16)),
            ((old(xaml).struct_entries().len() + 0) as usize, "IsEnabled"@, XamlType::Literal(old(r).boolean)),
            ((old(xaml).struct_entries().len() + 0) as usize, "Visibility"@, XamlType::Literal(old(r).visibility)),
            ((old(xaml).struct_entries().len() + 0) as usize, "Color0"@, XamlType::Literal(old(r).color)),
        ],
        *final(r) == (Registered {
            widget: XamlStruct((old(xaml).struct_entries().len() + 0) as usize),
            widget_children: XamlProperty((old(xaml).property_entries().len() + 0) as usize),
            widget_name: XamlProperty((old(xaml).property_entries().len() + 1) as usize),
            widget_focus_tab: XamlProperty((old(xaml).property_entries().len() + 2) as usize),
            widget_focus_right: XamlProperty((old(xaml).property_entries().len() + 3) as usize),
            widget_focus_left: XamlProperty((old(xaml).property_entries().len() + 4) as usize),
            widget_focus_up: XamlProperty((old(xaml).property_entries().len() + 5) as usize),
            widget_focus_down: XamlProperty((old(xaml).property_entries().len() + 6) as usize),
            widget_focus_click: XamlProperty((old(xaml).property_entries().len() + 7) as usize),
            widget_focused_primary: XamlProperty((old(xaml).property_entries().len() + 8) as usize),
            widget_focused_secondary: XamlProperty((old(xaml).property_entries().len() + 9) as usize),
            widget_h_align: XamlProperty((old(xaml).property_entries().len() + 10) as usize),
            widget_v_align: XamlProperty((old(xaml).property_entries().len() + 11) as usize),
            widget_width: XamlProperty((old(xaml).property_entries().len() + 12) as usize),
            widget_height: XamlProperty((old(xaml).property_entries().len() + 13) as usize),
            widget_margin: XamlProperty((old(xaml).property_entries().len() + 14) as usize),
            widget_min_width: XamlProperty((old(xaml).property_entries().len() + 15) as usize),
            widget_max_width: XamlProperty((old(xaml).property_entries().len() + 16) as usize),
            widget_min_height: XamlProperty((old(xaml).property_entries().len() + 17) as usize),
            widget_max_height: XamlProperty((old(xaml).property_entries().len() + 18) as usize),
            widget_is_enabled: XamlProperty((old(xaml).property_entries().len() + 19) as usize),
            widget_visibility: XamlProperty((old(xaml).property_entries().len() + 20) as usize),
            widget_color_0: XamlProperty((old(xaml).property_entries().len() + 21) as usize),
            ..*old(r)
        }),
{
    let ghost x0 = *xaml;
    proof {
        x0.lemma_entries();
    }
    let widget = reg_struct(xaml, None, "Widget");
    let widget_children = reg_property(xaml, widget, "Children", XamlType::Struct(widget), true, false);
    let widget_name = reg_property(xaml, widget, "Name", XamlType::Literal(r.string), false, true);
    let widget_focus_tab = reg_property(xaml, widget, "FocusTab", XamlType::Ref, false, false);
    let widget_focus_right = reg_property(xaml, widget, "FocusRight", XamlType::Ref, false, false);
    let widget_focus_left = reg_property(xaml, widget, "FocusLeft", XamlType::Ref, false, false);
    let widget_focus_up = reg_property(xaml, widget, "FocusUp", XamlType::Ref, false, false);
    let widget_focus_down = reg_property(xaml, widget, "FocusDown", XamlType::Ref, false, false);
    let widget_focus_click = reg_property(xaml, widget, "FocusClick", XamlType::Literal(r.focus), false, false);
    let widget_focused_primary = reg_property(xaml, widget, "FocusedPrimary", XamlType::Literal(r.boolean), false, false);
    let widget_focused_secondary = reg_property(xaml, widget, "FocusedSecondary", XamlType::Literal(r.boolean), false, false);
    let widget_h_align = reg_property(xaml, widget, "HAlign", XamlType::Literal(r.h_align), false, false);
    let widget_v_align = reg_property(xaml, widget, "VAlign", XamlType::Literal(r.v_align), false, false);
    let widget_width = reg_property(xaml, widget, "Width", XamlType::Literal(r.int_16), false, false);
    let widget_height = reg_property(xaml, widget, "Height", XamlType::Literal(r.int_16), false, false);
    let widget_margin = reg_property(xaml, widget, "Margin", XamlType::Literal(r.thickness), false, false);
    let widget_min_width = reg_property(xaml, widget, "MinWidth", XamlType::Literal(r.int_16), false, false);
    let widget_max_width = reg_property(xaml, widget, "MaxWidth", XamlType::Literal(r.int_16), false, false);
    let widget_min_height = reg_property(xaml, widget, "MinHeight", XamlType::Literal(r.int_16), false, false);
    let widget_max_height = reg_property(xaml, widget, "MaxHeight", XamlType::Literal(r.int_16), false, false);
    let widget_is_enabled = reg_property(xaml, widget, "IsEnabled", XamlType::Literal(r.boolean), false, false);
    let widget_visibility = reg_property(xaml, widget, "Visibility", XamlType::Literal(r.visibility), false, false);
    let widget_color_0 = reg_property(xaml, widget, "Color0", XamlType::Literal(r.color), false, false);
    r.widget = widget;
    r.widget_children = widget_children;
    r.widget_name = widget_name;
    r.widget_focus_tab = widget_focus_tab;
    r.widget_focus_right = widget_focus_right;
    r.widget_focus_left = widget_focus_left;
    r.widget_focus_up = widget_focus_up;
    r.widget_focus_down = widget_focus_down;
    r.widget_focus_click = widget_focus_click;
    r.widget_focused_primary = widget_focused_primary;
    r.widget_focused_secondary = widget_focused_secondary;
    r.widget_h_align = widget_h_align;
    r.widget_v_align = widget_v_align;
    r.widget_width = widget_width;
    r.widget_height = widget_height;
    r.widget_margin = widget_margin;
    r.widget_min_width = widget_min_width;
    r.widget_max_width = widget_max_width;
    r.widget_min_height = widget_min_height;
    r.widget_max_height = widget_max_height;
    r.widget_is_enabled = widget_is_enabled;
    r.widget_visibility = widget_visibility;
    r.widget_color_0 = widget_color_0;
    proof {
        assert(xaml.literal_names() =~= x0.literal_names());
        assert(xaml.struct_entries() =~= x0.struct_entries() + seq![
            (None::<usize>, qualified(XMLNS@, "Widget"@), Some((old(xaml).property_entries().len() + 0) as usize), Some((old(xaml).property_entries().len() + 1) as usize)),
        ]);
        assert(xaml.property_entries() =~= x0.property_entries() + seq![
            ((old(xaml).struct_entries().len() + 0) as usize, "Children"@, XamlType::Struct(XamlStruct((old(xaml).struct_entries().len() + 0) as usize))),
            ((old(xaml).struct_entries().len() + 0) as usize, "Name"@, XamlType::Literal(old(r).string)),
            ((old(xaml).struct_entries().len() + 0) as usize, "FocusTab"@, XamlType::Ref),
            ((old(xaml).struct_entries().len() + 0) as usize, "FocusRight"@, XamlType::Ref),
            ((old(xaml).struct_entries().len() + 0) as usize, "FocusLeft"@, XamlType::Ref),
            ((old(xaml).struct_entries().len() + 0) as usize, "FocusUp"@, XamlType::Ref),
            ((old(xaml).struct_entries().len() + 0) as usize, "FocusDown"@, XamlType::Ref),
            ((old(xaml).struct_entries().len() + 0) as usize, "FocusClick"@, XamlType::Literal(old(r).focus)),
            ((old(xaml).struct_entries().len() + 0) as usize, "FocusedPrimary"@, XamlType::Literal(old(r).boolean)),
            ((old(xaml).struct_entries().len() + 0) as usize, "FocusedSecondary"@, XamlType::Literal(old(r).boolean)),
            ((old(xaml).struct_entries().len() + 0) as usize, "HAlign"@, XamlType::Literal(old(r).h_align)),
            ((old(xaml).struct_entries().len() + 0) as usize, "VAlign"@, XamlType::Literal(old(r).v_align)),
            ((old(xaml).struct_entries().len() + 0) as usize, "Width"@, XamlType::Literal(old(r).int_16)),
            ((old(xaml).struct_entries().len() + 0) as usize, "Height"@, XamlType::Literal(old(r).int_16)),
            ((old(xaml).struct_entries().len() + 0) as usize, "Margin"@, XamlType::Literal(old(r).thickness)),
            ((old(xaml).struct_entries().len() + 0) as usize, "MinWidth"@, XamlType::Literal(old(r).int_16)),
            ((old(xaml).struct_entries().len() + 0) as usize, "MaxWidth"@, XamlType::Literal(old(r).int_16)),
            ((old(xaml).struct_entries().len() + 0) as usize, "MinHeight"@, XamlType::Literal(old(r).int_16)),
            ((old(xaml).struct_entries().len() + 0) as usize, "MaxHeight"@, XamlType::Literal(old(r).int_16)),
            ((old(xaml).struct_entries().len() + 0) as usize, "IsEnabled"@, XamlType::Literal(old(r).boolean)),
            ((old(xaml).struct_entries().len() + 0) as usize, "Visibility"@, XamlType::Literal(old(r).visibility)),
            ((old(xaml).struct_entries().len() + 0) as usize, "Color0"@, XamlType::Literal(old(r).color)),
        ]);
    }
}

fn reg_part_3(xaml: &mut Xaml, r: &mut Registered)
    requires
        old(xaml).wf(),
        old(r).widget.0 < old(xaml).struct_entries().len(),
    ensures
        final(xaml).wf(),
        final(xaml).literal_names() == old(xaml).literal_names(),
        final(xaml).struct_entries() == old(xaml).struct_entries(),
        final(xaml).property_entries() == old(xaml).property_entries() + seq![
            (old(r).widget.0, "Color1"@, XamlType::Literal(old(r).color)),
            (old(r).widget.0, "Color2"@, XamlType::Literal(old(r).color)),
            (old(r).widget.0, "Color3"@, XamlType::Literal(old(r).color)),
            (old(r).widget.0, "Color4"@, XamlType::Literal(old(r).color)),
            (old(r).widget.0, "Color5"@, XamlType::Literal(old(r).color)),
            (old(r).widget.0, "Color6"@, XamlType::Literal(old(r).color)),
            (old(r).widget.0, "Color7"@, XamlType::Literal(old(r).color)),
            (old(r).widget.0, "Color8"@, XamlType::Literal(old(r).color)),
            (old(r).widget.0, "Color9"@, XamlType::Literal(old(r).color)),
            (old(r).widget.0, "ColorDisabled"@, XamlType::Literal(old(r).color)),
            (old(r).widget.0, "ColorHotkey"@, XamlType::Literal(old(r).color)),
            (old(r).widget.0, "ColorBackground"@, XamlType::Literal(old(r).color)),
            (old(r).widget.0, "ColorLabel"@, XamlType::Literal(old(r).color)),
            (old(r).widget.0, "ColorInputLine"@, XamlType::Literal(old(r).color)),
            (old(r).widget.0, "ColorInputLineInvalid"@, XamlType::Literal(old(r).color)),
            (old(r).widget.0, "ColorInputLineFocused"@, XamlType::Literal(old(r).color)),
            (old(r).widget.0, "ColorInputLineFocusedInvalid"@, XamlType::Literal(old(r).color)),
            (old(r).widget.0, "ColorInputLineFocusedDisabled"@, XamlType::Literal(old(r).color)),
            (old(r).widget.0, "ColorButton"@, XamlType::Literal(old(r).color)),
            (old(r).widget.0, "ColorButtonFocused"@, XamlType::Literal(old(r).color)),
            (old(r).widget.0, "ColorButtonFocusedHotkey"@, XamlType::Literal(old(r).color)),
            (old(r).widget.0, "ColorButtonFocusedDisabled"@, XamlType::Literal(old(r).color)),
            (old(r).widget.0, "ColorButtonPressed"@, XamlType::Literal(old(r).color)),
            (old(r).widget.0, "ColorFrame"@, XamlType::Literal(old(r).color)),
        ],
        *final(r) == (Registered {
            widget_color_1: XamlProperty((old(xaml).property_entries().len() + 0) as usize),
            widget_color_2: XamlProperty((old(xaml).property_entries().len() + 1) as usize),
            widget_color_3: XamlProperty((old(xaml).property_entries().len() + 2) as usize),
            widget_color_4: XamlProperty((old(xaml).property_entries().len() + 3) as usize),
            widget_color_5: XamlProperty((old(xaml).property_entries().len() + 4) as usize),
            widget_color_6: XamlProperty((old(xaml).property_entries().len() + 5) as usize),
            widget_color_7: XamlProperty((old(xaml).property_entries().len() + 6) as usize),
            widget_color_8: XamlProperty((old(xaml).property_entries().len() + 7) as usize),
            widget_color_9: XamlProperty((old(xaml).property_entries().len() + 8) as usize),
            widget_color_disabled: XamlProperty((old(xaml).property_entries().len() + 9) as usize),
            widget_color_hotkey: XamlProperty((old(xaml).property_entries().len() + 10) as usize),
            widget_color_background: XamlProperty((old(xaml).property_entries().len() + 11) as usize),
            widget_color_label: XamlProperty((old(xaml).property_entries().len() + 12) as usize),
            widget_color_input_line: XamlProperty((old(xaml).property_entries().len() + 13) as usize),
            widget_color_input_line_invalid: XamlProperty((old(xaml).property_entries().len() + 14) as usize),
            widget_color_input_line_focused: XamlProperty((old(xaml).property_entries().len() + 15) as usize),
            widget_color_input_line_focused_invalid: XamlProperty((old(xaml).property_entries().len() + 16) as usize),
            widget_color_input_line_focused_disabled: XamlProperty((old(xaml).property_entries().len() + 17) as usize),
            widget_color_button: XamlProperty((old(xaml).property_entries().len() + 18) as usize),
            widget_color_button_focused: XamlProperty((old(xaml).property_entries().len() + 19) as usize),
            widget_color_button_focused_hotkey: XamlProperty((old(xaml).property_entries().len() + 20) as usize),
            widget_color_button_focused_disabled: XamlProperty((old(xaml).property_entries().len() + 21) as usize),
            widget_color_button_pressed: XamlProperty((old(xaml).property_entries().len() + 22) as usize),
            widget_color_frame: XamlProperty((old(xaml).property_entries().len() + 23) as usize),
            ..*old(r)
        }),
{
    let ghost x0 = *xaml;
    proof {
        x0.lemma_entries();
    }
    let widget_color_1 = reg_property(xaml, r.widget, "Color1", XamlType::Literal(r.color), false, false);
    let widget_color_2 = reg_property(xaml, r.widget, "Color2", XamlType::Literal(r.color), false, false);
    let widget_color_3 = reg_property(xaml, r.widget, "Color3", XamlType::Literal(r.color), false, false);
    let widget_color_4 = reg_property(xaml, r.widget, "Color4", XamlType::Literal(r.color), false, false);
    let widget_color_5 = reg_property(xaml, r.widget, "Color5", XamlType::Literal(r.color), false, false);
    let widget_color_6 = reg_property(xaml, r.widget, "Color6", XamlType::Literal(r.color), false, false);
    let widget_color_7 = reg_property(xaml, r.widget, "Color7", XamlType::Literal(r.color), false, false);
    let widget_color_8 = reg_property(xaml, r.widget, "Color8", XamlType::Literal(r.color), false, false);
    let widget_color_9 = reg_property(xaml, r.widget, "Color9", XamlType::Literal(r.color), false, false);
    let widget_color_disabled = reg_property(xaml, r.widget, "ColorDisabled", XamlType::Literal(r.color), false, false);
    let widget_color_hotkey = reg_property(xaml, r.widget, "ColorHotkey", XamlType::Literal(r.color), false, false);
    let widget_color_background = reg_property(xaml, r.widget, "ColorBackground", XamlType::Literal(r.color), false, false);
    let widget_color_label = reg_property(xaml, r.widget, "ColorLabel", XamlType::Literal(r.color), false, false);
    let widget_color_input_line = reg_property(xaml, r.widget, "ColorInputLine", XamlType::Literal(r.color), false, false);
    let widget_color_input_line_invalid = reg_property(xaml, r.widget, "ColorInputLineInvalid", XamlType::Literal(r.color), false, false);
    let widget_color_input_line_focused = reg_property(xaml, r.widget, "ColorInputLineFocused", XamlType::Literal(r.color), false, false);
    let widget_color_input_line_focused_invalid = reg_property(xaml, r.widget, "ColorInputLineFocusedInvalid", XamlType::Literal(r.color), false, false);
    let widget_color_input_line_focused_disabled = reg_property(xaml, r.widget, "ColorInputLineFocusedDisabled", XamlType::Literal(r.color), false, false);
    let widget_color_button = reg_property(xaml, r.widget, "ColorButton", XamlType::Literal(r.color), false, false);
    let widget_color_button_focused = reg_property(xaml, r.widget, "ColorButtonFocused", XamlType::Literal(r.color), false, false);
    let widget_color_button_focused_hotkey = reg_property(xaml, r.widget, "ColorButtonFocusedHotkey", XamlType::Literal(r.color), false, false);
    let widget_color_button_focused_disabled = reg_property(xaml, r.widget, "ColorButtonFocusedDisabled", XamlType::Literal(r.color), false, false);
    let widget_color_button_pressed = reg_property(xaml, r.widget, "ColorButtonPressed", XamlType::Literal(r.color), false, false);
    let widget_color_frame = reg_property(xaml, r.widget, "ColorFrame", XamlType::Literal(r.color), false, false);
    r.widget_color_1 = widget_color_1;
    r.widget_color_2 = widget_color_2;
    r.widget_color_3 = widget_color_3;
    r.widget_color_4 = widget_color_4;
    r.widget_color_5 = widget_color_5;
    r.widget_color_6 = widget_color_6;
    r.widget_color_7 = widget_color_7;
    r.widget_color_8 = widget_color_8;
    r.widget_color_9 = widget_color_9;
    r.widget_color_disabled = widget_color_disabled;
    r.widget_color_hotkey = widget_color_hotkey;
    r.widget_color_background = widget_color_background;
    r.widget_color_label = widget_color_label;
    r.widget_color_input_line = widget_color_input_line;
    r.widget_color_input_line_invalid = widget_color_input_line_invalid;
    r.widget_color_input_line_focused = widget_color_input_line_focused;
    r.widget_color_input_line_focused_invalid = widget_color_input_line_focused_invalid;
    r.widget_color_input_line_focused_disabled = widget_color_input_line_focused_disabled;
    r.widget_color_button = widget_color_button;
    r.widget_color_button_focused = widget_color_button_focused;
    r.widget_color_button_focused_hotkey = widget_color_button_focused_hotkey;
    r.widget_color_button_focused_disabled = widget_color_button_focused_disabled;
    r.widget_color_button_pressed = widget_color_button_pressed;
    r.widget_color_frame = widget_color_frame;
    proof {
        assert(xaml.literal_names() =~= x0.literal_names());
        assert(xaml.struct_entries() =~= x0.struct_entries());
        assert(xaml.property_entries() =~= x0.property_entries() + seq![
            (old(r).widget.0, "Color1"@, XamlType::Literal(old(r).color)),
            (old(r).widget.0, "Color2"@, XamlType::Literal(old(r).color)),
            (old(r).widget.0, "Color3"@, XamlType::Literal(old(r).color)),
            (old(r).widget.0, "Color4"@, XamlType::Literal(old(r).color)),
            (old(r).widget.0, "Color5"@, XamlType::Literal(old(r).color)),
            (old(r).widget.0, "Color6"@, XamlType::Literal(old(r).color)),
            (old(r).widget.0, "Color7"@, XamlType::Literal(old(r).color)),
            (old(r).widget.0, "Color8"@, XamlType::Literal(old(r).color)),
            (old(r).widget.0, "Color9"@, XamlType::Literal(old(r).color)),
            (old(r).widget.0, "ColorDisabled"@, XamlType::Literal(old(r).color)),
            (old(r).widget.0, "ColorHotkey"@, XamlType::Literal(old(r).color)),
            (old(r).widget.0, "ColorBackground"@, XamlType::Literal(old(r).color)),
            (old(r).widget.0, "ColorLabel"@, XamlType::Literal(old(r).color)),
            (old(r).widget.0, "ColorInputLine"@, XamlType::Literal(old(r).color)),
            (old(r).widget.0, "ColorInputLineInvalid"@, XamlType::Literal(old(r).color)),
            (old(r).widget.0, "ColorInputLineFocused"@, XamlType::Literal(old(r).color)),
            (old(r).widget.0, "ColorInputLineFocusedInvalid"@, XamlType::Literal(old(r).color)),
            (old(r).widget.0, "ColorInputLineFocusedDisabled"@, XamlType::Literal(old(r).color)),
            (old(r).widget.0, "ColorButton"@, XamlType::Literal(old(r).color)),
            (old(r).widget.0, "ColorButtonFocused"@, XamlType::Literal(old(r).color)),
            (old(r).widget.0, "ColorButtonFocusedHotkey"@, XamlType::Literal(old(r).color)),
            (old(r).widget.0, "ColorButtonFocusedDisabled"@, XamlType::Literal(old(r).color)),
            (old(r).widget.0, "ColorButtonPressed"@, XamlType::Literal(old(r).color)),
            (old(r).widget.0, "ColorFrame"@, XamlType::Literal(old(r).color)),
        ]);
    }
}

fn reg_part_4(xaml: &mut Xaml, r: &mut Registered)
    requires
        old(xaml).wf(),
        old(r).widget.0 < old(xaml).struct_entries().len(),
    ensures
        final(xaml).wf(),
        final(xaml).literal_names() == old(xaml).literal_names(),
        final(xaml).struct_entries() == old(xaml).struct_entries() + seq![
            (Some(old(r).widget.0), qualified(XMLNS@, "Background"@), None::<usize>, None::<usize>),
            (Some(old(r).widget.0), qualified(XMLNS@, "StackPanel"@), None::<usize>, None::<usize>),
            (Some(old(r).widget.0), qualified(XMLNS@, "StretchPanel"@), None::<usize>, None::<usize>),
            (Some(old(r).widget.0), qualified(XMLNS@, "DockPanel"@), None::<usize>, None::<usize>),
            (Some(old(r).widget.0), qualified(XMLNS@, "Canvas"@), None::<usize>, None::<usize>),
            (Some(old(r).widget.0), qualified(XMLNS@, "StaticText"@), None::<usize>, None::<usize>),
            (Some(old(r).widget.0), qualified(XMLNS@, "Button"@), None::<usize>, None::<usize>),
            (Some(old(r).widget.0), qualified(XMLNS@, "InputLine"@), None::<usize>, None::<usize>),
            (Some(old(r).widget.0), qualified(XMLNS@, "TextEdit"@), None::<usize>, None::<usize>),
        ],
        final(xaml).property_entries() == old(xaml).property_entries() + seq![
            ((old(xaml).struct_entries().len() + 0) as usize, "ShowPattern"@, XamlType::Literal(old(r).boolean)),
            ((old(xaml).struct_entries().len() + 0) as usize, "PatternEven"@, XamlType::Literal(old(r).string)),
            ((old(xaml).struct_entries().len() + 0) as usize, "PatternOdd"@, XamlType::Literal(old(r).string)),
            ((old(xaml).struct_entries().len() + 1) as usize, "Vertical"@, XamlType::Literal(old(r).boolean)),
            ((old(xaml).struct_entries().len() + 2) as usize, "Vertical"@, XamlType::Literal(old(r).boolean)),
            (old(r).widget.0, "Stretch"@, XamlType::Literal(old(r).float_32)),
            (old(r).widget.0, "Dock"@, XamlType::Literal(old(r).dock)),
            (old(r).widget.0, "Tl"@, XamlType::Literal(old(r).point)),
            ((old(xaml).struct_entries().len() + 5) as usize, "Text"@, XamlType::Literal(old(r).string)),
            ((old(xaml).struct_entries().len() + 6) as usize, "Text"@, XamlType::Literal(old(r).string)),
            ((old(xaml).struct_entries().len() + 7) as usize, "Text"@, XamlType::Literal(old(r).string)),
            ((old(xaml).struct_entries().len() + 7) as usize, "Validator"@, XamlType::Struct(old(r).validator)),
            ((old(xaml).struct_entries().len() + 8) as usize, "Text"@, XamlType::Literal(old(r).string)),
            ((old(xaml).struct_entries().len() + 8) as usize, "LineBreak"@, XamlType::Literal(old(r).string)),
        ],
        *final(r) == (Registered {
            background: XamlStruct((old(xaml).struct_entries().len() + 0) as usize),
            background_show_pattern: XamlProperty((old(xaml).property_entries().len() + 0) as usize),
            background_pattern_even: XamlProperty((old(xaml).property_entries().len() + 1) as usize),
            background_pattern_odd: XamlProperty((old(xaml).property_entries().len() + 2) as usize),
            stack_panel: XamlStruct((old(xaml).struct_entries().len() + 1) as usize),
            stack_panel_vertical: XamlProperty((old(xaml).property_entries().len() + 3) as usize),
            stretch_panel: XamlStruct((old(xaml).struct_entries().len() + 2) as usize),
            stretch_panel_vertical: XamlProperty((old(xaml).property_entries().len() + 4) as usize),
            widget_stretch: XamlProperty((old(xaml).property_entries().len() + 5) as usize),
            dock_panel: XamlStruct((old(xaml).struct_entries().len() + 3) as usize),
            widget_dock: XamlProperty((old(xaml).property_entries().len() + 6) as usize),
            canvas: XamlStruct((old(xaml).struct_entries().len() + 4) as usize),
            widget_tl: XamlProperty((old(xaml).property_entries().len() + 7) as usize),
            static_text: XamlStruct((old(xaml).struct_entries().len() + 5) as usize),
            static_text_text: XamlProperty((old(xaml).property_entries().len() + 8) as usize),
            button: XamlStruct((old(xaml).struct_entries().len() + 6) as usize),
            button_text: XamlProperty((old(xaml).property_entries().len() + 9) as usize),
            input_line: XamlStruct((old(xaml).struct_entries().len() + 7) as usize),
            input_line_text: XamlProperty((old(xaml).property_entries().len() + 10) as usize),
            input_line_validator: XamlProperty((old(xaml).property_entries().len() + 11) as usize),
            text_edit: XamlStruct((old(xaml).struct_entries().len() + 8) as usize),
            text_edit_text: XamlProperty((old(xaml).property_entries().len() + 12) as usize),
            text_edit_line_break: XamlProperty((old(xaml).property_entries().len() + 13) as usize),
            ..*old(r)
        }),
{
    let ghost x0 = *xaml;
    proof {
        x0.lemma_entries();
    }
    let background = reg_struct(xaml, Some(r.widget), "Background");
    let background_show_pattern = reg_property(xaml, background, "ShowPattern", XamlType::Literal(r.boolean), false, false);
    let background_pattern_even = reg_property(xaml, background, "PatternEven", XamlType::Literal(r.string), false, false);
    let background_pattern_odd = reg_property(xaml, background, "PatternOdd", XamlType::Literal(r.string), false, false);
    let stack_panel = reg_struct(xaml, Some(r.widget), "StackPanel");
    let stack_panel_vertical = reg_property(xaml, stack_panel, "Vertical", XamlType::Literal(r.boolean), false, false);
    let stretch_panel = reg_struct(xaml, Some(r.widget), "StretchPanel");
    let stretch_panel_vertical = reg_property(xaml, stretch_panel, "Vertical", XamlType::Literal(r.boolean), false, false);
    let widget_stretch = reg_property(xaml, r.widget, "Stretch", XamlType::Literal(r.float_32), false, false);
    let dock_panel = reg_struct(xaml, Some(r.widget), "DockPanel");
    let widget_dock = reg_property(xaml, r.widget, "Dock", XamlType::Literal(r.dock), false, false);
    let canvas = reg_struct(xaml, Some(r.widget), "Canvas");
    let widget_tl = reg_property(xaml, r.widget, "Tl", XamlType::Literal(r.point), false, false);
    let static_text = reg_struct(xaml, Some(r.widget), "StaticText");
    let static_text_text = reg_property(xaml, static_text, "Text", XamlType::Literal(r.string), false, false);
    let button = reg_struct(xaml, Some(r.widget), "Button");
    let button_text = reg_property(xaml, button, "Text", XamlType::Literal(r.string), false, false);
    let input_line = reg_struct(xaml, Some(r.widget), "InputLine");
    let input_line_text = reg_property(xaml, input_line, "Text", XamlType::Literal(r.string), false, false);
    let input_line_validator = reg_property(xaml, input_line, "Validator", XamlType::Struct(r.validator), false, false);
    let text_edit = reg_struct(xaml, Some(r.widget), "TextEdit");
    let text_edit_text = reg_property(xaml, text_edit, "Text", XamlType::Literal(r.string), false, false);
    let text_edit_line_break = reg_property(xaml, text_edit, "LineBreak", XamlType::Literal(r.string), false, false);
    r.background = background;
    r.background_show_pattern = background_show_pattern;
    r.background_pattern_even = background_pattern_even;
    r.background_pattern_odd = background_pattern_odd;
    r.stack_panel = stack_panel;
    r.stack_panel_vertical = stack_panel_vertical;
    r.stretch_panel = stretch_panel;
    r.stretch_panel_vertical = stretch_panel_vertical;
    r.widget_stretch = widget_stretch;
    r.dock_panel = dock_panel;
    r.widget_dock = widget_dock;
    r.canvas = canvas;
    r.widget_tl = widget_tl;
    r.static_text = static_text;
    r.static_text_text = static_text_text;
    r.button = button;
    r.button_text = button_text;
    r.input_line = input_line;
    r.input_line_text = input_line_text;
    r.input_line_validator = input_line_validator;
    r.text_edit = text_edit;
    r.text_edit_text = text_edit_text;
    r.text_edit_line_break = text_edit_line_break;
    proof {
        assert(xaml.literal_names() =~= x0.literal_names());
        assert(xaml.struct_entries() =~= x0.struct_entries() + seq![
            (Some(old(r).widget.0), qualified(XMLNS@, "Background"@), None::<usize>, None::<usize>),
            (Some(old(r).widget.0), qualified(XMLNS@, "StackPanel"@), None::<usize>, None::<usize>),
            (Some(old(r).widget.0), qualified(XMLNS@, "StretchPanel"@), None::<usize>, None::<usize>),
            (Some(old(r).widget.0), qualified(XMLNS@, "DockPanel"@), None::<usize>, None::<usize>),
            (Some(old(r).widget.0), qualified(XMLNS@, "Canvas"@), None::<usize>, None::<usize>),
            (Some(old(r).widget.0), qualified(XMLNS@, "StaticText"@), None::<usize>, None::<usize>),
            (Some(old(r).widget.0), qualified(XMLNS@, "Button"@), None::<usize>, None::<usize>),
            (Some(old(r).widget.0), qualified(XMLNS@, "InputLine"@), None::<usize>, None::<usize>),
            (Some(old(r).widget.0), qualified(XMLNS@, "TextEdit"@), None::<usize>, None::<usize>),
        ]);
        assert(xaml.property_entries() =~= x0.property_entries() + seq![
            ((old(xaml).struct_entries().len() + 0) as usize, "ShowPattern"@, XamlType::Literal(old(r).boolean)),
            ((old(xaml).struct_entries().len() + 0) as usize, "PatternEven"@, XamlType::Literal(old(r).string)),
            ((old(xaml).struct_entries().len() + 0) as usize, "PatternOdd"@, XamlType::Literal(old(r).string)),
            ((old(xaml).struct_entries().len() + 1) as usize, "Vertical"@, XamlType::Literal(old(r).boolean)),
            ((old(xaml).struct_entries().len() + 2) as usize, "Vertical"@, XamlType::Literal(old(r).boolean)),
            (old(r).widget.0, "Stretch"@, XamlType::Literal(old(r).float_32)),
            (old(r).widget.0, "Dock"@, XamlType::Literal(old(r).dock)),
            (old(r).widget.0, "Tl"@, XamlType::Literal(old(r).point)),
            ((old(xaml).struct_entries().len() + 5) as usize, "Text"@, XamlType::Literal(old(r).string)),
            ((old(xaml).struct_entries().len() + 6) as usize, "Text"@, XamlType::Literal(old(r).string)),
            ((old(xaml).struct_entries().len() + 7) as usize, "Text"@, XamlType::Literal(old(r).string)),
            ((old(xaml).struct_entries().len() + 7) as usize, "Validator"@, XamlType::Struct(old(r).validator)),
            ((old(xaml).struct_entries().len() + 8) as usize, "Text"@, XamlType::Literal(old(r).string)),
            ((old(xaml).struct_entries().len() + 8) as usize, "LineBreak"@, XamlType::Literal(old(r).string)),
        ]);
    }
}

fn reg_part_5(xaml: &mut Xaml, r: &mut Registered)
    requires
        old(xaml).wf(),
        old(r).widget.0 < old(xaml).struct_entries().len(),
    ensures
        final(xaml).wf(),
        final(xaml).literal_names() == old(xaml).literal_names(),
        final(xaml).struct_entries() == old(xaml).struct_entries() + seq![
            (Some(old(r).widget.0), qualified(XMLNS@, "Frame"@), None::<usize>, None::<usize>),
            (Some(old(r).widget.0), qualified(XMLNS@, "ScrollViewer"@), None::<usize>, None::<usize>),
            (Some(old(r).widget.0), qualified(XMLNS@, "Label"@), None::<usize>, None::<usize>),
            (Some(old(r).widget.0), qualified(XMLNS@, "CheckBox"@), None::<usize>, None::<usize>),
            (Some(old(r).widget.0), qualified(XMLNS@, "RadioButton"@), None::<usize>, None::<usize>),
            (Some(old(r).widget.0), qualified(XMLNS@, "ContentPresenter"@), Some((old(xaml).property_entries().len() + 13) as usize), None::<usize>),
            (Some(old(r).widget.0), qualified(XMLNS@, "ItemsPresenter"@), Some((old(xaml).property_entries().len() + 15) as usize), None::<usize>),
            (Some(old(r).widget.0), qualified(XMLNS@, "VirtItemsPresenter"@), Some((old(xaml).property_entries().len() + 18) as usize), None::<usize>),
        ],
        final(xaml).property_entries() == old(xaml).property_entries() + seq![
            ((old(xaml).struct_entries().len() + 0) as usize, "Double"@, XamlType::Literal(old(r).boolean)),
            ((old(xaml).struct_entries().len() + 0) as usize, "Text"@, XamlType::Literal(old(r).string)),
            ((old(xaml).struct_entries().len() + 0) as usize, "TextAlign"@, XamlType::Literal(old(r).h_align)),
            ((old(xaml).struct_entries().len() + 1) as usize, "Text"@, XamlType::Literal(old(r).string)),
            ((old(xaml).struct_entries().len() + 1) as usize, "TextAlign"@, XamlType::Literal(old(r).h_align)),
            ((old(xaml).struct_entries().len() + 1) as usize, "HScroll"@, XamlType::Literal(old(r).boolean)),
            ((old(xaml).struct_entries().len() + 1) as usize, "VScroll"@, XamlType::Literal(old(r).boolean)),
            ((old(xaml).struct_entries().len() + 2) as usize, "Text"@, XamlType::Literal(old(r).string)),
            ((old(xaml).struct_entries().len() + 2) as usize, "Focus"@, XamlType::Ref),
            ((old(xaml).struct_entries().len() + 3) as usize, "Text"@, XamlType::Literal(old(r).string)),
            ((old(xaml).struct_entries().len() + 3) as usize, "IsOn"@, XamlType::Literal(old(r).boolean)),
            ((old(xaml).struct_entries().len() + 4) as usize, "Text"@, XamlType::Literal(old(r).string)),
            ((old(xaml).struct_entries().len() + 4) as usize, "IsOn"@, XamlType::Literal(old(r).boolean)),
            ((old(xaml).struct_entries().len() + 5) as usize, "ContentTemplate"@, XamlType::Struct(old(r).widget)),
            ((old(xaml).struct_entries().len() + 6) as usize, "PanelTemplate"@, XamlType::Struct(old(r).widget)),
            ((old(xaml).struct_entries().len() + 6) as usize, "ItemTemplate"@, XamlType::Struct(old(r).widget)),
            ((old(xaml).struct_entries().len() + 6) as usize, "TabNavigation"@, XamlType::Literal(old(r).boolean)),
            ((old(xaml).struct_entries().len() + 6) as usize, "UpDownNavigation"@, XamlType::Literal(old(r).boolean)),
            ((old(xaml).struct_entries().len() + 7) as usize, "ItemTemplate"@, XamlType::Struct(old(r).widget)),
            ((old(xaml).struct_entries().len() + 7) as usize, "TabNavigation"@, XamlType::Literal(old(r).boolean)),
            ((old(xaml).struct_entries().len() + 7) as usize, "UpDownNavigation"@, XamlType::Literal(old(r).boolean)),
        ],
        *final(r) == (Registered {
            frame: XamlStruct((old(xaml).struct_entries().len() + 0) as usize),
            frame_double: XamlProperty((old(xaml).property_entries().len() + 0) as usize),
            frame_text: XamlProperty((old(xaml).property_entries().len() + 1) as usize),
            frame_text_align: XamlProperty((old(xaml).property_entries().len() + 2) as usize),
            scroll_viewer: XamlStruct((old(xaml).struct_entries().len() + 1) as usize),
            scroll_viewer_text: XamlProperty((old(xaml).property_entries().len() + 3) as usize),
            scroll_viewer_text_align: XamlProperty((old(xaml).property_entries().len() + 4) as usize),
            scroll_viewer_h_scroll: XamlProperty((old(xaml).property_entries().len() + 5) as usize),
            scroll_viewer_v_scroll: XamlProperty((old(xaml).property_entries().len() + 6) as usize),
            label: XamlStruct((old(xaml).struct_entries().len() + 2) as usize),
            label_text: XamlProperty((old(xaml).property_entries().len() + 7) as usize),
            label_focus: XamlProperty((old(xaml).property_entries().len() + 8) as usize),
            check_box: XamlStruct((old(xaml).struct_entries().len() + 3) as usize),
            check_box_text: XamlProperty((old(xaml).property_entries().len() + 9) as usize),
            check_box_is_on: XamlProperty((old(xaml).property_entries().len() + 10) as usize),
            radio_button: XamlStruct((old(xaml).struct_entries().len() + 4) as usize),
            radio_button_text: XamlProperty((old(xaml).property_entries().len() + 11) as usize),
            radio_button_is_on: XamlProperty((old(xaml).property_entries().len() + 12) as usize),
            content_presenter: XamlStruct((old(xaml).struct_entries().len() + 5) as usize),
            content_presenter_content_template: XamlProperty((old(xaml).property_entries().len() + 13) as usize),
            items_presenter: XamlStruct((old(xaml).struct_entries().len() + 6) as usize),
            items_presenter_panel_template: XamlProperty((old(xaml).property_entries().len() + 14) as usize),
            items_presenter_item_template: XamlProperty((old(xaml).property_entries().len() + 15) as usize),
            items_presenter_tab_navigation: XamlProperty((old(xaml).property_entries().len() + 16) as usize),
            items_presenter_up_down_navigation: XamlProperty((old(xaml).property_entries().len() + 17) as usize),
            virt_items_presenter: XamlStruct((old(xaml).struct_entries().len() + 7) as usize),
            virt_items_presenter_item_template: XamlProperty((old(xaml).property_entries().len() + 18) as usize),
            virt_items_presenter_tab_navigation: XamlProperty((old(xaml).property_entries().len() + 19) as usize),
            virt_items_presenter_up_down_navigation: XamlProperty((old(xaml).property_entries().len() + 20) as usize),
            ..*old(r)
        }),
{
    let ghost x0 = *xaml;
    proof {
        x0.lemma_entries();
    }
    let frame = reg_struct(xaml, Some(r.widget), "Frame");
    let frame_double = reg_property(xaml, frame, "Double", XamlType::Literal(r.boolean), false, false);
    let frame_text = reg_property(xaml, frame, "Text", XamlType::Literal(r.string), false, false);
    let frame_text_align = reg_property(xaml, frame, "TextAlign", XamlType::Literal(r.h_align), false, false);
    let scroll_viewer = reg_struct(xaml, Some(r.widget), "ScrollViewer");
    let scroll_viewer_text = reg_property(xaml, scroll_viewer, "Text", XamlType::Literal(r.string), false, false);
    let scroll_viewer_text_align = reg_property(xaml, scroll_viewer, "TextAlign", XamlType::Literal(r.h_align), false, false);
    let scroll_viewer_h_scroll = reg_property(xaml, scroll_viewer, "HScroll", XamlType::Literal(r.boolean), false, false);
    let scroll_viewer_v_scroll = reg_property(xaml, scroll_viewer, "VScroll", XamlType::Literal(r.boolean), false, false);
    let label = reg_struct(xaml, Some(r.widget), "Label");
    let label_text = reg_property(xaml, label, "Text", XamlType::Literal(r.string), false, false);
    let label_focus = reg_property(xaml, label, "Focus", XamlType::Ref, false, false);
    let check_box = reg_struct(xaml, Some(r.widget), "CheckBox");
    let check_box_text = reg_property(xaml, check_box, "Text", XamlType::Literal(r.string), false, false);
    let check_box_is_on = reg_property(xaml, check_box, "IsOn", XamlType::Literal(r.boolean), false, false);
    let radio_button = reg_struct(xaml, Some(r.widget), "RadioButton");
    let radio_button_text = reg_property(xaml, radio_button, "Text", XamlType::Literal(r.string), false, false);
    let radio_button_is_on = reg_property(xaml, radio_button, "IsOn", XamlType::Literal(r.boolean), false, false);
    let content_presenter = reg_struct(xaml, Some(r.widget), "ContentPresenter");
    let content_presenter_content_template = reg_property(xaml, content_presenter, "ContentTemplate", XamlType::Struct(r.widget), true, false);
    let items_presenter = reg_struct(xaml, Some(r.widget), "ItemsPresenter");
    let items_presenter_panel_template = reg_property(xaml, items_presenter, "PanelTemplate", XamlType::Struct(r.widget), false, false);
    let items_presenter_item_template = reg_property(xaml, items_presenter, "ItemTemplate", XamlType::Struct(r.widget), true, false);
    let items_presenter_tab_navigation = reg_property(xaml, items_presenter, "TabNavigation", XamlType::Literal(r.boolean), false, false);
    let items_presenter_up_down_navigation = reg_property(xaml, items_presenter, "UpDownNavigation", XamlType::Literal(r.boolean), false, false);
    let virt_items_presenter = reg_struct(xaml, Some(r.widget), "VirtItemsPresenter");
    let virt_items_presenter_item_template = reg_property(xaml, virt_items_presenter, "ItemTemplate", XamlType::Struct(r.widget), true, false);
    let virt_items_presenter_tab_navigation = reg_property(xaml, virt_items_presenter, "TabNavigation", XamlType::Literal(r.boolean), false, false);
    let virt_items_presenter_up_down_navigation = reg_property(xaml, virt_items_presenter, "UpDownNavigation", XamlType::Literal(r.boolean), false, false);
    r.frame = frame;
    r.frame_double = frame_double;
    r.frame_text = frame_text;
    r.frame_text_align = frame_text_align;
    r.scroll_viewer = scroll_viewer;
    r.scroll_viewer_text = scroll_viewer_text;
    r.scroll_viewer_text_align = scroll_viewer_text_align;
    r.scroll_viewer_h_scroll = scroll_viewer_h_scroll;
    r.scroll_viewer_v_scroll = scroll_viewer_v_scroll;
    r.label = label;
    r.label_text = label_text;
    r.label_focus = label_focus;
    r.check_box = check_box;
    r.check_box_text = check_box_text;
    r.check_box_is_on = check_box_is_on;
    r.radio_button = radio_button;
    r.radio_button_text = radio_button_text;
    r.radio_button_is_on = radio_button_is_on;
    r.content_presenter = content_presenter;
    r.content_presenter_content_template = content_presenter_content_template;
    r.items_presenter = items_presenter;
    r.items_presenter_panel_template = items_presenter_panel_template;
    r.items_presenter_item_template = items_presenter_item_template;
    r.items_presenter_tab_navigation = items_presenter_tab_navigation;
    r.items_presenter_up_down_navigation = items_presenter_up_down_navigation;
    r.virt_items_presenter = virt_items_presenter;
    r.virt_items_presenter_item_template = virt_items_presenter_item_template;
    r.virt_items_presenter_tab_navigation = virt_items_presenter_tab_navigation;
    r.virt_items_presenter_up_down_navigation = virt_items_presenter_up_down_navigation;
    proof {
        assert(xaml.literal_names() =~= x0.literal_names());
        assert(xaml.struct_entries() =~= x0.struct_entries() + seq![
            (Some(old(r).widget.0), qualified(XMLNS@, "Frame"@), None::<usize>, None::<usize>),
            (Some(old(r).widget.0), qualified(XMLNS@, "ScrollViewer"@), None::<usize>, None::<usize>),
            (Some(old(r).widget.0), qualified(XMLNS@, "Label"@), None::<usize>, None::<usize>),
            (Some(old(r).widget.0), qualified(XMLNS@, "CheckBox"@), None::<usize>, None::<usize>),
            (Some(old(r).widget.0), qualified(XMLNS@, "RadioButton"@), None::<usize>, None::<usize>),
            (Some(old(r).widget.0), qualified(XMLNS@, "ContentPresenter"@), Some((old(xaml).property_entries().len() + 13) as usize), None::<usize>),
            (Some(old(r).widget.0), qualified(XMLNS@, "ItemsPresenter"@), Some((old(xaml).property_entries().len() + 15) as usize), None::<usize>),
            (Some(old(r).widget.0), qualified(XMLNS@, "VirtItemsPresenter"@), Some((old(xaml).property_entries().len() + 18) as usize), None::<usize>),
        ]);
        assert(xaml.property_entries() =~= x0.property_entries() + seq![
            ((old(xaml).struct_entries().len() + 0) as usize, "Double"@, XamlType::Literal(old(r).boolean)),
            ((old(xaml).struct_entries().len() + 0) as usize, "Text"@, XamlType::Literal(old(r).string)),
            ((old(xaml).struct_entries().len() + 0) as usize, "TextAlign"@, XamlType::Literal(old(r).h_align)),
            ((old(xaml).struct_entries().len() + 1) as usize, "Text"@, XamlType::Literal(old(r).string)),
            ((old(xaml).struct_entries().len() + 1) as usize, "TextAlign"@, XamlType::Literal(old(r).h_align)),
            ((old(xaml).struct_entries().len() + 1) as usize, "HScroll"@, XamlType::Literal(old(r).boolean)),
            ((old(xaml).struct_entries().len() + 1) as usize, "VScroll"@, XamlType::Literal(old(r).boolean)),
            ((old(xaml).struct_entries().len() + 2) as usize, "Text"@, XamlType::Literal(old(r).string)),
            ((old(xaml).struct_entries().len() + 2) as usize, "Focus"@, XamlType::Ref),
            ((old(xaml).struct_entries().len() + 3) as usize, "Text"@, XamlType::Literal(old(r).string)),
            ((old(xaml).struct_entries().len() + 3) as usize, "IsOn"@, XamlType::Literal(old(r).boolean)),
            ((old(xaml).struct_entries().len() + 4) as usize, "Text"@, XamlType::Literal(old(r).string)),
            ((old(xaml).struct_entries().len() + 4) as usize, "IsOn"@, XamlType::Literal(old(r).boolean)),
            ((old(xaml).struct_entries().len() + 5) as usize, "ContentTemplate"@, XamlType::Struct(old(r).widget)),
            ((old(xaml).struct_entries().len() + 6) as usize, "PanelTemplate"@, XamlType::Struct(old(r).widget)),
            ((old(xaml).struct_entries().len() + 6) as usize, "ItemTemplate"@, XamlType::Struct(old(r).widget)),
            ((old(xaml).struct_entries().len() + 6) as usize, "TabNavigation"@, XamlType::Literal(old(r).boolean)),
            ((old(xaml).struct_entries().len() + 6) as usize, "UpDownNavigation"@, XamlType::Literal(old(r).boolean)),
            ((old(xaml).struct_entries().len() + 7) as usize, "ItemTemplate"@, XamlType::Struct(old(r).widget)),
            ((old(xaml).struct_entries().len() + 7) as usize, "TabNavigation"@, XamlType::Literal(old(r).boolean)),
            ((old(xaml).struct_entries().len() + 7) as usize, "UpDownNavigation"@, XamlType::Literal(old(r).boolean)),
        ]);
    }
}

/// Registers the built-in types: the literal types, the validators, the
/// widgets and their properties, in one fixed order after what `xaml`
/// holds, and gives back their handles.  How a value of each type is
/// written out is up to the code generator that uses the registry.
pub fn reg_widgets(xaml: &mut Xaml) -> (r: Registered)
    requires
        old(xaml).wf(),
    ensures
        final(xaml).wf(),
        final(xaml).literal_names() == old(xaml).literal_names() + widget_literal_names(),
        final(xaml).struct_entries() == old(xaml).struct_entries()
            + widget_structs(old(xaml).struct_entries().len() as int, old(xaml).property_entries().len() as int),
        final(xaml).property_entries() == old(xaml).property_entries()
            + widget_properties(old(xaml).struct_entries().len() as int, old(xaml).literal_names().len() as int),
        registered_at(r, old(xaml).struct_entries().len() as int, old(xaml).property_entries().len() as int,
            old(xaml).literal_names().len() as int),
{
    let ghost x0 = *xaml;
    let mut r = Registered {
        boolean: XamlLiteral(0),
        string: XamlLiteral(0),
        int_16: XamlLiteral(0),
        uint_16: XamlLiteral(0),
        int_32: XamlLiteral(0),
        float_32: XamlLiteral(0),
        float_64: XamlLiteral(0),
        thickness: XamlLiteral(0),
        point: XamlLiteral(0),
        h_align: XamlLiteral(0),
        v_align: XamlLiteral(0),
        dock: XamlLiteral(0),
        focus: XamlLiteral(0),
        visibility: XamlLiteral(0),
        color: XamlLiteral(0),
        validator: XamlStruct(0),
        int_validator: XamlStruct(0),
        int_validator_min: XamlProperty(0),
        int_validator_max: XamlProperty(0),
        float_validator: XamlStruct(0),
        float_validator_min: XamlProperty(0),
        float_validator_max: XamlProperty(0),
        widget: XamlStruct(0),
        widget_children: XamlProperty(0),
        widget_name: XamlProperty(0),
        widget_focus_tab: XamlProperty(0),
        widget_focus_right: XamlProperty(0),
        widget_focus_left: XamlProperty(0),
        widget_focus_up: XamlProperty(0),
        widget_focus_down: XamlProperty(0),
        widget_focus_click: XamlProperty(0),
        widget_focused_primary: XamlProperty(0),
        widget_focused_secondary: XamlProperty(0),
        widget_h_align: XamlProperty(0),
        widget_v_align: XamlProperty(0),
        widget_width: XamlProperty(0),
        widget_height: XamlProperty(0),
        widget_margin: XamlProperty(0),
        widget_min_width: XamlProperty(0),
        widget_max_width: XamlProperty(0),
        widget_min_height: XamlProperty(0),
        widget_max_height: XamlProperty(0),
        widget_is_enabled: XamlProperty(0),
        widget_visibility: XamlProperty(0),
        widget_color_0: XamlProperty(0),
        widget_color_1: XamlProperty(0),
        widget_color_2: XamlProperty(0),
        widget_color_3: XamlProperty(0),
        widget_color_4: XamlProperty(0),
        widget_color_5: XamlProperty(0),
        widget_color_6: XamlProperty(0),
        widget_color_7: XamlProperty(0),
        widget_color_8: XamlProperty(0),
        widget_color_9: XamlProperty(0),
        widget_color_disabled: XamlProperty(0),
        widget_color_hotkey: XamlProperty(0),
        widget_color_background: XamlProperty(0),
        widget_color_label: XamlProperty(0),
        widget_color_input_line: XamlProperty(0),
        widget_color_input_line_invalid: XamlProperty(0),
        widget_color_input_line_focused: XamlProperty(0),
        widget_color_input_line_focused_invalid: XamlProperty(0),
        widget_color_input_line_focused_disabled: XamlProperty(0),
        widget_color_button: XamlProperty(0),
        widget_color_button_focused: XamlProperty(0),
        widget_color_button_focused_hotkey: XamlProperty(0),
        widget_color_button_focused_disabled: XamlProperty(0),
        widget_color_button_pressed: XamlProperty(0),
        widget_color_frame: XamlProperty(0),
        background: XamlStruct(0),
        background_show_pattern: XamlProperty(0),
        background_pattern_even: XamlProperty(0),
        background_pattern_odd: XamlProperty(0),
        stack_panel: XamlStruct(0),
        stack_panel_vertical: XamlProperty(0),
        stretch_panel: XamlStruct(0),
        stretch_panel_vertical: XamlProperty(0),
        widget_stretch: XamlProperty(0),
        dock_panel: XamlStruct(0),
        widget_dock: XamlProperty(0),
        canvas: XamlStruct(0),
        widget_tl: XamlProperty(0),
        static_text: XamlStruct(0),
        static_text_text: XamlProperty(0),
        button: XamlStruct(0),
        button_text: XamlProperty(0),
        input_line: XamlStruct(0),
        input_line_text: XamlProperty(0),
        input_line_validator: XamlProperty(0),
        text_edit: XamlStruct(0),
        text_edit_text: XamlProperty(0),
        text_edit_line_break: XamlProperty(0),
        frame: XamlStruct(0),
        frame_double: XamlProperty(0),
        frame_text: XamlProperty(0),
        frame_text_align: XamlProperty(0),
        scroll_viewer: XamlStruct(0),
        scroll_viewer_text: XamlProperty(0),
        scroll_viewer_text_align: XamlProperty(0),
        scroll_viewer_h_scroll: XamlProperty(0),
        scroll_viewer_v_scroll: XamlProperty(0),
        label: XamlStruct(0),
        label_text: XamlProperty(0),
        label_focus: XamlProperty(0),
        check_box: XamlStruct(0),
        check_box_text: XamlProperty(0),
        check_box_is_on: XamlProperty(0),
        radio_button: XamlStruct(0),
        radio_button_text: XamlProperty(0),
        radio_button_is_on: XamlProperty(0),
        content_presenter: XamlStruct(0),
        content_presenter_content_template: XamlProperty(0),
        items_presenter: XamlStruct(0),
        items_presenter_panel_template: XamlProperty(0),
        items_presenter_item_template: XamlProperty(0),
        items_presenter_tab_navigation: XamlProperty(0),
        items_presenter_up_down_navigation: XamlProperty(0),
        virt_items_presenter: XamlStruct(0),
        virt_items_presenter_item_template: XamlProperty(0),
        virt_items_presenter_tab_navigation: XamlProperty(0),
        virt_items_presenter_up_down_navigation: XamlProperty(0),
    };
    reg_part_1(xaml, &mut r);
    let ghost x1 = *xaml;
    reg_part_2(xaml, &mut r);
    let ghost x2 = *xaml;
    reg_part_3(xaml, &mut r);
    let ghost x3 = *xaml;
    reg_part_4(xaml, &mut r);
    let ghost x4 = *xaml;
    reg_part_5(xaml, &mut r);
    proof {
        let sb = x0.struct_entries().len() as int;
        let pb = x0.property_entries().len() as int;
        let lb = x0.literal_names().len() as int;
        assert(xaml.literal_names() =~= x0.literal_names() + widget_literal_names());
        assert(xaml.struct_entries() =~= x0.struct_entries() + widget_structs(sb, pb));
        assert(xaml.property_entries() =~= x0.property_entries() + widget_properties(sb, lb));
    }
    r
}

} // verus!
