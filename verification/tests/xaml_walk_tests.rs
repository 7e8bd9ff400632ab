use tuifw::xaml::{Xaml, XamlLiteral, XamlProperty, XamlStruct, XamlType};
use tuifw::xaml_walk::{preprocess_xaml_bytes, Op, Text, Value, XamlErrorKind, XmlEv};

struct Reg {
    x: Xaml,
    panel: XamlStruct,
    button: XamlStruct,
    name: XamlProperty,
    children: XamlProperty,
    width: XamlProperty,
    text: XamlProperty,
    string: XamlLiteral,
    int: XamlLiteral,
}

fn registry() -> Reg {
    let mut x = Xaml::new();
    let string = XamlLiteral::new(&mut x, "ns", "String");
    let int = XamlLiteral::new(&mut x, "ns", "Int");
    let widget = XamlStruct::new(&mut x, None, "ns", "Widget");
    let panel = XamlStruct::new(&mut x, Some(widget), "ns", "Panel");
    let button = XamlStruct::new(&mut x, Some(widget), "ns", "Button");
    let name = XamlProperty::new(&mut x, widget, "Name", XamlType::Literal(string), false, true);
    let children = XamlProperty::new(&mut x, panel, "Children", XamlType::Struct(widget), true, false);
    let width = XamlProperty::new(&mut x, panel, "Width", XamlType::Literal(int), false, false);
    let text = XamlProperty::new(&mut x, button, "Text", XamlType::Literal(string), false, false);
    Reg { x, panel, button, name, children, width, text, string, int }
}

#[test]
fn walk_makes_objects_and_sets_properties_in_order() {
    let r = registry();
    let src = r#"<Panel xmlns="ns" Name="root"><Panel.Width>5</Panel.Width><Button Text="OK"/></Panel>"#;
    let (events, plan) = preprocess_xaml_bytes(&r.x, src.as_bytes());
    assert_eq!(events.len(), 9);
    assert_eq!(plan.error, None);
    assert_eq!(plan.root, Some(Value::Obj(1)));
    assert_eq!(plan.names, vec![(Text::Attr(1, 0), 1)]);
    assert_eq!(plan.ops, vec![
        Op::Create { obj: 1, ty: r.panel, parent: None, prev: None },
        Op::Assign { property: r.name, obj: 1, value: Value::Literal(r.string, Text::Attr(1, 0)), attr: Some((1, 0)) },
        Op::Check { ty: r.int, text: Text::Event(3) },
        Op::Assign { property: r.width, obj: 1, value: Value::Literal(r.int, Text::Event(3)), attr: None },
        Op::Create { obj: 2, ty: r.button, parent: Some((1, r.children)), prev: None },
        Op::Assign { property: r.text, obj: 2, value: Value::Literal(r.string, Text::Attr(5, 0)), attr: Some((5, 0)) },
        Op::Assign { property: r.children, obj: 1, value: Value::Obj(2), attr: None },
    ]);
}

#[test]
fn walk_gives_siblings_their_previous_value() {
    let r = registry();
    let src = r#"<Panel xmlns="ns"><Button/><Button/></Panel>"#;
    let (_, plan) = preprocess_xaml_bytes(&r.x, src.as_bytes());
    assert_eq!(plan.error, None);
    assert_eq!(plan.ops[3], Op::Create { obj: 3, ty: r.button, parent: Some((1, r.children)), prev: Some(Value::Obj(2)) });
}

#[test]
fn walk_errors() {
    let r = registry();
    let (_, plan) = preprocess_xaml_bytes(&r.x, r#"<Label xmlns="ns"/>"#.as_bytes());
    assert_eq!(plan.error, Some(XamlErrorKind::UnknownType(1)));
    assert_eq!(plan.root, None);
    let (_, plan) = preprocess_xaml_bytes(&r.x, r#"<Panel xmlns="ns" Name=""/>"#.as_bytes());
    assert_eq!(plan.error, Some(XamlErrorKind::EmptyName));
    let (_, plan) = preprocess_xaml_bytes(&r.x, r#"<Panel xmlns="ns" Color="red"/>"#.as_bytes());
    assert_eq!(plan.error, Some(XamlErrorKind::UnknownAttributeProperty(1, 0)));
    let (_, plan) = preprocess_xaml_bytes(&r.x, r#"<Panel xmlns="ns"><Panel.Height/></Panel>"#.as_bytes());
    assert_eq!(plan.error, Some(XamlErrorKind::UnknownElementProperty(2, r.panel)));
    let (_, plan) = preprocess_xaml_bytes(&r.x, r#"<Panel xmlns="ns"><Button>"#.as_bytes());
    assert_eq!(plan.error, Some(XamlErrorKind::Xml));
    assert_eq!(plan.ops.len(), 2);
}

const XMLNS: &str = "https://a1-triard.github.io/tuifw/2023/xaml";

/// Turns a plan into code the way the generators of the tests below write
/// it: `Background` objects, their `ShowPattern` setter, `Bool` literals,
/// and the root value as the result.
fn render(xaml_src: &str, bool_ty: XamlLiteral) -> Result<String, String> {
    let mut x = Xaml::new();
    let b = XamlLiteral::new(&mut x, XMLNS, "Bool");
    assert_eq!(b, bool_ty);
    let bg = XamlStruct::new(&mut x, None, XMLNS, "Background");
    let _bg_sp = XamlProperty::new(&mut x, bg, "ShowPattern", XamlType::Literal(b), false, false);
    let (events, plan) = preprocess_xaml_bytes(&x, xaml_src.as_bytes());
    let text = |t: Text| -> String {
        match t {
            Text::Event(i) => match &events[i] {
                XmlEv::Characters(s) | XmlEv::Whitespace(s) => s.clone(),
                _ => String::new(),
            },
            Text::Attr(i, j) => match &events[i] {
                XmlEv::StartElement(_, a) => a[j].1.clone(),
                _ => String::new(),
            },
            Text::Empty => String::new(),
        }
    };
    let literal = |t: Text| -> Option<String> {
        match text(t).as_str() {
            "True" => Some("true".to_string()),
            "False" => Some("false".to_string()),
            _ => None,
        }
    };
    let value = |v: Value| -> String {
        match v {
            Value::Obj(n) => format!("obj_{n}"),
            Value::Literal(_, t) => literal(t).unwrap(),
            _ => String::new(),
        }
    };
    let mut dest = String::new();
    for op in &plan.ops {
        match *op {
            Op::Create { obj, .. } => dest.push_str(&format!("let mut obj_{obj} = Background::new();\n")),
            Op::Check { text: t, .. } => { literal(t).ok_or("invalid literal")?; },
            Op::Assign { .. } => { },
        }
    }
    if let Some(e) = plan.error {
        return Err(format!("{e:?}"));
    }
    for op in &plan.ops {
        if let Op::Assign { obj, value: v, .. } = *op {
            dest.push_str(&format!("Background::set_show_pattern(obj_{obj}, {});\n", value(v)));
        }
    }
    dest.push_str(&value(plan.root.unwrap()));
    Ok(dest)
}

fn bool_literal() -> XamlLiteral {
    let mut x = Xaml::new();
    XamlLiteral::new(&mut x, XMLNS, "Bool")
}

#[test]
fn process_literal() {
    let source = "<Bool xmlns='https://a1-triard.github.io/tuifw/2023/xaml'>True</Bool>";
    assert_eq!(render(source, bool_literal()).unwrap(), "true");
}

#[test]
fn process_struct_with_property() {
    let source = "
            <Background
                xmlns='https://a1-triard.github.io/tuifw/2023/xaml'
                ShowPattern='True'
            />
        ";
    assert_eq!(render(source, bool_literal()).unwrap(), "\
        let mut obj_1 = Background::new();\n\
        Background::set_show_pattern(obj_1, true);\n\
        obj_1\
    ");
}

#[test]
fn process_struct_with_expanded_property() {
    let source = "
            <Background xmlns='https://a1-triard.github.io/tuifw/2023/xaml'>
                <Background.ShowPattern><Bool>True</Bool></Background.ShowPattern>
            </Background>
        ";
    assert_eq!(render(source, bool_literal()).unwrap(), "\
        let mut obj_1 = Background::new();\n\
        Background::set_show_pattern(obj_1, true);\n\
        obj_1\
    ");
}

#[test]
fn process_struct_with_expanded_property_2() {
    let source = "
            <Background xmlns='https://a1-triard.github.io/tuifw/2023/xaml'>
                <Background.ShowPattern>True</Background.ShowPattern>
            </Background>
        ";
    assert_eq!(render(source, bool_literal()).unwrap(), "\
        let mut obj_1 = Background::new();\n\
        Background::set_show_pattern(obj_1, true);\n\
        obj_1\
    ");
}
