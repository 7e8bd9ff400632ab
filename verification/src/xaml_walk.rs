//! Reading a markup file: the walk over its XML events that decides which
//! objects are made, which properties are set to what, and which objects
//! are named.
//!
//! Each element makes an object of a registered struct, or a literal value;
//! its attributes set properties of the object; a child element named
//! `Struct.Property` sets that property to the values inside it, and any
//! other child element goes to the struct's content property.  The walk
//! gives a plan: the steps in document order, the names, and the root
//! value.  Texts are given by where they stand in the events.

use vstd::prelude::*;
use crate::xaml::{
    Xaml, XamlStruct, XamlProperty, XamlLiteral, XamlType, qualified, find_property, find_special,
    property_element_spec, element_name, property_element, lemma_find_property_registered,
    lemma_find_special_registered,
};
use crate::input::chars_to_string;
use xml::reader::XmlEvent;

verus! {

/// The name of an element or an attribute: its namespace, if any, and its
/// local part.
pub type XmlName = (Option<String>, String);

/// An attribute: its name and its value.
pub type XmlAttr = (XmlName, String);

/// An event of an XML reader (which drops comments).
pub enum XmlEv {
    StartDocument,
    EndDocument,
    StartElement(XmlName, Vec<XmlAttr>),
    EndElement,
    Characters(String),
    Whitespace(String),
    /// Any other event (a processing instruction, CDATA, a doctype).
    Other,
}

/// What the `xml` crate's reader gives for `bytes`: the events it reads, up
/// to the end of the document or to the first error, and whether it stopped
/// on an error.
pub uninterp spec fn xml_events_of(bytes: Seq<u8>) -> (Seq<XmlEv>, bool);

/// Reads `bytes` with `xml::EventReader` (default configuration) and takes
/// its events, each converted one for one, until the end of the document or
/// the first error.
///
/// Claimed: the result is a function of the bytes (named above).
#[verifier::external_body]
fn read_xml(bytes: &[u8]) -> (r: (Vec<XmlEv>, bool))
    ensures
        (r.0@, r.1) == xml_events_of(bytes@),
{
    let mut evs = Vec::new();
    for e in xml::EventReader::new(bytes) {
        evs.push(match e {
            Ok(XmlEvent::StartDocument { .. }) => XmlEv::StartDocument,
            Ok(XmlEvent::EndDocument) => XmlEv::EndDocument,
            Ok(XmlEvent::StartElement { name: n, attributes, .. }) => XmlEv::StartElement((n.namespace, n.local_name),
                attributes.into_iter().map(|a| ((a.name.namespace, a.name.local_name), a.value)).collect()),
            Ok(XmlEvent::EndElement { .. }) => XmlEv::EndElement,
            Ok(XmlEvent::Characters(s)) => XmlEv::Characters(s),
            Ok(XmlEvent::Whitespace(s)) => XmlEv::Whitespace(s),
            Ok(_) => XmlEv::Other,
            Err(_) => return (evs, true),
        });
    }
    (evs, false)
}

/// A text of the markup, by where it stands: the text event at an index,
/// the value of attribute `j` of the element starting at index `i`, or the
/// empty text.
#[derive(Clone, Copy, Debug, PartialEq, Eq, Structural)]
pub enum Text {
    Event(usize),
    Attr(usize, usize),
    Empty,
}

/// A value given to a property.
#[derive(Clone, Copy, Debug, PartialEq, Eq, Structural)]
pub enum Value {
    /// The object made for an element (numbered from 1).
    Obj(u16),
    /// A literal of the given type, from a text.
    Literal(XamlLiteral, Text),
    /// The value of an element of the reference type.
    Empty,
    /// The object named by a text.
    Name(Text),
    /// An attribute that sets a struct-typed property: no value can be.
    Invalid,
}

/// A step of the plan.
#[derive(Clone, Copy, Debug, PartialEq, Eq)]
pub enum Op {
    /// Make object `obj` of struct `ty`, as a value of `parent`'s property
    /// (after the value `prev` there).
    Create { obj: u16, ty: XamlStruct, parent: Option<(u16, XamlProperty)>, prev: Option<Value> },
    /// A literal of type `ty` is read from `text` (it has to be one).
    Check { ty: XamlLiteral, text: Text },
    /// Set `property` of object `obj` to `value`; `attr` is the attribute
    /// that does it, if one does.
    Assign { property: XamlProperty, obj: u16, value: Value, attr: Option<(usize, usize)> },
}

/// Why a markup file is refused.  Indices point into the events (and the
/// attributes of a start element).
#[derive(Clone, Copy, Debug, PartialEq, Eq, Structural)]
pub enum XamlErrorKind {
    /// The XML reader failed, or the events ended early.
    Xml,
    NotDocument,
    MultipleRoots,
    ElementStartExpected,
    UnknownType(usize),
    UnexpectedAttribute(usize, usize),
    UnsupportedFeature,
    UnknownAttributeProperty(usize, usize),
    /// A property element (at an index) names no property of the struct.
    UnknownElementProperty(usize, XamlStruct),
    InvalidContentValue(XamlProperty),
    EmptyName,
    NoContentProperty,
    TooManyObjects,
}

/// The state of the walk: where it is in the events, how many objects it
/// made, the steps so far and the names so far (text and object).
pub struct Walk {
    pub pos: usize,
    pub obj_n: u16,
    pub ops: Vec<Op>,
    pub names: Vec<(Text, u16)>,
}

pub struct WalkV {
    pub pos: int,
    pub obj_n: u16,
    pub ops: Seq<Op>,
    pub names: Seq<(Text, u16)>,
}

impl View for Walk {
    type V = WalkV;

    open spec fn view(&self) -> WalkV {
        WalkV { pos: self.pos as int, obj_n: self.obj_n, ops: self.ops@, names: self.names@ }
    }
}

pub open spec fn res_v<T>(r: Result<(Walk, T), (Walk, XamlErrorKind)>) -> Result<(WalkV, T), (WalkV, XamlErrorKind)> {
    match r {
        Ok((w, v)) => Ok((w@, v)),
        Err((w, e)) => Err((w@, e)),
    }
}

pub open spec fn full_name(n: XmlName) -> Seq<char> {
    match n.0 {
        Some(ns) => qualified(ns@, n.1@),
        None => n.1@,
    }
}

pub open spec fn ev_at(evs: Seq<XmlEv>, p: int) -> Option<XmlEv> {
    if 0 <= p < evs.len() { Some(evs[p]) } else { None }
}

pub open spec fn text_of(evs: Seq<XmlEv>, t: Text) -> Seq<char> {
    match t {
        Text::Event(i) => match ev_at(evs, i as int) {
            Some(XmlEv::Characters(s)) => s@,
            Some(XmlEv::Whitespace(s)) => s@,
            _ => Seq::empty(),
        },
        Text::Attr(i, j) => match ev_at(evs, i as int) {
            Some(XmlEv::StartElement(_, attributes)) => if j < attributes@.len() { attributes@[j as int].1@ } else { Seq::empty() },
            _ => Seq::empty(),
        },
        Text::Empty => Seq::empty(),
    }
}

/// The first index from `p` on that holds no whitespace.
pub open spec fn skip_from(evs: Seq<XmlEv>, p: int) -> int
    decreases evs.len() - p,
{
    if 0 <= p < evs.len() && evs[p] is Whitespace {
        skip_from(evs, p + 1)
    } else {
        p
    }
}

/// The walk moved on to the next event that is not whitespace.
pub open spec fn advance(evs: Seq<XmlEv>, w: WalkV) -> WalkV {
    WalkV { pos: skip_from(evs, w.pos + 1), ..w }
}

pub proof fn lemma_skip_from(evs: Seq<XmlEv>, p: int)
    requires
        0 <= p <= evs.len(),
    ensures
        p <= skip_from(evs, p) <= evs.len(),
    decreases evs.len() - p,
{
    if p < evs.len() && evs[p] is Whitespace {
        lemma_skip_from(evs, p + 1);
    }
}

/// An element: a struct makes an object; a literal (or reference) element
/// gives the value of its text.
pub open spec fn walk_element(x: Xaml, evs: Seq<XmlEv>, w: WalkV, parent: Option<(u16, XamlProperty)>, prev: Option<Value>)
    -> Result<(WalkV, Value), (WalkV, XamlErrorKind)>
    decreases evs.len() - w.pos, 1int,
{
    match ev_at(evs, w.pos) {
        None => Err((w, XamlErrorKind::Xml)),
        Some(XmlEv::StartElement(name, attributes)) => match x.type_named(full_name(name)) {
            None => Err((w, XamlErrorKind::UnknownType(w.pos as usize))),
            Some(XamlType::Ref) => walk_literal_element(evs, w, None, attributes@),
            Some(XamlType::Literal(l)) => walk_literal_element(evs, w, Some(l), attributes@),
            Some(XamlType::Struct(t)) => walk_struct(x, evs, w, t, attributes@, parent, prev),
        },
        Some(_) => Err((w, XamlErrorKind::ElementStartExpected)),
    }
}

/// The text of a literal: the text event here (the walk moves past it), or
/// the empty text before an end tag.  For a literal type, its reading is
/// checked, and the value is that literal; else the value is empty.
pub open spec fn walk_literal_value(evs: Seq<XmlEv>, w: WalkV, ty: Option<XamlLiteral>)
    -> Result<(WalkV, (Value, Text)), (WalkV, XamlErrorKind)>
{
    let read: Result<(WalkV, Text), (WalkV, XamlErrorKind)> = match ev_at(evs, w.pos) {
        Some(XmlEv::Characters(_)) => Ok((advance(evs, w), Text::Event(w.pos as usize))),
        Some(XmlEv::Whitespace(_)) => Ok((advance(evs, w), Text::Event(w.pos as usize))),
        Some(XmlEv::EndElement) => Ok((w, Text::Empty)),
        None => Err((w, XamlErrorKind::Xml)),
        Some(_) => Err((w, XamlErrorKind::UnsupportedFeature)),
    };
    match read {
        Err(e) => Err(e),
        Ok((w1, text)) => match ty {
            Some(l) => Ok((WalkV { ops: w1.ops.push(Op::Check { ty: l, text }), ..w1 }, (Value::Literal(l, text), text))),
            None => Ok((w1, (Value::Empty, text))),
        },
    }
}

/// A literal element: no attributes, a text, the end tag.
pub open spec fn walk_literal_element(evs: Seq<XmlEv>, w: WalkV, ty: Option<XamlLiteral>, attributes: Seq<XmlAttr>)
    -> Result<(WalkV, Value), (WalkV, XamlErrorKind)>
{
    if attributes.len() > 0 {
        Err((w, XamlErrorKind::UnexpectedAttribute(w.pos as usize, 0)))
    } else {
        match walk_literal_value(evs, advance(evs, w), ty) {
            Err(e) => Err(e),
            Ok((w2, (v, _))) => match ev_at(evs, w2.pos) {
                Some(XmlEv::EndElement) => Ok((advance(evs, w2), v)),
                None => Err((w2, XamlErrorKind::Xml)),
                Some(_) => Err((w2, XamlErrorKind::UnsupportedFeature)),
            },
        }
    }
}

/// The value an attribute gives to a property of type `ty`.
pub open spec fn attr_value(ty: XamlType, text: Text) -> Value {
    match ty {
        XamlType::Struct(_) => Value::Invalid,
        XamlType::Literal(l) => Value::Literal(l, text),
        XamlType::Ref => Value::Name(text),
    }
}

/// The attributes `i ..` of the element at `at`, setting properties of
/// object `obj` of struct `t`; the name property's value names the object.
pub open spec fn walk_attrs(x: Xaml, evs: Seq<XmlEv>, w: WalkV, t: XamlStruct, obj: u16, at: usize, attributes: Seq<XmlAttr>, i: int)
    -> Result<WalkV, (WalkV, XamlErrorKind)>
    decreases attributes.len() - i,
{
    if i < 0 || i >= attributes.len() {
        Ok(w)
    } else {
        let a = attributes[i];
        match find_property(x, t.0, full_name(a.0)) {
            None => Err((w, XamlErrorKind::UnknownAttributeProperty(at, i as usize))),
            Some(p) => {
                let text = Text::Attr(at, i as usize);
                let op = Op::Assign { property: XamlProperty(p), obj, value: attr_value(x.property_type(p), text), attr: Some((at, i as usize)) };
                let w1 = WalkV { ops: w.ops.push(op), ..w };
                if find_special(x, t.0, true) == Some(p) {
                    if a.1@.len() == 0 {
                        Err((w1, XamlErrorKind::EmptyName))
                    } else {
                        walk_attrs(x, evs, WalkV { names: w1.names.push((text, obj)), ..w1 }, t, obj, at, attributes, i + 1)
                    }
                } else {
                    walk_attrs(x, evs, w1, t, obj, at, attributes, i + 1)
                }
            },
        }
    }
}

/// A struct element: a new object, its attributes, its children.
pub open spec fn walk_struct(x: Xaml, evs: Seq<XmlEv>, w: WalkV, t: XamlStruct, attributes: Seq<XmlAttr>,
    parent: Option<(u16, XamlProperty)>, prev: Option<Value>) -> Result<(WalkV, Value), (WalkV, XamlErrorKind)>
    decreases evs.len() - w.pos, 0int,
{
    if w.obj_n == u16::MAX {
        Err((w, XamlErrorKind::TooManyObjects))
    } else if !(0 <= w.pos < evs.len()) {
        Err((w, XamlErrorKind::Xml))
    } else {
        let obj = (w.obj_n + 1) as u16;
        let w1 = WalkV { obj_n: obj, ops: w.ops.push(Op::Create { obj, ty: t, parent, prev }), ..w };
        match walk_attrs(x, evs, w1, t, obj, w.pos as usize, attributes, 0) {
            Err(e) => Err(e),
            Ok(w2) => {
                proof {
                    lemma_skip_from(evs, w.pos + 1);
                }
                match walk_children(x, evs, advance(evs, WalkV { pos: w.pos, ..w2 }), t, obj) {
                    Err(e) => Err(e),
                    Ok(w3) => Ok((w3, Value::Obj(obj))),
                }
            },
        }
    }
}

/// The children of an object `obj` of struct `t`, up to its end tag.
pub open spec fn walk_children(x: Xaml, evs: Seq<XmlEv>, w: WalkV, t: XamlStruct, obj: u16) -> Result<WalkV, (WalkV, XamlErrorKind)>
    decreases evs.len() - w.pos, 4int,
{
    match ev_at(evs, w.pos) {
        None => Err((w, XamlErrorKind::Xml)),
        Some(XmlEv::EndElement) => Ok(advance(evs, w)),
        Some(XmlEv::StartElement(..)) => match walk_property(x, evs, w, t, obj) {
            Err(e) => Err(e),
            Ok(w2) => if w.pos < w2.pos <= evs.len() {
                walk_children(x, evs, w2, t, obj)
            } else {
                Err((w2, XamlErrorKind::UnsupportedFeature))
            },
        },
        Some(XmlEv::Whitespace(_)) => {
            proof {
                lemma_skip_from(evs, w.pos + 1);
            }
            walk_children(x, evs, advance(evs, w), t, obj)
        },
        Some(_) => Err((w, XamlErrorKind::UnsupportedFeature)),
    }
}

/// A child element of an object: `Struct.Property` sets that property to
/// what it holds; any other element is a value of the content property.
pub open spec fn walk_property(x: Xaml, evs: Seq<XmlEv>, w: WalkV, t: XamlStruct, obj: u16) -> Result<WalkV, (WalkV, XamlErrorKind)>
    decreases evs.len() - w.pos, 3int,
{
    match ev_at(evs, w.pos) {
        Some(XmlEv::StartElement(name, attributes)) => match property_element_spec(full_name(name), x.struct_name(t.0)) {
            Some(pn) => {
                proof {
                    lemma_skip_from(evs, w.pos + 1);
                }
                let w1 = advance(evs, w);
                match find_property(x, t.0, pn) {
                    None => Err((w1, XamlErrorKind::UnknownElementProperty(w.pos as usize, t))),
                    Some(p) => if attributes@.len() > 0 {
                        Err((w1, XamlErrorKind::UnexpectedAttribute(w.pos as usize, 0)))
                    } else {
                        walk_values(x, evs, w1, t, obj, XamlProperty(p), None, true)
                    },
                }
            },
            None => match find_special(x, t.0, false) {
                None => Err((w, XamlErrorKind::NoContentProperty)),
                Some(p) => walk_values(x, evs, w, t, obj, XamlProperty(p), None, false),
            },
        },
        _ => Err((w, XamlErrorKind::ElementStartExpected)),
    }
}

/// After a value of property `p` of object `obj`: the property is set;
/// a value of the name property names the object by its text.
pub open spec fn record_value(x: Xaml, evs: Seq<XmlEv>, w: WalkV, t: XamlStruct, obj: u16, p: XamlProperty, v: Value, raw: Text)
    -> Result<WalkV, (WalkV, XamlErrorKind)>
{
    let w1 = WalkV { ops: w.ops.push(Op::Assign { property: p, obj, value: v, attr: None }), ..w };
    if find_special(x, t.0, true) == Some(p.0) {
        if text_of(evs, raw).len() == 0 {
            Err((w1, XamlErrorKind::EmptyName))
        } else {
            Ok(WalkV { names: w1.names.push((raw, obj)), ..w1 })
        }
    } else {
        Ok(w1)
    }
}

/// The values of property `p` of object `obj`, up to an end tag (which the
/// walk moves past when `skip_end`); each element value comes after `prev`.
pub open spec fn walk_values(x: Xaml, evs: Seq<XmlEv>, w: WalkV, t: XamlStruct, obj: u16, p: XamlProperty,
    prev: Option<Value>, skip_end: bool) -> Result<WalkV, (WalkV, XamlErrorKind)>
    decreases evs.len() - w.pos, 2int,
{
    let got: Result<(WalkV, (Value, Text)), (WalkV, XamlErrorKind)> = match ev_at(evs, w.pos) {
        None => Err((w, XamlErrorKind::Xml)),
        Some(XmlEv::EndElement) => Ok((w, (Value::Empty, Text::Empty))),
        Some(XmlEv::StartElement(..)) => match walk_element(x, evs, w, Some((obj, p)), prev) {
            Err(e) => Err(e),
            Ok((w2, v)) => Ok((w2, (v, Text::Empty))),
        },
        Some(XmlEv::Characters(_)) | Some(XmlEv::Whitespace(_)) => match x.property_type(p.0) {
            XamlType::Literal(l) => walk_literal_value(evs, w, Some(l)),
            _ => Err((w, XamlErrorKind::InvalidContentValue(p))),
        },
        Some(_) => Err((w, XamlErrorKind::UnsupportedFeature)),
    };
    match got {
        Err(e) => Err(e),
        Ok((w2, (v, raw))) => if ev_at(evs, w.pos) == Some(XmlEv::EndElement) {
            proof {
                lemma_skip_from(evs, w.pos + 1);
            }
            Ok(if skip_end { advance(evs, w) } else { w })
        } else {
            match record_value(x, evs, w2, t, obj, p, v, raw) {
                Err(e) => Err(e),
                Ok(w3) => if w.pos < w3.pos <= evs.len() {
                    walk_values(x, evs, w3, t, obj, p, Some(v), skip_end)
                } else {
                    Err((w3, XamlErrorKind::UnsupportedFeature))
                },
            }
        },
    }
}

/// The whole walk: the document start, the root element, the document end.
pub open spec fn walk_spec(x: Xaml, evs: Seq<XmlEv>) -> Result<(WalkV, Value), (WalkV, XamlErrorKind)> {
    let w0 = WalkV { pos: 0, obj_n: 0, ops: Seq::empty(), names: Seq::empty() };
    match ev_at(evs, 0) {
        None => Err((w0, XamlErrorKind::Xml)),
        Some(XmlEv::StartDocument) => match walk_element(x, evs, advance(evs, w0), None, None) {
            Err(e) => Err(e),
            Ok((w2, v)) => match ev_at(evs, w2.pos) {
                Some(XmlEv::EndDocument) => Ok((w2, v)),
                None => Err((w2, XamlErrorKind::Xml)),
                Some(_) => Err((w2, XamlErrorKind::MultipleRoots)),
            },
        },
        Some(_) => Err((w0, XamlErrorKind::NotDocument)),
    }
}


fn skip_exec(evs: &Vec<XmlEv>, p: usize) -> (r: usize)
    requires
        p <= evs@.len(),
    ensures
        r == skip_from(evs@, p as int),
        p <= r <= evs@.len(),
{
    let mut q = p;
    while q < evs.len() && matches!(evs[q], XmlEv::Whitespace(_))
        invariant
            p <= q <= evs@.len(),
            skip_from(evs@, p as int) == skip_from(evs@, q as int),
        decreases evs@.len() - q,
    {
        q = q + 1;
    }
    q
}

fn advance_exec(evs: &Vec<XmlEv>, w: Walk) -> (r: Walk)
    requires
        w.pos < evs@.len(),
    ensures
        r@ == advance(evs@, w@),
        w.pos < r.pos <= evs@.len(),
{
    let n = evs.len();
    assert(w.pos < n);
    let p = skip_exec(evs, w.pos + 1);
    Walk { pos: p, ..w }
}

fn name_of(n: &XmlName) -> (r: Vec<char>)
    ensures
        r@ == full_name(*n),
{
    match &n.0 {
        Some(ns) => element_name(Some(ns.as_str()), n.1.as_str()),
        None => element_name(None, n.1.as_str()),
    }
}

fn text_is_empty(evs: &Vec<XmlEv>, t: Text) -> (r: bool)
    ensures
        r == (text_of(evs@, t).len() == 0),
{
    match t {
        Text::Event(i) => {
            if i >= evs.len() {
                return true;
            }
            match &evs[i] {
                XmlEv::Characters(s) => s.as_str().is_empty(),
                XmlEv::Whitespace(s) => s.as_str().is_empty(),
                _ => true,
            }
        },
        Text::Attr(i, j) => {
            if i >= evs.len() {
                return true;
            }
            match &evs[i] {
                XmlEv::StartElement(_, attributes) => {
                    if j < attributes.len() {
                        attributes[j].1.as_str().is_empty()
                    } else {
                        true
                    }
                },
                _ => true,
            }
        },
        Text::Empty => true,
    }
}

fn walk_literal_value_exec(evs: &Vec<XmlEv>, w: Walk, ty: Option<XamlLiteral>) -> (r: Result<(Walk, (Value, Text)), (Walk, XamlErrorKind)>)
    ensures
        res_v(r) == walk_literal_value(evs@, w@, ty),
{
    if w.pos >= evs.len() {
        return Err((w, XamlErrorKind::Xml));
    }
    let at = w.pos;
    let (w1, text) = match &evs[at] {
        XmlEv::Characters(_) => (advance_exec(evs, w), Text::Event(at)),
        XmlEv::Whitespace(_) => (advance_exec(evs, w), Text::Event(at)),
        XmlEv::EndElement => (w, Text::Empty),
        _ => {
            return Err((w, XamlErrorKind::UnsupportedFeature));
        },
    };
    match ty {
        Some(l) => {
            let mut w1 = w1;
            w1.ops.push(Op::Check { ty: l, text });
            Ok((w1, (Value::Literal(l, text), text)))
        },
        None => Ok((w1, (Value::Empty, text))),
    }
}

fn walk_literal_element_exec(evs: &Vec<XmlEv>, w: Walk, ty: Option<XamlLiteral>, attributes: &Vec<XmlAttr>) -> (r: Result<(Walk, Value), (Walk, XamlErrorKind)>)
    requires
        w.pos < evs@.len(),
    ensures
        res_v(r) == walk_literal_element(evs@, w@, ty, attributes@),
{
    if attributes.len() > 0 {
        let at = w.pos;
        return Err((w, XamlErrorKind::UnexpectedAttribute(at, 0)));
    }
    let w1 = advance_exec(evs, w);
    match walk_literal_value_exec(evs, w1, ty) {
        Err(e) => Err(e),
        Ok((w2, (v, _))) => {
            if w2.pos >= evs.len() {
                return Err((w2, XamlErrorKind::Xml));
            }
            if matches!(evs[w2.pos], XmlEv::EndElement) {
                Ok((advance_exec(evs, w2), v))
            } else {
                Err((w2, XamlErrorKind::UnsupportedFeature))
            }
        },
    }
}

fn attr_value_exec(ty: XamlType, text: Text) -> (r: Value)
    ensures
        r == attr_value(ty, text),
{
    match ty {
        XamlType::Struct(_) => Value::Invalid,
        XamlType::Literal(l) => Value::Literal(l, text),
        XamlType::Ref => Value::Name(text),
    }
}

fn walk_attrs_exec(x: &Xaml, evs: &Vec<XmlEv>, w: Walk, t: XamlStruct, obj: u16, at: usize, attributes: &Vec<XmlAttr>, i: usize)
    -> (r: Result<(Walk, ()), (Walk, XamlErrorKind)>)
    requires
        x.wf(),
        t.0 < x.struct_count(),
    ensures
        match (r, walk_attrs(*x, evs@, w@, t, obj, at, attributes@, i as int)) {
            (Ok((w2, _)), Ok(v2)) => w2@ == v2,
            (Err((w2, e)), Err((v2, e2))) => w2@ == v2 && e == e2,
            _ => false,
        },
    decreases attributes@.len() - i,
{
    if i >= attributes.len() {
        return Ok((w, ()));
    }
    let a = &attributes[i];
    let an = name_of(&a.0);
    let ans = chars_to_string(an.as_slice());
    proof {
        lemma_find_property_registered(*x, t.0, ans@);
    }
    match t.property(x, ans.as_str()) {
        None => Err((w, XamlErrorKind::UnknownAttributeProperty(at, i))),
        Some(p) => {
            let text = Text::Attr(at, i);
            let value = attr_value_exec(p.ty(x), text);
            let mut w1 = w;
            w1.ops.push(Op::Assign { property: p, obj, value, attr: Some((at, i)) });
            let np = t.name_property(x);
            let is_name = match np {
                Some(q) => q.0 == p.0,
                None => false,
            };
            if is_name {
                if a.1.as_str().is_empty() {
                    Err((w1, XamlErrorKind::EmptyName))
                } else {
                    w1.names.push((text, obj));
                    walk_attrs_exec(x, evs, w1, t, obj, at, attributes, i + 1)
                }
            } else {
                walk_attrs_exec(x, evs, w1, t, obj, at, attributes, i + 1)
            }
        },
    }
}

fn walk_element_exec(x: &Xaml, evs: &Vec<XmlEv>, w: Walk, parent: Option<(u16, XamlProperty)>, prev: Option<Value>)
    -> (r: Result<(Walk, Value), (Walk, XamlErrorKind)>)
    requires
        x.wf(),
    ensures
        res_v(r) == walk_element(*x, evs@, w@, parent, prev),
    decreases evs@.len() - w.pos, 1int,
{
    if w.pos >= evs.len() {
        return Err((w, XamlErrorKind::Xml));
    }
    let at = w.pos;
    match &evs[at] {
        XmlEv::StartElement(name, attributes) => {
            let n = name_of(name);
            let ns = chars_to_string(n.as_slice());
            match x.ty(ns.as_str()) {
                None => Err((w, XamlErrorKind::UnknownType(at))),
                Some(XamlType::Ref) => walk_literal_element_exec(evs, w, None, attributes),
                Some(XamlType::Literal(l)) => walk_literal_element_exec(evs, w, Some(l), attributes),
                Some(XamlType::Struct(t)) => {
                    proof {
                        x.lemma_refs();
                    }
                    walk_struct_exec(x, evs, w, t, attributes, parent, prev)
                },
            }
        },
        _ => Err((w, XamlErrorKind::ElementStartExpected)),
    }
}

fn walk_struct_exec(x: &Xaml, evs: &Vec<XmlEv>, w: Walk, t: XamlStruct, attributes: &Vec<XmlAttr>,
    parent: Option<(u16, XamlProperty)>, prev: Option<Value>) -> (r: Result<(Walk, Value), (Walk, XamlErrorKind)>)
    requires
        x.wf(),
        t.0 < x.struct_count(),
    ensures
        res_v(r) == walk_struct(*x, evs@, w@, t, attributes@, parent, prev),
    decreases evs@.len() - w.pos, 0int,
{
    if w.obj_n == u16::MAX {
        return Err((w, XamlErrorKind::TooManyObjects));
    }
    if w.pos >= evs.len() {
        return Err((w, XamlErrorKind::Xml));
    }
    let at = w.pos;
    let obj = w.obj_n + 1;
    let mut w1 = w;
    w1.obj_n = obj;
    w1.ops.push(Op::Create { obj, ty: t, parent, prev });
    match walk_attrs_exec(x, evs, w1, t, obj, at, attributes, 0) {
        Err((w2, e)) => Err((w2, e)),
        Ok((w2, _)) => {
            let w2p = Walk { pos: at, ..w2 };
            let w3 = advance_exec(evs, w2p);
            match walk_children_exec(x, evs, w3, t, obj) {
                Err(e) => Err(e),
                Ok((w4, _)) => Ok((w4, Value::Obj(obj))),
            }
        },
    }
}

fn walk_children_exec(x: &Xaml, evs: &Vec<XmlEv>, w: Walk, t: XamlStruct, obj: u16) -> (r: Result<(Walk, ()), (Walk, XamlErrorKind)>)
    requires
        x.wf(),
        t.0 < x.struct_count(),
    ensures
        match (r, walk_children(*x, evs@, w@, t, obj)) {
            (Ok((w2, _)), Ok(v2)) => w2@ == v2,
            (Err((w2, e)), Err((v2, e2))) => w2@ == v2 && e == e2,
            _ => false,
        },
    decreases evs@.len() - w.pos, 4int,
{
    if w.pos >= evs.len() {
        return Err((w, XamlErrorKind::Xml));
    }
    let at = w.pos;
    match &evs[at] {
        XmlEv::EndElement => Ok((advance_exec(evs, w), ())),
        XmlEv::StartElement(..) => {
            match walk_property_exec(x, evs, w, t, obj) {
                Err(e) => Err(e),
                Ok((w2, _)) => {
                    if at < w2.pos && w2.pos <= evs.len() {
                        walk_children_exec(x, evs, w2, t, obj)
                    } else {
                        Err((w2, XamlErrorKind::UnsupportedFeature))
                    }
                },
            }
        },
        XmlEv::Whitespace(_) => {
            let w1 = advance_exec(evs, w);
            walk_children_exec(x, evs, w1, t, obj)
        },
        _ => Err((w, XamlErrorKind::UnsupportedFeature)),
    }
}

fn walk_property_exec(x: &Xaml, evs: &Vec<XmlEv>, w: Walk, t: XamlStruct, obj: u16) -> (r: Result<(Walk, ()), (Walk, XamlErrorKind)>)
    requires
        x.wf(),
        t.0 < x.struct_count(),
    ensures
        match (r, walk_property(*x, evs@, w@, t, obj)) {
            (Ok((w2, _)), Ok(v2)) => w2@ == v2,
            (Err((w2, e)), Err((v2, e2))) => w2@ == v2 && e == e2,
            _ => false,
        },
    decreases evs@.len() - w.pos, 3int,
{
    if w.pos >= evs.len() {
        return Err((w, XamlErrorKind::ElementStartExpected));
    }
    let at = w.pos;
    match &evs[at] {
        XmlEv::StartElement(name, attributes) => {
            let n = name_of(name);
            match property_element(&n, t.name(x)) {
                Some(pn) => {
                    let w1 = advance_exec(evs, w);
                    let pns = chars_to_string(pn.as_slice());
                    proof {
                        lemma_find_property_registered(*x, t.0, pns@);
                    }
                    match t.property(x, pns.as_str()) {
                        None => Err((w1, XamlErrorKind::UnknownElementProperty(at, t))),
                        Some(p) => {
                            if attributes.len() > 0 {
                                Err((w1, XamlErrorKind::UnexpectedAttribute(at, 0)))
                            } else {
                                walk_values_exec(x, evs, w1, t, obj, p, None, true)
                            }
                        },
                    }
                },
                None => {
                    proof {
                        lemma_find_special_registered(*x, t.0, false);
                    }
                    match t.content_property(x) {
                        None => Err((w, XamlErrorKind::NoContentProperty)),
                        Some(p) => walk_values_exec(x, evs, w, t, obj, p, None, false),
                    }
                },
            }
        },
        _ => Err((w, XamlErrorKind::ElementStartExpected)),
    }
}

fn record_value_exec(x: &Xaml, evs: &Vec<XmlEv>, w: Walk, t: XamlStruct, obj: u16, p: XamlProperty, v: Value, raw: Text)
    -> (r: Result<(Walk, ()), (Walk, XamlErrorKind)>)
    requires
        x.wf(),
        t.0 < x.struct_count(),
    ensures
        match (r, record_value(*x, evs@, w@, t, obj, p, v, raw)) {
            (Ok((w2, _)), Ok(v2)) => w2@ == v2,
            (Err((w2, e)), Err((v2, e2))) => w2@ == v2 && e == e2,
            _ => false,
        },
{
    let mut w1 = w;
    w1.ops.push(Op::Assign { property: p, obj, value: v, attr: None });
    let is_name = match t.name_property(x) {
        Some(q) => q.0 == p.0,
        None => false,
    };
    if is_name {
        if text_is_empty(evs, raw) {
            Err((w1, XamlErrorKind::EmptyName))
        } else {
            w1.names.push((raw, obj));
            Ok((w1, ()))
        }
    } else {
        Ok((w1, ()))
    }
}

fn walk_values_exec(x: &Xaml, evs: &Vec<XmlEv>, w: Walk, t: XamlStruct, obj: u16, p: XamlProperty,
    prev: Option<Value>, skip_end: bool) -> (r: Result<(Walk, ()), (Walk, XamlErrorKind)>)
    requires
        x.wf(),
        t.0 < x.struct_count(),
        p.0 < x.property_count(),
    ensures
        match (r, walk_values(*x, evs@, w@, t, obj, p, prev, skip_end)) {
            (Ok((w2, _)), Ok(v2)) => w2@ == v2,
            (Err((w2, e)), Err((v2, e2))) => w2@ == v2 && e == e2,
            _ => false,
        },
    decreases evs@.len() - w.pos, 2int,
{
    if w.pos >= evs.len() {
        return Err((w, XamlErrorKind::Xml));
    }
    let at = w.pos;
    let got = match &evs[at] {
        XmlEv::EndElement => {
            return Ok((if skip_end { advance_exec(evs, w) } else { w }, ()));
        },
        XmlEv::StartElement(..) => match walk_element_exec(x, evs, w, Some((obj, p)), prev) {
            Err(e) => Err(e),
            Ok((w2, v)) => Ok((w2, (v, Text::Empty))),
        },
        XmlEv::Characters(_) | XmlEv::Whitespace(_) => match p.ty(x) {
            XamlType::Literal(l) => walk_literal_value_exec(evs, w, Some(l)),
            _ => Err((w, XamlErrorKind::InvalidContentValue(p))),
        },
        _ => Err((w, XamlErrorKind::UnsupportedFeature)),
    };
    match got {
        Err(e) => Err(e),
        Ok((w2, (v, raw))) => {
            match record_value_exec(x, evs, w2, t, obj, p, v, raw) {
                Err(e) => Err(e),
                Ok((w3, _)) => {
                    if at < w3.pos && w3.pos <= evs.len() {
                        walk_values_exec(x, evs, w3, t, obj, p, Some(v), skip_end)
                    } else {
                        Err((w3, XamlErrorKind::UnsupportedFeature))
                    }
                },
            }
        },
    }
}

/// What a markup file makes: the steps in document order, the names in the
/// order they were given (a later one for the same text wins), the root
/// value, and the error the walk stopped on (the steps then go up to it).
pub struct Plan {
    pub ops: Vec<Op>,
    pub names: Vec<(Text, u16)>,
    pub root: Option<Value>,
    pub error: Option<XamlErrorKind>,
}

/// The plan is what the walk gives.
pub open spec fn plan_is(r: Plan, w: Result<(WalkV, Value), (WalkV, XamlErrorKind)>) -> bool {
    match w {
        Ok((v, root)) => r.ops@ == v.ops && r.names@ == v.names && r.root == Some(root) && r.error is None,
        Err((v, e)) => r.ops@ == v.ops && r.names@ == v.names && r.root is None && r.error == Some(e),
    }
}

/// Walks the events of a markup file with the registry `xaml`.
pub fn preprocess_events(xaml: &Xaml, events: &Vec<XmlEv>) -> (r: Plan)
    requires
        xaml.wf(),
    ensures
        plan_is(r, walk_spec(*xaml, events@)),
{
    let w0 = Walk { pos: 0, obj_n: 0, ops: Vec::new(), names: Vec::new() };
    proof {
        assert(w0@ == (WalkV { pos: 0, obj_n: 0, ops: Seq::empty(), names: Seq::empty() }));
    }
    if events.len() == 0 {
        return Plan { ops: w0.ops, names: w0.names, root: None, error: Some(XamlErrorKind::Xml) };
    }
    if !matches!(events[0], XmlEv::StartDocument) {
        return Plan { ops: w0.ops, names: w0.names, root: None, error: Some(XamlErrorKind::NotDocument) };
    }
    let w1 = advance_exec(events, w0);
    match walk_element_exec(xaml, events, w1, None, None) {
        Err((w2, e)) => Plan { ops: w2.ops, names: w2.names, root: None, error: Some(e) },
        Ok((w2, v)) => {
            if w2.pos >= events.len() {
                Plan { ops: w2.ops, names: w2.names, root: None, error: Some(XamlErrorKind::Xml) }
            } else if matches!(events[w2.pos], XmlEv::EndDocument) {
                Plan { ops: w2.ops, names: w2.names, root: Some(v), error: None }
            } else {
                Plan { ops: w2.ops, names: w2.names, root: None, error: Some(XamlErrorKind::MultipleRoots) }
            }
        },
    }
}

/// Reads a markup file from its bytes with the `xml` crate's reader and
/// walks its events: the events, and the plan.  A reader error stops the
/// walk where the events end, as an [`XamlErrorKind::Xml`] error.
pub fn preprocess_xaml_bytes(xaml: &Xaml, bytes: &[u8]) -> (r: (Vec<XmlEv>, Plan))
    requires
        xaml.wf(),
    ensures
        r.0@ == xml_events_of(bytes@).0,
        plan_is(r.1, walk_spec(*xaml, r.0@)),
{
    let (events, _failed) = read_xml(bytes);
    let plan = preprocess_events(xaml, &events);
    (events, plan)
}

} // verus!
