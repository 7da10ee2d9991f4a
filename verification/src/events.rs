//! The XML event model: the events of a document as plain values.
//!
//! An [`Event`] holds everything an event of an XML pull parser carries, so
//! that events can be inspected, stored, synthesised and written back
//! unchanged. Each type has a view over `Seq<char>`, over which the contracts
//! of the crate are stated.

use vstd::prelude::*;
use crate::text::str_eq;

verus! {

/// The XML version of a document declaration.
#[derive(Debug, PartialEq, Eq, Clone, Copy)]
pub enum Version {
    Version10,
    Version11,
}

/// A qualified name: a local name with an optional namespace URI and prefix.
#[derive(Debug, PartialEq, Eq)]
pub struct QName {
    pub local_name: String,
    pub namespace: Option<String>,
    pub prefix: Option<String>,
}

/// The view of an [`QName`].
pub struct QNameView {
    pub local_name: Seq<char>,
    pub namespace: Option<Seq<char>>,
    pub prefix: Option<Seq<char>>,
}

/// The characters of an optional string.
pub open spec fn opt_view(s: Option<String>) -> Option<Seq<char>> {
    match s {
        Some(s) => Some(s@),
        None => None,
    }
}

impl View for QName {
    type V = QNameView;

    open spec fn view(&self) -> QNameView {
        QNameView {
            local_name: self.local_name@,
            namespace: opt_view(self.namespace),
            prefix: opt_view(self.prefix),
        }
    }
}

impl Clone for QName {
    fn clone(&self) -> (res: Self)
        ensures
            res@ == self@,
    {
        QName {
            local_name: self.local_name.clone(),
            namespace: clone_opt_string(&self.namespace),
            prefix: clone_opt_string(&self.prefix),
        }
    }
}

impl QName {
    /// A name without namespace or prefix.
    pub fn local(local_name: &str) -> (res: Self)
        ensures
            res@ == (QNameView { local_name: local_name@, namespace: None, prefix: None }),
    {
        QName { local_name: local_name.to_owned(), namespace: None, prefix: None }
    }
}

/// Copies an optional string.
pub fn clone_opt_string(s: &Option<String>) -> (res: Option<String>)
    ensures
        opt_view(res) == opt_view(*s),
        res == *s,
{
    match s {
        Some(s) => Some(s.clone()),
        None => None,
    }
}

/// An attribute of an element: a qualified name and a value.
#[derive(Debug, PartialEq, Eq)]
pub struct Attribute {
    pub name: QName,
    pub value: String,
}

/// The view of an [`Attribute`].
pub struct AttributeView {
    pub name: QNameView,
    pub value: Seq<char>,
}

impl View for Attribute {
    type V = AttributeView;

    open spec fn view(&self) -> AttributeView {
        AttributeView { name: self.name@, value: self.value@ }
    }
}

impl Clone for Attribute {
    fn clone(&self) -> (res: Self)
        ensures
            res@ == self@,
    {
        Attribute { name: self.name.clone(), value: self.value.clone() }
    }
}

/// One binding of a namespace mapping: a prefix and the URI it stands for.
#[derive(Debug, PartialEq, Eq)]
pub struct NamespaceBinding {
    pub prefix: String,
    pub uri: String,
}

impl View for NamespaceBinding {
    type V = (Seq<char>, Seq<char>);

    open spec fn view(&self) -> (Seq<char>, Seq<char>) {
        (self.prefix@, self.uri@)
    }
}

impl Clone for NamespaceBinding {
    fn clone(&self) -> (res: Self)
        ensures
            res@ == self@,
    {
        NamespaceBinding { prefix: self.prefix.clone(), uri: self.uri.clone() }
    }
}

/// The views of a list of attributes.
pub open spec fn attributes_view(s: Seq<Attribute>) -> Seq<AttributeView> {
    s.map_values(|a: Attribute| a@)
}

/// The views of a namespace mapping.
pub open spec fn namespace_view(s: Seq<NamespaceBinding>) -> Seq<(Seq<char>, Seq<char>)> {
    s.map_values(|b: NamespaceBinding| b@)
}

/// One event of an XML document, in document order.
#[derive(Debug, PartialEq, Eq)]
#[allow(inconsistent_fields)]
pub enum Event {
    /// The document declaration; reported even where the document has none.
    StartDocument { version: Version, encoding: String, standalone: Option<bool> },
    /// The end of the document.
    EndDocument,
    /// A processing instruction.
    ProcessingInstruction { name: String, data: Option<String> },
    /// An opening tag, with the namespace mapping in force at that point.
    StartElement { name: QName, attributes: Vec<Attribute>, namespace: Vec<NamespaceBinding> },
    /// A closing tag.
    EndElement { name: QName },
    /// A CDATA section.
    CData(String),
    /// A comment.
    Comment(String),
    /// Character data.
    Characters(String),
    /// Whitespace between tags.
    Whitespace(String),
}

/// The view of an [`Event`].
#[allow(inconsistent_fields)]
pub enum EventView {
    StartDocument { version: Version, encoding: Seq<char>, standalone: Option<bool> },
    EndDocument,
    ProcessingInstruction { name: Seq<char>, data: Option<Seq<char>> },
    StartElement {
        name: QNameView,
        attributes: Seq<AttributeView>,
        namespace: Seq<(Seq<char>, Seq<char>)>,
    },
    EndElement { name: QNameView },
    CData(Seq<char>),
    Comment(Seq<char>),
    Characters(Seq<char>),
    Whitespace(Seq<char>),
}

impl View for Event {
    type V = EventView;

    open spec fn view(&self) -> EventView {
        match *self {
            Event::StartDocument { version, encoding, standalone } => EventView::StartDocument {
                version,
                encoding: encoding@,
                standalone,
            },
            Event::EndDocument => EventView::EndDocument,
            Event::ProcessingInstruction { name, data } => EventView::ProcessingInstruction {
                name: name@,
                data: opt_view(data),
            },
            Event::StartElement { name, attributes, namespace } => EventView::StartElement {
                name: name@,
                attributes: attributes_view(attributes@),
                namespace: namespace_view(namespace@),
            },
            Event::EndElement { name } => EventView::EndElement { name: name@ },
            Event::CData(s) => EventView::CData(s@),
            Event::Comment(s) => EventView::Comment(s@),
            Event::Characters(s) => EventView::Characters(s@),
            Event::Whitespace(s) => EventView::Whitespace(s@),
        }
    }
}

impl EventView {
    /// Whether the event opens an element with this local name.
    pub open spec fn opens(self, local_name: Seq<char>) -> bool {
        self matches EventView::StartElement { name, .. } && name.local_name == local_name
    }

    /// Whether the event closes an element with this local name.
    pub open spec fn closes(self, local_name: Seq<char>) -> bool {
        self matches EventView::EndElement { name } && name.local_name == local_name
    }
}

/// The views of a list of events.
pub open spec fn events_view(s: Seq<Event>) -> Seq<EventView> {
    s.map_values(|e: Event| e@)
}

/// The views of a list of fragments, each a list of events.
pub open spec fn fragments_view(s: Seq<Vec<Event>>) -> Seq<Seq<EventView>> {
    s.map_values(|f: Vec<Event>| events_view(f@))
}

/// Copies a list of attributes.
pub fn clone_attributes(v: &Vec<Attribute>) -> (res: Vec<Attribute>)
    ensures
        attributes_view(res@) == attributes_view(v@),
{
    let mut res: Vec<Attribute> = Vec::new();
    let mut i: usize = 0;
    while i < v.len()
        invariant
            i <= v.len(),
            attributes_view(res@) == attributes_view(v@.take(i as int)),
        decreases v.len() - i,
    {
        let ghost before = res@;
        let item = v[i].clone();
        res.push(item);
        proof {
            assert(v@.take(i + 1) == v@.take(i as int).push(v@[i as int]));
            assert(attributes_view(before.push(item)) =~= attributes_view(before).push(item@));
            assert(attributes_view(v@.take(i as int).push(v@[i as int])) =~= attributes_view(
                v@.take(i as int),
            ).push(v@[i as int]@));
        }
        i += 1;
    }
    proof {
        assert(v@.take(v.len() as int) == v@);
    }
    res
}

/// Copies a namespace mapping.
pub fn clone_namespace(v: &Vec<NamespaceBinding>) -> (res: Vec<NamespaceBinding>)
    ensures
        namespace_view(res@) == namespace_view(v@),
{
    let mut res: Vec<NamespaceBinding> = Vec::new();
    let mut i: usize = 0;
    while i < v.len()
        invariant
            i <= v.len(),
            namespace_view(res@) == namespace_view(v@.take(i as int)),
        decreases v.len() - i,
    {
        let ghost before = res@;
        let item = v[i].clone();
        res.push(item);
        proof {
            assert(v@.take(i + 1) == v@.take(i as int).push(v@[i as int]));
            assert(namespace_view(before.push(item)) =~= namespace_view(before).push(item@));
            assert(namespace_view(v@.take(i as int).push(v@[i as int])) =~= namespace_view(
                v@.take(i as int),
            ).push(v@[i as int]@));
        }
        i += 1;
    }
    proof {
        assert(v@.take(v.len() as int) == v@);
    }
    res
}

impl Clone for Event {
    fn clone(&self) -> (res: Self)
        ensures
            res@ == self@,
    {
        match self {
            Event::StartDocument { version, encoding, standalone } => Event::StartDocument {
                version: *version,
                encoding: encoding.clone(),
                standalone: *standalone,
            },
            Event::EndDocument => Event::EndDocument,
            Event::ProcessingInstruction { name, data } => Event::ProcessingInstruction {
                name: name.clone(),
                data: clone_opt_string(data),
            },
            Event::StartElement { name, attributes, namespace } => Event::StartElement {
                name: name.clone(),
                attributes: clone_attributes(attributes),
                namespace: clone_namespace(namespace),
            },
            Event::EndElement { name } => Event::EndElement { name: name.clone() },
            Event::CData(s) => Event::CData(s.clone()),
            Event::Comment(s) => Event::Comment(s.clone()),
            Event::Characters(s) => Event::Characters(s.clone()),
            Event::Whitespace(s) => Event::Whitespace(s.clone()),
        }
    }
}

impl Event {
    /// Whether the event opens an element with this local name.
    pub fn opens(&self, local_name: &str) -> (res: bool)
        ensures
            res == self@.opens(local_name@),
    {
        match self {
            Event::StartElement { name, .. } => str_eq(name.local_name.as_str(), local_name),
            _ => false,
        }
    }

    /// Whether the event closes an element with this local name.
    pub fn closes(&self, local_name: &str) -> (res: bool)
        ensures
            res == self@.closes(local_name@),
    {
        match self {
            Event::EndElement { name } => str_eq(name.local_name.as_str(), local_name),
            _ => false,
        }
    }
}

} // verus!
