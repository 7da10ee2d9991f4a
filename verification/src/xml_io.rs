//! Reading and writing XML text, by the `xml` crate.
//!
//! Everything in this file is trusted: the contracts say what the `xml` crate
//! does, and nothing here is proved. The parser and the emitter are named,
//! not described: [`xml_events`] is what the parser reads from a text and
//! [`xml_text`] what the emitter writes for a list of events.

use vstd::prelude::*;
use xml::reader::XmlEvent as Raw;
use crate::events::{
    events_view, Attribute, Event, EventView, NamespaceBinding, QName, Version,
};

verus! {

/// An event as the `xml` crate holds it; nothing is known of its content.
#[verifier::external_type_specification]
#[verifier::external_body]
pub struct ExReaderEvent(xml::reader::XmlEvent);

/// A qualified name as the `xml` crate holds it.
#[verifier::external_type_specification]
#[verifier::external_body]
pub struct ExName(xml::name::OwnedName);

/// An attribute as the `xml` crate holds it.
#[verifier::external_type_specification]
#[verifier::external_body]
pub struct ExAttribute(xml::attribute::OwnedAttribute);

/// A namespace mapping as the `xml` crate holds it.
#[verifier::external_type_specification]
#[verifier::external_body]
pub struct ExNamespace(xml::namespace::Namespace);

/// An XML version as the `xml` crate holds it.
#[verifier::external_type_specification]
#[verifier::external_body]
pub struct ExVersion(xml::common::XmlVersion);

/// The events that `xml::EventReader` reads from a text with its default
/// configuration: all of them up to and including the end of the document,
/// or, where the text is not well-formed, those before the first error.
pub uninterp spec fn xml_events(bytes: Seq<u8>) -> Seq<EventView>;

/// The text that `xml::EventWriter`, set to indent, writes for a list of
/// events, each handed to it as `xml::reader::XmlEvent::as_writer_event` gives
/// it; nothing where the writer refuses one of them.
pub uninterp spec fn xml_text(events: Seq<EventView>) -> Option<Seq<u8>>;

/// Moves the fields of an `xml::name::OwnedName` into a name of this crate.
#[verifier::external_body]
fn name_from_xml(name: xml::name::OwnedName) -> QName {
    QName { local_name: name.local_name, namespace: name.namespace, prefix: name.prefix }
}

/// Moves the fields of each `xml::attribute::OwnedAttribute` into an
/// attribute of this crate, in order.
#[verifier::external_body]
fn attributes_from_xml(attributes: Vec<xml::attribute::OwnedAttribute>) -> Vec<Attribute> {
    attributes.into_iter().map(|a| Attribute { name: name_from_xml(a.name), value: a.value }).collect()
}

/// Lists the bindings of an `xml::namespace::Namespace`, in the order of
/// their prefixes.
#[verifier::external_body]
fn namespace_from_xml(namespace: xml::namespace::Namespace) -> Vec<NamespaceBinding> {
    namespace.0.into_iter().map(|(prefix, uri)| NamespaceBinding { prefix, uri }).collect()
}

/// Tells the variants of `xml::common::XmlVersion` apart.
#[verifier::external_body]
fn version_from_xml(version: xml::common::XmlVersion) -> Version {
    match version {
        xml::common::XmlVersion::Version10 => Version::Version10,
        xml::common::XmlVersion::Version11 => Version::Version11,
    }
}

/// Moves the fields of an `xml::reader::XmlEvent` into an event of this
/// crate, variant by variant.
#[verifier::external_body]
fn event_from_xml(event: xml::reader::XmlEvent) -> Event {
    match event {
        Raw::StartDocument { version, encoding, standalone } => Event::StartDocument { version: version_from_xml(version), encoding, standalone },
        Raw::EndDocument => Event::EndDocument,
        Raw::ProcessingInstruction { name, data } => Event::ProcessingInstruction { name, data },
        Raw::StartElement { name, attributes, namespace } => Event::StartElement { name: name_from_xml(name), attributes: attributes_from_xml(attributes), namespace: namespace_from_xml(namespace) },
        Raw::EndElement { name } => Event::EndElement { name: name_from_xml(name) },
        Raw::CData(s) => Event::CData(s),
        Raw::Comment(s) => Event::Comment(s),
        Raw::Characters(s) => Event::Characters(s),
        Raw::Whitespace(s) => Event::Whitespace(s),
    }
}

/// Runs `xml::EventReader` over `bytes` and lists the events it reads, up to
/// and including the end of the document or up to the first error.
#[verifier::external_body]
pub(crate) fn read_events(bytes: &[u8]) -> (events: Vec<Event>)
    ensures
        events_view(events@) == xml_events(bytes@),
{
    xml::EventReader::new(bytes).into_iter().map_while(|e| e.ok()).map(event_from_xml).collect()
}

/// Moves the fields of a name of this crate into an `xml::name::OwnedName`.
#[verifier::external_body]
fn name_to_xml(name: QName) -> xml::name::OwnedName {
    xml::name::OwnedName { local_name: name.local_name, namespace: name.namespace, prefix: name.prefix }
}

/// Moves the fields of each attribute of this crate into an
/// `xml::attribute::OwnedAttribute`, in order.
#[verifier::external_body]
fn attributes_to_xml(attributes: Vec<Attribute>) -> Vec<xml::attribute::OwnedAttribute> {
    attributes.into_iter().map(|a| xml::attribute::OwnedAttribute { name: name_to_xml(a.name), value: a.value }).collect()
}

/// Collects bindings into an `xml::namespace::Namespace`.
#[verifier::external_body]
fn namespace_to_xml(namespace: Vec<NamespaceBinding>) -> xml::namespace::Namespace {
    xml::namespace::Namespace(namespace.into_iter().map(|b| (b.prefix, b.uri)).collect())
}

/// Tells the variants of the version apart.
#[verifier::external_body]
fn version_to_xml(version: Version) -> xml::common::XmlVersion {
    match version {
        Version::Version10 => xml::common::XmlVersion::Version10,
        Version::Version11 => xml::common::XmlVersion::Version11,
    }
}

/// Moves the fields of an event of this crate into an
/// `xml::reader::XmlEvent`, variant by variant.
#[verifier::external_body]
fn event_to_xml(event: Event) -> xml::reader::XmlEvent {
    match event {
        Event::StartDocument { version, encoding, standalone } => Raw::StartDocument { version: version_to_xml(version), encoding, standalone },
        Event::EndDocument => Raw::EndDocument,
        Event::ProcessingInstruction { name, data } => Raw::ProcessingInstruction { name, data },
        Event::StartElement { name, attributes, namespace } => Raw::StartElement { name: name_to_xml(name), attributes: attributes_to_xml(attributes), namespace: namespace_to_xml(namespace) },
        Event::EndElement { name } => Raw::EndElement { name: name_to_xml(name) },
        Event::CData(s) => Raw::CData(s),
        Event::Comment(s) => Raw::Comment(s),
        Event::Characters(s) => Raw::Characters(s),
        Event::Whitespace(s) => Raw::Whitespace(s),
    }
}

/// Hands each event to an `xml::EventWriter` that indents, and returns what
/// it wrote; nothing where the writer refused an event.
#[verifier::external_body]
pub(crate) fn write_events(events: Vec<Event>) -> (text: Option<Vec<u8>>)
    ensures
        match text {
            Some(text) => xml_text(events_view(events@)) == Some(text@),
            None => xml_text(events_view(events@)) is None,
        },
{
    let config = xml::EmitterConfig::new().perform_indent(true);
    let mut writer = xml::EventWriter::new_with_config(Vec::new(), config);
    for event in events {
        if let Some(e) = event_to_xml(event).as_writer_event() {
            writer.write(e).ok()?;
        }
    }
    Some(writer.into_inner())
}

} // verus!
