//! The markup event sequences that decoders consume.
//!
//! A document arrives as a flat, already-tokenized list of events
//! (element open, element close, text, whitespace). The tokenizer is an
//! outside collaborator; everything downstream of it is verified against
//! the event list it produced.

use vstd::prelude::*;
use xml::reader::EventReader;
use xml::reader::XmlEvent as RawEvent;

verus! {

/// One markup event.
#[derive(Debug)]
pub enum Event {
    /// An opening tag with its attribute list, in source order.
    StartElement { name: String, attributes: Vec<(String, String)> },
    /// A closing tag.
    EndElement { name: String },
    /// Character data between tags.
    Characters(String),
    /// Whitespace between tags.
    Whitespace(String),
    /// The document prologue.
    StartDocument,
    /// Any event the decoders have no use for (document end, CDATA,
    /// comments, processing instructions).
    Other,
}

/// The mathematical value of an [`Event`].
pub enum EventV {
    StartElement { name: Seq<char>, attributes: Seq<(Seq<char>, Seq<char>)> },
    EndElement { name: Seq<char> },
    Characters(Seq<char>),
    Whitespace(Seq<char>),
    StartDocument,
    Other,
}

impl DeepView for Event {
    type V = EventV;

    open spec fn deep_view(&self) -> EventV {
        match self {
            Event::StartElement { name, attributes } => EventV::StartElement {
                name: name@,
                attributes: attributes.deep_view(),
            },
            Event::EndElement { name } => EventV::EndElement { name: name@ },
            Event::Characters(s) => EventV::Characters(s@),
            Event::Whitespace(s) => EventV::Whitespace(s@),
            Event::StartDocument => EventV::StartDocument,
            Event::Other => EventV::Other,
        }
    }
}

/// Copies an attribute list.
fn clone_attrs(v: &Vec<(String, String)>) -> (r: Vec<(String, String)>)
    ensures
        r.deep_view() == v.deep_view(),
{
    let mut r: Vec<(String, String)> = Vec::new();
    let mut i: usize = 0;
    while i < v.len()
        invariant
            i <= v@.len(),
            r@.len() == i,
            forall|j: int|
                0 <= j < i ==> (#[trigger] r@[j]).0@ == v@[j].0@ && r@[j].1@ == v@[j].1@,
        decreases v@.len() - i,
    {
        let a = &v[i];
        r.push((a.0.clone(), a.1.clone()));
        i += 1;
    }
    proof {
        assert(r.deep_view() =~= v.deep_view());
    }
    r
}

impl Clone for Event {
    /// Copies the event; the copy has the same value.
    fn clone(&self) -> (r: Event)
        ensures
            r.deep_view() == self.deep_view(),
    {
        match self {
            Event::StartElement { name, attributes } => Event::StartElement {
                name: name.clone(),
                attributes: clone_attrs(attributes),
            },
            Event::EndElement { name } => Event::EndElement { name: name.clone() },
            Event::Characters(s) => Event::Characters(s.clone()),
            Event::Whitespace(s) => Event::Whitespace(s.clone()),
            Event::StartDocument => Event::StartDocument,
            Event::Other => Event::Other,
        }
    }
}

/// A tokenized document: the events up to the first tokenizer error, and
/// that error's message if one cut the stream short.
pub struct EventList {
    pub items: Vec<Event>,
    pub error: Option<String>,
}

/// The mathematical value of an [`EventList`].
pub struct EventListV {
    pub items: Seq<EventV>,
    pub error: Option<Seq<char>>,
}

impl DeepView for EventList {
    type V = EventListV;

    open spec fn deep_view(&self) -> EventListV {
        EventListV { items: self.items.deep_view(), error: self.error.deep_view() }
    }
}

/// The event list that tokenizing a document yields: a function of the
/// document text alone.
pub uninterp spec fn tokens_of(s: Seq<char>) -> EventListV;

#[verifier::external_type_specification]
#[verifier::external_body]
pub struct ExOwnedAttribute(xml::attribute::OwnedAttribute);

/// Relies on xml's `OwnedAttribute` fields: keeps each attribute's local
/// name and value, in order.
#[verifier::external_body]
fn conv_attrs(attrs: Vec<xml::attribute::OwnedAttribute>) -> Vec<(String, String)> {
    attrs.into_iter().map(|a| (a.name.local_name, a.value)).collect()
}

/// Relies on xml's `EventReader`: turns document text into the stream of
/// markup events, stopping at the first malformed construct.
#[verifier::external_body]
pub(crate) fn tokenize(xml: &str) -> (r: EventList)
    ensures
        r.deep_view() == tokens_of(xml@),
{
    let mut v = Vec::new();
    for e in EventReader::new(xml.as_bytes()) {
        let ev = match e {
            Ok(RawEvent::StartElement { name, attributes, .. }) => Event::StartElement { name: name.local_name, attributes: conv_attrs(attributes) },
            Ok(RawEvent::EndElement { name }) => Event::EndElement { name: name.local_name },
            Ok(RawEvent::Characters(s)) => Event::Characters(s),
            Ok(RawEvent::Whitespace(s)) => Event::Whitespace(s),
            Ok(RawEvent::StartDocument { .. }) => Event::StartDocument,
            Ok(_) => Event::Other,
            Err(e) => return EventList { items: v, error: Some(e.to_string()) },
        };
        v.push(ev);
    }
    EventList { items: v, error: None }
}

} // verus!
