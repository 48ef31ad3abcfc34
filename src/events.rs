//! XML documents as the stream of events that the extractor reads.
use vstd::prelude::*;

verus! {

/// An attribute of a start tag, by its local (namespace-free) name.
pub struct Attribute {
    pub name: String,
    pub value: String,
}

/// One event of a document, in document order.
pub enum Event {
    /// A start tag, by its local name, with its attributes.
    Start { name: String, attributes: Vec<Attribute> },
    /// Anything else the parser reports: text, end tags, the end of the document.
    Other,
    /// The document is not well-formed here; nothing follows.
    Fault,
}

/// The events that the XML parser reports for a document.
pub uninterp spec fn events_of(doc: Seq<u8>) -> Seq<Event>;

/// Relies on `xml::reader::EventReader` (xml-rs), iterated to the end: each
/// event it yields, in order, up to and including the first error. Start tags
/// keep the local names of the element and of its attributes.
#[verifier::external_body]
pub(crate) fn read_events(doc: &[u8]) -> (r: Vec<Event>)
    ensures
        r@ == events_of(doc@),
{
    xml::reader::EventReader::new(doc).into_iter().map(|e| match e {
        Ok(xml::reader::XmlEvent::StartElement { name, attributes, .. }) => Event::Start {
            name: name.local_name,
            attributes: attributes.into_iter().map(|a| Attribute {
                name: a.name.local_name,
                value: a.value,
            }).collect(),
        },
        Ok(_) => Event::Other,
        Err(_) => Event::Fault,
    }).collect()
}

} // verus!
