//! The event source: the XML tokenizer over the bytes of one document.

use crate::attribute::{Attribute, QualifiedName};
use crate::event::{well_terminated, EventView, FeedEvent};
use vstd::prelude::*;
use xml::attribute::OwnedAttribute;
use xml::name::OwnedName;
use xml::reader::{EventReader, XmlEvent};

verus! {

/// The events that an `xml::reader::EventReader` with its default
/// configuration yields for a document of these bytes, call by call, up to
/// and including the first end-of-document or error.
pub uninterp spec fn document_events(bytes: Seq<u8>) -> Seq<EventView>;

/// The events that the reader in `source` has yet to hand out, up to and
/// including the first end-of-document or error.
pub uninterp spec fn pending_events(source: &EventSource<'_>) -> Seq<EventView>;

/// An `xml::reader::EventReader` over the bytes of one document. The
/// reader's state is opaque here; `pending_events` stands for what it holds.
#[verifier::external_body]
pub struct EventSource<'a> {
    reader: EventReader<&'a [u8]>,
}

/// Calls `EventReader::new` on the bytes. Nothing is read yet, so all events
/// of the document are pending. They are finitely many, and the last, and
/// only the last, is an end-of-document or an error: the reader works
/// through the bytes, answers their end with one of the two, and repeats
/// that answer from then on.
#[verifier::external_body]
pub(crate) fn open_source<'a>(bytes: &'a [u8]) -> (source: EventSource<'a>)
    ensures
        pending_events(&source) == document_events(bytes@),
        well_terminated(pending_events(&source)),
{
    EventSource { reader: EventReader::new(bytes) }
}

/// Calls `EventReader::next` and hands out the event it returns: names and
/// attributes field by field, an error by its `{:#?}` text, and every kind
/// of event that the feed parser does not read as `Other`. The event is the
/// first of those pending, and the rest stay pending. Not to be called once
/// the end-of-document or the error has been handed out.
#[verifier::external_body]
pub(crate) fn next_event(source: &mut EventSource<'_>) -> (event: FeedEvent)
    requires
        pending_events(old(source)).len() > 0,
    ensures
        event@ == pending_events(old(source)).first(),
        pending_events(final(source)) == pending_events(old(source)).drop_first(),
{
    let name = |n: OwnedName| QualifiedName { local_name: n.local_name, prefix: n.prefix };
    let attribute = |a: OwnedAttribute| Attribute { name: name(a.name), value: a.value };
    match source.reader.next() {
        Ok(XmlEvent::StartElement { name: n, attributes, .. }) => FeedEvent::StartElement {
            name: name(n),
            attributes: attributes.into_iter().map(attribute).collect(),
        },
        Ok(XmlEvent::EndElement { name: n }) => FeedEvent::EndElement { name: name(n) },
        Ok(XmlEvent::CData(data)) => FeedEvent::CData(data),
        Ok(XmlEvent::Characters(data)) => FeedEvent::Characters(data),
        Ok(XmlEvent::EndDocument) => FeedEvent::EndDocument,
        Ok(_) => FeedEvent::Other,
        Err(e) => FeedEvent::Malformed(format!("{:#?}", e)),
    }
}

} // verus!
