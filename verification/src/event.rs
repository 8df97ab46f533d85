//! The parse events that drive the feed state machine.

use crate::attribute::{attribute_views, Attribute, AttributeView, NameView, QualifiedName};
use vstd::prelude::*;

verus! {

/// A parse event as plain text.
pub enum EventView {
    StartElement { name: NameView, attributes: Seq<AttributeView> },
    EndElement { name: NameView },
    Characters(Seq<char>),
    CData(Seq<char>),
    EndDocument,
    Malformed(Seq<char>),
    Other,
}

/// One event of a document's parse.
#[derive(Debug, Clone, PartialEq, Eq)]
pub enum FeedEvent {
    /// An element opens.
    StartElement { name: QualifiedName, attributes: Vec<Attribute> },
    /// An element closes.
    EndElement { name: QualifiedName },
    /// Character data between tags.
    Characters(String),
    /// The content of a CDATA section.
    CData(String),
    /// The document ended where it may end.
    EndDocument,
    /// The document is malformed; the text describes the error.
    Malformed(String),
    /// Any other event of the tokenizer.
    Other,
}

impl View for FeedEvent {
    type V = EventView;

    open spec fn view(&self) -> EventView {
        match self {
            FeedEvent::StartElement { name, attributes } => EventView::StartElement {
                name: name@,
                attributes: attribute_views(attributes@),
            },
            FeedEvent::EndElement { name } => EventView::EndElement { name: name@ },
            FeedEvent::Characters(data) => EventView::Characters(data@),
            FeedEvent::CData(data) => EventView::CData(data@),
            FeedEvent::EndDocument => EventView::EndDocument,
            FeedEvent::Malformed(description) => EventView::Malformed(description@),
            FeedEvent::Other => EventView::Other,
        }
    }
}

/// Whether `event` ends a document's event sequence.
pub open spec fn is_terminal(event: EventView) -> bool {
    event is EndDocument || event is Malformed
}

/// Whether `events` is the event sequence of one whole document: not empty,
/// ended by its only terminal event.
pub open spec fn well_terminated(events: Seq<EventView>) -> bool {
    &&& events.len() > 0
    &&& is_terminal(events.last())
    &&& forall|i: int| 0 <= i < events.len() - 1 ==> !is_terminal(#[trigger] events[i])
}

} // verus!
