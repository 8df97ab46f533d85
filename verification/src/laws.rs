//! What holds of every document: how the counts of the feed and of the
//! report follow from the events, and how a properly nested document leaves
//! the state machine.

use crate::event::EventView;
use crate::feed::{empty_entry, FeedView};
use crate::machine::{
    action_for, context_after_end, context_after_start, initial_state, opens_item,
    opens_live_item, step, tag_name, well_formed, Context, ParserView,
};
use crate::report::{completion_report, ReportView};
use crate::worker::{final_report, run};
use vstd::prelude::*;
use vstd::string::*;

verus! {

/// The context after one event, by the names of the elements alone.
pub open spec fn context_step(context: Context, event: EventView) -> Context {
    match event {
        EventView::StartElement { name, .. } => context_after_start(context, tag_name(name)),
        EventView::EndElement { name } => context_after_end(context, tag_name(name)),
        _ => context,
    }
}

/// Whether `event` is the start of an `item` element, met in channel context.
pub open spec fn starts_item(context: Context, event: EventView) -> bool {
    event matches EventView::StartElement { name, .. } && opens_item(context, tag_name(name))
}

/// Whether `event` is the start of a `podcast:liveitem` element, met in
/// channel context.
pub open spec fn starts_live_item(context: Context, event: EventView) -> bool {
    event matches EventView::StartElement { name, .. } && opens_live_item(
        context,
        tag_name(name),
    )
}

/// How many `item` elements `events` open in channel context, from
/// `context` on.
pub open spec fn items_opened(context: Context, events: Seq<EventView>) -> nat
    decreases events.len(),
{
    if events.len() == 0 {
        0
    } else {
        (if starts_item(context, events.first()) {
            1nat
        } else {
            0nat
        }) + items_opened(context_step(context, events.first()), events.drop_first())
    }
}

/// How many `podcast:liveitem` elements `events` open in channel context,
/// from `context` on.
pub open spec fn live_items_opened(context: Context, events: Seq<EventView>) -> nat
    decreases events.len(),
{
    if events.len() == 0 {
        0
    } else {
        (if starts_live_item(context, events.first()) {
            1nat
        } else {
            0nat
        }) + live_items_opened(context_step(context, events.first()), events.drop_first())
    }
}

/// How many entries, items and live items together, a feed holds.
pub open spec fn entries(feed: FeedView) -> nat {
    feed.items.len() + feed.live_items.len()
}

/// One event changes the context by the names of the elements alone, adds an
/// empty item exactly where an `item` element starts in channel context and
/// an empty live item exactly where a `podcast:liveitem` element does, and
/// asks to record an item exactly in these two cases.
pub proof fn lemma_step_counts(state: ParserView, event: EventView)
    ensures
        step(state, event).context == context_step(state.context, event),
        step(state, event).feed.items.len() == state.feed.items.len() + (if starts_item(
            state.context,
            event,
        ) {
            1nat
        } else {
            0nat
        }),
        step(state, event).feed.live_items.len() == state.feed.live_items.len() + (
        if starts_live_item(state.context, event) {
            1nat
        } else {
            0nat
        }),
        action_for(state, event) is RecordItem <==> starts_item(state.context, event)
            || starts_live_item(state.context, event),
        !(starts_item(state.context, event) && starts_live_item(state.context, event)),
{
}

/// A live item is recorded into the live items and counted, and never shows
/// among the items: the start of a `podcast:liveitem` element in channel
/// context appends one empty live item, leaves the items as they are, and
/// asks to record an item.
pub proof fn lemma_live_item_recorded(state: ParserView, event: EventView)
    requires
        starts_live_item(state.context, event),
    ensures
        step(state, event).feed.live_items == state.feed.live_items.push(empty_entry()),
        step(state, event).feed.items == state.feed.items,
        step(state, event).context == Context::InLiveItem,
        action_for(state, event) is RecordItem,
{
}

/// Contexts nest strictly: an item or a live item is entered from channel
/// context only, where its element starts, and is left for channel context
/// only, so that no item begins inside another.
pub proof fn lemma_contexts_nest(state: ParserView, event: EventView)
    ensures
        step(state, event).context != state.context ==> state.context == Context::Channel
            || step(state, event).context == Context::Channel,
        step(state, event).context == Context::InItem && state.context != Context::InItem
            ==> starts_item(state.context, event),
        step(state, event).context == Context::InLiveItem && state.context
            != Context::InLiveItem ==> starts_live_item(state.context, event),
        state.context != Context::Channel ==> !starts_item(state.context, event)
            && !starts_live_item(state.context, event),
{
    reveal_strlit("channel");
    reveal_strlit("item");
    reveal_strlit("podcast:liveitem");
    assert("channel"@.len() == 7 && "item"@.len() == 4 && "podcast:liveitem"@.len() == 16);
}

/// After any sequence of events the feed holds one item more for each
/// `item` element that opened in channel context, and one live item more for
/// each `podcast:liveitem` element that did.
pub proof fn lemma_run_counts(state: ParserView, events: Seq<EventView>)
    ensures
        run(state, events).feed.items.len() == state.feed.items.len() + items_opened(
            state.context,
            events,
        ),
        run(state, events).feed.live_items.len() == state.feed.live_items.len()
            + live_items_opened(state.context, events),
    decreases events.len(),
{
    if events.len() > 0 {
        lemma_step_counts(state, events.first());
        lemma_run_counts(step(state, events.first()), events.drop_first());
    }
}

/// For every document that is read to its end, the item count of the report
/// is the number of `item` elements that open in channel context, that is,
/// outside any other item or live item.
pub proof fn lemma_reported_item_count(events: Seq<EventView>)
    requires
        events.len() > 0,
        events.last() is EndDocument,
    ensures
        final_report(initial_state(), events) matches ReportView::Completed { item_count, .. }
            && item_count == items_opened(Context::Channel, events),
{
    let body = events.drop_last();
    lemma_run_counts(initial_state(), body);
    lemma_items_opened_push(Context::Channel, body, events.last());
    assert(body.push(events.last()) =~= events);
}

/// A document that is read to its end is reported with the title, the item
/// count and the last item's title of the feed as it then stands.
pub proof fn lemma_completion_report(events: Seq<EventView>)
    requires
        events.len() > 0,
        events.last() is EndDocument,
    ensures
        final_report(initial_state(), events) == completion_report(
            run(initial_state(), events).feed,
        ),
{
    let body = events.drop_last();
    lemma_run_push(initial_state(), body, events.last());
    assert(body.push(events.last()) =~= events);
}

/// A document that turns out malformed is reported as such, with the feed's
/// title as far as it was read and the tokenizer's description of the error.
pub proof fn lemma_malformed_report(events: Seq<EventView>)
    requires
        events.len() > 0,
        events.last() is Malformed,
    ensures
        final_report(initial_state(), events) == (ReportView::Malformed {
            partial_title: run(initial_state(), events).feed.title,
            error: events.last()->Malformed_0,
        }),
{
    let body = events.drop_last();
    lemma_run_push(initial_state(), body, events.last());
    assert(body.push(events.last()) =~= events);
}

/// Reading one more event is one more step.
pub proof fn lemma_run_push(state: ParserView, events: Seq<EventView>, last: EventView)
    ensures
        run(state, events.push(last)) == step(run(state, events), last),
    decreases events.len(),
{
    let all = events.push(last);
    if events.len() == 0 {
        assert(all.drop_first() =~= Seq::empty());
        assert(run(step(state, last), all.drop_first()) == step(state, last));
    } else {
        assert(all.first() == events.first());
        assert(all.drop_first() =~= events.drop_first().push(last));
        lemma_run_push(step(state, events.first()), events.drop_first(), last);
    }
}

/// An event that starts no item adds nothing to the count of a sequence that
/// it ends.
proof fn lemma_items_opened_push(context: Context, events: Seq<EventView>, last: EventView)
    requires
        !(last is StartElement),
    ensures
        items_opened(context, events.push(last)) == items_opened(context, events),
    decreases events.len(),
{
    let all = events.push(last);
    if events.len() == 0 {
        assert(all.drop_first() =~= Seq::empty());
        assert(items_opened(context_step(context, last), all.drop_first()) == 0);
    } else {
        assert(all.first() == events.first());
        assert(all.drop_first() =~= events.drop_first().push(last));
        lemma_items_opened_push(context_step(context, events.first()), events.drop_first(), last);
    }
}

/// Whether every end element among `events` closes the element that is
/// innermost at that point, as in a document whose elements nest properly.
pub open spec fn well_nested(state: ParserView, events: Seq<EventView>) -> bool
    decreases events.len(),
{
    events.len() == 0 || {
        &&& events.first() matches EventView::EndElement { name } ==> state.stack.len() > 0
            && state.stack.last() == tag_name(name)
        &&& well_nested(step(state, events.first()), events.drop_first())
    }
}

/// Whether the element that opened the current item or live item is still
/// among the open elements.
pub open spec fn scope_is_open(state: ParserView) -> bool {
    &&& state.context == Context::InItem ==> state.stack.contains("item"@)
    &&& state.context == Context::InLiveItem ==> state.stack.contains("podcast:liveitem"@)
}

/// One event of a properly nested document keeps the element of the
/// current item or live item among the open elements.
pub proof fn lemma_step_keeps_scope(state: ParserView, event: EventView)
    requires
        scope_is_open(state),
        event matches EventView::EndElement { name } ==> state.stack.len() > 0
            && state.stack.last() == tag_name(name),
    ensures
        scope_is_open(step(state, event)),
{
    let next = step(state, event);
    match event {
        EventView::StartElement { name, .. } => {
            let tag = tag_name(name);
            assert(next.stack.last() == tag);
            assert forall|t: Seq<char>| state.stack.contains(t) implies next.stack.contains(t) by {
                let i = choose|i: int| 0 <= i < state.stack.len() && state.stack[i] == t;
                assert(next.stack[i] == t);
            }
        },
        EventView::EndElement { name } => {
            let tag = tag_name(name);
            assert forall|t: Seq<char>|
                state.stack.contains(t) && t != tag implies next.stack.contains(t) by {
                let i = choose|i: int| 0 <= i < state.stack.len() && state.stack[i] == t;
                assert(next.stack[i] == t);
            }
        },
        _ => {},
    }
}

/// In a properly nested document every item and live item that opens also
/// closes: once all elements are closed, the machine is back in channel
/// context.
pub proof fn lemma_nested_document_closes_items(state: ParserView, events: Seq<EventView>)
    requires
        scope_is_open(state),
        well_nested(state, events),
    ensures
        scope_is_open(run(state, events)),
        run(state, events).stack.len() == 0 ==> run(state, events).context == Context::Channel,
    decreases events.len(),
{
    if events.len() > 0 {
        lemma_step_keeps_scope(state, events.first());
        lemma_nested_document_closes_items(step(state, events.first()), events.drop_first());
    }
}

/// Every event keeps the machine's invariant: while an item or a live item
/// is open, the feed holds the entry that text is routed to.
pub proof fn lemma_step_keeps_well_formed(state: ParserView, event: EventView)
    requires
        well_formed(state),
    ensures
        well_formed(step(state, event)),
{
}

/// The machine's invariant holds after any sequence of events.
pub proof fn lemma_run_keeps_well_formed(state: ParserView, events: Seq<EventView>)
    requires
        well_formed(state),
    ensures
        well_formed(run(state, events)),
    decreases events.len(),
{
    if events.len() > 0 {
        lemma_step_keeps_well_formed(state, events.first());
        lemma_run_keeps_well_formed(step(state, events.first()), events.drop_first());
    }
}

} // verus!
