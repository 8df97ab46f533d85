//! The worker: one document's bytes, read event by event into a feed.

use crate::event::{is_terminal, well_terminated, EventView};
use crate::feed::Feed;
use crate::machine::{
    action_for, initial_state, step, well_formed, Action, ActionView, FeedParser, ParserView,
};
use crate::report::{Report, ReportView};
use crate::source::{document_events, next_event, open_source, pending_events, EventSource};
use vstd::prelude::*;

verus! {

/// The state after a sequence of events.
pub open spec fn run(state: ParserView, events: Seq<EventView>) -> ParserView
    decreases events.len(),
{
    if events.len() == 0 {
        state
    } else {
        run(step(state, events.first()), events.drop_first())
    }
}

/// Where a worker stands after its next action: the state behind the first
/// event that asks for more than `Continue`, that action, and the events
/// still to come.
pub open spec fn next_action(state: ParserView, events: Seq<EventView>) -> (
    ParserView,
    ActionView,
    Seq<EventView>,
)
    decreases events.len(),
{
    if events.len() == 0 {
        (state, ActionView::Continue, events)
    } else if action_for(state, events.first()) is Continue {
        next_action(step(state, events.first()), events.drop_first())
    } else {
        (step(state, events.first()), action_for(state, events.first()), events.drop_first())
    }
}

/// The report that ends a document's event sequence.
pub open spec fn final_report(state: ParserView, events: Seq<EventView>) -> ReportView {
    match action_for(run(state, events.drop_last()), events.last()) {
        ActionView::Complete(report) => report,
        _ => arbitrary(),
    }
}

/// A terminal event asks for the worker's completion and leaves the state
/// as it is; no other event completes the worker.
pub proof fn lemma_terminal_completes(state: ParserView, event: EventView)
    ensures
        is_terminal(event) <==> action_for(state, event) is Complete,
        is_terminal(event) ==> step(state, event) == state,
{
}

/// On the events of a whole document the next action is never `Continue`,
/// and what follows it is again the rest of a whole document, unless the
/// action completes the worker: then nothing follows.
pub proof fn lemma_next_action(state: ParserView, events: Seq<EventView>)
    requires
        well_terminated(events),
    ensures
        !(next_action(state, events).1 is Continue),
        next_action(state, events).2.len() < events.len(),
        next_action(state, events).1 is Complete ==> next_action(state, events).2.len() == 0,
        !(next_action(state, events).1 is Complete) ==> well_terminated(
            next_action(state, events).2,
        ),
        run(next_action(state, events).0, next_action(state, events).2) == run(state, events),
        next_action(state, events).1 matches ActionView::Complete(report) ==> report
            == final_report(state, events) && next_action(state, events).0 == run(state, events),
        !(next_action(state, events).1 is Complete) ==> final_report(
            next_action(state, events).0,
            next_action(state, events).2,
        ) == final_report(state, events),
    decreases events.len(),
{
    let first = events.first();
    let rest = events.drop_first();
    lemma_terminal_completes(state, first);
    if events.len() == 1 {
        assert(is_terminal(first));
        assert(events.drop_last() =~= Seq::empty());
        assert(run(step(state, first), rest) == step(state, first));
    } else {
        assert(!is_terminal(events[0]));
        assert(rest.last() == events.last());
        assert forall|i: int| 0 <= i < rest.len() - 1 implies !is_terminal(#[trigger] rest[i]) by {
            assert(rest[i] == events[i + 1]);
        }
        assert(well_terminated(rest));
        assert(events.drop_last().first() == first);
        assert(events.drop_last().drop_first() =~= rest.drop_last());
        assert(run(state, events.drop_last()) == run(step(state, first), rest.drop_last()));
        assert(final_report(step(state, first), rest) == final_report(state, events));
        if action_for(state, first) is Continue {
            lemma_next_action(step(state, first), rest);
        }
    }
}

/// The worker of one document: the event source over its bytes and the
/// state machine that the events drive.
pub struct Worker<'a> {
    source: EventSource<'a>,
    parser: FeedParser,
    finished: bool,
}

/// What parsing one whole document gives.
#[derive(Debug, Clone, PartialEq, Eq)]
pub struct ParsedDocument {
    /// The feed as it stood at the document's end or at the error.
    pub feed: Feed,
    /// The worker's one report.
    pub report: Report,
}

impl<'a> Worker<'a> {
    /// The events that the worker has yet to read.
    pub closed spec fn pending(&self) -> Seq<EventView> {
        pending_events(&self.source)
    }

    /// The state of the worker's machine.
    pub closed spec fn state(&self) -> ParserView {
        self.parser@
    }

    /// Whether the worker has made its report.
    pub closed spec fn is_finished(&self) -> bool {
        self.finished
    }

    /// The worker's invariant: its machine is well formed, and until it has
    /// made its report the rest of a whole document is still to come.
    pub closed spec fn inv(&self) -> bool {
        &&& well_formed(self.parser@)
        &&& if self.finished {
            pending_events(&self.source).len() == 0
        } else {
            well_terminated(pending_events(&self.source))
        }
    }

    /// A worker at the start of the document that `bytes` hold.
    pub fn new(bytes: &'a [u8]) -> (worker: Worker<'a>)
        ensures
            worker.inv(),
            !worker.is_finished(),
            worker.state() == initial_state(),
            worker.pending() == document_events(bytes@),
    {
        Worker { source: open_source(bytes), parser: FeedParser::new(), finished: false }
    }

    /// Whether the worker has made its report.
    pub fn finished(&self) -> (finished: bool)
        ensures
            finished == self.is_finished(),
    {
        self.finished
    }

    /// The feed as far as it has been read.
    pub fn feed(&self) -> (feed: &Feed)
        ensures
            feed@ == self.state().feed,
    {
        self.parser.feed()
    }

    /// Hands the feed over and ends the worker.
    pub fn into_feed(self) -> (feed: Feed)
        ensures
            feed@ == self.state().feed,
    {
        self.parser.into_feed()
    }

    /// Reads events up to the next one that asks for an action and returns
    /// that action: `RecordItem` for each item and live item, then once
    /// `Complete` with the report. A worker that has made its report returns
    /// `None` and stays as it is.
    pub fn advance(&mut self) -> (action: Option<Action>)
        requires
            old(self).inv(),
        ensures
            final(self).inv(),
            old(self).is_finished() ==> {
                &&& action is None
                &&& final(self).is_finished()
                &&& final(self).state() == old(self).state()
                &&& final(self).pending() == old(self).pending()
            },
            !old(self).is_finished() ==> {
                &&& action is Some
                &&& !(action->0@ is Continue)
                &&& (final(self).state(), action->0@, final(self).pending()) == next_action(
                    old(self).state(),
                    old(self).pending(),
                )
                &&& final(self).is_finished() == (action->0@ is Complete)
            },
    {
        if self.finished {
            return None;
        }
        let ghost start_state = self.parser@;
        let ghost start_pending = pending_events(&self.source);
        loop
            invariant
                !self.finished,
                !old(self).is_finished(),
                start_state == old(self).state(),
                start_pending == old(self).pending(),
                well_formed(self.parser@),
                well_terminated(pending_events(&self.source)),
                next_action(self.parser@, pending_events(&self.source)) == next_action(
                    start_state,
                    start_pending,
                ),
            decreases pending_events(&self.source).len(),
        {
            let ghost state = self.parser@;
            let ghost events = pending_events(&self.source);
            let event = next_event(&mut self.source);
            proof {
                lemma_terminal_completes(state, event@);
                lemma_next_action(state, events);
            }
            let action = self.parser.handle_event(event);
            match action {
                Action::Continue => {},
                Action::RecordItem => {
                    return Some(Action::RecordItem);
                },
                Action::Complete(report) => {
                    self.finished = true;
                    return Some(Action::Complete(report));
                },
            }
        }
    }
}

/// Parses the document that `bytes` hold, from its first event to its end
/// or to the first error.
pub fn parse_document(bytes: &[u8]) -> (parsed: ParsedDocument)
    ensures
        parsed.feed@ == run(initial_state(), document_events(bytes@)).feed,
        parsed.report@ == final_report(initial_state(), document_events(bytes@)),
{
    let mut worker = Worker::new(bytes);
    loop
        invariant
            worker.inv(),
            !worker.is_finished(),
            run(worker.state(), worker.pending()) == run(
                initial_state(),
                document_events(bytes@),
            ),
            final_report(worker.state(), worker.pending()) == final_report(
                initial_state(),
                document_events(bytes@),
            ),
        decreases worker.pending().len(),
    {
        proof {
            lemma_next_action(worker.state(), worker.pending());
        }
        match worker.advance() {
            Some(Action::Complete(report)) => {
                return ParsedDocument { feed: worker.into_feed(), report };
            },
            _ => {},
        }
    }
}

} // verus!
