//! The feed state machine: one document's events in, one feed record out.
//!
//! The machine keeps the stack of open elements and a context that says
//! which record the next text belongs to. Each event moves it from one
//! state to the next and yields the action that its worker owes the job
//! tracker.

use crate::attribute::{qualified, NameView, QualifiedName};
use crate::event::{EventView, FeedEvent};
use crate::feed::{
    empty_entry, empty_feed, feed_with_text, last_with_text, Feed, FeedView, TextField,
};
use crate::report::{completion_report, failure_report, Report, ReportView};
use crate::text::{lowercased, same_text, to_lowercase, trim, trimmed};
use vstd::prelude::*;
use vstd::string::*;

verus! {

/// The structural scope that is active in a document.
#[derive(Debug, Clone, Copy, PartialEq, Eq, Structural)]
pub enum Context {
    /// Text belongs to the feed itself.
    Channel,
    /// Text belongs to the item recorded last.
    InItem,
    /// Text belongs to the live item recorded last.
    InLiveItem,
}

/// The state of the machine as plain values.
pub struct ParserView {
    pub feed: FeedView,
    pub context: Context,
    pub stack: Seq<Seq<char>>,
}

/// What a worker owes the job tracker after an event, as plain values.
pub enum ActionView {
    Continue,
    RecordItem,
    Complete(ReportView),
}

/// What a worker owes the job tracker after an event.
#[derive(Debug, Clone, PartialEq, Eq)]
pub enum Action {
    /// Nothing: go on with the next event.
    Continue,
    /// An item or a live item was recorded: count it.
    RecordItem,
    /// The worker is done: show the report and sign the job off.
    Complete(Report),
}

impl View for Action {
    type V = ActionView;

    open spec fn view(&self) -> ActionView {
        match self {
            Action::Continue => ActionView::Continue,
            Action::RecordItem => ActionView::RecordItem,
            Action::Complete(report) => ActionView::Complete(report@),
        }
    }
}

/// The state before the first event: an empty feed in channel context, no
/// element open.
pub open spec fn initial_state() -> ParserView {
    ParserView { feed: empty_feed(), context: Context::Channel, stack: Seq::empty() }
}

/// The name under which the machine knows an element: the local name as it
/// stands where there is no prefix, else `prefix:local` in lower case and
/// trimmed.
pub open spec fn tag_name(name: NameView) -> Seq<char> {
    match name.prefix {
        Some(_) => trimmed(lowercased(qualified(name))),
        None => name.local_name,
    }
}

/// The context in which a start element named `tag` is looked at: any
/// `channel` element resets the scope.
pub open spec fn context_at_start(context: Context, tag: Seq<char>) -> Context {
    if tag == "channel"@ {
        Context::Channel
    } else {
        context
    }
}

/// Whether a start element named `tag` opens an item.
pub open spec fn opens_item(context: Context, tag: Seq<char>) -> bool {
    context_at_start(context, tag) == Context::Channel && tag == "item"@
}

/// Whether a start element named `tag` opens a live item.
pub open spec fn opens_live_item(context: Context, tag: Seq<char>) -> bool {
    !opens_item(context, tag) && context_at_start(context, tag) == Context::Channel && tag
        == "podcast:liveitem"@
}

/// The context after a start element named `tag`.
pub open spec fn context_after_start(context: Context, tag: Seq<char>) -> Context {
    if opens_item(context, tag) {
        Context::InItem
    } else if opens_live_item(context, tag) {
        Context::InLiveItem
    } else {
        context_at_start(context, tag)
    }
}

/// The context after an end element named `tag`: an item ends with `item`,
/// a live item with `podcast:liveitem`.
pub open spec fn context_after_end(context: Context, tag: Seq<char>) -> Context {
    if context == Context::InItem && tag == "item"@ {
        Context::Channel
    } else if context == Context::InLiveItem && tag == "podcast:liveitem"@ {
        Context::Channel
    } else {
        context
    }
}

/// The state after a start element named `tag`.
pub open spec fn after_start(state: ParserView, tag: Seq<char>) -> ParserView {
    ParserView {
        feed: if opens_item(state.context, tag) {
            FeedView { items: state.feed.items.push(empty_entry()), ..state.feed }
        } else if opens_live_item(state.context, tag) {
            FeedView { live_items: state.feed.live_items.push(empty_entry()), ..state.feed }
        } else {
            state.feed
        },
        context: context_after_start(state.context, tag),
        stack: state.stack.push(tag),
    }
}

/// The state after an end element named `tag`.
pub open spec fn after_end(state: ParserView, tag: Seq<char>) -> ParserView {
    ParserView {
        feed: state.feed,
        context: context_after_end(state.context, tag),
        stack: if state.stack.len() > 0 {
            state.stack.drop_last()
        } else {
            state.stack
        },
    }
}

/// The field that text inside the innermost open element belongs to.
pub open spec fn text_target(stack: Seq<Seq<char>>) -> Option<TextField> {
    if stack.len() > 0 && stack.last() == "title"@ {
        Some(TextField::Title)
    } else if stack.len() > 0 && stack.last() == "description"@ {
        Some(TextField::Description)
    } else {
        None
    }
}

/// The state after character data: inside `title` or `description` the
/// trimmed text replaces that field of the record that the context
/// addresses; elsewhere nothing changes.
pub open spec fn after_text(state: ParserView, data: Seq<char>) -> ParserView {
    match text_target(state.stack) {
        Some(field) => ParserView {
            feed: match state.context {
                Context::Channel => feed_with_text(state.feed, field, trimmed(data)),
                Context::InItem => FeedView {
                    items: last_with_text(state.feed.items, field, trimmed(data)),
                    ..state.feed
                },
                Context::InLiveItem => FeedView {
                    live_items: last_with_text(state.feed.live_items, field, trimmed(data)),
                    ..state.feed
                },
            },
            ..state
        },
        None => state,
    }
}

/// The state after one event.
pub open spec fn step(state: ParserView, event: EventView) -> ParserView {
    match event {
        EventView::StartElement { name, .. } => after_start(state, tag_name(name)),
        EventView::EndElement { name } => after_end(state, tag_name(name)),
        EventView::Characters(data) => after_text(state, data),
        EventView::CData(data) => after_text(state, data),
        _ => state,
    }
}

/// The action that one event asks for in a given state.
pub open spec fn action_for(state: ParserView, event: EventView) -> ActionView {
    match event {
        EventView::StartElement { name, .. } => if opens_item(state.context, tag_name(name))
            || opens_live_item(state.context, tag_name(name)) {
            ActionView::RecordItem
        } else {
            ActionView::Continue
        },
        EventView::EndDocument => ActionView::Complete(completion_report(state.feed)),
        EventView::Malformed(error) => ActionView::Complete(failure_report(state.feed, error)),
        _ => ActionView::Continue,
    }
}

/// The invariant of the machine: while an item or a live item is open, the
/// feed holds the entry that text is routed to.
pub open spec fn well_formed(state: ParserView) -> bool {
    &&& state.context == Context::InItem ==> state.feed.items.len() > 0
    &&& state.context == Context::InLiveItem ==> state.feed.live_items.len() > 0
}

/// The views of the names on an element stack.
pub open spec fn stack_view(stack: Seq<String>) -> Seq<Seq<char>> {
    stack.map_values(|tag: String| tag@)
}

/// The name under which the machine knows an element.
pub fn normalized_tag(name: &QualifiedName) -> (tag: String)
    ensures
        tag@ == tag_name(name@),
{
    match &name.prefix {
        Some(_) => {
            let full = name.qualified();
            let lower = to_lowercase(full.as_str());
            trim(lower.as_str())
        },
        None => name.local_name.clone(),
    }
}

/// The state machine of one document.
pub struct FeedParser {
    feed: Feed,
    context: Context,
    stack: Vec<String>,
}

impl View for FeedParser {
    type V = ParserView;

    closed spec fn view(&self) -> ParserView {
        ParserView { feed: self.feed@, context: self.context, stack: stack_view(self.stack@) }
    }
}

impl FeedParser {
    /// The machine before the first event.
    pub fn new() -> (parser: FeedParser)
        ensures
            parser@ == initial_state(),
            well_formed(parser@),
    {
        let parser = FeedParser { feed: Feed::new(), context: Context::Channel, stack: Vec::new() };
        assert(parser@.stack =~= Seq::empty());
        parser
    }

    /// The feed as it stands.
    pub fn feed(&self) -> (feed: &Feed)
        ensures
            feed@ == self@.feed,
    {
        &self.feed
    }

    /// The context as it stands.
    pub fn context(&self) -> (context: Context)
        ensures
            context == self@.context,
    {
        self.context
    }

    /// How many elements are open.
    pub fn depth(&self) -> (depth: usize)
        ensures
            depth == self@.stack.len(),
    {
        self.stack.len()
    }

    /// Hands the feed over and ends the machine.
    pub fn into_feed(self) -> (feed: Feed)
        ensures
            feed@ == self@.feed,
    {
        self.feed
    }

    /// Takes a start element by its normalized name. Returns whether an item
    /// or a live item was recorded.
    pub fn start_element(&mut self, tag: String) -> (recorded: bool)
        ensures
            final(self)@ == after_start(old(self)@, tag@),
            recorded == (opens_item(old(self)@.context, tag@) || opens_live_item(
                old(self)@.context,
                tag@,
            )),
            well_formed(old(self)@) ==> well_formed(final(self)@),
    {
        let mut recorded = false;
        if same_text(tag.as_str(), "channel") {
            self.context = Context::Channel;
        }
        if self.context == Context::Channel && same_text(tag.as_str(), "item") {
            self.context = Context::InItem;
            self.feed.open_item();
            recorded = true;
        }
        if self.context == Context::Channel && same_text(tag.as_str(), "podcast:liveitem") {
            self.context = Context::InLiveItem;
            self.feed.open_live_item();
            recorded = true;
        }
        self.stack.push(tag);
        assert(self@.stack =~= old(self)@.stack.push(tag@));
        recorded
    }

    /// Takes an end element by its normalized name.
    pub fn end_element(&mut self, tag: &str)
        ensures
            final(self)@ == after_end(old(self)@, tag@),
            well_formed(old(self)@) ==> well_formed(final(self)@),
    {
        if self.context == Context::InItem && same_text(tag, "item") {
            self.context = Context::Channel;
        }
        if self.context == Context::InLiveItem && same_text(tag, "podcast:liveitem") {
            self.context = Context::Channel;
        }
        self.stack.pop();
        assert(self@.stack =~= after_end(old(self)@, tag@).stack);
    }

    /// Takes character data, raw as the tokenizer gave it.
    pub fn text(&mut self, data: &str)
        ensures
            final(self)@ == after_text(old(self)@, data@),
            well_formed(old(self)@) ==> well_formed(final(self)@),
    {
        let depth = self.stack.len();
        if depth == 0 {
            return ;
        }
        let field = if same_text(self.stack[depth - 1].as_str(), "title") {
            TextField::Title
        } else if same_text(self.stack[depth - 1].as_str(), "description") {
            TextField::Description
        } else {
            return ;
        };
        let text = trim(data);
        match self.context {
            Context::Channel => self.feed.set_text(field, text),
            Context::InItem => self.feed.set_last_item_text(field, text),
            Context::InLiveItem => self.feed.set_last_live_item_text(field, text),
        }
    }

    /// The report for the document's end.
    pub fn completion_report(&self) -> (report: Report)
        ensures
            report@ == completion_report(self@.feed),
    {
        let item_count = self.feed.items.len();
        let last_item_title = if item_count > 0 {
            Some(self.feed.items[item_count - 1].title.clone())
        } else {
            None
        };
        Report::Completed { title: self.feed.title.clone(), item_count, last_item_title }
    }

    /// The report for a malformed document.
    pub fn failure_report(&self, error: String) -> (report: Report)
        ensures
            report@ == failure_report(self@.feed, error@),
    {
        Report::Malformed { partial_title: self.feed.title.clone(), error }
    }

    /// Takes one event: moves to the next state and says what the worker
    /// owes the job tracker.
    pub fn handle_event(&mut self, event: FeedEvent) -> (action: Action)
        ensures
            final(self)@ == step(old(self)@, event@),
            action@ == action_for(old(self)@, event@),
            well_formed(old(self)@) ==> well_formed(final(self)@),
    {
        match event {
            FeedEvent::StartElement { name, attributes: _ } => {
                let tag = normalized_tag(&name);
                if self.start_element(tag) {
                    Action::RecordItem
                } else {
                    Action::Continue
                }
            },
            FeedEvent::EndElement { name } => {
                let tag = normalized_tag(&name);
                self.end_element(tag.as_str());
                Action::Continue
            },
            FeedEvent::Characters(data) => {
                self.text(data.as_str());
                Action::Continue
            },
            FeedEvent::CData(data) => {
                self.text(data.as_str());
                Action::Continue
            },
            FeedEvent::EndDocument => Action::Complete(self.completion_report()),
            FeedEvent::Malformed(error) => Action::Complete(self.failure_report(error)),
            FeedEvent::Other => Action::Continue,
        }
    }
}

} // verus!
