//! The record that one document's parse builds up: the feed with its items
//! and live items.

use vstd::prelude::*;

verus! {

/// What an item or a live item holds, as plain text.
pub struct EntryView {
    pub title: Seq<char>,
    pub description: Seq<char>,
}

/// What a feed holds, as plain text and sequences.
pub struct FeedView {
    pub title: Seq<char>,
    pub description: Seq<char>,
    pub items: Seq<EntryView>,
    pub live_items: Seq<EntryView>,
}

/// The entry with no title and no description.
pub open spec fn empty_entry() -> EntryView {
    EntryView { title: Seq::empty(), description: Seq::empty() }
}

/// The feed with no text and no entries.
pub open spec fn empty_feed() -> FeedView {
    FeedView {
        title: Seq::empty(),
        description: Seq::empty(),
        items: Seq::empty(),
        live_items: Seq::empty(),
    }
}

/// The two text fields that a feed and each of its entries have.
#[derive(Debug, Clone, Copy, PartialEq, Eq, Structural)]
pub enum TextField {
    Title,
    Description,
}

/// `entry` with `text` in place of the field `field`.
pub open spec fn entry_with_text(entry: EntryView, field: TextField, text: Seq<char>) -> EntryView {
    match field {
        TextField::Title => EntryView { title: text, ..entry },
        TextField::Description => EntryView { description: text, ..entry },
    }
}

/// `entries` with `text` in place of the field `field` of its last entry;
/// `entries` itself where it is empty.
pub open spec fn last_with_text(
    entries: Seq<EntryView>,
    field: TextField,
    text: Seq<char>,
) -> Seq<EntryView> {
    if entries.len() > 0 {
        entries.update(entries.len() - 1, entry_with_text(entries.last(), field, text))
    } else {
        entries
    }
}

/// `feed` with `text` in place of its own field `field`.
pub open spec fn feed_with_text(feed: FeedView, field: TextField, text: Seq<char>) -> FeedView {
    match field {
        TextField::Title => FeedView { title: text, ..feed },
        TextField::Description => FeedView { description: text, ..feed },
    }
}

/// One ordinary entry of a feed.
#[derive(Debug, Clone, PartialEq, Eq)]
pub struct Item {
    pub title: String,
    pub description: String,
}

/// One live broadcast entry of a feed.
#[derive(Debug, Clone, PartialEq, Eq)]
pub struct LiveItem {
    pub title: String,
    pub description: String,
}

/// The parsed form of one document.
#[derive(Debug, Clone, PartialEq, Eq)]
pub struct Feed {
    pub title: String,
    pub description: String,
    pub items: Vec<Item>,
    pub live_items: Vec<LiveItem>,
}

impl View for Item {
    type V = EntryView;

    open spec fn view(&self) -> EntryView {
        EntryView { title: self.title@, description: self.description@ }
    }
}

impl View for LiveItem {
    type V = EntryView;

    open spec fn view(&self) -> EntryView {
        EntryView { title: self.title@, description: self.description@ }
    }
}

impl View for Feed {
    type V = FeedView;

    open spec fn view(&self) -> FeedView {
        FeedView {
            title: self.title@,
            description: self.description@,
            items: self.items@.map_values(|item: Item| item@),
            live_items: self.live_items@.map_values(|item: LiveItem| item@),
        }
    }
}

impl Default for Item {
    fn default() -> (item: Item)
        ensures
            item@ == empty_entry(),
    {
        Item::new()
    }
}

impl Default for LiveItem {
    fn default() -> (item: LiveItem)
        ensures
            item@ == empty_entry(),
    {
        LiveItem::new()
    }
}

impl Default for Feed {
    fn default() -> (feed: Feed)
        ensures
            feed@ == empty_feed(),
    {
        Feed::new()
    }
}

impl Item {
    /// An item with empty fields.
    pub fn new() -> (item: Item)
        ensures
            item@ == empty_entry(),
    {
        Item { title: String::new(), description: String::new() }
    }

    /// Overwrites one text field.
    pub fn set_text(&mut self, field: TextField, text: String)
        ensures
            final(self)@ == entry_with_text(old(self)@, field, text@),
    {
        match field {
            TextField::Title => {
                self.title = text;
            },
            TextField::Description => {
                self.description = text;
            },
        }
    }
}

impl LiveItem {
    /// A live item with empty fields.
    pub fn new() -> (item: LiveItem)
        ensures
            item@ == empty_entry(),
    {
        LiveItem { title: String::new(), description: String::new() }
    }

    /// Overwrites one text field.
    pub fn set_text(&mut self, field: TextField, text: String)
        ensures
            final(self)@ == entry_with_text(old(self)@, field, text@),
    {
        match field {
            TextField::Title => {
                self.title = text;
            },
            TextField::Description => {
                self.description = text;
            },
        }
    }
}

impl Feed {
    /// A feed with empty fields and no entries.
    pub fn new() -> (feed: Feed)
        ensures
            feed@ == empty_feed(),
    {
        let feed = Feed {
            title: String::new(),
            description: String::new(),
            items: Vec::new(),
            live_items: Vec::new(),
        };
        assert(feed@.items =~= Seq::empty());
        assert(feed@.live_items =~= Seq::empty());
        feed
    }

    /// Overwrites one of the feed's own text fields.
    pub fn set_text(&mut self, field: TextField, text: String)
        ensures
            final(self)@ == feed_with_text(old(self)@, field, text@),
    {
        match field {
            TextField::Title => {
                self.title = text;
            },
            TextField::Description => {
                self.description = text;
            },
        }
    }

    /// Overwrites one text field of the item appended last; a feed without
    /// items stays as it is.
    pub fn set_last_item_text(&mut self, field: TextField, text: String)
        ensures
            final(self)@ == (FeedView {
                items: last_with_text(old(self)@.items, field, text@),
                ..old(self)@
            }),
    {
        match self.items.pop() {
            Some(mut item) => {
                item.set_text(field, text);
                self.items.push(item);
            },
            None => {},
        }
        assert(self@.items =~= last_with_text(old(self)@.items, field, text@));
    }

    /// Overwrites one text field of the live item appended last; a feed
    /// without live items stays as it is.
    pub fn set_last_live_item_text(&mut self, field: TextField, text: String)
        ensures
            final(self)@ == (FeedView {
                live_items: last_with_text(old(self)@.live_items, field, text@),
                ..old(self)@
            }),
    {
        match self.live_items.pop() {
            Some(mut item) => {
                item.set_text(field, text);
                self.live_items.push(item);
            },
            None => {},
        }
        assert(self@.live_items =~= last_with_text(old(self)@.live_items, field, text@));
    }

    /// Appends a new item with empty fields.
    pub fn open_item(&mut self)
        ensures
            final(self)@ == (FeedView {
                items: old(self)@.items.push(empty_entry()),
                ..old(self)@
            }),
    {
        self.items.push(Item::new());
        assert(self@.items =~= old(self)@.items.push(empty_entry()));
    }

    /// Appends a new live item with empty fields.
    pub fn open_live_item(&mut self)
        ensures
            final(self)@ == (FeedView {
                live_items: old(self)@.live_items.push(empty_entry()),
                ..old(self)@
            }),
    {
        self.live_items.push(LiveItem::new());
        assert(self@.live_items =~= old(self)@.live_items.push(empty_entry()));
    }
}

} // verus!
