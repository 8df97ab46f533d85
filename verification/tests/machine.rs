use feed_ingest::attribute::{xml_parse_attributes, Attribute, QualifiedName};
use feed_ingest::event::FeedEvent;
use feed_ingest::feed::{Feed, Item, LiveItem, TextField};
use feed_ingest::machine::{normalized_tag, Action, Context, FeedParser};
use feed_ingest::report::{completion_line, failure_line, Report, NO_ITEM_PLACEHOLDER};

fn plain(local: &str) -> QualifiedName {
    QualifiedName { local_name: local.to_string(), prefix: None }
}

fn prefixed(prefix: &str, local: &str) -> QualifiedName {
    QualifiedName { local_name: local.to_string(), prefix: Some(prefix.to_string()) }
}

fn start(name: QualifiedName) -> FeedEvent {
    FeedEvent::StartElement { name, attributes: vec![] }
}

fn end(name: QualifiedName) -> FeedEvent {
    FeedEvent::EndElement { name }
}

fn chars(data: &str) -> FeedEvent {
    FeedEvent::Characters(data.to_string())
}

#[test]
fn new_parser_is_in_channel_context() {
    let parser = FeedParser::new();
    assert_eq!(parser.context(), Context::Channel);
    assert_eq!(parser.depth(), 0);
    assert_eq!(parser.feed().title, "");
    assert!(parser.feed().items.is_empty());
    assert!(parser.feed().live_items.is_empty());
}

#[test]
fn attribute_extraction_keeps_order_and_prefix() {
    let attributes = vec![
        Attribute { name: plain("foo"), value: "bar".to_string() },
        Attribute { name: prefixed("podcast", "baz"), value: "qux".to_string() },
    ];
    assert_eq!(
        xml_parse_attributes(&attributes),
        vec![
            ("foo".to_string(), "bar".to_string()),
            ("podcast:baz".to_string(), "qux".to_string()),
        ]
    );
}

#[test]
fn attribute_extraction_of_nothing_is_empty() {
    assert_eq!(xml_parse_attributes(&vec![]), Vec::<(String, String)>::new());
}

#[test]
fn attribute_names_are_not_normalized() {
    let attributes = vec![Attribute { name: prefixed("Pod", " Baz"), value: " v ".to_string() }];
    assert_eq!(xml_parse_attributes(&attributes), vec![("Pod: Baz".to_string(), " v ".to_string())]);
}

#[test]
fn qualified_name_joins_prefix_and_local_name() {
    assert_eq!(plain("title").qualified(), "title");
    assert_eq!(prefixed("podcast", "liveItem").qualified(), "podcast:liveItem");
}

#[test]
fn tag_is_normalized_only_with_a_prefix() {
    assert_eq!(normalized_tag(&plain("Item")), "Item");
    assert_eq!(normalized_tag(&prefixed("Podcast", "LiveItem")), "podcast:liveitem");
    assert_eq!(normalized_tag(&prefixed(" podcast", "liveItem ")), "podcast:liveitem");
    assert_eq!(normalized_tag(&prefixed("ÄB", "Ç")), "äb:ç");
}

#[test]
fn item_opens_only_in_channel_context() {
    let mut parser = FeedParser::new();
    assert_eq!(parser.handle_event(start(plain("item"))), Action::RecordItem);
    assert_eq!(parser.context(), Context::InItem);
    assert_eq!(parser.handle_event(start(plain("item"))), Action::Continue);
    assert_eq!(parser.handle_event(start(prefixed("podcast", "liveItem"))), Action::Continue);
    assert_eq!(parser.context(), Context::InItem);
    assert_eq!(parser.feed().items.len(), 1);
    assert_eq!(parser.feed().live_items.len(), 0);
    assert_eq!(parser.depth(), 3);
}

#[test]
fn live_item_opens_only_in_channel_context() {
    let mut parser = FeedParser::new();
    assert_eq!(parser.handle_event(start(prefixed("podcast", "liveItem"))), Action::RecordItem);
    assert_eq!(parser.context(), Context::InLiveItem);
    assert_eq!(parser.handle_event(start(plain("item"))), Action::Continue);
    assert_eq!(parser.feed().items.len(), 0);
    assert_eq!(parser.feed().live_items, vec![LiveItem { title: String::new(), description: String::new() }]);
    // An item's end tag does not close a live item.
    assert_eq!(parser.handle_event(end(plain("item"))), Action::Continue);
    assert_eq!(parser.context(), Context::InLiveItem);
    assert_eq!(parser.handle_event(end(prefixed("podcast", "liveItem"))), Action::Continue);
    assert_eq!(parser.context(), Context::Channel);
}

#[test]
fn end_of_item_returns_to_channel() {
    let mut parser = FeedParser::new();
    parser.handle_event(start(plain("item")));
    assert_eq!(parser.handle_event(end(prefixed("podcast", "liveItem"))), Action::Continue);
    assert_eq!(parser.context(), Context::InItem);
    assert_eq!(parser.handle_event(end(plain("item"))), Action::Continue);
    assert_eq!(parser.context(), Context::Channel);
    assert_eq!(parser.handle_event(start(plain("item"))), Action::RecordItem);
    assert_eq!(parser.feed().items.len(), 2);
}

#[test]
fn channel_start_resets_context_anywhere() {
    let mut parser = FeedParser::new();
    parser.handle_event(start(plain("item")));
    assert_eq!(parser.handle_event(start(plain("channel"))), Action::Continue);
    assert_eq!(parser.context(), Context::Channel);
    assert_eq!(parser.handle_event(start(plain("item"))), Action::RecordItem);
    assert_eq!(parser.feed().items.len(), 2);
}

#[test]
fn text_goes_to_the_record_of_the_context() {
    let mut parser = FeedParser::new();
    parser.handle_event(start(plain("title")));
    assert_eq!(parser.handle_event(chars("  Feed \n")), Action::Continue);
    parser.handle_event(end(plain("title")));
    parser.handle_event(start(plain("item")));
    parser.handle_event(start(plain("description")));
    parser.handle_event(FeedEvent::CData(" <b>raw</b> ".to_string()));
    parser.handle_event(end(plain("description")));
    parser.handle_event(end(plain("item")));
    parser.handle_event(start(prefixed("podcast", "liveitem")));
    parser.handle_event(start(plain("title")));
    parser.handle_event(chars("Live"));
    let feed = parser.into_feed();
    assert_eq!(
        feed,
        Feed {
            title: "Feed".to_string(),
            description: String::new(),
            items: vec![Item { title: String::new(), description: "<b>raw</b>".to_string() }],
            live_items: vec![LiveItem { title: "Live".to_string(), description: String::new() }],
        }
    );
}

#[test]
fn text_without_open_element_changes_nothing() {
    let mut parser = FeedParser::new();
    assert_eq!(parser.handle_event(chars("stray")), Action::Continue);
    assert_eq!(parser.handle_event(end(plain("title"))), Action::Continue);
    assert_eq!(parser.depth(), 0);
    assert_eq!(parser.feed().title, "");
}

#[test]
fn other_events_are_ignored() {
    let mut parser = FeedParser::new();
    parser.handle_event(start(plain("title")));
    assert_eq!(parser.handle_event(FeedEvent::Other), Action::Continue);
    assert_eq!(parser.depth(), 1);
    assert_eq!(parser.context(), Context::Channel);
    assert_eq!(parser.feed().title, "");
}

#[test]
fn end_of_document_reports_title_count_and_last_item() {
    let mut parser = FeedParser::new();
    parser.handle_event(start(plain("title")));
    parser.handle_event(chars("T"));
    parser.handle_event(end(plain("title")));
    assert_eq!(
        parser.handle_event(FeedEvent::EndDocument),
        Action::Complete(Report::Completed {
            title: "T".to_string(),
            item_count: 0,
            last_item_title: None,
        })
    );
    parser.handle_event(start(plain("item")));
    parser.handle_event(start(plain("title")));
    parser.handle_event(chars("I"));
    assert_eq!(
        parser.handle_event(FeedEvent::EndDocument),
        Action::Complete(Report::Completed {
            title: "T".to_string(),
            item_count: 1,
            last_item_title: Some("I".to_string()),
        })
    );
    assert_eq!(parser.completion_report().line(), "\"T\"[1] -> \"I\"");
}

#[test]
fn error_event_reports_partial_title() {
    let mut parser = FeedParser::new();
    parser.handle_event(start(plain("title")));
    parser.handle_event(chars("Half"));
    let action = parser.handle_event(FeedEvent::Malformed("1:7 Unexpected end of stream".to_string()));
    let report = Report::Malformed {
        partial_title: "Half".to_string(),
        error: "1:7 Unexpected end of stream".to_string(),
    };
    assert_eq!(action, Action::Complete(report.clone()));
    assert_eq!(report.line(), "\"Half\" -> Error: 1:7 Unexpected end of stream");
    assert_eq!(parser.failure_report("x".to_string()).line(), "\"Half\" -> Error: x");
}

#[test]
fn start_element_by_name_says_whether_it_recorded() {
    let mut parser = FeedParser::new();
    assert!(!parser.start_element("rss".to_string()));
    assert!(!parser.start_element("channel".to_string()));
    assert!(parser.start_element("podcast:liveitem".to_string()));
    assert!(!parser.start_element("title".to_string()));
    parser.text(" t ");
    parser.end_element("title");
    parser.end_element("podcast:liveitem");
    assert!(parser.start_element("item".to_string()));
    assert_eq!(parser.depth(), 3);
    assert_eq!(parser.feed().live_items[0].title, "t");
}

#[test]
fn feed_setters_overwrite_the_last_entry() {
    let mut feed = Feed::new();
    feed.set_last_item_text(TextField::Title, "lost".to_string());
    feed.set_last_live_item_text(TextField::Title, "lost".to_string());
    assert!(feed.items.is_empty() && feed.live_items.is_empty());
    feed.open_item();
    feed.open_item();
    feed.open_live_item();
    feed.set_last_item_text(TextField::Title, "second".to_string());
    feed.set_last_item_text(TextField::Description, "d".to_string());
    feed.set_last_live_item_text(TextField::Description, "live".to_string());
    feed.set_text(TextField::Title, "F".to_string());
    feed.set_text(TextField::Description, "FD".to_string());
    assert_eq!(feed.title, "F");
    assert_eq!(feed.description, "FD");
    assert_eq!(feed.items[0], Item::new());
    assert_eq!(feed.items[1], Item { title: "second".to_string(), description: "d".to_string() });
    assert_eq!(feed.live_items[0].description, "live");
    assert_eq!(feed.live_items[0].title, "");
    assert_eq!(LiveItem::new().title, "");
}

#[test]
fn default_values_are_empty() {
    assert_eq!(Feed::default(), Feed::new());
    assert_eq!(Item::default(), Item { title: String::new(), description: String::new() });
    assert_eq!(LiveItem::default(), LiveItem::new());
    assert!(Feed::default().items.is_empty());
}

#[test]
fn lines_are_built_from_the_titles_as_shown() {
    assert_eq!(completion_line("\"T\"", 1, Some("\"I1\"")), "\"T\"[1] -> \"I1\"");
    assert_eq!(completion_line("T", 20, Some("last")), "T[20] -> last");
    assert_eq!(completion_line("", 0, None), "[0] -> <no items>");
    assert_eq!(completion_line("'x'", 0, None), format!("'x'[0] -> {NO_ITEM_PLACEHOLDER}"));
    assert_eq!(failure_line("\"T\"", "broken"), "\"T\" -> Error: broken");
    assert_eq!(failure_line("", ""), " -> Error: ");
}
