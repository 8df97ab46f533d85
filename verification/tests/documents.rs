use feed_ingest::feed::{Feed, Item, LiveItem};
use feed_ingest::machine::Action;
use feed_ingest::report::Report;
use feed_ingest::worker::{parse_document, Worker};

const SMALL_FEED: &str = "<rss><channel><title>T</title><item><title>I1</title><description>D1</description></item></channel></rss>";

const PODCAST_NS: &str = "https://podcastindex.org/namespace/1.0";

fn item(title: &str, description: &str) -> Item {
    Item { title: title.to_string(), description: description.to_string() }
}

fn live_item(title: &str, description: &str) -> LiveItem {
    LiveItem { title: title.to_string(), description: description.to_string() }
}

fn actions_of(document: &str) -> Vec<Action> {
    let mut worker = Worker::new(document.as_bytes());
    let mut actions = Vec::new();
    while let Some(action) = worker.advance() {
        actions.push(action);
    }
    assert!(worker.finished());
    assert_eq!(worker.advance(), None);
    actions
}

fn completed(title: &str, item_count: usize, last: Option<&str>) -> Report {
    Report::Completed {
        title: title.to_string(),
        item_count,
        last_item_title: last.map(|t| t.to_string()),
    }
}

#[test]
fn small_feed_yields_one_item() {
    let parsed = parse_document(SMALL_FEED.as_bytes());
    assert_eq!(
        parsed.feed,
        Feed {
            title: "T".to_string(),
            description: String::new(),
            items: vec![item("I1", "D1")],
            live_items: vec![],
        }
    );
    assert_eq!(parsed.feed.items.len(), 1);
    assert_eq!(parsed.feed.live_items.len(), 0);
    assert_eq!(parsed.report, completed("T", 1, Some("I1")));
    assert_eq!(parsed.report.line(), "\"T\"[1] -> \"I1\"");
}

#[test]
fn small_feed_asks_for_one_record_then_completion() {
    assert_eq!(
        actions_of(SMALL_FEED),
        vec![Action::RecordItem, Action::Complete(completed("T", 1, Some("I1")))]
    );
}

#[test]
fn worker_exposes_feed_while_reading() {
    let mut worker = Worker::new(SMALL_FEED.as_bytes());
    assert!(!worker.finished());
    assert_eq!(worker.advance(), Some(Action::RecordItem));
    assert_eq!(worker.feed().title, "T");
    assert_eq!(worker.feed().items, vec![item("", "")]);
    assert!(!worker.finished());
    assert!(matches!(worker.advance(), Some(Action::Complete(_))));
    assert!(worker.finished());
    assert_eq!(worker.feed().items, vec![item("I1", "D1")]);
    assert_eq!(worker.advance(), None);
    assert_eq!(worker.advance(), None);
}

#[test]
fn channel_description_is_recorded() {
    let parsed = parse_document(
        b"<rss><channel><title> Weekly </title><description>\n  About things \t</description></channel></rss>",
    );
    assert_eq!(parsed.feed.title, "Weekly");
    assert_eq!(parsed.feed.description, "About things");
}

#[test]
fn live_item_is_kept_apart_from_items() {
    let document = format!(
        "<rss xmlns:podcast=\"{PODCAST_NS}\"><channel><title>T</title>\
         <podcast:liveItem status=\"live\"><title>Now</title><description>On air</description></podcast:liveItem>\
         </channel></rss>"
    );
    let parsed = parse_document(document.as_bytes());
    assert_eq!(parsed.feed.live_items, vec![live_item("Now", "On air")]);
    assert!(parsed.feed.items.is_empty());
    assert_eq!(parsed.report, completed("T", 0, None));
    assert_eq!(
        actions_of(&document),
        vec![Action::RecordItem, Action::Complete(completed("T", 0, None))]
    );
}

#[test]
fn items_and_live_items_are_both_counted() {
    let document = format!(
        "<rss xmlns:podcast=\"{PODCAST_NS}\"><channel><title>Mixed</title>\
         <item><title>A</title></item>\
         <podcast:liveItem><title>L</title></podcast:liveItem>\
         <item><title>B</title><description>second</description></item>\
         </channel></rss>"
    );
    let actions = actions_of(&document);
    let records = actions.iter().filter(|a| **a == Action::RecordItem).count();
    assert_eq!(records, 3);
    let parsed = parse_document(document.as_bytes());
    assert_eq!(parsed.feed.items, vec![item("A", ""), item("B", "second")]);
    assert_eq!(parsed.feed.live_items, vec![live_item("L", "")]);
    assert_eq!(parsed.report, completed("Mixed", 2, Some("B")));
    assert_eq!(parsed.report.line(), "\"Mixed\"[2] -> \"B\"");
}

#[test]
fn unterminated_document_reports_once() {
    let document = "<rss><channel><title>Part</title><item><title>I1</title>";
    let actions = actions_of(document);
    assert_eq!(actions.len(), 2);
    assert_eq!(actions[0], Action::RecordItem);
    match &actions[1] {
        Action::Complete(Report::Malformed { partial_title, error }) => {
            assert_eq!(partial_title, "Part");
            assert!(!error.is_empty());
        },
        other => panic!("unexpected action {:?}", other),
    }
    let completions = actions.iter().filter(|a| matches!(a, Action::Complete(_))).count();
    assert_eq!(completions, 1);
}

#[test]
fn malformed_document_keeps_what_was_read() {
    let parsed = parse_document(b"<rss><channel><title>Part</title><item><title>I1</title></wrong>");
    assert_eq!(parsed.feed.title, "Part");
    assert_eq!(parsed.feed.items, vec![item("I1", "")]);
    match &parsed.report {
        Report::Malformed { partial_title, error } => {
            assert_eq!(partial_title, "Part");
            let line = parsed.report.line();
            assert_eq!(line, format!("\"Part\" -> Error: {error}"));
        },
        other => panic!("unexpected report {:?}", other),
    }
}

#[test]
fn bytes_that_are_no_document_are_malformed() {
    let parsed = parse_document(b"");
    assert!(matches!(parsed.report, Report::Malformed { .. }));
    assert_eq!(parsed.feed, Feed {
        title: String::new(),
        description: String::new(),
        items: vec![],
        live_items: vec![],
    });
    let parsed = parse_document(b"no markup at all");
    assert!(matches!(parsed.report, Report::Malformed { .. }));
}

#[test]
fn document_without_items_completes_with_placeholder() {
    let parsed = parse_document(b"<rss><channel><title>Empty</title></channel></rss>");
    assert_eq!(parsed.report, completed("Empty", 0, None));
    assert_eq!(parsed.report.line(), "\"Empty\"[0] -> <no items>");
    assert_eq!(
        actions_of("<rss><channel><title>Empty</title></channel></rss>"),
        vec![Action::Complete(completed("Empty", 0, None))]
    );
}

#[test]
fn nested_item_is_not_recorded() {
    let parsed = parse_document(
        b"<rss><channel><item><title>Outer</title><item><title>Inner</title></item></item></channel></rss>",
    );
    // The inner element is no item of its own; its title overwrites the outer one,
    // and its end tag closes the item scope.
    assert_eq!(parsed.feed.items, vec![item("Inner", "")]);
    assert_eq!(parsed.report, completed("", 1, Some("Inner")));
}

#[test]
fn channel_element_resets_the_scope() {
    let parsed = parse_document(
        b"<rss><channel><item><title>A</title><channel><title>Reset</title><item><title>B</title></item></channel></item></channel></rss>",
    );
    assert_eq!(parsed.feed.title, "Reset");
    assert_eq!(parsed.feed.items, vec![item("A", ""), item("B", "")]);
}

#[test]
fn later_text_overwrites_earlier_text() {
    let parsed = parse_document(
        b"<rss><channel><title>first<![CDATA[ second ]]></title></channel></rss>",
    );
    assert_eq!(parsed.feed.title, "second");
}

#[test]
fn text_outside_title_and_description_is_ignored() {
    let parsed = parse_document(
        b"<rss><channel><link>http://example.com</link><item><guid>1</guid></item></channel></rss>",
    );
    assert_eq!(parsed.feed.title, "");
    assert_eq!(parsed.feed.items, vec![item("", "")]);
}

#[test]
fn unprefixed_names_are_taken_as_written() {
    let parsed = parse_document(b"<rss><channel><ITEM><title>X</title></ITEM></channel></rss>");
    assert!(parsed.feed.items.is_empty());
    assert_eq!(parsed.feed.title, "X");
}

#[test]
fn prefixed_names_are_lower_cased() {
    let document = format!(
        "<rss xmlns:Podcast=\"{PODCAST_NS}\"><channel><Podcast:LiveItem><title>L</title></Podcast:LiveItem></channel></rss>"
    );
    let parsed = parse_document(document.as_bytes());
    assert_eq!(parsed.feed.live_items, vec![live_item("L", "")]);
}

#[test]
fn many_items_are_counted_in_decimal() {
    let mut document = String::from("<rss><channel><title>Big</title>");
    for i in 0..120 {
        document.push_str(&format!("<item><title>n{i}</title></item>"));
    }
    document.push_str("</channel></rss>");
    let parsed = parse_document(document.as_bytes());
    assert_eq!(parsed.feed.items.len(), 120);
    assert_eq!(parsed.report.line(), "\"Big\"[120] -> \"n119\"");
}

#[test]
fn titles_are_quoted_with_escapes() {
    let parsed = parse_document(
        b"<rss><channel><title>say &quot;hi&quot;</title><item><title>a\\b</title></item></channel></rss>",
    );
    assert_eq!(parsed.feed.title, "say \"hi\"");
    assert_eq!(parsed.report.line(), "\"say \\\"hi\\\"\"[1] -> \"a\\\\b\"");
}
