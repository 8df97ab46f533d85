//! What a worker reports when it stops, and the line that shows it.

use crate::feed::FeedView;
use crate::text::{debug_quoted, decimal, decimal_digits, quote};
use vstd::prelude::*;
use vstd::string::*;

verus! {

/// A report as plain text and numbers.
pub enum ReportView {
    Completed { title: Seq<char>, item_count: nat, last_item_title: Option<Seq<char>> },
    Malformed { partial_title: Seq<char>, error: Seq<char> },
}

/// The one report that a worker makes for its document.
#[derive(Debug, Clone, PartialEq, Eq)]
pub enum Report {
    /// The document was read to its end.
    Completed {
        /// The feed's title.
        title: String,
        /// How many items the feed holds.
        item_count: usize,
        /// The title of the item recorded last; `None` for a feed without items.
        last_item_title: Option<String>,
    },
    /// The document was malformed.
    Malformed {
        /// The feed's title as far as it was read.
        partial_title: String,
        /// The tokenizer's description of the error.
        error: String,
    },
}

impl View for Report {
    type V = ReportView;

    open spec fn view(&self) -> ReportView {
        match self {
            Report::Completed { title, item_count, last_item_title } => ReportView::Completed {
                title: title@,
                item_count: *item_count as nat,
                last_item_title: match last_item_title {
                    Some(last) => Some(last@),
                    None => None,
                },
            },
            Report::Malformed { partial_title, error } => ReportView::Malformed {
                partial_title: partial_title@,
                error: error@,
            },
        }
    }
}

/// The report for a feed whose document was read to its end.
pub open spec fn completion_report(feed: FeedView) -> ReportView {
    ReportView::Completed {
        title: feed.title,
        item_count: feed.items.len(),
        last_item_title: if feed.items.len() > 0 {
            Some(feed.items.last().title)
        } else {
            None
        },
    }
}

/// The report for a feed whose document turned out malformed.
pub open spec fn failure_report(feed: FeedView, error: Seq<char>) -> ReportView {
    ReportView::Malformed { partial_title: feed.title, error }
}

/// What stands in a completion line in place of the last item's title where
/// the feed has no item.
pub const NO_ITEM_PLACEHOLDER: &'static str = "<no items>";

/// The line for a completed document, from its title and the title of its
/// last item as they are to be shown.
pub open spec fn completion_line_text(
    shown_title: Seq<char>,
    item_count: nat,
    shown_last_item_title: Option<Seq<char>>,
) -> Seq<char> {
    shown_title + "["@ + decimal_digits(item_count) + "] -> "@ + (match shown_last_item_title {
        Some(last) => last,
        None => NO_ITEM_PLACEHOLDER@,
    })
}

/// The line for a malformed document, from its title as it is to be shown.
pub open spec fn failure_line_text(shown_title: Seq<char>, error: Seq<char>) -> Seq<char> {
    shown_title + " -> Error: "@ + error
}

/// The line that shows a report: titles are shown quoted and escaped.
pub open spec fn report_line(report: ReportView) -> Seq<char> {
    match report {
        ReportView::Completed { title, item_count, last_item_title } => completion_line_text(
            debug_quoted(title),
            item_count,
            match last_item_title {
                Some(last) => Some(debug_quoted(last)),
                None => None,
            },
        ),
        ReportView::Malformed { partial_title, error } => failure_line_text(
            debug_quoted(partial_title),
            error,
        ),
    }
}

/// The line for a completed document: `title[count] -> last title`, with
/// the placeholder where there is no last item. The titles stand in the line
/// as they are given.
pub fn completion_line(
    shown_title: &str,
    item_count: usize,
    shown_last_item_title: Option<&str>,
) -> (line: String)
    ensures
        line@ == completion_line_text(
            shown_title@,
            item_count as nat,
            match shown_last_item_title {
                Some(last) => Some(last@),
                None => None,
            },
        ),
{
    let mut line = shown_title.to_owned();
    line.append("[");
    line.append(decimal(item_count as u64).as_str());
    line.append("] -> ");
    match shown_last_item_title {
        Some(last) => {
            line.append(last);
        },
        None => {
            line.append(NO_ITEM_PLACEHOLDER);
        },
    }
    line
}

/// The line for a malformed document: `title -> Error: description`. The
/// title stands in the line as it is given.
pub fn failure_line(shown_title: &str, error: &str) -> (line: String)
    ensures
        line@ == failure_line_text(shown_title@, error@),
{
    let mut line = shown_title.to_owned();
    line.append(" -> Error: ");
    line.append(error);
    line
}

impl Report {
    /// The line that shows this report: `"title"[count] -> "last title"` for a
    /// completed document, with the placeholder where it has no item, and
    /// `"title" -> Error: description` for a malformed one.
    pub fn line(&self) -> (line: String)
        ensures
            line@ == report_line(self@),
    {
        match self {
            Report::Completed { title, item_count, last_item_title } => {
                let shown_title = quote(title.as_str());
                match last_item_title {
                    Some(last) => {
                        let shown_last = quote(last.as_str());
                        completion_line(shown_title.as_str(), *item_count, Some(shown_last.as_str()))
                    },
                    None => completion_line(shown_title.as_str(), *item_count, None),
                }
            },
            Report::Malformed { partial_title, error } => {
                let shown_title = quote(partial_title.as_str());
                failure_line(shown_title.as_str(), error.as_str())
            },
        }
    }
}

} // verus!
