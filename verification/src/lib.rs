//! Streaming ingestion of RSS and podcast feeds.
//!
//! A document's bytes are tokenized into parse events; a small state machine
//! routes the text of each event to the feed, to its items or to its live
//! items; a job tracker counts the parses that still run and the items that
//! all documents gave. Every function is verified against a contract over
//! plain mathematical values.

pub mod attribute;
pub mod batch;
pub mod event;
pub mod feed;
pub mod laws;
pub mod machine;
pub mod report;
pub mod source;
pub mod text;
pub mod tracker;
pub mod worker;
