//! The job tracker: how many parses are still running, and how many items
//! all documents have given so far.
//!
//! The tracker is a plain value. Workers share it by putting it behind one
//! lock, so that each operation, and each snapshot of both counters, is
//! taken as a whole.

use crate::text::{decimal, decimal_digits};
use vstd::prelude::*;
use vstd::string::*;

verus! {

/// The seconds that the coordinator waits between two looks at the tracker.
pub const POLL_INTERVAL_SECONDS: u64 = 1;

/// The two counters as mathematical integers.
pub struct TrackerView {
    pub outstanding_count: int,
    pub total_items: int,
}

/// One operation on the tracker.
pub enum TrackerOp {
    /// The coordinator registers a job, before it spawns the worker.
    RegisterJob,
    /// A worker has recorded an item or a live item.
    RecordItem,
    /// A worker has ended, with or without an error.
    CompleteJob,
}

/// The tracker before any job.
pub open spec fn fresh_tracker() -> TrackerView {
    TrackerView { outstanding_count: 0, total_items: 0 }
}

/// The counters after one operation.
pub open spec fn apply_op(tracker: TrackerView, op: TrackerOp) -> TrackerView {
    match op {
        TrackerOp::RegisterJob => TrackerView {
            outstanding_count: tracker.outstanding_count + 1,
            ..tracker
        },
        TrackerOp::RecordItem => TrackerView { total_items: tracker.total_items + 1, ..tracker },
        TrackerOp::CompleteJob => TrackerView {
            outstanding_count: tracker.outstanding_count - 1,
            ..tracker
        },
    }
}

/// The counters after a sequence of operations.
pub open spec fn apply_ops(tracker: TrackerView, ops: Seq<TrackerOp>) -> TrackerView
    decreases ops.len(),
{
    if ops.len() == 0 {
        tracker
    } else {
        apply_op(apply_ops(tracker, ops.drop_last()), ops.last())
    }
}

/// Both counters, read together.
#[derive(Debug, Clone, Copy, PartialEq, Eq)]
pub struct Snapshot {
    /// How many registered jobs have not ended.
    pub outstanding_count: u64,
    /// How many items and live items were recorded.
    pub total_items: u64,
}

/// The summary of a batch, once no job is outstanding: `Done!`, and on the
/// next line the total of items.
pub open spec fn summary_text(total_items: nat) -> Seq<char> {
    "Done!\nTotal items parsed: "@ + decimal_digits(total_items)
}

impl Snapshot {
    /// What the coordinator does with a snapshot: `None` while a job is
    /// outstanding, so that it waits and looks again; the summary to print
    /// once none is.
    pub fn summary(&self) -> (summary: Option<String>)
        ensures
            self.outstanding_count != 0 ==> summary is None,
            self.outstanding_count == 0 ==> summary is Some && summary->0@ == summary_text(
                self.total_items as nat,
            ),
    {
        if self.outstanding_count == 0 {
            let mut text = "Done!\nTotal items parsed: ".to_owned();
            text.append(decimal(self.total_items).as_str());
            Some(text)
        } else {
            None
        }
    }
}

/// The shared counters of a batch.
#[derive(Debug)]
pub struct JobTracker {
    outstanding_count: u64,
    total_items: u64,
}

impl View for JobTracker {
    type V = TrackerView;

    closed spec fn view(&self) -> TrackerView {
        TrackerView {
            outstanding_count: self.outstanding_count as int,
            total_items: self.total_items as int,
        }
    }
}

impl JobTracker {
    /// A tracker with both counters at zero.
    pub fn new() -> (tracker: JobTracker)
        ensures
            tracker@ == fresh_tracker(),
    {
        JobTracker { outstanding_count: 0, total_items: 0 }
    }

    /// Counts one more running job.
    pub fn register_job(&mut self)
        requires
            old(self)@.outstanding_count < u64::MAX,
        ensures
            final(self)@ == apply_op(old(self)@, TrackerOp::RegisterJob),
    {
        self.outstanding_count = self.outstanding_count + 1;
    }

    /// Counts one running job less.
    pub fn complete_job(&mut self)
        requires
            old(self)@.outstanding_count > 0,
        ensures
            final(self)@ == apply_op(old(self)@, TrackerOp::CompleteJob),
    {
        self.outstanding_count = self.outstanding_count - 1;
    }

    /// Counts one more item.
    pub fn record_item(&mut self)
        requires
            old(self)@.total_items < u64::MAX,
        ensures
            final(self)@ == apply_op(old(self)@, TrackerOp::RecordItem),
    {
        self.total_items = self.total_items + 1;
    }

    /// Both counters as they stand together.
    pub fn snapshot(&self) -> (snapshot: Snapshot)
        ensures
            0 <= self@.outstanding_count <= u64::MAX,
            0 <= self@.total_items <= u64::MAX,
            snapshot.outstanding_count == self@.outstanding_count,
            snapshot.total_items == self@.total_items,
    {
        Snapshot { outstanding_count: self.outstanding_count, total_items: self.total_items }
    }
}

} // verus!
