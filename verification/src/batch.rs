//! What holds of every batch: the counters of the job tracker under any
//! interleaving of the workers.
//!
//! A batch is modelled by its documents, each as its sequence of events. A
//! job is the sequence of tracker operations that one document causes: its
//! registration by the coordinator, then what its worker asks for. A
//! schedule says in which order the jobs take their turns.

use crate::event::{is_terminal, well_terminated, EventView};
use crate::laws::{entries, lemma_run_counts, lemma_step_counts};
use crate::machine::{action_for, initial_state, step, ActionView, ParserView};
use crate::tracker::{apply_ops, fresh_tracker, TrackerOp, TrackerView};
use crate::worker::{lemma_terminal_completes, next_action, run};
use vstd::prelude::*;

verus! {

/// The tracker operations that an action stands for.
pub open spec fn ops_for(action: ActionView) -> Seq<TrackerOp> {
    match action {
        ActionView::Continue => Seq::empty(),
        ActionView::RecordItem => seq![TrackerOp::RecordItem],
        ActionView::Complete(_) => seq![TrackerOp::CompleteJob],
    }
}

/// The tracker operations of a worker that reads `events` from `state` on,
/// in the order in which it makes them.
pub open spec fn worker_ops(state: ParserView, events: Seq<EventView>) -> Seq<TrackerOp>
    decreases events.len(),
{
    if events.len() == 0 {
        Seq::empty()
    } else {
        ops_for(action_for(state, events.first())) + worker_ops(
            step(state, events.first()),
            events.drop_first(),
        )
    }
}

/// The tracker operations of one job: the coordinator registers it, then
/// the worker reads the document.
pub open spec fn job_ops(document: Seq<EventView>) -> Seq<TrackerOp> {
    seq![TrackerOp::RegisterJob] + worker_ops(initial_state(), document)
}

/// How many of `ops` record an item.
pub open spec fn records_in(ops: Seq<TrackerOp>) -> nat
    decreases ops.len(),
{
    if ops.len() == 0 {
        0
    } else {
        records_in(ops.drop_last()) + (if ops.last() is RecordItem {
            1nat
        } else {
            0nat
        })
    }
}

/// A worker records an item once for each entry that its document adds to
/// the feed, and then completes its job: once, as its last operation,
/// whether the document ends well or in an error.
pub proof fn lemma_worker_ops(state: ParserView, events: Seq<EventView>)
    requires
        well_terminated(events),
    ensures
        entries(run(state, events).feed) >= entries(state.feed),
        worker_ops(state, events).len() == entries(run(state, events).feed) - entries(
            state.feed,
        ) + 1,
        worker_ops(state, events).last() is CompleteJob,
        forall|i: int|
            0 <= i < worker_ops(state, events).len() - 1 ==> #[trigger] worker_ops(
                state,
                events,
            )[i] is RecordItem,
    decreases events.len(),
{
    let first = events.first();
    let rest = events.drop_first();
    lemma_terminal_completes(state, first);
    lemma_step_counts(state, first);
    lemma_run_counts(state, events);
    let head = ops_for(action_for(state, first));
    let tail = worker_ops(step(state, first), rest);
    assert(worker_ops(state, events) == head + tail);
    if events.len() == 1 {
        assert(tail =~= Seq::empty());
        assert(head + tail =~= seq![TrackerOp::CompleteJob]);
        assert(run(step(state, first), rest) == state);
    } else {
        assert(!is_terminal(events[0]));
        assert(rest.last() == events.last());
        assert forall|i: int| 0 <= i < rest.len() - 1 implies !is_terminal(#[trigger] rest[i]) by {
            assert(rest[i] == events[i + 1]);
        }
        lemma_worker_ops(step(state, first), rest);
        assert((head + tail).last() == tail.last());
        assert forall|i: int| 0 <= i < (head + tail).len() - 1 implies #[trigger] (head
            + tail)[i] is RecordItem by {
            if i >= head.len() {
                assert((head + tail)[i] == tail[i - head.len()]);
            }
        }
    }
}

/// The operations of a worker are those of its next action, followed by the
/// operations of the worker that goes on from there.
pub proof fn lemma_worker_ops_by_action(state: ParserView, events: Seq<EventView>)
    requires
        well_terminated(events),
    ensures
        worker_ops(state, events) == ops_for(next_action(state, events).1) + worker_ops(
            next_action(state, events).0,
            next_action(state, events).2,
        ),
    decreases events.len(),
{
    let first = events.first();
    let rest = events.drop_first();
    lemma_terminal_completes(state, first);
    if action_for(state, first) is Continue {
        assert(events.len() > 1);
        assert(rest.last() == events.last());
        assert forall|i: int| 0 <= i < rest.len() - 1 implies !is_terminal(#[trigger] rest[i]) by {
            assert(rest[i] == events[i + 1]);
        }
        lemma_worker_ops_by_action(step(state, first), rest);
        assert(ops_for(action_for(state, first)) + worker_ops(step(state, first), rest)
            =~= worker_ops(step(state, first), rest));
    }
}

/// A job's operations: it is registered first, records an item once for
/// each entry of its feed, and is completed last.
pub proof fn lemma_job_ops(document: Seq<EventView>)
    requires
        well_terminated(document),
    ensures
        job_ops(document).len() == entries(run(initial_state(), document).feed) + 2,
        job_ops(document).first() is RegisterJob,
        job_ops(document).last() is CompleteJob,
        forall|i: int|
            0 < i < job_ops(document).len() - 1 ==> #[trigger] job_ops(document)[i] is RecordItem,
{
    lemma_worker_ops(initial_state(), document);
    let ops = worker_ops(initial_state(), document);
    assert forall|i: int| 0 < i < job_ops(document).len() - 1 implies #[trigger] job_ops(
        document,
    )[i] is RecordItem by {
        assert(job_ops(document)[i] == ops[i - 1]);
    }
}

/// How many operations of job `job` a schedule has applied.
pub open spec fn applied(schedule: Seq<int>, job: int) -> nat
    decreases schedule.len(),
{
    if schedule.len() == 0 {
        0
    } else {
        applied(schedule.drop_last(), job) + (if schedule.last() == job {
            1nat
        } else {
            0nat
        })
    }
}

/// Whether `schedule` is a way in which the jobs of a batch can take turns:
/// each entry names a job that still has an operation to make. The order
/// among different jobs is free; each job keeps its own order, so that it is
/// registered before its worker does anything.
pub open spec fn valid_schedule(documents: Seq<Seq<EventView>>, schedule: Seq<int>) -> bool {
    forall|k: int|
        0 <= k < schedule.len() ==> 0 <= #[trigger] schedule[k] < documents.len() && applied(
            schedule.take(k),
            schedule[k],
        ) < job_ops(documents[schedule[k]]).len()
}

/// The tracker operations that a schedule applies, in its order.
pub open spec fn scheduled_ops(documents: Seq<Seq<EventView>>, schedule: Seq<int>) -> Seq<
    TrackerOp,
>
    decreases schedule.len(),
{
    if schedule.len() == 0 {
        Seq::empty()
    } else {
        scheduled_ops(documents, schedule.drop_last()).push(
            job_ops(documents[schedule.last()])[applied(
                schedule.drop_last(),
                schedule.last(),
            ) as int],
        )
    }
}

/// The tracker of a batch after a schedule.
pub open spec fn tracker_after(documents: Seq<Seq<EventView>>, schedule: Seq<int>) -> TrackerView {
    apply_ops(fresh_tracker(), scheduled_ops(documents, schedule))
}

/// Whether job `job` is registered after a schedule.
pub open spec fn registered(schedule: Seq<int>, job: int) -> bool {
    applied(schedule, job) > 0
}

/// Whether the worker of job `job` has terminated after a schedule.
pub open spec fn terminated(
    documents: Seq<Seq<EventView>>,
    schedule: Seq<int>,
    job: int,
) -> bool {
    applied(schedule, job) >= job_ops(documents[job]).len()
}

/// How many of the first `n` jobs are registered and not terminated.
pub open spec fn running_jobs(documents: Seq<Seq<EventView>>, schedule: Seq<int>, n: nat) -> nat
    decreases n,
{
    if n == 0 {
        0
    } else {
        running_jobs(documents, schedule, (n - 1) as nat) + (if registered(schedule, n - 1)
            && !terminated(documents, schedule, n - 1) {
            1nat
        } else {
            0nat
        })
    }
}

/// How many items the first `n` jobs have recorded after a schedule.
pub open spec fn recorded_items(
    documents: Seq<Seq<EventView>>,
    schedule: Seq<int>,
    n: nat,
) -> nat
    decreases n,
{
    if n == 0 {
        0
    } else {
        recorded_items(documents, schedule, (n - 1) as nat) + records_in(
            job_ops(documents[n - 1]).take(applied(schedule, n - 1) as int),
        )
    }
}

/// How many entries the feeds of the first `n` documents hold at their end.
pub open spec fn batch_entries(documents: Seq<Seq<EventView>>, n: nat) -> nat
    decreases n,
{
    if n == 0 {
        0
    } else {
        batch_entries(documents, (n - 1) as nat) + entries(
            run(initial_state(), documents[n - 1]).feed,
        )
    }
}

/// A prefix of a valid schedule is a valid schedule.
proof fn lemma_valid_prefix(documents: Seq<Seq<EventView>>, schedule: Seq<int>)
    requires
        valid_schedule(documents, schedule),
        schedule.len() > 0,
    ensures
        valid_schedule(documents, schedule.drop_last()),
        0 <= schedule.last() < documents.len(),
        applied(schedule.drop_last(), schedule.last()) < job_ops(
            documents[schedule.last()],
        ).len(),
{
    let prefix = schedule.drop_last();
    assert forall|k: int| 0 <= k < prefix.len() implies 0 <= #[trigger] prefix[k]
        < documents.len() && applied(prefix.take(k), prefix[k]) < job_ops(
        documents[prefix[k]],
    ).len() by {
        assert(prefix[k] == schedule[k]);
        assert(prefix.take(k) =~= schedule.take(k));
    }
    let k = schedule.len() - 1;
    assert(schedule[k] == schedule.last());
    assert(schedule.take(k) =~= prefix);
}

/// No job makes more operations than it has.
proof fn lemma_applied_bounded(documents: Seq<Seq<EventView>>, schedule: Seq<int>, job: int)
    requires
        valid_schedule(documents, schedule),
        0 <= job < documents.len(),
    ensures
        applied(schedule, job) <= job_ops(documents[job]).len(),
    decreases schedule.len(),
{
    if schedule.len() > 0 {
        lemma_valid_prefix(documents, schedule);
        lemma_applied_bounded(documents, schedule.drop_last(), job);
    }
}

/// One more turn of job `job` changes the counts over the first `n` jobs
/// only by what it changes of that job.
proof fn lemma_one_turn(documents: Seq<Seq<EventView>>, schedule: Seq<int>, n: nat)
    requires
        schedule.len() > 0,
        n <= documents.len(),
        valid_schedule(documents, schedule),
        forall|j: int| 0 <= j < documents.len() ==> well_terminated(#[trigger] documents[j]),
    ensures
        ({
            let job = schedule.last();
            let before = schedule.drop_last();
            let op = job_ops(documents[job])[applied(before, job) as int];
            &&& running_jobs(documents, schedule, n) == running_jobs(documents, before, n) + (
            if job < n && op is RegisterJob {
                1int
            } else if job < n && op is CompleteJob {
                -1int
            } else {
                0int
            })
            &&& recorded_items(documents, schedule, n) == recorded_items(documents, before, n) + (
            if job < n && op is RecordItem {
                1int
            } else {
                0int
            })
        }),
    decreases n,
{
    if n > 0 {
        let job = schedule.last();
        let before = schedule.drop_last();
        let m = n - 1;
        lemma_one_turn(documents, schedule, m as nat);
        lemma_valid_prefix(documents, schedule);
        if job == m {
            let ops = job_ops(documents[m]);
            let d = applied(before, m) as int;
            lemma_job_ops(documents[m]);
            assert(applied(schedule, m) == d + 1);
            assert(ops.take(d + 1).drop_last() =~= ops.take(d));
            assert(ops.take(d + 1).last() == ops[d]);
        } else {
            assert(applied(schedule, m) == applied(before, m));
        }
    }
}

/// Under every schedule the tracker counts the jobs that are registered and
/// not terminated, and the items that the workers have recorded so far.
/// So the count of outstanding jobs is never negative, however the workers
/// take turns.
pub proof fn lemma_tracker_counts(documents: Seq<Seq<EventView>>, schedule: Seq<int>)
    requires
        forall|j: int| 0 <= j < documents.len() ==> well_terminated(#[trigger] documents[j]),
        valid_schedule(documents, schedule),
    ensures
        tracker_after(documents, schedule).outstanding_count == running_jobs(
            documents,
            schedule,
            documents.len(),
        ),
        tracker_after(documents, schedule).outstanding_count >= 0,
        tracker_after(documents, schedule).total_items == recorded_items(
            documents,
            schedule,
            documents.len(),
        ),
    decreases schedule.len(),
{
    if schedule.len() == 0 {
        lemma_idle_counts(documents, schedule, documents.len());
    } else {
        let before = schedule.drop_last();
        lemma_valid_prefix(documents, schedule);
        lemma_tracker_counts(documents, before);
        lemma_one_turn(documents, schedule, documents.len());
        assert(scheduled_ops(documents, schedule).drop_last() =~= scheduled_ops(
            documents,
            before,
        ));
    }
}

/// Before any turn no job runs and no item is recorded.
proof fn lemma_idle_counts(documents: Seq<Seq<EventView>>, schedule: Seq<int>, n: nat)
    requires
        schedule.len() == 0,
    ensures
        running_jobs(documents, schedule, n) == 0,
        recorded_items(documents, schedule, n) == 0,
    decreases n,
{
    if n > 0 {
        lemma_idle_counts(documents, schedule, (n - 1) as nat);
        assert(job_ops(documents[n - 1]).take(0) =~= Seq::empty());
    }
}

/// The count of running jobs among the first `n` is zero exactly when none
/// of them is registered and not terminated.
proof fn lemma_running_zero(documents: Seq<Seq<EventView>>, schedule: Seq<int>, n: nat)
    ensures
        running_jobs(documents, schedule, n) == 0 <==> forall|j: int|
            0 <= j < n ==> !(registered(schedule, j) && !#[trigger] terminated(
                documents,
                schedule,
                j,
            )),
    decreases n,
{
    if n > 0 {
        lemma_running_zero(documents, schedule, (n - 1) as nat);
    }
}

/// Once every job of a batch is registered, the count of outstanding jobs is
/// zero if and only if every worker has terminated.
pub proof fn lemma_outstanding_zero(documents: Seq<Seq<EventView>>, schedule: Seq<int>)
    requires
        forall|j: int| 0 <= j < documents.len() ==> well_terminated(#[trigger] documents[j]),
        valid_schedule(documents, schedule),
        forall|j: int| 0 <= j < documents.len() ==> registered(schedule, j),
    ensures
        tracker_after(documents, schedule).outstanding_count == 0 <==> forall|j: int|
            0 <= j < documents.len() ==> #[trigger] terminated(documents, schedule, j),
{
    lemma_tracker_counts(documents, schedule);
    lemma_running_zero(documents, schedule, documents.len());
}

/// The items recorded by the first `n` jobs, once all of them have
/// terminated, are the entries of their feeds.
proof fn lemma_recorded_at_end(documents: Seq<Seq<EventView>>, schedule: Seq<int>, n: nat)
    requires
        n <= documents.len(),
        forall|j: int| 0 <= j < documents.len() ==> well_terminated(#[trigger] documents[j]),
        valid_schedule(documents, schedule),
        forall|j: int| 0 <= j < documents.len() ==> terminated(documents, schedule, j),
    ensures
        recorded_items(documents, schedule, n) == batch_entries(documents, n),
    decreases n,
{
    if n > 0 {
        let m = n - 1;
        lemma_recorded_at_end(documents, schedule, m as nat);
        let ops = job_ops(documents[m]);
        lemma_job_ops(documents[m]);
        lemma_applied_bounded(documents, schedule, m);
        assert(terminated(documents, schedule, m));
        assert(ops.take(ops.len() as int) =~= ops);
        lemma_records_in_job(ops, ops.len() as int);
    }
}

/// Among the first `d` operations of a job, all but the first and the last
/// of the job record an item.
proof fn lemma_records_in_job(ops: Seq<TrackerOp>, d: int)
    requires
        ops.len() >= 2,
        0 <= d <= ops.len(),
        ops.first() is RegisterJob,
        ops.last() is CompleteJob,
        forall|i: int| 0 < i < ops.len() - 1 ==> #[trigger] ops[i] is RecordItem,
    ensures
        records_in(ops.take(d)) == (if d == 0 {
            0
        } else if d == ops.len() {
            d - 2
        } else {
            d - 1
        }),
    decreases d,
{
    if d == 0 {
        assert(ops.take(0) =~= Seq::empty());
    } else {
        lemma_records_in_job(ops, d - 1);
        assert(ops.take(d).drop_last() =~= ops.take(d - 1));
        assert(ops.take(d).last() == ops[d - 1]);
    }
}

/// Across a batch, once every worker has terminated, with its document at
/// its end or at an error, the total of items is the sum over all documents
/// of the items and live items that each recorded, and no job is
/// outstanding: whatever the order in which the workers took their turns.
pub proof fn lemma_batch_total(documents: Seq<Seq<EventView>>, schedule: Seq<int>)
    requires
        forall|j: int| 0 <= j < documents.len() ==> well_terminated(#[trigger] documents[j]),
        valid_schedule(documents, schedule),
        forall|j: int| 0 <= j < documents.len() ==> terminated(documents, schedule, j),
    ensures
        tracker_after(documents, schedule).total_items == batch_entries(
            documents,
            documents.len(),
        ),
        tracker_after(documents, schedule).outstanding_count == 0,
{
    lemma_tracker_counts(documents, schedule);
    lemma_recorded_at_end(documents, schedule, documents.len());
    assert forall|j: int| 0 <= j < documents.len() implies registered(schedule, j) by {
        assert(terminated(documents, schedule, j));
    }
    lemma_outstanding_zero(documents, schedule);
}

} // verus!
