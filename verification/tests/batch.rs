use feed_ingest::machine::Action;
use feed_ingest::tracker::{JobTracker, Snapshot};
use feed_ingest::worker::Worker;

#[test]
fn new_tracker_is_idle() {
    let tracker = JobTracker::new();
    assert_eq!(tracker.snapshot(), Snapshot { outstanding_count: 0, total_items: 0 });
}

#[test]
fn jobs_are_counted_up_and_down() {
    let mut tracker = JobTracker::new();
    tracker.register_job();
    tracker.register_job();
    assert_eq!(tracker.snapshot().outstanding_count, 2);
    tracker.complete_job();
    assert_eq!(tracker.snapshot().outstanding_count, 1);
    tracker.complete_job();
    assert_eq!(tracker.snapshot(), Snapshot { outstanding_count: 0, total_items: 0 });
}

#[test]
fn items_are_counted_apart_from_jobs() {
    let mut tracker = JobTracker::new();
    tracker.register_job();
    tracker.record_item();
    tracker.record_item();
    tracker.record_item();
    assert_eq!(tracker.snapshot(), Snapshot { outstanding_count: 1, total_items: 3 });
    tracker.complete_job();
    assert_eq!(tracker.snapshot(), Snapshot { outstanding_count: 0, total_items: 3 });
}

fn drive(tracker: &mut JobTracker, workers: &mut Vec<Worker<'_>>, order: &[usize]) {
    for &i in order {
        match workers[i].advance() {
            Some(Action::RecordItem) => tracker.record_item(),
            Some(Action::Complete(_)) => tracker.complete_job(),
            Some(Action::Continue) => panic!("a worker never hands out Continue"),
            None => {},
        }
    }
}

#[test]
fn batch_total_is_the_sum_over_documents() {
    let documents: [&[u8]; 4] = [
        b"<rss><channel><title>A</title><item/><item/></channel></rss>",
        b"<rss><channel><title>B</title></channel></rss>",
        b"<rss xmlns:podcast=\"p\"><channel><podcast:liveItem/><item/><item/>",
        b"not xml",
    ];
    let mut tracker = JobTracker::new();
    let mut workers = Vec::new();
    for document in documents {
        tracker.register_job();
        workers.push(Worker::new(document));
    }
    assert_eq!(tracker.snapshot().outstanding_count, 4);
    // The workers take turns in an arbitrary order.
    drive(&mut tracker, &mut workers, &[2, 0, 3, 2]);
    assert_eq!(tracker.snapshot(), Snapshot { outstanding_count: 3, total_items: 3 });
    drive(&mut tracker, &mut workers, &[1, 0, 2, 3, 3, 0]);
    assert_eq!(tracker.snapshot(), Snapshot { outstanding_count: 1, total_items: 5 });
    drive(&mut tracker, &mut workers, &[2, 2, 1, 0]);
    assert_eq!(tracker.snapshot(), Snapshot { outstanding_count: 0, total_items: 5 });
    let recorded: usize =
        workers.iter().map(|w| w.feed().items.len() + w.feed().live_items.len()).sum();
    assert_eq!(recorded, 5);
    assert!(workers.iter().all(|w| w.finished()));
}

#[test]
fn failing_worker_leaves_the_others_alone() {
    let good: &[u8] = b"<rss><channel><title>G</title><item><title>g</title></item></channel></rss>";
    let bad: &[u8] = b"<rss><channel><title>B</title><item>";
    let mut tracker = JobTracker::new();
    tracker.register_job();
    tracker.register_job();
    let mut workers = vec![Worker::new(good), Worker::new(bad)];
    drive(&mut tracker, &mut workers, &[0, 1, 1, 1, 1]);
    assert_eq!(tracker.snapshot(), Snapshot { outstanding_count: 1, total_items: 2 });
    assert!(workers[1].finished());
    assert!(!workers[0].finished());
    drive(&mut tracker, &mut workers, &[0]);
    assert_eq!(tracker.snapshot(), Snapshot { outstanding_count: 0, total_items: 2 });
    assert_eq!(workers[0].feed().items[0].title, "g");
}

#[test]
fn summary_waits_for_the_last_job() {
    let mut tracker = JobTracker::new();
    assert_eq!(tracker.snapshot().summary(), Some("Done!\nTotal items parsed: 0".to_string()));
    tracker.register_job();
    tracker.record_item();
    assert_eq!(tracker.snapshot().summary(), None);
    for _ in 0..11 {
        tracker.record_item();
    }
    assert_eq!(tracker.snapshot().summary(), None);
    tracker.complete_job();
    assert_eq!(tracker.snapshot().summary(), Some("Done!\nTotal items parsed: 12".to_string()));
    assert_eq!(feed_ingest::tracker::POLL_INTERVAL_SECONDS, 1);
}
