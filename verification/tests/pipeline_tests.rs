use book_sync::book::{BookSnapshot, DepthDiff, PriceLevel, Side};
use book_sync::pipeline::{Orchestrator, PipelineAction, PublishOutcome, SyncState};
use book_sync::queue::DiffQueue;
use book_sync::record::serialize_book_order;

fn level(price: u64, quantity: u64) -> PriceLevel {
    PriceLevel { price, quantity }
}

fn diff_with_id(id: u64) -> DepthDiff {
    DepthDiff { first_update_id: id, final_update_id: id, bids: vec![], asks: vec![] }
}

#[test]
fn queue_overflow_drops_oldest_and_reports_once() {
    let mut queue = DiffQueue::new(100);
    for id in 0..150u64 {
        queue.enqueue(diff_with_id(id));
    }
    assert_eq!(queue.len(), 100);
    assert_eq!(queue.dropped_so_far(), 50);
    // The oldest 50 diffs were discarded: the head is diff 50.
    let head = queue.pop().expect("queue is not empty");
    assert_eq!(head.first_update_id, 50);
    // The overflow is surfaced exactly once.
    assert!(queue.take_overflow());
    assert!(!queue.take_overflow());
}

#[test]
fn queue_below_capacity_keeps_order_without_overflow() {
    let mut queue = DiffQueue::new(4);
    for id in 0..3u64 {
        queue.enqueue(diff_with_id(id));
    }
    assert_eq!(queue.len(), 3);
    assert_eq!(queue.dropped_so_far(), 0);
    assert!(!queue.take_overflow());
    for id in 0..3u64 {
        assert_eq!(queue.pop().expect("non-empty").first_update_id, id);
    }
    assert!(queue.pop().is_none());
}

#[test]
fn queue_clear_discards_contents_and_keeps_accounting() {
    let mut queue = DiffQueue::new(2);
    for id in 0..3u64 {
        queue.enqueue(diff_with_id(id));
    }
    queue.clear();
    assert_eq!(queue.len(), 0);
    assert_eq!(queue.capacity(), 2);
    assert_eq!(queue.dropped_so_far(), 1);
    assert!(queue.take_overflow());
}

#[test]
fn diffs_arriving_before_the_snapshot_are_buffered_and_replayed() {
    let mut orch = Orchestrator::new(16);
    orch.start();
    // The stream is already live while the snapshot is awaited.
    orch.enqueue_diff(DepthDiff {
        first_update_id: 11,
        final_update_id: 11,
        bids: vec![level(99, 4)],
        asks: vec![],
    });
    assert_eq!(orch.queue.len(), 1);
    orch.on_snapshot(&BookSnapshot {
        last_update_id: 10,
        bids: vec![level(100, 5)],
        asks: vec![],
    });
    // Once seeded, the buffered diff is replayed in order.
    let action = orch.tick();
    assert!(matches!(action, PipelineAction::Publish(_)));
    assert_eq!(orch.rec.book.get_quantity(Side::Bid, 99), Some(4));
    assert_eq!(orch.rec.book.last_applied_update_id, 11);
}

#[test]
fn publish_failure_never_halts_the_loop() {
    let mut orch = Orchestrator::new(8);
    let failure = PublishOutcome {
        success: false,
        error: Some(book_sync::pipeline::ErrorKind::PublishError),
    };
    let success = PublishOutcome { success: true, error: None };
    let halt = orch.on_publish_outcome(&failure);
    assert!(!halt);
    // Record N failed; record N + 1 is still attempted.
    let halt = orch.on_publish_outcome(&success);
    assert!(!halt);
    assert_eq!(orch.stats.attempted, 2);
    assert_eq!(orch.stats.failed, 1);
}

#[test]
fn end_to_end_removal_emits_exactly_one_record() {
    let mut orch = Orchestrator::new(16);
    let action = orch.start();
    assert!(matches!(action, PipelineAction::FetchSnapshot));
    orch.on_snapshot(&BookSnapshot {
        last_update_id: 10,
        bids: vec![level(100, 5)],
        asks: vec![level(101, 3)],
    });
    assert_eq!(orch.rec.state, SyncState::Synced);
    orch.enqueue_diff(DepthDiff {
        first_update_id: 11,
        final_update_id: 11,
        bids: vec![level(100, 0)],
        asks: vec![],
    });
    let action = orch.tick();
    let records = match action {
        PipelineAction::Publish(records) => records,
        other => panic!("expected a publish action, got {:?}", other),
    };
    assert_eq!(records.len(), 1);
    assert!(records[0].is_buy);
    assert_eq!(records[0].quantity, 0);
    assert_eq!(records[0].price, 100);
    let payload = serialize_book_order(&records[0]).expect("identity strings are plain");
    assert!(payload.contains("\"is_buy\":true"));
    assert!(payload.contains("\"quantity\":0"));
    // The removal left the bid side empty and advanced the update id.
    assert_eq!(orch.rec.book.side_len(Side::Bid), 0);
    assert_eq!(orch.rec.book.get_quantity(Side::Ask, 101), Some(3));
    assert_eq!(orch.rec.book.last_applied_update_id, 11);
    // Reporting the publish outcome keeps the loop running.
    assert!(!orch.on_publish_outcome(&PublishOutcome { success: true, error: None }));
    assert!(matches!(orch.tick(), PipelineAction::Idle));
}

#[test]
fn gap_in_stream_forces_resync_and_drops_diffs_meanwhile() {
    let mut orch = Orchestrator::new(16);
    orch.start();
    orch.on_snapshot(&BookSnapshot {
        last_update_id: 10,
        bids: vec![level(100, 5)],
        asks: vec![],
    });
    orch.enqueue_diff(DepthDiff {
        first_update_id: 20,
        final_update_id: 21,
        bids: vec![level(100, 9)],
        asks: vec![],
    });
    let action = orch.tick();
    assert!(matches!(action, PipelineAction::FetchSnapshot));
    assert_eq!(orch.rec.state, SyncState::Resyncing);
    // The gapped diff's levels were not applied: the book was discarded.
    assert_eq!(orch.rec.book.side_len(Side::Bid), 0);
    // Diffs received while resyncing are dropped, not buffered.
    orch.enqueue_diff(diff_with_id(22));
    assert_eq!(orch.queue.len(), 0);
    // The fresh snapshot supersedes everything and resyncs the book.
    orch.on_snapshot(&BookSnapshot {
        last_update_id: 30,
        bids: vec![level(100, 2)],
        asks: vec![],
    });
    assert_eq!(orch.rec.state, SyncState::Synced);
    assert_eq!(orch.rec.book.get_quantity(Side::Bid, 100), Some(2));
    assert_eq!(orch.rec.book.last_applied_update_id, 30);
}

#[test]
fn queue_overflow_forces_one_resync() {
    let mut orch = Orchestrator::new(2);
    orch.start();
    orch.on_snapshot(&BookSnapshot { last_update_id: 0, bids: vec![], asks: vec![] });
    for id in 1..=3u64 {
        orch.enqueue_diff(diff_with_id(id));
    }
    assert_eq!(orch.queue.len(), 2);
    let action = orch.tick();
    assert!(matches!(action, PipelineAction::FetchSnapshot));
    assert_eq!(orch.rec.state, SyncState::Resyncing);
}

#[test]
fn snapshot_failure_is_fatal_only_at_startup() {
    let mut orch = Orchestrator::new(8);
    orch.start();
    assert!(matches!(orch.on_snapshot_failed(), PipelineAction::Abort));
    orch.on_snapshot(&BookSnapshot { last_update_id: 1, bids: vec![], asks: vec![] });
    assert!(matches!(orch.on_snapshot_failed(), PipelineAction::FetchSnapshot));
}

#[test]
fn stream_closed_restarts_or_stops_as_configured() {
    let mut orch = Orchestrator::new(8);
    assert!(matches!(orch.on_stream_closed(true), PipelineAction::RestartStream));
    assert!(matches!(orch.on_stream_closed(false), PipelineAction::Stop));
}

#[test]
fn cancellation_stops_the_loop() {
    let mut orch = Orchestrator::new(8);
    orch.start();
    orch.cancel();
    assert!(matches!(orch.tick(), PipelineAction::Stop));
}

#[test]
fn stale_diff_is_skipped_by_the_loop() {
    let mut orch = Orchestrator::new(8);
    orch.start();
    orch.on_snapshot(&BookSnapshot {
        last_update_id: 10,
        bids: vec![level(100, 5)],
        asks: vec![],
    });
    orch.enqueue_diff(DepthDiff {
        first_update_id: 3,
        final_update_id: 9,
        bids: vec![level(100, 1)],
        asks: vec![],
    });
    assert!(matches!(orch.tick(), PipelineAction::Idle));
    assert_eq!(orch.rec.book.get_quantity(Side::Bid, 100), Some(5));
    assert_eq!(orch.rec.book.last_applied_update_id, 10);
}
