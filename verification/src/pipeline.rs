use vstd::prelude::*;
use crate::book::{
    apply_levels, diff_applicable, diff_gap, ApplyResult, BookSnapshot, DepthDiff, OrderBook,
};
use crate::queue::DiffQueue;
use crate::record::{records_match, translate_changed, BookOrder};

verus! {

/// The error taxonomy of the pipeline.
#[derive(Clone, Copy, PartialEq, Eq, Structural, Debug)]
pub enum ErrorKind {
    /// Network or connection failure; retryable.
    TransportError,
    /// Malformed payload; not retryable without a new payload.
    ParseError,
    /// Diff continuity violated; triggers a resync, not fatal.
    SequenceGapError,
    /// Backpressure exceeded; triggers a resync, not fatal.
    QueueOverflowError,
    /// The bus rejected or failed to deliver one record; logged,
    /// the pipeline continues.
    PublishError,
}

/// The per-attempt report of the Publisher; not persisted.
#[derive(Clone, Copy, PartialEq, Eq, Structural, Debug)]
pub struct PublishOutcome {
    pub success: bool,
    pub error: Option<ErrorKind>,
}

/// The Reconciler's states.
#[derive(Clone, Copy, PartialEq, Eq, Structural, Debug)]
pub enum SyncState {
    /// Nothing has happened yet.
    Uninitialized,
    /// A snapshot has been requested and is awaited.
    Seeding,
    /// The book tracks the live stream.
    Synced,
    /// A gap or an overflow was detected: the book's levels are
    /// discarded and a fresh snapshot is awaited; diffs arriving in
    /// this state are dropped, since the new snapshot supersedes them.
    Resyncing,
}

/// The owner of the authoritative book: consumes the snapshot once,
/// then consumes diffs continuously under the continuity rule.
pub struct Reconciler {
    pub state: SyncState,
    pub book: OrderBook,
}

impl Reconciler {
    pub open spec fn well_formed(self) -> bool {
        self.book.well_formed()
    }

    /// A fresh reconciler with an empty book.
    pub fn new() -> (rec: Self)
        ensures
            rec.state == SyncState::Uninitialized,
            rec.book.bids@ == Map::<u64, u64>::empty(),
            rec.book.asks@ == Map::<u64, u64>::empty(),
            rec.book.last_applied_update_id == 0,
            rec.well_formed(),
    {
        Reconciler { state: SyncState::Uninitialized, book: OrderBook::new() }
    }

    /// Pipeline start: begin seeding.
    pub fn start(&mut self)
        requires
            old(self).state == SyncState::Uninitialized,
        ensures
            final(self).state == SyncState::Seeding,
            final(self).book == old(self).book,
    {
        self.state = SyncState::Seeding;
    }

    /// A fresh snapshot arrived while one was awaited: it becomes the
    /// initial book, whatever the book held before, and the reconciler
    /// is synced.
    pub fn on_snapshot(&mut self, snapshot: &BookSnapshot)
        requires
            old(self).state == SyncState::Seeding || old(self).state == SyncState::Resyncing,
        ensures
            final(self).state == SyncState::Synced,
            final(self).book.bids@ == apply_levels(Map::<u64, u64>::empty(), snapshot.bids@),
            final(self).book.asks@ == apply_levels(Map::<u64, u64>::empty(), snapshot.asks@),
            final(self).book.last_applied_update_id == snapshot.last_update_id,
            final(self).well_formed(),
    {
        self.book.seed(snapshot);
        self.state = SyncState::Synced;
    }

    /// Offer one diff while synced. An applicable diff is applied and
    /// the reconciler stays synced; a stale diff is dropped; a gap
    /// sends the reconciler to Resyncing, with the book's levels
    /// discarded rather than corrupted by a hole.
    pub fn on_diff(&mut self, diff: &DepthDiff) -> (result: ApplyResult)
        requires
            old(self).state == SyncState::Synced,
            old(self).well_formed(),
        ensures
            final(self).well_formed(),
            result == ApplyResult::Applied <==> diff_applicable(
                *diff,
                old(self).book.last_applied_update_id,
            ),
            result == ApplyResult::Gap <==> diff_gap(
                *diff,
                old(self).book.last_applied_update_id,
            ),
            result == ApplyResult::Applied ==> {
                &&& final(self).state == SyncState::Synced
                &&& final(self).book.bids@ == apply_levels(old(self).book.bids@, diff.bids@)
                &&& final(self).book.asks@ == apply_levels(old(self).book.asks@, diff.asks@)
                &&& final(self).book.last_applied_update_id == diff.final_update_id
            },
            result == ApplyResult::Stale ==> {
                &&& final(self).state == SyncState::Synced
                &&& final(self).book.bids@ == old(self).book.bids@
                &&& final(self).book.asks@ == old(self).book.asks@
                &&& final(self).book.last_applied_update_id == old(
                    self,
                ).book.last_applied_update_id
            },
            result == ApplyResult::Gap ==> {
                &&& final(self).state == SyncState::Resyncing
                &&& final(self).book.bids@ == Map::<u64, u64>::empty()
                &&& final(self).book.asks@ == Map::<u64, u64>::empty()
                &&& final(self).book.last_applied_update_id == old(
                    self,
                ).book.last_applied_update_id
            },
            final(self).book.last_applied_update_id >= old(self).book.last_applied_update_id,
    {
        let result = self.book.apply_diff(diff);
        if let ApplyResult::Gap = result {
            self.book.discard();
            self.state = SyncState::Resyncing;
        }
        result
    }
}

/// Delivery accounting: how many publishes were attempted and how many
/// of them the bus reported as failed. Counting saturates at the
/// largest representable value instead of wrapping.
#[derive(Clone, Copy, PartialEq, Eq, Structural, Debug)]
pub struct PublishStats {
    pub attempted: u64,
    pub failed: u64,
}

/// What the driving loop should do next.
#[derive(Debug)]
pub enum PipelineAction {
    /// Fetch a fresh snapshot and hand it to `on_snapshot`.
    FetchSnapshot,
    /// Publish these records, reporting one outcome each.
    Publish(Vec<BookOrder>),
    /// Nothing to do right now: yield without spinning.
    Idle,
    /// Cancellation was requested: close the subscription and exit.
    Stop,
    /// The book cannot be seeded at startup: exit with a diagnostic.
    Abort,
    /// The stream closed and configuration asks for a restart.
    RestartStream,
}

/// True when the action publishes exactly the changed levels of the
/// given diff, bids first, then asks.
pub open spec fn publishes_changes_of(action: PipelineAction, diff: DepthDiff) -> bool {
    match action {
        PipelineAction::Publish(records) => records_match(records@, diff),
        _ => false,
    }
}

/// The pipeline's decision core. The driving loop feeds it what
/// happened (a diff arrived, a snapshot arrived, a publish was
/// reported, cancellation) and performs the actions it returns; every
/// decision in between is made here.
pub struct Orchestrator {
    pub rec: Reconciler,
    pub queue: DiffQueue,
    pub stats: PublishStats,
    pub initial_seeded: bool,
    pub cancelled: bool,
}

/// The two orchestrators look the same to every observer.
pub open spec fn same_observables(pre: Orchestrator, post: Orchestrator) -> bool {
    &&& post.rec.state == pre.rec.state
    &&& post.rec.book.bids@ == pre.rec.book.bids@
    &&& post.rec.book.asks@ == pre.rec.book.asks@
    &&& post.rec.book.last_applied_update_id == pre.rec.book.last_applied_update_id
    &&& post.queue.contents() == pre.queue.contents()
    &&& post.queue.overflowed() == pre.queue.overflowed()
    &&& post.stats == pre.stats
    &&& post.initial_seeded == pre.initial_seeded
    &&& post.cancelled == pre.cancelled
}

impl Orchestrator {
    pub open spec fn well_formed(self) -> bool {
        self.rec.well_formed() && self.queue.well_formed()
    }

    /// A fresh pipeline around a bounded diff queue.
    pub fn new(queue_capacity: usize) -> (orch: Self)
        requires
            queue_capacity > 0,
        ensures
            orch.well_formed(),
            orch.rec.state == SyncState::Uninitialized,
            orch.queue.contents() == Seq::<DepthDiff>::empty(),
            orch.queue.cap() == queue_capacity,
            !orch.queue.overflowed(),
            orch.stats == (PublishStats { attempted: 0, failed: 0 }),
            !orch.initial_seeded,
            !orch.cancelled,
    {
        Orchestrator {
            rec: Reconciler::new(),
            queue: DiffQueue::new(queue_capacity),
            stats: PublishStats { attempted: 0, failed: 0 },
            initial_seeded: false,
            cancelled: false,
        }
    }

    /// Pipeline start: move to Seeding and ask for the first snapshot.
    pub fn start(&mut self) -> (action: PipelineAction)
        requires
            old(self).rec.state == SyncState::Uninitialized,
            old(self).well_formed(),
        ensures
            final(self).well_formed(),
            final(self).rec.state == SyncState::Seeding,
            action is FetchSnapshot,
    {
        self.rec.start();
        PipelineAction::FetchSnapshot
    }

    /// A decoded diff arrived from the stream worker. While resyncing
    /// it is dropped, since the awaited snapshot supersedes it; in
    /// every other state it is queued under the bounded overflow
    /// policy.
    pub fn enqueue_diff(&mut self, diff: DepthDiff)
        requires
            old(self).well_formed(),
        ensures
            final(self).well_formed(),
            final(self).rec == old(self).rec,
            final(self).stats == old(self).stats,
            old(self).rec.state == SyncState::Resyncing ==> {
                &&& final(self).queue.contents() == old(self).queue.contents()
                &&& final(self).queue.overflowed() == old(self).queue.overflowed()
            },
            old(self).rec.state != SyncState::Resyncing
                && old(self).queue.contents().len() < old(self).queue.cap() ==> {
                &&& final(self).queue.contents() == old(self).queue.contents().push(diff)
                &&& final(self).queue.overflowed() == old(self).queue.overflowed()
            },
            old(self).rec.state != SyncState::Resyncing
                && old(self).queue.contents().len() == old(self).queue.cap() ==> {
                &&& final(self).queue.contents() == old(self).queue.contents().remove(0).push(
                    diff,
                )
                &&& final(self).queue.overflowed()
            },
    {
        if let SyncState::Resyncing = self.rec.state {
            return ;
        }
        proof {
            self.queue.lemma_well_formed_bounds();
        }
        self.queue.enqueue(diff);
    }

    /// A fresh snapshot arrived while one was awaited: seed the book
    /// and mark the pipeline synced.
    pub fn on_snapshot(&mut self, snapshot: &BookSnapshot)
        requires
            old(self).rec.state == SyncState::Seeding || old(self).rec.state
                == SyncState::Resyncing,
            old(self).well_formed(),
        ensures
            final(self).well_formed(),
            final(self).rec.state == SyncState::Synced,
            final(self).rec.book.bids@ == apply_levels(Map::<u64, u64>::empty(), snapshot.bids@),
            final(self).rec.book.asks@ == apply_levels(Map::<u64, u64>::empty(), snapshot.asks@),
            final(self).rec.book.last_applied_update_id == snapshot.last_update_id,
            final(self).initial_seeded,
            final(self).queue.contents() == old(self).queue.contents(),
    {
        self.rec.on_snapshot(snapshot);
        self.initial_seeded = true;
    }

    /// The snapshot fetch failed. During initial startup the pipeline
    /// cannot seed and must abort with a diagnostic; after that, a
    /// fresh fetch is simply requested again.
    pub fn on_snapshot_failed(&mut self) -> (action: PipelineAction)
        ensures
            same_observables(*old(self), *final(self)),
            old(self).initial_seeded ==> action is FetchSnapshot,
            !old(self).initial_seeded ==> action is Abort,
    {
        if self.initial_seeded {
            PipelineAction::FetchSnapshot
        } else {
            PipelineAction::Abort
        }
    }

    /// The stream ended: restart it or stop, as configured.
    pub fn on_stream_closed(&mut self, restart: bool) -> (action: PipelineAction)
        ensures
            same_observables(*old(self), *final(self)),
            restart ==> action is RestartStream,
            !restart ==> action is Stop,
    {
        if restart {
            PipelineAction::RestartStream
        } else {
            PipelineAction::Stop
        }
    }

    /// Request cancellation: the next tick stops the loop.
    pub fn cancel(&mut self)
        ensures
            final(self).cancelled,
            final(self).rec == old(self).rec,
            final(self).queue == old(self).queue,
            final(self).stats == old(self).stats,
            final(self).initial_seeded == old(self).initial_seeded,
    {
        self.cancelled = true;
    }

    /// One turn of the driving loop: drain at most one diff from the
    /// queue without ever blocking. Cancellation stops the loop; a
    /// recorded queue overflow is treated exactly like a sequence gap
    /// and forces one resync; an applicable diff is applied and its
    /// changed levels are translated for publishing; a stale diff is
    /// skipped; an empty queue yields.
    pub fn tick(&mut self) -> (action: PipelineAction)
        requires
            old(self).well_formed(),
        ensures
            final(self).well_formed(),
            old(self).cancelled ==> action is Stop && same_observables(*old(self), *final(self)),
            !old(self).cancelled && old(self).rec.state != SyncState::Synced ==> action is Idle
                && same_observables(*old(self), *final(self)),
            !old(self).cancelled && old(self).rec.state == SyncState::Synced && old(
                self,
            ).queue.overflowed() ==> {
                &&& action is FetchSnapshot
                &&& final(self).rec.state == SyncState::Resyncing
                &&& final(self).rec.book.bids@ == Map::<u64, u64>::empty()
                &&& final(self).rec.book.asks@ == Map::<u64, u64>::empty()
                &&& final(self).rec.book.last_applied_update_id == old(
                    self,
                ).rec.book.last_applied_update_id
                &&& final(self).queue.contents() == old(self).queue.contents()
                &&& !final(self).queue.overflowed()
            },
            !old(self).cancelled && old(self).rec.state == SyncState::Synced && !old(
                self,
            ).queue.overflowed() && old(self).queue.contents().len() == 0 ==> action is Idle
                && same_observables(*old(self), *final(self)),
            !old(self).cancelled && old(self).rec.state == SyncState::Synced && !old(
                self,
            ).queue.overflowed() && old(self).queue.contents().len() > 0 ==> {
                let head = old(self).queue.contents()[0];
                let last = old(self).rec.book.last_applied_update_id;
                &&& final(self).queue.contents() == old(self).queue.contents().remove(0)
                &&& !final(self).queue.overflowed()
                &&& diff_applicable(head, last) ==> {
                    &&& publishes_changes_of(action, head)
                    &&& final(self).rec.state == SyncState::Synced
                    &&& final(self).rec.book.bids@ == apply_levels(
                        old(self).rec.book.bids@,
                        head.bids@,
                    )
                    &&& final(self).rec.book.asks@ == apply_levels(
                        old(self).rec.book.asks@,
                        head.asks@,
                    )
                    &&& final(self).rec.book.last_applied_update_id == head.final_update_id
                }
                &&& diff_gap(head, last) ==> {
                    &&& action is FetchSnapshot
                    &&& final(self).rec.state == SyncState::Resyncing
                    &&& final(self).rec.book.bids@ == Map::<u64, u64>::empty()
                    &&& final(self).rec.book.asks@ == Map::<u64, u64>::empty()
                    &&& final(self).rec.book.last_applied_update_id == last
                }
                &&& !diff_applicable(head, last) && !diff_gap(head, last) ==> {
                    &&& action is Idle
                    &&& final(self).rec.state == SyncState::Synced
                    &&& final(self).rec.book.bids@ == old(self).rec.book.bids@
                    &&& final(self).rec.book.asks@ == old(self).rec.book.asks@
                    &&& final(self).rec.book.last_applied_update_id == last
                }
            },
    {
        if self.cancelled {
            return PipelineAction::Stop;
        }
        match self.rec.state {
            SyncState::Synced => {},
            _ => {
                return PipelineAction::Idle;
            },
        }
        if self.queue.take_overflow() {
            self.rec.book.discard();
            self.rec.state = SyncState::Resyncing;
            return PipelineAction::FetchSnapshot;
        }
        match self.queue.pop() {
            None => PipelineAction::Idle,
            Some(diff) => {
                match self.rec.on_diff(&diff) {
                    ApplyResult::Applied => PipelineAction::Publish(translate_changed(&diff)),
                    ApplyResult::Stale => PipelineAction::Idle,
                    ApplyResult::Gap => PipelineAction::FetchSnapshot,
                }
            },
        }
    }

    /// Record the outcome of one publish attempt. A failure is counted
    /// and surfaced through the stats, and never halts the loop: the
    /// returned flag is always false, so the record after a failed one
    /// is still attempted.
    pub fn on_publish_outcome(&mut self, outcome: &PublishOutcome) -> (halt: bool)
        ensures
            !halt,
            final(self).rec == old(self).rec,
            final(self).queue == old(self).queue,
            final(self).initial_seeded == old(self).initial_seeded,
            final(self).cancelled == old(self).cancelled,
            final(self).stats.attempted == if old(self).stats.attempted == u64::MAX {
                u64::MAX
            } else {
                (old(self).stats.attempted + 1) as u64
            },
            outcome.success ==> final(self).stats.failed == old(self).stats.failed,
            !outcome.success ==> final(self).stats.failed == if old(self).stats.failed
                == u64::MAX {
                u64::MAX
            } else {
                (old(self).stats.failed + 1) as u64
            },
    {
        if self.stats.attempted < u64::MAX {
            self.stats.attempted = self.stats.attempted + 1;
        }
        if !outcome.success {
            if self.stats.failed < u64::MAX {
                self.stats.failed = self.stats.failed + 1;
            }
        }
        false
    }
}

} // verus!
