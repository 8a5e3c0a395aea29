use vstd::prelude::*;
use crate::book::DepthDiff;

verus! {

/// A bounded FIFO of diffs between the stream worker and the driving
/// loop. When a diff arrives while the queue is full, the oldest
/// queued diff is dropped to make room and the overflow is recorded:
/// a dropped diff is a missed update, so the consumer must treat a
/// recorded overflow exactly like a sequence gap and resync.
pub struct DiffQueue {
    items: Vec<DepthDiff>,
    capacity: usize,
    overflow_pending: bool,
    dropped: u64,
}

impl DiffQueue {
    /// The queued diffs, oldest first.
    pub closed spec fn contents(self) -> Seq<DepthDiff> {
        self.items@
    }

    /// The fixed bound on how many diffs may rest in the queue.
    pub closed spec fn cap(self) -> int {
        self.capacity as int
    }

    /// True while an overflow has happened that no one has looked at
    /// yet.
    pub closed spec fn overflowed(self) -> bool {
        self.overflow_pending
    }

    /// How many diffs were dropped to make room, since construction
    /// (saturating at the largest representable count).
    pub closed spec fn dropped_count(self) -> u64 {
        self.dropped
    }

    /// The queue never holds more than its capacity, and the capacity
    /// is positive.
    pub closed spec fn well_formed(self) -> bool {
        self.capacity > 0 && self.items@.len() <= self.capacity
    }

    /// What well-formedness guarantees to a caller: the bound is
    /// positive and the contents never exceed it.
    pub proof fn lemma_well_formed_bounds(self)
        requires
            self.well_formed(),
        ensures
            self.cap() > 0,
            self.contents().len() <= self.cap(),
    {
    }

    /// An empty queue with the given bound.
    pub fn new(capacity: usize) -> (q: Self)
        requires
            capacity > 0,
        ensures
            q.well_formed(),
            q.contents() == Seq::<DepthDiff>::empty(),
            q.cap() == capacity,
            !q.overflowed(),
            q.dropped_count() == 0,
    {
        DiffQueue { items: Vec::new(), capacity, overflow_pending: false, dropped: 0 }
    }

    /// Offer one diff. Below capacity it is appended; at capacity the
    /// oldest diff is dropped first, and the overflow is recorded so
    /// that the consumer resyncs instead of applying past the hole.
    pub fn enqueue(&mut self, diff: DepthDiff)
        requires
            old(self).well_formed(),
        ensures
            final(self).well_formed(),
            final(self).cap() == old(self).cap(),
            old(self).contents().len() < old(self).cap() ==> {
                &&& final(self).contents() == old(self).contents().push(diff)
                &&& final(self).overflowed() == old(self).overflowed()
                &&& final(self).dropped_count() == old(self).dropped_count()
            },
            old(self).contents().len() == old(self).cap() ==> {
                &&& final(self).contents() == old(self).contents().remove(0).push(diff)
                &&& final(self).overflowed()
                &&& final(self).dropped_count() == if old(self).dropped_count() == u64::MAX {
                    u64::MAX
                } else {
                    (old(self).dropped_count() + 1) as u64
                }
            },
    {
        if self.items.len() == self.capacity {
            let _oldest = self.items.remove(0);
            self.overflow_pending = true;
            if self.dropped < u64::MAX {
                self.dropped = self.dropped + 1;
            }
        }
        self.items.push(diff);
    }

    /// Take the oldest queued diff, if any.
    pub fn pop(&mut self) -> (result: Option<DepthDiff>)
        requires
            old(self).well_formed(),
        ensures
            final(self).well_formed(),
            final(self).cap() == old(self).cap(),
            final(self).overflowed() == old(self).overflowed(),
            final(self).dropped_count() == old(self).dropped_count(),
            old(self).contents().len() == 0 ==> {
                &&& result is None
                &&& final(self).contents() == old(self).contents()
            },
            old(self).contents().len() > 0 ==> {
                &&& result == Some(old(self).contents()[0])
                &&& final(self).contents() == old(self).contents().remove(0)
            },
    {
        if self.items.len() == 0 {
            None
        } else {
            Some(self.items.remove(0))
        }
    }

    /// Report whether an overflow happened since the last call, and
    /// clear the record: each overflow is surfaced exactly once, so it
    /// induces exactly one resync.
    pub fn take_overflow(&mut self) -> (result: bool)
        ensures
            final(self).well_formed() == old(self).well_formed(),
            result == old(self).overflowed(),
            !final(self).overflowed(),
            final(self).contents() == old(self).contents(),
            final(self).cap() == old(self).cap(),
            final(self).dropped_count() == old(self).dropped_count(),
    {
        let was = self.overflow_pending;
        self.overflow_pending = false;
        was
    }

    /// Discard everything queued; the bound, the overflow record and
    /// the dropped count stay as they are.
    pub fn clear(&mut self)
        requires
            old(self).well_formed(),
        ensures
            final(self).well_formed(),
            final(self).contents() == Seq::<DepthDiff>::empty(),
            final(self).cap() == old(self).cap(),
            final(self).overflowed() == old(self).overflowed(),
            final(self).dropped_count() == old(self).dropped_count(),

    {
        self.items.clear();
    }

    /// How many diffs rest in the queue now.
    pub fn len(&self) -> (result: usize)
        ensures
            result == self.contents().len(),
    {
        self.items.len()
    }

    /// The fixed capacity the queue was made with.
    pub fn capacity(&self) -> (result: usize)
        ensures
            result == self.cap(),
    {
        self.capacity
    }

    /// How many diffs were dropped to overflow so far.
    pub fn dropped_so_far(&self) -> (result: u64)
        ensures
            result == self.dropped_count(),
    {
        self.dropped
    }
}

} // verus!
