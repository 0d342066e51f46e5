//! Cycle detection for the GC.
pub mod queue;
pub mod stats;

use crate::cycle::queue::CycleQueue;
use crate::cycle::stats::{CycleCandidate, CycleStats};
use crate::finalize::weak::{WeakEntry, WeakRef, WeakTable, find_alive};
use vstd::prelude::*;

verus! {

/// Number of candidates in `c` whose weak reference is not live in `e`.
pub open spec fn dead_refs(c: Seq<CycleCandidate>, e: Seq<WeakEntry>) -> nat
    decreases c.len(),
{
    if c.len() == 0 {
        0
    } else {
        dead_refs(c.drop_last(), e) + if find_alive(e, c.last().weak_ref, 0) is None {
            1nat
        } else {
            0nat
        }
    }
}

/// Cycle detector.
pub struct CycleDetector {
    queue: CycleQueue,
    stats: CycleStats,
    /// Above this pending count, switch from linear to DFS scan.
    pub dfs_threshold: usize,
}

impl CycleDetector {
    /// The DFS threshold.
    pub closed spec fn spec_threshold(&self) -> usize {
        self.dfs_threshold
    }

    /// The candidate queue.
    pub closed spec fn spec_queue(&self) -> CycleQueue {
        self.queue
    }

    /// The stored statistics a pass starts its candidate count from.
    pub closed spec fn spec_stats(&self) -> CycleStats {
        self.stats
    }

    /// Internal consistency: a consistent queue.
    pub closed spec fn wf(&self) -> bool {
        &&& self.queue.wf()
    }

    /// Construct an empty detector.
    pub fn new() -> (r: CycleDetector)
        ensures
            r.wf(),
            r.spec_queue()@ == Seq::<CycleCandidate>::empty(),
            r.spec_queue().count == 0,
            r.spec_threshold() == 8,
            r.spec_stats() == (CycleStats { candidates: 0, reclaimed: 0 }),
    {
        CycleDetector { queue: CycleQueue::new(), stats: CycleStats::new(), dfs_threshold: 8 }
    }

    /// Submit one candidate (dropped when the queue is full).
    pub fn submit(&mut self, c: CycleCandidate)
        requires
            old(self).wf(),
        ensures
            final(self).wf(),
            final(self).spec_threshold() == old(self).spec_threshold(),
            final(self).spec_stats() == old(self).spec_stats(),
            old(self).spec_queue().count >= queue::CYCLE_CAP ==> final(self).spec_queue() == old(
                self).spec_queue(),
            old(self).spec_queue().count < queue::CYCLE_CAP ==> final(self).spec_queue()@ == old(
                self).spec_queue()@.push(c) && final(self).spec_queue().count == old(
                self).spec_queue().count + 1,
    {
        let _ = self.queue.enqueue(c);
    }

    /// Run a single pass against the weak table: drain every pending
    /// candidate and count those whose weak reference is no longer live.
    pub fn run_pass(&mut self, wt: &WeakTable) -> (r: CycleStats)
        requires
            old(self).wf(),
            wt.wf(),
            old(self).spec_stats().candidates + old(self).spec_queue()@.len() <= u32::MAX,
        ensures
            final(self).wf(),
            final(self).spec_threshold() == old(self).spec_threshold(),
            final(self).spec_stats() == old(self).spec_stats(),
            final(self).spec_queue()@ == Seq::<CycleCandidate>::empty(),
            final(self).spec_queue().count == 0,
            r == (CycleStats {
                candidates: (old(self).spec_stats().candidates + old(self).spec_queue()@.len()) as u32,
                reclaimed: dead_refs(old(self).spec_queue()@, wt@) as u32,
            }),
    {
        let mut stats = self.stats;
        stats.reclaimed = 0;
        let ghost all = self.queue@;
        loop
            invariant
                self.wf(),
                wt.wf(),
                self.dfs_threshold == old(self).dfs_threshold,
                self.stats == old(self).stats,
                old(self).stats.candidates + all.len() <= u32::MAX,
                all == old(self).spec_queue()@,
                all.len() <= queue::CYCLE_CAP,
                self.queue@.len() <= all.len(),
                self.queue@ == all.skip(all.len() - self.queue@.len()),
                stats.candidates == old(self).stats.candidates + all.len() - self.queue@.len(),
                stats.reclaimed == dead_refs(all.take(all.len() - self.queue@.len()), wt@),
                self.queue@.len() == 0 ==> self.queue.count == 0,
            ensures
                self.queue@.len() == 0,
            decreases self.queue@.len(),
        {
            let ghost before = self.queue@;
            let ghost k = all.len() - before.len();
            match self.queue.dequeue() {
                Some(c) => {
                    proof {
                        assert(all.take(k + 1).drop_last() =~= all.take(k));
                        assert(all[k] == c);
                        assert(self.queue@ =~= all.skip(k + 1));
                        lemma_dead_refs_le(all.take(k), wt@);
                    }
                    if !wt.contains(WeakRef(c.weak_ref)) {
                        stats.reclaimed = stats.reclaimed + 1;
                    }
                    stats.candidates = stats.candidates + 1;
                },
                None => {
                    assert(all.take(all.len() as int) =~= all);
                    break ;
                },
            }
        }
        proof {
            lemma_dead_refs_le(all, wt@);
        }
        stats
    }

    /// Number of pending candidates.
    pub fn pending(&self) -> (r: usize)
        requires
            self.wf(),
        ensures
            r == self.spec_queue()@.len(),
    {
        self.queue.len()
    }

    /// Whether the pending count is over the DFS threshold (strictly above
    /// it).
    pub fn should_dfs(&self) -> (r: bool)
        requires
            self.wf(),
        ensures
            r == (self.spec_queue()@.len() > self.spec_threshold()),
    {
        self.pending() > self.dfs_threshold
    }

    /// Reset statistics.
    pub fn reset_stats(&mut self)
        requires
            old(self).wf(),
        ensures
            final(self).wf(),
            final(self).spec_queue() == old(self).spec_queue(),
            final(self).spec_threshold() == old(self).spec_threshold(),
            final(self).spec_stats() == (CycleStats { candidates: 0, reclaimed: 0 }),
    {
        self.stats = CycleStats::new();
    }
}

impl Default for CycleDetector {
    fn default() -> (r: CycleDetector)
        ensures
            r.wf(),
            r.spec_queue()@ == Seq::<CycleCandidate>::empty(),
            r.spec_queue().count == 0,
            r.spec_threshold() == 8,
            r.spec_stats() == (CycleStats { candidates: 0, reclaimed: 0 }),
    {
        CycleDetector::new()
    }
}

/// At most every candidate counts as dead.
pub proof fn lemma_dead_refs_le(c: Seq<CycleCandidate>, e: Seq<WeakEntry>)
    ensures
        dead_refs(c, e) <= c.len(),
    decreases c.len(),
{
    if c.len() > 0 {
        lemma_dead_refs_le(c.drop_last(), e);
    }
}

} // verus!
