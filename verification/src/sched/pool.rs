//! Worker pool: array of `WorkDeque`s, one per GC worker.
use crate::colored::ColoredPtr;
use crate::sched::deque::{DEQUE_CAP, WorkDeque};
use vstd::prelude::*;

verus! {

/// Maximum number of workers.
pub const MAX_WORKERS: usize = 8;

/// Multi-worker task pool with work stealing.
pub struct WorkerPool {
    deques: Vec<WorkDeque>,
    active: u8,
}

/// The first registered worker at or after `from`, other than `thief`,
/// whose deque is not empty.
pub open spec fn victim_from(d: Seq<WorkDeque>, active: int, thief: u8, from: int) -> Option<int>
    decreases active - from,
{
    if from < 0 || from >= active || from >= d.len() {
        None
    } else if from != thief as int && d[from]@.len() > 0 {
        Some(from)
    } else {
        victim_from(d, active, thief, from + 1)
    }
}

/// Total length of the first `n` deques.
pub open spec fn pending_upto(d: Seq<WorkDeque>, n: int) -> int
    decreases n,
{
    if n <= 0 {
        0
    } else {
        pending_upto(d, n - 1) + d[n - 1]@.len()
    }
}

impl WorkerPool {
    /// The deques of all worker slots, by worker id.
    pub closed spec fn deques(&self) -> Seq<WorkDeque> {
        self.deques@
    }

    /// Number of registered workers.
    pub closed spec fn workers(&self) -> int {
        self.active as int
    }

    /// Internal consistency: `MAX_WORKERS` well-formed deques.
    pub closed spec fn wf(&self) -> bool {
        &&& self.deques@.len() == MAX_WORKERS
        &&& self.active <= MAX_WORKERS
        &&& forall|i: int| 0 <= i < MAX_WORKERS ==> (#[trigger] self.deques@[i]).wf()
    }

    /// Construct an empty pool.
    pub fn new() -> (r: WorkerPool)
        ensures
            r.wf(),
            r.workers() == 0,
            forall|i: int| 0 <= i < MAX_WORKERS ==> (#[trigger] r.deques()[i])@.len() == 0,
    {
        let mut deques: Vec<WorkDeque> = Vec::new();
        while deques.len() < MAX_WORKERS
            invariant
                deques@.len() <= MAX_WORKERS,
                forall|i: int|
                    0 <= i < deques@.len() ==> (#[trigger] deques@[i]).wf() && deques@[i]@.len()
                        == 0,
            decreases MAX_WORKERS - deques@.len(),
        {
            deques.push(WorkDeque::new());
        }
        WorkerPool { deques, active: 0 }
    }

    /// Register a worker; returns its id, or `None` when the pool is full.
    pub fn register(&mut self) -> (r: Option<u8>)
        requires
            old(self).wf(),
        ensures
            final(self).wf(),
            final(self).deques() == old(self).deques(),
            old(self).workers() >= MAX_WORKERS ==> r is None && final(self).workers() == old(self).workers(),
            old(self).workers() < MAX_WORKERS ==> r == Some(old(self).workers() as u8) && final(self).workers() == old(self).workers() + 1,
    {
        if (self.active as usize) >= MAX_WORKERS {
            return None;
        }
        let id = self.active;
        self.active = self.active + 1;
        Some(id)
    }

    /// Local push to a worker's own deque.
    pub fn local_push(&mut self, id: u8, p: ColoredPtr) -> (r: bool)
        requires
            old(self).wf(),
            id < MAX_WORKERS,
        ensures
            final(self).wf(),
            final(self).workers() == old(self).workers(),
            forall|j: int| 0 <= j < MAX_WORKERS && j != id ==> final(self).deques()[j] == old(self).deques()[j],
            r == (old(self).deques()[id as int]@.len() < DEQUE_CAP),
            r ==> final(self).deques()[id as int]@ == old(self).deques()[id as int]@.push(p),
            !r ==> final(self).deques()[id as int]@ == old(self).deques()[id as int]@,
    {
        self.deques[id as usize].push(p)
    }

    /// Local pop from a worker's own deque.
    pub fn local_pop(&mut self, id: u8) -> (r: Option<ColoredPtr>)
        requires
            old(self).wf(),
            id < MAX_WORKERS,
        ensures
            final(self).wf(),
            final(self).workers() == old(self).workers(),
            forall|j: int| 0 <= j < MAX_WORKERS && j != id ==> final(self).deques()[j] == old(self).deques()[j],
            old(self).deques()[id as int]@.len() == 0 ==> r is None && final(self).deques()[id as int]@ == old(self).deques()[id as int]@,
            old(self).deques()[id as int]@.len() > 0 ==> r == Some(
                old(self).deques()[id as int]@.last(),
            ) && final(self).deques()[id as int]@ == old(self).deques()[id as int]@.drop_last(),
    {
        self.deques[id as usize].pop()
    }

    /// Steal the oldest item from the first other registered worker that
    /// has work.
    pub fn steal(&mut self, thief: u8) -> (r: Option<ColoredPtr>)
        requires
            old(self).wf(),
        ensures
            final(self).wf(),
            final(self).workers() == old(self).workers(),
            victim_from(old(self).deques(), old(self).workers(), thief, 0) matches Some(v) ==> ({
                &&& r == Some(old(self).deques()[v]@[0])
                &&& final(self).deques()[v]@ == old(self).deques()[v]@.drop_first()
                &&& forall|j: int|
                    0 <= j < MAX_WORKERS && j != v ==> final(self).deques()[j]@ == old(self).deques()[j]@
            }),
            victim_from(old(self).deques(), old(self).workers(), thief, 0) is None ==> r is None
                && forall|j: int|
                0 <= j < MAX_WORKERS ==> final(self).deques()[j]@ == old(self).deques()[j]@,
            r is None ==> forall|j: int|
                0 <= j < old(self).workers() && j != thief as int ==> (#[trigger] old(
                    self,
                ).deques()[j])@.len() == 0,
            r is Some ==> exists|v: int|
                0 <= v < old(self).workers() && v != thief as int && r == Some(
                    #[trigger] old(self).deques()[v]@[0],
                ) && final(self).deques()[v]@ == old(self).deques()[v]@.drop_first(),
    {
        proof {
            law_steal_finds_work(old(self).deques(), old(self).workers(), thief, 0);
        }
        let mut i: usize = 0;
        while i < self.active as usize
            invariant
                self.wf(),
                old(self).wf(),
                self.active == old(self).active,
                i <= self.active,
                forall|j: int| 0 <= j < MAX_WORKERS ==> self.deques()[j]@ == old(self).deques()[j]@,
                victim_from(old(self).deques(), old(self).workers(), thief, 0) == victim_from(
                    old(self).deques(),
                    old(self).workers(),
                    thief,
                    i as int,
                ),
            decreases self.active - i,
        {
            if i as u8 == thief {
                i = i + 1;
                continue;
            }
            let ghost before = self.deques()[i as int]@;
            let got = self.deques[i].steal();
            if let Some(p) = got {
                assert(before.len() > 0);
                assert(i as int != thief as int);
                assert(victim_from(old(self).deques(), old(self).workers(), thief, i as int) == Some(
                    i as int,
                ));
                return Some(p);
            }
            i = i + 1;
        }
        None
    }

    /// Total pending items across the registered workers' deques.
    pub fn total_pending(&self) -> (r: usize)
        requires
            self.wf(),
        ensures
            r == pending_upto(self.deques(), self.workers()),
    {
        let mut total: usize = 0;
        let mut i: usize = 0;
        while i < self.active as usize
            invariant
                self.wf(),
                i <= self.active,
                total == pending_upto(self.deques(), i as int),
                total <= i * DEQUE_CAP,
            decreases self.active - i,
        {
            total = total + self.deques[i].len();
            i = i + 1;
        }
        total
    }

    /// Number of active workers.
    pub fn worker_count(&self) -> (r: u8)
        requires
            self.wf(),
        ensures
            r == self.workers(),
    {
        self.active
    }
}

impl Default for WorkerPool {
    fn default() -> (r: WorkerPool)
        ensures
            r.wf(),
            r.workers() == 0,
            forall|i: int| 0 <= i < MAX_WORKERS ==> (#[trigger] r.deques()[i])@.len() == 0,
    {
        WorkerPool::new()
    }
}

/// Stealing finds work whenever there is any: the victim searched from
/// `from` is a registered worker other than the thief with a non-empty
/// deque, and no such worker comes before it; when there is no victim,
/// every registered worker from `from` on other than the thief has an
/// empty deque.
pub proof fn law_steal_finds_work(d: Seq<WorkDeque>, active: int, thief: u8, from: int)
    requires
        0 <= from,
        active <= d.len(),
    ensures
        victim_from(d, active, thief, from) matches Some(v) ==> from <= v < active && v
            != thief as int && d[v]@.len() > 0 && forall|j: int|
            from <= j < v && j != thief as int ==> (#[trigger] d[j])@.len() == 0,
        victim_from(d, active, thief, from) is None ==> forall|j: int|
            from <= j < active && j != thief as int ==> (#[trigger] d[j])@.len() == 0,
    decreases active - from,
{
    if from < active {
        law_steal_finds_work(d, active, thief, from + 1);
    }
}

} // verus!
