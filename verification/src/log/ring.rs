//! Ring buffer for GC events.
use crate::log::event::{EventKind, GcEvent};
use vstd::prelude::*;

verus! {

/// Capacity of the event ring.
pub const RING_CAP: usize = 256;

/// Ring buffer of recent GC events. Overwrites oldest on overflow.
pub struct EventLog {
    ring: Vec<GcEvent>,
    head: usize,
    count: u64,
}

/// The retained events after one more is recorded into a log that
/// retained `v`: the oldest is dropped once the ring is full.
pub open spec fn record_spec(v: Seq<GcEvent>, e: GcEvent) -> Seq<GcEvent> {
    if v.len() < RING_CAP {
        v.push(e)
    } else {
        v.drop_first().push(e)
    }
}

impl EventLog {
    /// Total events recorded (including those overwritten).
    pub closed spec fn spec_total(&self) -> u64 {
        self.count
    }

    /// Number of retained events, as `len()` computes it.
    pub closed spec fn spec_len(&self) -> int {
        if (self.count as usize) < RING_CAP {
            (self.count as usize) as int
        } else {
            RING_CAP as int
        }
    }

    /// Ring slot of the oldest retained event.
    closed spec fn spec_start(&self) -> int {
        if (self.count as usize) >= RING_CAP {
            self.head as int
        } else {
            0
        }
    }

    /// Internal consistency: `RING_CAP` slots and the write position is
    /// the event count modulo the capacity.
    pub closed spec fn wf(&self) -> bool {
        &&& self.ring@.len() == RING_CAP
        &&& self.head < RING_CAP
        &&& self.head as int == self.count as int % RING_CAP as int
    }
}

impl View for EventLog {
    type V = Seq<GcEvent>;

    /// The retained events, oldest first.
    closed spec fn view(&self) -> Seq<GcEvent> {
        Seq::new(
            self.spec_len() as nat,
            |i: int| self.ring@[(self.spec_start() + i) % (RING_CAP as int)],
        )
    }
}

impl EventLog {
    /// Construct an empty log.
    pub fn new() -> (r: EventLog)
        ensures
            r.wf(),
            r.spec_total() == 0,
            r@ == Seq::<GcEvent>::empty(),
    {
        let mut ring: Vec<GcEvent> = Vec::new();
        while ring.len() < RING_CAP
            invariant
                ring@.len() <= RING_CAP,
            decreases RING_CAP - ring@.len(),
        {
            ring.push(GcEvent::new(EventKind::Init, 0, 0));
        }
        let r = EventLog { ring, head: 0, count: 0 };
        assert(r@ =~= Seq::<GcEvent>::empty());
        r
    }

    /// Record an event at time `t_ms` with payload `value`.
    pub fn record(&mut self, kind: EventKind, t_ms: u64, value: u64)
        requires
            old(self).wf(),
            old(self).spec_total() < u64::MAX,
        ensures
            final(self).wf(),
            final(self).spec_total() == old(self).spec_total() + 1,
            old(self).spec_total() < usize::MAX ==> final(self)@ == record_spec(
                old(self)@,
                GcEvent { kind, t_ms, value },
            ),
    {
        let e = GcEvent::new(kind, t_ms, value);
        let ghost h = self.head as int;
        self.ring.set(self.head, e);
        self.head = (self.head + 1) % RING_CAP;
        self.count = self.count + 1;
        proof {
            lemma_mod_next(old(self).count as int, h);
            if old(self).count < usize::MAX {
                let n = old(self).count as int;
                assert((old(self).count as usize) as int == n);
                assert((self.count as usize) as int == n + 1);
                let target = record_spec(old(self)@, e);
                if n < RING_CAP {
                    assert forall|i: int| 0 <= i < self@.len() implies self@[i] == target[i] by {
                        lemma_small(i);
                    }
                } else {
                    assert forall|i: int| 0 <= i < self@.len() implies self@[i] == target[i] by {
                        lemma_ring_index(h, i);
                    }
                }
                assert(self@ =~= target);
            }
        }
    }

    /// Total events recorded (including those overwritten).
    pub fn total(&self) -> (r: u64)
        ensures
            r == self.spec_total(),
    {
        self.count
    }

    /// Number of events currently in the buffer.
    pub fn len(&self) -> (r: usize)
        ensures
            r == self.spec_len(),
    {
        let c = self.count as usize;
        if RING_CAP < c {
            RING_CAP
        } else {
            c
        }
    }

    /// Whether the buffer is empty.
    pub fn is_empty(&self) -> (r: bool)
        ensures
            r == (self.spec_total() == 0),
    {
        self.count == 0
    }

    /// The retained events in chronological order (oldest first).
    pub fn iter_chrono(&self) -> (r: Vec<GcEvent>)
        requires
            self.wf(),
        ensures
            r@ == self@,
    {
        let start = if self.count as usize >= RING_CAP {
            self.head
        } else {
            0
        };
        let n = self.len();
        let mut out: Vec<GcEvent> = Vec::new();
        let mut i: usize = 0;
        while i < n
            invariant
                self.wf(),
                n == self.spec_len(),
                start == self.spec_start(),
                start < RING_CAP,
                i <= n,
                out@ == self@.take(i as int),
            decreases n - i,
        {
            out.push(self.ring[(start + i) % RING_CAP]);
            assert(out@ =~= self@.take(i + 1));
            i = i + 1;
        }
        assert(out@ =~= self@);
        out
    }
}

impl Default for EventLog {
    fn default() -> (r: EventLog)
        ensures
            r.wf(),
            r.spec_total() == 0,
            r@ == Seq::<GcEvent>::empty(),
    {
        EventLog::new()
    }
}

/// Advancing the write position keeps it equal to the count modulo the
/// capacity.
proof fn lemma_mod_next(c: int, h: int)
    requires
        0 <= c,
        0 <= h < RING_CAP,
        h == c % (RING_CAP as int),
    ensures
        (h + 1) % (RING_CAP as int) == (c + 1) % (RING_CAP as int),
        c >= RING_CAP ==> (c + 1) >= RING_CAP,
{
}

/// Indices below the capacity are their own remainder.
proof fn lemma_small(i: int)
    requires
        0 <= i < RING_CAP,
    ensures
        i % (RING_CAP as int) == i,
{
}

/// In a full ring whose oldest slot was `h`, the `i`-th oldest slot after
/// one more write is the `(i + 1)`-th oldest before it, or `h` for the
/// newest.
proof fn lemma_ring_index(h: int, i: int)
    requires
        0 <= h < RING_CAP,
        0 <= i < RING_CAP,
    ensures
        ((h + 1) % (RING_CAP as int) + i) % (RING_CAP as int) == if i + 1 < RING_CAP {
            (h + (i + 1)) % (RING_CAP as int)
        } else {
            h
        },
        i + 1 < RING_CAP ==> (h + (i + 1)) % (RING_CAP as int) != h,
{
}

/// Once the ring is full it keeps exactly `RING_CAP` events: recording
/// drops the oldest and appends the newest.
pub proof fn law_ring_bounded(v: Seq<GcEvent>, e: GcEvent)
    requires
        v.len() <= RING_CAP,
    ensures
        record_spec(v, e).len() == if v.len() < RING_CAP {
            v.len() + 1
        } else {
            RING_CAP as nat
        },
        record_spec(v, e).last() == e,
        v.len() == RING_CAP ==> forall|i: int|
            0 <= i < RING_CAP - 1 ==> record_spec(v, e)[i] == v[i + 1],
{
}

} // verus!
