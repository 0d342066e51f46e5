//! Allocation profiler.
pub mod site;
pub mod stats;

use crate::profile::site::SiteId;
use crate::profile::stats::{SiteStats, after_alloc, after_free};
use vstd::prelude::*;

verus! {

/// Number of profiler slots: the profiler tracks up to this many distinct
/// sites; allocations at further sites are not recorded.
pub const PROFILE_SLOTS: usize = 64;

/// Allocation profiler: one slot per distinct site, holding the site's id
/// and its stats.
pub struct AllocProfiler {
    sites: Vec<Option<(u32, SiteStats)>>,
}

/// The first slot at or after `from` that holds site `id`.
pub open spec fn find_site(s: Seq<Option<(u32, SiteStats)>>, id: u32, from: int) -> Option<int>
    decreases s.len() - from,
{
    if from < 0 || from >= s.len() {
        None
    } else if s[from] matches Some(e) && e.0 == id {
        Some(from)
    } else {
        find_site(s, id, from + 1)
    }
}

/// The first free slot at or after `from`.
pub open spec fn free_slot(s: Seq<Option<(u32, SiteStats)>>, from: int) -> Option<int>
    decreases s.len() - from,
{
    if from < 0 || from >= s.len() {
        None
    } else if s[from] is None {
        Some(from)
    } else {
        free_slot(s, from + 1)
    }
}

/// No site occupies two slots.
pub open spec fn distinct_sites(s: Seq<Option<(u32, SiteStats)>>) -> bool {
    forall|i: int, j: int|
        0 <= i < s.len() && 0 <= j < s.len() && i != j && s[i] is Some && s[j] is Some ==> s[i].unwrap().0
            != s[j].unwrap().0
}

/// The stats of site `id`, if it has a slot.
pub open spec fn stats_of(s: Seq<Option<(u32, SiteStats)>>, id: u32) -> Option<SiteStats> {
    match find_site(s, id, 0) {
        Some(i) => Some(s[i].unwrap().1),
        None => None,
    }
}

/// The slots after recording an allocation of `bytes` at site `id`: the
/// site's stats are updated, or a new site takes the first free slot, or
/// (no slot free) nothing changes.
pub open spec fn record_alloc_spec(s: Seq<Option<(u32, SiteStats)>>, id: u32, bytes: u64) -> Seq<
    Option<(u32, SiteStats)>,
> {
    match find_site(s, id, 0) {
        Some(i) => s.update(i, Some((id, after_alloc(s[i].unwrap().1, bytes)))),
        None => match free_slot(s, 0) {
            Some(j) => s.update(
                j,
                Some((id, SiteStats { alloc_count: 1, alloc_bytes: bytes, free_bytes: 0 })),
            ),
            None => s,
        },
    }
}

/// Sum of `alloc_bytes` over the occupied slots among the first `n`.
pub open spec fn alloc_sum(s: Seq<Option<(u32, SiteStats)>>, n: int) -> int
    decreases n,
{
    if n <= 0 {
        0
    } else {
        alloc_sum(s, n - 1) + match s[n - 1] {
            Some(e) => e.1.alloc_bytes as int,
            None => 0,
        }
    }
}

/// Number of occupied slots among the first `n`.
pub open spec fn occupied_upto(s: Seq<Option<(u32, SiteStats)>>, n: int) -> nat
    decreases n,
{
    if n <= 0 {
        0
    } else {
        occupied_upto(s, n - 1) + if s[n - 1] is Some {
            1nat
        } else {
            0nat
        }
    }
}

impl View for AllocProfiler {
    type V = Seq<Option<(u32, SiteStats)>>;

    /// Each slot: the site id it holds and that site's stats, or empty.
    closed spec fn view(&self) -> Seq<Option<(u32, SiteStats)>> {
        self.sites@
    }
}

impl AllocProfiler {
    /// Internal consistency: `PROFILE_SLOTS` slots, no site in two of them.
    pub open spec fn wf(&self) -> bool {
        &&& self@.len() == PROFILE_SLOTS
        &&& distinct_sites(self@)
    }

    /// Construct an empty profiler.
    pub fn new() -> (r: AllocProfiler)
        ensures
            r.wf(),
            r@ == Seq::new(PROFILE_SLOTS as nat, |i: int| None::<(u32, SiteStats)>),
    {
        let mut sites: Vec<Option<(u32, SiteStats)>> = Vec::new();
        while sites.len() < PROFILE_SLOTS
            invariant
                sites@.len() <= PROFILE_SLOTS,
                forall|i: int| 0 <= i < sites@.len() ==> sites@[i] is None,
            decreases PROFILE_SLOTS - sites@.len(),
        {
            sites.push(None);
        }
        let r = AllocProfiler { sites };
        assert(r@ =~= Seq::new(PROFILE_SLOTS as nat, |i: int| None::<(u32, SiteStats)>));
        r
    }

    /// The slot of site `id`, if it has one.
    fn find(&self, id: u32) -> (r: Option<usize>)
        requires
            self.wf(),
        ensures
            r matches Some(i) ==> find_site(self@, id, 0) == Some(i as int) && i < PROFILE_SLOTS
                && self@[i as int] is Some && self@[i as int].unwrap().0 == id,
            r is None ==> find_site(self@, id, 0) is None,
    {
        proof {
            lemma_find_site(self@, id, 0);
        }
        let mut i: usize = 0;
        while i < self.sites.len()
            invariant
                self.wf(),
                i <= PROFILE_SLOTS,
                find_site(self@, id, 0) == find_site(self@, id, i as int),
            decreases PROFILE_SLOTS - i,
        {
            if let Some(e) = self.sites[i] {
                if e.0 == id {
                    return Some(i);
                }
            }
            i = i + 1;
        }
        None
    }

    /// The first free slot, if any.
    fn first_free(&self) -> (r: Option<usize>)
        requires
            self.wf(),
        ensures
            r matches Some(i) ==> free_slot(self@, 0) == Some(i as int) && i < PROFILE_SLOTS
                && self@[i as int] is None,
            r is None ==> free_slot(self@, 0) is None,
    {
        proof {
            lemma_free_slot(self@, 0);
        }
        let mut i: usize = 0;
        while i < self.sites.len()
            invariant
                self.wf(),
                i <= PROFILE_SLOTS,
                free_slot(self@, 0) == free_slot(self@, i as int),
            decreases PROFILE_SLOTS - i,
        {
            if self.sites[i].is_none() {
                return Some(i);
            }
            i = i + 1;
        }
        None
    }

    /// Record an allocation of `bytes` at site `id`: update the site's
    /// stats, or give a new site the first free slot; once every slot holds
    /// a site, allocations at a new site are not recorded.
    pub fn record_alloc(&mut self, id: SiteId, bytes: u64)
        requires
            old(self).wf(),
            stats_of(old(self)@, id.0) matches Some(st) ==> st.alloc_count < u64::MAX
                && st.alloc_bytes + bytes <= u64::MAX,
        ensures
            final(self).wf(),
            final(self)@ == record_alloc_spec(old(self)@, id.0, bytes),
    {
        match self.find(id.0) {
            Some(i) => {
                let (k, mut st) = self.sites[i].unwrap();
                st.record_alloc(bytes);
                self.sites.set(i, Some((k, st)));
                proof {
                    lemma_find_site(old(self)@, id.0, 0);
                }
            },
            None => {
                proof {
                    lemma_find_site(old(self)@, id.0, 0);
                }
                match self.first_free() {
                    Some(j) => {
                        let mut st = SiteStats::new();
                        st.record_alloc(bytes);
                        self.sites.set(j, Some((id.0, st)));
                        proof {
                            lemma_free_slot(old(self)@, 0);
                        }
                    },
                    None => {},
                }
            },
        }
    }

    /// Record a free of `bytes` at site `id` (ignored for an unknown site).
    pub fn record_free(&mut self, id: SiteId, bytes: u64)
        requires
            old(self).wf(),
            stats_of(old(self)@, id.0) matches Some(st) ==> st.free_bytes + bytes <= u64::MAX,
        ensures
            final(self).wf(),
            find_site(old(self)@, id.0, 0) matches Some(i) ==> final(self)@ == old(self)@.update(
                i,
                Some((id.0, after_free(old(self)@[i].unwrap().1, bytes))),
            ),
            find_site(old(self)@, id.0, 0) is None ==> final(self)@ == old(self)@,
    {
        if let Some(i) = self.find(id.0) {
            let (k, mut st) = self.sites[i].unwrap();
            st.record_free(bytes);
            self.sites.set(i, Some((k, st)));
            proof {
                lemma_find_site(old(self)@, id.0, 0);
            }
        }
    }

    /// Read site stats.
    pub fn get(&self, id: SiteId) -> (r: Option<&SiteStats>)
        requires
            self.wf(),
        ensures
            r == match stats_of(self@, id.0) {
                Some(st) => Some(&st),
                None => None,
            },
    {
        match self.find(id.0) {
            Some(i) => match &self.sites[i] {
                Some(e) => Some(&e.1),
                None => None,
            },
            None => None,
        }
    }

    /// Total bytes allocated across all sites.
    pub fn total_alloc_bytes(&self) -> (r: u64)
        requires
            self.wf(),
            alloc_sum(self@, PROFILE_SLOTS as int) <= u64::MAX,
        ensures
            r == alloc_sum(self@, PROFILE_SLOTS as int),
    {
        let mut total: u64 = 0;
        let mut i: usize = 0;
        while i < self.sites.len()
            invariant
                self.wf(),
                i <= PROFILE_SLOTS,
                total == alloc_sum(self@, i as int),
                alloc_sum(self@, PROFILE_SLOTS as int) <= u64::MAX,
            decreases PROFILE_SLOTS - i,
        {
            proof {
                lemma_alloc_sum_mono(self@, i + 1, PROFILE_SLOTS as int);
            }
            if let Some(e) = self.sites[i] {
                total = total + e.1.alloc_bytes;
            }
            i = i + 1;
        }
        total
    }

    /// Number of distinct sites.
    pub fn site_count(&self) -> (r: usize)
        requires
            self.wf(),
        ensures
            r == occupied_upto(self@, PROFILE_SLOTS as int),
    {
        let mut n: usize = 0;
        let mut i: usize = 0;
        while i < self.sites.len()
            invariant
                self.wf(),
                i <= PROFILE_SLOTS,
                n == occupied_upto(self@, i as int),
                n <= i,
            decreases PROFILE_SLOTS - i,
        {
            if self.sites[i].is_some() {
                n = n + 1;
            }
            i = i + 1;
        }
        n
    }

    /// Reset all stats (zero counters; preserve site entries).
    pub fn reset(&mut self)
        requires
            old(self).wf(),
        ensures
            final(self).wf(),
            final(self)@ == Seq::new(
                PROFILE_SLOTS as nat,
                |i: int|
                    match old(self)@[i] {
                        Some(e) => Some((e.0, SiteStats { alloc_count: 0, alloc_bytes: 0, free_bytes: 0 })),
                        None => None,
                    },
            ),
    {
        let mut i: usize = 0;
        while i < self.sites.len()
            invariant
                self@.len() == PROFILE_SLOTS,
                i <= PROFILE_SLOTS,
                forall|j: int|
                    0 <= j < PROFILE_SLOTS ==> self@[j] == if j < i {
                        match old(self)@[j] {
                            Some(e) => Some(
                                (e.0, SiteStats { alloc_count: 0, alloc_bytes: 0, free_bytes: 0 }),
                            ),
                            None => None,
                        }
                    } else {
                        old(self)@[j]
                    },
                distinct_sites(old(self)@),
            decreases PROFILE_SLOTS - i,
        {
            let ghost prev = self@;
            if let Some(e) = self.sites[i] {
                self.sites.set(i, Some((e.0, SiteStats::new())));
            }
            assert(forall|j: int| 0 <= j < PROFILE_SLOTS && j != i ==> self@[j] == prev[j]);
            i = i + 1;
        }
        assert(self@ =~= Seq::new(
            PROFILE_SLOTS as nat,
            |i: int|
                match old(self)@[i] {
                    Some(e) => Some((e.0, SiteStats { alloc_count: 0, alloc_bytes: 0, free_bytes: 0 })),
                    None => None,
                },
        ));
    }
}

impl Default for AllocProfiler {
    fn default() -> (r: AllocProfiler)
        ensures
            r.wf(),
            r@ == Seq::new(PROFILE_SLOTS as nat, |i: int| None::<(u32, SiteStats)>),
    {
        AllocProfiler::new()
    }
}

/// `find_site` finds a slot holding the site, and none before it does.
pub proof fn lemma_find_site(s: Seq<Option<(u32, SiteStats)>>, id: u32, from: int)
    requires
        0 <= from,
    ensures
        find_site(s, id, from) matches Some(i) ==> from <= i < s.len() && s[i] is Some
            && s[i].unwrap().0 == id,
        find_site(s, id, from) is None ==> forall|k: int|
            from <= k < s.len() ==> !(s[k] is Some && s[k].unwrap().0 == id),
    decreases s.len() - from,
{
    if from < s.len() {
        lemma_find_site(s, id, from + 1);
    }
}

/// `free_slot` finds an empty slot, and none before it is empty.
pub proof fn lemma_free_slot(s: Seq<Option<(u32, SiteStats)>>, from: int)
    requires
        0 <= from,
    ensures
        free_slot(s, from) matches Some(i) ==> from <= i < s.len() && s[i] is None,
        free_slot(s, from) is None ==> forall|k: int| from <= k < s.len() ==> s[k] is Some,
    decreases s.len() - from,
{
    if from < s.len() {
        lemma_free_slot(s, from + 1);
    }
}

/// Partial sums of allocated bytes grow with the number of slots counted.
pub proof fn lemma_alloc_sum_mono(s: Seq<Option<(u32, SiteStats)>>, a: int, b: int)
    requires
        0 <= a <= b <= s.len(),
    ensures
        alloc_sum(s, a) <= alloc_sum(s, b),
    decreases b - a,
{
    if a < b {
        lemma_alloc_sum_mono(s, a, b - 1);
    }
}

/// Sites are kept apart: an allocation at one site never changes the stats
/// of another, and a site keeps its stats across allocations elsewhere.
pub proof fn law_sites_distinct(s: Seq<Option<(u32, SiteStats)>>, a: u32, b: u32, bytes: u64)
    requires
        s.len() == PROFILE_SLOTS,
        distinct_sites(s),
        a != b,
        stats_of(s, b) is Some,
    ensures
        stats_of(record_alloc_spec(s, a, bytes), b) == stats_of(s, b),
{
    lemma_find_site(s, a, 0);
    lemma_find_site(s, b, 0);
    lemma_free_slot(s, 0);
    let t = record_alloc_spec(s, a, bytes);
    let ib = find_site(s, b, 0).unwrap();
    lemma_find_site(t, b, 0);
    assert(t[ib] == s[ib]);
    assert forall|k: int| 0 <= k < ib implies !(t[k] is Some && t[k].unwrap().0 == b) by {
        if t[k] != s[k] {
        }
    }
    lemma_find_site_first(t, b, ib);
}

/// If slot `i` holds the site and no earlier slot does, the search finds
/// `i`.
pub proof fn lemma_find_site_first(s: Seq<Option<(u32, SiteStats)>>, id: u32, i: int)
    requires
        0 <= i < s.len(),
        s[i] is Some && s[i].unwrap().0 == id,
        forall|k: int| 0 <= k < i ==> !(s[k] is Some && s[k].unwrap().0 == id),
    ensures
        find_site(s, id, 0) == Some(i),
{
    lemma_find_site_from(s, id, 0, i);
}

proof fn lemma_find_site_from(s: Seq<Option<(u32, SiteStats)>>, id: u32, from: int, i: int)
    requires
        0 <= from <= i < s.len(),
        s[i] is Some && s[i].unwrap().0 == id,
        forall|k: int| from <= k < i ==> !(s[k] is Some && s[k].unwrap().0 == id),
    ensures
        find_site(s, id, from) == Some(i),
    decreases i - from,
{
    if from < i {
        lemma_find_site_from(s, id, from + 1, i);
    }
}

} // verus!
