//! Page table: tracks the state of every page in a region.
use crate::page::align::{PAGE_SIZE, REGION_PAGE_COUNT, div_ceil, div_ceil_spec};
use crate::page::descriptor::{PageDescriptor, PageState, state_is_used};
use vstd::prelude::*;

verus! {

/// Page table for one region.
pub struct PageTable {
    pages: Vec<PageDescriptor>,
}

/// The pages a byte range `[byte_offset, byte_offset + bytes)` touches,
/// clipped to the table: `[start, end)` (the end saturates at the top of
/// the address space).
pub open spec fn range_pages(byte_offset: usize, bytes: usize) -> (int, int) {
    let end_byte = if byte_offset + bytes > usize::MAX {
        usize::MAX as int
    } else {
        byte_offset + bytes
    };
    let end_page = div_ceil_spec(end_byte, PAGE_SIZE as int);
    if end_byte <= byte_offset {
        (0, 0)
    } else {
        (
        (byte_offset / PAGE_SIZE) as int,
        if end_page < REGION_PAGE_COUNT {
            end_page
        } else {
            REGION_PAGE_COUNT as int
        },
    )
    }
}

/// `pages` with the state of every page in `[start, end)` set to `s`.
pub open spec fn set_states(pages: Seq<PageDescriptor>, start: int, end: int, s: PageState) -> Seq<
    PageDescriptor,
> {
    Seq::new(
        pages.len(),
        |i: int|
            if start <= i < end {
                PageDescriptor { state: s, ..pages[i] }
            } else {
                pages[i]
            },
    )
}

/// Number of pages among the first `n` that count as used.
pub open spec fn used_upto(pages: Seq<PageDescriptor>, n: int) -> nat
    decreases n,
{
    if n <= 0 {
        0
    } else {
        used_upto(pages, n - 1) + if n - 1 < pages.len() && state_is_used(pages[n - 1].state) {
            1nat
        } else {
            0nat
        }
    }
}

/// The `(index, descriptor)` pairs, among the first `n` pages, whose state
/// is `s`, in increasing index order.
pub open spec fn in_state_upto(pages: Seq<PageDescriptor>, s: PageState, n: int) -> Seq<
    (usize, PageDescriptor),
>
    decreases n,
{
    if n <= 0 {
        Seq::empty()
    } else {
        let prev = in_state_upto(pages, s, n - 1);
        if n - 1 < pages.len() && pages[n - 1].state == s {
            prev.push(((n - 1) as usize, pages[n - 1]))
        } else {
            prev
        }
    }
}

impl View for PageTable {
    type V = Seq<PageDescriptor>;

    /// The descriptor of each page, by index.
    closed spec fn view(&self) -> Seq<PageDescriptor> {
        self.pages@
    }
}

impl PageTable {
    /// Internal consistency: one descriptor per page of a region.
    pub closed spec fn wf(&self) -> bool {
        self.pages@.len() == REGION_PAGE_COUNT
    }

    /// Construct a fresh, all-free page table.
    pub fn new() -> (r: PageTable)
        ensures
            r.wf(),
            r@ == Seq::new(
                REGION_PAGE_COUNT as nat,
                |i: int| PageDescriptor { state: PageState::Free, pin_count: 0 },
            ),
    {
        let mut pages: Vec<PageDescriptor> = Vec::new();
        while pages.len() < REGION_PAGE_COUNT
            invariant
                pages@.len() <= REGION_PAGE_COUNT,
                forall|i: int|
                    0 <= i < pages@.len() ==> pages@[i] == (PageDescriptor {
                        state: PageState::Free,
                        pin_count: 0,
                    }),
            decreases REGION_PAGE_COUNT - pages@.len(),
        {
            pages.push(PageDescriptor::free());
        }
        let r = PageTable { pages };
        assert(r@ =~= Seq::new(
            REGION_PAGE_COUNT as nat,
            |i: int| PageDescriptor { state: PageState::Free, pin_count: 0 },
        ));
        r
    }

    /// Fetch a page descriptor.
    pub fn get(&self, page_idx: usize) -> (r: Option<&PageDescriptor>)
        requires
            self.wf(),
        ensures
            page_idx < self@.len() ==> r == Some(&self@[page_idx as int]),
            page_idx >= self@.len() ==> r is None,
    {
        if page_idx < self.pages.len() {
            Some(&self.pages[page_idx])
        } else {
            None
        }
    }

    /// Set the state of every page in `[start, end)` to `s`.
    fn set_range(&mut self, start: usize, end: usize, s: PageState)
        requires
            old(self).wf(),
            end <= REGION_PAGE_COUNT,
        ensures
            final(self).wf(),
            final(self)@ == set_states(old(self)@, start as int, end as int, s),
    {
        let mut i = start;
        while i < end
            invariant
                self.wf(),
                start <= i,
                end <= REGION_PAGE_COUNT,
                i <= end || i == start,
                self@ == set_states(old(self)@, start as int, i as int, s),
            decreases end - i,
        {
            let d = self.pages[i];
            self.pages.set(i, PageDescriptor { state: s, ..d });
            assert(self@ =~= set_states(old(self)@, start as int, i + 1, s));
            i = i + 1;
        }
        assert(self@ =~= set_states(old(self)@, start as int, end as int, s));
    }

    /// Mark every page the byte range touches as used.
    pub fn mark_range_used(&mut self, byte_offset: usize, bytes: usize)
        requires
            old(self).wf(),
        ensures
            final(self).wf(),
            final(self)@ == set_states(
                old(self)@,
                range_pages(byte_offset, bytes).0,
                range_pages(byte_offset, bytes).1,
                PageState::Used,
            ),
    {
        let start_page = byte_offset / PAGE_SIZE;
        let end_byte = byte_offset.saturating_add(bytes);
        if end_byte <= byte_offset {
            return;
        }
        let end_page = div_ceil(end_byte, PAGE_SIZE);
        let stop = if end_page < self.pages.len() {
            end_page
        } else {
            self.pages.len()
        };
        self.set_range(start_page, stop, PageState::Used);
    }

    /// Mark every page the byte range touches as dirty.
    pub fn mark_range_dirty(&mut self, byte_offset: usize, bytes: usize)
        requires
            old(self).wf(),
        ensures
            final(self).wf(),
            final(self)@ == set_states(
                old(self)@,
                range_pages(byte_offset, bytes).0,
                range_pages(byte_offset, bytes).1,
                PageState::Dirty,
            ),
    {
        let start_page = byte_offset / PAGE_SIZE;
        let end_byte = byte_offset.saturating_add(bytes);
        if end_byte <= byte_offset {
            return;
        }
        let end_page = div_ceil(end_byte, PAGE_SIZE);
        let stop = if end_page < self.pages.len() {
            end_page
        } else {
            self.pages.len()
        };
        self.set_range(start_page, stop, PageState::Dirty);
    }

    /// Reset all pages to free.
    pub fn clear(&mut self)
        requires
            old(self).wf(),
        ensures
            final(self).wf(),
            final(self)@ == set_states(old(self)@, 0, REGION_PAGE_COUNT as int, PageState::Free),
    {
        let n = self.pages.len();
        self.set_range(0, n, PageState::Free);
    }

    /// Number of used pages (`Used` or `Dirty`).
    pub fn used_count(&self) -> (r: usize)
        requires
            self.wf(),
        ensures
            r == used_upto(self@, self@.len() as int),
    {
        let mut n: usize = 0;
        let mut i: usize = 0;
        while i < self.pages.len()
            invariant
                self.wf(),
                i <= self.pages@.len(),
                n == used_upto(self@, i as int),
                n <= i,
            decreases self.pages@.len() - i,
        {
            if self.pages[i].is_used() {
                n = n + 1;
            }
            i = i + 1;
        }
        n
    }

    /// Total pages.
    pub fn len(&self) -> (r: usize)
        requires
            self.wf(),
        ensures
            r == self@.len(),
    {
        self.pages.len()
    }

    /// Whether the table is empty.
    pub fn is_empty(&self) -> (r: bool)
        requires
            self.wf(),
        ensures
            r == (self@.len() == 0),
    {
        self.pages.len() == 0
    }

    /// Every page in the given state, with its index, in index order.
    pub fn for_each_in(&self, state: PageState) -> (r: Vec<(usize, PageDescriptor)>)
        requires
            self.wf(),
        ensures
            r@ == in_state_upto(self@, state, self@.len() as int),
    {
        let mut out: Vec<(usize, PageDescriptor)> = Vec::new();
        let mut i: usize = 0;
        while i < self.pages.len()
            invariant
                self.wf(),
                i <= self.pages@.len(),
                out@ == in_state_upto(self@, state, i as int),
            decreases self.pages@.len() - i,
        {
            let p = self.pages[i];
            if p.state == state {
                out.push((i, p));
            }
            i = i + 1;
        }
        out
    }
}

impl Default for PageTable {
    fn default() -> (r: PageTable)
        ensures
            r.wf(),
            r@ == Seq::new(
                REGION_PAGE_COUNT as nat,
                |i: int| PageDescriptor { state: PageState::Free, pin_count: 0 },
            ),
    {
        PageTable::new()
    }
}

/// Marking a range used leaves every page outside it unchanged, and every
/// page inside it counts as used afterwards.
pub proof fn law_mark_range(pages: Seq<PageDescriptor>, start: int, end: int, i: int)
    requires
        0 <= i < pages.len(),
    ensures
        start <= i < end ==> state_is_used(set_states(pages, start, end, PageState::Used)[i].state),
        !(start <= i < end) ==> set_states(pages, start, end, PageState::Used)[i] == pages[i],
        set_states(pages, start, end, PageState::Used)[i].pin_count == pages[i].pin_count,
{
}

/// The end of the byte range `[byte_offset, byte_offset + bytes)`,
/// saturating at the top of the address space.
pub open spec fn range_end(byte_offset: usize, bytes: usize) -> int {
    if byte_offset + bytes > usize::MAX {
        usize::MAX as int
    } else {
        byte_offset + bytes
    }
}

/// The page a byte offset lies in.
pub open spec fn page_of(b: int) -> int {
    b / (PAGE_SIZE as int)
}

/// The pages a range marks are exactly the pages of the table that hold
/// some byte of the range; in particular an empty range marks no page.
pub proof fn law_range_touches(byte_offset: usize, bytes: usize, i: int)
    requires
        0 <= i < REGION_PAGE_COUNT,
    ensures
        (range_pages(byte_offset, bytes).0 <= i < range_pages(byte_offset, bytes).1) <==> exists|
            b: int,
        |
            byte_offset <= b < range_end(byte_offset, bytes) && #[trigger] page_of(b) == i,
{
    let e = range_end(byte_offset, bytes);
    let o = byte_offset as int;
    if range_pages(byte_offset, bytes).0 <= i < range_pages(byte_offset, bytes).1 {
        let b = if o > i * 4096 { o } else { i * 4096 };
        assert(o / 4096 <= i);
        assert(i < (e + 4095) / 4096);
        assert(o < e);
        assert(b < e) by (nonlinear_arith)
            requires
                b == if o > i * 4096 { o } else { i * 4096 },
                o < e,
                i < (e + 4095) / 4096,
        ;
        assert(page_of(b) == i) by (nonlinear_arith)
            requires
                b == if o > i * 4096 { o } else { i * 4096 },
                o / 4096 <= i,
                o >= 0,
                i >= 0,
        ;
    }
    if exists|b: int| o <= b < e && #[trigger] page_of(b) == i {
        let b = choose|b: int| o <= b < e && #[trigger] page_of(b) == i;
        assert(o / 4096 <= b / 4096) by (nonlinear_arith)
            requires
                0 <= o <= b,
        ;
        assert(b / 4096 < (e + 4095) / 4096) by (nonlinear_arith)
            requires
                0 <= b < e,
        ;
    }
}

} // verus!
