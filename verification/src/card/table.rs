//! Card table: array of card bytes covering one region.
use crate::card::byte::{CARD_SIZE, CARDS_PER_REGION, CardByte, CardState, card_decode};
use crate::region::REGION_SIZE;
use vstd::prelude::*;

verus! {

/// Card table for one region.
pub struct CardTable {
    cards: Vec<CardByte>,
}

/// The dirty card indices of `v` below `n`, in increasing order.
pub open spec fn dirty_upto(v: Seq<CardState>, n: int) -> Seq<usize>
    decreases n,
{
    if n <= 0 {
        Seq::empty()
    } else {
        let prev = dirty_upto(v, n - 1);
        if n - 1 < v.len() && v[n - 1] == CardState::Dirty {
            prev.push((n - 1) as usize)
        } else {
            prev
        }
    }
}

/// The card that covers `byte_offset`, if the offset lies within a region.
pub open spec fn card_index(byte_offset: usize) -> Option<int> {
    if byte_offset >= REGION_SIZE {
        None
    } else {
        Some((byte_offset / CARD_SIZE) as int)
    }
}

impl View for CardTable {
    type V = Seq<CardState>;

    /// The state of each card, by index.
    closed spec fn view(&self) -> Seq<CardState> {
        Seq::new(self.cards@.len(), |i: int| card_decode(self.cards@[i].0))
    }
}

impl CardTable {
    /// Internal consistency: one card per `CARD_SIZE` bytes of a region.
    pub open spec fn wf(&self) -> bool {
        self@.len() == CARDS_PER_REGION
    }

    /// Construct a clean card table.
    pub fn new() -> (r: CardTable)
        ensures
            r.wf(),
            r@ == Seq::new(CARDS_PER_REGION as nat, |i: int| CardState::Clean),
    {
        let mut cards: Vec<CardByte> = Vec::new();
        while cards.len() < CARDS_PER_REGION
            invariant
                cards@.len() <= CARDS_PER_REGION,
                forall|i: int| 0 <= i < cards@.len() ==> cards@[i].0 == 0,
            decreases CARDS_PER_REGION - cards@.len(),
        {
            cards.push(CardByte::new());
        }
        let r = CardTable { cards };
        assert(r@ =~= Seq::new(CARDS_PER_REGION as nat, |i: int| CardState::Clean));
        r
    }

    /// Mark the card containing the given offset within the region dirty
    /// (offsets beyond the region are ignored).
    pub fn mark_dirty_at(&mut self, byte_offset: usize)
        requires
            old(self).wf(),
        ensures
            final(self).wf(),
            card_index(byte_offset) matches Some(i) ==> final(self)@ == old(self)@.update(
                i,
                CardState::Dirty,
            ),
            card_index(byte_offset) is None ==> final(self)@ == old(self)@,
    {
        if byte_offset >= REGION_SIZE {
            return;
        }
        let idx = byte_offset / CARD_SIZE;
        if idx < self.cards.len() {
            self.cards[idx].mark_dirty();
            assert(self@ =~= old(self)@.update(idx as int, CardState::Dirty));
        }
    }

    /// Test the card at `byte_offset` (false beyond the region).
    pub fn is_dirty_at(&self, byte_offset: usize) -> (r: bool)
        requires
            self.wf(),
        ensures
            r == (card_index(byte_offset) matches Some(i) && self@[i] == CardState::Dirty),
    {
        if byte_offset >= REGION_SIZE {
            return false;
        }
        let idx = byte_offset / CARD_SIZE;
        if idx < self.cards.len() {
            self.cards[idx].load() == CardState::Dirty
        } else {
            false
        }
    }

    /// All dirty card indices, in increasing order.
    pub fn for_each_dirty(&self) -> (r: Vec<usize>)
        requires
            self.wf(),
        ensures
            r@ == dirty_upto(self@, self@.len() as int),
    {
        let mut out: Vec<usize> = Vec::new();
        let mut i: usize = 0;
        while i < self.cards.len()
            invariant
                self.wf(),
                i <= self.cards@.len(),
                out@ == dirty_upto(self@, i as int),
            decreases self.cards@.len() - i,
        {
            if self.cards[i].load() == CardState::Dirty {
                out.push(i);
            }
            i = i + 1;
        }
        out
    }

    /// Reset all cards to clean.
    pub fn clear(&mut self)
        requires
            old(self).wf(),
        ensures
            final(self).wf(),
            final(self)@ == Seq::new(CARDS_PER_REGION as nat, |i: int| CardState::Clean),
    {
        let mut i: usize = 0;
        while i < self.cards.len()
            invariant
                self.wf(),
                i <= self.cards@.len(),
                forall|j: int| 0 <= j < i ==> self.cards@[j].0 == 0,
            decreases self.cards@.len() - i,
        {
            self.cards[i].store(CardState::Clean);
            i = i + 1;
        }
        assert(self@ =~= Seq::new(CARDS_PER_REGION as nat, |i: int| CardState::Clean));
    }

    /// Number of cards.
    pub fn len(&self) -> (r: usize)
        requires
            self.wf(),
        ensures
            r == self@.len(),
    {
        self.cards.len()
    }

    /// Whether the table has zero cards.
    pub fn is_empty(&self) -> (r: bool)
        requires
            self.wf(),
        ensures
            r == (self@.len() == 0),
    {
        self.cards.len() == 0
    }
}

impl Default for CardTable {
    fn default() -> (r: CardTable)
        ensures
            r.wf(),
            r@ == Seq::new(CARDS_PER_REGION as nat, |i: int| CardState::Clean),
    {
        CardTable::new()
    }
}

/// A write barrier that dirties an in-region offset is seen by the test at
/// any offset on the same card.
pub proof fn law_dirty_covers_card(v: Seq<CardState>, a: usize, b: usize)
    requires
        v.len() == CARDS_PER_REGION,
        a < REGION_SIZE,
        b < REGION_SIZE,
        a / CARD_SIZE == b / CARD_SIZE,
    ensures
        card_index(b) matches Some(i) && v.update(card_index(a)->0, CardState::Dirty)[i]
            == CardState::Dirty,
{
}

} // verus!
