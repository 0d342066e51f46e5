//! Card table entries: coarse-grained dirty tracking for write barriers.
//!
//! A card is a fixed-size chunk of the heap (512 bytes). When a mutator
//! writes a pointer into a field, the corresponding card is marked dirty.
//! During the mark phase, the GC only scans dirty cards.
use crate::region::REGION_SIZE;
use vstd::prelude::*;

verus! {

/// Size of one card in bytes.
pub const CARD_SIZE: usize = 512;

/// Number of cards per region.
pub const CARDS_PER_REGION: usize = REGION_SIZE / CARD_SIZE;

/// Card state.
#[derive(Debug, Clone, Copy, PartialEq, Eq, Structural)]
pub enum CardState {
    /// Card is clean; no need to scan.
    Clean,
    /// Card has at least one dirty slot; must be scanned.
    Dirty,
}

/// The byte that encodes a card state.
pub open spec fn card_code(s: CardState) -> u8 {
    match s {
        CardState::Clean => 0,
        CardState::Dirty => 1,
    }
}

/// The card state a byte decodes to: zero is clean, anything else dirty.
pub open spec fn card_decode(b: u8) -> CardState {
    if b == 0 {
        CardState::Clean
    } else {
        CardState::Dirty
    }
}

impl CardState {
    /// Decode a byte: zero is clean, anything else dirty.
    pub fn from_byte(b: u8) -> (r: CardState)
        ensures
            r == card_decode(b),
    {
        if b == 0 {
            CardState::Clean
        } else {
            CardState::Dirty
        }
    }
}

/// One card byte.
pub struct CardByte(pub u8);

impl CardByte {
    /// A clean card.
    pub fn new() -> (r: CardByte)
        ensures
            r.0 == 0,
    {
        CardByte(0)
    }

    /// The card's state.
    pub fn load(&self) -> (r: CardState)
        ensures
            r == card_decode(self.0),
    {
        CardState::from_byte(self.0)
    }

    /// Set the card's state.
    pub fn store(&mut self, s: CardState)
        ensures
            final(self).0 == card_code(s),
    {
        self.0 = match s {
            CardState::Clean => 0,
            CardState::Dirty => 1,
        };
    }

    /// Mark as dirty.
    pub fn mark_dirty(&mut self)
        ensures
            final(self).0 == card_code(CardState::Dirty),
    {
        self.0 = 1;
    }
}

impl Default for CardByte {
    fn default() -> (r: CardByte)
        ensures
            r.0 == 0,
    {
        CardByte::new()
    }
}

/// Storing a state and loading it back gives the same state.
pub proof fn law_store_load(s: CardState)
    ensures
        card_decode(card_code(s)) == s,
{
}

} // verus!
