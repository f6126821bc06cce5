//! The records the venue sends, as plain values: prices and quantities are still text.

use vstd::prelude::*;

verus! {

/// One price level as it arrives: a price and a quantity, both as decimal text.
#[derive(Clone, Debug)]
pub struct RawLevel {
    pub price: String,
    pub quantity: String,
}

/// A point-in-time dump of the whole book.
#[derive(Clone, Debug)]
pub struct DepthSnapshot {
    /// The last update that the snapshot already includes.
    pub last_update_id: u64,
    pub bids: Vec<RawLevel>,
    pub asks: Vec<RawLevel>,
}

/// The levels that changed between two update ids, both included.
#[derive(Clone, Debug)]
pub struct DepthUpdate {
    pub first_update_id: u64,
    pub last_update_id: u64,
    pub bids: Vec<RawLevel>,
    pub asks: Vec<RawLevel>,
}

} // verus!
