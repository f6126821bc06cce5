//! The order book: both sides and the id of the last update folded into them.
//!
//! A book is built from a snapshot and changed by incremental updates. An update is
//! applied only if it continues from the book's sequence id; otherwise the book is left
//! as it was and the caller is told why. Text is parsed before anything is changed, so
//! a malformed record never leaves the book half updated.

use crate::decimal::difference_spec;
use crate::decimal::parse_spec;
use crate::decimal::FixedDecimal;
use crate::level::falling_levels;
use crate::level::first_n;
use crate::level::highest_level;
use crate::level::levels_wf;
use crate::level::lists_levels;
use crate::level::load_levels;
use crate::level::lowest_level;
use crate::level::prices_fall;
use crate::level::prices_rise;
use crate::level::rising_levels;
use crate::level::upsert_level;
use crate::level::upsert_levels;
use crate::level::PriceLevel;
use crate::level::Side;
use crate::side::BookSide;
use crate::wire::DepthSnapshot;
use crate::wire::DepthUpdate;
use crate::wire::RawLevel;
use vstd::prelude::*;

verus! {

/// Which of a level's two texts is meant.
#[derive(Clone, Copy, Debug, PartialEq, Eq, Structural)]
pub enum Field {
    Price,
    Quantity,
}

/// A text that is not a decimal: the first one met, bids before asks, and within a
/// level the price before the quantity.
#[derive(Clone, Copy, Debug, PartialEq, Eq, Structural)]
pub struct ParseError {
    pub side: Side,
    pub index: usize,
    pub field: Field,
}

/// How an update's id range lies relative to a book's sequence id.
#[derive(Clone, Copy, Debug, PartialEq, Eq, Structural)]
pub enum Continuity {
    /// The update starts beyond the next expected id: updates in between were missed.
    Gap,
    /// The update ends at or before the sequence id: the book already holds it.
    Stale,
    /// The update reaches the next expected id without skipping any.
    Applicable,
}

/// What became of an update.
#[derive(Clone, Copy, Debug, PartialEq, Eq, Structural)]
pub enum UpdateOutcome {
    /// The update was folded in; the book's sequence id is now the one carried here.
    Applied(u64),
    /// The update held nothing new and was ignored.
    Stale,
    /// The update does not continue from the book; the book must be rebuilt.
    Gap,
}

/// Where an update's id range lies: a gap if it starts beyond `sequence_id + 1`,
/// else stale if it ends at or before `sequence_id`, else applicable.
pub open spec fn continuity(sequence_id: u64, first_update_id: u64, last_update_id: u64) -> Continuity {
    if first_update_id > sequence_id + 1 {
        Continuity::Gap
    } else if last_update_id <= sequence_id {
        Continuity::Stale
    } else {
        Continuity::Applicable
    }
}

/// The text of a raw level that is not a decimal, the price first; `None` where both are.
pub open spec fn bad_field(raw: RawLevel) -> Option<Field> {
    if parse_spec(raw.price@) is None {
        Some(Field::Price)
    } else if parse_spec(raw.quantity@) is None {
        Some(Field::Quantity)
    } else {
        None
    }
}

/// The level that a raw level with two good texts stands for.
pub open spec fn parsed_level(raw: RawLevel) -> PriceLevel {
    PriceLevel { price: parse_spec(raw.price@)->0, quantity: parse_spec(raw.quantity@)->0 }
}

/// The levels that raw levels stand for, in the same order.
pub open spec fn parsed_levels(raw: Seq<RawLevel>) -> Seq<PriceLevel> {
    Seq::new(raw.len(), |i: int| parsed_level(raw[i]))
}

/// The first raw level at or after `from` with a text that is not a decimal, and
/// which text it is.
pub open spec fn first_bad_from(raw: Seq<RawLevel>, from: int) -> Option<(usize, Field)>
    decreases raw.len() - from,
{
    if from < 0 || from >= raw.len() {
        None
    } else {
        match bad_field(raw[from]) {
            Some(field) => Some((from as usize, field)),
            None => first_bad_from(raw, from + 1),
        }
    }
}

/// The first text of a record that is not a decimal, bids before asks.
pub open spec fn first_error(bids: Seq<RawLevel>, asks: Seq<RawLevel>) -> Option<ParseError> {
    match first_bad_from(bids, 0) {
        Some(at) => Some(ParseError { side: Side::Bid, index: at.0, field: at.1 }),
        None => match first_bad_from(asks, 0) {
            Some(at) => Some(ParseError { side: Side::Ask, index: at.0, field: at.1 }),
            None => None,
        },
    }
}

/// What [`first_bad_from`] finds is the least bad index at or after `from`, and it
/// finds nothing exactly when every level from there on is good.
pub proof fn lemma_first_bad(raw: Seq<RawLevel>, from: int)
    requires
        0 <= from,
        raw.len() <= usize::MAX,
    ensures
        match first_bad_from(raw, from) {
            Some(at) => {
                &&& from <= at.0 < raw.len()
                &&& bad_field(raw[at.0 as int]) == Some(at.1)
                &&& forall|j: int| from <= j < at.0 ==> bad_field(#[trigger] raw[j]) is None
            },
            None => forall|j: int| from <= j < raw.len() ==> bad_field(#[trigger] raw[j]) is None,
        },
    decreases raw.len() - from,
{
    if from < raw.len() && bad_field(raw[from]) is None {
        lemma_first_bad(raw, from + 1);
    }
}

/// A book as a mathematical value: the sequence id and, for each side, the map from
/// price value to the level resting there.
pub struct BookState {
    pub sequence_id: u64,
    pub bids: Map<int, PriceLevel>,
    pub asks: Map<int, PriceLevel>,
}

impl BookState {
    /// Both sides hold only live levels, each filed under its own price.
    pub open spec fn wf(self) -> bool {
        levels_wf(self.bids) && levels_wf(self.asks)
    }

    /// The book after one delta on one side.
    pub open spec fn upsert(self, side: Side, price: FixedDecimal, quantity: FixedDecimal) -> BookState {
        match side {
            Side::Bid => BookState { bids: upsert_level(self.bids, price, quantity), ..self },
            Side::Ask => BookState { asks: upsert_level(self.asks, price, quantity), ..self },
        }
    }

    /// The book that a snapshot with good texts stands for.
    pub open spec fn loaded(snapshot: DepthSnapshot) -> BookState {
        BookState {
            sequence_id: snapshot.last_update_id,
            bids: load_levels(Map::empty(), parsed_levels(snapshot.bids@)),
            asks: load_levels(Map::empty(), parsed_levels(snapshot.asks@)),
        }
    }

    /// What an update comes to on this book.
    pub open spec fn outcome(self, update: DepthUpdate) -> Result<UpdateOutcome, ParseError> {
        match continuity(self.sequence_id, update.first_update_id, update.last_update_id) {
            Continuity::Gap => Ok(UpdateOutcome::Gap),
            Continuity::Stale => Ok(UpdateOutcome::Stale),
            Continuity::Applicable => match first_error(update.bids@, update.asks@) {
                Some(e) => Err(e),
                None => Ok(UpdateOutcome::Applied(update.last_update_id)),
            },
        }
    }

    /// The book after an update: changed only where the update is applied, and then by
    /// every delta, bids first, with the sequence id set to the update's last id.
    pub open spec fn apply(self, update: DepthUpdate) -> BookState {
        if self.outcome(update) is Ok && self.outcome(update)->Ok_0 is Applied {
            BookState {
                sequence_id: update.last_update_id,
                bids: upsert_levels(self.bids, parsed_levels(update.bids@)),
                asks: upsert_levels(self.asks, parsed_levels(update.asks@)),
            }
        } else {
            self
        }
    }

    /// The gap between the best prices: lowest ask minus highest bid.
    pub open spec fn spread(self) -> Option<FixedDecimal> {
        match (highest_level(self.bids), lowest_level(self.asks)) {
            (Some(bid), Some(ask)) => difference_spec(ask.price, bid.price),
            _ => None,
        }
    }
}

/// Where an update's id range lies relative to a sequence id.
pub fn classify(sequence_id: u64, first_update_id: u64, last_update_id: u64) -> (c: Continuity)
    ensures
        c == continuity(sequence_id, first_update_id, last_update_id),
{
    if first_update_id > sequence_id && first_update_id - sequence_id > 1 {
        Continuity::Gap
    } else if last_update_id <= sequence_id {
        Continuity::Stale
    } else {
        Continuity::Applicable
    }
}

/// Parses raw levels in order. Fails at the first text that is not a decimal.
pub fn parse_levels(raw: &Vec<RawLevel>) -> (r: Result<Vec<PriceLevel>, (usize, Field)>)
    ensures
        match r {
            Ok(levels) => first_bad_from(raw@, 0) is None && levels@ == parsed_levels(raw@),
            Err(at) => first_bad_from(raw@, 0) == Some(at),
        },
{
    let mut levels: Vec<PriceLevel> = Vec::new();
    let mut i: usize = 0;
    while i < raw.len()
        invariant
            i <= raw.len(),
            first_bad_from(raw@, 0) == first_bad_from(raw@, i as int),
            levels@.len() == i,
            forall|j: int| 0 <= j < i ==> #[trigger] levels@[j] == parsed_level(raw@[j]),
        decreases raw.len() - i,
    {
        let price: FixedDecimal = match FixedDecimal::parse(raw[i].price.as_str()) {
            Some(price) => price,
            None => {
                return Err((i, Field::Price));
            },
        };
        let quantity: FixedDecimal = match FixedDecimal::parse(raw[i].quantity.as_str()) {
            Some(quantity) => quantity,
            None => {
                return Err((i, Field::Quantity));
            },
        };
        levels.push(PriceLevel { price, quantity });
        i = i + 1;
    }
    proof {
        assert(levels@ =~= parsed_levels(raw@));
    }
    Ok(levels)
}

/// Parses both sides of a record, bids first. Fails at the first text that is not a
/// decimal.
pub fn parse_sides(bids: &Vec<RawLevel>, asks: &Vec<RawLevel>) -> (r: Result<
    (Vec<PriceLevel>, Vec<PriceLevel>),
    ParseError,
>)
    ensures
        match r {
            Ok(sides) => {
                &&& first_error(bids@, asks@) is None
                &&& sides.0@ == parsed_levels(bids@)
                &&& sides.1@ == parsed_levels(asks@)
            },
            Err(e) => first_error(bids@, asks@) == Some(e),
        },
{
    let bid_levels: Vec<PriceLevel> = match parse_levels(bids) {
        Ok(levels) => levels,
        Err(at) => {
            return Err(ParseError { side: Side::Bid, index: at.0, field: at.1 });
        },
    };
    let ask_levels: Vec<PriceLevel> = match parse_levels(asks) {
        Ok(levels) => levels,
        Err(at) => {
            return Err(ParseError { side: Side::Ask, index: at.0, field: at.1 });
        },
    };
    Ok((bid_levels, ask_levels))
}

/// The local replica of the venue's book.
#[derive(Debug)]
pub struct OrderBook {
    sequence_id: u64,
    bids: BookSide,
    asks: BookSide,
}

impl View for OrderBook {
    type V = BookState;

    closed spec fn view(&self) -> BookState {
        BookState { sequence_id: self.sequence_id, bids: self.bids@, asks: self.asks@ }
    }
}

impl OrderBook {
    /// Builds a book from a snapshot. Every text is parsed first; one that is not a
    /// decimal rejects the whole snapshot. Entries with a zero quantity are dropped,
    /// and of two entries at one price the later sets the quantity.
    pub fn from_snapshot(snapshot: DepthSnapshot) -> (r: Result<OrderBook, ParseError>)
        ensures
            match r {
                Ok(book) => {
                    &&& first_error(snapshot.bids@, snapshot.asks@) is None
                    &&& book@ == BookState::loaded(snapshot)
                    &&& book@.wf()
                },
                Err(e) => first_error(snapshot.bids@, snapshot.asks@) == Some(e),
            },
    {
        let sides: (Vec<PriceLevel>, Vec<PriceLevel>) = match parse_sides(
            &snapshot.bids,
            &snapshot.asks,
        ) {
            Ok(sides) => sides,
            Err(e) => {
                return Err(e);
            },
        };
        let mut bids: BookSide = BookSide::new();
        let mut asks: BookSide = BookSide::new();
        bids.load_all(&sides.0);
        asks.load_all(&sides.1);
        Ok(OrderBook { sequence_id: snapshot.last_update_id, bids, asks })
    }

    /// The id of the last update folded into the book.
    pub fn sequence_id(&self) -> (id: u64)
        ensures
            id == self@.sequence_id,
    {
        self.sequence_id
    }

    /// Applies one delta to one side: a zero quantity removes the price (and does
    /// nothing where no level rests at it), any other quantity is set at the price.
    pub fn upsert(&mut self, side: Side, price: FixedDecimal, quantity: FixedDecimal)
        ensures
            final(self)@ == old(self)@.upsert(side, price, quantity),
            final(self)@.wf(),
    {
        proof {
            use_type_invariant(&self.bids);
            use_type_invariant(&self.asks);
            self.bids.lemma_wf();
            self.asks.lemma_wf();
        }
        match side {
            Side::Bid => self.bids.upsert(price, quantity),
            Side::Ask => self.asks.upsert(price, quantity),
        }
    }

    /// Applies an update if it continues from the book.
    ///
    /// A gap or a stale update leaves the book as it was. An applicable update is
    /// parsed in full before anything changes: a text that is not a decimal rejects
    /// it and leaves the book as it was; otherwise every delta is applied, bids
    /// first, and the sequence id becomes the update's last id.
    pub fn apply_depth_update(&mut self, update: &DepthUpdate) -> (r: Result<
        UpdateOutcome,
        ParseError,
    >)
        ensures
            r == old(self)@.outcome(*update),
            final(self)@ == old(self)@.apply(*update),
            final(self)@.wf(),
            final(self)@.sequence_id >= old(self)@.sequence_id,
    {
        proof {
            use_type_invariant(&self.bids);
            use_type_invariant(&self.asks);
            self.bids.lemma_wf();
            self.asks.lemma_wf();
        }
        match classify(self.sequence_id, update.first_update_id, update.last_update_id) {
            Continuity::Gap => Ok(UpdateOutcome::Gap),
            Continuity::Stale => Ok(UpdateOutcome::Stale),
            Continuity::Applicable => {
                let sides: (Vec<PriceLevel>, Vec<PriceLevel>) = match parse_sides(
                    &update.bids,
                    &update.asks,
                ) {
                    Ok(sides) => sides,
                    Err(e) => {
                        return Err(e);
                    },
                };
                self.bids.upsert_all(&sides.0);
                self.asks.upsert_all(&sides.1);
                self.sequence_id = update.last_update_id;
                Ok(UpdateOutcome::Applied(update.last_update_id))
            },
        }
    }

    /// The bids, highest price first.
    pub fn bids_descending(&self) -> (list: Vec<PriceLevel>)
        ensures
            prices_fall(list@),
            lists_levels(list@, self@.bids),
            list@ == falling_levels(self@.bids),
    {
        self.bids.descending()
    }

    /// The asks, lowest price first.
    pub fn asks_ascending(&self) -> (list: Vec<PriceLevel>)
        ensures
            prices_rise(list@),
            lists_levels(list@, self@.asks),
            list@ == rising_levels(self@.asks),
    {
        self.asks.ascending()
    }

    /// The highest bid; `None` exactly when there are no bids.
    pub fn best_bid(&self) -> (r: Option<PriceLevel>)
        ensures
            r == highest_level(self@.bids),
            r is None <==> self@.bids == Map::<int, PriceLevel>::empty(),
    {
        self.bids.highest()
    }

    /// The lowest ask; `None` exactly when there are no asks.
    pub fn best_ask(&self) -> (r: Option<PriceLevel>)
        ensures
            r == lowest_level(self@.asks),
            r is None <==> self@.asks == Map::<int, PriceLevel>::empty(),
    {
        self.asks.lowest()
    }

    /// The lowest ask's price minus the highest bid's. `None` where a side is empty,
    /// and where the difference is beyond what a decimal can hold.
    pub fn spread(&self) -> (r: Option<FixedDecimal>)
        ensures
            r == self@.spread(),
            (self@.bids == Map::<int, PriceLevel>::empty() || self@.asks == Map::<
                int,
                PriceLevel,
            >::empty()) ==> r is None,
    {
        match (self.best_bid(), self.best_ask()) {
            (Some(bid), Some(ask)) => ask.price.checked_sub(&bid.price),
            _ => None,
        }
    }

    /// The first `limit` bids, highest price first; all of them where there are fewer.
    pub fn top_bids(&self, limit: usize) -> (list: Vec<PriceLevel>)
        ensures
            list@ == first_n(falling_levels(self@.bids), limit as nat),
    {
        let mut list: Vec<PriceLevel> = self.bids.descending();
        if limit < list.len() {
            list.truncate(limit);
        }
        list
    }

    /// The first `limit` asks, lowest price first; all of them where there are fewer.
    pub fn top_asks(&self, limit: usize) -> (list: Vec<PriceLevel>)
        ensures
            list@ == first_n(rising_levels(self@.asks), limit as nat),
    {
        let mut list: Vec<PriceLevel> = self.asks.ascending();
        if limit < list.len() {
            list.truncate(limit);
        }
        list
    }
}

} // verus!
