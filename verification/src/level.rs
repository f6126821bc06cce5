//! Price levels, and what a side of the book is as a mathematical map.
//!
//! A side is a map from a price's value (in units of `10^-28`) to the level resting at
//! that price. Keying by value makes `10.0` and `10.00` the same price.

use crate::decimal::FixedDecimal;
use vstd::prelude::*;

verus! {

/// Which side of the book a level rests on.
#[derive(Clone, Copy, Debug, PartialEq, Eq, Structural)]
pub enum Side {
    Bid,
    Ask,
}

/// A price and the aggregate quantity resting at it.
#[derive(Clone, Copy, Debug, PartialEq, Eq, Structural)]
pub struct PriceLevel {
    pub price: FixedDecimal,
    pub quantity: FixedDecimal,
}

/// A side holds only live levels: each is filed under its own price's value, and none
/// has a zero quantity.
pub open spec fn levels_wf(levels: Map<int, PriceLevel>) -> bool {
    forall|v: int| #[trigger]
        levels.contains_key(v) ==> {
            &&& levels[v].price.wf()
            &&& levels[v].quantity.wf()
            &&& levels[v].price.value() == v
            &&& levels[v].quantity.value() != 0
        }
}

/// Sets the quantity at a price. A level already resting at that value keeps the price
/// as it was first written; only its quantity changes.
pub open spec fn put_level(
    levels: Map<int, PriceLevel>,
    price: FixedDecimal,
    quantity: FixedDecimal,
) -> Map<int, PriceLevel> {
    let shown = if levels.contains_key(price.value()) {
        levels[price.value()].price
    } else {
        price
    };
    levels.insert(price.value(), PriceLevel { price: shown, quantity })
}

/// One delta of an incremental update: a zero quantity removes the price, any other
/// quantity is set at it.
pub open spec fn upsert_level(
    levels: Map<int, PriceLevel>,
    price: FixedDecimal,
    quantity: FixedDecimal,
) -> Map<int, PriceLevel> {
    if quantity.value() == 0 {
        levels.remove(price.value())
    } else {
        put_level(levels, price, quantity)
    }
}

/// One entry of a snapshot: a zero quantity is dropped, any other quantity is set.
pub open spec fn load_level(
    levels: Map<int, PriceLevel>,
    price: FixedDecimal,
    quantity: FixedDecimal,
) -> Map<int, PriceLevel> {
    if quantity.value() == 0 {
        levels
    } else {
        put_level(levels, price, quantity)
    }
}

/// The deltas of an update applied in order, first to last.
pub open spec fn upsert_levels(levels: Map<int, PriceLevel>, deltas: Seq<PriceLevel>) -> Map<
    int,
    PriceLevel,
>
    decreases deltas.len(),
{
    if deltas.len() == 0 {
        levels
    } else {
        let d = deltas.last();
        upsert_level(upsert_levels(levels, deltas.drop_last()), d.price, d.quantity)
    }
}

/// The entries of a snapshot loaded in order, first to last.
pub open spec fn load_levels(levels: Map<int, PriceLevel>, entries: Seq<PriceLevel>) -> Map<
    int,
    PriceLevel,
>
    decreases entries.len(),
{
    if entries.len() == 0 {
        levels
    } else {
        let e = entries.last();
        load_level(load_levels(levels, entries.drop_last()), e.price, e.quantity)
    }
}

/// A list holds exactly the levels of a side: each of its items rests on the side, and
/// each level of the side is in it.
pub open spec fn lists_levels(list: Seq<PriceLevel>, levels: Map<int, PriceLevel>) -> bool {
    &&& forall|i: int|
        0 <= i < list.len() ==> levels.contains_key((#[trigger] list[i]).price.value())
            && levels[list[i].price.value()] == list[i]
    &&& forall|v: int| #[trigger] levels.contains_key(v) ==> list.contains(levels[v])
}

/// Prices strictly rise along the list.
pub open spec fn prices_rise(list: Seq<PriceLevel>) -> bool {
    forall|i: int, j: int|
        0 <= i < j < list.len() ==> (#[trigger] list[i]).price.value() < (
        #[trigger] list[j]).price.value()
}

/// Prices strictly fall along the list.
pub open spec fn prices_fall(list: Seq<PriceLevel>) -> bool {
    forall|i: int, j: int|
        0 <= i < j < list.len() ==> (#[trigger] list[i]).price.value() > (
        #[trigger] list[j]).price.value()
}

/// Whether `v` is the highest price on the side.
pub open spec fn is_highest(levels: Map<int, PriceLevel>, v: int) -> bool {
    levels.contains_key(v) && forall|w: int| #[trigger] levels.contains_key(w) ==> w <= v
}

/// Whether `v` is the lowest price on the side.
pub open spec fn is_lowest(levels: Map<int, PriceLevel>, v: int) -> bool {
    levels.contains_key(v) && forall|w: int| #[trigger] levels.contains_key(w) ==> v <= w
}

/// The level at the highest price, if the side has one.
pub open spec fn highest_level(levels: Map<int, PriceLevel>) -> Option<PriceLevel> {
    if exists|v: int| is_highest(levels, v) {
        Some(levels[choose|v: int| is_highest(levels, v)])
    } else {
        None
    }
}

/// The level at the lowest price, if the side has one.
pub open spec fn lowest_level(levels: Map<int, PriceLevel>) -> Option<PriceLevel> {
    if exists|v: int| is_lowest(levels, v) {
        Some(levels[choose|v: int| is_lowest(levels, v)])
    } else {
        None
    }
}

/// The levels of a side with prices strictly rising. A finite side has exactly one
/// such list ([`lemma_rising_list_unique`]).
pub open spec fn rising_levels(levels: Map<int, PriceLevel>) -> Seq<PriceLevel> {
    choose|list: Seq<PriceLevel>| lists_levels(list, levels) && prices_rise(list)
}

/// The levels of a side with prices strictly falling.
pub open spec fn falling_levels(levels: Map<int, PriceLevel>) -> Seq<PriceLevel> {
    rising_levels(levels).reverse()
}

/// The first `limit` items of a list, or all of it where it is shorter.
pub open spec fn first_n(list: Seq<PriceLevel>, limit: nat) -> Seq<PriceLevel> {
    if limit < list.len() {
        list.take(limit as int)
    } else {
        list
    }
}

proof fn lemma_rising_prefix(
    a: Seq<PriceLevel>,
    b: Seq<PriceLevel>,
    levels: Map<int, PriceLevel>,
    n: nat,
)
    requires
        levels_wf(levels),
        lists_levels(a, levels),
        lists_levels(b, levels),
        prices_rise(a),
        prices_rise(b),
        n <= a.len(),
    ensures
        n <= b.len(),
        forall|i: int| 0 <= i < n ==> a[i] == b[i],
    decreases n,
{
    if n > 0 {
        lemma_rising_prefix(a, b, levels, (n - 1) as nat);
        let i = n - 1;
        let v = a[i].price.value();
        assert(levels.contains_key(v));
        assert(b.contains(levels[v]));
        let j = choose|j: int| 0 <= j < b.len() && b[j] == levels[v];
        if j < i {
            assert(a[j] == b[j]);
            assert(a[j].price.value() < a[i].price.value());
        } else if j > i {
            let w = b[i].price.value();
            assert(b[i].price.value() < b[j].price.value());
            assert(levels.contains_key(w));
            assert(a.contains(levels[w]));
            let k = choose|k: int| 0 <= k < a.len() && a[k] == levels[w];
            if k > i {
                assert(a[i].price.value() < a[k].price.value());
            }
            assert(k < i);
            assert(a[k] == b[k]);
            assert(b[k].price.value() < b[i].price.value());
        }
        assert(j == i);
    }
}

/// Two lists of the same side whose prices both rise are the same list.
pub proof fn lemma_rising_list_unique(
    a: Seq<PriceLevel>,
    b: Seq<PriceLevel>,
    levels: Map<int, PriceLevel>,
)
    requires
        levels_wf(levels),
        lists_levels(a, levels),
        lists_levels(b, levels),
        prices_rise(a),
        prices_rise(b),
    ensures
        a == b,
{
    lemma_rising_prefix(a, b, levels, a.len());
    lemma_rising_prefix(b, a, levels, b.len());
    assert(a =~= b);
}

/// A rising list of a side is the side's rising list.
pub proof fn lemma_rising_levels(list: Seq<PriceLevel>, levels: Map<int, PriceLevel>)
    requires
        levels_wf(levels),
        lists_levels(list, levels),
        prices_rise(list),
    ensures
        list == rising_levels(levels),
{
    lemma_rising_list_unique(list, rising_levels(levels), levels);
}

/// Reversing a rising list of a side gives a falling list of the same side.
pub proof fn lemma_reverse_falls(list: Seq<PriceLevel>, levels: Map<int, PriceLevel>)
    requires
        lists_levels(list, levels),
        prices_rise(list),
    ensures
        lists_levels(list.reverse(), levels),
        prices_fall(list.reverse()),
{
    let back = list.reverse();
    assert forall|v: int| #[trigger] levels.contains_key(v) implies back.contains(levels[v]) by {
        assert(list.contains(levels[v]));
        let i = choose|i: int| 0 <= i < list.len() && list[i] == levels[v];
        assert(back[list.len() - 1 - i] == levels[v]);
    }
}

} // verus!
