//! One side of the book: the levels resting on it, held in price order.
//!
//! The levels live in a `BTreeMap` keyed by the price's sort key, a pair of integers
//! that orders as the price's value does. To the outside a side is the map from price
//! value to level described in [`crate::level`].

use crate::decimal::key_canonical;
use crate::decimal::key_holds;
use crate::decimal::key_less;
use crate::decimal::key_of;
use crate::decimal::key_value;
use crate::decimal::lemma_key_of_value;
use crate::decimal::lemma_key_order;
use crate::decimal::FixedDecimal;
use crate::level::falling_levels;
use crate::level::highest_level;
use crate::level::is_highest;
use crate::level::is_lowest;
use crate::level::lemma_reverse_falls;
use crate::level::lemma_rising_levels;
use crate::level::levels_wf;
use crate::level::lists_levels;
use crate::level::load_level;
use crate::level::load_levels;
use crate::level::lowest_level;
use crate::level::prices_fall;
use crate::level::prices_rise;
use crate::level::put_level;
use crate::level::rising_levels;
use crate::level::upsert_level;
use crate::level::upsert_levels;
use crate::level::PriceLevel;
use std::collections::BTreeMap;
use vstd::prelude::*;
use vstd::std_specs::btree::increasing_seq;
use vstd::std_specs::cmp::OrdSpec;
use vstd::std_specs::iter::IteratorSpec;

verus! {

/// The side that a keyed map stands for: the level filed under a value's sort key.
spec fn keyed_view(keyed: Map<(i128, u128), PriceLevel>) -> Map<int, PriceLevel> {
    Map::new(|v: int| key_holds(v) && keyed.contains_key(key_of(v)), |v: int| keyed[key_of(v)])
}

/// Every level is filed under the canonical key of its own price, and none is dead.
spec fn keyed_wf(keyed: Map<(i128, u128), PriceLevel>) -> bool {
    forall|k: (i128, u128)| #[trigger]
        keyed.contains_key(k) ==> {
            &&& key_canonical(k)
            &&& key_value(k) == keyed[k].price.value()
            &&& keyed[k].price.wf()
            &&& keyed[k].quantity.wf()
            &&& keyed[k].quantity.value() != 0
        }
}

proof fn lemma_keyed_lookup(keyed: Map<(i128, u128), PriceLevel>, k: (i128, u128))
    requires
        key_canonical(k),
    ensures
        keyed_view(keyed).contains_key(key_value(k)) == keyed.contains_key(k),
        keyed.contains_key(k) ==> keyed_view(keyed)[key_value(k)] == keyed[k],
{
    lemma_key_of_value(k);
}

proof fn lemma_keyed_wf(keyed: Map<(i128, u128), PriceLevel>)
    requires
        keyed_wf(keyed),
    ensures
        levels_wf(keyed_view(keyed)),
{
    assert forall|v: int| #[trigger] keyed_view(keyed).contains_key(v) implies {
        &&& keyed_view(keyed)[v].price.wf()
        &&& keyed_view(keyed)[v].quantity.wf()
        &&& keyed_view(keyed)[v].price.value() == v
        &&& keyed_view(keyed)[v].quantity.value() != 0
    } by {
        assert(keyed.contains_key(key_of(v)));
    }
}

proof fn lemma_keyed_empty()
    ensures
        keyed_view(Map::<(i128, u128), PriceLevel>::empty()) == Map::<int, PriceLevel>::empty(),
        keyed_wf(Map::<(i128, u128), PriceLevel>::empty()),
{
    assert(keyed_view(Map::<(i128, u128), PriceLevel>::empty()) =~= Map::<
        int,
        PriceLevel,
    >::empty());
}

proof fn lemma_keyed_insert(
    keyed: Map<(i128, u128), PriceLevel>,
    k: (i128, u128),
    level: PriceLevel,
)
    requires
        key_canonical(k),
    ensures
        keyed_view(keyed.insert(k, level)) == keyed_view(keyed).insert(key_value(k), level),
{
    lemma_key_of_value(k);
    assert(keyed_view(keyed.insert(k, level)) =~= keyed_view(keyed).insert(key_value(k), level));
}

proof fn lemma_keyed_remove(keyed: Map<(i128, u128), PriceLevel>, k: (i128, u128))
    requires
        key_canonical(k),
    ensures
        keyed_view(keyed.remove(k)) == keyed_view(keyed).remove(key_value(k)),
{
    lemma_key_of_value(k);
    assert(keyed_view(keyed.remove(k)) =~= keyed_view(keyed).remove(key_value(k)));
}

/// The levels resting on one side of the book.
#[derive(Debug)]
pub struct BookSide {
    levels: BTreeMap<(i128, u128), PriceLevel>,
}

impl View for BookSide {
    type V = Map<int, PriceLevel>;

    closed spec fn view(&self) -> Map<int, PriceLevel> {
        keyed_view(self.levels@)
    }
}

impl BookSide {
    /// Every side that executable code holds is well formed.
    #[verifier::type_invariant]
    pub closed spec fn wf(self) -> bool {
        keyed_wf(self.levels@)
    }

    /// A well-formed side holds only live levels, each filed under its own price.
    pub proof fn lemma_wf(self)
        requires
            self.wf(),
        ensures
            levels_wf(self@),
    {
        lemma_keyed_wf(self.levels@);
    }

    /// A side with no levels.
    pub fn new() -> (side: BookSide)
        ensures
            side@ == Map::<int, PriceLevel>::empty(),
    {
        proof {
            lemma_keyed_empty();
        }
        BookSide { levels: BTreeMap::new() }
    }

    /// Sets a live quantity at a price.
    fn put(&mut self, price: FixedDecimal, quantity: FixedDecimal)
        requires
            quantity.value() != 0,
        ensures
            final(self)@ == put_level(old(self)@, price, quantity),
            levels_wf(final(self)@),
    {
        proof {
            use_type_invariant(&*self);
            use_type_invariant(&price);
            use_type_invariant(&quantity);
        }
        let key: (i128, u128) = price.sort_key();
        let mut levels: BTreeMap<(i128, u128), PriceLevel> = BTreeMap::new();
        std::mem::swap(&mut levels, &mut self.levels);
        let shown: FixedDecimal = match levels.get(&key) {
            Some(level) => level.price,
            None => price,
        };
        proof {
            lemma_keyed_lookup(levels@, key);
            lemma_keyed_insert(levels@, key, PriceLevel { price: shown, quantity });
        }
        levels.insert(key, PriceLevel { price: shown, quantity });
        proof {
            lemma_keyed_wf(levels@);
        }
        self.levels = levels;
    }

    /// Removes the level at a price, if there is one.
    fn remove(&mut self, price: FixedDecimal)
        ensures
            final(self)@ == old(self)@.remove(price.value()),
            levels_wf(final(self)@),
    {
        proof {
            use_type_invariant(&*self);
        }
        let key: (i128, u128) = price.sort_key();
        let mut levels: BTreeMap<(i128, u128), PriceLevel> = BTreeMap::new();
        std::mem::swap(&mut levels, &mut self.levels);
        proof {
            lemma_keyed_remove(levels@, key);
        }
        levels.remove(&key);
        proof {
            lemma_keyed_wf(levels@);
        }
        self.levels = levels;
    }

    /// Applies one delta: a zero quantity removes the price (and does nothing where no
    /// level rests at it), any other quantity is set at the price.
    pub fn upsert(&mut self, price: FixedDecimal, quantity: FixedDecimal)
        ensures
            final(self)@ == upsert_level(old(self)@, price, quantity),
            levels_wf(final(self)@),
    {
        if quantity.is_zero() {
            self.remove(price);
        } else {
            self.put(price, quantity);
        }
    }

    /// Loads one snapshot entry: a zero quantity is dropped, any other quantity is set
    /// at the price.
    pub fn load(&mut self, price: FixedDecimal, quantity: FixedDecimal)
        ensures
            final(self)@ == load_level(old(self)@, price, quantity),
            levels_wf(final(self)@),
    {
        if !quantity.is_zero() {
            self.put(price, quantity);
        } else {
            proof {
                use_type_invariant(&*self);
                lemma_keyed_wf(self.levels@);
            }
        }
    }
}

/// What walking a keyed map in key order yields: every entry once, keys rising.
spec fn walks(walk: Seq<(&(i128, u128), &PriceLevel)>, keyed: Map<(i128, u128), PriceLevel>) -> bool {
    &&& forall|i: int|
        0 <= i < walk.len() ==> keyed.contains_key(*(#[trigger] walk[i]).0) && keyed[*walk[i].0]
            == *walk[i].1
    &&& forall|k: (i128, u128)| #[trigger]
        keyed.contains_key(k) ==> exists|i: int|
            0 <= i < walk.len() && *(#[trigger] walk[i]).0 == k
    &&& forall|i: int, j: int|
        0 <= i < j < walk.len() ==> key_less(*(#[trigger] walk[i]).0, *(#[trigger] walk[j]).0)
}

/// The levels of a walk, in the order walked.
spec fn walked_levels(walk: Seq<(&(i128, u128), &PriceLevel)>) -> Seq<PriceLevel> {
    Seq::new(walk.len(), |i: int| *walk[i].1)
}

/// A walk of a well-formed keyed map lists the side's levels with prices rising.
proof fn lemma_walk_lists(
    walk: Seq<(&(i128, u128), &PriceLevel)>,
    keyed: Map<(i128, u128), PriceLevel>,
)
    requires
        keyed_wf(keyed),
        walks(walk, keyed),
    ensures
        lists_levels(walked_levels(walk), keyed_view(keyed)),
        prices_rise(walked_levels(walk)),
{
    let list = walked_levels(walk);
    let side = keyed_view(keyed);
    assert forall|i: int| 0 <= i < list.len() implies side.contains_key(
        (#[trigger] list[i]).price.value(),
    ) && side[list[i].price.value()] == list[i] by {
        let k = *walk[i].0;
        assert(keyed.contains_key(k));
        lemma_keyed_lookup(keyed, k);
    }
    assert forall|v: int| #[trigger] side.contains_key(v) implies list.contains(side[v]) by {
        let k = key_of(v);
        assert(keyed.contains_key(k));
        let i = choose|i: int| 0 <= i < walk.len() && *(#[trigger] walk[i]).0 == k;
        assert(list[i] == side[v]);
    }
    assert forall|i: int, j: int| 0 <= i < j < list.len() implies (#[trigger] list[i]).price.value()
        < (#[trigger] list[j]).price.value() by {
        let a = *walk[i].0;
        let b = *walk[j].0;
        assert(keyed.contains_key(a));
        assert(keyed.contains_key(b));
        assert(key_less(a, b));
        lemma_key_order(a, b);
    }
}

/// The first level of a rising list is the side's lowest, the last its highest; an
/// empty list means an empty side.
proof fn lemma_list_ends(list: Seq<PriceLevel>, side: Map<int, PriceLevel>)
    requires
        levels_wf(side),
        lists_levels(list, side),
        prices_rise(list),
    ensures
        list.len() == 0 ==> side =~= Map::<int, PriceLevel>::empty() && lowest_level(side) is None
            && highest_level(side) is None,
        list.len() > 0 ==> lowest_level(side) == Some(list.first()) && highest_level(side) == Some(
            list.last(),
        ),
{
    if list.len() == 0 {
        assert forall|v: int| !side.contains_key(v) by {
            if side.contains_key(v) {
                assert(list.contains(side[v]));
            }
        }
    } else {
        let lo = list.first().price.value();
        let hi = list.last().price.value();
        assert(side.contains_key(list[0].price.value()));
        assert(side.contains_key(list[list.len() - 1].price.value()));
        assert forall|w: int| #[trigger] side.contains_key(w) implies lo <= w && w <= hi by {
            assert(list.contains(side[w]));
            let i = choose|i: int| 0 <= i < list.len() && list[i] == side[w];
            assert(list[i].price.value() == w);
            if 0 < i {
                assert(list[0].price.value() < list[i].price.value());
            }
            if i < list.len() - 1 {
                assert(list[i].price.value() < list[list.len() - 1].price.value());
            }
        }
        assert(is_lowest(side, lo));
        assert(is_highest(side, hi));
        let l = choose|v: int| is_lowest(side, v);
        let h = choose|v: int| is_highest(side, v);
        assert(l == lo);
        assert(h == hi);
    }
}

impl BookSide {
    /// The levels with prices strictly rising.
    pub fn ascending(&self) -> (list: Vec<PriceLevel>)
        ensures
            lists_levels(list@, self@),
            prices_rise(list@),
            list@ == rising_levels(self@),
            levels_wf(self@),
    {
        proof {
            use_type_invariant(self);
        }
        let mut list: Vec<PriceLevel> = Vec::new();
        let ghost walk = self.levels.iter().remaining();
        let ghost keys = walk.map_values(|kv: (&(i128, u128), &PriceLevel)| *kv.0);
        for kv in it: self.levels.iter()
            invariant
                it.seq() == walk,
                list@.len() == it.index(),
                forall|i: int| 0 <= i < list@.len() ==> #[trigger] list@[i] == *walk[i].1,
        {
            list.push(*kv.1);
        }
        proof {
            assert(increasing_seq(keys));
            assert forall|i: int, j: int| 0 <= i < j < walk.len() implies key_less(
                *(#[trigger] walk[i]).0,
                *(#[trigger] walk[j]).0,
            ) by {
                assert(keys[i].cmp_spec(&keys[j]) is Less);
            }
            assert forall|k: (i128, u128)| #[trigger] self.levels@.contains_key(k) implies exists|
                i: int,
            |
                0 <= i < walk.len() && *(#[trigger] walk[i]).0 == k by {
                assert(walk.contains((&k, &self.levels@[k])));
                let i = choose|i: int| 0 <= i < walk.len() && walk[i] == (&k, &self.levels@[k]);
                assert(*walk[i].0 == k);
            }
            assert(walks(walk, self.levels@));
            lemma_walk_lists(walk, self.levels@);
            assert(list@ =~= walked_levels(walk));
            lemma_keyed_wf(self.levels@);
            lemma_rising_levels(list@, self@);
        }
        list
    }

    /// The levels with prices strictly falling.
    pub fn descending(&self) -> (list: Vec<PriceLevel>)
        ensures
            lists_levels(list@, self@),
            prices_fall(list@),
            list@ == falling_levels(self@),
            levels_wf(self@),
    {
        let up: Vec<PriceLevel> = self.ascending();
        let mut list: Vec<PriceLevel> = Vec::new();
        let mut i: usize = up.len();
        while i > 0
            invariant
                i <= up.len(),
                list@.len() == up.len() - i,
                forall|j: int| 0 <= j < list@.len() ==> #[trigger] list@[j] == up@[up.len() - 1 - j],
            decreases i,
        {
            i = i - 1;
            list.push(up[i]);
        }
        proof {
            assert(list@ =~= up@.reverse());
            lemma_reverse_falls(up@, self@);
        }
        list
    }

    /// The level at the lowest price; `None` exactly when the side is empty.
    pub fn lowest(&self) -> (r: Option<PriceLevel>)
        ensures
            r == lowest_level(self@),
            r is None <==> self@ == Map::<int, PriceLevel>::empty(),
            levels_wf(self@),
    {
        let up: Vec<PriceLevel> = self.ascending();
        proof {
            lemma_list_ends(up@, self@);
            if up@.len() > 0 {
                assert(self@.contains_key(up@[0].price.value()));
            }
        }
        if up.len() > 0 {
            Some(up[0])
        } else {
            None
        }
    }

    /// The level at the highest price; `None` exactly when the side is empty.
    pub fn highest(&self) -> (r: Option<PriceLevel>)
        ensures
            r == highest_level(self@),
            r is None <==> self@ == Map::<int, PriceLevel>::empty(),
            levels_wf(self@),
    {
        let up: Vec<PriceLevel> = self.ascending();
        proof {
            lemma_list_ends(up@, self@);
            if up@.len() > 0 {
                assert(self@.contains_key(up@[0].price.value()));
            }
        }
        if up.len() > 0 {
            Some(up[up.len() - 1])
        } else {
            None
        }
    }
}

impl BookSide {
    /// Applies the deltas of an update in order, first to last.
    pub fn upsert_all(&mut self, deltas: &Vec<PriceLevel>)
        ensures
            final(self)@ == upsert_levels(old(self)@, deltas@),
            levels_wf(final(self)@),
    {
        proof {
            use_type_invariant(&*self);
            self.lemma_wf();
        }
        let mut i: usize = 0;
        while i < deltas.len()
            invariant
                i <= deltas.len(),
                self@ == upsert_levels(old(self)@, deltas@.take(i as int)),
                levels_wf(self@),
            decreases deltas.len() - i,
        {
            proof {
                assert(deltas@.take(i + 1).drop_last() =~= deltas@.take(i as int));
            }
            self.upsert(deltas[i].price, deltas[i].quantity);
            i = i + 1;
        }
        proof {
            assert(deltas@.take(i as int) =~= deltas@);
        }
    }

    /// Loads the entries of a snapshot in order, first to last.
    pub fn load_all(&mut self, entries: &Vec<PriceLevel>)
        ensures
            final(self)@ == load_levels(old(self)@, entries@),
            levels_wf(final(self)@),
    {
        proof {
            use_type_invariant(&*self);
            self.lemma_wf();
        }
        let mut i: usize = 0;
        while i < entries.len()
            invariant
                i <= entries.len(),
                self@ == load_levels(old(self)@, entries@.take(i as int)),
                levels_wf(self@),
            decreases entries.len() - i,
        {
            proof {
                assert(entries@.take(i + 1).drop_last() =~= entries@.take(i as int));
            }
            self.load(entries[i].price, entries[i].quantity);
            i = i + 1;
        }
        proof {
            assert(entries@.take(i as int) =~= entries@);
        }
    }
}

} // verus!
