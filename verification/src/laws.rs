//! What holds of every book and every update, proved from the definitions that the
//! book's contracts are stated in.

use crate::book::bad_field;
use crate::book::continuity;
use crate::book::first_bad_from;
use crate::book::first_error;
use crate::book::lemma_first_bad;
use crate::book::parsed_level;
use crate::book::parsed_levels;
use crate::book::BookState;
use crate::book::Continuity;
use crate::book::UpdateOutcome;
use crate::decimal::parse_spec;
use crate::decimal::FixedDecimal;
use crate::level::levels_wf;
use crate::level::load_level;
use crate::level::load_levels;
use crate::level::upsert_level;
use crate::level::upsert_levels;
use crate::level::PriceLevel;
use crate::level::Side;
use crate::sync::buffered;
use crate::sync::replay_from;
use crate::sync::Disposition;
use crate::sync::SyncAction;
use crate::sync::SyncModel;
use crate::sync::SyncState;
use crate::wire::DepthSnapshot;
use crate::wire::DepthUpdate;
use crate::wire::RawLevel;
use vstd::prelude::*;

verus! {

/// The levels of one side of a book.
pub open spec fn side_levels(state: BookState, side: Side) -> Map<int, PriceLevel> {
    match side {
        Side::Bid => state.bids,
        Side::Ask => state.asks,
    }
}

/// A delta with a zero quantity removes the level at its price, whatever scale the
/// price or the zero is written in, and touches nothing else. Where no level rests at
/// that price the book stays as it is.
pub proof fn lemma_zero_quantity_removes(
    state: BookState,
    side: Side,
    price: FixedDecimal,
    quantity: FixedDecimal,
)
    requires
        quantity.value() == 0,
    ensures
        !side_levels(state.upsert(side, price, quantity), side).contains_key(price.value()),
        side_levels(state.upsert(side, price, quantity), side) == side_levels(state, side).remove(
            price.value(),
        ),
        state.upsert(side, price, quantity).sequence_id == state.sequence_id,
        side == Side::Bid ==> state.upsert(side, price, quantity).asks == state.asks,
        side == Side::Ask ==> state.upsert(side, price, quantity).bids == state.bids,
        !side_levels(state, side).contains_key(price.value()) ==> state.upsert(
            side,
            price,
            quantity,
        ) == state,
{
    if !side_levels(state, side).contains_key(price.value()) {
        assert(side_levels(state, side).remove(price.value()) =~= side_levels(state, side));
    }
}

/// An applied update whose only delta is a bid with a zero quantity removes the bid at
/// that price, leaves the asks alone and moves the sequence id to the update's last id.
pub proof fn lemma_zero_quantity_update_removes(state: BookState, update: DepthUpdate)
    requires
        continuity(state.sequence_id, update.first_update_id, update.last_update_id)
            == Continuity::Applicable,
        update.bids@.len() == 1,
        update.asks@.len() == 0,
        bad_field(update.bids@[0]) is None,
        parsed_level(update.bids@[0]).quantity.value() == 0,
    ensures
        state.outcome(update) == Ok::<UpdateOutcome, crate::book::ParseError>(
            UpdateOutcome::Applied(update.last_update_id),
        ),
        state.apply(update).bids == state.bids.remove(
            parsed_level(update.bids@[0]).price.value(),
        ),
        state.apply(update).asks == state.asks,
        state.apply(update).sequence_id == update.last_update_id,
{
    reveal_with_fuel(first_bad_from, 3);
    reveal_with_fuel(upsert_levels, 3);
    let deltas = parsed_levels(update.bids@);
    assert(deltas.drop_last() =~= Seq::<PriceLevel>::empty());
    assert(parsed_levels(update.asks@) =~= Seq::<PriceLevel>::empty());
}

/// A stale update, one that ends at or before the book's sequence id, changes
/// neither the levels nor the sequence id.
pub proof fn lemma_stale_update_changes_nothing(state: BookState, update: DepthUpdate)
    requires
        update.last_update_id <= state.sequence_id,
    ensures
        state.apply(update) == state,
        state.outcome(update) is Ok,
        !(state.outcome(update)->Ok_0 is Applied),
{
}

/// Applying an update a second time changes nothing: once applied it is stale, and
/// an update that was not applied is not applied the second time either.
pub proof fn lemma_apply_is_idempotent(state: BookState, update: DepthUpdate)
    ensures
        state.apply(update).apply(update) == state.apply(update),
{
}

/// An update that starts beyond the next expected id is reported as a gap and leaves
/// the book as it was.
pub proof fn lemma_gap_is_reported(state: BookState, update: DepthUpdate)
    requires
        update.first_update_id > state.sequence_id + 1,
    ensures
        state.outcome(update) == Ok::<UpdateOutcome, crate::book::ParseError>(UpdateOutcome::Gap),
        state.apply(update) == state,
{
}

/// The levels of a record on one side.
pub open spec fn raw_side(update: DepthUpdate, side: Side) -> Seq<RawLevel> {
    match side {
        Side::Bid => update.bids@,
        Side::Ask => update.asks@,
    }
}

/// An update with a text that is not a decimal, anywhere on either side and however
/// many good deltas surround it, leaves the book exactly as it was. Where the update
/// continues from the book, it is rejected with a parse error.
pub proof fn lemma_bad_text_changes_nothing(
    state: BookState,
    update: DepthUpdate,
    side: Side,
    index: int,
)
    requires
        0 <= index < raw_side(update, side).len(),
        bad_field(raw_side(update, side)[index]) is Some,
    ensures
        state.apply(update) == state,
        first_error(update.bids@, update.asks@) is Some,
        continuity(state.sequence_id, update.first_update_id, update.last_update_id)
            == Continuity::Applicable ==> state.outcome(update) is Err,
{
    assert(update.bids@.len() == update.bids.len());
    assert(update.asks@.len() == update.asks.len());
    lemma_first_bad(update.bids@, 0);
    lemma_first_bad(update.asks@, 0);
}

/// Levels parsed from text are well formed.
pub proof fn lemma_parsed_level_wf(raw: RawLevel)
    requires
        bad_field(raw) is None,
    ensures
        parsed_level(raw).price.wf(),
        parsed_level(raw).quantity.wf(),
{
    let p = crate::decimal::decimal_from_str(raw.price@)->0;
    let q = crate::decimal::decimal_from_str(raw.quantity@)->0;
    FixedDecimal::lemma_from_parts(p.0, p.1);
    FixedDecimal::lemma_from_parts(q.0, q.1);
    assert(parse_spec(raw.price@) is Some);
    assert(parse_spec(raw.quantity@) is Some);
}

/// Deltas keep a side well formed: no level with a zero quantity ever rests on it,
/// and each level stays filed under its own price.
pub proof fn lemma_upsert_levels_wf(levels: Map<int, PriceLevel>, deltas: Seq<PriceLevel>)
    requires
        levels_wf(levels),
        forall|i: int|
            0 <= i < deltas.len() ==> (#[trigger] deltas[i]).price.wf() && deltas[i].quantity.wf(),
    ensures
        levels_wf(upsert_levels(levels, deltas)),
    decreases deltas.len(),
{
    if deltas.len() > 0 {
        lemma_upsert_levels_wf(levels, deltas.drop_last());
        let before = upsert_levels(levels, deltas.drop_last());
        let d = deltas.last();
        assert(levels_wf(upsert_level(before, d.price, d.quantity)));
    }
}

/// Every level of a side has a quantity above zero.
pub open spec fn quantities_positive(levels: Map<int, PriceLevel>) -> bool {
    forall|v: int| #[trigger] levels.contains_key(v) ==> levels[v].quantity.value() > 0
}

/// Where no delta carries a quantity below zero, no level ever has a quantity of zero
/// or below: a zero removes the level, and anything else set is above zero.
pub proof fn lemma_quantities_stay_positive(levels: Map<int, PriceLevel>, deltas: Seq<PriceLevel>)
    requires
        quantities_positive(levels),
        forall|i: int| 0 <= i < deltas.len() ==> (#[trigger] deltas[i]).quantity.value() >= 0,
    ensures
        quantities_positive(upsert_levels(levels, deltas)),
    decreases deltas.len(),
{
    if deltas.len() > 0 {
        lemma_quantities_stay_positive(levels, deltas.drop_last());
        let before = upsert_levels(levels, deltas.drop_last());
        let d = deltas.last();
        assert(quantities_positive(upsert_level(before, d.price, d.quantity)));
    }
}

/// An update keeps a book well formed, and never moves its sequence id back.
pub proof fn lemma_apply_keeps_wf(state: BookState, update: DepthUpdate)
    requires
        state.wf(),
    ensures
        state.apply(update).wf(),
        state.apply(update).sequence_id >= state.sequence_id,
{
    if state.outcome(update) is Ok && state.outcome(update)->Ok_0 is Applied {
        assert(update.bids@.len() == update.bids.len());
        assert(update.asks@.len() == update.asks.len());
        lemma_first_bad(update.bids@, 0);
        lemma_first_bad(update.asks@, 0);
        let bids = parsed_levels(update.bids@);
        let asks = parsed_levels(update.asks@);
        assert forall|i: int| 0 <= i < bids.len() implies (#[trigger] bids[i]).price.wf()
            && bids[i].quantity.wf() by {
            lemma_parsed_level_wf(update.bids@[i]);
        }
        assert forall|i: int| 0 <= i < asks.len() implies (#[trigger] asks[i]).price.wf()
            && asks[i].quantity.wf() by {
            lemma_parsed_level_wf(update.asks@[i]);
        }
        lemma_upsert_levels_wf(state.bids, bids);
        lemma_upsert_levels_wf(state.asks, asks);
    }
}

/// Snapshot entries keep a side well formed: an entry with a zero quantity never
/// becomes a level.
pub proof fn lemma_load_levels_wf(levels: Map<int, PriceLevel>, entries: Seq<PriceLevel>)
    requires
        levels_wf(levels),
        forall|i: int|
            0 <= i < entries.len() ==> (#[trigger] entries[i]).price.wf()
                && entries[i].quantity.wf(),
    ensures
        levels_wf(load_levels(levels, entries)),
    decreases entries.len(),
{
    if entries.len() > 0 {
        lemma_load_levels_wf(levels, entries.drop_last());
        let before = load_levels(levels, entries.drop_last());
        let e = entries.last();
        assert(levels_wf(load_level(before, e.price, e.quantity)));
    }
}

/// The book loaded from a snapshot whose texts are all decimals is well formed and
/// carries the snapshot's baseline as its sequence id.
pub proof fn lemma_loaded_wf(snapshot: DepthSnapshot)
    requires
        first_error(snapshot.bids@, snapshot.asks@) is None,
    ensures
        BookState::loaded(snapshot).wf(),
        BookState::loaded(snapshot).sequence_id == snapshot.last_update_id,
{
    assert(snapshot.bids@.len() == snapshot.bids.len());
    assert(snapshot.asks@.len() == snapshot.asks.len());
    lemma_first_bad(snapshot.bids@, 0);
    lemma_first_bad(snapshot.asks@, 0);
    let bids = parsed_levels(snapshot.bids@);
    let asks = parsed_levels(snapshot.asks@);
    assert forall|i: int| 0 <= i < bids.len() implies (#[trigger] bids[i]).price.wf()
        && bids[i].quantity.wf() by {
        lemma_parsed_level_wf(snapshot.bids@[i]);
    }
    assert forall|i: int| 0 <= i < asks.len() implies (#[trigger] asks[i]).price.wf()
        && asks[i].quantity.wf() by {
        lemma_parsed_level_wf(snapshot.asks@[i]);
    }
    lemma_load_levels_wf(Map::empty(), bids);
    lemma_load_levels_wf(Map::empty(), asks);
}

/// A replay keeps the book well formed, never moves its sequence id back, and stops
/// only at an update that it holds.
pub proof fn lemma_replay_keeps_wf(
    state: BookState,
    updates: Seq<DepthUpdate>,
    baseline: u64,
    from: int,
)
    requires
        state.wf(),
        0 <= from,
        updates.len() <= usize::MAX,
    ensures
        replay_from(state, updates, baseline, from).0.wf(),
        replay_from(state, updates, baseline, from).0.sequence_id >= state.sequence_id,
        replay_from(state, updates, baseline, from).1 matches Some(at) ==> from <= at
            < updates.len(),
    decreases updates.len() - from,
{
    if from < updates.len() {
        let update = updates[from];
        if update.last_update_id <= baseline {
            lemma_replay_keeps_wf(state, updates, baseline, from + 1);
        } else if state.outcome(update) != Ok::<UpdateOutcome, crate::book::ParseError>(
            UpdateOutcome::Gap,
        ) {
            lemma_apply_keeps_wf(state, update);
            lemma_replay_keeps_wf(state.apply(update), updates, baseline, from + 1);
        }
    }
}

/// A controller that has seen nothing is well formed.
pub proof fn lemma_initial_wf(capacity: usize)
    ensures
        SyncModel::initial(capacity).wf(),
{
}

/// Buffering never holds more than the capacity, and always ends with the update
/// just taken where the capacity is not zero.
pub proof fn lemma_buffered_bounded(buffer: Seq<DepthUpdate>, update: DepthUpdate, capacity: usize)
    ensures
        buffered(buffer, update, capacity).len() <= capacity,
        capacity > 0 ==> buffered(buffer, update, capacity).last() == update,
{
}

/// Settling a snapshot keeps the controller well formed.
pub proof fn lemma_settle_keeps_wf(model: SyncModel)
    requires
        model.wf(),
        model.state == SyncState::Bootstrapping,
    ensures
        model.settle().0.wf(),
        model.settle().0.capacity == model.capacity,
{
    if let Some(snapshot) = model.candidate {
        if first_error(snapshot.bids@, snapshot.asks@) is None {
            lemma_loaded_wf(snapshot);
            lemma_replay_keeps_wf(
                BookState::loaded(snapshot),
                model.buffer,
                snapshot.last_update_id,
                0,
            );
        }
    }
}

/// Every update keeps the controller well formed: a book is held exactly while live
/// or resyncing, the buffer stays within capacity, and the book stays well formed.
pub proof fn lemma_on_update_keeps_wf(model: SyncModel, update: DepthUpdate)
    requires
        model.wf(),
    ensures
        model.on_update(update).0.wf(),
        model.on_update(update).0.capacity == model.capacity,
{
    lemma_buffered_bounded(model.buffer, update, model.capacity);
    lemma_buffered_bounded(Seq::empty(), update, model.capacity);
    match model.state {
        SyncState::Bootstrapping => {
            lemma_settle_keeps_wf(
                SyncModel { buffer: buffered(model.buffer, update, model.capacity), ..model },
            );
        },
        SyncState::Live => {
            lemma_apply_keeps_wf(model.book->0, update);
        },
        _ => {},
    }
}

/// Every snapshot keeps the controller well formed.
pub proof fn lemma_on_snapshot_keeps_wf(model: SyncModel, snapshot: DepthSnapshot)
    requires
        model.wf(),
    ensures
        model.on_snapshot(snapshot).0.wf(),
        model.on_snapshot(snapshot).0.capacity == model.capacity,
{
    match model.state {
        SyncState::Bootstrapping => {
            lemma_settle_keeps_wf(SyncModel { candidate: Some(snapshot), ..model });
        },
        SyncState::Resyncing => {
            lemma_settle_keeps_wf(
                SyncModel {
                    state: SyncState::Bootstrapping,
                    book: None,
                    candidate: Some(snapshot),
                    ..model
                },
            );
        },
        _ => {},
    }
}

/// A live controller that meets a gap turns to resyncing, keeps the book exactly as
/// it was, keeps the update as the first of the new buffer, and asks for a snapshot.
pub proof fn lemma_gap_starts_resync(model: SyncModel, update: DepthUpdate)
    requires
        model.state == SyncState::Live,
        model.book is Some,
        update.first_update_id > model.book->0.sequence_id + 1,
    ensures
        model.on_update(update).0.state == SyncState::Resyncing,
        model.on_update(update).0.book == model.book,
        model.on_update(update).0.buffer == buffered(Seq::empty(), update, model.capacity),
        model.on_update(update).1.action == SyncAction::FetchSnapshot,
        model.on_update(update).1.outcome == Disposition::Gap,
{
}

/// While the controller stays live, the book's sequence id never moves back.
pub proof fn lemma_live_sequence_never_moves_back(model: SyncModel, update: DepthUpdate)
    requires
        model.state == SyncState::Live,
        model.book is Some,
        model.on_update(update).0.state == SyncState::Live,
    ensures
        model.on_update(update).0.book is Some,
        model.on_update(update).0.book->0.sequence_id >= model.book->0.sequence_id,
{
}

/// A book goes live only from a snapshot whose baseline a buffered update covers,
/// and then holds at least the snapshot's baseline.
pub proof fn lemma_adopted_snapshot_is_covered(model: SyncModel)
    requires
        model.state == SyncState::Bootstrapping,
        model.book is None,
        model.buffer.len() <= usize::MAX,
        model.settle().0.state == SyncState::Live,
    ensures
        model.candidate is Some,
        exists|i: int|
            0 <= i < model.buffer.len() && crate::sync::covers(
                #[trigger] model.buffer[i],
                model.candidate->0.last_update_id,
            ),
        model.settle().0.book is Some,
        model.settle().0.book->0.sequence_id >= model.candidate->0.last_update_id,
{
    let snapshot = model.candidate->0;
    lemma_loaded_wf(snapshot);
    lemma_replay_keeps_wf(BookState::loaded(snapshot), model.buffer, snapshot.last_update_id, 0);
}

} // verus!
