//! The synchronization controller: when to fetch a snapshot, when to adopt it, when the
//! book is live, and when it has to be rebuilt.
//!
//! The controller does no input or output. It is told of each event (an update
//! arrived, a snapshot arrived, a fetch failed) and answers with what the caller has
//! to do next. Updates are taken strictly in the order they are handed in.
//!
//! While no book is live, updates are buffered, oldest first, up to a capacity; beyond
//! it the oldest are dropped. A snapshot is adopted only if a buffered update covers
//! its baseline; the buffered updates are then replayed onto it.

use crate::book::first_error;
use crate::book::BookState;
use crate::book::OrderBook;
use crate::book::ParseError;
use crate::book::UpdateOutcome;
use crate::wire::DepthSnapshot;
use crate::wire::DepthUpdate;
use vstd::prelude::*;

verus! {

/// Where the controller stands.
#[derive(Clone, Copy, Debug, PartialEq, Eq, Structural)]
pub enum SyncState {
    /// Nothing has arrived yet.
    Uninitialized,
    /// No book yet; updates are buffered until a snapshot can be adopted.
    Bootstrapping,
    /// The book is in step with the venue.
    Live,
    /// A gap was met. The book is still held as it was, and is dropped at the next
    /// event, from where on this is bootstrapping again.
    Resyncing,
}

/// What the caller has to do next.
#[derive(Clone, Copy, Debug, PartialEq, Eq, Structural)]
pub enum SyncAction {
    /// Nothing but to hand in the next event.
    Wait,
    /// Fetch a snapshot, and hand in the snapshot or the failure.
    FetchSnapshot,
}

/// What became of an update that was handed in.
#[derive(Clone, Copy, Debug, PartialEq, Eq, Structural)]
pub enum Disposition {
    /// No book is live: the update was kept for replay.
    Buffered,
    /// The live book took the update; its sequence id is now the one carried here.
    Applied(u64),
    /// The live book already held the update.
    Stale,
    /// The update does not continue from the live book, which has to be rebuilt.
    Gap,
    /// A text of the update is not a decimal; the live book is as it was.
    Rejected(ParseError),
}

/// The answer to an update.
#[derive(Clone, Copy, Debug, PartialEq, Eq, Structural)]
pub struct Handled {
    pub action: SyncAction,
    pub outcome: Disposition,
}

/// How a snapshot lies relative to the buffered updates.
#[derive(Clone, Copy, Debug, PartialEq, Eq, Structural)]
pub enum SnapshotFit {
    /// A buffered update covers the snapshot's baseline: the snapshot can be adopted.
    Covered,
    /// No buffered update covers the baseline and one starts beyond it: the updates
    /// have moved past the snapshot.
    Behind,
    /// Every buffered update ends before the baseline: the snapshot is newer than all
    /// of them.
    Ahead,
}

/// Whether an update's id range holds a snapshot's baseline.
pub open spec fn covers(update: DepthUpdate, baseline: u64) -> bool {
    update.first_update_id <= baseline <= update.last_update_id
}

/// How a snapshot with the given baseline lies relative to the buffered updates.
pub open spec fn snapshot_fit(buffer: Seq<DepthUpdate>, baseline: u64) -> SnapshotFit {
    if exists|i: int| 0 <= i < buffer.len() && covers(#[trigger] buffer[i], baseline) {
        SnapshotFit::Covered
    } else if exists|i: int|
        0 <= i < buffer.len() && (#[trigger] buffer[i]).first_update_id > baseline {
        SnapshotFit::Behind
    } else {
        SnapshotFit::Ahead
    }
}

/// The buffer after one more update: the update goes last, and the oldest are dropped
/// so that no more than `capacity` are held.
pub open spec fn buffered(buffer: Seq<DepthUpdate>, update: DepthUpdate, capacity: usize) -> Seq<
    DepthUpdate,
> {
    if capacity == 0 {
        Seq::empty()
    } else if buffer.len() < capacity {
        buffer.push(update)
    } else {
        buffer.skip(buffer.len() - capacity + 1).push(update)
    }
}

/// Replaying buffered updates from index `from` on: the book after it, and the index
/// of the update at which a gap stopped it, if one did. Updates that end at or before
/// the baseline predate the snapshot and are passed over; one with a text that is not
/// a decimal is rejected and passed over.
pub open spec fn replay_from(
    state: BookState,
    updates: Seq<DepthUpdate>,
    baseline: u64,
    from: int,
) -> (BookState, Option<usize>)
    decreases updates.len() - from,
{
    if from < 0 || from >= updates.len() {
        (state, None)
    } else if updates[from].last_update_id <= baseline {
        replay_from(state, updates, baseline, from + 1)
    } else if state.outcome(updates[from]) == Ok::<UpdateOutcome, ParseError>(UpdateOutcome::Gap) {
        (state, Some(from as usize))
    } else {
        replay_from(state.apply(updates[from]), updates, baseline, from + 1)
    }
}

/// The controller as a mathematical value.
pub struct SyncModel {
    pub state: SyncState,
    /// The book, while live and while resyncing.
    pub book: Option<BookState>,
    /// The buffered updates, oldest first.
    pub buffer: Seq<DepthUpdate>,
    /// A snapshot that arrived before any update that covers it.
    pub candidate: Option<DepthSnapshot>,
    pub capacity: usize,
}

impl SyncModel {
    /// The controller before any event.
    pub open spec fn initial(capacity: usize) -> SyncModel {
        SyncModel {
            state: SyncState::Uninitialized,
            book: None,
            buffer: Seq::empty(),
            candidate: None,
            capacity,
        }
    }

    /// What the state says of the rest: a book is held exactly while live or
    /// resyncing, a candidate and buffered updates only while there is no live book,
    /// the buffer is within capacity, and the book is well formed.
    pub open spec fn wf(self) -> bool {
        &&& self.buffer.len() <= self.capacity
        &&& self.book matches Some(book) ==> book.wf()
        &&& match self.state {
            SyncState::Uninitialized => self.book is None && self.candidate is None
                && self.buffer.len() == 0,
            SyncState::Bootstrapping => self.book is None,
            SyncState::Live => self.book is Some && self.candidate is None && self.buffer.len()
                == 0,
            SyncState::Resyncing => self.book is Some && self.candidate is None,
        }
    }

    /// While bootstrapping with a snapshot in hand: adopt it, wait, or fetch another.
    ///
    /// - No buffered update covers the baseline and all end before it: the snapshot is
    ///   kept, the buffered updates are dropped as older than it, and the controller
    ///   waits for more updates.
    /// - No buffered update covers it and one starts beyond it: the snapshot is
    ///   dropped and another is fetched.
    /// - One covers it: the snapshot is loaded (a snapshot with a text that is not a
    ///   decimal is dropped and another fetched) and the buffered updates are replayed
    ///   in arrival order. Without a gap the book is live; at a gap the controller is
    ///   resyncing, holding the updates from the gap on, and another snapshot is fetched.
    pub open spec fn settle(self) -> (SyncModel, SyncAction) {
        match self.candidate {
            None => (self, SyncAction::Wait),
            Some(snapshot) => match snapshot_fit(self.buffer, snapshot.last_update_id) {
                SnapshotFit::Ahead => (
                    SyncModel { buffer: Seq::empty(), ..self },
                    SyncAction::Wait,
                ),
                SnapshotFit::Behind => (
                    SyncModel { candidate: None, ..self },
                    SyncAction::FetchSnapshot,
                ),
                SnapshotFit::Covered => if first_error(snapshot.bids@, snapshot.asks@) is Some {
                    (SyncModel { candidate: None, ..self }, SyncAction::FetchSnapshot)
                } else {
                    let replayed = replay_from(
                        BookState::loaded(snapshot),
                        self.buffer,
                        snapshot.last_update_id,
                        0,
                    );
                    match replayed.1 {
                        None => (
                            SyncModel {
                                state: SyncState::Live,
                                book: Some(replayed.0),
                                buffer: Seq::empty(),
                                candidate: None,
                                ..self
                            },
                            SyncAction::Wait,
                        ),
                        Some(gap_at) => (
                            SyncModel {
                                state: SyncState::Resyncing,
                                book: Some(replayed.0),
                                buffer: self.buffer.skip(gap_at as int),
                                candidate: None,
                                ..self
                            },
                            SyncAction::FetchSnapshot,
                        ),
                    }
                },
            },
        }
    }

    /// An update arrived.
    ///
    /// - Uninitialized: it is buffered, bootstrapping begins, a snapshot is fetched.
    /// - Bootstrapping: it is buffered; a snapshot in hand is settled against the buffer.
    /// - Resyncing: the stale book is dropped, the update is buffered, and the
    ///   controller is bootstrapping.
    /// - Live: it is applied to the book. A gap leaves the book as it was, makes the
    ///   controller resyncing with this update as the first buffered, and asks for a
    ///   snapshot; anything else leaves the controller live.
    pub open spec fn on_update(self, update: DepthUpdate) -> (SyncModel, Handled) {
        match self.state {
            SyncState::Uninitialized => (
                SyncModel {
                    state: SyncState::Bootstrapping,
                    book: None,
                    buffer: buffered(Seq::empty(), update, self.capacity),
                    candidate: None,
                    ..self
                },
                Handled { action: SyncAction::FetchSnapshot, outcome: Disposition::Buffered },
            ),
            SyncState::Bootstrapping => {
                let settled = SyncModel {
                    buffer: buffered(self.buffer, update, self.capacity),
                    ..self
                }.settle();
                (settled.0, Handled { action: settled.1, outcome: Disposition::Buffered })
            },
            SyncState::Resyncing => (
                SyncModel {
                    state: SyncState::Bootstrapping,
                    book: None,
                    buffer: buffered(self.buffer, update, self.capacity),
                    candidate: None,
                    ..self
                },
                Handled { action: SyncAction::Wait, outcome: Disposition::Buffered },
            ),
            SyncState::Live => {
                let book = self.book->0;
                match book.outcome(update) {
                    Ok(UpdateOutcome::Gap) => (
                        SyncModel {
                            state: SyncState::Resyncing,
                            buffer: buffered(Seq::empty(), update, self.capacity),
                            ..self
                        },
                        Handled { action: SyncAction::FetchSnapshot, outcome: Disposition::Gap },
                    ),
                    Ok(UpdateOutcome::Stale) => (
                        self,
                        Handled { action: SyncAction::Wait, outcome: Disposition::Stale },
                    ),
                    Ok(UpdateOutcome::Applied(id)) => (
                        SyncModel { book: Some(book.apply(update)), ..self },
                        Handled { action: SyncAction::Wait, outcome: Disposition::Applied(id) },
                    ),
                    Err(e) => (
                        self,
                        Handled { action: SyncAction::Wait, outcome: Disposition::Rejected(e) },
                    ),
                }
            },
        }
    }

    /// A snapshot arrived. While bootstrapping or resyncing (where the stale book is
    /// dropped first) it becomes the snapshot in hand and is settled against the
    /// buffer; otherwise it is not wanted and is dropped.
    pub open spec fn on_snapshot(self, snapshot: DepthSnapshot) -> (SyncModel, SyncAction) {
        match self.state {
            SyncState::Uninitialized => (self, SyncAction::Wait),
            SyncState::Live => (self, SyncAction::Wait),
            SyncState::Bootstrapping => SyncModel { candidate: Some(snapshot), ..self }.settle(),
            SyncState::Resyncing => SyncModel {
                state: SyncState::Bootstrapping,
                book: None,
                candidate: Some(snapshot),
                ..self
            }.settle(),
        }
    }

    /// A snapshot fetch failed. While there is no live book the controller stays as
    /// it is and asks for the fetch again; otherwise nothing was being fetched.
    pub open spec fn on_fetch_failed(self) -> SyncAction {
        match self.state {
            SyncState::Bootstrapping => SyncAction::FetchSnapshot,
            SyncState::Resyncing => SyncAction::FetchSnapshot,
            _ => SyncAction::Wait,
        }
    }
}

/// How a snapshot with the given baseline lies relative to the buffered updates.
pub fn fit_snapshot(buffer: &Vec<DepthUpdate>, baseline: u64) -> (fit: SnapshotFit)
    ensures
        fit == snapshot_fit(buffer@, baseline),
{
    let mut behind: bool = false;
    let mut i: usize = 0;
    while i < buffer.len()
        invariant
            i <= buffer.len(),
            forall|j: int| 0 <= j < i ==> !covers(#[trigger] buffer@[j], baseline),
            behind <==> exists|j: int|
                0 <= j < i && (#[trigger] buffer@[j]).first_update_id > baseline,
        decreases buffer.len() - i,
    {
        if buffer[i].first_update_id <= baseline && baseline <= buffer[i].last_update_id {
            return SnapshotFit::Covered;
        }
        if buffer[i].first_update_id > baseline {
            behind = true;
        }
        i = i + 1;
    }
    if behind {
        SnapshotFit::Behind
    } else {
        SnapshotFit::Ahead
    }
}

/// Puts an update last in the buffer, dropping the oldest beyond the capacity.
pub fn push_bounded(buffer: &mut Vec<DepthUpdate>, update: DepthUpdate, capacity: usize)
    ensures
        final(buffer)@ == buffered(old(buffer)@, update, capacity),
        final(buffer)@.len() <= capacity,
{
    if capacity == 0 {
        buffer.truncate(0);
    } else {
        if buffer.len() >= capacity {
            let mut kept: Vec<DepthUpdate> = buffer.split_off(buffer.len() - capacity + 1);
            std::mem::swap(buffer, &mut kept);
        }
        buffer.push(update);
    }
}

/// Replays buffered updates onto a book just loaded from a snapshot, in arrival
/// order, and stops at the first gap.
pub fn replay(book: &mut OrderBook, updates: &Vec<DepthUpdate>, baseline: u64) -> (gap_at: Option<
    usize,
>)
    ensures
        (final(book)@, gap_at) == replay_from(old(book)@, updates@, baseline, 0),
        gap_at matches Some(at) ==> at < updates@.len(),
{
    let mut i: usize = 0;
    while i < updates.len()
        invariant
            i <= updates.len(),
            replay_from(old(book)@, updates@, baseline, 0) == replay_from(
                book@,
                updates@,
                baseline,
                i as int,
            ),
        decreases updates.len() - i,
    {
        if updates[i].last_update_id > baseline {
            match book.apply_depth_update(&updates[i]) {
                Ok(UpdateOutcome::Gap) => {
                    return Some(i);
                },
                _ => {},
            }
        }
        i = i + 1;
    }
    None
}

enum Phase {
    Uninitialized,
    Bootstrapping { buffer: Vec<DepthUpdate>, candidate: Option<DepthSnapshot> },
    Live { book: OrderBook },
    Resyncing { book: OrderBook, buffer: Vec<DepthUpdate> },
}

impl Phase {
    spec fn model(self, capacity: usize) -> SyncModel {
        match self {
            Phase::Uninitialized => SyncModel::initial(capacity),
            Phase::Bootstrapping { buffer, candidate } => SyncModel {
                state: SyncState::Bootstrapping,
                book: None,
                buffer: buffer@,
                candidate,
                capacity,
            },
            Phase::Live { book } => SyncModel {
                state: SyncState::Live,
                book: Some(book@),
                buffer: Seq::empty(),
                candidate: None,
                capacity,
            },
            Phase::Resyncing { book, buffer } => SyncModel {
                state: SyncState::Resyncing,
                book: Some(book@),
                buffer: buffer@,
                candidate: None,
                capacity,
            },
        }
    }
}

/// Settles a snapshot in hand against the buffer, while bootstrapping.
fn settle(buffer: Vec<DepthUpdate>, candidate: Option<DepthSnapshot>, capacity: usize) -> (r: (
    Phase,
    SyncAction,
))
    ensures
        (r.0.model(capacity), r.1) == (SyncModel {
            state: SyncState::Bootstrapping,
            book: None,
            buffer: buffer@,
            candidate,
            capacity,
        }).settle(),
{
    let snapshot: DepthSnapshot = match candidate {
        None => {
            return (Phase::Bootstrapping { buffer, candidate: None }, SyncAction::Wait);
        },
        Some(snapshot) => snapshot,
    };
    let baseline: u64 = snapshot.last_update_id;
    match fit_snapshot(&buffer, baseline) {
        SnapshotFit::Ahead => (
            Phase::Bootstrapping { buffer: Vec::new(), candidate: Some(snapshot) },
            SyncAction::Wait,
        ),
        SnapshotFit::Behind => (
            Phase::Bootstrapping { buffer, candidate: None },
            SyncAction::FetchSnapshot,
        ),
        SnapshotFit::Covered => match OrderBook::from_snapshot(snapshot) {
            Err(_) => (Phase::Bootstrapping { buffer, candidate: None }, SyncAction::FetchSnapshot),
            Ok(loaded) => {
                let mut book: OrderBook = loaded;
                let mut buffer: Vec<DepthUpdate> = buffer;
                match replay(&mut book, &buffer, baseline) {
                    None => (Phase::Live { book }, SyncAction::Wait),
                    Some(gap_at) => {
                        let rest: Vec<DepthUpdate> = buffer.split_off(gap_at);
                        (Phase::Resyncing { book, buffer: rest }, SyncAction::FetchSnapshot)
                    },
                }
            },
        },
    }
}

/// Owns the one live book and decides, event by event, how it is kept in step.
pub struct SyncController {
    capacity: usize,
    phase: Phase,
}

impl View for SyncController {
    type V = SyncModel;

    closed spec fn view(&self) -> SyncModel {
        self.phase.model(self.capacity)
    }
}

impl SyncController {
    /// A controller that has seen nothing yet and buffers at most `capacity` updates.
    pub fn new(capacity: usize) -> (controller: SyncController)
        ensures
            controller@ == SyncModel::initial(capacity),
    {
        SyncController { capacity, phase: Phase::Uninitialized }
    }

    /// Where the controller stands.
    pub fn state(&self) -> (state: SyncState)
        ensures
            state == self@.state,
    {
        match &self.phase {
            Phase::Uninitialized => SyncState::Uninitialized,
            Phase::Bootstrapping { .. } => SyncState::Bootstrapping,
            Phase::Live { .. } => SyncState::Live,
            Phase::Resyncing { .. } => SyncState::Resyncing,
        }
    }

    /// The book, for reading: present while live and while resyncing.
    pub fn book(&self) -> (book: Option<&OrderBook>)
        ensures
            match book {
                Some(book) => self@.book == Some(book@),
                None => self@.book is None,
            },
    {
        match &self.phase {
            Phase::Live { book } => Some(book),
            Phase::Resyncing { book, .. } => Some(book),
            _ => None,
        }
    }

    /// How many updates are buffered.
    pub fn buffered_len(&self) -> (len: usize)
        ensures
            len == self@.buffer.len(),
    {
        match &self.phase {
            Phase::Bootstrapping { buffer, .. } => buffer.len(),
            Phase::Resyncing { buffer, .. } => buffer.len(),
            _ => 0,
        }
    }

    /// Back to the start: the book, the buffer and any snapshot in hand are dropped.
    pub fn reset(&mut self)
        ensures
            final(self)@ == SyncModel::initial(old(self)@.capacity),
    {
        self.phase = Phase::Uninitialized;
    }

    /// Takes the next update of the stream and says what to do next.
    pub fn on_update(&mut self, update: DepthUpdate) -> (handled: Handled)
        ensures
            (final(self)@, handled) == old(self)@.on_update(update),
    {
        let capacity: usize = self.capacity;
        let mut phase: Phase = Phase::Uninitialized;
        std::mem::swap(&mut phase, &mut self.phase);
        match phase {
            Phase::Uninitialized => {
                let mut buffer: Vec<DepthUpdate> = Vec::new();
                push_bounded(&mut buffer, update, capacity);
                self.phase = Phase::Bootstrapping { buffer, candidate: None };
                Handled { action: SyncAction::FetchSnapshot, outcome: Disposition::Buffered }
            },
            Phase::Bootstrapping { buffer, candidate } => {
                let mut buffer: Vec<DepthUpdate> = buffer;
                push_bounded(&mut buffer, update, capacity);
                let settled: (Phase, SyncAction) = settle(buffer, candidate, capacity);
                self.phase = settled.0;
                Handled { action: settled.1, outcome: Disposition::Buffered }
            },
            Phase::Resyncing { book, buffer } => {
                let mut buffer: Vec<DepthUpdate> = buffer;
                push_bounded(&mut buffer, update, capacity);
                self.phase = Phase::Bootstrapping { buffer, candidate: None };
                Handled { action: SyncAction::Wait, outcome: Disposition::Buffered }
            },
            Phase::Live { book } => {
                let mut book: OrderBook = book;
                match book.apply_depth_update(&update) {
                    Ok(UpdateOutcome::Gap) => {
                        let mut buffer: Vec<DepthUpdate> = Vec::new();
                        push_bounded(&mut buffer, update, capacity);
                        self.phase = Phase::Resyncing { book, buffer };
                        Handled { action: SyncAction::FetchSnapshot, outcome: Disposition::Gap }
                    },
                    Ok(UpdateOutcome::Stale) => {
                        self.phase = Phase::Live { book };
                        Handled { action: SyncAction::Wait, outcome: Disposition::Stale }
                    },
                    Ok(UpdateOutcome::Applied(id)) => {
                        self.phase = Phase::Live { book };
                        Handled { action: SyncAction::Wait, outcome: Disposition::Applied(id) }
                    },
                    Err(e) => {
                        self.phase = Phase::Live { book };
                        Handled { action: SyncAction::Wait, outcome: Disposition::Rejected(e) }
                    },
                }
            },
        }
    }

    /// Takes a fetched snapshot and says what to do next.
    pub fn on_snapshot(&mut self, snapshot: DepthSnapshot) -> (action: SyncAction)
        ensures
            (final(self)@, action) == old(self)@.on_snapshot(snapshot),
    {
        let capacity: usize = self.capacity;
        let mut phase: Phase = Phase::Uninitialized;
        std::mem::swap(&mut phase, &mut self.phase);
        match phase {
            Phase::Uninitialized => SyncAction::Wait,
            Phase::Live { book } => {
                self.phase = Phase::Live { book };
                SyncAction::Wait
            },
            Phase::Bootstrapping { buffer, candidate } => {
                let settled: (Phase, SyncAction) = settle(buffer, Some(snapshot), capacity);
                self.phase = settled.0;
                settled.1
            },
            Phase::Resyncing { book, buffer } => {
                let settled: (Phase, SyncAction) = settle(buffer, Some(snapshot), capacity);
                self.phase = settled.0;
                settled.1
            },
        }
    }

    /// Takes the failure of a snapshot fetch and says what to do next.
    pub fn on_fetch_failed(&mut self) -> (action: SyncAction)
        ensures
            final(self)@ == old(self)@,
            action == old(self)@.on_fetch_failed(),
    {
        match &self.phase {
            Phase::Bootstrapping { .. } => SyncAction::FetchSnapshot,
            Phase::Resyncing { .. } => SyncAction::FetchSnapshot,
            _ => SyncAction::Wait,
        }
    }
}

} // verus!
