use crate::exchange_api_types::{rest_levels, ws_levels, MarketEvent, RestSnapshot};
use crate::orderbook::{apply_levels, load_levels, LocalOrderBook};
use vstd::prelude::*;

verus! {

/// How long the stream is left to fill the queue before the snapshot is asked for.
pub const BUFFER_DELAY_MILLIS: u64 = 3000;

/// What to do with an event of the stream that arrives after a snapshot,
/// before the book has caught up with the stream.
#[derive(Clone, Copy, Debug, PartialEq, Eq, Structural)]
pub enum Reconcile {
    /// The event predates the snapshot by `lag`; it is dropped.
    Stale { lag: u64 },
    /// The event continues the snapshot exactly; it is applied.
    Continues,
    /// At least one update between the snapshot and the event was missed.
    Gap,
}

/// The one comparison that reconciliation rests on.
pub open spec fn reconcile_spec(prev_sequence: u64, snapshot_sequence: u64) -> Reconcile {
    if prev_sequence < snapshot_sequence {
        Reconcile::Stale { lag: (snapshot_sequence - prev_sequence) as u64 }
    } else if prev_sequence == snapshot_sequence {
        Reconcile::Continues
    } else {
        Reconcile::Gap
    }
}

/// Compares the predecessor that an event names with the snapshot's sequence number.
pub fn reconcile(prev_sequence: u64, snapshot_sequence: u64) -> (r: Reconcile)
    ensures
        r == reconcile_spec(prev_sequence, snapshot_sequence),
{
    if prev_sequence < snapshot_sequence {
        Reconcile::Stale { lag: snapshot_sequence - prev_sequence }
    } else if prev_sequence == snapshot_sequence {
        Reconcile::Continues
    } else {
        Reconcile::Gap
    }
}

/// Where the synchronizer stands.
#[derive(Clone, Copy, Debug, PartialEq, Eq, Structural)]
pub enum SyncPhase {
    /// Waiting while the stream fills the queue.
    Buffering,
    /// Waiting for the snapshot.
    Fetching,
    /// The snapshot is loaded; looking for the event that continues it.
    Reconciling,
    /// The book follows the stream.
    Synced,
    /// Given up. Nothing is processed any more.
    Aborted,
}

/// Why the synchronizer gave up.
#[derive(Clone, Copy, Debug, PartialEq, Eq, Structural)]
pub enum AbortReason {
    /// The snapshot could not be fetched or decoded.
    SnapshotUnavailable,
    /// An update between the snapshot and the stream was missed.
    SequenceGap,
}

/// What the outside reports to the synchronizer.
#[derive(Debug)]
pub enum SyncInput {
    /// The buffering delay is over.
    BufferElapsed,
    /// The snapshot has arrived.
    Snapshot(RestSnapshot),
    /// The snapshot could not be fetched or decoded.
    SnapshotFailed,
    /// The next event of the queue.
    Event(MarketEvent),
}

/// What a step did, and with it what the outside does next.
#[derive(Clone, Copy, Debug, PartialEq, Eq, Structural)]
pub enum SyncOutcome {
    /// Buffering is over: fetch the snapshot and report it.
    FetchSnapshot,
    /// The snapshot is the book now: take events from the queue.
    SnapshotLoaded,
    /// The event predates the snapshot by `lag` and was dropped.
    Dropped { lag: u64 },
    /// The event continues the snapshot: it was applied and the book is in
    /// step with the stream. Show the book.
    CaughtUp,
    /// The event was applied. Show the book.
    Applied,
    /// The synchronizer gave up: stop.
    Aborted(AbortReason),
    /// The synchronizer does not wait for this input now. Nothing changed.
    Ignored,
}

/// The phase after `input`, for a synchronizer in `phase` whose snapshot
/// carries `snapshot_sequence`.
pub open spec fn next_phase(phase: SyncPhase, snapshot_sequence: u64, input: SyncInput) -> SyncPhase {
    match (phase, input) {
        (SyncPhase::Buffering, SyncInput::BufferElapsed) => SyncPhase::Fetching,
        (SyncPhase::Fetching, SyncInput::Snapshot(_)) => SyncPhase::Reconciling,
        (SyncPhase::Fetching, SyncInput::SnapshotFailed) => SyncPhase::Aborted,
        (SyncPhase::Reconciling, SyncInput::Event(event)) => match reconcile_spec(
            event.prev_ts,
            snapshot_sequence,
        ) {
            Reconcile::Stale { .. } => SyncPhase::Reconciling,
            Reconcile::Continues => SyncPhase::Synced,
            Reconcile::Gap => SyncPhase::Aborted,
        },
        _ => phase,
    }
}

/// What the step on `input` reports.
pub open spec fn outcome_of(phase: SyncPhase, snapshot_sequence: u64, input: SyncInput) -> SyncOutcome {
    match (phase, input) {
        (SyncPhase::Buffering, SyncInput::BufferElapsed) => SyncOutcome::FetchSnapshot,
        (SyncPhase::Fetching, SyncInput::Snapshot(_)) => SyncOutcome::SnapshotLoaded,
        (SyncPhase::Fetching, SyncInput::SnapshotFailed) => SyncOutcome::Aborted(
            AbortReason::SnapshotUnavailable,
        ),
        (SyncPhase::Reconciling, SyncInput::Event(event)) => match reconcile_spec(
            event.prev_ts,
            snapshot_sequence,
        ) {
            Reconcile::Stale { lag } => SyncOutcome::Dropped { lag },
            Reconcile::Continues => SyncOutcome::CaughtUp,
            Reconcile::Gap => SyncOutcome::Aborted(AbortReason::SequenceGap),
        },
        (SyncPhase::Synced, SyncInput::Event(_)) => SyncOutcome::Applied,
        _ => SyncOutcome::Ignored,
    }
}

/// Whether the step on `input` applies the input's event to the book.
pub open spec fn applies_event(phase: SyncPhase, snapshot_sequence: u64, input: SyncInput) -> bool {
    match (phase, input) {
        (SyncPhase::Reconciling, SyncInput::Event(event)) => event.prev_ts == snapshot_sequence,
        (SyncPhase::Synced, SyncInput::Event(_)) => true,
        _ => false,
    }
}

/// Whether the step on `input` loads the input's snapshot into the book.
pub open spec fn loads_snapshot(phase: SyncPhase, input: SyncInput) -> bool {
    phase == SyncPhase::Fetching && input is Snapshot
}

/// Owns the book and brings it in step with the stream: buffer, fetch,
/// reconcile, then follow.
pub struct Synchronizer {
    phase: SyncPhase,
    snapshot_sequence: u64,
    book: LocalOrderBook,
}

impl Synchronizer {
    pub closed spec fn phase(&self) -> SyncPhase {
        self.phase
    }

    /// The sequence number of the loaded snapshot; zero before one is loaded.
    pub closed spec fn snapshot_sequence(&self) -> u64 {
        self.snapshot_sequence
    }

    /// The bid ladder of the book.
    pub closed spec fn bids(&self) -> Map<u64, u64> {
        self.book.bids()
    }

    /// The ask ladder of the book.
    pub closed spec fn asks(&self) -> Map<u64, u64> {
        self.book.asks()
    }

    /// The book holds no price without quantity.
    pub closed spec fn wf(&self) -> bool {
        self.book.wf()
    }

    /// A synchronizer at the start of buffering, with an empty book.
    pub fn new() -> (sync: Self)
        ensures
            sync.phase() == SyncPhase::Buffering,
            sync.snapshot_sequence() == 0,
            sync.bids() == Map::<u64, u64>::empty(),
            sync.asks() == Map::<u64, u64>::empty(),
            sync.wf(),
    {
        Synchronizer { phase: SyncPhase::Buffering, snapshot_sequence: 0, book: LocalOrderBook::new() }
    }

    pub fn current_phase(&self) -> (phase: SyncPhase)
        ensures
            phase == self.phase(),
    {
        self.phase
    }

    /// The book as it stands.
    pub fn book(&self) -> (book: &LocalOrderBook)
        ensures
            book.bids() == self.bids(),
            book.asks() == self.asks(),
            self.wf() ==> book.wf(),
    {
        &self.book
    }

    /// Takes one report from the outside and says what was done with it.
    ///
    /// A snapshot is loaded only while fetching. An event is compared with
    /// the snapshot only while reconciling; once in step, every event is
    /// applied whatever sequence numbers it carries. After an abort nothing
    /// is processed.
    pub fn step(&mut self, input: SyncInput) -> (outcome: SyncOutcome)
        requires
            old(self).wf(),
        ensures
            final(self).wf(),
            final(self).phase() == next_phase(old(self).phase(), old(self).snapshot_sequence(), input),
            outcome == outcome_of(old(self).phase(), old(self).snapshot_sequence(), input),
            final(self).snapshot_sequence() == (if loads_snapshot(old(self).phase(), input) {
                input->Snapshot_0.timestamp
            } else {
                old(self).snapshot_sequence()
            }),
            final(self).bids() == (if loads_snapshot(old(self).phase(), input) {
                load_levels(rest_levels(input->Snapshot_0.data.bids@))
            } else if applies_event(old(self).phase(), old(self).snapshot_sequence(), input) {
                apply_levels(old(self).bids(), ws_levels(input->Event_0.delta.bids@))
            } else {
                old(self).bids()
            }),
            final(self).asks() == (if loads_snapshot(old(self).phase(), input) {
                load_levels(rest_levels(input->Snapshot_0.data.asks@))
            } else if applies_event(old(self).phase(), old(self).snapshot_sequence(), input) {
                apply_levels(old(self).asks(), ws_levels(input->Event_0.delta.asks@))
            } else {
                old(self).asks()
            }),
    {
        match (self.phase, input) {
            (SyncPhase::Buffering, SyncInput::BufferElapsed) => {
                self.phase = SyncPhase::Fetching;
                SyncOutcome::FetchSnapshot
            },
            (SyncPhase::Fetching, SyncInput::Snapshot(snapshot)) => {
                self.snapshot_sequence = snapshot.timestamp;
                self.book.apply_snapshot(snapshot.data);
                self.phase = SyncPhase::Reconciling;
                SyncOutcome::SnapshotLoaded
            },
            (SyncPhase::Fetching, SyncInput::SnapshotFailed) => {
                self.phase = SyncPhase::Aborted;
                SyncOutcome::Aborted(AbortReason::SnapshotUnavailable)
            },
            (SyncPhase::Reconciling, SyncInput::Event(event)) => {
                match reconcile(event.prev_ts, self.snapshot_sequence) {
                    Reconcile::Stale { lag } => SyncOutcome::Dropped { lag },
                    Reconcile::Continues => {
                        self.book.apply_delta(event.delta);
                        self.phase = SyncPhase::Synced;
                        SyncOutcome::CaughtUp
                    },
                    Reconcile::Gap => {
                        self.phase = SyncPhase::Aborted;
                        SyncOutcome::Aborted(AbortReason::SequenceGap)
                    },
                }
            },
            (SyncPhase::Synced, SyncInput::Event(event)) => {
                self.book.apply_delta(event.delta);
                SyncOutcome::Applied
            },
            _ => SyncOutcome::Ignored,
        }
    }
}

/// Reconciliation decides by one comparison and nothing else: an event
/// that names an earlier predecessor than the snapshot is dropped and
/// leaves the synchronizer reconciling, one that names the snapshot itself
/// is applied and brings it in step, one that names a later predecessor
/// makes it give up.
pub proof fn lemma_reconciliation_decision(snapshot_sequence: u64, event: MarketEvent)
    ensures
        event.prev_ts < snapshot_sequence <==> outcome_of(
            SyncPhase::Reconciling,
            snapshot_sequence,
            SyncInput::Event(event),
        ) == (SyncOutcome::Dropped { lag: (snapshot_sequence - event.prev_ts) as u64 }),
        event.prev_ts < snapshot_sequence <==> next_phase(
            SyncPhase::Reconciling,
            snapshot_sequence,
            SyncInput::Event(event),
        ) == SyncPhase::Reconciling,
        event.prev_ts == snapshot_sequence <==> outcome_of(
            SyncPhase::Reconciling,
            snapshot_sequence,
            SyncInput::Event(event),
        ) == SyncOutcome::CaughtUp,
        event.prev_ts == snapshot_sequence <==> next_phase(
            SyncPhase::Reconciling,
            snapshot_sequence,
            SyncInput::Event(event),
        ) == SyncPhase::Synced,
        event.prev_ts == snapshot_sequence <==> applies_event(
            SyncPhase::Reconciling,
            snapshot_sequence,
            SyncInput::Event(event),
        ),
        event.prev_ts > snapshot_sequence <==> outcome_of(
            SyncPhase::Reconciling,
            snapshot_sequence,
            SyncInput::Event(event),
        ) == SyncOutcome::Aborted(AbortReason::SequenceGap),
        event.prev_ts > snapshot_sequence <==> next_phase(
            SyncPhase::Reconciling,
            snapshot_sequence,
            SyncInput::Event(event),
        ) == SyncPhase::Aborted,
{
}

/// Once in step, the synchronizer applies every event and stays in step,
/// whatever sequence numbers the event carries.
pub proof fn lemma_synced_applies_every_event(snapshot_sequence: u64, event: MarketEvent)
    ensures
        applies_event(SyncPhase::Synced, snapshot_sequence, SyncInput::Event(event)),
        next_phase(SyncPhase::Synced, snapshot_sequence, SyncInput::Event(event))
            == SyncPhase::Synced,
        outcome_of(SyncPhase::Synced, snapshot_sequence, SyncInput::Event(event))
            == SyncOutcome::Applied,
{
}

/// After giving up the synchronizer processes nothing: whatever is
/// reported, it stays as it is and the book is not touched.
pub proof fn lemma_aborted_is_final(snapshot_sequence: u64, input: SyncInput)
    ensures
        next_phase(SyncPhase::Aborted, snapshot_sequence, input) == SyncPhase::Aborted,
        outcome_of(SyncPhase::Aborted, snapshot_sequence, input) == SyncOutcome::Ignored,
        !applies_event(SyncPhase::Aborted, snapshot_sequence, input),
        !loads_snapshot(SyncPhase::Aborted, input),
{
}

/// The book is replaced by a snapshot once: loading one leaves the phase
/// that loads, and no later phase leads back to it.
pub proof fn lemma_snapshot_loads_once(phase: SyncPhase, snapshot_sequence: u64, input: SyncInput)
    ensures
        loads_snapshot(phase, input) ==> next_phase(phase, snapshot_sequence, input)
            == SyncPhase::Reconciling,
        phase == SyncPhase::Reconciling || phase == SyncPhase::Synced || phase
            == SyncPhase::Aborted ==> {
            &&& !loads_snapshot(phase, input)
            &&& next_phase(phase, snapshot_sequence, input) != SyncPhase::Fetching
            &&& next_phase(phase, snapshot_sequence, input) != SyncPhase::Buffering
        },
{
}

} // verus!
