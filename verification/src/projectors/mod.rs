//! The aggregate projectors: each keeps one append-only ledger and takes one
//! kind of event for it.

use crate::errors::{ProjectionError, StorageError};
use crate::events::{Event, EventView};
use crate::ledger::{appended, LedgerEntryView};
use crate::store::{Store, StoreView};
use crate::timestamp::Timestamp;
use vstd::prelude::*;

use total_authorized_projector::TotalAuthorizedProjector;
use total_collected_projector::TotalCollectedProjector;
use total_ordered_projector::TotalOrderedProjector;

pub mod total_authorized_projector;
pub mod total_collected_projector;
pub mod total_ordered_projector;

verus! {

/// What derives one ledger from the events.
pub trait Projector {
    /// The store after the projector has seen the event, or the failure of the
    /// store that kept the row out.
    spec fn projection(&self, s: StoreView, event: EventView) -> Result<StoreView, StorageError>;

    /// Shows the projector one event. It appends a row to its ledger if the
    /// event is of its kind, and does nothing otherwise. On a failure nothing
    /// changes.
    fn project(&self, store: &mut Store, event: &Event) -> (r: Result<(), ProjectionError>)
        requires
            old(store).wf(),
        ensures
            final(store).wf(),
            match self.projection(old(store)@, event@) {
                Ok(s) => r is Ok && final(store)@ == s,
                Err(e) => r is Err && r->Err_0.message@ == e.text() && final(store)@ == old(
                    store,
                )@,
            },
    ;
}

/// The ledger row for an amount and the instant it belongs to.
pub open spec fn ledger_row(amount: u64, occurred_on: Timestamp) -> LedgerEntryView {
    LedgerEntryView { amount, occurred_on: occurred_on.text() }
}

/// A ledger after the row for an amount has been appended to it.
pub open spec fn with_row(
    entries: Seq<LedgerEntryView>,
    amount: u64,
    occurred_on: Timestamp,
) -> Result<Seq<LedgerEntryView>, StorageError> {
    appended(entries, ledger_row(amount, occurred_on))
}

/// The failure of the store, as a projector reports it.
pub fn projection_failure(e: StorageError) -> (r: ProjectionError)
    ensures
        r.message@ == e.text(),
{
    ProjectionError { message: e.to_string() }
}

/// One of the three projectors, as a list of projectors holds it.
#[derive(Clone, Copy, Debug)]
pub enum AnyProjector {
    TotalOrdered(TotalOrderedProjector),
    TotalAuthorized(TotalAuthorizedProjector),
    TotalCollected(TotalCollectedProjector),
}

impl Projector for AnyProjector {
    open spec fn projection(&self, s: StoreView, event: EventView) -> Result<
        StoreView,
        StorageError,
    > {
        match self {
            AnyProjector::TotalOrdered(p) => p.projection(s, event),
            AnyProjector::TotalAuthorized(p) => p.projection(s, event),
            AnyProjector::TotalCollected(p) => p.projection(s, event),
        }
    }

    fn project(&self, store: &mut Store, event: &Event) -> (r: Result<(), ProjectionError>) {
        match self {
            AnyProjector::TotalOrdered(p) => p.project(store, event),
            AnyProjector::TotalAuthorized(p) => p.project(store, event),
            AnyProjector::TotalCollected(p) => p.project(store, event),
        }
    }
}

/// The store after the projectors of a list have seen an event one after the
/// other, and the failure, if any, that ended the run: a projector that fails
/// leaves the store as it found it, and those behind it do not see the event.
pub open spec fn projected(projectors: Seq<AnyProjector>, s: StoreView, event: EventView) -> (
    StoreView,
    Option<StorageError>,
)
    decreases projectors.len(),
{
    if projectors.len() == 0 {
        (s, None)
    } else {
        let (before_last, failure) = projected(projectors.drop_last(), s, event);
        if failure is Some {
            (before_last, failure)
        } else {
            match projectors.last().projection(before_last, event) {
                Ok(after_last) => (after_last, None),
                Err(e) => (before_last, Some(e)),
            }
        }
    }
}

/// A run that has failed within the first `n` projectors of a list is the run
/// of the whole list.
pub proof fn lemma_failure_ends_the_run(
    projectors: Seq<AnyProjector>,
    n: int,
    s: StoreView,
    event: EventView,
)
    requires
        0 <= n <= projectors.len(),
        projected(projectors.take(n), s, event).1 is Some,
    ensures
        projected(projectors, s, event) == projected(projectors.take(n), s, event),
    decreases projectors.len() - n,
{
    if n < projectors.len() {
        assert(projectors.take(n + 1).drop_last() =~= projectors.take(n));
        lemma_failure_ends_the_run(projectors, n + 1, s, event);
    } else {
        assert(projectors.take(n) =~= projectors);
    }
}

} // verus!
