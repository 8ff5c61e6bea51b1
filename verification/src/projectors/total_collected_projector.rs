//! The ledger of collected amounts.

use crate::errors::{ProjectionError, StorageError};
use crate::events::{Event, EventView};
use crate::projectors::{projection_failure, with_row, Projector};
use crate::store::{Store, StoreView};
use vstd::prelude::*;

verus! {

/// Appends the amount of each `BankTransactionIssued` event to the ledger of
/// collected amounts: money counts as collected once the bank has settled it.
#[derive(Clone, Copy, Debug)]
pub struct TotalCollectedProjector {}

impl TotalCollectedProjector {
    /// The projector of collected amounts.
    pub fn new() -> (r: Self) {
        TotalCollectedProjector {  }
    }
}

impl Projector for TotalCollectedProjector {
    open spec fn projection(&self, s: StoreView, event: EventView) -> Result<
        StoreView,
        StorageError,
    > {
        match event {
            EventView::BankTransactionIssued(p) => match with_row(
                s.total_collected,
                p.amount,
                p.occurred_on,
            ) {
                Ok(entries) => Ok(StoreView { total_collected: entries, ..s }),
                Err(e) => Err(e),
            },
            _ => Ok(s),
        }
    }

    fn project(&self, store: &mut Store, event: &Event) -> (r: Result<(), ProjectionError>) {
        match event {
            Event::BankTransactionIssued(payload) => {
                match store.total_collected.append(
                    payload.amount,
                    payload.occurred_on.to_text(),
                ) {
                    Ok(()) => Ok(()),
                    Err(e) => Err(projection_failure(e)),
                }
            },
            _ => Ok(()),
        }
    }
}

} // verus!
