//! The ledger of authorized amounts.

use crate::errors::{ProjectionError, StorageError};
use crate::events::{Event, EventView};
use crate::projectors::{projection_failure, with_row, Projector};
use crate::store::{Store, StoreView};
use vstd::prelude::*;

verus! {

/// Appends the amount of each `PaymentAuthorized` event to the ledger of
/// authorized amounts.
#[derive(Clone, Copy, Debug)]
pub struct TotalAuthorizedProjector {}

impl TotalAuthorizedProjector {
    /// The projector of authorized amounts.
    pub fn new() -> (r: Self) {
        TotalAuthorizedProjector {  }
    }
}

impl Projector for TotalAuthorizedProjector {
    open spec fn projection(&self, s: StoreView, event: EventView) -> Result<
        StoreView,
        StorageError,
    > {
        match event {
            EventView::PaymentAuthorized(p) => match with_row(
                s.total_authorized,
                p.amount,
                p.occurred_on,
            ) {
                Ok(entries) => Ok(StoreView { total_authorized: entries, ..s }),
                Err(e) => Err(e),
            },
            _ => Ok(s),
        }
    }

    fn project(&self, store: &mut Store, event: &Event) -> (r: Result<(), ProjectionError>) {
        match event {
            Event::PaymentAuthorized(payload) => {
                match store.total_authorized.append(
                    payload.amount,
                    payload.occurred_on.to_text(),
                ) {
                    Ok(()) => Ok(()),
                    Err(e) => Err(projection_failure(e)),
                }
            },
            _ => Ok(()),
        }
    }
}

} // verus!
