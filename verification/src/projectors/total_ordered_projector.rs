//! The ledger of ordered amounts.

use crate::errors::{ProjectionError, StorageError};
use crate::events::{Event, EventView};
use crate::projectors::{projection_failure, with_row, Projector};
use crate::store::{Store, StoreView};
use vstd::prelude::*;

verus! {

/// Appends the amount of each `ProductOrdered` event to the ledger of ordered
/// amounts.
#[derive(Clone, Copy, Debug)]
pub struct TotalOrderedProjector {}

impl TotalOrderedProjector {
    /// The projector of ordered amounts.
    pub fn new() -> (r: Self) {
        TotalOrderedProjector {  }
    }
}

impl Projector for TotalOrderedProjector {
    open spec fn projection(&self, s: StoreView, event: EventView) -> Result<
        StoreView,
        StorageError,
    > {
        match event {
            EventView::ProductOrdered(p) => match with_row(
                s.total_ordered,
                p.amount,
                p.occurred_on,
            ) {
                Ok(entries) => Ok(StoreView { total_ordered: entries, ..s }),
                Err(e) => Err(e),
            },
            _ => Ok(s),
        }
    }

    fn project(&self, store: &mut Store, event: &Event) -> (r: Result<(), ProjectionError>) {
        match event {
            Event::ProductOrdered(payload) => {
                match store.total_ordered.append(payload.amount, payload.occurred_on.to_text()) {
                    Ok(()) => Ok(()),
                    Err(e) => Err(projection_failure(e)),
                }
            },
            _ => Ok(()),
        }
    }
}

} // verus!
