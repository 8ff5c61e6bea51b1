//! The front door: every event goes through the projectors, in a fixed order,
//! and then to the reconciliation engine.

use crate::errors::StorageError;
use crate::events::{Event, EventView};
use crate::projectors::total_authorized_projector::TotalAuthorizedProjector;
use crate::projectors::total_collected_projector::TotalCollectedProjector;
use crate::projectors::total_ordered_projector::TotalOrderedProjector;
use crate::projectors::{lemma_failure_ends_the_run, projected, AnyProjector, Projector};
use crate::reconciliation_engine::{reconciliation, ReconciliationEngine};
use crate::store::{Store, StoreView};
use vstd::prelude::*;
use vstd::string::StringExecFns;

verus! {

/// Why an event was not accepted: the stage that failed, with the failure in
/// words.
#[derive(Debug)]
pub enum EventError {
    Projection(String),
    Reconciliation(String),
}

/// An `EventError` as contracts speak of it.
pub enum EventErrorView {
    Projection(Seq<char>),
    Reconciliation(Seq<char>),
}

impl View for EventError {
    type V = EventErrorView;

    open spec fn view(&self) -> EventErrorView {
        match self {
            EventError::Projection(message) => EventErrorView::Projection(message@),
            EventError::Reconciliation(message) => EventErrorView::Reconciliation(message@),
        }
    }
}

impl EventErrorView {
    /// The failure in words.
    pub open spec fn text(self) -> Seq<char> {
        match self {
            EventErrorView::Projection(message) => "Projection Error: "@ + message,
            EventErrorView::Reconciliation(message) => "Reconciliation Engine Error: "@ + message,
        }
    }
}

impl EventError {
    /// The failure in words, with the stage it came from.
    pub fn to_string(&self) -> (r: String)
        ensures
            r@ == self@.text(),
    {
        match self {
            EventError::Projection(message) => String::from_str("Projection Error: ").concat(
                message.as_str(),
            ),
            EventError::Reconciliation(message) => String::from_str(
                "Reconciliation Engine Error: ",
            ).concat(message.as_str()),
        }
    }
}

/// The store after an event has been handed in, and how that went.
///
/// The ledgers of ordered, authorized and collected amounts see the event, in
/// that order; the first failure ends the run, and the engine is not reached.
/// Then the engine takes the event. What the projectors appended stays even
/// where the engine fails.
pub open spec fn acceptance(s: StoreView, event: EventView) -> (
    StoreView,
    Result<(), EventErrorView>,
) {
    match (TotalOrderedProjector {  }).projection(s, event) {
        Err(e) => (s, Err(EventErrorView::Projection(e.text()))),
        Ok(s1) => match (TotalAuthorizedProjector {  }).projection(s1, event) {
            Err(e) => (s1, Err(EventErrorView::Projection(e.text()))),
            Ok(s2) => match (TotalCollectedProjector {  }).projection(s2, event) {
                Err(e) => (s2, Err(EventErrorView::Projection(e.text()))),
                Ok(s3) => match reconciliation(s3, event) {
                    Err(e) => (s3, Err(EventErrorView::Reconciliation(e.text()))),
                    Ok(s4) => (s4, Ok(())),
                },
            },
        },
    }
}

/// How an `accept` went, as contracts speak of it.
pub open spec fn outcome_view(r: Result<(), EventError>) -> Result<(), EventErrorView> {
    match r {
        Ok(()) => Ok(()),
        Err(e) => Err(e@),
    }
}

/// The projectors of every handler, in the order in which an event is shown to
/// them: the ledger of ordered amounts first, then that of authorized amounts,
/// then that of collected amounts.
pub open spec fn fixed_projectors() -> Seq<AnyProjector> {
    seq![
        AnyProjector::TotalOrdered(TotalOrderedProjector {  }),
        AnyProjector::TotalAuthorized(TotalAuthorizedProjector {  }),
        AnyProjector::TotalCollected(TotalCollectedProjector {  }),
    ]
}

/// The store after an event has gone through a list of projectors and, if
/// none of them failed, to the engine; and how that went.
pub open spec fn handled(projectors: Seq<AnyProjector>, s: StoreView, event: EventView) -> (
    StoreView,
    Result<(), EventErrorView>,
) {
    match projected(projectors, s, event) {
        (stopped, Some(e)) => (stopped, Err(EventErrorView::Projection(e.text()))),
        (s3, None) => match reconciliation(s3, event) {
            Err(e) => (s3, Err(EventErrorView::Reconciliation(e.text()))),
            Ok(s4) => (s4, Ok(())),
        },
    }
}

/// An event that goes through the fixed list of projectors and then to the
/// engine is accepted as `acceptance` says.
pub proof fn lemma_fixed_projectors_accept(s: StoreView, event: EventView)
    ensures
        handled(fixed_projectors(), s, event) == acceptance(s, event),
{
    let first = AnyProjector::TotalOrdered(TotalOrderedProjector {  });
    let second = AnyProjector::TotalAuthorized(TotalAuthorizedProjector {  });
    let third = AnyProjector::TotalCollected(TotalCollectedProjector {  });
    let none = Seq::<AnyProjector>::empty();
    assert(fixed_projectors() =~= none.push(first).push(second).push(third));
    assert(none.push(first).push(second).push(third).drop_last() =~= none.push(first).push(
        second,
    ));
    assert(none.push(first).push(second).drop_last() =~= none.push(first));
    assert(none.push(first).drop_last() =~= none);
    reveal_with_fuel(projected, 4);
}

/// The single entry point for events. It holds its projectors in a list, in
/// the order in which they were registered when the handler was made, and the
/// reconciliation engine.
#[derive(Debug)]
pub struct EventHandler {
    projectors: Vec<AnyProjector>,
    reconciliation_engine: ReconciliationEngine,
}

impl EventHandler {
    #[verifier::type_invariant]
    spec fn registered(self) -> bool {
        self.projectors@ == fixed_projectors()
    }

    /// The projectors of the handler, in the order in which an event is shown
    /// to them.
    pub closed spec fn projectors(&self) -> Seq<AnyProjector> {
        self.projectors@
    }

    /// A handler with the three projectors, in their fixed order, and the engine.
    pub fn new() -> (r: Self)
        ensures
            r.projectors() == fixed_projectors(),
    {
        let mut projectors: Vec<AnyProjector> = Vec::new();
        projectors.push(AnyProjector::TotalOrdered(TotalOrderedProjector::new()));
        projectors.push(AnyProjector::TotalAuthorized(TotalAuthorizedProjector::new()));
        projectors.push(AnyProjector::TotalCollected(TotalCollectedProjector::new()));
        assert(projectors@ =~= fixed_projectors());
        EventHandler { projectors, reconciliation_engine: ReconciliationEngine::new() }
    }

    /// Takes one event: one event in, one outcome out. The projectors see the
    /// event in the order of the list, up to the first that fails; if none
    /// fails, the engine takes the event.
    pub fn accept(&self, store: &mut Store, event: Event) -> (r: Result<(), EventError>)
        requires
            old(store).wf(),
        ensures
            final(store).wf(),
            final(store)@ == acceptance(old(store)@, event@).0,
            outcome_view(r) == acceptance(old(store)@, event@).1,
            acceptance(old(store)@, event@) == handled(self.projectors(), old(store)@, event@),
    {
        proof {
            use_type_invariant(self);
            lemma_fixed_projectors_accept(store@, event@);
        }
        let ghost before = store@;
        let mut i: usize = 0;
        while i < self.projectors.len()
            invariant
                i <= self.projectors.len(),
                store.wf(),
                before == old(store)@,
                self.projectors() == fixed_projectors(),
                handled(fixed_projectors(), before, event@) == acceptance(before, event@),
                projected(self.projectors@.take(i as int), before, event@) == (
                    store@,
                    None::<StorageError>,
                ),
            decreases self.projectors.len() - i,
        {
            proof {
                assert(self.projectors@.take(i + 1).drop_last() =~= self.projectors@.take(
                    i as int,
                ));
            }
            match self.projectors[i].project(store, &event) {
                Ok(()) => {},
                Err(e) => {
                    proof {
                        lemma_failure_ends_the_run(self.projectors@, i + 1, before, event@);
                    }
                    return Err(EventError::Projection(e.message));
                },
            }
            i += 1;
        }
        assert(self.projectors@.take(i as int) =~= self.projectors@);
        match self.reconciliation_engine.reconcile(store, event) {
            Ok(()) => Ok(()),
            Err(e) => Err(EventError::Reconciliation(e.to_string())),
        }
    }
}

} // verus!
