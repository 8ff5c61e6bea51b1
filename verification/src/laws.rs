//! What holds of the store whatever the order in which events arrive.

use crate::errors::{ReconciliationError, StorageError};
use crate::event_handler::{acceptance, EventErrorView};
use crate::events::EventView;
use crate::flow::{
    authorization_barred, collection_barred, lemma_acceptance_grows,
    lemma_barred_authorization_conflicts, lemma_barred_collection_conflicts,
    lemma_barred_stays_barred, lemma_flow_step, lemma_on_the_way_step, Delivered, Flow,
};
use crate::ledger::lemma_total_push;
use crate::projectors::ledger_row;
use crate::reconciliation_engine::reconciliation;
use crate::relations::{
    grown, holder, lemma_holder_after_merge, lemma_holder_is, lemma_merge_keeps_unique,
    lemma_step_in_range, merge_step, merged, well_formed, IdPairView, RelationField,
    RelationView,
};
use crate::store::{Store, StoreView};
use vstd::prelude::*;

verus! {

/// Two events are of the same kind.
pub open spec fn same_kind(a: EventView, b: EventView) -> bool {
    Delivered::none().with(a).has(b)
}

/// Two events have the same natural key: they are of the same kind and name
/// the same transaction, order, or pair of identifiers.
pub open spec fn same_natural_key(a: EventView, b: EventView) -> bool {
    match (a, b) {
        (EventView::BankTransactionIssued(x), EventView::BankTransactionIssued(y)) => {
            x.transaction_id == y.transaction_id
        },
        (EventView::ProductOrdered(x), EventView::ProductOrdered(y)) => x.order_id == y.order_id,
        (EventView::PaymentAuthorized(x), EventView::PaymentAuthorized(y)) => {
            x.order_id == y.order_id && x.payment_id == y.payment_id
        },
        (EventView::PaymentCollected(x), EventView::PaymentCollected(y)) => {
            x.transaction_id == y.transaction_id && x.payment_id == y.payment_id
        },
        _ => false,
    }
}

/// A fact with the natural key of the event is recorded.
pub open spec fn recorded(s: StoreView, event: EventView) -> bool {
    match event {
        EventView::BankTransactionIssued(p) => s.bank_transactions.dom().contains(
            p.transaction_id,
        ),
        EventView::ProductOrdered(p) => s.product_orders.dom().contains(p.order_id),
        EventView::PaymentAuthorized(p) => s.payment_authorizations.dom().contains(
            (p.order_id, p.payment_id),
        ),
        EventView::PaymentCollected(p) => s.payment_collections.dom().contains(
            (p.transaction_id, p.payment_id),
        ),
    }
}

/// Two stores have the same facts, with the same accumulators, and the same
/// relation records. The ledgers are not compared.
pub open spec fn same_facts(a: StoreView, b: StoreView) -> bool {
    &&& a.bank_transactions == b.bank_transactions
    &&& a.product_orders == b.product_orders
    &&& a.payment_authorizations == b.payment_authorizations
    &&& a.payment_collections == b.payment_collections
    &&& a.relations == b.relations
}

/// The number of identifiers that a relation record lacks.
pub open spec fn missing(r: RelationView) -> nat {
    let one = |id: Option<Seq<char>>| if id is None { 1nat } else { 0nat };
    one(r.transaction_id) + one(r.order_id) + one(r.payment_id)
}

/// Order-independence. When the four events of a flow have all been accepted,
/// in whatever order, the transaction's ordered amount is the order's amount,
/// and the order's collected amount is the amount of the collection.
pub proof fn law_order_independence(
    flow: Flow,
    s: StoreView,
    e1: EventView,
    e2: EventView,
    e3: EventView,
    e4: EventView,
)
    requires
        s.wf(),
        flow.wf(),
        flow.has(e1) && flow.has(e2) && flow.has(e3) && flow.has(e4),
        !same_kind(e1, e2) && !same_kind(e1, e3) && !same_kind(e1, e4),
        !same_kind(e2, e3) && !same_kind(e2, e4) && !same_kind(e3, e4),
        acceptance(s, e1).1 is Ok,
        acceptance(acceptance(s, e1).0, e2).1 is Ok,
        acceptance(acceptance(acceptance(s, e1).0, e2).0, e3).1 is Ok,
        acceptance(acceptance(acceptance(acceptance(s, e1).0, e2).0, e3).0, e4).1 is Ok,
    ensures
        ({
            let end = acceptance(acceptance(acceptance(acceptance(s, e1).0, e2).0, e3).0, e4).0;
            let bank = end.bank_transactions[flow.transaction_id()];
            let order = end.product_orders[flow.order_id()];
            let collection = end.payment_collections[(flow.transaction_id(), flow.payment_id())];
            &&& end.bank_transactions.dom().contains(flow.transaction_id())
            &&& end.product_orders.dom().contains(flow.order_id())
            &&& end.payment_collections.dom().contains((flow.transaction_id(), flow.payment_id()))
            &&& bank.ordered_amount == order.amount
            &&& order.collected_amount == collection.amount
        }),
{
    let s1 = acceptance(s, e1).0;
    let s2 = acceptance(s1, e2).0;
    let s3 = acceptance(s2, e3).0;
    let t = flow.transaction_id();
    let o = flow.order_id();
    let p = flow.payment_id();
    lemma_acceptance_grows(s, e1);
    lemma_acceptance_grows(s1, e2);
    lemma_acceptance_grows(s2, e3);
    // An event that is accepted in the end was not recorded at the start, for
    // what is recorded stays recorded.
    let bank = EventView::BankTransactionIssued(flow.bank);
    let order = EventView::ProductOrdered(flow.order);
    let collection = EventView::PaymentCollected(flow.collection);
    if recorded(s, bank) || recorded(s, order) || recorded(s, collection) {
        let seen = if recorded(s, bank) {
            bank
        } else if recorded(s, order) {
            order
        } else {
            collection
        };
        law_recorded_stays_recorded(s, seen, e1);
        law_recorded_stays_recorded(s1, seen, e2);
        law_recorded_stays_recorded(s2, seen, e3);
        assert(false);
    }
    // Nor did a record stand in the way of the collection or of the
    // authorization, for what stands in the way stays in the way.
    lemma_barred_stays_barred(s.relations, s1.relations, t, p);
    lemma_barred_stays_barred(s1.relations, s2.relations, t, p);
    lemma_barred_stays_barred(s2.relations, s3.relations, t, p);
    if collection_barred(s.relations, t, p) {
        lemma_barred_collection_conflicts(s.relations, flow.collection);
        lemma_barred_collection_conflicts(s1.relations, flow.collection);
        lemma_barred_collection_conflicts(s2.relations, flow.collection);
        lemma_barred_collection_conflicts(s3.relations, flow.collection);
        assert(false);
    }
    lemma_barred_stays_barred(s.relations, s1.relations, o, p);
    lemma_barred_stays_barred(s1.relations, s2.relations, o, p);
    lemma_barred_stays_barred(s2.relations, s3.relations, o, p);
    if authorization_barred(s.relations, o, p) {
        lemma_barred_authorization_conflicts(s.relations, flow.authorization);
        lemma_barred_authorization_conflicts(s1.relations, flow.authorization);
        lemma_barred_authorization_conflicts(s2.relations, flow.authorization);
        lemma_barred_authorization_conflicts(s3.relations, flow.authorization);
        assert(false);
    }
    let d0 = Delivered::none();
    let d1 = d0.with(e1);
    let d2 = d1.with(e2);
    let d3 = d2.with(e3);
    assert(flow.on_the_way(s, d0));
    lemma_on_the_way_step(flow, s, d0, e1);
    lemma_on_the_way_step(flow, s1, d1, e2);
    lemma_on_the_way_step(flow, s2, d2, e3);
    lemma_on_the_way_step(flow, s3, d3, e4);
}

/// The same store in any order. When the four events of a flow that is new to
/// the store have all been accepted, in whatever order, the store is the one
/// that holds the four facts, the complete relation record and the three
/// ledger rows of the flow beside what it held before.
pub proof fn law_same_store_in_any_order(
    flow: Flow,
    s: StoreView,
    e1: EventView,
    e2: EventView,
    e3: EventView,
    e4: EventView,
)
    requires
        flow.wf(),
        flow.new_to(s),
        flow.has(e1) && flow.has(e2) && flow.has(e3) && flow.has(e4),
        !same_kind(e1, e2) && !same_kind(e1, e3) && !same_kind(e1, e4),
        !same_kind(e2, e3) && !same_kind(e2, e4) && !same_kind(e3, e4),
        acceptance(s, e1).1 is Ok,
        acceptance(acceptance(s, e1).0, e2).1 is Ok,
        acceptance(acceptance(acceptance(s, e1).0, e2).0, e3).1 is Ok,
        acceptance(acceptance(acceptance(acceptance(s, e1).0, e2).0, e3).0, e4).1 is Ok,
    ensures
        acceptance(acceptance(acceptance(acceptance(s, e1).0, e2).0, e3).0, e4).0
            == flow.store_after(
            s,
            Delivered { bank: true, order: true, authorization: true, collection: true },
        ),
{
    let d0 = Delivered::none();
    let d1 = d0.with(e1);
    let d2 = d1.with(e2);
    let d3 = d2.with(e3);
    assert(flow.store_after(s, d0) == s);
    lemma_flow_step(flow, s, d0, e1);
    lemma_flow_step(flow, s, d1, e2);
    lemma_flow_step(flow, s, d2, e3);
    lemma_flow_step(flow, s, d3, e4);
}

/// Partial state. With two of the four events of a flow accepted, by a store
/// to which the flow is new, no aggregate update has been made: every fact
/// that was recorded before is as it was, and the accumulators of the facts of
/// the flow stand at zero. If one of the two events, and only one, names the
/// payment, the relation record of the flow lacks exactly one identifier.
pub proof fn law_partial_state(flow: Flow, s: StoreView, e1: EventView, e2: EventView)
    requires
        flow.wf(),
        flow.new_to(s),
        flow.has(e1) && flow.has(e2),
        !same_kind(e1, e2),
        acceptance(s, e1).1 is Ok,
        acceptance(acceptance(s, e1).0, e2).1 is Ok,
    ensures
        ({
            let d = Delivered::none().with(e1).with(e2);
            let end = acceptance(acceptance(s, e1).0, e2).0;
            &&& end == flow.store_after(s, d)
            &&& forall|k: Seq<char>| #[trigger]
                s.bank_transactions.dom().contains(k) ==> end.bank_transactions.dom().contains(k)
                    && end.bank_transactions[k] == s.bank_transactions[k]
            &&& forall|k: Seq<char>| #[trigger]
                s.product_orders.dom().contains(k) ==> end.product_orders.dom().contains(k)
                    && end.product_orders[k] == s.product_orders[k]
            &&& d.bank ==> end.bank_transactions[flow.transaction_id()].ordered_amount == 0
            &&& d.order ==> end.product_orders[flow.order_id()].collected_amount == 0
            &&& d.authorization != d.collection ==> end.relations.len() == s.relations.len() + 1
                && end.relations.last().holds(RelationField::PaymentId, flow.payment_id())
                && missing(end.relations.last()) == 1
        }),
{
    let d0 = Delivered::none();
    let d1 = d0.with(e1);
    assert(flow.store_after(s, d0) == s);
    lemma_flow_step(flow, s, d0, e1);
    lemma_flow_step(flow, s, d1, e2);
}

/// No double counting. An event that has been accepted is refused when it, or
/// another event with its natural key, is handed in again: the engine answers
/// `DuplicateKey`, and no fact, accumulator or relation record changes. The
/// ledger of the event's kind stands before the engine and is append-only: it
/// takes the event once more, unless that is what fails.
pub proof fn law_no_double_counting(s: StoreView, event: EventView, again: EventView)
    requires
        acceptance(s, event).1 is Ok,
        same_natural_key(event, again),
    ensures
        ({
            let accepted = acceptance(s, event).0;
            let (end, outcome) = acceptance(accepted, again);
            &&& reconciliation(accepted, again) == Err::<StoreView, ReconciliationError>(
                ReconciliationError::DuplicateKey,
            )
            &&& outcome == Err::<(), EventErrorView>(
                EventErrorView::Reconciliation(ReconciliationError::DuplicateKey.text()),
            ) || outcome == Err::<(), EventErrorView>(
                EventErrorView::Projection(StorageError::AmountOutOfRange.text()),
            )
            &&& same_facts(end, accepted)
        }),
{
    law_accepted_is_recorded(s, event);
    law_recorded_is_refused(acceptance(s, event).0, again);
}

/// An event that has been accepted is recorded.
pub proof fn law_accepted_is_recorded(s: StoreView, event: EventView)
    requires
        acceptance(s, event).1 is Ok,
    ensures
        recorded(acceptance(s, event).0, event),
{
}

/// What is recorded stays recorded, whatever is handed in and however that goes.
pub proof fn law_recorded_stays_recorded(s: StoreView, event: EventView, next: EventView)
    requires
        recorded(s, event),
    ensures
        recorded(acceptance(s, next).0, event),
{
}

/// An event whose natural key is recorded is refused, at whatever time it is
/// handed in, and no fact, accumulator or relation record changes.
pub proof fn law_recorded_is_refused(s: StoreView, event: EventView)
    requires
        recorded(s, event),
    ensures
        reconciliation(s, event) == Err::<StoreView, ReconciliationError>(
            ReconciliationError::DuplicateKey,
        ),
        acceptance(s, event).1 == Err::<(), EventErrorView>(
            EventErrorView::Reconciliation(ReconciliationError::DuplicateKey.text()),
        ) || acceptance(s, event).1 == Err::<(), EventErrorView>(
            EventErrorView::Projection(StorageError::AmountOutOfRange.text()),
        ),
        same_facts(acceptance(s, event).0, s),
{
}

/// Atomicity. An event that is not accepted leaves every fact, every
/// accumulator and every relation record as it was: no fact without its
/// relation, no increment without the other.
pub proof fn law_refused_event_changes_no_fact(s: StoreView, event: EventView)
    requires
        acceptance(s, event).1 is Err,
    ensures
        same_facts(acceptance(s, event).0, s),
        acceptance(s, event).1->Err_0 is Projection ==> acceptance(s, event).0 == s,
{
}

/// Uniqueness. Once an order and a payment are merged into the relations, a
/// merge of the same order with another payment is a conflict, so that no
/// second record comes to hold the order.
pub proof fn law_one_relation_per_order(
    records: Seq<RelationView>,
    order_id: Seq<char>,
    payment_id: Seq<char>,
    other_payment_id: Seq<char>,
)
    requires
        well_formed(records),
        payment_id != other_payment_id,
        merged(records, order_payment(order_id, payment_id)) is Ok,
    ensures
        ({
            let after = merged(records, order_payment(order_id, payment_id))->Ok_0.0;
            &&& well_formed(after)
            &&& merged(after, order_payment(order_id, other_payment_id)) == Err::<
                (Seq<RelationView>, int),
                StorageError,
            >(StorageError::IdentifierConflict)
            &&& forall|i: int, j: int|
                0 <= i < after.len() && 0 <= j < after.len() && (#[trigger] after[i]).holds(
                    RelationField::OrderId,
                    order_id,
                ) && (#[trigger] after[j]).holds(RelationField::OrderId, order_id) ==> i == j
        }),
{
    let ids = order_payment(order_id, payment_id);
    let step = merge_step(records, ids)->Ok_0;
    let after = step.apply(records, ids);
    lemma_merge_keeps_unique(records, ids);
    lemma_step_in_range(records, ids);
    lemma_holder_is(after, RelationField::OrderId, order_id, step.position(records));
    assert forall|i: int, j: int|
        0 <= i < after.len() && 0 <= j < after.len() && (#[trigger] after[i]).holds(
            RelationField::OrderId,
            order_id,
        ) && (#[trigger] after[j]).holds(RelationField::OrderId, order_id) implies i == j by {
        lemma_holder_is(after, RelationField::OrderId, order_id, i);
        lemma_holder_is(after, RelationField::OrderId, order_id, j);
    }
}

/// The record that the engine looks up after a merge, by the first identifier
/// of the pair, is the record that the merge filled or made.
pub proof fn law_lookup_finds_the_merged_record(records: Seq<RelationView>, ids: IdPairView)
    requires
        well_formed(records),
        ids.wf(),
        merged(records, ids) is Ok,
    ensures
        holder(merged(records, ids)->Ok_0.0, ids.first_field, ids.first) == Some(
            merged(records, ids)->Ok_0.1,
        ),
{
    lemma_holder_after_merge(records, ids, ids.first_field, ids.first);
}

/// Uniqueness, at all times. Whatever is handed in, and however that goes, each
/// identifier stands in at most one relation record afterwards, and the
/// records that were there are there still, with every identifier they had:
/// identifiers are filled in, never cleared.
pub proof fn law_relations_only_grow(s: StoreView, event: EventView)
    requires
        s.wf(),
    ensures
        acceptance(s, event).0.wf(),
        grown(s.relations, acceptance(s, event).0.relations),
{
    lemma_acceptance_grows(s, event);
    match event {
        EventView::BankTransactionIssued(p) => {
            lemma_total_push(s.total_collected, ledger_row(p.amount, p.occurred_on));
        },
        EventView::PaymentAuthorized(p) => {
            lemma_total_push(s.total_authorized, ledger_row(p.amount, p.occurred_on));
        },
        EventView::ProductOrdered(p) => {
            lemma_total_push(s.total_ordered, ledger_row(p.amount, p.occurred_on));
        },
        EventView::PaymentCollected(_) => {},
    }
}

/// The ledgers are append-only. Whatever is handed in, and however that goes,
/// each ledger is afterwards what it was, or that with one more row.
pub proof fn law_ledgers_are_append_only(s: StoreView, event: EventView)
    ensures
        ({
            let end = acceptance(s, event).0;
            &&& s.total_ordered == end.total_ordered || s.total_ordered
                == end.total_ordered.drop_last()
            &&& s.total_authorized == end.total_authorized || s.total_authorized
                == end.total_authorized.drop_last()
            &&& s.total_collected == end.total_collected || s.total_collected
                == end.total_collected.drop_last()
        }),
{
    let end = acceptance(s, event).0;
    assert(s.total_ordered == end.total_ordered || s.total_ordered
        =~= end.total_ordered.drop_last());
    assert(s.total_authorized == end.total_authorized || s.total_authorized
        =~= end.total_authorized.drop_last());
    assert(s.total_collected == end.total_collected || s.total_collected
        =~= end.total_collected.drop_last());
}

/// Every store that the library has made or changed is well-formed in the
/// sense in which the laws speak of stores.
pub proof fn law_every_store_is_well_formed(store: Store)
    requires
        store.wf(),
    ensures
        store@.wf(),
{
    store.total_ordered.lemma_total_in_range();
    store.total_authorized.lemma_total_in_range();
    store.total_collected.lemma_total_in_range();
}

/// The pair of an order and a payment.
pub open spec fn order_payment(order_id: Seq<char>, payment_id: Seq<char>) -> IdPairView {
    IdPairView {
        first_field: RelationField::OrderId,
        first: order_id,
        second_field: RelationField::PaymentId,
        second: payment_id,
    }
}

} // verus!
