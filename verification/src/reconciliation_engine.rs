//! The reconciliation engine: it records each fact, merges the identifiers that
//! the fact shows to belong together, and, once a relation is complete, brings
//! the aggregate figures of its order and its transaction up to date.

use crate::errors::{ReconciliationError, StorageError};
use crate::events::{
    BankTransactionIssuedPayload, BankTransactionIssuedView, Event, EventView,
    PaymentAuthorizedPayload, PaymentAuthorizedView, PaymentCollectedPayload,
    PaymentCollectedView, ProductOrderedPayload, ProductOrderedView,
};
use crate::facts::{
    BankTransactionFact, BankTransactionFactView, PaymentAuthorizationFact,
    PaymentAuthorizationFactView, PaymentCollectionFact, PaymentCollectionFactView,
    ProductOrderFact, ProductOrderFactView,
};
use crate::relations::{
    holder, lemma_revert_restores, merge_step, IdPair, IdPairView, MergeStep, MergeStepView,
    RelationField, RelationRecord, RelationView,
};
use crate::store::{Store, StoreView};
use vstd::prelude::*;

verus! {

/// The fact that records a bank transaction: nothing of it is accounted for yet.
pub open spec fn bank_transaction_fact(p: BankTransactionIssuedView) -> BankTransactionFactView {
    BankTransactionFactView {
        transaction_id: p.transaction_id,
        amount: p.amount,
        ordered_amount: 0,
        occurred_on: p.occurred_on.text(),
    }
}

/// The fact that records an order: nothing of it is collected yet.
pub open spec fn product_order_fact(p: ProductOrderedView) -> ProductOrderFactView {
    ProductOrderFactView {
        order_id: p.order_id,
        amount: p.amount,
        collected_amount: 0,
        occurred_on: p.occurred_on.text(),
        insurance_code: p.insurance_code,
        installment_type: p.installment_type.text(),
        event_type: p.event_type.text(),
    }
}

/// The fact that records the authorization of a payment.
pub open spec fn payment_authorization_fact(
    p: PaymentAuthorizedView,
) -> PaymentAuthorizationFactView {
    PaymentAuthorizationFactView {
        order_id: p.order_id,
        payment_id: p.payment_id,
        amount: p.amount,
        occurred_on: p.occurred_on.text(),
    }
}

/// The fact that records the collection of a payment.
pub open spec fn payment_collection_fact(p: PaymentCollectedView) -> PaymentCollectionFactView {
    PaymentCollectionFactView {
        transaction_id: p.transaction_id,
        payment_id: p.payment_id,
        amount: p.amount,
        occurred_on: p.occurred_on.text(),
    }
}

/// The identifiers that an authorization shows to belong together.
pub open spec fn authorized_pair(p: PaymentAuthorizedView) -> IdPairView {
    IdPairView {
        first_field: RelationField::OrderId,
        first: p.order_id,
        second_field: RelationField::PaymentId,
        second: p.payment_id,
    }
}

/// The identifiers that a collection shows to belong together.
pub open spec fn collected_pair(p: PaymentCollectedView) -> IdPairView {
    IdPairView {
        first_field: RelationField::TransactionId,
        first: p.transaction_id,
        second_field: RelationField::PaymentId,
        second: p.payment_id,
    }
}

/// The aggregate update for one transaction, order and payment.
///
/// Where the bank transaction, the order and the collection of the payment
/// through that transaction are all recorded, the transaction's ordered amount
/// grows by the order's amount and the order's collected amount grows by the
/// collected amount: both or neither. Where one of the three is not recorded
/// the update adds nothing.
pub open spec fn aggregate_update(
    s: StoreView,
    transaction_id: Seq<char>,
    order_id: Seq<char>,
    payment_id: Seq<char>,
) -> Result<StoreView, StorageError> {
    if s.bank_transactions.dom().contains(transaction_id) && s.product_orders.dom().contains(
        order_id,
    ) && s.payment_collections.dom().contains((transaction_id, payment_id)) {
        let bank = s.bank_transactions[transaction_id];
        let order = s.product_orders[order_id];
        let collection = s.payment_collections[(transaction_id, payment_id)];
        if bank.ordered_amount + order.amount <= u64::MAX && order.collected_amount
            + collection.amount <= u64::MAX {
            Ok(
                StoreView {
                    bank_transactions: s.bank_transactions.insert(
                        transaction_id,
                        BankTransactionFactView {
                            ordered_amount: (bank.ordered_amount + order.amount) as u64,
                            ..bank
                        },
                    ),
                    product_orders: s.product_orders.insert(
                        order_id,
                        ProductOrderFactView {
                            collected_amount: (order.collected_amount + collection.amount) as u64,
                            ..order
                        },
                    ),
                    ..s
                },
            )
        } else {
            Err(StorageError::AmountOutOfRange)
        }
    } else {
        Ok(s)
    }
}

/// The store after the aggregate update for a relation record, which is made
/// only if the record is complete.
pub open spec fn reconciled(s: StoreView, relation: RelationView) -> Result<
    StoreView,
    StorageError,
> {
    if relation.is_complete() {
        aggregate_update(
            s,
            relation.transaction_id->0,
            relation.order_id->0,
            relation.payment_id->0,
        )
    } else {
        Ok(s)
    }
}

/// The store after the aggregate update for the relation record that has `id`
/// in the column `field`, if there is such a record.
pub open spec fn reconciled_by(s: StoreView, field: RelationField, id: Seq<char>) -> Result<
    StoreView,
    StorageError,
> {
    match holder(s.relations, field, id) {
        Some(i) => reconciled(s, s.relations[i]),
        None => Ok(s),
    }
}

/// A failure of the store, as the engine reports it.
pub open spec fn storage_failure<T>(r: Result<T, StorageError>) -> Result<T, ReconciliationError> {
    match r {
        Ok(v) => Ok(v),
        Err(e) => Err(ReconciliationError::StorageError(e)),
    }
}

/// The store with one more bank transaction, or `DuplicateKey`.
pub open spec fn saved_bank_transaction(s: StoreView, p: BankTransactionIssuedView) -> Result<
    StoreView,
    ReconciliationError,
> {
    if s.bank_transactions.dom().contains(p.transaction_id) {
        Err(ReconciliationError::DuplicateKey)
    } else {
        Ok(
            StoreView {
                bank_transactions: s.bank_transactions.insert(
                    p.transaction_id,
                    bank_transaction_fact(p),
                ),
                ..s
            },
        )
    }
}

/// The store with one more order, or `DuplicateKey`.
pub open spec fn saved_product_order(s: StoreView, p: ProductOrderedView) -> Result<
    StoreView,
    ReconciliationError,
> {
    if s.product_orders.dom().contains(p.order_id) {
        Err(ReconciliationError::DuplicateKey)
    } else {
        Ok(
            StoreView {
                product_orders: s.product_orders.insert(p.order_id, product_order_fact(p)),
                ..s
            },
        )
    }
}

/// The store with one more authorization and its order and payment merged into
/// the relations; `DuplicateKey`, or the conflict that the merge met.
pub open spec fn saved_payment_authorization(s: StoreView, p: PaymentAuthorizedView) -> Result<
    StoreView,
    ReconciliationError,
> {
    if s.payment_authorizations.dom().contains((p.order_id, p.payment_id)) {
        Err(ReconciliationError::DuplicateKey)
    } else {
        match merge_step(s.relations, authorized_pair(p)) {
            Ok(step) => Ok(
                StoreView {
                    payment_authorizations: s.payment_authorizations.insert(
                        (p.order_id, p.payment_id),
                        payment_authorization_fact(p),
                    ),
                    relations: step.apply(s.relations, authorized_pair(p)),
                    ..s
                },
            ),
            Err(e) => Err(ReconciliationError::StorageError(e)),
        }
    }
}

/// The store with one more collection and its transaction and payment merged
/// into the relations; `DuplicateKey`, or the conflict that the merge met.
pub open spec fn saved_payment_collection(s: StoreView, p: PaymentCollectedView) -> Result<
    StoreView,
    ReconciliationError,
> {
    if s.payment_collections.dom().contains((p.transaction_id, p.payment_id)) {
        Err(ReconciliationError::DuplicateKey)
    } else {
        match merge_step(s.relations, collected_pair(p)) {
            Ok(step) => Ok(
                StoreView {
                    payment_collections: s.payment_collections.insert(
                        (p.transaction_id, p.payment_id),
                        payment_collection_fact(p),
                    ),
                    relations: step.apply(s.relations, collected_pair(p)),
                    ..s
                },
            ),
            Err(e) => Err(ReconciliationError::StorageError(e)),
        }
    }
}

/// The store after an event has been saved: its fact recorded and, where it
/// names two identifiers, the pair merged into the relations.
pub open spec fn saved(s: StoreView, event: EventView) -> Result<StoreView, ReconciliationError> {
    match event {
        EventView::BankTransactionIssued(p) => saved_bank_transaction(s, p),
        EventView::PaymentAuthorized(p) => saved_payment_authorization(s, p),
        EventView::PaymentCollected(p) => saved_payment_collection(s, p),
        EventView::ProductOrdered(p) => saved_product_order(s, p),
    }
}

/// The column and the identifier by which the relation of an event is looked up.
pub open spec fn lookup_key(event: EventView) -> (RelationField, Seq<char>) {
    match event {
        EventView::BankTransactionIssued(p) => (RelationField::TransactionId, p.transaction_id),
        EventView::PaymentAuthorized(p) => (RelationField::OrderId, p.order_id),
        EventView::PaymentCollected(p) => (RelationField::TransactionId, p.transaction_id),
        EventView::ProductOrdered(p) => (RelationField::OrderId, p.order_id),
    }
}

/// The store after the engine has taken an event, or the failure that left the
/// store as it was.
///
/// The event is saved; then the relation record of its transaction or order is
/// looked up and, if it is complete, the aggregate update is made.
pub open spec fn reconciliation(s: StoreView, event: EventView) -> Result<
    StoreView,
    ReconciliationError,
> {
    match saved(s, event) {
        Ok(t) => storage_failure(reconciled_by(t, lookup_key(event).0, lookup_key(event).1)),
        Err(e) => Err(e),
    }
}

/// Makes the aggregate update for a relation record, if the record is complete.
/// On a failure nothing changes.
pub fn do_reconcile(store: &mut Store, relation: &RelationRecord) -> (r: Result<
    (),
    ReconciliationError,
>)
    requires
        old(store).wf(),
    ensures
        final(store).wf(),
        match reconciled(old(store)@, relation@) {
            Ok(s) => r is Ok && final(store)@ == s,
            Err(e) => r == Err::<(), ReconciliationError>(ReconciliationError::StorageError(e))
                && final(store)@ == old(store)@,
        },
{
    let (transaction_id, order_id, payment_id) = match (
        &relation.transaction_id,
        &relation.order_id,
        &relation.payment_id,
    ) {
        (Some(t), Some(o), Some(p)) => (t, o, p),
        _ => {
            return Ok(());
        },
    };
    let collection_id = (transaction_id.clone(), payment_id.clone());
    let (bank, order) = match (
        store.bank_transactions.get(transaction_id),
        store.product_orders.get(order_id),
        store.payment_collections.get(&collection_id),
    ) {
        (Some(bank), Some(order), Some(collection)) => {
            match (
                bank.ordered_amount.checked_add(order.amount),
                order.collected_amount.checked_add(collection.amount),
            ) {
                (Some(ordered_amount), Some(collected_amount)) => (
                    BankTransactionFact {
                        transaction_id: bank.transaction_id.clone(),
                        amount: bank.amount,
                        ordered_amount,
                        occurred_on: bank.occurred_on.clone(),
                    },
                    ProductOrderFact {
                        order_id: order.order_id.clone(),
                        amount: order.amount,
                        collected_amount,
                        occurred_on: order.occurred_on.clone(),
                        insurance_code: order.insurance_code.clone(),
                        installment_type: order.installment_type.clone(),
                        event_type: order.event_type.clone(),
                    },
                ),
                _ => {
                    return Err(ReconciliationError::StorageError(StorageError::AmountOutOfRange));
                },
            }
        },
        _ => {
            return Ok(());
        },
    };
    store.bank_transactions.replace(bank);
    store.product_orders.replace(order);
    Ok(())
}

/// Records a bank transaction, unless one with its identifier is recorded.
pub fn save_bank_transaction_issued(
    store: &mut Store,
    payload: &BankTransactionIssuedPayload,
) -> (r: Result<(), ReconciliationError>)
    requires
        old(store).wf(),
    ensures
        final(store).wf(),
        match saved_bank_transaction(old(store)@, payload@) {
            Ok(s) => r is Ok && final(store)@ == s,
            Err(e) => r == Err::<(), ReconciliationError>(e) && final(store)@ == old(store)@,
        },
{
    let fact = BankTransactionFact {
        transaction_id: payload.transaction_id.clone(),
        amount: payload.amount,
        ordered_amount: 0,
        occurred_on: payload.occurred_on.to_text(),
    };
    match store.bank_transactions.insert(fact) {
        Ok(()) => Ok(()),
        Err(_) => Err(ReconciliationError::DuplicateKey),
    }
}

/// Records an order, unless one with its identifier is recorded.
pub fn save_product_ordered(store: &mut Store, payload: &ProductOrderedPayload) -> (r: Result<
    (),
    ReconciliationError,
>)
    requires
        old(store).wf(),
    ensures
        final(store).wf(),
        match saved_product_order(old(store)@, payload@) {
            Ok(s) => r is Ok && final(store)@ == s,
            Err(e) => r == Err::<(), ReconciliationError>(e) && final(store)@ == old(store)@,
        },
{
    let fact = ProductOrderFact {
        order_id: payload.order_id.clone(),
        amount: payload.amount,
        collected_amount: 0,
        occurred_on: payload.occurred_on.to_text(),
        insurance_code: payload.insurance_code.clone(),
        installment_type: payload.installment_type.to_string(),
        event_type: payload.event_type.to_string(),
    };
    match store.product_orders.insert(fact) {
        Ok(()) => Ok(()),
        Err(_) => Err(ReconciliationError::DuplicateKey),
    }
}

/// Records an authorization and merges its order and payment into the
/// relations, both or neither. Gives the step that the merge took.
pub fn save_payment_authorized(store: &mut Store, payload: &PaymentAuthorizedPayload) -> (r:
    Result<MergeStep, ReconciliationError>)
    requires
        old(store).wf(),
    ensures
        final(store).wf(),
        match saved_payment_authorization(old(store)@, payload@) {
            Ok(s) => r is Ok && merge_step(old(store)@.relations, authorized_pair(payload@)) == Ok::<
                MergeStepView,
                StorageError,
            >(r->Ok_0@) && final(store)@ == s,
            Err(e) => r == Err::<MergeStep, ReconciliationError>(e) && final(store)@ == old(
                store,
            )@,
        },
{
    let fact = PaymentAuthorizationFact {
        order_id: payload.order_id.clone(),
        payment_id: payload.payment_id.clone(),
        amount: payload.amount,
        occurred_on: payload.occurred_on.to_text(),
    };
    if store.payment_authorizations.has_key_of(&fact) {
        return Err(ReconciliationError::DuplicateKey);
    }
    let ids = IdPair::OrderPayment {
        order_id: payload.order_id.clone(),
        payment_id: payload.payment_id.clone(),
    };
    match store.relations.plan(&ids) {
        Ok(step) => match store.payment_authorizations.insert(fact) {
            Ok(()) => {
                store.relations.apply(step, ids);
                Ok(step)
            },
            Err(_) => Err(ReconciliationError::DuplicateKey),
        },
        Err(e) => Err(ReconciliationError::StorageError(e)),
    }
}

/// Records a collection and merges its transaction and payment into the
/// relations, both or neither. Gives the step that the merge took.
pub fn save_payment_collected(store: &mut Store, payload: &PaymentCollectedPayload) -> (r: Result<
    MergeStep,
    ReconciliationError,
>)
    requires
        old(store).wf(),
    ensures
        final(store).wf(),
        match saved_payment_collection(old(store)@, payload@) {
            Ok(s) => r is Ok && merge_step(old(store)@.relations, collected_pair(payload@)) == Ok::<
                MergeStepView,
                StorageError,
            >(r->Ok_0@) && final(store)@ == s,
            Err(e) => r == Err::<MergeStep, ReconciliationError>(e) && final(store)@ == old(
                store,
            )@,
        },
{
    let fact = PaymentCollectionFact {
        transaction_id: payload.transaction_id.clone(),
        payment_id: payload.payment_id.clone(),
        amount: payload.amount,
        occurred_on: payload.occurred_on.to_text(),
    };
    if store.payment_collections.has_key_of(&fact) {
        return Err(ReconciliationError::DuplicateKey);
    }
    let ids = IdPair::TransactionPayment {
        transaction_id: payload.transaction_id.clone(),
        payment_id: payload.payment_id.clone(),
    };
    match store.relations.plan(&ids) {
        Ok(step) => match store.payment_collections.insert(fact) {
            Ok(()) => {
                store.relations.apply(step, ids);
                Ok(step)
            },
            Err(_) => Err(ReconciliationError::DuplicateKey),
        },
        Err(e) => Err(ReconciliationError::StorageError(e)),
    }
}

fn reconciliate_by(store: &mut Store, field: RelationField, id: &String) -> (r: Result<
    (),
    ReconciliationError,
>)
    requires
        old(store).wf(),
    ensures
        final(store).wf(),
        match reconciled_by(old(store)@, field, id@) {
            Ok(s) => r is Ok && final(store)@ == s,
            Err(e) => r == Err::<(), ReconciliationError>(ReconciliationError::StorageError(e))
                && final(store)@ == old(store)@,
        },
{
    let relation = match store.relations.find_by_partial_key(field, id) {
        Some(record) => record.clone(),
        None => {
            return Ok(());
        },
    };
    do_reconcile(store, &relation)
}

/// Makes the aggregate update for the relation of a bank transaction, if that
/// relation is complete.
pub fn reconciliate_bank_transaction_issued(
    store: &mut Store,
    payload: &BankTransactionIssuedPayload,
) -> (r: Result<(), ReconciliationError>)
    requires
        old(store).wf(),
    ensures
        final(store).wf(),
        match reconciled_by(old(store)@, RelationField::TransactionId, payload@.transaction_id) {
            Ok(s) => r is Ok && final(store)@ == s,
            Err(e) => r == Err::<(), ReconciliationError>(ReconciliationError::StorageError(e))
                && final(store)@ == old(store)@,
        },
{
    reconciliate_by(store, RelationField::TransactionId, &payload.transaction_id)
}

/// Makes the aggregate update for the relation of an order, if that relation
/// is complete.
pub fn reconciliate_product_ordered(store: &mut Store, payload: &ProductOrderedPayload) -> (r:
    Result<(), ReconciliationError>)
    requires
        old(store).wf(),
    ensures
        final(store).wf(),
        match reconciled_by(old(store)@, RelationField::OrderId, payload@.order_id) {
            Ok(s) => r is Ok && final(store)@ == s,
            Err(e) => r == Err::<(), ReconciliationError>(ReconciliationError::StorageError(e))
                && final(store)@ == old(store)@,
        },
{
    reconciliate_by(store, RelationField::OrderId, &payload.order_id)
}

/// Makes the aggregate update for the relation of an authorized payment's
/// order, if that relation is complete.
pub fn reconciliate_payment_authorized(store: &mut Store, payload: &PaymentAuthorizedPayload) -> (r:
    Result<(), ReconciliationError>)
    requires
        old(store).wf(),
    ensures
        final(store).wf(),
        match reconciled_by(old(store)@, RelationField::OrderId, payload@.order_id) {
            Ok(s) => r is Ok && final(store)@ == s,
            Err(e) => r == Err::<(), ReconciliationError>(ReconciliationError::StorageError(e))
                && final(store)@ == old(store)@,
        },
{
    reconciliate_by(store, RelationField::OrderId, &payload.order_id)
}

/// Makes the aggregate update for the relation of a collected payment's
/// transaction, if that relation is complete.
pub fn reconciliate_payment_collected(store: &mut Store, payload: &PaymentCollectedPayload) -> (r:
    Result<(), ReconciliationError>)
    requires
        old(store).wf(),
    ensures
        final(store).wf(),
        match reconciled_by(old(store)@, RelationField::TransactionId, payload@.transaction_id) {
            Ok(s) => r is Ok && final(store)@ == s,
            Err(e) => r == Err::<(), ReconciliationError>(ReconciliationError::StorageError(e))
                && final(store)@ == old(store)@,
        },
{
    reconciliate_by(store, RelationField::TransactionId, &payload.transaction_id)
}

/// The reconciliation engine. It keeps no state of its own: all of it is in
/// the store that it is handed.
#[derive(Clone, Copy, Debug)]
pub struct ReconciliationEngine {}

impl ReconciliationEngine {
    /// An engine. All engines are alike.
    pub fn new() -> (r: Self) {
        ReconciliationEngine {  }
    }

    /// Takes one event: records its fact, merges its identifiers, and makes the
    /// aggregate update if the relation is complete. All of it happens or, on
    /// a failure, none of it.
    pub fn reconcile(&self, store: &mut Store, event: Event) -> (r: Result<
        (),
        ReconciliationError,
    >)
        requires
            old(store).wf(),
        ensures
            final(store).wf(),
            match reconciliation(old(store)@, event@) {
                Ok(s) => r is Ok && final(store)@ == s,
                Err(e) => r == Err::<(), ReconciliationError>(e) && final(store)@ == old(store)@,
            },
    {
        match event {
            Event::BankTransactionIssued(payload) => {
                match save_bank_transaction_issued(store, &payload) {
                    Ok(()) => {},
                    Err(e) => {
                        return Err(e);
                    },
                }
                match reconciliate_bank_transaction_issued(store, &payload) {
                    Ok(()) => Ok(()),
                    Err(e) => {
                        store.bank_transactions.discard(&payload.transaction_id);
                        assert(store.bank_transactions@ =~= old(store).bank_transactions@);
                        Err(e)
                    },
                }
            },
            Event::ProductOrdered(payload) => {
                match save_product_ordered(store, &payload) {
                    Ok(()) => {},
                    Err(e) => {
                        return Err(e);
                    },
                }
                match reconciliate_product_ordered(store, &payload) {
                    Ok(()) => Ok(()),
                    Err(e) => {
                        store.product_orders.discard(&payload.order_id);
                        assert(store.product_orders@ =~= old(store).product_orders@);
                        Err(e)
                    },
                }
            },
            Event::PaymentAuthorized(payload) => {
                let step = match save_payment_authorized(store, &payload) {
                    Ok(step) => step,
                    Err(e) => {
                        return Err(e);
                    },
                };
                match reconciliate_payment_authorized(store, &payload) {
                    Ok(()) => Ok(()),
                    Err(e) => {
                        proof {
                            lemma_revert_restores(
                                old(store)@.relations,
                                authorized_pair(payload@),
                            );
                        }
                        store.relations.revert(step);
                        let id = (payload.order_id.clone(), payload.payment_id.clone());
                        store.payment_authorizations.discard(&id);
                        assert(store.payment_authorizations@ =~= old(
                            store,
                        ).payment_authorizations@);
                        Err(e)
                    },
                }
            },
            Event::PaymentCollected(payload) => {
                let step = match save_payment_collected(store, &payload) {
                    Ok(step) => step,
                    Err(e) => {
                        return Err(e);
                    },
                };
                match reconciliate_payment_collected(store, &payload) {
                    Ok(()) => Ok(()),
                    Err(e) => {
                        proof {
                            lemma_revert_restores(old(store)@.relations, collected_pair(payload@));
                        }
                        store.relations.revert(step);
                        let id = (payload.transaction_id.clone(), payload.payment_id.clone());
                        store.payment_collections.discard(&id);
                        assert(store.payment_collections@ =~= old(store).payment_collections@);
                        Err(e)
                    },
                }
            },
        }
    }
}

} // verus!
