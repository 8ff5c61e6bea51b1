use spike_costacando::correlation_store::CorrelationStore;
use spike_costacando::errors::{ReconciliationError, StorageError};
use spike_costacando::event_handler::EventError;
use spike_costacando::events::{
    BankTransactionIssuedPayload, Event, EventType, InstallmentType, PaymentCollectedPayload,
    ProductOrderedPayload,
};
use spike_costacando::facts::{BankTransactionFact, PaymentCollectionFact, ProductOrderFact};
use spike_costacando::ledger::Ledger;
use spike_costacando::projectors::total_authorized_projector::TotalAuthorizedProjector;
use spike_costacando::projectors::total_collected_projector::TotalCollectedProjector;
use spike_costacando::projectors::total_ordered_projector::TotalOrderedProjector;
use spike_costacando::projectors::{AnyProjector, Projector};
use spike_costacando::reconciliation_engine::{
    do_reconcile, reconciliate_bank_transaction_issued, save_bank_transaction_issued,
    save_payment_collected, save_product_ordered, ReconciliationEngine,
};
use spike_costacando::relations::{IdPair, MergeStep, RelationField, RelationRecord};
use spike_costacando::store::Store;
use spike_costacando::table::Table;
use spike_costacando::timestamp::Timestamp;

fn epoch_plus(secs: i64) -> Timestamp {
    Timestamp::from_parts(secs, 0).unwrap()
}

fn text(s: &str) -> String {
    s.to_string()
}

fn order_payment(order_id: &str, payment_id: &str) -> IdPair {
    IdPair::OrderPayment { order_id: text(order_id), payment_id: text(payment_id) }
}

fn transaction_payment(transaction_id: &str, payment_id: &str) -> IdPair {
    IdPair::TransactionPayment {
        transaction_id: text(transaction_id),
        payment_id: text(payment_id),
    }
}

fn bank_fact(id: &str, amount: u64) -> BankTransactionFact {
    BankTransactionFact {
        transaction_id: text(id),
        amount,
        ordered_amount: 0,
        occurred_on: text("2023-02-20 10:00:00 UTC"),
    }
}

fn order_fact(id: &str, amount: u64) -> ProductOrderFact {
    ProductOrderFact {
        order_id: text(id),
        amount,
        collected_amount: 0,
        occurred_on: text("2023-02-20 10:00:00 UTC"),
        insurance_code: text("PRP"),
        installment_type: text("monthly"),
        event_type: text("issuance"),
    }
}

fn collection_fact(transaction_id: &str, payment_id: &str, amount: u64) -> PaymentCollectionFact {
    PaymentCollectionFact {
        transaction_id: text(transaction_id),
        payment_id: text(payment_id),
        amount,
        occurred_on: text("2023-02-20 10:00:00 UTC"),
    }
}

fn complete_relation(t: &str, o: &str, p: &str) -> RelationRecord {
    RelationRecord {
        id: 0,
        transaction_id: Some(text(t)),
        order_id: Some(text(o)),
        payment_id: Some(text(p)),
    }
}

fn store_with_flow(bank: u64, order: u64, collection: u64) -> Store {
    let mut store = Store::new();
    assert!(store.bank_transactions.insert(bank_fact("t", bank)).is_ok());
    assert!(store.product_orders.insert(order_fact("o", order)).is_ok());
    assert!(store.payment_collections.insert(collection_fact("t", "p", collection)).is_ok());
    store
}

fn accumulators(store: &Store) -> (u64, u64) {
    (
        store.bank_transactions.get(&text("t")).unwrap().ordered_amount,
        store.product_orders.get(&text("o")).unwrap().collected_amount,
    )
}

#[test]
fn a_timestamp_is_rendered_as_chrono_shows_it() {
    let t = Timestamp::from_parts(1431648000, 0).unwrap();
    assert_eq!(t.to_text(), "2015-05-15 00:00:00 UTC");
    assert_eq!(t.secs(), 1431648000);
    assert_eq!(t.nanos(), 0);
    assert_eq!(epoch_plus(0).to_text(), "1970-01-01 00:00:00 UTC");
    let fraction = Timestamp::from_parts(1676887201, 250_000_000).unwrap();
    assert_eq!(fraction.to_text(), "2023-02-20 10:00:01.250 UTC");
    assert_eq!(fraction.nanos(), 250_000_000);
    assert_eq!(Timestamp::from_parts(-1, 0).unwrap().to_text(), "1969-12-31 23:59:59 UTC");
}

#[test]
fn a_timestamp_out_of_chronos_range_is_none() {
    assert!(Timestamp::from_parts(i64::MAX, 0).is_none());
    assert!(Timestamp::from_parts(i64::MIN, 0).is_none());
    assert!(Timestamp::from_parts(0, 2_000_000_000).is_none());
    // A leap second is written with a second's worth of extra nanoseconds,
    // and only in the last second of a minute.
    assert!(Timestamp::from_parts(59, 1_500_000_000).is_some());
    assert!(Timestamp::from_parts(58, 1_500_000_000).is_none());
}

#[test]
fn enum_values_are_rendered_as_they_are_stored() {
    assert_eq!(EventType::Issuance.to_string(), "issuance");
    assert_eq!(EventType::Cancellation.to_string(), "cancellation");
    assert_eq!(EventType::Interruption.to_string(), "interruption");
    assert_eq!(InstallmentType::Yearly.to_string(), "yearly");
    assert_eq!(InstallmentType::BiYearly.to_string(), "bi_yearly");
    assert_eq!(InstallmentType::Monthly.to_string(), "monthly");
}

#[test]
fn errors_are_rendered_in_words() {
    assert_eq!(StorageError::IdentifierConflict.to_string(), "identifier is already correlated");
    assert_eq!(StorageError::AmountOutOfRange.to_string(), "amount out of range");
    assert_eq!(ReconciliationError::DuplicateKey.to_string(), "duplicate key");
    assert_eq!(
        ReconciliationError::StorageError(StorageError::AmountOutOfRange).to_string(),
        "amount out of range"
    );
    assert_eq!(EventError::Projection(text("x")).to_string(), "Projection Error: x");
    assert_eq!(
        EventError::Reconciliation(text("duplicate key")).to_string(),
        "Reconciliation Engine Error: duplicate key"
    );
}

#[test]
fn a_ledger_adds_up_its_rows() {
    let mut ledger = Ledger::new();
    assert_eq!(ledger.total(), 0);
    assert_eq!(ledger.len(), 0);
    assert!(ledger.entry(0).is_none());
    assert_eq!(ledger.append(5, text("a")), Ok(()));
    assert_eq!(ledger.append(7, text("b")), Ok(()));
    assert_eq!(ledger.total(), 12);
    assert_eq!(ledger.len(), 2);
    assert_eq!(ledger.entry(1).unwrap().amount, 7);
    assert_eq!(ledger.entry(1).unwrap().occurred_on, "b");
    assert_eq!(ledger.append(u64::MAX - 12, text("c")), Ok(()));
    assert_eq!(ledger.total(), u64::MAX);
    assert_eq!(ledger.append(1, text("d")), Err(StorageError::AmountOutOfRange));
    assert_eq!(ledger.total(), u64::MAX);
    assert_eq!(ledger.len(), 3);
}

#[test]
fn a_table_finds_rows_by_key_and_refuses_a_second_row_with_a_key() {
    let mut table: Table<BankTransactionFact> = Table::new();
    assert_eq!(table.rows().len(), 0);
    assert!(table.get(&text("tran_1")).is_none());
    assert!(table.insert(bank_fact("tran_1", 10)).is_ok());
    assert!(table.insert(bank_fact("tran_2", 20)).is_ok());
    let back = table.insert(bank_fact("tran_1", 30)).unwrap_err();
    assert_eq!(back.amount, 30);
    assert_eq!(table.rows().len(), 2);
    assert_eq!(table.get(&text("tran_1")).unwrap().amount, 10);
    assert_eq!(table.get(&text("tran_2")).unwrap().amount, 20);
    assert!(table.has_key_of(&bank_fact("tran_2", 0)));
    assert!(!table.has_key_of(&bank_fact("tran_3", 0)));
    assert!(table.rows().iter().any(|row| row.transaction_id == "tran_2" && row.amount == 20));
}

#[test]
fn a_pair_key_needs_both_identifiers() {
    let mut table: Table<PaymentCollectionFact> = Table::new();
    assert!(table.insert(collection_fact("tran_1", "pay_1", 1)).is_ok());
    assert!(table.insert(collection_fact("tran_1", "pay_2", 2)).is_ok());
    assert!(table.insert(collection_fact("tran_2", "pay_1", 3)).is_ok());
    assert!(table.insert(collection_fact("tran_1", "pay_1", 4)).is_err());
    assert_eq!(table.get(&(text("tran_1"), text("pay_2"))).unwrap().amount, 2);
    assert_eq!(table.get(&(text("tran_2"), text("pay_1"))).unwrap().amount, 3);
    assert!(table.get(&(text("pay_1"), text("tran_1"))).is_none());
}

#[test]
fn a_merge_makes_a_record_and_a_second_merge_completes_it() {
    let mut relations = CorrelationStore::new();
    assert!(relations.find_by_partial_key(RelationField::OrderId, &text("ord_1")).is_none());
    assert_eq!(relations.plan(&order_payment("ord_1", "pay_1")), Ok(MergeStep::Insert));
    assert_eq!(relations.len(), 0);

    let first = relations.merge(order_payment("ord_1", "pay_1")).unwrap();
    assert_eq!(first.id, 0);
    assert_eq!(first.transaction_id, None);
    assert_eq!(first.order_id, Some(text("ord_1")));
    assert_eq!(first.payment_id, Some(text("pay_1")));
    assert!(!first.is_complete());

    assert_eq!(
        relations.plan(&transaction_payment("tran_1", "pay_1")),
        Ok(MergeStep::Fill { index: 0, field: RelationField::TransactionId })
    );
    let second = relations.merge(transaction_payment("tran_1", "pay_1")).unwrap();
    assert_eq!(second.id, 0);
    assert_eq!(second.transaction_id, Some(text("tran_1")));
    assert_eq!(second.order_id, Some(text("ord_1")));
    assert!(second.is_complete());
    assert_eq!(relations.len(), 1);

    let other = relations.merge(transaction_payment("tran_2", "pay_2")).unwrap();
    assert_eq!(other.id, 1);
    assert_eq!(other.order_id, None);
    assert_eq!(relations.len(), 2);

    for (field, id, at) in [
        (RelationField::TransactionId, "tran_1", 0),
        (RelationField::OrderId, "ord_1", 0),
        (RelationField::PaymentId, "pay_1", 0),
        (RelationField::TransactionId, "tran_2", 1),
        (RelationField::PaymentId, "pay_2", 1),
    ] {
        assert_eq!(relations.find_by_partial_key(field, &text(id)).unwrap().id, at);
    }
    assert!(relations.find_by_partial_key(RelationField::PaymentId, &text("tran_1")).is_none());
    assert!(relations.find_by_partial_key(RelationField::OrderId, &text("ord_2")).is_none());
    assert!(relations.record(2).is_none());
}

#[test]
fn a_second_payment_for_an_order_is_a_conflict() {
    let mut relations = CorrelationStore::new();
    assert!(relations.merge(order_payment("ord_1", "pay_1")).is_ok());
    let outcome = relations.merge(order_payment("ord_1", "pay_2"));
    assert_eq!(outcome.unwrap_err(), StorageError::IdentifierConflict);
    assert_eq!(relations.len(), 1);
    assert_eq!(relations.record(0).unwrap().payment_id, Some(text("pay_1")));
    assert!(relations.find_by_partial_key(RelationField::PaymentId, &text("pay_2")).is_none());

    // Nor can a payment that stands with one order go to another order, or the
    // same pair come twice.
    assert_eq!(
        relations.merge(order_payment("ord_2", "pay_1")).unwrap_err(),
        StorageError::IdentifierConflict
    );
    assert_eq!(
        relations.merge(order_payment("ord_1", "pay_1")).unwrap_err(),
        StorageError::IdentifierConflict
    );
    // A transaction that would complete a record must be new as well.
    assert!(relations.merge(transaction_payment("tran_1", "pay_9")).is_ok());
    assert_eq!(
        relations.merge(transaction_payment("tran_1", "pay_1")).unwrap_err(),
        StorageError::IdentifierConflict
    );
    assert_eq!(relations.len(), 2);
    assert_eq!(relations.record(0).unwrap().transaction_id, None);
}

#[test]
fn a_pair_of_transaction_and_order_is_merged_like_the_others() {
    let mut relations = CorrelationStore::new();
    let ids = IdPair::TransactionOrder { transaction_id: text("tran_1"), order_id: text("ord_1") };
    assert_eq!(ids.first_field(), RelationField::TransactionId);
    assert_eq!(ids.second_field(), RelationField::OrderId);
    assert_eq!(ids.missing_field(), RelationField::PaymentId);
    assert_eq!(ids.first(), "tran_1");
    assert_eq!(ids.second(), "ord_1");
    let record = relations.merge(ids).unwrap();
    assert_eq!(record.transaction_id, Some(text("tran_1")));
    assert_eq!(record.order_id, Some(text("ord_1")));
    assert_eq!(record.payment_id, None);
    assert_eq!(order_payment("o", "p").into_ids(), (text("o"), text("p")));
}

#[test]
fn the_aggregate_update_adds_both_amounts() {
    let mut store = store_with_flow(1000, 300, 200);
    let relation = complete_relation("t", "o", "p");
    assert_eq!(do_reconcile(&mut store, &relation), Ok(()));
    assert_eq!(accumulators(&store), (300, 200));
    assert_eq!(do_reconcile(&mut store, &relation), Ok(()));
    assert_eq!(accumulators(&store), (600, 400));
    assert_eq!(store.bank_transactions.get(&text("t")).unwrap().amount, 1000);
    assert_eq!(store.product_orders.get(&text("o")).unwrap().amount, 300);
    assert_eq!(store.product_orders.get(&text("o")).unwrap().event_type, "issuance");
}

#[test]
fn the_aggregate_update_waits_for_a_complete_relation_and_for_all_facts() {
    let mut store = store_with_flow(1000, 300, 200);
    let mut relation = complete_relation("t", "o", "p");
    relation.order_id = None;
    assert_eq!(do_reconcile(&mut store, &relation), Ok(()));
    assert_eq!(accumulators(&store), (0, 0));

    // The collection of another payment through the transaction does not count.
    assert_eq!(do_reconcile(&mut store, &complete_relation("t", "o", "q")), Ok(()));
    assert_eq!(accumulators(&store), (0, 0));
    // Nor does an order that is not recorded, or a transaction that is not.
    assert_eq!(do_reconcile(&mut store, &complete_relation("t", "x", "p")), Ok(()));
    assert_eq!(do_reconcile(&mut store, &complete_relation("x", "o", "p")), Ok(()));
    assert_eq!(accumulators(&store), (0, 0));
}

#[test]
fn an_aggregate_update_that_fails_changes_neither_accumulator() {
    // The first increment is the one that does not fit.
    let mut store = store_with_flow(10, u64::MAX, 5);
    let relation = complete_relation("t", "o", "p");
    assert_eq!(do_reconcile(&mut store, &relation), Ok(()));
    assert_eq!(accumulators(&store), (u64::MAX, 5));
    assert_eq!(
        do_reconcile(&mut store, &relation),
        Err(ReconciliationError::StorageError(StorageError::AmountOutOfRange))
    );
    assert_eq!(accumulators(&store), (u64::MAX, 5));

    // The second increment is the one that does not fit.
    let mut store = store_with_flow(10, 1, u64::MAX);
    assert_eq!(do_reconcile(&mut store, &relation), Ok(()));
    assert_eq!(accumulators(&store), (1, u64::MAX));
    assert_eq!(
        do_reconcile(&mut store, &relation),
        Err(ReconciliationError::StorageError(StorageError::AmountOutOfRange))
    );
    assert_eq!(accumulators(&store), (1, u64::MAX));
}

#[test]
fn an_event_whose_aggregate_update_fails_leaves_no_trace() {
    // The order is fully collected once; a second transaction for the same
    // payment cannot be, and a bank transaction whose relation is complete
    // makes the update that overflows.
    let mut store = store_with_flow(10, u64::MAX, 5);
    assert!(store.relations.merge(order_payment("o", "p")).is_ok());
    assert!(store.relations.merge(transaction_payment("t", "p")).is_ok());
    assert_eq!(do_reconcile(&mut store, &complete_relation("t", "o", "p")), Ok(()));
    assert_eq!(accumulators(&store), (u64::MAX, 5));

    let payload = BankTransactionIssuedPayload {
        transaction_id: text("t"),
        amount: 10,
        occurred_on: epoch_plus(0),
    };
    assert_eq!(
        reconciliate_bank_transaction_issued(&mut store, &payload),
        Err(ReconciliationError::StorageError(StorageError::AmountOutOfRange))
    );
    assert_eq!(accumulators(&store), (u64::MAX, 5));

    // Through the engine: the collection is recorded and merged, the update
    // fails, and fact and merge are taken back.
    let mut store = Store::new();
    assert!(store.bank_transactions.insert(bank_fact("t", 10)).is_ok());
    let mut order = order_fact("o", 7);
    order.collected_amount = u64::MAX;
    assert!(store.product_orders.insert(order).is_ok());
    assert!(store.relations.merge(order_payment("o", "p")).is_ok());
    let engine = ReconciliationEngine::new();
    let event = Event::PaymentCollected(PaymentCollectedPayload {
        payment_id: text("p"),
        transaction_id: text("t"),
        amount: 1,
        occurred_on: epoch_plus(0),
    });
    assert_eq!(
        engine.reconcile(&mut store, event),
        Err(ReconciliationError::StorageError(StorageError::AmountOutOfRange))
    );
    assert_eq!(store.payment_collections.rows().len(), 0);
    assert_eq!(store.relations.len(), 1);
    assert_eq!(store.relations.record(0).unwrap().transaction_id, None);
    assert_eq!(accumulators(&store), (0, u64::MAX));
}

#[test]
fn saving_records_the_fact_of_the_event() {
    let mut store = Store::new();
    let payload = BankTransactionIssuedPayload {
        transaction_id: text("tran_1"),
        amount: 42,
        occurred_on: epoch_plus(1431648000),
    };
    assert_eq!(save_bank_transaction_issued(&mut store, &payload), Ok(()));
    assert_eq!(
        save_bank_transaction_issued(&mut store, &payload),
        Err(ReconciliationError::DuplicateKey)
    );
    let fact = store.bank_transactions.get(&text("tran_1")).unwrap();
    assert_eq!(fact.amount, 42);
    assert_eq!(fact.ordered_amount, 0);
    assert_eq!(fact.occurred_on, "2015-05-15 00:00:00 UTC");

    let order = ProductOrderedPayload {
        order_id: text("ord_1"),
        amount: 9,
        event_type: EventType::Cancellation,
        installment_type: InstallmentType::BiYearly,
        guarantees: vec![],
        occurred_on: epoch_plus(0),
        insurance_code: text("PRP9"),
    };
    assert_eq!(save_product_ordered(&mut store, &order), Ok(()));
    assert_eq!(save_product_ordered(&mut store, &order), Err(ReconciliationError::DuplicateKey));
    let fact = store.product_orders.get(&text("ord_1")).unwrap();
    assert_eq!(fact.amount, 9);
    assert_eq!(fact.collected_amount, 0);
    assert_eq!(fact.event_type, "cancellation");
    assert_eq!(fact.installment_type, "bi_yearly");
    assert_eq!(fact.insurance_code, "PRP9");
    assert_eq!(fact.occurred_on, "1970-01-01 00:00:00 UTC");

    let collection = PaymentCollectedPayload {
        payment_id: text("pay_1"),
        transaction_id: text("tran_1"),
        amount: 3,
        occurred_on: epoch_plus(0),
    };
    assert_eq!(save_payment_collected(&mut store, &collection), Ok(MergeStep::Insert));
    assert_eq!(
        save_payment_collected(&mut store, &collection),
        Err(ReconciliationError::DuplicateKey)
    );
    let other = PaymentCollectedPayload { payment_id: text("pay_2"), ..collection.clone() };
    assert_eq!(
        save_payment_collected(&mut store, &other),
        Err(ReconciliationError::StorageError(StorageError::IdentifierConflict))
    );
    assert_eq!(store.payment_collections.rows().len(), 1);
    assert_eq!(store.relations.len(), 1);
}

#[test]
fn a_projector_ignores_events_of_other_kinds() {
    let mut store = Store::new();
    let event = Event::BankTransactionIssued(BankTransactionIssuedPayload {
        transaction_id: text("tran_1"),
        amount: 42,
        occurred_on: epoch_plus(0),
    });
    assert!(TotalOrderedProjector::new().project(&mut store, &event).is_ok());
    assert!(TotalAuthorizedProjector::new().project(&mut store, &event).is_ok());
    assert_eq!(store.total_ordered.len() + store.total_authorized.len(), 0);
    assert!(TotalCollectedProjector::new().project(&mut store, &event).is_ok());
    assert_eq!(store.total_collected.total(), 42);
    assert!(store.bank_transactions.get(&text("tran_1")).is_none());

    let big = Event::BankTransactionIssued(BankTransactionIssuedPayload {
        transaction_id: text("tran_2"),
        amount: u64::MAX,
        occurred_on: epoch_plus(0),
    });
    let failure = TotalCollectedProjector::new().project(&mut store, &big).unwrap_err();
    assert_eq!(failure.message, "amount out of range");
    assert_eq!(store.total_collected.total(), 42);
}

#[test]
fn a_copy_of_an_event_is_accepted_like_the_event() {
    let event = Event::ProductOrdered(ProductOrderedPayload {
        order_id: text("ord_1"),
        amount: 9,
        event_type: EventType::Issuance,
        installment_type: InstallmentType::Monthly,
        guarantees: vec![
            spike_costacando::events::Guarantee { guarantee_type: text("fire"), price: 4 },
            spike_costacando::events::Guarantee { guarantee_type: text("theft"), price: 5 },
        ],
        occurred_on: epoch_plus(0),
        insurance_code: text("PRP9"),
    });
    let copy = event.clone();
    match (&event, &copy) {
        (Event::ProductOrdered(a), Event::ProductOrdered(b)) => {
            assert_eq!(a.order_id, b.order_id);
            assert_eq!(a.amount, b.amount);
            assert_eq!(a.event_type, b.event_type);
            assert_eq!(a.installment_type, b.installment_type);
            assert_eq!(a.insurance_code, b.insurance_code);
            assert_eq!(a.guarantees.len(), 2);
            assert_eq!(b.guarantees.len(), 2);
            assert_eq!(b.guarantees[1].guarantee_type, "theft");
            assert_eq!(b.guarantees[1].price, 5);
            assert_eq!(a.occurred_on.secs(), b.occurred_on.secs());
        },
        _ => panic!("a copy is of the kind of the event"),
    }
    let engine = ReconciliationEngine::new();
    let mut store = Store::new();
    assert_eq!(engine.reconcile(&mut store, copy), Ok(()));
    assert_eq!(engine.reconcile(&mut store, event), Err(ReconciliationError::DuplicateKey));
}

#[test]
fn a_projector_in_a_list_is_the_projector_it_holds() {
    let event = Event::BankTransactionIssued(BankTransactionIssuedPayload {
        transaction_id: text("tran_1"),
        amount: 42,
        occurred_on: epoch_plus(0),
    });
    let list = [
        AnyProjector::TotalOrdered(TotalOrderedProjector::new()),
        AnyProjector::TotalAuthorized(TotalAuthorizedProjector::new()),
        AnyProjector::TotalCollected(TotalCollectedProjector::new()),
    ];
    let mut store = Store::new();
    assert!(list[0].project(&mut store, &event).is_ok());
    assert!(list[1].project(&mut store, &event).is_ok());
    assert_eq!(store.total_ordered.len() + store.total_authorized.len(), 0);
    assert_eq!(store.total_collected.len(), 0);
    assert!(list[2].project(&mut store, &event).is_ok());
    assert_eq!(store.total_collected.total(), 42);
    assert_eq!(store.total_ordered.len() + store.total_authorized.len(), 0);
}
