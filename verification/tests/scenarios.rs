use std::str::FromStr;

use spike_costacando::event_handler::{EventError, EventHandler};
use spike_costacando::events::{
    BankTransactionIssuedPayload, Event, EventType, InstallmentType, PaymentAuthorizedPayload,
    PaymentCollectedPayload, ProductOrderedPayload,
};
use spike_costacando::store::Store;
use spike_costacando::timestamp::Timestamp;

fn at(text: &str) -> Timestamp {
    let instant: chrono::DateTime<chrono::Utc> = chrono::DateTime::from_str(text).unwrap();
    Timestamp::from_parts(instant.timestamp(), instant.timestamp_subsec_nanos()).unwrap()
}

fn ordered(order_id: &str, amount: u64, event_type: EventType, code: &str) -> Event {
    Event::ProductOrdered(ProductOrderedPayload {
        amount,
        order_id: order_id.to_owned(),
        guarantees: vec![],
        occurred_on: at("2023-02-20T10:00:00.000Z"),
        event_type,
        installment_type: match event_type {
            EventType::Issuance => InstallmentType::Yearly,
            _ => InstallmentType::BiYearly,
        },
        insurance_code: code.to_owned(),
    })
}

fn authorized(order_id: &str, payment_id: &str, amount: u64) -> Event {
    Event::PaymentAuthorized(PaymentAuthorizedPayload {
        amount,
        order_id: order_id.to_owned(),
        payment_id: payment_id.to_owned(),
        occurred_on: at("2023-02-20T10:00:01.000Z"),
    })
}

fn collected(payment_id: &str, transaction_id: &str, amount: u64) -> Event {
    Event::PaymentCollected(PaymentCollectedPayload {
        amount,
        payment_id: payment_id.to_owned(),
        transaction_id: transaction_id.to_owned(),
        occurred_on: at("2023-02-20T10:00:00.000Z"),
    })
}

fn issued(transaction_id: &str, amount: u64) -> Event {
    Event::BankTransactionIssued(BankTransactionIssuedPayload {
        amount,
        transaction_id: transaction_id.to_owned(),
        occurred_on: at("2023-02-20T10:00:01.000Z"),
    })
}

fn accept_all(store: &mut Store, events: Vec<Event>) -> Result<Vec<()>, EventError> {
    let event_handler = EventHandler::new();
    events.into_iter().map(|e| event_handler.accept(store, e)).collect::<Result<Vec<_>, _>>()
}

/// The orders with an event type that are fully collected, or not: how many, and
/// the sum of their amounts.
fn orders_where(store: &Store, event_type: &str, reconciled: bool) -> (usize, u64) {
    let mut count = 0;
    let mut sum = 0;
    for order in store.product_orders.rows() {
        if order.event_type == event_type && (order.collected_amount == order.amount) == reconciled
        {
            count += 1;
            sum += order.amount;
        }
    }
    (count, sum)
}

fn orders_reconciled(store: &Store, reconciled: bool) -> usize {
    store
        .product_orders
        .rows()
        .iter()
        .filter(|order| (order.collected_amount == order.amount) == reconciled)
        .count()
}

fn transactions_reconciled(store: &Store, reconciled: bool) -> usize {
    store
        .bank_transactions
        .rows()
        .iter()
        .filter(|bank| (bank.ordered_amount == bank.amount) == reconciled)
        .count()
}

#[test]
fn happy_path_reconciliation_engine() {
    let mut store = Store::new();
    let events = vec![
        Event::ProductOrdered(ProductOrderedPayload {
            amount: 100,
            order_id: "ord_1".to_owned(),
            guarantees: vec![],
            occurred_on: at("2023-02-20T10:00:00.000Z"),
            event_type: EventType::Issuance,
            installment_type: InstallmentType::Yearly,
            insurance_code: "PRP123".to_string(),
        }),
        Event::PaymentAuthorized(PaymentAuthorizedPayload {
            amount: 100,
            order_id: "ord_1".to_owned(),
            payment_id: "pay_1".to_owned(),
            occurred_on: at("2023-02-20T10:00:01.000Z"),
        }),
        Event::PaymentCollected(PaymentCollectedPayload {
            amount: 100,
            payment_id: "pay_1".to_owned(),
            transaction_id: "tran_1".to_owned(),
            occurred_on: at("2023-02-20T10:00:00.000Z"),
        }),
        Event::BankTransactionIssued(BankTransactionIssuedPayload {
            amount: 100,
            transaction_id: "tran_1".to_owned(),
            occurred_on: at("2023-02-20T10:00:01.000Z"),
        }),
    ];

    let handler_result = accept_all(&mut store, events);
    assert!(handler_result.is_ok());

    assert_eq!(
        store.total_ordered.total(),
        100,
        "expecting the sum of all ordered events to be 100"
    );
    assert_eq!(
        store.total_authorized.total(),
        100,
        "expecting the sum of all authorized events to be 100"
    );
    assert_eq!(
        store.total_collected.total(),
        100,
        "expecting the sum of all collected events to be 100"
    );

    assert_eq!(orders_reconciled(&store, false), 0);
    assert_eq!(transactions_reconciled(&store, false), 0);
    assert_eq!(orders_reconciled(&store, true), 1);
    assert_eq!(transactions_reconciled(&store, true), 1);

    let bank = store.bank_transactions.get(&"tran_1".to_string()).unwrap();
    assert_eq!(bank.ordered_amount, 100);
    let order = store.product_orders.get(&"ord_1".to_string()).unwrap();
    assert_eq!(order.collected_amount, 100);
}

#[test]
fn events_type_not_reconciled() {
    let mut store = Store::new();
    let events = vec![
        Event::ProductOrdered(ProductOrderedPayload {
            amount: 100,
            order_id: "ord_1".to_owned(),
            guarantees: vec![],
            occurred_on: at("2023-02-20T10:00:00.000Z"),
            event_type: EventType::Issuance,
            installment_type: InstallmentType::Yearly,
            insurance_code: "PRP1".to_owned(),
        }),
        Event::ProductOrdered(ProductOrderedPayload {
            amount: 200,
            order_id: "ord_2".to_owned(),
            guarantees: vec![],
            occurred_on: at("2023-02-20T10:00:00.000Z"),
            event_type: EventType::Interruption,
            installment_type: InstallmentType::BiYearly,
            insurance_code: "PRP2".to_owned(),
        }),
        Event::ProductOrdered(ProductOrderedPayload {
            amount: 300,
            order_id: "ord_3".to_owned(),
            guarantees: vec![],
            occurred_on: at("2023-02-20T10:00:00.000Z"),
            event_type: EventType::Interruption,
            installment_type: InstallmentType::BiYearly,
            insurance_code: "PRP3".to_owned(),
        }),
    ];

    let handler_result = accept_all(&mut store, events);
    assert!(handler_result.is_ok());

    assert_eq!(orders_where(&store, "issuance", false), (1, 100));
    assert_eq!(orders_where(&store, "interruption", false), (2, 500));

    let first_interruption = store
        .product_orders
        .rows()
        .iter()
        .find(|order| order.event_type == "interruption" && order.collected_amount != order.amount)
        .unwrap();
    assert_eq!(first_interruption.insurance_code, "PRP2".to_string());

    for id in ["ord_1", "ord_2", "ord_3"] {
        assert_eq!(store.product_orders.get(&id.to_string()).unwrap().collected_amount, 0);
    }
    assert_eq!(store.relations.len(), 0);
    assert_eq!(store.total_ordered.total(), 600);
    assert_eq!(store.total_ordered.len(), 3);
}

fn permutations(n: usize) -> Vec<Vec<usize>> {
    if n == 0 {
        return vec![vec![]];
    }
    let mut all = vec![];
    for shorter in permutations(n - 1) {
        for at in 0..n {
            let mut longer = shorter.clone();
            longer.insert(at, n - 1);
            all.push(longer);
        }
    }
    all
}

fn flow_event(kind: usize) -> Event {
    match kind {
        0 => ordered("ord_7", 250, EventType::Issuance, "PRP7"),
        1 => authorized("ord_7", "pay_7", 240),
        2 => collected("pay_7", "tran_7", 230),
        _ => issued("tran_7", 220),
    }
}

#[test]
fn every_order_of_the_four_events_gives_the_same_amounts() {
    let orders = permutations(4);
    assert_eq!(orders.len(), 24);
    for order in orders {
        let mut store = Store::new();
        for (step, kind) in order.iter().enumerate() {
            let bank = store.bank_transactions.get(&"tran_7".to_string());
            assert!(bank.map_or(true, |b| b.ordered_amount == 0), "{:?} step {}", order, step);
            let product = store.product_orders.get(&"ord_7".to_string());
            assert!(product.map_or(true, |p| p.collected_amount == 0), "{:?} step {}", order, step);
            assert!(EventHandler::new().accept(&mut store, flow_event(*kind)).is_ok());
        }
        let bank = store.bank_transactions.get(&"tran_7".to_string()).unwrap();
        let product = store.product_orders.get(&"ord_7".to_string()).unwrap();
        let collection =
            store.payment_collections.get(&("tran_7".to_string(), "pay_7".to_string())).unwrap();
        assert_eq!(bank.ordered_amount, 250, "{:?}", order);
        assert_eq!(bank.ordered_amount, product.amount, "{:?}", order);
        assert_eq!(product.collected_amount, 230, "{:?}", order);
        assert_eq!(product.collected_amount, collection.amount, "{:?}", order);
        assert_eq!(bank.amount, 220);
        assert_eq!(store.relations.len(), 1);
        let relation = store.relations.record(0).unwrap();
        assert_eq!(relation.id, 0);
        assert_eq!(relation.transaction_id, Some("tran_7".to_string()));
        assert_eq!(relation.order_id, Some("ord_7".to_string()));
        assert_eq!(relation.payment_id, Some("pay_7".to_string()));
        assert_eq!(store.total_ordered.total(), 250);
        assert_eq!(store.total_authorized.total(), 240);
        assert_eq!(store.total_collected.total(), 220);
    }
}

#[test]
fn an_event_delivered_again_is_a_duplicate_key() {
    let mut store = Store::new();
    let handler = EventHandler::new();
    for kind in 0..4 {
        assert!(handler.accept(&mut store, flow_event(kind)).is_ok());
    }
    for kind in 0..4 {
        let outcome = handler.accept(&mut store, flow_event(kind));
        match outcome {
            Err(EventError::Reconciliation(message)) => assert_eq!(message, "duplicate key"),
            other => panic!("expected a duplicate key, got {:?}", other),
        }
        let bank = store.bank_transactions.get(&"tran_7".to_string()).unwrap();
        let product = store.product_orders.get(&"ord_7".to_string()).unwrap();
        assert_eq!(bank.ordered_amount, 250);
        assert_eq!(product.collected_amount, 230);
        assert_eq!(store.bank_transactions.rows().len(), 1);
        assert_eq!(store.product_orders.rows().len(), 1);
        assert_eq!(store.payment_authorizations.rows().len(), 1);
        assert_eq!(store.payment_collections.rows().len(), 1);
        assert_eq!(store.relations.len(), 1);
    }
    // The ledgers are append-only and stand before the engine: each took its
    // event a second time.
    assert_eq!(store.total_ordered.total(), 500);
    assert_eq!(store.total_authorized.total(), 480);
    assert_eq!(store.total_collected.total(), 440);
}

#[test]
fn a_duplicate_with_another_amount_changes_nothing() {
    let mut store = Store::new();
    let handler = EventHandler::new();
    assert!(handler.accept(&mut store, issued("tran_1", 100)).is_ok());
    let outcome = handler.accept(&mut store, issued("tran_1", 999));
    assert!(matches!(outcome, Err(EventError::Reconciliation(_))));
    let bank = store.bank_transactions.get(&"tran_1".to_string()).unwrap();
    assert_eq!(bank.amount, 100);
    assert_eq!(bank.ordered_amount, 0);
    assert_eq!(bank.occurred_on, "2023-02-20 10:00:01 UTC");
}

#[test]
fn two_of_the_four_events_make_no_aggregate_update() {
    for first in 0..4 {
        for second in 0..4 {
            if first == second {
                continue;
            }
            let mut store = Store::new();
            let handler = EventHandler::new();
            assert!(handler.accept(&mut store, flow_event(first)).is_ok());
            assert!(handler.accept(&mut store, flow_event(second)).is_ok());
            if let Some(bank) = store.bank_transactions.get(&"tran_7".to_string()) {
                assert_eq!(bank.ordered_amount, 0);
            }
            if let Some(product) = store.product_orders.get(&"ord_7".to_string()) {
                assert_eq!(product.collected_amount, 0);
            }
            let names_payment = |kind: usize| kind == 1 || kind == 2;
            if names_payment(first) != names_payment(second) {
                assert_eq!(store.relations.len(), 1);
                let relation = store.relations.record(0).unwrap();
                let nulls = [&relation.transaction_id, &relation.order_id, &relation.payment_id]
                    .iter()
                    .filter(|id| id.is_none())
                    .count();
                assert_eq!(nulls, 1);
                assert!(!relation.is_complete());
            } else if names_payment(first) {
                assert_eq!(store.relations.len(), 1);
                assert!(store.relations.record(0).unwrap().is_complete());
            } else {
                assert_eq!(store.relations.len(), 0);
            }
        }
    }
}

#[test]
fn three_of_the_four_events_make_no_aggregate_update() {
    for left_out in 0..4 {
        let mut store = Store::new();
        let handler = EventHandler::new();
        for kind in (0..4).filter(|kind| *kind != left_out) {
            assert!(handler.accept(&mut store, flow_event(kind)).is_ok());
        }
        if let Some(bank) = store.bank_transactions.get(&"tran_7".to_string()) {
            assert_eq!(bank.ordered_amount, 0);
        }
        if let Some(product) = store.product_orders.get(&"ord_7".to_string()) {
            assert_eq!(product.collected_amount, 0);
        }
    }
}

#[test]
fn a_full_ledger_stops_the_event_before_the_engine() {
    let mut store = Store::new();
    let handler = EventHandler::new();
    assert!(handler.accept(&mut store, issued("tran_1", u64::MAX)).is_ok());
    assert_eq!(store.total_collected.total(), u64::MAX);
    let outcome = handler.accept(&mut store, issued("tran_2", 1));
    match &outcome {
        Err(EventError::Projection(message)) => assert_eq!(message, "amount out of range"),
        other => panic!("expected a projection failure, got {:?}", other),
    }
    assert_eq!(outcome.unwrap_err().to_string(), "Projection Error: amount out of range");
    assert!(store.bank_transactions.get(&"tran_2".to_string()).is_none());
    assert_eq!(store.bank_transactions.rows().len(), 1);
    assert_eq!(store.total_collected.len(), 1);
    assert_eq!(store.total_collected.total(), u64::MAX);
    // An amount of zero still fits.
    assert!(handler.accept(&mut store, issued("tran_3", 0)).is_ok());
    assert_eq!(store.total_collected.len(), 2);
}

#[test]
fn each_ledger_takes_one_kind_of_event() {
    let mut store = Store::new();
    let handler = EventHandler::new();
    assert!(handler.accept(&mut store, collected("pay_1", "tran_1", 70)).is_ok());
    assert_eq!(store.total_ordered.len(), 0);
    assert_eq!(store.total_authorized.len(), 0);
    assert_eq!(store.total_collected.len(), 0);
    assert!(handler.accept(&mut store, issued("tran_1", 80)).is_ok());
    assert_eq!(store.total_collected.len(), 1);
    let row = store.total_collected.entry(0).unwrap();
    assert_eq!(row.amount, 80);
    assert_eq!(row.occurred_on, "2023-02-20 10:00:01 UTC");
    assert!(store.total_collected.entry(1).is_none());
    assert!(handler.accept(&mut store, authorized("ord_1", "pay_1", 90)).is_ok());
    assert_eq!(store.total_authorized.total(), 90);
    assert!(handler.accept(&mut store, ordered("ord_1", 60, EventType::Cancellation, "X")).is_ok());
    assert_eq!(store.total_ordered.total(), 60);
    assert_eq!(store.total_collected.total(), 80);
}

#[test]
fn a_conflict_in_the_relations_is_reported_by_the_engine_and_rolls_back() {
    let mut store = Store::new();
    let handler = EventHandler::new();
    assert!(handler.accept(&mut store, authorized("ord_1", "pay_1", 10)).is_ok());
    let outcome = handler.accept(&mut store, authorized("ord_1", "pay_2", 10));
    match &outcome {
        Err(EventError::Reconciliation(message)) => {
            assert_eq!(message, "identifier is already correlated")
        },
        other => panic!("expected a conflict, got {:?}", other),
    }
    assert_eq!(
        outcome.unwrap_err().to_string(),
        "Reconciliation Engine Error: identifier is already correlated"
    );
    assert_eq!(store.payment_authorizations.rows().len(), 1);
    assert!(store
        .payment_authorizations
        .get(&("ord_1".to_string(), "pay_2".to_string()))
        .is_none());
    assert_eq!(store.relations.len(), 1);
    assert_eq!(store.relations.record(0).unwrap().payment_id, Some("pay_1".to_string()));
}

#[test]
fn two_flows_whose_events_interleave_settle_apart() {
    let mut store = Store::new();
    let handler = EventHandler::new();
    let events = vec![
        collected("pay_a", "tran_a", 11),
        issued("tran_b", 22),
        ordered("ord_a", 33, EventType::Issuance, "A"),
        authorized("ord_b", "pay_b", 44),
        issued("tran_a", 55),
        ordered("ord_b", 66, EventType::Interruption, "B"),
        collected("pay_b", "tran_b", 77),
        authorized("ord_a", "pay_a", 88),
    ];
    for event in events {
        assert!(handler.accept(&mut store, event).is_ok());
    }
    let bank_a = store.bank_transactions.get(&"tran_a".to_string()).unwrap();
    let bank_b = store.bank_transactions.get(&"tran_b".to_string()).unwrap();
    let order_a = store.product_orders.get(&"ord_a".to_string()).unwrap();
    let order_b = store.product_orders.get(&"ord_b".to_string()).unwrap();
    assert_eq!((bank_a.ordered_amount, order_a.collected_amount), (33, 11));
    assert_eq!((bank_b.ordered_amount, order_b.collected_amount), (66, 77));
    assert_eq!(store.relations.len(), 2);
    assert!(store.relations.record(0).unwrap().is_complete());
    assert!(store.relations.record(1).unwrap().is_complete());
    assert_eq!(store.total_ordered.total(), 99);
    assert_eq!(store.total_authorized.total(), 132);
    assert_eq!(store.total_collected.total(), 77);
}

#[test]
fn a_payment_collected_through_two_transactions_is_a_conflict() {
    let mut store = Store::new();
    let handler = EventHandler::new();
    assert!(handler.accept(&mut store, collected("pay_1", "tran_1", 10)).is_ok());
    let outcome = handler.accept(&mut store, collected("pay_1", "tran_2", 10));
    assert!(matches!(outcome, Err(EventError::Reconciliation(_))));
    assert_eq!(store.payment_collections.rows().len(), 1);
    assert_eq!(store.relations.len(), 1);
    assert_eq!(store.relations.record(0).unwrap().transaction_id, Some("tran_1".to_string()));
}

#[test]
fn the_events_of_a_tagged_flow_share_their_identifiers() {
    let events = spike_costacando::flow::correlated_events(
        &"42".to_string(),
        100,
        at("2023-02-20T10:00:00.000Z"),
    );
    assert_eq!(events.len(), 4);
    match &events[0] {
        Event::BankTransactionIssued(p) => {
            assert_eq!(p.transaction_id, "t_42");
            assert_eq!(p.amount, 100);
        },
        other => panic!("expected the bank transaction first, got {:?}", other),
    }
    match &events[1] {
        Event::PaymentAuthorized(p) => {
            assert_eq!(p.order_id, "o_42");
            assert_eq!(p.payment_id, "p_42");
            assert_eq!(p.amount, 100);
        },
        other => panic!("expected the authorization second, got {:?}", other),
    }
    match &events[2] {
        Event::PaymentCollected(p) => {
            assert_eq!(p.payment_id, "p_42");
            assert_eq!(p.transaction_id, "t_42");
            assert_eq!(p.amount, 100);
        },
        other => panic!("expected the collection third, got {:?}", other),
    }
    match &events[3] {
        Event::ProductOrdered(p) => {
            assert_eq!(p.order_id, "o_42");
            assert_eq!(p.amount, 100);
            assert_eq!(p.event_type, EventType::Issuance);
            assert_eq!(p.installment_type, InstallmentType::Monthly);
            assert!(p.guarantees.is_empty());
            assert_eq!(p.insurance_code, "PRP42");
            assert_eq!(p.occurred_on.to_text(), "2023-02-20 10:00:00 UTC");
        },
        other => panic!("expected the order last, got {:?}", other),
    }

    let mut store = Store::new();
    assert!(accept_all(&mut store, events).is_ok());
    let bank = store.bank_transactions.get(&"t_42".to_string()).unwrap();
    let order = store.product_orders.get(&"o_42".to_string()).unwrap();
    assert_eq!((bank.ordered_amount, order.collected_amount), (100, 100));
    assert!(store.relations.record(0).unwrap().is_complete());
}
