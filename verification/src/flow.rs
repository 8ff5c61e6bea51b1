//! One economic flow: a bank transaction, an order, and the payment that links
//! them, told by four events that may come in any order.

use crate::event_handler::acceptance;
use crate::events::{
    BankTransactionIssuedPayload, BankTransactionIssuedView, Event, EventType, EventView,
    GuaranteeView, InstallmentType, PaymentAuthorizedPayload, PaymentAuthorizedView,
    PaymentCollectedPayload, PaymentCollectedView, ProductOrderedPayload, ProductOrderedView,
};
use crate::facts::{BankTransactionFactView, ProductOrderFactView};
use crate::projectors::ledger_row;
use crate::reconciliation_engine::{
    authorized_pair, bank_transaction_fact, collected_pair, payment_authorization_fact,
    payment_collection_fact, product_order_fact,
};
use crate::relations::{
    grown, holder, lemma_holder_after_merge, lemma_holder_is, lemma_merge_grows,
    lemma_merge_keeps_unique, merge_step, unique_ids, well_formed, RelationField, RelationView,
};
use crate::store::StoreView;
use crate::timestamp::Timestamp;
use vstd::prelude::*;
use vstd::string::StringExecFns;

verus! {

/// The four events of one flow.
pub struct Flow {
    pub bank: BankTransactionIssuedView,
    pub order: ProductOrderedView,
    pub authorization: PaymentAuthorizedView,
    pub collection: PaymentCollectedView,
}

/// Which of the four events of a flow have been accepted.
pub struct Delivered {
    pub bank: bool,
    pub order: bool,
    pub authorization: bool,
    pub collection: bool,
}

impl Delivered {
    /// Nothing of the flow has been accepted.
    pub open spec fn none() -> Delivered {
        Delivered { bank: false, order: false, authorization: false, collection: false }
    }

    /// All four events have been accepted.
    pub open spec fn all(self) -> bool {
        self.bank && self.order && self.authorization && self.collection
    }

    /// Whether an event of the kind of `event` has been accepted.
    pub open spec fn has(self, event: EventView) -> bool {
        match event {
            EventView::BankTransactionIssued(_) => self.bank,
            EventView::ProductOrdered(_) => self.order,
            EventView::PaymentAuthorized(_) => self.authorization,
            EventView::PaymentCollected(_) => self.collection,
        }
    }

    /// The same with the kind of `event` accepted too.
    pub open spec fn with(self, event: EventView) -> Delivered {
        match event {
            EventView::BankTransactionIssued(_) => Delivered { bank: true, ..self },
            EventView::ProductOrdered(_) => Delivered { order: true, ..self },
            EventView::PaymentAuthorized(_) => Delivered { authorization: true, ..self },
            EventView::PaymentCollected(_) => Delivered { collection: true, ..self },
        }
    }
}

impl Flow {
    /// The four events speak of one transaction, one order and one payment.
    pub open spec fn wf(self) -> bool {
        &&& self.authorization.order_id == self.order.order_id
        &&& self.collection.payment_id == self.authorization.payment_id
        &&& self.collection.transaction_id == self.bank.transaction_id
    }

    /// The transaction of the flow.
    pub open spec fn transaction_id(self) -> Seq<char> {
        self.bank.transaction_id
    }

    /// The order of the flow.
    pub open spec fn order_id(self) -> Seq<char> {
        self.order.order_id
    }

    /// The payment that links the order and the transaction.
    pub open spec fn payment_id(self) -> Seq<char> {
        self.authorization.payment_id
    }

    /// `event` is one of the four events of the flow.
    pub open spec fn has(self, event: EventView) -> bool {
        match event {
            EventView::BankTransactionIssued(p) => p == self.bank,
            EventView::ProductOrdered(p) => p == self.order,
            EventView::PaymentAuthorized(p) => p == self.authorization,
            EventView::PaymentCollected(p) => p == self.collection,
        }
    }

    /// The store has seen nothing of the flow: none of its facts is recorded
    /// and none of its identifiers stands in a relation record.
    pub open spec fn new_to(self, s: StoreView) -> bool {
        &&& !s.bank_transactions.dom().contains(self.transaction_id())
        &&& !s.product_orders.dom().contains(self.order_id())
        &&& !s.payment_authorizations.dom().contains((self.order_id(), self.payment_id()))
        &&& !s.payment_collections.dom().contains((self.transaction_id(), self.payment_id()))
        &&& holder(s.relations, RelationField::TransactionId, self.transaction_id()) is None
        &&& holder(s.relations, RelationField::OrderId, self.order_id()) is None
        &&& holder(s.relations, RelationField::PaymentId, self.payment_id()) is None
    }

    /// The relation record of the flow, as far as the accepted events tell it.
    pub open spec fn relation(self, id: nat, d: Delivered) -> RelationView {
        RelationView {
            id,
            transaction_id: if d.collection {
                Some(self.transaction_id())
            } else {
                None
            },
            order_id: if d.authorization {
                Some(self.order_id())
            } else {
                None
            },
            payment_id: Some(self.payment_id()),
        }
    }

    /// The store `s` with the events of the flow accepted that `d` names, in
    /// whatever order they came. The two accumulators of the flow stand at
    /// zero until all four events are in.
    pub open spec fn store_after(self, s: StoreView, d: Delivered) -> StoreView {
        StoreView {
            bank_transactions: if d.bank {
                s.bank_transactions.insert(
                    self.transaction_id(),
                    BankTransactionFactView {
                        ordered_amount: if d.all() {
                            self.order.amount
                        } else {
                            0
                        },
                        ..bank_transaction_fact(self.bank)
                    },
                )
            } else {
                s.bank_transactions
            },
            product_orders: if d.order {
                s.product_orders.insert(
                    self.order_id(),
                    ProductOrderFactView {
                        collected_amount: if d.all() {
                            self.collection.amount
                        } else {
                            0
                        },
                        ..product_order_fact(self.order)
                    },
                )
            } else {
                s.product_orders
            },
            payment_authorizations: if d.authorization {
                s.payment_authorizations.insert(
                    (self.order_id(), self.payment_id()),
                    payment_authorization_fact(self.authorization),
                )
            } else {
                s.payment_authorizations
            },
            payment_collections: if d.collection {
                s.payment_collections.insert(
                    (self.transaction_id(), self.payment_id()),
                    payment_collection_fact(self.collection),
                )
            } else {
                s.payment_collections
            },
            relations: if d.authorization || d.collection {
                s.relations.push(self.relation(s.relations.len(), d))
            } else {
                s.relations
            },
            total_ordered: if d.order {
                s.total_ordered.push(ledger_row(self.order.amount, self.order.occurred_on))
            } else {
                s.total_ordered
            },
            total_authorized: if d.authorization {
                s.total_authorized.push(
                    ledger_row(self.authorization.amount, self.authorization.occurred_on),
                )
            } else {
                s.total_authorized
            },
            total_collected: if d.bank {
                s.total_collected.push(ledger_row(self.bank.amount, self.bank.occurred_on))
            } else {
                s.total_collected
            },
        }
    }
}

/// The flow whose identifiers are made of a tag: transaction `t_` and the tag,
/// order `o_` and the tag, payment `p_` and the tag, insurance code `PRP` and
/// the tag. Every event has the same amount and the same instant; the order is
/// an issuance paid monthly, without guarantees.
pub open spec fn tagged_flow(tag: Seq<char>, amount: u64, occurred_on: Timestamp) -> Flow {
    Flow {
        bank: BankTransactionIssuedView { transaction_id: "t_"@ + tag, amount, occurred_on },
        order: ProductOrderedView {
            order_id: "o_"@ + tag,
            amount,
            event_type: EventType::Issuance,
            installment_type: InstallmentType::Monthly,
            guarantees: Seq::<GuaranteeView>::empty(),
            occurred_on,
            insurance_code: "PRP"@ + tag,
        },
        authorization: PaymentAuthorizedView {
            order_id: "o_"@ + tag,
            payment_id: "p_"@ + tag,
            amount,
            occurred_on,
        },
        collection: PaymentCollectedView {
            payment_id: "p_"@ + tag,
            transaction_id: "t_"@ + tag,
            amount,
            occurred_on,
        },
    }
}

/// Makes the four events of the flow that a tag names: the bank transaction,
/// the authorization, the collection and the order, in that order.
pub fn correlated_events(tag: &String, amount: u64, occurred_on: Timestamp) -> (r: Vec<Event>)
    ensures
        tagged_flow(tag@, amount, occurred_on).wf(),
        r@.len() == 4,
        r[0]@ == EventView::BankTransactionIssued(tagged_flow(tag@, amount, occurred_on).bank),
        r[1]@ == EventView::PaymentAuthorized(
            tagged_flow(tag@, amount, occurred_on).authorization,
        ),
        r[2]@ == EventView::PaymentCollected(tagged_flow(tag@, amount, occurred_on).collection),
        r[3]@ == EventView::ProductOrdered(tagged_flow(tag@, amount, occurred_on).order),
{
    let guarantees = Vec::new();
    assert(guarantees@.map_values(|g: crate::events::Guarantee| g@) =~= Seq::<
        GuaranteeView,
    >::empty());
    let mut events = Vec::new();
    events.push(
        Event::BankTransactionIssued(
            BankTransactionIssuedPayload {
                transaction_id: String::from_str("t_").concat(tag.as_str()),
                amount,
                occurred_on,
            },
        ),
    );
    events.push(
        Event::PaymentAuthorized(
            PaymentAuthorizedPayload {
                order_id: String::from_str("o_").concat(tag.as_str()),
                payment_id: String::from_str("p_").concat(tag.as_str()),
                amount,
                occurred_on,
            },
        ),
    );
    events.push(
        Event::PaymentCollected(
            PaymentCollectedPayload {
                payment_id: String::from_str("p_").concat(tag.as_str()),
                transaction_id: String::from_str("t_").concat(tag.as_str()),
                amount,
                occurred_on,
            },
        ),
    );
    events.push(
        Event::ProductOrdered(
            ProductOrderedPayload {
                order_id: String::from_str("o_").concat(tag.as_str()),
                amount,
                event_type: EventType::Issuance,
                installment_type: InstallmentType::Monthly,
                guarantees,
                occurred_on,
                insurance_code: String::from_str("PRP").concat(tag.as_str()),
            },
        ),
    );
    events
}

/// Who holds an identifier once one more record stands at the end.
pub proof fn lemma_holder_push(
    records: Seq<RelationView>,
    record: RelationView,
    field: RelationField,
    id: Seq<char>,
)
    requires
        holder(records, field, id) is None,
    ensures
        holder(records.push(record), field, id) == if record.holds(field, id) {
            Some(records.len() as int)
        } else {
            None
        },
{
    let longer = records.push(record);
    assert forall|i: int| 0 <= i < records.len() implies !(#[trigger] longer[i]).holds(
        field,
        id,
    ) by {
        assert(longer[i] == records[i]);
        assert(!records[i].holds(field, id));
    }
    if record.holds(field, id) {
        assert(longer[records.len() as int].holds(field, id));
    }
}

/// One more event of a flow, accepted by a store that has seen some of the
/// others, leaves the store that `store_after` describes.
pub proof fn lemma_flow_step(flow: Flow, s: StoreView, d: Delivered, event: EventView)
    requires
        flow.wf(),
        flow.new_to(s),
        flow.has(event),
        !d.has(event),
        acceptance(flow.store_after(s, d), event).1 is Ok,
    ensures
        acceptance(flow.store_after(s, d), event).0 == flow.store_after(s, d.with(event)),
{
    let before = flow.store_after(s, d);
    let after = acceptance(before, event).0;
    let expected = flow.store_after(s, d.with(event));
    let t = flow.transaction_id();
    let o = flow.order_id();
    let p = flow.payment_id();
    let n = s.relations.len();
    if d.authorization || d.collection {
        lemma_holder_push(s.relations, flow.relation(n, d), RelationField::TransactionId, t);
        lemma_holder_push(s.relations, flow.relation(n, d), RelationField::OrderId, o);
        lemma_holder_push(s.relations, flow.relation(n, d), RelationField::PaymentId, p);
    }
    let d2 = d.with(event);
    lemma_holder_push(s.relations, flow.relation(n, d2), RelationField::TransactionId, t);
    lemma_holder_push(s.relations, flow.relation(n, d2), RelationField::OrderId, o);
    lemma_holder_push(s.relations, flow.relation(n, d2), RelationField::PaymentId, p);
    assert(after.relations =~= expected.relations);
    assert(after.bank_transactions =~= expected.bank_transactions);
    assert(after.product_orders =~= expected.product_orders);
    assert(after.payment_authorizations =~= expected.payment_authorizations);
    assert(after.payment_collections =~= expected.payment_collections);
    assert(after.total_ordered =~= expected.total_ordered);
    assert(after.total_authorized =~= expected.total_authorized);
    assert(after.total_collected =~= expected.total_collected);
}

/// The record stands in the way of the collection of the payment through the
/// transaction: it has the transaction with another identifier beside it, or
/// it has the payment with a transaction.
pub open spec fn bars_collection(
    r: RelationView,
    transaction_id: Seq<char>,
    payment_id: Seq<char>,
) -> bool {
    ||| r.holds(RelationField::TransactionId, transaction_id) && (r.order_id is Some
        || r.payment_id is Some)
    ||| r.holds(RelationField::PaymentId, payment_id) && r.transaction_id is Some
}

/// The record stands in the way of the authorization of the payment for the
/// order: it has the order with another identifier beside it, or it has the
/// payment with an order.
pub open spec fn bars_authorization(
    r: RelationView,
    order_id: Seq<char>,
    payment_id: Seq<char>,
) -> bool {
    ||| r.holds(RelationField::OrderId, order_id) && (r.transaction_id is Some
        || r.payment_id is Some)
    ||| r.holds(RelationField::PaymentId, payment_id) && r.order_id is Some
}

/// Some record stands in the way of the collection.
pub open spec fn collection_barred(
    records: Seq<RelationView>,
    transaction_id: Seq<char>,
    payment_id: Seq<char>,
) -> bool {
    exists|i: int|
        0 <= i < records.len() && bars_collection(#[trigger] records[i], transaction_id, payment_id)
}

/// Some record stands in the way of the authorization.
pub open spec fn authorization_barred(
    records: Seq<RelationView>,
    order_id: Seq<char>,
    payment_id: Seq<char>,
) -> bool {
    exists|i: int|
        0 <= i < records.len() && bars_authorization(#[trigger] records[i], order_id, payment_id)
}

/// A collection that a record stands in the way of cannot be merged.
pub proof fn lemma_barred_collection_conflicts(
    records: Seq<RelationView>,
    p: crate::events::PaymentCollectedView,
)
    requires
        unique_ids(records),
        collection_barred(records, p.transaction_id, p.payment_id),
    ensures
        merge_step(records, collected_pair(p)) is Err,
{
    let i = choose|i: int|
        0 <= i < records.len() && bars_collection(
            #[trigger] records[i],
            p.transaction_id,
            p.payment_id,
        );
    if records[i].holds(RelationField::TransactionId, p.transaction_id) {
        lemma_holder_is(records, RelationField::TransactionId, p.transaction_id, i);
    }
    if records[i].holds(RelationField::PaymentId, p.payment_id) {
        lemma_holder_is(records, RelationField::PaymentId, p.payment_id, i);
    }
}

/// An authorization that a record stands in the way of cannot be merged.
pub proof fn lemma_barred_authorization_conflicts(
    records: Seq<RelationView>,
    p: crate::events::PaymentAuthorizedView,
)
    requires
        unique_ids(records),
        authorization_barred(records, p.order_id, p.payment_id),
    ensures
        merge_step(records, authorized_pair(p)) is Err,
{
    let i = choose|i: int|
        0 <= i < records.len() && bars_authorization(
            #[trigger] records[i],
            p.order_id,
            p.payment_id,
        );
    if records[i].holds(RelationField::OrderId, p.order_id) {
        lemma_holder_is(records, RelationField::OrderId, p.order_id, i);
    }
    if records[i].holds(RelationField::PaymentId, p.payment_id) {
        lemma_holder_is(records, RelationField::PaymentId, p.payment_id, i);
    }
}

/// A record that has grown has every identifier that it had.
proof fn lemma_grown_record(before: Seq<RelationView>, after: Seq<RelationView>, i: int)
    requires
        grown(before, after),
        0 <= i < before.len(),
    ensures
        before[i].transaction_id is Some ==> after[i].transaction_id == before[i].transaction_id,
        before[i].order_id is Some ==> after[i].order_id == before[i].order_id,
        before[i].payment_id is Some ==> after[i].payment_id == before[i].payment_id,
{
    assert(before[i].get(RelationField::TransactionId) is Some ==> after[i].get(
        RelationField::TransactionId,
    ) == before[i].get(RelationField::TransactionId));
    assert(before[i].get(RelationField::OrderId) is Some ==> after[i].get(RelationField::OrderId)
        == before[i].get(RelationField::OrderId));
    assert(before[i].get(RelationField::PaymentId) is Some ==> after[i].get(
        RelationField::PaymentId,
    ) == before[i].get(RelationField::PaymentId));
}

/// What stands in the way of a collection or an authorization stays in the
/// way: records only grow.
pub proof fn lemma_barred_stays_barred(
    before: Seq<RelationView>,
    after: Seq<RelationView>,
    first: Seq<char>,
    payment_id: Seq<char>,
)
    requires
        grown(before, after),
    ensures
        collection_barred(before, first, payment_id) ==> collection_barred(
            after,
            first,
            payment_id,
        ),
        authorization_barred(before, first, payment_id) ==> authorization_barred(
            after,
            first,
            payment_id,
        ),
{
    if collection_barred(before, first, payment_id) {
        let i = choose|i: int|
            0 <= i < before.len() && bars_collection(#[trigger] before[i], first, payment_id);
        lemma_grown_record(before, after, i);
        assert(bars_collection(after[i], first, payment_id));
    }
    if authorization_barred(before, first, payment_id) {
        let i = choose|i: int|
            0 <= i < before.len() && bars_authorization(#[trigger] before[i], first, payment_id);
        lemma_grown_record(before, after, i);
        assert(bars_authorization(after[i], first, payment_id));
    }
}

/// Whatever is handed in, the relation records only grow, and they stay
/// well-formed.
pub proof fn lemma_acceptance_grows(s: StoreView, event: EventView)
    requires
        well_formed(s.relations),
    ensures
        well_formed(acceptance(s, event).0.relations),
        grown(s.relations, acceptance(s, event).0.relations),
{
    match event {
        EventView::PaymentAuthorized(p) => {
            if merge_step(s.relations, authorized_pair(p)) is Ok {
                lemma_merge_keeps_unique(s.relations, authorized_pair(p));
                lemma_merge_grows(s.relations, authorized_pair(p));
            }
        },
        EventView::PaymentCollected(p) => {
            if merge_step(s.relations, collected_pair(p)) is Ok {
                lemma_merge_keeps_unique(s.relations, collected_pair(p));
                lemma_merge_grows(s.relations, collected_pair(p));
            }
        },
        _ => {},
    }
}

impl Flow {
    /// The store has accepted the events of the flow that `d` names and can
    /// still accept the others: what is known of the flow's relation so far is
    /// in one record, nothing stands in the way of what is still to come, and
    /// the two accumulators of the flow stand at zero until all four events
    /// are in.
    pub open spec fn on_the_way(self, s: StoreView, d: Delivered) -> bool {
        let t = self.transaction_id();
        let o = self.order_id();
        let p = self.payment_id();
        let of_t = holder(s.relations, RelationField::TransactionId, t);
        let of_o = holder(s.relations, RelationField::OrderId, o);
        let of_p = holder(s.relations, RelationField::PaymentId, p);
        &&& well_formed(s.relations)
        &&& s.bank_transactions.dom().contains(t) == d.bank
        &&& d.bank ==> s.bank_transactions[t].ordered_amount == if d.all() {
            self.order.amount
        } else {
            0
        }
        &&& s.product_orders.dom().contains(o) == d.order
        &&& d.order ==> s.product_orders[o].amount == self.order.amount
            && s.product_orders[o].collected_amount == if d.all() {
            self.collection.amount
        } else {
            0
        }
        &&& s.payment_collections.dom().contains((t, p)) == d.collection
        &&& d.collection ==> s.payment_collections[(t, p)].amount == self.collection.amount
        &&& !d.collection ==> !collection_barred(s.relations, t, p)
        &&& !d.authorization ==> !authorization_barred(s.relations, o, p)
        &&& d.collection ==> of_t is Some && of_p == of_t
        &&& d.authorization ==> of_o is Some && of_p == of_o
    }
}

/// One more event of a flow, accepted by a store that is on the way with the
/// flow, leaves the store on the way.
pub proof fn lemma_on_the_way_step(flow: Flow, s: StoreView, d: Delivered, event: EventView)
    requires
        flow.wf(),
        flow.on_the_way(s, d),
        flow.has(event),
        !d.has(event),
        acceptance(s, event).1 is Ok,
    ensures
        flow.on_the_way(acceptance(s, event).0, d.with(event)),
{
    let t = flow.transaction_id();
    let o = flow.order_id();
    let p = flow.payment_id();
    match event {
        EventView::PaymentAuthorized(_) => {
            let ids = authorized_pair(flow.authorization);
            let merged = merge_step(s.relations, ids)->Ok_0.apply(s.relations, ids);
            lemma_holder_after_merge(s.relations, ids, RelationField::PaymentId, p);
            if !d.collection {
                assert forall|i: int| 0 <= i < merged.len() implies !bars_collection(
                    #[trigger] merged[i],
                    t,
                    p,
                ) by {
                }
            }
        },
        EventView::PaymentCollected(_) => {
            let ids = collected_pair(flow.collection);
            let merged = merge_step(s.relations, ids)->Ok_0.apply(s.relations, ids);
            lemma_holder_after_merge(s.relations, ids, RelationField::PaymentId, p);
            if !d.authorization {
                assert forall|i: int| 0 <= i < merged.len() implies !bars_authorization(
                    #[trigger] merged[i],
                    o,
                    p,
                ) by {
                }
            }
        },
        _ => {},
    }
}

} // verus!
