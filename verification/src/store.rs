//! The store: the fact tables, the correlation store and the three ledgers.

use crate::correlation_store::CorrelationStore;
use crate::facts::{
    BankTransactionFact, BankTransactionFactView, PaymentAuthorizationFact,
    PaymentAuthorizationFactView, PaymentCollectionFact, PaymentCollectionFactView,
    ProductOrderFact, ProductOrderFactView,
};
use crate::ledger::{total, Ledger, LedgerEntryView};
use crate::relations::{well_formed, RelationView};
use crate::table::Table;
use vstd::prelude::*;

verus! {

/// Everything that is recorded. Facts are found by their natural keys: a bank
/// transaction by its transaction, an order by its order, an authorization by
/// order and payment, a collection by transaction and payment.
pub struct Store {
    pub bank_transactions: Table<BankTransactionFact>,
    pub product_orders: Table<ProductOrderFact>,
    pub payment_authorizations: Table<PaymentAuthorizationFact>,
    pub payment_collections: Table<PaymentCollectionFact>,
    pub relations: CorrelationStore,
    pub total_ordered: Ledger,
    pub total_authorized: Ledger,
    pub total_collected: Ledger,
}

/// The store as contracts speak of it.
pub struct StoreView {
    pub bank_transactions: Map<Seq<char>, BankTransactionFactView>,
    pub product_orders: Map<Seq<char>, ProductOrderFactView>,
    pub payment_authorizations: Map<(Seq<char>, Seq<char>), PaymentAuthorizationFactView>,
    pub payment_collections: Map<(Seq<char>, Seq<char>), PaymentCollectionFactView>,
    pub relations: Seq<RelationView>,
    pub total_ordered: Seq<LedgerEntryView>,
    pub total_authorized: Seq<LedgerEntryView>,
    pub total_collected: Seq<LedgerEntryView>,
}

impl StoreView {
    /// A store in which nothing is recorded.
    pub open spec fn empty() -> StoreView {
        StoreView {
            bank_transactions: Map::empty(),
            product_orders: Map::empty(),
            payment_authorizations: Map::empty(),
            payment_collections: Map::empty(),
            relations: Seq::empty(),
            total_ordered: Seq::empty(),
            total_authorized: Seq::empty(),
            total_collected: Seq::empty(),
        }
    }

    /// What holds of every store: each identifier stands in at most one
    /// relation record, and each ledger adds up to a `u64`.
    pub open spec fn wf(self) -> bool {
        &&& well_formed(self.relations)
        &&& total(self.total_ordered) <= u64::MAX
        &&& total(self.total_authorized) <= u64::MAX
        &&& total(self.total_collected) <= u64::MAX
    }
}

impl View for Store {
    type V = StoreView;

    open spec fn view(&self) -> StoreView {
        StoreView {
            bank_transactions: self.bank_transactions@,
            product_orders: self.product_orders@,
            payment_authorizations: self.payment_authorizations@,
            payment_collections: self.payment_collections@,
            relations: self.relations@,
            total_ordered: self.total_ordered@,
            total_authorized: self.total_authorized@,
            total_collected: self.total_collected@,
        }
    }
}

impl Store {
    /// Every part of the store is as its own operations leave it.
    pub open spec fn wf(&self) -> bool {
        &&& self.bank_transactions.wf()
        &&& self.product_orders.wf()
        &&& self.payment_authorizations.wf()
        &&& self.payment_collections.wf()
        &&& self.relations.wf()
        &&& self.total_ordered.wf()
        &&& self.total_authorized.wf()
        &&& self.total_collected.wf()
    }

    /// A store in which nothing is recorded.
    pub fn new() -> (r: Store)
        ensures
            r.wf(),
            r@ == StoreView::empty(),
    {
        Store {
            bank_transactions: Table::new(),
            product_orders: Table::new(),
            payment_authorizations: Table::new(),
            payment_collections: Table::new(),
            relations: CorrelationStore::new(),
            total_ordered: Ledger::new(),
            total_authorized: Ledger::new(),
            total_collected: Ledger::new(),
        }
    }
}

} // verus!
