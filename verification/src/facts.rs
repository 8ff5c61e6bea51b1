//! The fact records: one durable row for each accepted event.

use crate::table::{Keyed, Row};
use vstd::prelude::*;

verus! {

/// A bank transaction, with how much of it orders account for.
#[derive(Debug)]
pub struct BankTransactionFact {
    pub transaction_id: String,
    pub amount: u64,
    pub ordered_amount: u64,
    pub occurred_on: String,
}

/// An order, with how much of its amount has been collected.
#[derive(Debug)]
pub struct ProductOrderFact {
    pub order_id: String,
    pub amount: u64,
    pub collected_amount: u64,
    pub occurred_on: String,
    pub insurance_code: String,
    pub installment_type: String,
    pub event_type: String,
}

/// The authorization of a payment for an order.
#[derive(Debug)]
pub struct PaymentAuthorizationFact {
    pub order_id: String,
    pub payment_id: String,
    pub amount: u64,
    pub occurred_on: String,
}

/// The collection of a payment through a bank transaction.
#[derive(Debug)]
pub struct PaymentCollectionFact {
    pub transaction_id: String,
    pub payment_id: String,
    pub amount: u64,
    pub occurred_on: String,
}

/// A `BankTransactionFact` as contracts speak of it.
pub struct BankTransactionFactView {
    pub transaction_id: Seq<char>,
    pub amount: u64,
    pub ordered_amount: u64,
    pub occurred_on: Seq<char>,
}

/// A `ProductOrderFact` as contracts speak of it.
pub struct ProductOrderFactView {
    pub order_id: Seq<char>,
    pub amount: u64,
    pub collected_amount: u64,
    pub occurred_on: Seq<char>,
    pub insurance_code: Seq<char>,
    pub installment_type: Seq<char>,
    pub event_type: Seq<char>,
}

/// A `PaymentAuthorizationFact` as contracts speak of it.
pub struct PaymentAuthorizationFactView {
    pub order_id: Seq<char>,
    pub payment_id: Seq<char>,
    pub amount: u64,
    pub occurred_on: Seq<char>,
}

/// A `PaymentCollectionFact` as contracts speak of it.
pub struct PaymentCollectionFactView {
    pub transaction_id: Seq<char>,
    pub payment_id: Seq<char>,
    pub amount: u64,
    pub occurred_on: Seq<char>,
}

impl View for BankTransactionFact {
    type V = BankTransactionFactView;

    open spec fn view(&self) -> BankTransactionFactView {
        BankTransactionFactView {
            transaction_id: self.transaction_id@,
            amount: self.amount,
            ordered_amount: self.ordered_amount,
            occurred_on: self.occurred_on@,
        }
    }
}

impl View for ProductOrderFact {
    type V = ProductOrderFactView;

    open spec fn view(&self) -> ProductOrderFactView {
        ProductOrderFactView {
            order_id: self.order_id@,
            amount: self.amount,
            collected_amount: self.collected_amount,
            occurred_on: self.occurred_on@,
            insurance_code: self.insurance_code@,
            installment_type: self.installment_type@,
            event_type: self.event_type@,
        }
    }
}

impl View for PaymentAuthorizationFact {
    type V = PaymentAuthorizationFactView;

    open spec fn view(&self) -> PaymentAuthorizationFactView {
        PaymentAuthorizationFactView {
            order_id: self.order_id@,
            payment_id: self.payment_id@,
            amount: self.amount,
            occurred_on: self.occurred_on@,
        }
    }
}

impl View for PaymentCollectionFact {
    type V = PaymentCollectionFactView;

    open spec fn view(&self) -> PaymentCollectionFactView {
        PaymentCollectionFactView {
            transaction_id: self.transaction_id@,
            payment_id: self.payment_id@,
            amount: self.amount,
            occurred_on: self.occurred_on@,
        }
    }
}

impl Keyed for BankTransactionFactView {
    type Key = Seq<char>;

    open spec fn key(self) -> Seq<char> {
        self.transaction_id
    }
}

impl Keyed for ProductOrderFactView {
    type Key = Seq<char>;

    open spec fn key(self) -> Seq<char> {
        self.order_id
    }
}

impl Keyed for PaymentAuthorizationFactView {
    type Key = (Seq<char>, Seq<char>);

    open spec fn key(self) -> (Seq<char>, Seq<char>) {
        (self.order_id, self.payment_id)
    }
}

impl Keyed for PaymentCollectionFactView {
    type Key = (Seq<char>, Seq<char>);

    open spec fn key(self) -> (Seq<char>, Seq<char>) {
        (self.transaction_id, self.payment_id)
    }
}

impl Row for BankTransactionFact {
    type Id = String;

    open spec fn id_key(id: &String) -> Seq<char> {
        id@
    }

    fn is(&self, id: &String) -> (r: bool) {
        self.transaction_id == *id
    }

    fn same_key(&self, other: &BankTransactionFact) -> (r: bool) {
        self.transaction_id == other.transaction_id
    }
}

impl Row for ProductOrderFact {
    type Id = String;

    open spec fn id_key(id: &String) -> Seq<char> {
        id@
    }

    fn is(&self, id: &String) -> (r: bool) {
        self.order_id == *id
    }

    fn same_key(&self, other: &ProductOrderFact) -> (r: bool) {
        self.order_id == other.order_id
    }
}

/// An authorization is named by its order and its payment, in that order.
impl Row for PaymentAuthorizationFact {
    type Id = (String, String);

    open spec fn id_key(id: &(String, String)) -> (Seq<char>, Seq<char>) {
        (id.0@, id.1@)
    }

    fn is(&self, id: &(String, String)) -> (r: bool) {
        self.order_id == id.0 && self.payment_id == id.1
    }

    fn same_key(&self, other: &PaymentAuthorizationFact) -> (r: bool) {
        self.order_id == other.order_id && self.payment_id == other.payment_id
    }
}

/// A collection is named by its transaction and its payment, in that order.
impl Row for PaymentCollectionFact {
    type Id = (String, String);

    open spec fn id_key(id: &(String, String)) -> (Seq<char>, Seq<char>) {
        (id.0@, id.1@)
    }

    fn is(&self, id: &(String, String)) -> (r: bool) {
        self.transaction_id == id.0 && self.payment_id == id.1
    }

    fn same_key(&self, other: &PaymentCollectionFact) -> (r: bool) {
        self.transaction_id == other.transaction_id && self.payment_id == other.payment_id
    }
}

} // verus!
