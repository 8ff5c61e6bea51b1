//! The facts that reach the system: a closed set of immutable events.

use crate::timestamp::Timestamp;
use vstd::prelude::*;

verus! {

/// What happened to the order that a `ProductOrdered` event reports.
#[derive(Clone, Copy, Debug, PartialEq, Eq, Structural)]
pub enum EventType {
    Issuance,
    Cancellation,
    Interruption,
}

impl EventType {
    /// The text under which the value is stored.
    pub open spec fn text(self) -> Seq<char> {
        match self {
            EventType::Issuance => "issuance"@,
            EventType::Cancellation => "cancellation"@,
            EventType::Interruption => "interruption"@,
        }
    }

    /// Renders the value as it is stored.
    pub fn to_string(&self) -> (r: String)
        ensures
            r@ == self.text(),
    {
        match self {
            EventType::Issuance => "issuance".to_string(),
            EventType::Cancellation => "cancellation".to_string(),
            EventType::Interruption => "interruption".to_string(),
        }
    }
}

/// How often an order is paid.
#[derive(Clone, Copy, Debug, PartialEq, Eq, Structural)]
pub enum InstallmentType {
    Yearly,
    BiYearly,
    Monthly,
}

impl InstallmentType {
    /// The text under which the value is stored.
    pub open spec fn text(self) -> Seq<char> {
        match self {
            InstallmentType::Yearly => "yearly"@,
            InstallmentType::BiYearly => "bi_yearly"@,
            InstallmentType::Monthly => "monthly"@,
        }
    }

    /// Renders the value as it is stored.
    pub fn to_string(&self) -> (r: String)
        ensures
            r@ == self.text(),
    {
        match self {
            InstallmentType::Yearly => "yearly".to_string(),
            InstallmentType::BiYearly => "bi_yearly".to_string(),
            InstallmentType::Monthly => "monthly".to_string(),
        }
    }
}

/// A bank settled a transaction.
#[derive(Debug)]
pub struct BankTransactionIssuedPayload {
    pub transaction_id: String,
    pub amount: u64,
    pub occurred_on: Timestamp,
}

/// A payment was authorized for an order.
#[derive(Debug)]
pub struct PaymentAuthorizedPayload {
    pub order_id: String,
    pub payment_id: String,
    pub amount: u64,
    pub occurred_on: Timestamp,
}

/// A payment was collected through a bank transaction.
#[derive(Debug)]
pub struct PaymentCollectedPayload {
    pub payment_id: String,
    pub transaction_id: String,
    pub amount: u64,
    pub occurred_on: Timestamp,
}

/// One guarantee of an ordered product, with its price.
#[derive(Debug)]
pub struct Guarantee {
    pub guarantee_type: String,
    pub price: u64,
}

/// A product was ordered.
#[derive(Debug)]
pub struct ProductOrderedPayload {
    pub order_id: String,
    pub amount: u64,
    pub event_type: EventType,
    pub installment_type: InstallmentType,
    pub guarantees: Vec<Guarantee>,
    pub occurred_on: Timestamp,
    pub insurance_code: String,
}

/// One fact, as it is delivered.
#[derive(Debug)]
pub enum Event {
    BankTransactionIssued(BankTransactionIssuedPayload),
    PaymentAuthorized(PaymentAuthorizedPayload),
    PaymentCollected(PaymentCollectedPayload),
    ProductOrdered(ProductOrderedPayload),
}

/// A `BankTransactionIssuedPayload` as contracts speak of it.
pub struct BankTransactionIssuedView {
    pub transaction_id: Seq<char>,
    pub amount: u64,
    pub occurred_on: Timestamp,
}

/// A `PaymentAuthorizedPayload` as contracts speak of it.
pub struct PaymentAuthorizedView {
    pub order_id: Seq<char>,
    pub payment_id: Seq<char>,
    pub amount: u64,
    pub occurred_on: Timestamp,
}

/// A `PaymentCollectedPayload` as contracts speak of it.
pub struct PaymentCollectedView {
    pub payment_id: Seq<char>,
    pub transaction_id: Seq<char>,
    pub amount: u64,
    pub occurred_on: Timestamp,
}

/// A `Guarantee` as contracts speak of it.
pub struct GuaranteeView {
    pub guarantee_type: Seq<char>,
    pub price: u64,
}

/// A `ProductOrderedPayload` as contracts speak of it.
pub struct ProductOrderedView {
    pub order_id: Seq<char>,
    pub amount: u64,
    pub event_type: EventType,
    pub installment_type: InstallmentType,
    pub guarantees: Seq<GuaranteeView>,
    pub occurred_on: Timestamp,
    pub insurance_code: Seq<char>,
}

/// An event as contracts speak of it: its identifiers and texts as sequences.
pub enum EventView {
    BankTransactionIssued(BankTransactionIssuedView),
    PaymentAuthorized(PaymentAuthorizedView),
    PaymentCollected(PaymentCollectedView),
    ProductOrdered(ProductOrderedView),
}

impl View for BankTransactionIssuedPayload {
    type V = BankTransactionIssuedView;

    open spec fn view(&self) -> BankTransactionIssuedView {
        BankTransactionIssuedView {
            transaction_id: self.transaction_id@,
            amount: self.amount,
            occurred_on: self.occurred_on,
        }
    }
}

impl View for PaymentAuthorizedPayload {
    type V = PaymentAuthorizedView;

    open spec fn view(&self) -> PaymentAuthorizedView {
        PaymentAuthorizedView {
            order_id: self.order_id@,
            payment_id: self.payment_id@,
            amount: self.amount,
            occurred_on: self.occurred_on,
        }
    }
}

impl View for PaymentCollectedPayload {
    type V = PaymentCollectedView;

    open spec fn view(&self) -> PaymentCollectedView {
        PaymentCollectedView {
            payment_id: self.payment_id@,
            transaction_id: self.transaction_id@,
            amount: self.amount,
            occurred_on: self.occurred_on,
        }
    }
}

impl View for Guarantee {
    type V = GuaranteeView;

    open spec fn view(&self) -> GuaranteeView {
        GuaranteeView { guarantee_type: self.guarantee_type@, price: self.price }
    }
}

impl View for ProductOrderedPayload {
    type V = ProductOrderedView;

    open spec fn view(&self) -> ProductOrderedView {
        ProductOrderedView {
            order_id: self.order_id@,
            amount: self.amount,
            event_type: self.event_type,
            installment_type: self.installment_type,
            guarantees: self.guarantees@.map_values(|g: Guarantee| g@),
            occurred_on: self.occurred_on,
            insurance_code: self.insurance_code@,
        }
    }
}

impl View for Event {
    type V = EventView;

    open spec fn view(&self) -> EventView {
        match self {
            Event::BankTransactionIssued(p) => EventView::BankTransactionIssued(p@),
            Event::PaymentAuthorized(p) => EventView::PaymentAuthorized(p@),
            Event::PaymentCollected(p) => EventView::PaymentCollected(p@),
            Event::ProductOrdered(p) => EventView::ProductOrdered(p@),
        }
    }
}

impl Clone for BankTransactionIssuedPayload {
    fn clone(&self) -> (r: Self)
        ensures
            r@ == self@,
    {
        BankTransactionIssuedPayload {
            transaction_id: self.transaction_id.clone(),
            amount: self.amount,
            occurred_on: self.occurred_on,
        }
    }
}

impl Clone for PaymentAuthorizedPayload {
    fn clone(&self) -> (r: Self)
        ensures
            r@ == self@,
    {
        PaymentAuthorizedPayload {
            order_id: self.order_id.clone(),
            payment_id: self.payment_id.clone(),
            amount: self.amount,
            occurred_on: self.occurred_on,
        }
    }
}

impl Clone for PaymentCollectedPayload {
    fn clone(&self) -> (r: Self)
        ensures
            r@ == self@,
    {
        PaymentCollectedPayload {
            payment_id: self.payment_id.clone(),
            transaction_id: self.transaction_id.clone(),
            amount: self.amount,
            occurred_on: self.occurred_on,
        }
    }
}

impl Clone for Guarantee {
    fn clone(&self) -> (r: Self)
        ensures
            r@ == self@,
    {
        Guarantee { guarantee_type: self.guarantee_type.clone(), price: self.price }
    }
}

impl Clone for ProductOrderedPayload {
    fn clone(&self) -> (r: Self)
        ensures
            r@ == self@,
    {
        let mut guarantees: Vec<Guarantee> = Vec::new();
        let mut i: usize = 0;
        while i < self.guarantees.len()
            invariant
                i <= self.guarantees.len(),
                guarantees.len() == i,
                forall|j: int| 0 <= j < i ==> (#[trigger] guarantees[j])@ == self.guarantees[j]@,
            decreases self.guarantees.len() - i,
        {
            guarantees.push(self.guarantees[i].clone());
            i += 1;
        }
        assert(guarantees@.map_values(|g: Guarantee| g@) =~= self.guarantees@.map_values(
            |g: Guarantee| g@,
        ));
        ProductOrderedPayload {
            order_id: self.order_id.clone(),
            amount: self.amount,
            event_type: self.event_type,
            installment_type: self.installment_type,
            guarantees,
            occurred_on: self.occurred_on,
            insurance_code: self.insurance_code.clone(),
        }
    }
}

impl Clone for Event {
    fn clone(&self) -> (r: Self)
        ensures
            r@ == self@,
    {
        match self {
            Event::BankTransactionIssued(p) => Event::BankTransactionIssued(p.clone()),
            Event::PaymentAuthorized(p) => Event::PaymentAuthorized(p.clone()),
            Event::PaymentCollected(p) => Event::PaymentCollected(p.clone()),
            Event::ProductOrdered(p) => Event::ProductOrdered(p.clone()),
        }
    }
}

} // verus!
