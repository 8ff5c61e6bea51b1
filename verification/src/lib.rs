//! Reconciliation of financial facts that arrive as independent events.
//!
//! Orders, payment authorizations, payment collections and bank transactions
//! reach the [`event_handler::EventHandler`] one by one and in no particular
//! order. Each is appended to the ledger that takes events of its kind and
//! then recorded as a fact in the [`store::Store`]. The correlation between a
//! transaction, an order and a payment is discovered step by step in the
//! [`correlation_store::CorrelationStore`], and once all three identifiers of
//! a relation are known and their facts are recorded, the aggregate figures of
//! the order and of the transaction are brought up to date in one atomic step.
//!
//! Amounts are whole numbers of the smallest unit of the currency.
//!
//! A store is changed through `&mut` alone, so that one event is taken at a
//! time: the read-then-write steps of a merge never interleave.
//!
//! What holds of the store in whatever order the events arrive is stated, and
//! proved, in [`laws`].

pub mod correlation_store;
pub mod errors;
pub mod event_handler;
pub mod events;
pub mod facts;
pub mod flow;
pub mod laws;
pub mod ledger;
pub mod projectors;
pub mod reconciliation_engine;
pub mod relations;
pub mod store;
pub mod table;
pub mod timestamp;
