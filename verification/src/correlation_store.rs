//! The records of the correlation store, and the two operations on them:
//! finding a record by one identifier, and merging a pair of identifiers in.

use crate::errors::StorageError;
use crate::relations::{
    holder, id_view, lemma_holder_is, lemma_merge_keeps_unique, lemma_step_in_range, merge_step,
    merged, well_formed, IdPair, MergeStep, MergeStepView, RelationField, RelationRecord,
    RelationView,
};
use vstd::prelude::*;

verus! {

impl RelationRecord {
    /// The identifier in one column.
    pub fn field(&self, field: RelationField) -> (r: &Option<String>)
        ensures
            id_view(*r) == self@.get(field),
    {
        match field {
            RelationField::TransactionId => &self.transaction_id,
            RelationField::OrderId => &self.order_id,
            RelationField::PaymentId => &self.payment_id,
        }
    }

    /// Whether the column `field` holds `id`.
    pub fn holds(&self, field: RelationField, id: &String) -> (r: bool)
        ensures
            r == self@.holds(field, id@),
    {
        match self.field(field) {
            Some(held) => *held == *id,
            None => false,
        }
    }

    /// Whether all three identifiers are known.
    pub fn is_complete(&self) -> (r: bool)
        ensures
            r == self@.is_complete(),
    {
        self.transaction_id.is_some() && self.order_id.is_some() && self.payment_id.is_some()
    }

    /// Puts an identifier, or none, into one column.
    pub fn set_field(&mut self, field: RelationField, id: Option<String>)
        ensures
            final(self)@ == old(self)@.with(field, id_view(id)),
    {
        match field {
            RelationField::TransactionId => {
                self.transaction_id = id;
            },
            RelationField::OrderId => {
                self.order_id = id;
            },
            RelationField::PaymentId => {
                self.payment_id = id;
            },
        }
    }
}

impl Clone for RelationRecord {
    fn clone(&self) -> (r: RelationRecord)
        ensures
            r@ == self@,
    {
        RelationRecord {
            id: self.id,
            transaction_id: copy_id(&self.transaction_id),
            order_id: copy_id(&self.order_id),
            payment_id: copy_id(&self.payment_id),
        }
    }
}

fn copy_id(id: &Option<String>) -> (r: Option<String>)
    ensures
        id_view(r) == id_view(*id),
{
    match id {
        Some(s) => Some(s.clone()),
        None => None,
    }
}

impl IdPair {
    /// The column of the identifier that is looked for first.
    pub fn first_field(&self) -> (r: RelationField)
        ensures
            r == self@.first_field,
    {
        match self {
            IdPair::OrderPayment { .. } => RelationField::OrderId,
            IdPair::TransactionPayment { .. } => RelationField::TransactionId,
            IdPair::TransactionOrder { .. } => RelationField::TransactionId,
        }
    }

    /// The identifier that is looked for first.
    pub fn first(&self) -> (r: &String)
        ensures
            r@ == self@.first,
    {
        match self {
            IdPair::OrderPayment { order_id, .. } => order_id,
            IdPair::TransactionPayment { transaction_id, .. } => transaction_id,
            IdPair::TransactionOrder { transaction_id, .. } => transaction_id,
        }
    }

    /// The column of the other identifier.
    pub fn second_field(&self) -> (r: RelationField)
        ensures
            r == self@.second_field,
    {
        match self {
            IdPair::OrderPayment { .. } => RelationField::PaymentId,
            IdPair::TransactionPayment { .. } => RelationField::PaymentId,
            IdPair::TransactionOrder { .. } => RelationField::OrderId,
        }
    }

    /// The other identifier.
    pub fn second(&self) -> (r: &String)
        ensures
            r@ == self@.second,
    {
        match self {
            IdPair::OrderPayment { payment_id, .. } => payment_id,
            IdPair::TransactionPayment { payment_id, .. } => payment_id,
            IdPair::TransactionOrder { order_id, .. } => order_id,
        }
    }

    /// The column that the pair says nothing of.
    pub fn missing_field(&self) -> (r: RelationField)
        ensures
            r == self@.missing_field(),
    {
        match self {
            IdPair::OrderPayment { .. } => RelationField::TransactionId,
            IdPair::TransactionPayment { .. } => RelationField::OrderId,
            IdPair::TransactionOrder { .. } => RelationField::PaymentId,
        }
    }

    /// The two identifiers, the first one first.
    pub fn into_ids(self) -> (r: (String, String))
        ensures
            r.0@ == self@.first,
            r.1@ == self@.second,
    {
        match self {
            IdPair::OrderPayment { order_id, payment_id } => (order_id, payment_id),
            IdPair::TransactionPayment { transaction_id, payment_id } => (
                transaction_id,
                payment_id,
            ),
            IdPair::TransactionOrder { transaction_id, order_id } => (transaction_id, order_id),
        }
    }
}

/// The partly and fully discovered correlations. Each identifier stands in at
/// most one record, and records are never removed.
#[derive(Debug)]
pub struct CorrelationStore {
    records: Vec<RelationRecord>,
}

impl View for CorrelationStore {
    type V = Seq<RelationView>;

    closed spec fn view(&self) -> Seq<RelationView> {
        self.records@.map_values(|r: RelationRecord| r@)
    }
}

impl CorrelationStore {
    /// The records are as the operations of the store leave them.
    pub open spec fn wf(&self) -> bool {
        well_formed(self@)
    }

    /// A store without records.
    pub fn new() -> (r: CorrelationStore)
        ensures
            r.wf(),
            r@ == Seq::<RelationView>::empty(),
    {
        let r = CorrelationStore { records: Vec::new() };
        r
    }

    /// The number of records.
    pub fn len(&self) -> (r: usize)
        ensures
            r == self@.len(),
    {
        self.records.len()
    }

    /// The record at `index`, which is the record numbered `index`.
    pub fn record(&self, index: usize) -> (r: Option<&RelationRecord>)
        ensures
            match r {
                Some(record) => index < self@.len() && record@ == self@[index as int],
                None => index >= self@.len(),
            },
    {
        if index < self.records.len() {
            Some(&self.records[index])
        } else {
            None
        }
    }

    fn position(&self, field: RelationField, id: &String) -> (r: Option<usize>)
        requires
            self.wf(),
        ensures
            match r {
                Some(i) => holder(self@, field, id@) == Some(i as int) && i < self@.len(),
                None => holder(self@, field, id@) is None,
            },
    {
        let mut i: usize = 0;
        while i < self.records.len()
            invariant
                self.wf(),
                i <= self.records.len(),
                forall|j: int| 0 <= j < i ==> !(#[trigger] self@[j]).holds(field, id@),
            decreases self.records.len() - i,
        {
            if self.records[i].holds(field, id) {
                proof {
                    lemma_holder_is(self@, field, id@, i as int);
                }
                return Some(i);
            }
            i += 1;
        }
        None
    }

    /// The record, if any, that has `id` in the column `field`.
    pub fn find_by_partial_key(&self, field: RelationField, id: &String) -> (r: Option<
        &RelationRecord,
    >)
        requires
            self.wf(),
        ensures
            match holder(self@, field, id@) {
                Some(i) => r is Some && r->0@ == self@[i],
                None => r is None,
            },
    {
        match self.position(field, id) {
            Some(i) => Some(&self.records[i]),
            None => None,
        }
    }

    /// Decides how a pair of identifiers enters the records, and changes nothing.
    pub fn plan(&self, ids: &IdPair) -> (r: Result<MergeStep, StorageError>)
        requires
            self.wf(),
        ensures
            match r {
                Ok(step) => merge_step(self@, ids@) == Ok::<MergeStepView, StorageError>(step@),
                Err(e) => merge_step(self@, ids@) == Err::<MergeStepView, StorageError>(e),
            },
    {
        let first = self.position(ids.first_field(), ids.first());
        let second = self.position(ids.second_field(), ids.second());
        if let Some(i) = first {
            let record = &self.records[i];
            if record.field(ids.second_field()).is_none() && record.field(
                ids.missing_field(),
            ).is_none() {
                return if second.is_some() {
                    Err(StorageError::IdentifierConflict)
                } else {
                    Ok(MergeStep::Fill { index: i, field: ids.second_field() })
                };
            }
        }
        if let Some(j) = second {
            if self.records[j].field(ids.first_field()).is_none() {
                return if first.is_some() {
                    Err(StorageError::IdentifierConflict)
                } else {
                    Ok(MergeStep::Fill { index: j, field: ids.first_field() })
                };
            }
        }
        if first.is_some() || second.is_some() {
            Err(StorageError::IdentifierConflict)
        } else {
            Ok(MergeStep::Insert)
        }
    }

    /// Carries out the step that `plan` decided on for the pair.
    pub(crate) fn apply(&mut self, step: MergeStep, ids: IdPair)
        requires
            old(self).wf(),
            merge_step(old(self)@, ids@) == Ok::<MergeStepView, StorageError>(step@),
        ensures
            final(self).wf(),
            final(self)@ == step@.apply(old(self)@, ids@),
    {
        proof {
            lemma_merge_keeps_unique(self@, ids@);
        }
        let first_field = ids.first_field();
        let second_field = ids.second_field();
        let ghost pair = ids@;
        let (first, second) = ids.into_ids();
        match step {
            MergeStep::Fill { index, field } => {
                let id = if field == first_field {
                    first
                } else {
                    second
                };
                self.records[index].set_field(field, Some(id));
                assert(self@ =~= step@.apply(old(self)@, pair));
            },
            MergeStep::Insert => {
                let mut record = RelationRecord {
                    id: self.records.len() as u64,
                    transaction_id: None,
                    order_id: None,
                    payment_id: None,
                };
                record.set_field(first_field, Some(first));
                record.set_field(second_field, Some(second));
                self.records.push(record);
                assert(self@ =~= step@.apply(old(self)@, pair));
            },
        }
    }

    /// Takes back a step that `apply` carried out last.
    pub(crate) fn revert(&mut self, step: MergeStep)
        requires
            old(self).wf(),
            match step {
                MergeStep::Fill { index, .. } => index < old(self)@.len(),
                MergeStep::Insert => old(self)@.len() > 0,
            },
        ensures
            final(self).wf(),
            final(self)@ == step@.revert(old(self)@),
    {
        match step {
            MergeStep::Fill { index, field } => {
                self.records[index].set_field(field, None);
            },
            MergeStep::Insert => {
                self.records.pop();
            },
        }
        proof {
            let before = old(self)@;
            let after = step@.revert(before);
            assert(self@ =~= after);
            assert forall|i: int, j: int, f: RelationField|
                0 <= i < after.len() && 0 <= j < after.len() && i != j && (
                #[trigger] after[i].get(f)) is Some implies after[i].get(f) != (
            #[trigger] after[j].get(f)) by {
                assert(before[i].get(f) != before[j].get(f));
            }
        }
    }

    /// Merges a pair of identifiers into the records and gives the record that
    /// now holds the pair. On a conflict nothing changes.
    pub fn merge(&mut self, ids: IdPair) -> (r: Result<RelationRecord, StorageError>)
        requires
            old(self).wf(),
        ensures
            final(self).wf(),
            match merged(old(self)@, ids@) {
                Ok((records, i)) => r is Ok && final(self)@ == records && r->Ok_0@ == records[i],
                Err(e) => r == Err::<RelationRecord, StorageError>(e) && final(self)@ == old(
                    self,
                )@,
            },
    {
        match self.plan(&ids) {
            Ok(step) => {
                let index = match step {
                    MergeStep::Fill { index, .. } => index,
                    MergeStep::Insert => self.records.len(),
                };
                proof {
                    lemma_step_in_range(self@, ids@);
                }
                self.apply(step, ids);
                Ok(self.records[index].clone())
            },
            Err(e) => Err(e),
        }
    }
}

} // verus!
