//! The correlation store: which transaction, order and payment belong together,
//! as far as the events seen so far have told.

use crate::errors::StorageError;
use vstd::prelude::*;

verus! {

/// One of the three identifier columns of a relation record.
#[derive(Clone, Copy, Debug, PartialEq, Eq, Structural)]
pub enum RelationField {
    TransactionId,
    OrderId,
    PaymentId,
}

/// A partly or fully discovered correlation. Fields are filled, never cleared.
#[derive(Debug)]
pub struct RelationRecord {
    pub id: u64,
    pub transaction_id: Option<String>,
    pub order_id: Option<String>,
    pub payment_id: Option<String>,
}

/// A `RelationRecord` as contracts speak of it.
pub struct RelationView {
    pub id: nat,
    pub transaction_id: Option<Seq<char>>,
    pub order_id: Option<Seq<char>>,
    pub payment_id: Option<Seq<char>>,
}

/// An identifier that may be missing, as contracts speak of it.
pub open spec fn id_view(id: Option<String>) -> Option<Seq<char>> {
    match id {
        Some(s) => Some(s@),
        None => None,
    }
}

impl View for RelationRecord {
    type V = RelationView;

    open spec fn view(&self) -> RelationView {
        RelationView {
            id: self.id as nat,
            transaction_id: id_view(self.transaction_id),
            order_id: id_view(self.order_id),
            payment_id: id_view(self.payment_id),
        }
    }
}

impl RelationView {
    /// The identifier in one column.
    pub open spec fn get(self, field: RelationField) -> Option<Seq<char>> {
        match field {
            RelationField::TransactionId => self.transaction_id,
            RelationField::OrderId => self.order_id,
            RelationField::PaymentId => self.payment_id,
        }
    }

    /// The record with one column changed.
    pub open spec fn with(self, field: RelationField, id: Option<Seq<char>>) -> RelationView {
        match field {
            RelationField::TransactionId => RelationView { transaction_id: id, ..self },
            RelationField::OrderId => RelationView { order_id: id, ..self },
            RelationField::PaymentId => RelationView { payment_id: id, ..self },
        }
    }

    /// All three identifiers are known.
    pub open spec fn is_complete(self) -> bool {
        self.transaction_id is Some && self.order_id is Some && self.payment_id is Some
    }

    /// The record has `id` in the column `field`.
    pub open spec fn holds(self, field: RelationField, id: Seq<char>) -> bool {
        self.get(field) == Some(id)
    }
}

/// The column that is neither `a` nor `b`.
pub open spec fn third_field(a: RelationField, b: RelationField) -> RelationField {
    if a != RelationField::TransactionId && b != RelationField::TransactionId {
        RelationField::TransactionId
    } else if a != RelationField::OrderId && b != RelationField::OrderId {
        RelationField::OrderId
    } else {
        RelationField::PaymentId
    }
}

/// Two identifiers that one event shows to belong together.
#[derive(Debug)]
pub enum IdPair {
    OrderPayment { order_id: String, payment_id: String },
    TransactionPayment { transaction_id: String, payment_id: String },
    TransactionOrder { transaction_id: String, order_id: String },
}

/// A pair of identifiers as contracts speak of it: the column and the value of
/// the identifier looked for first, then those of the second.
pub struct IdPairView {
    pub first_field: RelationField,
    pub first: Seq<char>,
    pub second_field: RelationField,
    pub second: Seq<char>,
}

impl View for IdPair {
    type V = IdPairView;

    open spec fn view(&self) -> IdPairView {
        match self {
            IdPair::OrderPayment { order_id, payment_id } => IdPairView {
                first_field: RelationField::OrderId,
                first: order_id@,
                second_field: RelationField::PaymentId,
                second: payment_id@,
            },
            IdPair::TransactionPayment { transaction_id, payment_id } => IdPairView {
                first_field: RelationField::TransactionId,
                first: transaction_id@,
                second_field: RelationField::PaymentId,
                second: payment_id@,
            },
            IdPair::TransactionOrder { transaction_id, order_id } => IdPairView {
                first_field: RelationField::TransactionId,
                first: transaction_id@,
                second_field: RelationField::OrderId,
                second: order_id@,
            },
        }
    }
}

impl IdPairView {
    /// The two identifiers stand in different columns.
    pub open spec fn wf(self) -> bool {
        self.first_field != self.second_field
    }

    /// The identifier that the pair has for a column.
    pub open spec fn value(self, field: RelationField) -> Seq<char> {
        if field == self.first_field {
            self.first
        } else {
            self.second
        }
    }

    /// The column that the pair says nothing of.
    pub open spec fn missing_field(self) -> RelationField {
        third_field(self.first_field, self.second_field)
    }

    /// A new record that holds the pair and nothing else.
    pub open spec fn fresh(self, id: nat) -> RelationView {
        RelationView { id, transaction_id: None, order_id: None, payment_id: None }.with(
            self.first_field,
            Some(self.first),
        ).with(self.second_field, Some(self.second))
    }
}

/// The position of the record that has `id` in the column `field`.
pub open spec fn holder(records: Seq<RelationView>, field: RelationField, id: Seq<char>) -> Option<
    int,
> {
    if exists|i: int| 0 <= i < records.len() && (#[trigger] records[i]).holds(field, id) {
        Some(choose|i: int| 0 <= i < records.len() && (#[trigger] records[i]).holds(field, id))
    } else {
        None
    }
}

/// Each identifier stands in at most one record.
pub open spec fn unique_ids(records: Seq<RelationView>) -> bool {
    forall|i: int, j: int, field: RelationField|
        0 <= i < records.len() && 0 <= j < records.len() && i != j && (
        #[trigger] records[i].get(field)) is Some ==> records[i].get(field) != (
        #[trigger] records[j].get(field))
}

/// Each record is numbered by its position.
pub open spec fn numbered(records: Seq<RelationView>) -> bool {
    forall|i: int| 0 <= i < records.len() ==> (#[trigger] records[i]).id == i
}

/// The records are as a correlation store keeps them: no identifier twice,
/// and each record numbered by its position.
pub open spec fn well_formed(records: Seq<RelationView>) -> bool {
    unique_ids(records) && numbered(records)
}

/// What a merge does to the records.
#[derive(Clone, Copy, Debug, PartialEq, Eq, Structural)]
pub enum MergeStep {
    /// The record at `index` gets its column `field` filled.
    Fill { index: usize, field: RelationField },
    /// A new record is put at the end.
    Insert,
}

/// A merge step as contracts speak of it.
pub enum MergeStepView {
    Fill { index: int, field: RelationField },
    Insert,
}

impl View for MergeStep {
    type V = MergeStepView;

    open spec fn view(&self) -> MergeStepView {
        match self {
            MergeStep::Fill { index, field } => MergeStepView::Fill {
                index: *index as int,
                field: *field,
            },
            MergeStep::Insert => MergeStepView::Insert,
        }
    }
}

impl MergeStepView {
    /// The position of the record that the step fills or makes.
    pub open spec fn position(self, records: Seq<RelationView>) -> int {
        match self {
            MergeStepView::Fill { index, .. } => index,
            MergeStepView::Insert => records.len() as int,
        }
    }

    /// The records after the step.
    pub open spec fn apply(self, records: Seq<RelationView>, ids: IdPairView) -> Seq<RelationView> {
        match self {
            MergeStepView::Fill { index, field } => records.update(
                index,
                records[index].with(field, Some(ids.value(field))),
            ),
            MergeStepView::Insert => records.push(ids.fresh(records.len())),
        }
    }

    /// The records after the step has been taken back.
    pub open spec fn revert(self, records: Seq<RelationView>) -> Seq<RelationView> {
        match self {
            MergeStepView::Fill { index, field } => records.update(
                index,
                records[index].with(field, None),
            ),
            MergeStepView::Insert => records.drop_last(),
        }
    }
}

/// The step by which a pair of identifiers enters the records.
///
/// A record that has the first identifier and nothing else gets the second.
/// Failing that, a record that has the second identifier and lacks the first
/// gets the first. Failing that, a new record holds the pair. A step that would
/// put an identifier into a second record is a conflict.
pub open spec fn merge_step(records: Seq<RelationView>, ids: IdPairView) -> Result<
    MergeStepView,
    StorageError,
> {
    let first = holder(records, ids.first_field, ids.first);
    let second = holder(records, ids.second_field, ids.second);
    if first is Some && records[first->0].get(ids.second_field) is None
        && records[first->0].get(ids.missing_field()) is None {
        if second is Some {
            Err(StorageError::IdentifierConflict)
        } else {
            Ok(MergeStepView::Fill { index: first->0, field: ids.second_field })
        }
    } else if second is Some && records[second->0].get(ids.first_field) is None {
        if first is Some {
            Err(StorageError::IdentifierConflict)
        } else {
            Ok(MergeStepView::Fill { index: second->0, field: ids.first_field })
        }
    } else if first is Some || second is Some {
        Err(StorageError::IdentifierConflict)
    } else {
        Ok(MergeStepView::Insert)
    }
}

/// The records after a pair of identifiers has been merged in, with the
/// position of the record that now holds the pair.
pub open spec fn merged(records: Seq<RelationView>, ids: IdPairView) -> Result<
    (Seq<RelationView>, int),
    StorageError,
> {
    match merge_step(records, ids) {
        Ok(step) => Ok((step.apply(records, ids), step.position(records))),
        Err(e) => Err(e),
    }
}

/// A record that has an identifier is the holder of that identifier.
pub proof fn lemma_holder_is(
    records: Seq<RelationView>,
    field: RelationField,
    id: Seq<char>,
    i: int,
)
    requires
        unique_ids(records),
        0 <= i < records.len(),
        records[i].holds(field, id),
    ensures
        holder(records, field, id) == Some(i),
{
}

/// The holder of an identifier has it.
pub proof fn lemma_holder_some(records: Seq<RelationView>, field: RelationField, id: Seq<char>)
    requires
        holder(records, field, id) is Some,
    ensures
        0 <= holder(records, field, id)->0 < records.len(),
        records[holder(records, field, id)->0].holds(field, id),
{
}

/// A merge keeps each identifier in at most one record, and the numbering.
pub proof fn lemma_merge_keeps_unique(records: Seq<RelationView>, ids: IdPairView)
    requires
        well_formed(records),
        ids.wf(),
        merge_step(records, ids) is Ok,
    ensures
        unique_ids(merge_step(records, ids)->Ok_0.apply(records, ids)),
        numbered(merge_step(records, ids)->Ok_0.apply(records, ids)),
{
    let step = merge_step(records, ids)->Ok_0;
    let after = step.apply(records, ids);
    match step {
        MergeStepView::Fill { index, field } => {
            assert forall|i: int, j: int, f: RelationField|
                0 <= i < after.len() && 0 <= j < after.len() && i != j && (
                #[trigger] after[i].get(f)) is Some implies after[i].get(f) != (
            #[trigger] after[j].get(f)) by {
                if f != field {
                    assert(records[i].get(f) != records[j].get(f));
                }
            }
        },
        MergeStepView::Insert => {
            assert forall|i: int, j: int, f: RelationField|
                0 <= i < after.len() && 0 <= j < after.len() && i != j && (
                #[trigger] after[i].get(f)) is Some implies after[i].get(f) != (
            #[trigger] after[j].get(f)) by {
            }
        },
    }
}

/// A merge step that is taken back leaves the records as they were.
pub proof fn lemma_revert_restores(records: Seq<RelationView>, ids: IdPairView)
    requires
        ids.wf(),
        merge_step(records, ids) is Ok,
    ensures
        merge_step(records, ids)->Ok_0.revert(merge_step(records, ids)->Ok_0.apply(records, ids))
            == records,
{
}

/// The step of a merge reaches a record that exists once the step is applied.
pub proof fn lemma_step_in_range(records: Seq<RelationView>, ids: IdPairView)
    requires
        merge_step(records, ids) is Ok,
    ensures
        0 <= merge_step(records, ids)->Ok_0.position(records) < merge_step(
            records,
            ids,
        )->Ok_0.apply(records, ids).len(),
{
}

/// Who holds an identifier after a merge: the record that the merge filled or
/// made holds the two identifiers of the pair, and every other identifier is
/// where it was.
pub proof fn lemma_holder_after_merge(
    records: Seq<RelationView>,
    ids: IdPairView,
    field: RelationField,
    id: Seq<char>,
)
    requires
        well_formed(records),
        ids.wf(),
        merge_step(records, ids) is Ok,
    ensures
        holder(merge_step(records, ids)->Ok_0.apply(records, ids), field, id) == if (field
            == ids.first_field && id == ids.first) || (field == ids.second_field && id
            == ids.second) {
            Some(merge_step(records, ids)->Ok_0.position(records))
        } else {
            holder(records, field, id)
        },
{
    let step = merge_step(records, ids)->Ok_0;
    let after = step.apply(records, ids);
    lemma_step_in_range(records, ids);
    if holder(records, ids.second_field, ids.second) is Some {
        lemma_holder_some(records, ids.second_field, ids.second);
    }
    if (field == ids.first_field && id == ids.first) || (field == ids.second_field && id
        == ids.second) {
        lemma_holder_is(after, field, id, step.position(records));
    } else if holder(records, field, id) is Some {
        lemma_holder_is(after, field, id, holder(records, field, id)->0);
    } else {
        assert forall|k: int| 0 <= k < after.len() implies !(#[trigger] after[k]).holds(
            field,
            id,
        ) by {
        }
    }
}

/// A merge changes one record at most, only by filling a column that was
/// empty, and removes none.
pub proof fn lemma_merge_grows(records: Seq<RelationView>, ids: IdPairView)
    requires
        merge_step(records, ids) is Ok,
    ensures
        grown(records, merge_step(records, ids)->Ok_0.apply(records, ids)),
{
}

/// Every record of `before` stands in `after` at its place, with every
/// identifier that it had.
pub open spec fn grown(before: Seq<RelationView>, after: Seq<RelationView>) -> bool {
    &&& before.len() <= after.len()
    &&& forall|i: int, field: RelationField|
        0 <= i < before.len() && (#[trigger] before[i].get(field)) is Some ==> after[i].get(field)
            == before[i].get(field)
}

} // verus!
