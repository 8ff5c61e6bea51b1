//! Append-only ledgers of amounts, whose running sum is derived from the rows.

use crate::errors::StorageError;
use vstd::prelude::*;

verus! {

/// One row of a ledger.
#[derive(Debug)]
pub struct LedgerEntry {
    pub amount: u64,
    pub occurred_on: String,
}

/// A `LedgerEntry` as contracts speak of it.
pub struct LedgerEntryView {
    pub amount: u64,
    pub occurred_on: Seq<char>,
}

impl View for LedgerEntry {
    type V = LedgerEntryView;

    open spec fn view(&self) -> LedgerEntryView {
        LedgerEntryView { amount: self.amount, occurred_on: self.occurred_on@ }
    }
}

/// The sum of the amounts of the rows.
pub open spec fn total(entries: Seq<LedgerEntryView>) -> int
    decreases entries.len(),
{
    if entries.len() == 0 {
        0
    } else {
        total(entries.drop_last()) + entries.last().amount
    }
}

/// One more row adds its amount to the sum.
pub proof fn lemma_total_push(entries: Seq<LedgerEntryView>, entry: LedgerEntryView)
    ensures
        total(entries.push(entry)) == total(entries) + entry.amount,
{
    assert(entries.push(entry).drop_last() =~= entries);
}

/// What a ledger holds after one more row, or the failure that keeps the row out.
pub open spec fn appended(entries: Seq<LedgerEntryView>, entry: LedgerEntryView) -> Result<
    Seq<LedgerEntryView>,
    StorageError,
> {
    if total(entries) + entry.amount <= u64::MAX {
        Ok(entries.push(entry))
    } else {
        Err(StorageError::AmountOutOfRange)
    }
}

/// An append-only ledger. Its rows are never changed or removed, and their sum
/// stays within `u64`.
#[derive(Debug)]
pub struct Ledger {
    entries: Vec<LedgerEntry>,
    sum: u64,
}

impl View for Ledger {
    type V = Seq<LedgerEntryView>;

    closed spec fn view(&self) -> Seq<LedgerEntryView> {
        self.entries@.map_values(|e: LedgerEntry| e@)
    }
}

impl Ledger {
    /// The kept sum is the sum of the rows.
    pub closed spec fn wf(&self) -> bool {
        self.sum == total(self@)
    }

    /// A well-formed ledger's rows add up to a `u64`.
    pub proof fn lemma_total_in_range(&self)
        requires
            self.wf(),
        ensures
            0 <= total(self@) <= u64::MAX,
    {
    }

    /// A ledger without rows.
    pub fn new() -> (r: Ledger)
        ensures
            r.wf(),
            r@ == Seq::<LedgerEntryView>::empty(),
    {
        let r = Ledger { entries: Vec::new(), sum: 0 };
        r
    }

    /// Appends one row, unless the sum of the rows would leave `u64`.
    pub fn append(&mut self, amount: u64, occurred_on: String) -> (r: Result<(), StorageError>)
        requires
            old(self).wf(),
        ensures
            final(self).wf(),
            match appended(old(self)@, LedgerEntryView { amount, occurred_on: occurred_on@ }) {
                Ok(entries) => r is Ok && final(self)@ == entries,
                Err(e) => r == Err::<(), StorageError>(e) && final(self)@ == old(self)@,
            },
    {
        match self.sum.checked_add(amount) {
            Some(sum) => {
                let entry = LedgerEntry { amount, occurred_on };
                let ghost row = entry@;
                self.entries.push(entry);
                self.sum = sum;
                proof {
                    assert(self@ =~= old(self)@.push(row));
                    lemma_total_push(old(self)@, row);
                }
                Ok(())
            },
            None => Err(StorageError::AmountOutOfRange),
        }
    }

    /// The sum of the amounts of all rows.
    pub fn total(&self) -> (r: u64)
        requires
            self.wf(),
        ensures
            r == total(self@),
    {
        self.sum
    }

    /// The number of rows.
    pub fn len(&self) -> (r: usize)
        ensures
            r == self@.len(),
    {
        self.entries.len()
    }

    /// The row at `index`, counted from the oldest.
    pub fn entry(&self, index: usize) -> (r: Option<&LedgerEntry>)
        ensures
            match r {
                Some(e) => index < self@.len() && e@ == self@[index as int],
                None => index >= self@.len(),
            },
    {
        if index < self.entries.len() {
            Some(&self.entries[index])
        } else {
            None
        }
    }
}

} // verus!
