//! Rows that are found by a key: a sequence of rows read as a map.

use vstd::prelude::*;

verus! {

/// A row of a table, in the form contracts speak of, with the key that finds it.
pub trait Keyed: Sized {
    type Key;

    spec fn key(self) -> Self::Key;
}

/// No two rows have the same key.
pub open spec fn distinct_keys<R: Keyed>(rows: Seq<R>) -> bool {
    forall|i: int, j: int|
        0 <= i < rows.len() && 0 <= j < rows.len() && i != j ==> (#[trigger] rows[i]).key() != (
        #[trigger] rows[j]).key()
}

/// The rows as a map from key to row; of two rows with one key the later one counts.
pub open spec fn by_key<R: Keyed>(rows: Seq<R>) -> Map<R::Key, R>
    decreases rows.len(),
{
    if rows.len() == 0 {
        Map::empty()
    } else {
        by_key(rows.drop_last()).insert(rows.last().key(), rows.last())
    }
}

/// A key is in the map exactly if some row has it.
pub proof fn lemma_by_key_dom<R: Keyed>(rows: Seq<R>, k: R::Key)
    ensures
        by_key(rows).dom().contains(k) <==> exists|i: int|
            0 <= i < rows.len() && (#[trigger] rows[i]).key() == k,
    decreases rows.len(),
{
    if rows.len() > 0 {
        let front = rows.drop_last();
        lemma_by_key_dom(front, k);
        if exists|i: int| 0 <= i < rows.len() && (#[trigger] rows[i]).key() == k {
            let i = choose|i: int| 0 <= i < rows.len() && (#[trigger] rows[i]).key() == k;
            if i < rows.len() - 1 {
                assert(front[i].key() == k);
            }
        }
        if by_key(front).dom().contains(k) {
            let i = choose|i: int| 0 <= i < front.len() && (#[trigger] front[i]).key() == k;
            assert(rows[i].key() == k);
        }
    }
}

/// Rows with distinct keys, without the last of them, have distinct keys.
proof fn lemma_distinct_front<R: Keyed>(rows: Seq<R>)
    requires
        distinct_keys(rows),
        rows.len() > 0,
    ensures
        distinct_keys(rows.drop_last()),
{
    let front = rows.drop_last();
    assert forall|a: int, b: int|
        0 <= a < front.len() && 0 <= b < front.len() && a != b implies (#[trigger] front[a]).key()
        != (#[trigger] front[b]).key() by {
        assert(rows[a].key() != rows[b].key());
    }
}

/// With distinct keys, each row is what the map holds under its key.
pub proof fn lemma_by_key_row<R: Keyed>(rows: Seq<R>, i: int)
    requires
        distinct_keys(rows),
        0 <= i < rows.len(),
    ensures
        by_key(rows).dom().contains(rows[i].key()),
        by_key(rows)[rows[i].key()] == rows[i],
    decreases rows.len(),
{
    if i < rows.len() - 1 {
        lemma_distinct_front(rows);
        lemma_by_key_row(rows.drop_last(), i);
        assert(rows[i].key() != rows[rows.len() - 1].key());
    }
}

/// A row with a new key, put at the end, is one more entry of the map.
pub proof fn lemma_by_key_push<R: Keyed>(rows: Seq<R>, row: R)
    requires
        distinct_keys(rows),
        !by_key(rows).dom().contains(row.key()),
    ensures
        distinct_keys(rows.push(row)),
        by_key(rows.push(row)) == by_key(rows).insert(row.key(), row),
{
    let longer = rows.push(row);
    assert(longer.drop_last() =~= rows);
    lemma_by_key_dom(rows, row.key());
    assert forall|i: int, j: int|
        0 <= i < longer.len() && 0 <= j < longer.len() && i != j implies (
    #[trigger] longer[i]).key() != (#[trigger] longer[j]).key() by {
        if i < rows.len() && j < rows.len() {
            assert(rows[i].key() != rows[j].key());
        }
    }
}

/// A row replaced by one with the same key replaces the entry under that key.
pub proof fn lemma_by_key_update<R: Keyed>(rows: Seq<R>, i: int, row: R)
    requires
        distinct_keys(rows),
        0 <= i < rows.len(),
        row.key() == rows[i].key(),
    ensures
        distinct_keys(rows.update(i, row)),
        by_key(rows.update(i, row)) == by_key(rows).insert(row.key(), row),
    decreases rows.len(),
{
    let changed = rows.update(i, row);
    let front = rows.drop_last();
    assert forall|a: int, b: int|
        0 <= a < changed.len() && 0 <= b < changed.len() && a != b implies (
    #[trigger] changed[a]).key() != (#[trigger] changed[b]).key() by {
        assert(rows[a].key() != rows[b].key());
    }
    lemma_distinct_front(rows);
    if i == rows.len() - 1 {
        assert(changed.drop_last() =~= front);
    } else {
        lemma_by_key_update(front, i, row);
        assert(changed.drop_last() =~= front.update(i, row));
        assert(rows[i].key() != rows[rows.len() - 1].key());
    }
    assert(by_key(changed) =~= by_key(rows).insert(row.key(), row));
}

/// A row taken out of the sequence leaves the map without its key.
pub proof fn lemma_by_key_remove<R: Keyed>(rows: Seq<R>, i: int)
    requires
        distinct_keys(rows),
        0 <= i < rows.len(),
    ensures
        distinct_keys(rows.remove(i)),
        by_key(rows.remove(i)) == by_key(rows).remove(rows[i].key()),
{
    let fewer = rows.remove(i);
    let without = by_key(rows).remove(rows[i].key());
    // The row at `a` of what is left stood at `a`, or one further on.
    let from = |a: int| if a < i { a } else { a + 1 };
    assert forall|a: int, b: int|
        0 <= a < fewer.len() && 0 <= b < fewer.len() && a != b implies (#[trigger] fewer[a]).key()
        != (#[trigger] fewer[b]).key() by {
        assert(rows[from(a)].key() != rows[from(b)].key());
    }
    assert forall|k: R::Key| by_key(fewer).dom().contains(k) <==> #[trigger] without.dom().contains(
        k,
    ) by {
        lemma_by_key_dom(fewer, k);
        lemma_by_key_dom(rows, k);
        if by_key(fewer).dom().contains(k) {
            let a = choose|a: int| 0 <= a < fewer.len() && (#[trigger] fewer[a]).key() == k;
            assert(rows[from(a)].key() == k);
            assert(rows[from(a)].key() != rows[i].key());
        }
        if without.dom().contains(k) {
            let a = choose|a: int| 0 <= a < rows.len() && (#[trigger] rows[a]).key() == k;
            let left = if a < i { a } else { a - 1 };
            assert(fewer[left].key() == k);
        }
    }
    assert forall|k: R::Key| #[trigger] by_key(fewer).dom().contains(k) implies by_key(fewer)[k]
        == without[k] by {
        lemma_by_key_dom(fewer, k);
        let a = choose|a: int| 0 <= a < fewer.len() && (#[trigger] fewer[a]).key() == k;
        lemma_by_key_row(fewer, a);
        lemma_by_key_row(rows, from(a));
    }
    assert(by_key(fewer) =~= without);
}


/// A row that is stored in a table: it is found by a key, and its view says
/// under which key.
pub trait Row: View + Sized where Self::V: Keyed {
    /// What a caller hands over to name a row.
    type Id;

    /// The key that an `Id` stands for.
    spec fn id_key(id: &Self::Id) -> <Self::V as Keyed>::Key;

    /// Whether the row is the one that `id` names.
    fn is(&self, id: &Self::Id) -> (r: bool)
        ensures
            r == (self@.key() == Self::id_key(id)),
    ;

    /// Whether two rows have the same key.
    fn same_key(&self, other: &Self) -> (r: bool)
        ensures
            r == (self@.key() == other@.key()),
    ;
}

/// The views of the rows, in the order in which they are stored.
pub open spec fn row_views<R: Row>(rows: Seq<R>) -> Seq<R::V> where R::V: Keyed {
    rows.map_values(|r: R| r@)
}

/// A table of rows with distinct keys.
pub struct Table<R: Row> where R::V: Keyed {
    rows: Vec<R>,
}

impl<R: Row> View for Table<R> where R::V: Keyed {
    type V = Map<<R::V as Keyed>::Key, R::V>;

    closed spec fn view(&self) -> Map<<R::V as Keyed>::Key, R::V> {
        by_key(row_views(self.rows@))
    }
}

impl<R: Row> Table<R> where R::V: Keyed {
    /// No two rows have the same key.
    pub closed spec fn wf(&self) -> bool {
        distinct_keys(row_views(self.rows@))
    }

    /// A table without rows.
    pub fn new() -> (r: Self)
        ensures
            r.wf(),
            r@ == Map::<<R::V as Keyed>::Key, R::V>::empty(),
    {
        Table { rows: Vec::new() }
    }

    /// All rows, each of them once. The order in which they stand is not part
    /// of what a table is.
    pub fn rows(&self) -> (r: &Vec<R>)
        requires
            self.wf(),
        ensures
            distinct_keys(row_views(r@)),
            by_key(row_views(r@)) == self@,
    {
        &self.rows
    }

    fn position(&self, id: &R::Id) -> (r: Option<usize>)
        requires
            self.wf(),
        ensures
            match r {
                Some(i) => i < self.rows.len() && self.rows[i as int]@.key() == R::id_key(id)
                    && self@.dom().contains(R::id_key(id)) && self@[R::id_key(id)]
                    == self.rows[i as int]@,
                None => !self@.dom().contains(R::id_key(id)),
            },
    {
        let ghost views = row_views(self.rows@);
        let mut i: usize = 0;
        while i < self.rows.len()
            invariant
                self.wf(),
                i <= self.rows.len(),
                views == row_views(self.rows@),
                forall|j: int| 0 <= j < i ==> (#[trigger] views[j]).key() != R::id_key(id),
            decreases self.rows.len() - i,
        {
            if self.rows[i].is(id) {
                proof {
                    lemma_by_key_row(views, i as int);
                }
                return Some(i);
            }
            i += 1;
        }
        proof {
            lemma_by_key_dom(views, R::id_key(id));
        }
        None
    }

    /// The row that `id` names.
    pub fn get(&self, id: &R::Id) -> (r: Option<&R>)
        requires
            self.wf(),
        ensures
            match r {
                Some(row) => self@.dom().contains(R::id_key(id)) && row@ == self@[R::id_key(id)]
                    && row@.key() == R::id_key(id),
                None => !self@.dom().contains(R::id_key(id)),
            },
    {
        match self.position(id) {
            Some(i) => Some(&self.rows[i]),
            None => None,
        }
    }

    /// Whether a row has the key of `row`.
    pub fn has_key_of(&self, row: &R) -> (r: bool)
        requires
            self.wf(),
        ensures
            r == self@.dom().contains(row@.key()),
    {
        let ghost views = row_views(self.rows@);
        let mut i: usize = 0;
        while i < self.rows.len()
            invariant
                self.wf(),
                i <= self.rows.len(),
                views == row_views(self.rows@),
                forall|j: int| 0 <= j < i ==> (#[trigger] views[j]).key() != row@.key(),
            decreases self.rows.len() - i,
        {
            if self.rows[i].same_key(row) {
                proof {
                    lemma_by_key_row(views, i as int);
                }
                return true;
            }
            i += 1;
        }
        proof {
            lemma_by_key_dom(views, row@.key());
        }
        false
    }

    /// Stores a row, unless a row with its key is there already; then the row
    /// comes back.
    pub fn insert(&mut self, row: R) -> (r: Result<(), R>)
        requires
            old(self).wf(),
        ensures
            final(self).wf(),
            match r {
                Ok(()) => !old(self)@.dom().contains(row@.key()) && final(self)@ == old(
                    self,
                )@.insert(row@.key(), row@),
                Err(back) => old(self)@.dom().contains(row@.key()) && back == row && final(self)@
                    == old(self)@,
            },
    {
        if self.has_key_of(&row) {
            Err(row)
        } else {
            proof {
                lemma_by_key_push(row_views(self.rows@), row@);
                assert(row_views(self.rows@.push(row)) =~= row_views(self.rows@).push(row@));
            }
            self.rows.push(row);
            Ok(())
        }
    }

    /// Stores a row in place of the row that has its key.
    pub(crate) fn replace(&mut self, row: R)
        requires
            old(self).wf(),
            old(self)@.dom().contains(row@.key()),
        ensures
            final(self).wf(),
            final(self)@ == old(self)@.insert(row@.key(), row@),
    {
        let ghost views = row_views(self.rows@);
        let mut i: usize = 0;
        while i < self.rows.len()
            invariant
                self.wf(),
                *self == *old(self),
                i <= self.rows.len(),
                views == row_views(self.rows@),
                forall|j: int| 0 <= j < i ==> (#[trigger] views[j]).key() != row@.key(),
            decreases self.rows.len() - i,
        {
            if self.rows[i].same_key(&row) {
                proof {
                    lemma_by_key_update(views, i as int, row@);
                    assert(row_views(self.rows@.update(i as int, row)) =~= views.update(
                        i as int,
                        row@,
                    ));
                }
                self.rows[i] = row;
                return ;
            }
            i += 1;
        }
        proof {
            lemma_by_key_dom(views, row@.key());
        }
    }

    /// Takes the row that `id` names out again: the way back from an `insert`
    /// whose unit of work failed later.
    pub(crate) fn discard(&mut self, id: &R::Id)
        requires
            old(self).wf(),
        ensures
            final(self).wf(),
            final(self)@ == old(self)@.remove(R::id_key(id)),
    {
        if let Some(i) = self.position(id) {
            proof {
                lemma_by_key_remove(row_views(self.rows@), i as int);
                assert(row_views(self.rows@.remove(i as int)) =~= row_views(self.rows@).remove(
                    i as int,
                ));
            }
            self.rows.remove(i);
        } else {
            assert(self@ =~= self@.remove(R::id_key(id)));
        }
    }
}

} // verus!
