//! The normalized rows that integration has produced, keyed by table and
//! id. Writing a row under a key that exists replaces the row, so writing
//! the same row twice is writing it once.

use vstd::prelude::*;
use crate::sync::link_store::Id;
use crate::sync::records::{
    DeleteView,
    DomainRow,
    DomainRowView,
    IntegrationRecords,
    PullDeleteRecord,
    PullUpsertRecord,
    RecordsView,
    UpsertView,
};
use crate::sync::table::LegacyTable;

verus! {

/// The key of a normalized row.
pub type RowKey = (LegacyTable, Id);

/// The content of a domain store: each key with its row.
pub type DomainMap = Map<RowKey, DomainRowView>;

/// The key under which `row` is stored.
pub open spec fn key_of(row: DomainRowView) -> RowKey {
    (row.table, row.id)
}

/// The store after `row` was written: it replaces whatever its key held.
pub open spec fn upserted(m: DomainMap, row: DomainRowView) -> DomainMap {
    m.insert(key_of(row), row)
}

/// The store after the row of `table` with `id` was removed, if there was
/// one.
pub open spec fn removed(m: DomainMap, table: LegacyTable, id: Id) -> DomainMap {
    m.remove((table, id))
}

/// The store after the normalized rows among `upserts` were written, first
/// to last. Rows of the link store are not kept here.
pub open spec fn with_upserts(m: DomainMap, upserts: Seq<UpsertView>) -> DomainMap
    decreases upserts.len(),
{
    if upserts.len() == 0 {
        m
    } else {
        let rest = with_upserts(m, upserts.drop_last());
        match upserts.last() {
            UpsertView::Row(row) => upserted(rest, row),
            UpsertView::NameLink(_) => rest,
        }
    }
}

/// The store after the rows that `deletes` names were removed, first to
/// last.
pub open spec fn with_deletes(m: DomainMap, deletes: Seq<DeleteView>) -> DomainMap
    decreases deletes.len(),
{
    if deletes.len() == 0 {
        m
    } else {
        let rest = with_deletes(m, deletes.drop_last());
        removed(rest, deletes.last().table, deletes.last().id)
    }
}

/// The store after `records` was applied: all writes, then all removals.
pub open spec fn applied(m: DomainMap, records: RecordsView) -> DomainMap {
    with_deletes(with_upserts(m, records.upserts), records.deletes)
}

/// No two rows share a key.
pub open spec fn distinct_keys(rows: Seq<DomainRowView>) -> bool {
    forall|i: int, j: int|
        0 <= i < rows.len() && 0 <= j < rows.len() && key_of(#[trigger] rows[i]) == key_of(
            #[trigger] rows[j],
        ) ==> i == j
}

/// Some row of `rows` is stored under `key`.
pub open spec fn has_key(rows: Seq<DomainRowView>, key: RowKey) -> bool {
    exists|i: int| 0 <= i < rows.len() && key_of(#[trigger] rows[i]) == key
}

/// The index of a row that is stored under `key`.
pub open spec fn index_of_key(rows: Seq<DomainRowView>, key: RowKey) -> int {
    choose|i: int| 0 <= i < rows.len() && key_of(#[trigger] rows[i]) == key
}

/// The content that a sequence of rows stands for.
pub open spec fn rows_content(rows: Seq<DomainRowView>) -> DomainMap {
    Map::new(|key: RowKey| has_key(rows, key), |key: RowKey| rows[index_of_key(rows, key)])
}

/// With distinct keys, each row is what the content holds for its key.
proof fn lemma_rows_content(rows: Seq<DomainRowView>)
    requires
        distinct_keys(rows),
    ensures
        forall|i: int|
            0 <= i < rows.len() ==> rows_content(rows).dom().contains(key_of(#[trigger] rows[i]))
                && rows_content(rows)[key_of(rows[i])] == rows[i],
        forall|key: RowKey|
            rows_content(rows).dom().contains(key) ==> 0 <= index_of_key(rows, key) < rows.len()
                && key_of(rows[index_of_key(rows, key)]) == key,
{
    assert forall|i: int| 0 <= i < rows.len() implies rows_content(rows).dom().contains(
        key_of(#[trigger] rows[i]),
    ) && rows_content(rows)[key_of(rows[i])] == rows[i] by {
        let key = key_of(rows[i]);
        assert(has_key(rows, key));
        let k = index_of_key(rows, key);
        assert(0 <= k < rows.len() && key_of(rows[k]) == key);
        assert(k == i);
    }
}

/// Appending a row under a new key writes it.
proof fn lemma_push_row(rows: Seq<DomainRowView>, row: DomainRowView)
    requires
        distinct_keys(rows),
        !has_key(rows, key_of(row)),
    ensures
        distinct_keys(rows.push(row)),
        rows_content(rows.push(row)) == upserted(rows_content(rows), row),
{
    let after = rows.push(row);
    assert(distinct_keys(after)) by {
        assert forall|i: int, j: int|
            0 <= i < after.len() && 0 <= j < after.len() && key_of(#[trigger] after[i]) == key_of(
                #[trigger] after[j],
            ) implies i == j by {
            if i < rows.len() && j == rows.len() {
                assert(key_of(rows[i]) == key_of(row));
            }
            if j < rows.len() && i == rows.len() {
                assert(key_of(rows[j]) == key_of(row));
            }
            if i < rows.len() && j < rows.len() {
                assert(key_of(rows[i]) == key_of(rows[j]));
            }
        }
    }
    lemma_rows_content(rows);
    lemma_rows_content(after);
    let target = upserted(rows_content(rows), row);
    assert forall|key: RowKey| rows_content(after).dom().contains(key) <==> target.dom().contains(
        key,
    ) by {
        if rows_content(after).dom().contains(key) {
            let k = index_of_key(after, key);
            if k < rows.len() {
                assert(key_of(rows[k]) == key);
            }
        }
        if target.dom().contains(key) {
            if key == key_of(row) {
                assert(key_of(after[rows.len() as int]) == key);
            } else {
                let k = index_of_key(rows, key);
                assert(key_of(after[k]) == key);
            }
        }
    }
    assert forall|key: RowKey| rows_content(after).dom().contains(key) implies rows_content(
        after,
    )[key] == target[key] by {
        let k = index_of_key(after, key);
        if k < rows.len() {
            assert(key_of(rows[k]) == key);
        }
    }
    assert(rows_content(after) =~= target);
}

/// Replacing a row by one with the same key writes it.
proof fn lemma_replace_row(rows: Seq<DomainRowView>, i: int, row: DomainRowView)
    requires
        distinct_keys(rows),
        0 <= i < rows.len(),
        key_of(rows[i]) == key_of(row),
    ensures
        distinct_keys(rows.update(i, row)),
        rows_content(rows.update(i, row)) == upserted(rows_content(rows), row),
{
    let after = rows.update(i, row);
    assert(distinct_keys(after)) by {
        assert forall|a: int, b: int|
            0 <= a < after.len() && 0 <= b < after.len() && key_of(#[trigger] after[a]) == key_of(
                #[trigger] after[b],
            ) implies a == b by {
            assert(key_of(rows[a]) == key_of(rows[b]));
        }
    }
    lemma_rows_content(rows);
    lemma_rows_content(after);
    let target = upserted(rows_content(rows), row);
    assert forall|key: RowKey| rows_content(after).dom().contains(key) <==> target.dom().contains(
        key,
    ) by {
        if rows_content(after).dom().contains(key) {
            let k = index_of_key(after, key);
            assert(key_of(rows[k]) == key);
        }
        if target.dom().contains(key) {
            if key == key_of(row) {
                assert(key_of(after[i]) == key);
            } else {
                let k = index_of_key(rows, key);
                assert(key_of(after[k]) == key);
            }
        }
    }
    assert forall|key: RowKey| rows_content(after).dom().contains(key) implies rows_content(
        after,
    )[key] == target[key] by {
        let k = index_of_key(after, key);
        assert(key_of(rows[k]) == key);
    }
    assert(rows_content(after) =~= target);
}

/// Taking a row out removes its key.
proof fn lemma_remove_row(rows: Seq<DomainRowView>, i: int)
    requires
        distinct_keys(rows),
        0 <= i < rows.len(),
    ensures
        distinct_keys(rows.remove(i)),
        rows_content(rows.remove(i)) == removed(rows_content(rows), rows[i].table, rows[i].id),
{
    let after = rows.remove(i);
    let gone = key_of(rows[i]);
    assert forall|a: int| 0 <= a < after.len() implies #[trigger] after[a] == rows[if a < i {
        a
    } else {
        a + 1
    }] by {}
    assert(distinct_keys(after)) by {
        assert forall|a: int, b: int|
            0 <= a < after.len() && 0 <= b < after.len() && key_of(#[trigger] after[a]) == key_of(
                #[trigger] after[b],
            ) implies a == b by {
            let a2 = if a < i {
                a
            } else {
                a + 1
            };
            let b2 = if b < i {
                b
            } else {
                b + 1
            };
            assert(key_of(rows[a2]) == key_of(rows[b2]));
        }
    }
    lemma_rows_content(rows);
    lemma_rows_content(after);
    let target = removed(rows_content(rows), rows[i].table, rows[i].id);
    assert forall|key: RowKey| rows_content(after).dom().contains(key) <==> target.dom().contains(
        key,
    ) by {
        if rows_content(after).dom().contains(key) {
            let k = index_of_key(after, key);
            let k2 = if k < i {
                k
            } else {
                k + 1
            };
            assert(key_of(rows[k2]) == key);
            if key == gone {
                assert(key_of(rows[i]) == key_of(rows[k2]));
            }
        }
        if target.dom().contains(key) {
            let k = index_of_key(rows, key);
            assert(k != i);
            let k2 = if k < i {
                k
            } else {
                k - 1
            };
            assert(key_of(after[k2]) == key);
        }
    }
    assert forall|key: RowKey| rows_content(after).dom().contains(key) implies rows_content(
        after,
    )[key] == target[key] by {
        let k = index_of_key(after, key);
        let k2 = if k < i {
            k
        } else {
            k + 1
        };
        assert(key_of(rows[k2]) == key);
    }
    assert(rows_content(after) =~= target);
}

/// The normalized rows of the domain.
pub struct DomainStore {
    rows: Vec<DomainRow>,
}

impl View for DomainStore {
    type V = DomainMap;

    open spec fn view(&self) -> DomainMap {
        rows_content(self.row_views())
    }
}

impl DomainStore {
    /// The rows of the store, in the order in which their keys were first
    /// written.
    pub closed spec fn row_views(&self) -> Seq<DomainRowView> {
        self.rows@.map_values(|r: DomainRow| r@)
    }

    /// The store's invariant: no two rows share a key.
    pub open spec fn wf(&self) -> bool {
        distinct_keys(self.row_views())
    }

    /// An empty store.
    pub fn new() -> (store: DomainStore)
        ensures
            store.wf(),
            store.row_views() == Seq::<DomainRowView>::empty(),
            store@ == Map::<RowKey, DomainRowView>::empty(),
    {
        let store = DomainStore { rows: Vec::new() };
        assert(store.row_views() =~= Seq::<DomainRowView>::empty());
        assert(store@ =~= Map::<RowKey, DomainRowView>::empty());
        store
    }

    /// The number of rows.
    pub fn len(&self) -> (n: usize)
        ensures
            n == self.row_views().len(),
    {
        self.rows.len()
    }

    /// A copy of the rows, in the order in which their keys were first
    /// written.
    pub fn rows(&self) -> (copy: Vec<DomainRow>)
        ensures
            copy@.map_values(|r: DomainRow| r@) == self.row_views(),
    {
        let mut copy: Vec<DomainRow> = Vec::new();
        let mut i: usize = 0;
        while i < self.rows.len()
            invariant
                i <= self.rows.len(),
                copy.len() == i,
                forall|j: int| 0 <= j < i ==> copy[j]@ == self.rows[j]@,
            decreases self.rows.len() - i,
        {
            copy.push(self.rows[i].clone());
            i += 1;
        }
        assert(copy@.map_values(|r: DomainRow| r@) =~= self.row_views());
        copy
    }

    fn position(&self, table: LegacyTable, id: &String) -> (r: Option<usize>)
        ensures
            match r {
                Some(i) => i < self.rows.len() && key_of(self.rows[i as int]@) == (table, id@),
                None => !has_key(self.row_views(), (table, id@)),
            },
    {
        let mut i: usize = 0;
        while i < self.rows.len()
            invariant
                i <= self.rows.len(),
                forall|j: int| 0 <= j < i ==> key_of(self.rows[j]@) != (table, id@),
            decreases self.rows.len() - i,
        {
            if self.rows[i].table == table && self.rows[i].id == *id {
                return Some(i);
            }
            i += 1;
        }
        assert forall|j: int| 0 <= j < self.row_views().len() implies key_of(
            #[trigger] self.row_views()[j],
        ) != (table, id@) by {
            assert(key_of(self.rows[j]@) != (table, id@));
        }
        None
    }

    /// Whether a row of `table` with `id` is stored.
    pub fn contains(&self, table: LegacyTable, id: &str) -> (found: bool)
        requires
            self.wf(),
        ensures
            found == self@.dom().contains((table, id@)),
    {
        proof {
            lemma_rows_content(self.row_views());
        }
        let key: String = id.to_owned();
        match self.position(table, &key) {
            Some(i) => {
                assert(key_of(self.row_views()[i as int]) == (table, id@));
                true
            },
            None => false,
        }
    }

    /// The row of `table` with `id`, if it is stored.
    pub fn get(&self, table: LegacyTable, id: &str) -> (row: Option<DomainRow>)
        requires
            self.wf(),
        ensures
            match row {
                Some(r) => self@.dom().contains((table, id@)) && r@ == self@[(table, id@)],
                None => !self@.dom().contains((table, id@)),
            },
    {
        proof {
            lemma_rows_content(self.row_views());
        }
        let key: String = id.to_owned();
        match self.position(table, &key) {
            Some(i) => {
                assert(key_of(self.row_views()[i as int]) == (table, id@));
                Some(self.rows[i].clone())
            },
            None => None,
        }
    }

    /// Writes `row`. A row with the same table and id is replaced.
    pub fn upsert(&mut self, row: DomainRow)
        requires
            old(self).wf(),
        ensures
            final(self).wf(),
            final(self)@ == upserted(old(self)@, row@),
    {
        let ghost before = self.row_views();
        match self.position(row.table, &row.id) {
            Some(i) => {
                proof {
                    assert(key_of(before[i as int]) == key_of(row@));
                    lemma_replace_row(before, i as int, row@);
                }
                self.rows.set(i, row);
                assert(self.row_views() =~= before.update(i as int, row@));
            },
            None => {
                proof {
                    lemma_push_row(before, row@);
                }
                self.rows.push(row);
                assert(self.row_views() =~= before.push(row@));
            },
        }
    }

    /// Removes the row of `table` with `id`. Without such a row nothing
    /// changes.
    pub fn delete(&mut self, table: LegacyTable, id: &str)
        requires
            old(self).wf(),
        ensures
            final(self).wf(),
            final(self)@ == removed(old(self)@, table, id@),
    {
        let ghost before = self.row_views();
        let key: String = id.to_owned();
        match self.position(table, &key) {
            Some(i) => {
                proof {
                    assert(key_of(before[i as int]) == (table, id@));
                    lemma_remove_row(before, i as int);
                }
                self.rows.remove(i);
                assert(self.row_views() =~= before.remove(i as int));
            },
            None => {
                assert(removed(self@, table, id@) =~= self@);
            },
        }
    }

    /// Applies the records of one translated change: all writes in order,
    /// then all removals in order.
    pub fn apply(&mut self, records: &IntegrationRecords)
        requires
            old(self).wf(),
        ensures
            final(self).wf(),
            final(self)@ == applied(old(self)@, records@),
    {
        let ghost start = self@;
        let ghost ups = records@.upserts;
        let mut i: usize = 0;
        assert(ups.take(0) =~= Seq::<UpsertView>::empty());
        while i < records.upserts.len()
            invariant
                i <= records.upserts.len(),
                ups == records@.upserts,
                ups.len() == records.upserts.len(),
                self.wf(),
                self@ == with_upserts(start, ups.take(i as int)),
            decreases records.upserts.len() - i,
        {
            proof {
                assert(ups.take(i + 1).drop_last() =~= ups.take(i as int));
                assert(ups.take(i + 1).last() == records.upserts[i as int]@);
            }
            match &records.upserts[i] {
                PullUpsertRecord::Row(row) => {
                    self.upsert(row.clone());
                },
                PullUpsertRecord::NameLink(_) => {},
            }
            i += 1;
        }
        assert(ups.take(i as int) =~= ups);
        let ghost middle = self@;
        let ghost dels = records@.deletes;
        let mut k: usize = 0;
        assert(dels.take(0) =~= Seq::<DeleteView>::empty());
        while k < records.deletes.len()
            invariant
                k <= records.deletes.len(),
                dels == records@.deletes,
                dels.len() == records.deletes.len(),
                self.wf(),
                self@ == with_deletes(middle, dels.take(k as int)),
            decreases records.deletes.len() - k,
        {
            proof {
                assert(dels.take(k + 1).drop_last() =~= dels.take(k as int));
                assert(dels.take(k + 1).last() == records.deletes[k as int]@);
            }
            let target: &PullDeleteRecord = &records.deletes[k];
            self.delete(target.table, target.id.as_str());
            k += 1;
        }
        assert(dels.take(k as int) =~= dels);
    }
}

impl Clone for DomainStore {
    fn clone(&self) -> (copy: DomainStore)
        ensures
            copy.row_views() == self.row_views(),
    {
        let rows = self.rows();
        DomainStore { rows }
    }
}

} // verus!
