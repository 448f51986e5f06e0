//! Normalized rows and the operations that a translated record asks for.

use vstd::prelude::*;
use crate::sync::link_store::{EntityLink, Id, LinkRow};
use crate::sync::table::LegacyTable;
use crate::text::{clone_text, text_of};

verus! {

/// A normalized row, as contracts see it.
pub struct DomainRowView {
    pub table: LegacyTable,
    pub id: Id,
    pub entity_id: Option<Id>,
    pub parent_id: Option<Id>,
    pub label: Seq<char>,
}

/// A normalized row.
///
/// `entity_id` is always a canonical id of the link store, never the raw id
/// that the legacy record carried.
#[derive(Debug)]
pub struct DomainRow {
    pub table: LegacyTable,
    pub id: String,
    pub entity_id: Option<String>,
    pub parent_id: Option<String>,
    pub label: String,
}

impl View for DomainRow {
    type V = DomainRowView;

    open spec fn view(&self) -> DomainRowView {
        DomainRowView {
            table: self.table,
            id: self.id@,
            entity_id: text_of(self.entity_id),
            parent_id: text_of(self.parent_id),
            label: self.label@,
        }
    }
}

impl Clone for DomainRow {
    fn clone(&self) -> (copy: DomainRow)
        ensures
            copy@ == self@,
    {
        DomainRow {
            table: self.table,
            id: self.id.clone(),
            entity_id: clone_text(&self.entity_id),
            parent_id: clone_text(&self.parent_id),
            label: self.label.clone(),
        }
    }
}

/// A row to write, as contracts see it.
pub enum UpsertView {
    NameLink(LinkRow),
    Row(DomainRowView),
}

/// A row to write: a row of the link store or a normalized row.
#[derive(Debug)]
pub enum PullUpsertRecord {
    NameLink(EntityLink),
    Row(DomainRow),
}

impl View for PullUpsertRecord {
    type V = UpsertView;

    open spec fn view(&self) -> UpsertView {
        match self {
            PullUpsertRecord::NameLink(link) => UpsertView::NameLink(link@),
            PullUpsertRecord::Row(row) => UpsertView::Row(row@),
        }
    }
}

impl Clone for PullUpsertRecord {
    fn clone(&self) -> (copy: PullUpsertRecord)
        ensures
            copy@ == self@,
    {
        match self {
            PullUpsertRecord::NameLink(link) => PullUpsertRecord::NameLink(link.clone()),
            PullUpsertRecord::Row(row) => PullUpsertRecord::Row(row.clone()),
        }
    }
}

/// A row to remove, as contracts see it.
pub struct DeleteView {
    pub table: LegacyTable,
    pub id: Id,
}

/// A row to remove, by table and id.
#[derive(Debug)]
pub struct PullDeleteRecord {
    pub table: LegacyTable,
    pub id: String,
}

impl View for PullDeleteRecord {
    type V = DeleteView;

    open spec fn view(&self) -> DeleteView {
        DeleteView { table: self.table, id: self.id@ }
    }
}

impl Clone for PullDeleteRecord {
    fn clone(&self) -> (copy: PullDeleteRecord)
        ensures
            copy@ == self@,
    {
        PullDeleteRecord { table: self.table, id: self.id.clone() }
    }
}

/// What one record translates to, as contracts see it.
pub struct RecordsView {
    pub upserts: Seq<UpsertView>,
    pub deletes: Seq<DeleteView>,
}

/// What one record translates to: rows to write and rows to remove. It
/// lives for one apply step and is never stored itself.
#[derive(Debug)]
pub struct IntegrationRecords {
    pub upserts: Vec<PullUpsertRecord>,
    pub deletes: Vec<PullDeleteRecord>,
}

impl View for IntegrationRecords {
    type V = RecordsView;

    open spec fn view(&self) -> RecordsView {
        RecordsView {
            upserts: self.upserts@.map_values(|u: PullUpsertRecord| u@),
            deletes: self.deletes@.map_values(|d: PullDeleteRecord| d@),
        }
    }
}

impl IntegrationRecords {
    /// Records that only write rows.
    pub fn from_upserts(upserts: Vec<PullUpsertRecord>) -> (records: IntegrationRecords)
        ensures
            records@ == (RecordsView {
                upserts: upserts@.map_values(|u: PullUpsertRecord| u@),
                deletes: Seq::empty(),
            }),
    {
        let records = IntegrationRecords { upserts, deletes: Vec::new() };
        assert(records@.deletes =~= Seq::empty());
        records
    }

    /// Records that only remove rows.
    pub fn from_deletes(deletes: Vec<PullDeleteRecord>) -> (records: IntegrationRecords)
        ensures
            records@ == (RecordsView {
                upserts: Seq::empty(),
                deletes: deletes@.map_values(|d: PullDeleteRecord| d@),
            }),
    {
        let records = IntegrationRecords { upserts: Vec::new(), deletes };
        assert(records@.upserts =~= Seq::empty());
        records
    }
}

impl Clone for IntegrationRecords {
    fn clone(&self) -> (copy: IntegrationRecords)
        ensures
            copy@ == self@,
    {
        let mut upserts: Vec<PullUpsertRecord> = Vec::new();
        let mut i: usize = 0;
        while i < self.upserts.len()
            invariant
                i <= self.upserts.len(),
                upserts.len() == i,
                forall|j: int| 0 <= j < i ==> upserts[j]@ == self.upserts[j]@,
            decreases self.upserts.len() - i,
        {
            upserts.push(self.upserts[i].clone());
            i += 1;
        }
        let mut deletes: Vec<PullDeleteRecord> = Vec::new();
        let mut k: usize = 0;
        while k < self.deletes.len()
            invariant
                k <= self.deletes.len(),
                deletes.len() == k,
                forall|j: int| 0 <= j < k ==> deletes[j]@ == self.deletes[j]@,
            decreases self.deletes.len() - k,
        {
            deletes.push(self.deletes[k].clone());
            k += 1;
        }
        let copy = IntegrationRecords { upserts, deletes };
        assert(copy@.upserts =~= self@.upserts);
        assert(copy@.deletes =~= self@.deletes);
        copy
    }
}

} // verus!
