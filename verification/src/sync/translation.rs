//! The translators: one per legacy table, as a closed set.
//!
//! A translator turns one change record into the rows to write and the rows
//! to remove. Every entity id that a record carries goes through the link
//! store before it is written into a row, so rows always hold canonical
//! ids. A record that cannot be translated leaves every store as it was.

use vstd::prelude::*;
use crate::sync::domain_store::{DomainMap, DomainStore};
use crate::sync::envelope::{Envelope, EnvelopeView, SyncAction};
use crate::sync::link_store::{
    Id,
    LinkRow,
    LinkStore,
    EntityLink,
    canonical,
    observed_rows,
    rows_map,
    lemma_observed_rows,
};
use crate::sync::payload::{json_text_member, read_text_member};
use crate::sync::records::{
    DeleteView,
    DomainRow,
    DomainRowView,
    IntegrationRecords,
    PullDeleteRecord,
    PullUpsertRecord,
    RecordsView,
    UpsertView,
};
use crate::text::{clone_text, text_of};
use crate::sync::registry::{PullDependency, Registry, distinct_tables, valid_order, orderable};
use crate::sync::table::LegacyTable;

verus! {

/// Why a record could not be translated. The record is parked and the
/// batch goes on.
#[derive(Clone, Copy, Debug, PartialEq, Eq, Structural)]
pub enum TranslationError {
    /// The payload lacks a member that the table requires.
    MalformedPayload,
    /// The record refers to a parent row that is not integrated.
    UnknownForeignKey,
    /// The table has no translation for the record's action.
    UnsupportedAction,
}

/// Where the entity of a row comes from.
pub enum EntityRef {
    /// The table's rows belong to no entity.
    Absent,
    /// The row is the entity: its own id is resolved.
    Own,
    /// The entity id stands in this member of the payload.
    Member(Seq<char>),
}

/// What the translator of a table reads from a payload and allows.
pub struct PayloadShape {
    /// The member that holds the row's label.
    pub label_key: Seq<char>,
    /// Where the row's entity comes from.
    pub entity: EntityRef,
    /// The table of the parent row and the member that holds its id.
    pub parent: Option<(LegacyTable, Seq<char>)>,
    /// Whether rows of the table can be deleted.
    pub deletable: bool,
}

/// The member that holds the id of the row, in every table.
pub open spec fn id_key() -> Seq<char> {
    "ID"@
}

/// The shape of each table's payload.
pub open spec fn shape_of(table: LegacyTable) -> PayloadShape {
    match table {
        LegacyTable::Name => PayloadShape {
            label_key: "name"@,
            entity: EntityRef::Own,
            parent: None,
            deletable: false,
        },
        LegacyTable::Store => PayloadShape {
            label_key: "code"@,
            entity: EntityRef::Member("name_ID"@),
            parent: None,
            deletable: true,
        },
        LegacyTable::Item => PayloadShape {
            label_key: "item_name"@,
            entity: EntityRef::Absent,
            parent: None,
            deletable: true,
        },
        LegacyTable::Orders => PayloadShape {
            label_key: "status"@,
            entity: EntityRef::Member("name_ID"@),
            parent: Some((LegacyTable::Store, "store_ID"@)),
            deletable: true,
        },
        LegacyTable::OrderLine => PayloadShape {
            label_key: "item_name"@,
            entity: EntityRef::Absent,
            parent: Some((LegacyTable::Orders, "order_ID"@)),
            deletable: true,
        },
    }
}

/// The tables whose records must be integrated before those of `table`.
pub open spec fn dependencies_of(table: LegacyTable) -> Seq<LegacyTable> {
    match table {
        LegacyTable::Name => seq![],
        LegacyTable::Store => seq![LegacyTable::Name],
        LegacyTable::Item => seq![],
        LegacyTable::Orders => seq![LegacyTable::Name, LegacyTable::Store],
        LegacyTable::OrderLine => seq![LegacyTable::Orders, LegacyTable::Item],
    }
}

/// The descriptor of the translator of `table`.
pub fn pull_dependencies(table: LegacyTable) -> (descriptor: PullDependency)
    ensures
        descriptor.table == table,
        descriptor.dependencies@ == dependencies_of(table),
{
    let dependencies = match table {
        LegacyTable::Name => vec![],
        LegacyTable::Store => vec![LegacyTable::Name],
        LegacyTable::Item => vec![],
        LegacyTable::Orders => vec![LegacyTable::Name, LegacyTable::Store],
        LegacyTable::OrderLine => vec![LegacyTable::Orders, LegacyTable::Item],
    };
    assert(dependencies@ =~= dependencies_of(table));
    PullDependency { table, dependencies }
}

/// The descriptors of all translators, in the order in which the tables are
/// declared.
pub open spec fn standard_descriptors(ds: Seq<PullDependency>) -> bool {
    &&& ds.len() == 5
    &&& ds[0].table == LegacyTable::Name
    &&& ds[1].table == LegacyTable::Store
    &&& ds[2].table == LegacyTable::Item
    &&& ds[3].table == LegacyTable::Orders
    &&& ds[4].table == LegacyTable::OrderLine
    &&& forall|i: int| 0 <= i < 5 ==> (#[trigger] ds[i]).dependencies@ == dependencies_of(ds[i].table)
}

/// The declared dependencies of the translators admit an order.
proof fn lemma_standard_orderable(ds: Seq<PullDependency>)
    requires
        standard_descriptors(ds),
    ensures
        distinct_tables(ds),
        orderable(ds),
{
    let order = seq![
        LegacyTable::Name,
        LegacyTable::Item,
        LegacyTable::Store,
        LegacyTable::Orders,
        LegacyTable::OrderLine,
    ];
    assert(ds[0].table != ds[1].table);
    assert forall|t: LegacyTable| #[trigger] order.contains(t) <==> crate::sync::registry::registered(
        ds,
        t,
    ) by {
        match t {
            LegacyTable::Name => {
                assert(order[0] == t && ds[0].table == t);
            },
            LegacyTable::Item => {
                assert(order[1] == t && ds[2].table == t);
            },
            LegacyTable::Store => {
                assert(order[2] == t && ds[1].table == t);
            },
            LegacyTable::Orders => {
                assert(order[3] == t && ds[3].table == t);
            },
            LegacyTable::OrderLine => {
                assert(order[4] == t && ds[4].table == t);
            },
        }
    }
    assert forall|a: int, b: int|
        0 <= a < order.len() && 0 <= b < order.len() && crate::sync::registry::depends_on(
            ds,
            #[trigger] order[a],
            #[trigger] order[b],
        ) implies b < a by {
        let (i, k) = choose|i: int, k: int|
            0 <= i < ds.len() && 0 <= k < ds[i].dependencies@.len() && ds[i].table == order[a]
                && #[trigger] ds[i].dependencies@[k] == order[b];
        assert(ds[i].dependencies@ == dependencies_of(ds[i].table));
        assert(dependencies_of(order[a])[k] == order[b]);
    }
    assert(valid_order(ds, order));
}

/// The order of integration of all translators.
pub open spec fn standard_order() -> Seq<LegacyTable> {
    seq![
        LegacyTable::Name,
        LegacyTable::Store,
        LegacyTable::Item,
        LegacyTable::Orders,
        LegacyTable::OrderLine,
    ]
}

/// One step towards the order of all translators: with the first `k`
/// descriptors placed, the next to be placed is the descriptor `k`.
proof fn lemma_standard_step(ds: Seq<PullDependency>, placed: Seq<bool>, k: int)
    requires
        standard_descriptors(ds),
        placed.len() == 5,
        0 <= k < 5,
        forall|i: int| 0 <= i < 5 ==> placed[i] == (i < k),
    ensures
        crate::sync::registry::first_ready(ds, placed, 0) == k,
{
    assert(ds[k].dependencies@ == dependencies_of(ds[k].table));
    assert(crate::sync::registry::ready(ds, placed, k)) by {
        assert forall|d: int, j: int|
            0 <= d < ds[k].dependencies@.len() && 0 <= j < ds.len() && (#[trigger] ds[j]).table
                == #[trigger] ds[k].dependencies@[d] implies placed[j] by {
            assert(dependencies_of(ds[k].table)[d] == ds[j].table);
        }
    }
    crate::sync::registry::lemma_first_ready(ds, placed, 0);
    let found = crate::sync::registry::first_ready(ds, placed, 0);
    if found < k {
        assert(placed[found]);
    }
    if found > k {
        assert(placed[k] || !crate::sync::registry::ready(ds, placed, k));
    }
}

/// The translators are integrated in the order in which their tables are
/// declared.
proof fn lemma_standard_order(ds: Seq<PullDependency>)
    requires
        standard_descriptors(ds),
    ensures
        crate::sync::registry::integration_order(ds) == Some(standard_order()),
{
    let p0 = Seq::new(ds.len(), |i: int| false);
    let p1 = p0.update(0, true);
    let p2 = p1.update(1, true);
    let p3 = p2.update(2, true);
    let p4 = p3.update(3, true);
    let p5 = p4.update(4, true);
    let o0 = Seq::<LegacyTable>::empty();
    let o1 = o0.push(ds[0].table);
    let o2 = o1.push(ds[1].table);
    let o3 = o2.push(ds[2].table);
    let o4 = o3.push(ds[3].table);
    let o5 = o4.push(ds[4].table);
    lemma_standard_step(ds, p0, 0);
    lemma_standard_step(ds, p1, 1);
    lemma_standard_step(ds, p2, 2);
    lemma_standard_step(ds, p3, 3);
    lemma_standard_step(ds, p4, 4);
    crate::sync::registry::lemma_first_ready(ds, p5, 0);
    let last = crate::sync::registry::first_ready(ds, p5, 0);
    if last < 5 {
        assert(p5[last]);
    }
    assert(crate::sync::registry::unplaced(p5) == 0) by {
        crate::sync::registry::lemma_place_decreases(p0, 0);
        crate::sync::registry::lemma_place_decreases(p1, 1);
        crate::sync::registry::lemma_place_decreases(p2, 2);
        crate::sync::registry::lemma_place_decreases(p3, 3);
        crate::sync::registry::lemma_place_decreases(p4, 4);
        lemma_five_unplaced(p0);
    }
    assert(crate::sync::registry::placing_order(ds, p5, o5) == Some(o5));
    assert(crate::sync::registry::placing_order(ds, p4, o4) == Some(o5));
    assert(crate::sync::registry::placing_order(ds, p3, o3) == Some(o5));
    assert(crate::sync::registry::placing_order(ds, p2, o2) == Some(o5));
    assert(crate::sync::registry::placing_order(ds, p1, o1) == Some(o5));
    assert(crate::sync::registry::placing_order(ds, p0, o0) == Some(o5));
    assert(o5 =~= standard_order());
}

/// Of five descriptors of which none is placed, five are unplaced.
proof fn lemma_five_unplaced(placed: Seq<bool>)
    requires
        placed.len() == 5,
        forall|i: int| 0 <= i < 5 ==> !placed[i],
    ensures
        crate::sync::registry::unplaced(placed) == 5,
{
    let p4 = placed.drop_last();
    let p3 = p4.drop_last();
    let p2 = p3.drop_last();
    let p1 = p2.drop_last();
    let p0 = p1.drop_last();
    assert(crate::sync::registry::unplaced(p0) == 0);
    assert(crate::sync::registry::unplaced(p1) == 1);
    assert(crate::sync::registry::unplaced(p2) == 2);
    assert(crate::sync::registry::unplaced(p3) == 3);
    assert(crate::sync::registry::unplaced(p4) == 4);
}

/// The registry of all translators.
pub fn standard_registry() -> (registry: Registry)
    ensures
        registry.wf(),
        standard_descriptors(registry.descriptors()),
        registry.table_order() == standard_order(),
        forall|t: LegacyTable| registry.table_order().contains(t),
{
    let mut descriptors: Vec<PullDependency> = Vec::new();
    descriptors.push(pull_dependencies(LegacyTable::Name));
    descriptors.push(pull_dependencies(LegacyTable::Store));
    descriptors.push(pull_dependencies(LegacyTable::Item));
    descriptors.push(pull_dependencies(LegacyTable::Orders));
    descriptors.push(pull_dependencies(LegacyTable::OrderLine));
    proof {
        lemma_standard_orderable(descriptors@);
        lemma_standard_order(descriptors@);
    }
    match Registry::new(descriptors) {
        Ok(registry) => {
            proof {
                registry.lemma_wf();
                let ds = registry.descriptors();
                assert forall|t: LegacyTable| registry.table_order().contains(t) by {
                    match t {
                        LegacyTable::Name => assert(ds[0].table == t),
                        LegacyTable::Store => assert(ds[1].table == t),
                        LegacyTable::Item => assert(ds[2].table == t),
                        LegacyTable::Orders => assert(ds[3].table == t),
                        LegacyTable::OrderLine => assert(ds[4].table == t),
                    }
                    assert(crate::sync::registry::registered(ds, t));
                }
            }
            registry
        },
        Err(_) => vstd::pervasive::unreached(),
    }
}

/// The member that holds a row's label.
fn label_key(table: LegacyTable) -> (key: &'static str)
    ensures
        key@ == shape_of(table).label_key,
{
    match table {
        LegacyTable::Name => "name",
        LegacyTable::Store => "code",
        LegacyTable::Item => "item_name",
        LegacyTable::Orders => "status",
        LegacyTable::OrderLine => "item_name",
    }
}

/// The member that holds the id of a row's entity, for the tables that
/// read it from the payload.
fn entity_key(table: LegacyTable) -> (key: Option<&'static str>)
    ensures
        match key {
            Some(k) => shape_of(table).entity == EntityRef::Member(k@),
            None => !(shape_of(table).entity is Member),
        },
{
    match table {
        LegacyTable::Name => None,
        LegacyTable::Store => Some("name_ID"),
        LegacyTable::Item => None,
        LegacyTable::Orders => Some("name_ID"),
        LegacyTable::OrderLine => None,
    }
}

/// Whether a row of the table is itself an entity.
fn owns_entity(table: LegacyTable) -> (own: bool)
    ensures
        own == (shape_of(table).entity is Own),
{
    match table {
        LegacyTable::Name => true,
        _ => false,
    }
}

/// The table of a row's parent and the member that holds the parent's id.
fn parent_key(table: LegacyTable) -> (parent: Option<(LegacyTable, &'static str)>)
    ensures
        match parent {
            Some((t, k)) => shape_of(table).parent == Some((t, k@)),
            None => shape_of(table).parent is None,
        },
{
    match table {
        LegacyTable::Orders => Some((LegacyTable::Store, "store_ID")),
        LegacyTable::OrderLine => Some((LegacyTable::Orders, "order_ID")),
        _ => None,
    }
}

/// Whether rows of the table can be deleted.
fn deletable(table: LegacyTable) -> (allowed: bool)
    ensures
        allowed == shape_of(table).deletable,
{
    match table {
        LegacyTable::Name => false,
        _ => true,
    }
}

/// A decoded payload, as contracts see it.
pub struct LegacyRecordView {
    pub id: Id,
    pub label: Seq<char>,
    pub entity: Option<Id>,
    pub parent: Option<Id>,
}

/// A decoded payload: what the translator of a table reads from the text
/// of a record. `entity` is the raw entity id, not yet resolved.
#[derive(Debug)]
pub struct LegacyRecord {
    pub id: String,
    pub label: String,
    pub entity: Option<String>,
    pub parent: Option<String>,
}

impl View for LegacyRecord {
    type V = LegacyRecordView;

    open spec fn view(&self) -> LegacyRecordView {
        LegacyRecordView {
            id: self.id@,
            label: self.label@,
            entity: text_of(self.entity),
            parent: text_of(self.parent),
        }
    }
}

/// The raw entity id of a payload. The outer `None` says that a required
/// member is missing.
pub open spec fn decoded_entity(table: LegacyTable, payload: Seq<char>, id: Id) -> Option<
    Option<Id>,
> {
    match shape_of(table).entity {
        EntityRef::Absent => Some(None),
        EntityRef::Own => Some(Some(id)),
        EntityRef::Member(key) => match json_text_member(payload, key) {
            Some(entity) => Some(Some(entity)),
            None => None,
        },
    }
}

/// The parent id of a payload. The outer `None` says that a required
/// member is missing.
pub open spec fn decoded_parent(table: LegacyTable, payload: Seq<char>) -> Option<Option<Id>> {
    match shape_of(table).parent {
        None => Some(None),
        Some((_, key)) => match json_text_member(payload, key) {
            Some(parent) => Some(Some(parent)),
            None => None,
        },
    }
}

/// The record that `payload` decodes to for `table`; `None` when a member
/// that the table requires is missing or is no text.
pub open spec fn decoded(table: LegacyTable, payload: Seq<char>) -> Option<LegacyRecordView> {
    match (json_text_member(payload, id_key()), json_text_member(payload, shape_of(table).label_key)) {
        (Some(id), Some(label)) => match (
            decoded_entity(table, payload, id),
            decoded_parent(table, payload),
        ) {
            (Some(entity), Some(parent)) => Some(LegacyRecordView { id, label, entity, parent }),
            _ => None,
        },
        _ => None,
    }
}

/// Decodes the payload of a record of `table`.
pub fn decode(table: LegacyTable, payload: &str) -> (record: Option<LegacyRecord>)
    ensures
        match record {
            Some(r) => decoded(table, payload@) == Some(r@),
            None => decoded(table, payload@) is None,
        },
{
    let id = match read_text_member(payload, "ID") {
        Some(id) => id,
        None => {
            return None;
        },
    };
    let label = match read_text_member(payload, label_key(table)) {
        Some(label) => label,
        None => {
            return None;
        },
    };
    let entity: Option<String> = if owns_entity(table) {
        Some(id.clone())
    } else {
        match entity_key(table) {
            Some(key) => match read_text_member(payload, key) {
                Some(entity) => Some(entity),
                None => {
                    return None;
                },
            },
            None => None,
        }
    };
    let parent: Option<String> = match parent_key(table) {
        Some((_, key)) => match read_text_member(payload, key) {
            Some(parent) => Some(parent),
            None => {
                return None;
            },
        },
        None => None,
    };
    Some(LegacyRecord { id, label, entity, parent })
}

/// What a translation gives: its result and the rows of the link store
/// after it.
pub struct Translated {
    pub result: Result<RecordsView, TranslationError>,
    pub links: Seq<LinkRow>,
}

/// Whether the parent that `record` names is integrated, for a table with
/// a parent.
pub open spec fn parent_known(table: LegacyTable, domain: DomainMap, record: LegacyRecordView) -> bool {
    match (shape_of(table).parent, record.parent) {
        (Some((parent_table, _)), Some(parent_id)) => domain.dom().contains(
            (parent_table, parent_id),
        ),
        _ => true,
    }
}

/// The row that the decoded `record` of `table` becomes.
pub open spec fn row_for(table: LegacyTable, links: Seq<LinkRow>, record: LegacyRecordView) -> DomainRowView {
    DomainRowView {
        table,
        id: record.id,
        entity_id: match record.entity {
            Some(entity) => Some(canonical(rows_map(links), entity)),
            None => None,
        },
        parent_id: record.parent,
        label: record.label,
    }
}

/// The translation of a decoded upsert.
///
/// A record whose parent is not integrated is refused and observes
/// nothing. Otherwise the record's entity is observed and resolved, and the
/// row is written; a row that is itself an entity is written together with
/// its row of the link store.
pub open spec fn translated_upsert(
    table: LegacyTable,
    links: Seq<LinkRow>,
    domain: DomainMap,
    record: LegacyRecordView,
) -> Translated {
    if !parent_known(table, domain, record) {
        Translated { result: Err(TranslationError::UnknownForeignKey), links }
    } else {
        let row = row_for(table, links, record);
        let after = match record.entity {
            Some(entity) => observed_rows(links, entity),
            None => links,
        };
        let upserts = if shape_of(table).entity is Own {
            seq![
                UpsertView::NameLink(
                    LinkRow { id: record.id, canonical_id: canonical(rows_map(links), record.id) },
                ),
                UpsertView::Row(row),
            ]
        } else {
            seq![UpsertView::Row(row)]
        };
        Translated { result: Ok(RecordsView { upserts, deletes: seq![] }), links: after }
    }
}

/// The translation of the record `envelope` by the translator of `table`.
pub open spec fn translation(
    table: LegacyTable,
    links: Seq<LinkRow>,
    domain: DomainMap,
    envelope: EnvelopeView,
) -> Translated {
    match envelope.action {
        SyncAction::Merge => Translated { result: Err(TranslationError::UnsupportedAction), links },
        SyncAction::Delete => if shape_of(table).deletable {
            Translated {
                result: Ok(
                    RecordsView {
                        upserts: seq![],
                        deletes: seq![DeleteView { table, id: envelope.record_id }],
                    },
                ),
                links,
            }
        } else {
            Translated { result: Err(TranslationError::UnsupportedAction), links }
        },
        SyncAction::Upsert => match decoded(table, envelope.payload) {
            Some(record) => translated_upsert(table, links, domain, record),
            None => Translated { result: Err(TranslationError::MalformedPayload), links },
        },
    }
}

/// The view of the result of a translation.
pub open spec fn result_view(result: Result<IntegrationRecords, TranslationError>) -> Result<
    RecordsView,
    TranslationError,
> {
    match result {
        Ok(records) => Ok(records@),
        Err(e) => Err(e),
    }
}

/// Translates the decoded upsert `record` of `table`.
pub fn translate_record(
    table: LegacyTable,
    links: &mut LinkStore,
    domain: &DomainStore,
    record: &LegacyRecord,
) -> (result: Result<IntegrationRecords, TranslationError>)
    requires
        old(links).wf(),
        domain.wf(),
    ensures
        final(links).wf(),
        result_view(result) == translated_upsert(table, old(links).rows(), domain@, record@).result,
        final(links).rows() == translated_upsert(table, old(links).rows(), domain@, record@).links,
{
    match parent_key(table) {
        Some((parent_table, _)) => match &record.parent {
            Some(parent_id) => {
                if !domain.contains(parent_table, parent_id.as_str()) {
                    return Err(TranslationError::UnknownForeignKey);
                }
            },
            None => {},
        },
        None => {},
    }
    let entity_id: Option<String> = match &record.entity {
        Some(entity) => Some(links.resolve(entity.as_str())),
        None => None,
    };
    let mut upserts: Vec<PullUpsertRecord> = Vec::new();
    if owns_entity(table) {
        let canonical_id: String = match links.lookup(record.id.as_str()) {
            Some(c) => c,
            None => record.id.clone(),
        };
        upserts.push(
            PullUpsertRecord::NameLink(EntityLink { id: record.id.clone(), canonical_id }),
        );
    }
    let row = DomainRow {
        table,
        id: record.id.clone(),
        entity_id,
        parent_id: clone_text(&record.parent),
        label: record.label.clone(),
    };
    upserts.push(PullUpsertRecord::Row(row));
    let records = IntegrationRecords::from_upserts(upserts);
    proof {
        let spec = translated_upsert(table, old(links).rows(), domain@, record@);
        assert(records@.upserts =~= spec.result->Ok_0.upserts) by {
            if shape_of(table).entity is Own {
                lemma_observed_rows(old(links).rows(), record@.id);
                crate::sync::link_laws::lemma_observed(old(links)@, record@.id);
            }
        }
    }
    Ok(records)
}

/// Translates the record `envelope` with the translator of `table`.
///
/// The stores are only read, but for the link store, which observes the
/// entity that a translated upsert names.
pub fn translate(
    table: LegacyTable,
    links: &mut LinkStore,
    domain: &DomainStore,
    envelope: &Envelope,
) -> (result: Result<IntegrationRecords, TranslationError>)
    requires
        old(links).wf(),
        domain.wf(),
    ensures
        final(links).wf(),
        result_view(result) == translation(table, old(links).rows(), domain@, envelope@).result,
        final(links).rows() == translation(table, old(links).rows(), domain@, envelope@).links,
{
    match envelope.action {
        SyncAction::Merge => Err(TranslationError::UnsupportedAction),
        SyncAction::Delete => {
            if deletable(table) {
                let mut deletes: Vec<PullDeleteRecord> = Vec::new();
                deletes.push(PullDeleteRecord { table, id: envelope.record_id.clone() });
                let records = IntegrationRecords::from_deletes(deletes);
                assert(records@.deletes =~= seq![
                    DeleteView { table, id: envelope@.record_id },
                ]);
                Ok(records)
            } else {
                Err(TranslationError::UnsupportedAction)
            }
        },
        SyncAction::Upsert => match decode(table, envelope.payload.as_str()) {
            Some(record) => translate_record(table, links, domain, &record),
            None => Err(TranslationError::MalformedPayload),
        },
    }
}

} // verus!
