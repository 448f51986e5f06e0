//! Laws of the integration driver, stated over the model of a pull
//! cycle.

use vstd::prelude::*;
use crate::sync::domain_store::{DomainMap, applied, removed, upserted, with_deletes, with_upserts};
use crate::sync::envelope::{EnvelopeView, SyncAction};
use crate::sync::integration::{newest, processed, ran, stepped};
use crate::sync::link_laws::{lemma_merged_canonical, lemma_observed};
use crate::sync::link_store::{
    Id,
    LinkRow,
    canonical,
    has_row,
    lemma_merged_rows,
    lemma_observed_rows,
    lemma_rows_map,
    merge_applies,
    merged_rows,
    rows_map,
    valid_rows,
};
use crate::sync::name_merge::decoded_merge;
use crate::sync::plan::{
    key_le,
    lemma_planned,
    lemma_planned_remove,
    plan_key,
    plan_position,
    planned,
};
use crate::sync::records::{DeleteView, DomainRowView, UpsertView};
use crate::sync::registry::{PullDependency, depends_on, distinct_tables, translator_named, valid_order};
use crate::sync::table::LegacyTable;
use crate::sync::translation::{
    LegacyRecordView,
    decoded,
    parent_known,
    row_for,
    shape_of,
    translated_upsert,
};

verus! {

/// Writing one row, alone or behind its link row, is one upsert.
proof fn lemma_single_upsert(m: DomainMap, link: LinkRow, row: DomainRowView)
    ensures
        with_upserts(m, seq![UpsertView::Row(row)]) == upserted(m, row),
        with_upserts(m, seq![UpsertView::NameLink(link), UpsertView::Row(row)]) == upserted(m, row),
        with_upserts(m, Seq::<UpsertView>::empty()) == m,
        with_deletes(m, Seq::<DeleteView>::empty()) == m,
{
    let one = seq![UpsertView::Row(row)];
    assert(one.drop_last() =~= Seq::<UpsertView>::empty());
    assert(with_upserts(m, one.drop_last()) == m);
    let two = seq![UpsertView::NameLink(link), UpsertView::Row(row)];
    let head = seq![UpsertView::NameLink(link)];
    assert(two.drop_last() =~= head);
    assert(head.drop_last() =~= Seq::<UpsertView>::empty());
    assert(with_upserts(m, head.drop_last()) == m);
    assert(with_upserts(m, head) == m);
}

/// Removing one row is one removal.
proof fn lemma_single_delete(m: DomainMap, target: DeleteView)
    ensures
        with_deletes(m, seq![target]) == removed(m, target.table, target.id),
{
    let one = seq![target];
    assert(one.drop_last() =~= Seq::<DeleteView>::empty());
    assert(with_deletes(m, one.drop_last()) == m);
}

/// The same merge twice in a row leaves the rows as one merge left them.
pub proof fn lemma_merged_rows_idempotent(rows: Seq<LinkRow>, keep: Id, delete: Id)
    requires
        valid_rows(rows),
    ensures
        merged_rows(merged_rows(rows, keep, delete), keep, delete) == merged_rows(
            rows,
            keep,
            delete,
        ),
{
    if keep != delete {
        let once = merged_rows(rows, keep, delete);
        lemma_merged_rows(rows, keep, delete);
        lemma_merged_canonical(rows_map(rows), keep, delete, delete);
        lemma_merged_canonical(rows_map(rows), keep, delete, keep);
        lemma_rows_map(once);
        crate::sync::link_laws::lemma_merged_dom(rows_map(rows), keep, delete);
        assert(rows_map(once).dom().contains(keep));
        assert(rows_map(once).dom().contains(delete));
        assert(has_row(once, keep));
        assert(has_row(once, delete));
        assert(!merge_applies(rows_map(once), keep, delete));
    }
}

/// A record that ends with an error changes neither store.
pub proof fn lemma_error_changes_nothing(
    order: Seq<LegacyTable>,
    links: Seq<LinkRow>,
    domain: DomainMap,
    envelope: EnvelopeView,
)
    requires
        stepped(order, links, domain, envelope).outcome is Errored,
    ensures
        stepped(order, links, domain, envelope).links == links,
        stepped(order, links, domain, envelope).domain == domain,
{
}

/// Idempotence: applying the same record twice leaves both stores as
/// applying it once left them.
pub proof fn law_apply_idempotent(
    order: Seq<LegacyTable>,
    links: Seq<LinkRow>,
    domain: DomainMap,
    envelope: EnvelopeView,
)
    requires
        valid_rows(links),
    ensures
        ({
            let once = stepped(order, links, domain, envelope);
            let twice = stepped(order, once.links, once.domain, envelope);
            &&& twice.links == once.links
            &&& twice.domain == once.domain
        }),
{
    let once = stepped(order, links, domain, envelope);
    let twice = stepped(order, once.links, once.domain, envelope);
    if envelope.action == SyncAction::Merge {
        if crate::sync::table::table_named(envelope.table_name) == Some(LegacyTable::Name) {
            match decoded_merge(envelope.payload) {
                Some(message) => {
                    lemma_merged_rows_idempotent(links, message.keep, message.delete);
                },
                None => {},
            }
        }
    } else {
        match translator_named(order, envelope.table_name) {
            Some(table) => {
                if envelope.action == SyncAction::Delete {
                    if shape_of(table).deletable {
                        let target = DeleteView { table, id: envelope.record_id };
                        lemma_single_delete(with_upserts(domain, seq![]), target);
                        lemma_single_delete(with_upserts(once.domain, seq![]), target);
                        assert(with_upserts(domain, Seq::<UpsertView>::empty()) == domain);
                        assert(with_upserts(once.domain, Seq::<UpsertView>::empty())
                            == once.domain);
                        assert(once.domain == removed(domain, table, envelope.record_id));
                        assert(twice.domain == removed(once.domain, table, envelope.record_id));
                        assert(twice.domain =~= once.domain);
                    }
                } else {
                    match decoded(table, envelope.payload) {
                        Some(record) => {
                            lemma_upsert_idempotent(table, links, domain, record);
                        },
                        None => {},
                    }
                }
            },
            None => {},
        }
    }
}

/// Translating and applying the same decoded upsert twice is doing it
/// once.
proof fn lemma_upsert_idempotent(
    table: LegacyTable,
    links: Seq<LinkRow>,
    domain: DomainMap,
    record: LegacyRecordView,
)
    requires
        valid_rows(links),
    ensures
        ({
            let first = translated_upsert(table, links, domain, record);
            match first.result {
                Ok(records) => {
                    let second = translated_upsert(
                        table,
                        first.links,
                        applied(domain, records),
                        record,
                    );
                    &&& second.links == first.links
                    &&& second.result is Ok
                    &&& applied(applied(domain, records), second.result->Ok_0) == applied(
                        domain,
                        records,
                    )
                },
                Err(_) => first.links == links,
            }
        }),
{
    let first = translated_upsert(table, links, domain, record);
    if parent_known(table, domain, record) {
        let records = first.result->Ok_0;
        let row = row_for(table, links, record);
        let link = LinkRow { id: record.id, canonical_id: canonical(rows_map(links), record.id) };
        lemma_single_upsert(domain, link, row);
        assert(with_deletes(upserted(domain, row), Seq::<DeleteView>::empty()) == upserted(
            domain,
            row,
        ));
        assert(records.deletes =~= Seq::<DeleteView>::empty());
        let domain1 = applied(domain, records);
        assert(domain1 == upserted(domain, row));
        match record.entity {
            Some(entity) => {
                lemma_observed_rows(links, entity);
                lemma_observed(rows_map(links), entity);
                lemma_rows_map(first.links);
                assert(rows_map(first.links).dom().contains(entity));
                assert(has_row(first.links, entity));
            },
            None => {},
        }
        assert(parent_known(table, domain1, record));
        let second = translated_upsert(table, first.links, domain1, record);
        let row2 = row_for(table, first.links, record);
        assert(row2 == row);
        let link2 = LinkRow {
            id: record.id,
            canonical_id: canonical(rows_map(first.links), record.id),
        };
        lemma_single_upsert(domain1, link2, row2);
        assert(second.result->Ok_0.deletes =~= Seq::<DeleteView>::empty());
        assert(with_deletes(upserted(domain1, row2), Seq::<DeleteView>::empty()) == upserted(
            domain1,
            row2,
        ));
        assert(upserted(domain1, row) =~= domain1);
    }
}

/// Dependency ordering: in the plan of a batch, no record of a table is
/// applied before a record of a table that it depends on.
pub proof fn law_dependencies_first(
    descriptors: Seq<PullDependency>,
    order: Seq<LegacyTable>,
    batch: Seq<EnvelopeView>,
    i: int,
    j: int,
)
    requires
        distinct_tables(descriptors),
        valid_order(descriptors, order),
        0 <= i < planned(order, batch).len(),
        0 <= j < planned(order, batch).len(),
        planned(order, batch)[i].action != SyncAction::Merge,
        planned(order, batch)[j].action != SyncAction::Merge,
        translator_named(order, planned(order, batch)[i].table_name) is Some,
        translator_named(order, planned(order, batch)[j].table_name) is Some,
        depends_on(
            descriptors,
            translator_named(order, planned(order, batch)[i].table_name)->Some_0,
            translator_named(order, planned(order, batch)[j].table_name)->Some_0,
        ),
    ensures
        j < i,
{
    lemma_planned(order, batch);
    let plan = planned(order, batch);
    let dependent = translator_named(order, plan[i].table_name)->Some_0;
    let upstream = translator_named(order, plan[j].table_name)->Some_0;
    let a = order.index_of(dependent);
    let b = order.index_of(upstream);
    assert(order.contains(dependent) && order.contains(upstream));
    assert(order[a] == dependent && order[b] == upstream);
    assert(b < a);
    if i < j {
        assert(key_le(plan_key(order, plan[i]), plan_key(order, plan[j])));
    }
}

/// Merges first: in the plan of a batch, every merge is applied before
/// every record that is no merge.
pub proof fn law_merges_first(order: Seq<LegacyTable>, batch: Seq<EnvelopeView>, i: int, j: int)
    requires
        0 <= i < planned(order, batch).len(),
        0 <= j < planned(order, batch).len(),
        planned(order, batch)[i].action == SyncAction::Merge,
        planned(order, batch)[j].action != SyncAction::Merge,
    ensures
        i < j,
{
    lemma_planned(order, batch);
    let plan = planned(order, batch);
    if j < i {
        assert(key_le(plan_key(order, plan[j]), plan_key(order, plan[i])));
    }
}

/// Sequence order: in the plan of a batch, two merges, or two records of
/// the same table, are applied by ascending sequence.
pub proof fn law_sequence_within_table(
    order: Seq<LegacyTable>,
    batch: Seq<EnvelopeView>,
    i: int,
    j: int,
)
    requires
        0 <= i < planned(order, batch).len(),
        0 <= j < planned(order, batch).len(),
        planned(order, batch)[i].sequence < planned(order, batch)[j].sequence,
        ({
            let first = planned(order, batch)[i];
            let second = planned(order, batch)[j];
            ||| first.action == SyncAction::Merge && second.action == SyncAction::Merge
            ||| first.action != SyncAction::Merge && second.action != SyncAction::Merge
                && translator_named(order, first.table_name) == translator_named(
                order,
                second.table_name,
            )
        }),
    ensures
        i < j,
{
    lemma_planned(order, batch);
    let plan = planned(order, batch);
    if j < i {
        assert(key_le(plan_key(order, plan[j]), plan_key(order, plan[i])));
    }
}

/// A run writes one log entry per record, in order.
pub proof fn lemma_ran_log(
    order: Seq<LegacyTable>,
    links: Seq<LinkRow>,
    domain: DomainMap,
    plan: Seq<EnvelopeView>,
)
    ensures
        ran(order, links, domain, plan).log.len() == plan.len(),
        forall|k: int|
            0 <= k < plan.len() ==> {
                let entry = #[trigger] ran(order, links, domain, plan).log[k];
                &&& entry.record_id == plan[k].record_id
                &&& entry.table_name == plan[k].table_name
                &&& entry.sequence == plan[k].sequence
            },
    decreases plan.len(),
{
    if plan.len() > 0 {
        lemma_ran_log(order, links, domain, plan.drop_last());
    }
}

/// A run keeps the rows of the link store valid.
pub proof fn law_run_keeps_links_valid(
    order: Seq<LegacyTable>,
    links: Seq<LinkRow>,
    domain: DomainMap,
    plan: Seq<EnvelopeView>,
)
    requires
        valid_rows(links),
    ensures
        valid_rows(ran(order, links, domain, plan).links),
    decreases plan.len(),
{
    if plan.len() > 0 {
        law_run_keeps_links_valid(order, links, domain, plan.drop_last());
        let before = ran(order, links, domain, plan.drop_last());
        law_record_keeps_links_valid(order, before.links, before.domain, plan.last());
    }
}

/// One record keeps the rows of the link store valid.
pub proof fn law_record_keeps_links_valid(
    order: Seq<LegacyTable>,
    links: Seq<LinkRow>,
    domain: DomainMap,
    envelope: EnvelopeView,
)
    requires
        valid_rows(links),
    ensures
        valid_rows(stepped(order, links, domain, envelope).links),
{
    if envelope.action == SyncAction::Merge {
        match decoded_merge(envelope.payload) {
            Some(message) => {
                lemma_merged_rows(links, message.keep, message.delete);
            },
            None => {},
        }
    } else {
        match translator_named(order, envelope.table_name) {
            Some(table) => {
                match decoded(table, envelope.payload) {
                    Some(record) => {
                        match record.entity {
                            Some(entity) => {
                                lemma_observed_rows(links, entity);
                            },
                            None => {},
                        }
                    },
                    None => {},
                }
            },
            None => {},
        }
    }
}

/// Partial failure isolation: a record that ends with an error prevents
/// nothing. Without it, the run ends in the same stores and writes the same
/// log entries for all the other records.
pub proof fn law_failure_isolated(
    order: Seq<LegacyTable>,
    links: Seq<LinkRow>,
    domain: DomainMap,
    plan: Seq<EnvelopeView>,
    k: int,
)
    requires
        0 <= k < plan.len(),
        ran(order, links, domain, plan).log[k].outcome is Errored,
    ensures
        ran(order, links, domain, plan.remove(k)).links == ran(order, links, domain, plan).links,
        ran(order, links, domain, plan.remove(k)).domain == ran(order, links, domain, plan).domain,
        ran(order, links, domain, plan.remove(k)).log == ran(order, links, domain, plan).log.remove(
            k,
        ),
    decreases plan.len(),
{
    let front = plan.drop_last();
    let before = ran(order, links, domain, front);
    let step = stepped(order, before.links, before.domain, plan.last());
    lemma_ran_log(order, links, domain, front);
    lemma_ran_log(order, links, domain, plan);
    let with = ran(order, links, domain, plan);
    if k == plan.len() - 1 {
        assert(with.log[k] == processed(plan.last(), step));
        lemma_error_changes_nothing(order, before.links, before.domain, plan.last());
        assert(plan.remove(k) =~= front);
        assert(with.log.remove(k) =~= before.log);
    } else {
        assert(with.log[k] == before.log[k]);
        law_failure_isolated(order, links, domain, front, k);
        let shorter = plan.remove(k);
        assert(shorter.drop_last() =~= front.remove(k));
        assert(shorter.last() == plan.last());
        let entry = processed(plan.last(), step);
        assert(before.log.remove(k).push(entry) =~= before.log.push(entry).remove(k));
    }
}

/// Partial failure isolation, for a batch: a record of the batch that ends
/// with an error prevents nothing. The batch without it ends in the same
/// stores and writes the same log entries for all the other records, in
/// the same order.
pub proof fn law_batch_failure_isolated(
    order: Seq<LegacyTable>,
    links: Seq<LinkRow>,
    domain: DomainMap,
    batch: Seq<EnvelopeView>,
    k: int,
)
    requires
        0 <= k < batch.len(),
        ran(order, links, domain, planned(order, batch)).log[plan_position(
            order,
            batch,
            k,
        )].outcome is Errored,
    ensures
        ran(order, links, domain, planned(order, batch.remove(k))).links == ran(
            order,
            links,
            domain,
            planned(order, batch),
        ).links,
        ran(order, links, domain, planned(order, batch.remove(k))).domain == ran(
            order,
            links,
            domain,
            planned(order, batch),
        ).domain,
        ran(order, links, domain, planned(order, batch.remove(k))).log == ran(
            order,
            links,
            domain,
            planned(order, batch),
        ).log.remove(plan_position(order, batch, k)),
{
    lemma_planned_remove(order, batch, k);
    law_failure_isolated(order, links, domain, planned(order, batch), plan_position(order, batch, k));
}

/// A merge writes no normalized row: it leaves the domain store as it was.
pub proof fn law_merge_leaves_domain(
    order: Seq<LegacyTable>,
    links: Seq<LinkRow>,
    domain: DomainMap,
    envelope: EnvelopeView,
)
    requires
        envelope.action == SyncAction::Merge,
    ensures
        stepped(order, links, domain, envelope).domain == domain,
{
}

/// Links are never deleted: an id that was observed before a record is
/// observed after it.
pub proof fn law_links_are_never_deleted(
    order: Seq<LegacyTable>,
    links: Seq<LinkRow>,
    domain: DomainMap,
    envelope: EnvelopeView,
    x: Id,
)
    requires
        valid_rows(links),
        has_row(links, x),
    ensures
        has_row(stepped(order, links, domain, envelope).links, x),
{
    let after = stepped(order, links, domain, envelope).links;
    law_record_keeps_links_valid(order, links, domain, envelope);
    lemma_rows_map(links);
    lemma_rows_map(after);
    assert(rows_map(links).dom().contains(x));
    if envelope.action == SyncAction::Merge {
        match decoded_merge(envelope.payload) {
            Some(message) => {
                lemma_merged_rows(links, message.keep, message.delete);
                crate::sync::link_laws::lemma_merged_dom(rows_map(links), message.keep, message.delete);
            },
            None => {},
        }
    } else {
        match translator_named(order, envelope.table_name) {
            Some(table) => {
                match decoded(table, envelope.payload) {
                    Some(record) => {
                        match record.entity {
                            Some(entity) => {
                                lemma_observed_rows(links, entity);
                            },
                            None => {},
                        }
                    },
                    None => {},
                }
            },
            None => {},
        }
    }
    assert(rows_map(after).dom().contains(x));
}

/// After the merge of `delete` into `keep`, a record that names `delete`
/// as its entity becomes a row of the entity that `keep` stood for.
pub proof fn law_row_references_kept_entity(
    table: LegacyTable,
    links: Seq<LinkRow>,
    keep: Id,
    delete: Id,
    record: LegacyRecordView,
)
    requires
        valid_rows(links),
        merge_applies(rows_map(links), keep, delete),
        record.entity == Some(delete),
    ensures
        row_for(table, merged_rows(links, keep, delete), record).entity_id == Some(
            canonical(rows_map(links), keep),
        ),
{
    lemma_merged_rows(links, keep, delete);
    lemma_merged_canonical(rows_map(links), keep, delete, delete);
}

/// The cursor after a batch is the newest sequence: it is no older than
/// the old cursor or any record of the batch, and it is one of them.
pub proof fn law_cursor_is_newest(cursor: u64, batch: Seq<EnvelopeView>)
    ensures
        newest(cursor, batch) >= cursor,
        forall|k: int| 0 <= k < batch.len() ==> newest(cursor, batch) >= (#[trigger] batch[k]).sequence,
        newest(cursor, batch) == cursor || exists|k: int|
            0 <= k < batch.len() && (#[trigger] batch[k]).sequence == newest(cursor, batch),
    decreases batch.len(),
{
    if batch.len() > 0 {
        let front = batch.drop_last();
        law_cursor_is_newest(cursor, front);
        assert forall|k: int| 0 <= k < batch.len() implies newest(cursor, batch) >= (
        #[trigger] batch[k]).sequence by {
            if k < front.len() {
                assert(front[k] == batch[k]);
            }
        }
        if newest(cursor, batch) != cursor {
            if batch.last().sequence > newest(cursor, front) {
                assert(batch[batch.len() - 1].sequence == newest(cursor, batch));
            } else {
                let k = choose|k: int|
                    0 <= k < front.len() && (#[trigger] front[k]).sequence == newest(cursor, front);
                assert(batch[k] == front[k]);
            }
        }
    }
}

} // verus!
