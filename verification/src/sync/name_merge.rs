//! The merge translator: a merge record rewrites the link store so that
//! everything which resolved to the deleted entity resolves to the kept
//! one. It writes no normalized row.

use vstd::prelude::*;
use crate::sync::envelope::{Envelope, EnvelopeView};
use crate::sync::link_laws::lemma_observed;
use crate::sync::link_store::{
    EntityLink,
    Id,
    LinkResolutionError,
    LinkRow,
    LinkStore,
    MergeOutcome,
    canonical,
    has_row,
    lemma_observed_rows,
    lemma_rows_map,
    lemma_merged_rows,
    merge_applies,
    merge_report,
    merged,
    observed,
    merged_rows,
    observed_rows,
    rows_map,
    valid_rows,
};
use crate::sync::payload::{json_text_member, read_text_member};
use crate::sync::records::{IntegrationRecords, PullUpsertRecord, RecordsView, UpsertView};
use crate::sync::registry::PullDependency;
use crate::sync::table::{LegacyTable, table_named};
use crate::sync::translation::TranslationError;

verus! {

/// A merge instruction, as contracts see it.
pub struct MergeMessageView {
    pub keep: Id,
    pub delete: Id,
}

/// A merge instruction: the entity `merge_id_to_delete` is from now on the
/// entity `merge_id_to_keep`.
#[derive(Debug)]
pub struct NameMergeMessage {
    pub merge_id_to_keep: String,
    pub merge_id_to_delete: String,
}

impl View for NameMergeMessage {
    type V = MergeMessageView;

    open spec fn view(&self) -> MergeMessageView {
        MergeMessageView { keep: self.merge_id_to_keep@, delete: self.merge_id_to_delete@ }
    }
}

/// The merge instruction that `payload` decodes to; `None` when one of the
/// two ids is missing or is no text.
pub open spec fn decoded_merge(payload: Seq<char>) -> Option<MergeMessageView> {
    match (
        json_text_member(payload, "mergeIdToKeep"@),
        json_text_member(payload, "mergeIdToDelete"@),
    ) {
        (Some(keep), Some(delete)) => Some(MergeMessageView { keep, delete }),
        _ => None,
    }
}

impl NameMergeMessage {
    /// Decodes the payload of a merge record.
    pub fn decode(payload: &str) -> (message: Option<NameMergeMessage>)
        ensures
            match message {
                Some(m) => decoded_merge(payload@) == Some(m@),
                None => decoded_merge(payload@) is None,
            },
    {
        let merge_id_to_keep = match read_text_member(payload, "mergeIdToKeep") {
            Some(id) => id,
            None => {
                return None;
            },
        };
        let merge_id_to_delete = match read_text_member(payload, "mergeIdToDelete") {
            Some(id) => id,
            None => {
                return None;
            },
        };
        Some(NameMergeMessage { merge_id_to_keep, merge_id_to_delete })
    }
}

/// The ids of the rows that point at `x`, in row order.
pub open spec fn ids_pointing_at(rows: Seq<LinkRow>, x: Id) -> Seq<Id> {
    rows.filter(|r: LinkRow| r.canonical_id == x).map_values(|r: LinkRow| r.id)
}

/// One link row per id, each pointing at `target`.
pub open spec fn link_upserts(ids: Seq<Id>, target: Id) -> Seq<UpsertView> {
    ids.map_values(|id: Id| UpsertView::NameLink(LinkRow { id, canonical_id: target }))
}

/// The records of a merge: the rewritten link rows, when the merge applies;
/// `None` when it changes no link.
pub open spec fn merge_records(rows: Seq<LinkRow>, keep: Id, delete: Id) -> Option<RecordsView> {
    if merge_applies(rows_map(rows), keep, delete) {
        let seen = observed_rows(observed_rows(rows, keep), delete);
        Some(
            RecordsView {
                upserts: link_upserts(
                    ids_pointing_at(seen, delete),
                    canonical(rows_map(rows), keep),
                ),
                deletes: seq![],
            },
        )
    } else {
        None
    }
}

/// What the merge translator gives: its result, what the link store
/// reported where a merge was attempted, and the rows of the link store
/// after it.
pub struct MergeTranslated {
    pub result: Result<Option<RecordsView>, TranslationError>,
    pub report: Option<Result<MergeOutcome, LinkResolutionError>>,
    pub links: Seq<LinkRow>,
}

/// The translation of the merge record `envelope`.
///
/// A record of another table than `name` is not for this translator. A
/// payload without the two ids is malformed. Otherwise the merge is made.
pub open spec fn merge_translation(links: Seq<LinkRow>, envelope: EnvelopeView) -> MergeTranslated {
    if table_named(envelope.table_name) != Some(LegacyTable::Name) {
        MergeTranslated { result: Ok(None), report: None, links }
    } else {
        match decoded_merge(envelope.payload) {
            None => MergeTranslated {
                result: Err(TranslationError::MalformedPayload),
                report: None,
                links,
            },
            Some(message) => MergeTranslated {
                result: Ok(merge_records(links, message.keep, message.delete)),
                report: Some(merge_report(rows_map(links), message.keep, message.delete)),
                links: merged_rows(links, message.keep, message.delete),
            },
        }
    }
}

/// What a merge did: the link rows that it rewrote, if it rewrote any, and
/// what the link store reported.
#[derive(Debug)]
pub struct MergedLinks {
    pub records: Option<IntegrationRecords>,
    pub report: Result<MergeOutcome, LinkResolutionError>,
}

/// The view of the result of the merge translator.
pub open spec fn merge_result_view(
    result: Result<Option<IntegrationRecords>, TranslationError>,
) -> Result<Option<RecordsView>, TranslationError> {
    match result {
        Ok(Some(records)) => Ok(Some(records@)),
        Ok(None) => Ok(None),
        Err(e) => Err(e),
    }
}

/// Merging after both ids were observed is merging.
proof fn lemma_merge_after_observing(rows: Seq<LinkRow>, keep: Id, delete: Id)
    requires
        valid_rows(rows),
        keep != delete,
    ensures
        ({
            let seen = observed_rows(observed_rows(rows, keep), delete);
            &&& valid_rows(seen)
            &&& merged_rows(seen, keep, delete) == merged_rows(rows, keep, delete)
            &&& merge_applies(rows_map(seen), keep, delete) == merge_applies(
                rows_map(rows),
                keep,
                delete,
            )
            &&& canonical(rows_map(seen), keep) == canonical(rows_map(rows), keep)
        }),
{
    let first = observed_rows(rows, keep);
    lemma_observed_rows(rows, keep);
    lemma_observed(rows_map(rows), keep);
    let seen = observed_rows(first, delete);
    lemma_observed_rows(first, delete);
    lemma_observed(rows_map(first), delete);
    lemma_rows_map(seen);
    assert(rows_map(seen).dom().contains(keep));
    assert(rows_map(seen).dom().contains(delete));
    assert(has_row(seen, keep) && has_row(seen, delete));
    assert(observed_rows(observed_rows(seen, keep), delete) == seen);
}

/// The translator of merge records.
#[derive(Clone, Copy, Debug)]
pub struct NameMergeTranslation {}

impl NameMergeTranslation {
    /// Merges belong to the table `name` and wait for no other table.
    pub fn pull_dependencies(&self) -> (descriptor: PullDependency)
        ensures
            descriptor.table == LegacyTable::Name,
            descriptor.dependencies@ == Seq::<LegacyTable>::empty(),
    {
        PullDependency { table: LegacyTable::Name, dependencies: Vec::new() }
    }

    /// Makes the merge that `message` asks for and reports the link rows
    /// that it rewrote.
    ///
    /// Without records no link changed: nothing resolves to the deleted id
    /// any more, or the store refused the merge; the report says which.
    pub fn merge_links(&self, links: &mut LinkStore, message: &NameMergeMessage) -> (done:
        MergedLinks)
        requires
            old(links).wf(),
        ensures
            final(links).wf(),
            final(links).rows() == merged_rows(old(links).rows(), message@.keep, message@.delete),
            final(links)@ == merged(old(links)@, message@.keep, message@.delete),
            done.report == merge_report(old(links)@, message@.keep, message@.delete),
            match done.records {
                Some(r) => merge_records(old(links).rows(), message@.keep, message@.delete) == Some(
                    r@,
                ),
                None => merge_records(old(links).rows(), message@.keep, message@.delete) is None,
            },
    {
        let keep: &str = message.merge_id_to_keep.as_str();
        let delete: &str = message.merge_id_to_delete.as_str();
        proof {
            lemma_merged_rows(old(links).rows(), keep@, delete@);
        }
        if message.merge_id_to_keep == message.merge_id_to_delete {
            return MergedLinks { records: None, report: Err(LinkResolutionError::SelfMerge) };
        }
        proof {
            lemma_merge_after_observing(old(links).rows(), keep@, delete@);
            lemma_observed(old(links)@, keep@);
            lemma_observed(observed(old(links)@, keep@), delete@);
        }
        let target: String = links.resolve(keep);
        let _ = links.resolve(delete);
        let ids: Vec<String> = links.ids_resolving_to(delete);
        let ghost seen = links.rows();
        let report = links.merge(keep, delete);
        match report {
            Ok(MergeOutcome::Applied) => {
                let ghost id_views = ids@.map_values(|s: String| s@);
                let mut upserts: Vec<PullUpsertRecord> = Vec::new();
                let mut i: usize = 0;
                while i < ids.len()
                    invariant
                        i <= ids.len(),
                        id_views == ids@.map_values(|s: String| s@),
                        upserts.len() == i,
                        forall|j: int|
                            0 <= j < i ==> (#[trigger] upserts[j])@ == UpsertView::NameLink(
                                LinkRow { id: id_views[j], canonical_id: target@ },
                            ),
                    decreases ids.len() - i,
                {
                    upserts.push(
                        PullUpsertRecord::NameLink(
                            EntityLink { id: ids[i].clone(), canonical_id: target.clone() },
                        ),
                    );
                    i += 1;
                }
                let records = IntegrationRecords::from_upserts(upserts);
                assert(records@.upserts =~= link_upserts(ids_pointing_at(seen, delete@), target@));
                MergedLinks { records: Some(records), report }
            },
            _ => MergedLinks { records: None, report },
        }
    }

    /// Translates a merge record and keeps what the link store reported.
    ///
    /// A record of another table gives `Ok(None)` and changes nothing. A
    /// payload without the two ids is an error and changes nothing.
    pub fn translate_merge(&self, links: &mut LinkStore, sync_record: &Envelope) -> (result: Result<
        Option<MergedLinks>,
        TranslationError,
    >)
        requires
            old(links).wf(),
        ensures
            final(links).wf(),
            final(links).rows() == merge_translation(old(links).rows(), sync_record@).links,
            match result {
                Ok(Some(done)) => {
                    let translated = merge_translation(old(links).rows(), sync_record@);
                    &&& translated.report == Some(done.report)
                    &&& translated.result == Ok::<Option<RecordsView>, TranslationError>(
                        match done.records {
                            Some(r) => Some(r@),
                            None => None,
                        },
                    )
                },
                Ok(None) => {
                    let translated = merge_translation(old(links).rows(), sync_record@);
                    &&& translated.report is None
                    &&& translated.result == Ok::<Option<RecordsView>, TranslationError>(None)
                },
                Err(e) => merge_translation(old(links).rows(), sync_record@).result == Err::<
                    Option<RecordsView>,
                    TranslationError,
                >(e),
            },
    {
        match LegacyTable::from_name(sync_record.table_name.as_str()) {
            Some(LegacyTable::Name) => {},
            _ => {
                return Ok(None);
            },
        }
        match NameMergeMessage::decode(sync_record.payload.as_str()) {
            Some(message) => Ok(Some(self.merge_links(links, &message))),
            None => Err(TranslationError::MalformedPayload),
        }
    }

    /// Translates a merge record.
    ///
    /// A record of another table gives `Ok(None)` and changes nothing. A
    /// payload without the two ids is an error and changes nothing.
    pub fn try_translate_pull_merge(&self, links: &mut LinkStore, sync_record: &Envelope) -> (result:
        Result<Option<IntegrationRecords>, TranslationError>)
        requires
            old(links).wf(),
        ensures
            final(links).wf(),
            merge_result_view(result) == merge_translation(old(links).rows(), sync_record@).result,
            final(links).rows() == merge_translation(old(links).rows(), sync_record@).links,
    {
        match self.translate_merge(links, sync_record) {
            Ok(Some(done)) => Ok(done.records),
            Ok(None) => Ok(None),
            Err(e) => Err(e),
        }
    }
}

} // verus!
