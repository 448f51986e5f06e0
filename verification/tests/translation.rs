use supply_sync::sync::domain_store::DomainStore;
use supply_sync::sync::envelope::{Envelope, SyncAction};
use supply_sync::sync::link_store::{LinkResolutionError, LinkStore, MergeOutcome};
use supply_sync::sync::name_merge::{NameMergeMessage, NameMergeTranslation};
use supply_sync::sync::records::{DomainRow, PullUpsertRecord};
use supply_sync::sync::table::LegacyTable;
use supply_sync::sync::translation::{decode, translate, translate_record, LegacyRecord, TranslationError};

fn store_row(id: &str) -> DomainRow {
    DomainRow {
        table: LegacyTable::Store,
        id: id.to_string(),
        entity_id: None,
        parent_id: None,
        label: "store".to_string(),
    }
}

#[test]
fn decode_reads_the_members_of_the_table() {
    let record = decode(
        LegacyTable::Orders,
        r#"{"ID": "o1", "status": "new", "name_ID": "p2", "store_ID": "s1", "extra": 7}"#,
    )
    .unwrap();
    assert_eq!(record.id, "o1");
    assert_eq!(record.label, "new");
    assert_eq!(record.entity, Some("p2".to_string()));
    assert_eq!(record.parent, Some("s1".to_string()));
}

#[test]
fn decode_of_a_name_takes_its_own_id_as_entity() {
    let record = decode(LegacyTable::Name, r#"{"ID": "n1", "name": "General"}"#).unwrap();
    assert_eq!(record.id, "n1");
    assert_eq!(record.label, "General");
    assert_eq!(record.entity, Some("n1".to_string()));
    assert_eq!(record.parent, None);
}

#[test]
fn decode_of_an_item_has_no_entity_and_no_parent() {
    let record = decode(LegacyTable::Item, r#"{"ID": "i1", "item_name": "Amoxicillin"}"#).unwrap();
    assert_eq!(record.label, "Amoxicillin");
    assert_eq!(record.entity, None);
    assert_eq!(record.parent, None);
}

#[test]
fn decode_refuses_what_is_no_json() {
    assert!(decode(LegacyTable::Item, "not json at all").is_none());
    assert!(decode(LegacyTable::Item, "").is_none());
    assert!(decode(LegacyTable::Item, r#"{"ID": "i1", "item_name": "x""#).is_none());
}

#[test]
fn decode_refuses_json_that_is_no_object() {
    assert!(decode(LegacyTable::Item, r#"["ID", "item_name"]"#).is_none());
    assert!(decode(LegacyTable::Item, r#""ID""#).is_none());
}

#[test]
fn decode_refuses_a_missing_member() {
    assert!(decode(LegacyTable::Item, r#"{"ID": "i1"}"#).is_none());
    assert!(decode(LegacyTable::Item, r#"{"item_name": "x"}"#).is_none());
    assert!(decode(LegacyTable::Store, r#"{"ID": "s1", "code": "S"}"#).is_none());
    assert!(decode(
        LegacyTable::OrderLine,
        r#"{"ID": "l1", "item_name": "x"}"#
    )
    .is_none());
}

#[test]
fn decode_refuses_a_member_that_is_no_text() {
    assert!(decode(LegacyTable::Item, r#"{"ID": 17, "item_name": "x"}"#).is_none());
    assert!(decode(LegacyTable::Item, r#"{"ID": "i1", "item_name": null}"#).is_none());
}

#[test]
fn upsert_of_a_name_writes_the_row_and_its_link() {
    let mut links = LinkStore::new();
    let domain = DomainStore::new();
    let envelope = Envelope::new(
        "n1",
        "name",
        SyncAction::Upsert,
        1,
        r#"{"ID": "n1", "name": "General"}"#,
    );
    let records = translate(LegacyTable::Name, &mut links, &domain, &envelope).unwrap();
    assert_eq!(records.upserts.len(), 2);
    assert!(records.deletes.is_empty());
    match &records.upserts[0] {
        PullUpsertRecord::NameLink(link) => {
            assert_eq!(link.id, "n1");
            assert_eq!(link.canonical_id, "n1");
        }
        other => panic!("expected a link row, got {:?}", other),
    }
    match &records.upserts[1] {
        PullUpsertRecord::Row(row) => {
            assert_eq!(row.table, LegacyTable::Name);
            assert_eq!(row.id, "n1");
            assert_eq!(row.entity_id, Some("n1".to_string()));
            assert_eq!(row.parent_id, None);
            assert_eq!(row.label, "General");
        }
        other => panic!("expected a row, got {:?}", other),
    }
    assert_eq!(links.lookup("n1"), Some("n1".to_string()));
}

#[test]
fn upsert_writes_the_canonical_id_of_a_merged_entity() {
    let mut links = LinkStore::new();
    links.merge("p1", "p2").unwrap();
    let domain = DomainStore::new();
    let envelope = Envelope::new(
        "s1",
        "store",
        SyncAction::Upsert,
        1,
        r#"{"ID": "s1", "code": "S1", "name_ID": "p2"}"#,
    );
    let records = translate(LegacyTable::Store, &mut links, &domain, &envelope).unwrap();
    assert_eq!(records.upserts.len(), 1);
    match &records.upserts[0] {
        PullUpsertRecord::Row(row) => assert_eq!(row.entity_id, Some("p1".to_string())),
        other => panic!("expected a row, got {:?}", other),
    }
}

#[test]
fn upsert_observes_an_entity_that_was_never_seen() {
    let mut links = LinkStore::new();
    let domain = DomainStore::new();
    let envelope = Envelope::new(
        "s1",
        "store",
        SyncAction::Upsert,
        1,
        r#"{"ID": "s1", "code": "S1", "name_ID": "fresh"}"#,
    );
    translate(LegacyTable::Store, &mut links, &domain, &envelope).unwrap();
    assert_eq!(links.lookup("fresh"), Some("fresh".to_string()));
}

#[test]
fn malformed_payload_is_an_error_and_observes_nothing() {
    let mut links = LinkStore::new();
    let domain = DomainStore::new();
    let envelope = Envelope::new("s1", "store", SyncAction::Upsert, 1, r#"{"ID": "s1"}"#);
    let result = translate(LegacyTable::Store, &mut links, &domain, &envelope);
    assert_eq!(result.err(), Some(TranslationError::MalformedPayload));
    assert_eq!(links.len(), 0);
}

#[test]
fn unknown_parent_is_an_error_and_observes_nothing() {
    let mut links = LinkStore::new();
    let domain = DomainStore::new();
    let envelope = Envelope::new(
        "o1",
        "orders",
        SyncAction::Upsert,
        1,
        r#"{"ID": "o1", "status": "new", "name_ID": "p1", "store_ID": "s1"}"#,
    );
    let result = translate(LegacyTable::Orders, &mut links, &domain, &envelope);
    assert_eq!(result.err(), Some(TranslationError::UnknownForeignKey));
    assert_eq!(links.len(), 0);
}

#[test]
fn known_parent_lets_the_order_through() {
    let mut links = LinkStore::new();
    let mut domain = DomainStore::new();
    domain.upsert(store_row("s1"));
    let envelope = Envelope::new(
        "o1",
        "orders",
        SyncAction::Upsert,
        1,
        r#"{"ID": "o1", "status": "new", "name_ID": "p1", "store_ID": "s1"}"#,
    );
    let records = translate(LegacyTable::Orders, &mut links, &domain, &envelope).unwrap();
    match &records.upserts[0] {
        PullUpsertRecord::Row(row) => {
            assert_eq!(row.parent_id, Some("s1".to_string()));
            assert_eq!(row.entity_id, Some("p1".to_string()));
            assert_eq!(row.label, "new");
        }
        other => panic!("expected a row, got {:?}", other),
    }
}

#[test]
fn parent_of_another_table_does_not_count() {
    let mut links = LinkStore::new();
    let mut domain = DomainStore::new();
    domain.upsert(store_row("x1"));
    let record = LegacyRecord {
        id: "l1".to_string(),
        label: "line".to_string(),
        entity: None,
        parent: Some("x1".to_string()),
    };
    let result = translate_record(LegacyTable::OrderLine, &mut links, &domain, &record);
    assert_eq!(result.err(), Some(TranslationError::UnknownForeignKey));
}

#[test]
fn delete_removes_by_record_id_and_reads_no_payload() {
    let mut links = LinkStore::new();
    let domain = DomainStore::new();
    let envelope = Envelope::new("i1", "item", SyncAction::Delete, 4, "");
    let records = translate(LegacyTable::Item, &mut links, &domain, &envelope).unwrap();
    assert!(records.upserts.is_empty());
    assert_eq!(records.deletes.len(), 1);
    assert_eq!(records.deletes[0].table, LegacyTable::Item);
    assert_eq!(records.deletes[0].id, "i1");
}

#[test]
fn delete_of_a_name_is_unsupported() {
    let mut links = LinkStore::new();
    let domain = DomainStore::new();
    let envelope = Envelope::new("n1", "name", SyncAction::Delete, 4, "");
    let result = translate(LegacyTable::Name, &mut links, &domain, &envelope);
    assert_eq!(result.err(), Some(TranslationError::UnsupportedAction));
}

#[test]
fn merge_is_unsupported_by_table_translators() {
    let mut links = LinkStore::new();
    let domain = DomainStore::new();
    let envelope = Envelope::new("m", "store", SyncAction::Merge, 4, "{}");
    let result = translate(LegacyTable::Store, &mut links, &domain, &envelope);
    assert_eq!(result.err(), Some(TranslationError::UnsupportedAction));
}

#[test]
fn merge_message_is_decoded_from_its_two_members() {
    let message = NameMergeMessage::decode(
        r#"{
            "mergeIdToKeep": "name_b",
            "mergeIdToDelete": "name_a"
        }"#,
    )
    .unwrap();
    assert_eq!(message.merge_id_to_keep, "name_b");
    assert_eq!(message.merge_id_to_delete, "name_a");
}

#[test]
fn merge_message_needs_both_members_as_text() {
    assert!(NameMergeMessage::decode(r#"{"mergeIdToKeep": "name_b"}"#).is_none());
    assert!(NameMergeMessage::decode(r#"{"mergeIdToDelete": "name_a"}"#).is_none());
    assert!(NameMergeMessage::decode(r#"{"mergeIdToKeep": 1, "mergeIdToDelete": "a"}"#).is_none());
    assert!(NameMergeMessage::decode("").is_none());
}

#[test]
fn merge_translator_belongs_to_the_name_table() {
    let descriptor = NameMergeTranslation {}.pull_dependencies();
    assert_eq!(descriptor.table, LegacyTable::Name);
    assert!(descriptor.dependencies.is_empty());
}

#[test]
fn merge_reports_the_rewritten_links() {
    let mut links = LinkStore::new();
    links.resolve("name_c");
    links.merge("name_a", "name_a0").unwrap();
    let message = NameMergeMessage {
        merge_id_to_keep: "name_b".to_string(),
        merge_id_to_delete: "name_a".to_string(),
    };
    let done = NameMergeTranslation {}.merge_links(&mut links, &message);
    assert_eq!(done.report, Ok(MergeOutcome::Applied));
    let records = done.records.unwrap();
    assert!(records.deletes.is_empty());
    let rewritten: Vec<(String, String)> = records
        .upserts
        .iter()
        .map(|record| match record {
            PullUpsertRecord::NameLink(link) => (link.id.clone(), link.canonical_id.clone()),
            other => panic!("expected a link row, got {:?}", other),
        })
        .collect();
    assert_eq!(
        rewritten,
        vec![
            ("name_a".to_string(), "name_b".to_string()),
            ("name_a0".to_string(), "name_b".to_string())
        ]
    );
    assert_eq!(links.lookup("name_a0"), Some("name_b".to_string()));
    assert_eq!(links.lookup("name_c"), Some("name_c".to_string()));
}

#[test]
fn merge_that_changes_no_link_reports_nothing() {
    let mut links = LinkStore::new();
    let message = NameMergeMessage {
        merge_id_to_keep: "same".to_string(),
        merge_id_to_delete: "same".to_string(),
    };
    let done = NameMergeTranslation {}.merge_links(&mut links, &message);
    assert!(done.records.is_none());
    assert_eq!(done.report, Err(LinkResolutionError::SelfMerge));
    assert_eq!(links.len(), 0);
    links.merge("x", "gone").unwrap();
    let again = NameMergeMessage {
        merge_id_to_keep: "y".to_string(),
        merge_id_to_delete: "gone".to_string(),
    };
    let done = NameMergeTranslation {}.merge_links(&mut links, &again);
    assert!(done.records.is_none());
    assert_eq!(done.report, Ok(MergeOutcome::Skipped));
    assert_eq!(links.lookup("gone"), Some("x".to_string()));
    let back = NameMergeMessage {
        merge_id_to_keep: "gone".to_string(),
        merge_id_to_delete: "x".to_string(),
    };
    let done = NameMergeTranslation {}.merge_links(&mut links, &back);
    assert!(done.records.is_none());
    assert_eq!(done.report, Err(LinkResolutionError::KeepResolvesToDelete));
}

#[test]
fn merge_record_of_another_table_is_not_translated() {
    let mut links = LinkStore::new();
    let envelope = Envelope::new(
        "m1",
        "store",
        SyncAction::Merge,
        1,
        r#"{"mergeIdToKeep": "a", "mergeIdToDelete": "b"}"#,
    );
    let result = NameMergeTranslation {}.try_translate_pull_merge(&mut links, &envelope);
    assert!(matches!(result, Ok(None)));
    assert_eq!(links.len(), 0);
}

#[test]
fn merge_record_with_a_malformed_payload_is_an_error() {
    let mut links = LinkStore::new();
    let envelope = Envelope::new("m1", "name", SyncAction::Merge, 1, r#"{"mergeIdToKeep": "a"}"#);
    let result = NameMergeTranslation {}.try_translate_pull_merge(&mut links, &envelope);
    assert_eq!(result.err(), Some(TranslationError::MalformedPayload));
    assert_eq!(links.len(), 0);
}

#[test]
fn merge_translation_keeps_the_report_of_the_link_store() {
    let mut links = LinkStore::new();
    let translator = NameMergeTranslation {};
    let applied = Envelope::new(
        "m1",
        "name",
        SyncAction::Merge,
        1,
        r#"{"mergeIdToKeep": "a", "mergeIdToDelete": "b"}"#,
    );
    let done = translator.translate_merge(&mut links, &applied).unwrap().unwrap();
    assert_eq!(done.report, Ok(MergeOutcome::Applied));
    assert_eq!(done.records.unwrap().upserts.len(), 1);
    let done = translator.translate_merge(&mut links, &applied).unwrap().unwrap();
    assert_eq!(done.report, Ok(MergeOutcome::Skipped));
    assert!(done.records.is_none());
    let other_table = Envelope::new("m2", "item", SyncAction::Merge, 2, "{}");
    assert!(translator.translate_merge(&mut links, &other_table).unwrap().is_none());
    let malformed = Envelope::new("m3", "name", SyncAction::Merge, 3, "[]");
    assert_eq!(
        translator.translate_merge(&mut links, &malformed).err(),
        Some(TranslationError::MalformedPayload)
    );
}
