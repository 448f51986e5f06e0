use supply_sync::sync::envelope::SyncAction;
use supply_sync::sync::integration::{Integrator, StorageOutcome, TableCounts};
use supply_sync::sync::table::LegacyTable;
use supply_sync::sync::test_data::{
    get_test_name_records, get_test_name_upsert_records, Gender, NameType, TestSyncDataRecord,
    Timestamp,
};
use supply_sync::sync::translation::standard_registry;

#[test]
fn sample_names_are_three_records_of_the_name_table() {
    let records = get_test_name_records();
    assert_eq!(records.len(), 3);
    let identifiers: Vec<&str> = records.iter().map(|r| r.identifier).collect();
    assert_eq!(identifiers, vec!["General", "Birch Store", "Birch Store 2"]);
    let buffer_ids: Vec<i32> = records.iter().map(|r| r.central_sync_buffer_row.id).collect();
    assert_eq!(buffer_ids, vec![200, 201, 202]);
    for record in &records {
        assert_eq!(record.central_sync_buffer_row.table_name, "name");
        let TestSyncDataRecord::Name(Some(row)) = &record.translated_record else {
            panic!("expected a name row");
        };
        assert_eq!(row.id, record.central_sync_buffer_row.record_id);
        assert_eq!(row.name, record.identifier);
    }
}

#[test]
fn first_sample_name_is_a_patient_with_all_its_fields() {
    let records = get_test_name_records();
    let TestSyncDataRecord::Name(Some(row)) = &records[0].translated_record else {
        panic!("expected a name row");
    };
    assert_eq!(row.id, "1FB32324AF8049248D929CFB35F255BA");
    assert_eq!(row.name, "General");
    assert_eq!(row.code, "GEN");
    assert_eq!(row.name_type, NameType::Patient);
    assert!(row.is_supplier);
    assert!(row.is_customer);
    assert_eq!(row.supplying_store_id, None);
    assert_eq!(row.first_name, Some("first_name".to_string()));
    assert_eq!(row.last_name, Some("last_name".to_string()));
    assert_eq!(row.gender, Some(Gender::Female));
    assert_eq!(row.date_of_birth, None);
    assert_eq!(row.phone, Some("0123456789".to_string()));
    assert_eq!(row.charge_code, Some("GEN".to_string()));
    assert_eq!(row.comment, Some("name comment".to_string()));
    assert_eq!(row.country, Some("name country".to_string()));
    assert_eq!(row.email, Some("name email".to_string()));
    assert_eq!(row.website, Some("name website".to_string()));
    assert!(row.is_manufacturer);
    assert!(!row.is_donor);
    assert!(row.on_hold);
    assert_eq!(row.address1, Some("address1".to_string()));
    assert_eq!(row.address2, Some("address2".to_string()));
    assert_eq!(
        row.created_datetime,
        Some(Timestamp { year: 2022, month: 2, day: 10, hour: 0, minute: 0, second: 0 })
    );
}

#[test]
fn sample_stores_are_facilities_supplied_by_the_same_store() {
    let records = get_test_name_records();
    for index in [1, 2] {
        let TestSyncDataRecord::Name(Some(row)) = &records[index].translated_record else {
            panic!("expected a name row");
        };
        assert_eq!(row.code, "SNA");
        assert_eq!(row.name_type, NameType::Facility);
        assert!(row.is_customer);
        assert!(!row.is_supplier);
        assert_eq!(
            row.supplying_store_id,
            Some("D77F67339BF8400886D009178F4962E1".to_string())
        );
        assert_eq!(row.address1, Some("234 Evil Street".to_string()));
        assert_eq!(row.address2, Some("Scotland".to_string()));
        assert_eq!(row.gender, None);
        assert_eq!(row.created_datetime, None);
    }
    assert_eq!(
        records[1].central_sync_buffer_row.record_id,
        "9EDD3F83C3D64C22A3CC9C98CF4967C4"
    );
    assert_eq!(
        records[2].central_sync_buffer_row.record_id,
        "CB929EB86530455AB0392277FAC3DBA4"
    );
}

#[test]
fn sample_upsert_renames_the_first_name() {
    let records = get_test_name_upsert_records();
    assert_eq!(records.len(), 1);
    let record = &records[0];
    assert_eq!(record.identifier, "General2");
    assert_eq!(record.central_sync_buffer_row.id, 250);
    assert_eq!(record.central_sync_buffer_row.table_name, "name");
    assert_eq!(
        record.central_sync_buffer_row.record_id,
        "1FB32324AF8049248D929CFB35F255BA"
    );
    let TestSyncDataRecord::Name(Some(row)) = &record.translated_record else {
        panic!("expected a name row");
    };
    assert_eq!(row.name, "General2");
    assert_eq!(row.code, "GEN");
    assert_eq!(row.name_type, NameType::Store);
    assert!(row.is_customer);
    assert!(row.is_supplier);
    assert_eq!(row.gender, Some(Gender::Male));
    assert_eq!(row.charge_code, Some("GEN".to_string()));
    assert_eq!(row.first_name, None);
    assert_eq!(row.created_datetime, None);
}

#[test]
fn buffer_row_becomes_an_upsert_with_its_place_as_sequence() {
    let records = get_test_name_records();
    let envelope = records[1].central_sync_buffer_row.to_envelope();
    assert_eq!(envelope.action, SyncAction::Upsert);
    assert_eq!(envelope.sequence, 201);
    assert_eq!(envelope.table_name, "name");
    assert_eq!(envelope.record_id, "9EDD3F83C3D64C22A3CC9C98CF4967C4");
    assert_eq!(envelope.payload, records[1].central_sync_buffer_row.data);
}

#[test]
fn sample_names_integrate_to_rows_with_their_ids_and_names() {
    let mut driver = Integrator::new(standard_registry());
    let records = get_test_name_records();
    let batch = records.iter().map(|r| r.central_sync_buffer_row.to_envelope()).collect();
    let staged = driver.stage(&batch);
    let summary = driver.settle(staged, StorageOutcome::Committed).unwrap();
    assert_eq!(summary.name, TableCounts { applied: 3, skipped: 0, errored: 0 });
    for record in &records {
        let TestSyncDataRecord::Name(Some(expected)) = &record.translated_record else {
            panic!("expected a name row");
        };
        let row = driver.domain().get(LegacyTable::Name, &expected.id).unwrap();
        assert_eq!(row.label, expected.name);
        assert_eq!(row.entity_id, Some(expected.id.clone()));
    }
    assert_eq!(driver.cursor(), 202);

    let upserts = get_test_name_upsert_records();
    let batch = upserts.iter().map(|r| r.central_sync_buffer_row.to_envelope()).collect();
    let staged = driver.stage(&batch);
    driver.settle(staged, StorageOutcome::Committed).unwrap();
    let row = driver.domain().get(LegacyTable::Name, "1FB32324AF8049248D929CFB35F255BA").unwrap();
    assert_eq!(row.label, "General2");
    assert_eq!(driver.domain().len(), 3);
    assert_eq!(driver.cursor(), 250);
}
