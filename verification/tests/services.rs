use supply_sync::service::asset::{
    check_asset_exists, check_asset_log_exists, check_asset_number_exists,
    check_locations_are_assigned, check_reason_matches_status, AssetInternalLocationRow,
    AssetLogReason, AssetLogRow, AssetLogStatus, AssetRow,
};
use supply_sync::service::context::{context_program_a, mock_contexts};
use supply_sync::service::invoice::{
    get_invoice, get_invoices, invoices_count, Invoice, InvoiceCountService, InvoiceRowStatus, InvoiceRowType,
    SingleRecordError,
};
use supply_sync::service::listing::{
    get_default_pagination, i64_to_u32, ListError, Pagination, PaginationOption,
};
use supply_sync::service::pack_variant::{
    created_record, generate, insert_pack_variant, validate, InsertPackVariant,
    InsertPackVariantError, PackVariantLookup, PackVariantRow,
};

fn asset(id: &str, number: Option<&str>) -> AssetRow {
    AssetRow { id: id.to_string(), asset_number: number.map(|n| n.to_string()) }
}

fn location(id: &str, asset_id: &str, location_id: &str) -> AssetInternalLocationRow {
    AssetInternalLocationRow {
        id: id.to_string(),
        asset_id: asset_id.to_string(),
        location_id: location_id.to_string(),
    }
}

fn invoice(id: &str, store: &str, kind: InvoiceRowType, status: InvoiceRowStatus) -> Invoice {
    Invoice {
        id: id.to_string(),
        name_id: "name".to_string(),
        store_id: store.to_string(),
        invoice_number: 1,
        invoice_type: kind,
        status,
        created_datetime: CREATED,
        allocated_datetime: None,
        picked_datetime: None,
        shipped_datetime: None,
        delivered_datetime: None,
        verified_datetime: None,
    }
}

const CREATED: i64 = 1_638_909_000_000;

fn input(pack_size: i32) -> InsertPackVariant {
    InsertPackVariant {
        id: "variant".to_string(),
        item_id: "item".to_string(),
        pack_size,
        short_name: "tab".to_string(),
        long_name: "tablet".to_string(),
    }
}

const FOUND_NOTHING_WRONG: PackVariantLookup =
    PackVariantLookup { pack_variant_exists: false, pack_size_is_unique: true, item_exists: true };

#[test]
fn sample_context_is_program_a() {
    let row = context_program_a();
    assert_eq!(row.id, "program_a");
    assert_eq!(row.name, "Context for program_a");
    let all = mock_contexts();
    assert_eq!(all.len(), 1);
    assert_eq!(all[0].id, "program_a");
    assert_eq!(all[0].name, "Context for program_a");
}

#[test]
fn reason_must_fit_the_status() {
    type R = AssetLogReason;
    type S = AssetLogStatus;
    let all_reasons = [
        R::AwaitingInstallation,
        R::Stored,
        R::OffsiteForRepairs,
        R::AwaitingDecommissioning,
        R::NeedsServicing,
        R::MultipleTemperatureBreaches,
        R::Unknown,
        R::NeedsSpareParts,
        R::LackOfPower,
        R::Functioning,
        R::Decommissioned,
    ];
    let fitting = |status: S| -> Vec<R> {
        all_reasons
            .iter()
            .copied()
            .filter(|reason| check_reason_matches_status(&Some(status), &Some(*reason)))
            .collect()
    };
    assert_eq!(
        fitting(S::NotInUse),
        vec![R::Stored, R::OffsiteForRepairs, R::AwaitingDecommissioning]
    );
    assert_eq!(
        fitting(S::FunctioningButNeedsAttention),
        vec![R::NeedsServicing, R::MultipleTemperatureBreaches]
    );
    assert_eq!(
        fitting(S::NotFunctioning),
        vec![R::Unknown, R::NeedsSpareParts, R::LackOfPower]
    );
    assert_eq!(fitting(S::Functioning), vec![]);
    assert_eq!(fitting(S::Decommissioned), vec![]);
}

#[test]
fn missing_status_or_reason_always_fits() {
    assert!(check_reason_matches_status(&None, &Some(AssetLogReason::Stored)));
    assert!(check_reason_matches_status(&Some(AssetLogStatus::Functioning), &None));
    assert!(check_reason_matches_status(&None, &None));
}

#[test]
fn asset_is_found_by_id() {
    let assets = vec![asset("a", Some("1")), asset("b", None), asset("b", Some("2"))];
    let found = check_asset_exists("b", &assets).unwrap();
    assert_eq!(found.id, "b");
    assert_eq!(found.asset_number, None);
    assert!(check_asset_exists("c", &assets).is_none());
    assert!(check_asset_exists("a", &vec![]).is_none());
}

#[test]
fn assets_are_found_by_number() {
    let assets = vec![asset("a", Some("7")), asset("b", None), asset("c", Some("7")), asset("d", Some("8"))];
    let found: Vec<String> =
        check_asset_number_exists("7", &assets).into_iter().map(|a| a.id).collect();
    assert_eq!(found, vec!["a", "c"]);
    assert!(check_asset_number_exists("9", &assets).is_empty());
}

#[test]
fn asset_log_is_found_by_id() {
    let logs = vec![AssetLogRow {
        id: "log".to_string(),
        asset_id: "a".to_string(),
        status: Some(AssetLogStatus::Functioning),
        reason: None,
    }];
    let found = check_asset_log_exists("log", &logs).unwrap();
    assert_eq!(found.asset_id, "a");
    assert_eq!(found.status, Some(AssetLogStatus::Functioning));
    assert!(check_asset_log_exists("other", &logs).is_none());
}

#[test]
fn locations_of_other_assets_are_taken() {
    let assigned = vec![
        location("1", "asset_a", "shelf_1"),
        location("2", "asset_b", "shelf_1"),
        location("3", "asset_b", "shelf_2"),
        location("4", "asset_c", "shelf_3"),
    ];
    let taken: Vec<String> = check_locations_are_assigned(
        vec!["shelf_1".to_string(), "shelf_3".to_string()],
        "asset_a",
        &assigned,
    )
    .into_iter()
    .map(|row| row.id)
    .collect();
    assert_eq!(taken, vec!["2", "4"]);
    assert!(check_locations_are_assigned(vec![], "asset_a", &assigned).is_empty());
}

#[test]
fn pagination_defaults_to_a_hundred_from_the_start() {
    assert_eq!(
        get_default_pagination(None, 1000, 1).unwrap(),
        Pagination { offset: 0, limit: 100 }
    );
    assert_eq!(
        get_default_pagination(Some(PaginationOption { limit: None, offset: Some(30) }), 1000, 1)
            .unwrap(),
        Pagination { offset: 30, limit: 100 }
    );
    assert_eq!(
        get_default_pagination(Some(PaginationOption { limit: Some(1000), offset: None }), 1000, 1)
            .unwrap(),
        Pagination { offset: 0, limit: 1000 }
    );
}

#[test]
fn pagination_limit_must_lie_within_the_bounds() {
    let below = get_default_pagination(Some(PaginationOption { limit: Some(0), offset: None }), 1000, 1);
    assert!(matches!(below, Err(ListError::LimitBelowMin(1))));
    let above =
        get_default_pagination(Some(PaginationOption { limit: Some(1001), offset: None }), 1000, 1);
    assert!(matches!(above, Err(ListError::LimitAboveMax(1000))));
    let both = get_default_pagination(Some(PaginationOption { limit: Some(5), offset: None }), 3, 7);
    assert!(matches!(both, Err(ListError::LimitBelowMin(7))));
}

#[test]
fn counts_that_do_not_fit_count_as_nothing() {
    assert_eq!(i64_to_u32(0), 0);
    assert_eq!(i64_to_u32(17), 17);
    assert_eq!(i64_to_u32(4294967295), 4294967295);
    assert_eq!(i64_to_u32(4294967296), 0);
    assert_eq!(i64_to_u32(-1), 0);
    assert_eq!(i64_to_u32(i64::MIN), 0);
}

#[test]
fn listing_wraps_rows_and_count() {
    let rows = vec![invoice("a", "s", InvoiceRowType::OutboundShipment, InvoiceRowStatus::New)];
    let list = get_invoices(None, rows, 41).unwrap();
    assert_eq!(list.rows.len(), 1);
    assert_eq!(list.rows[0].id, "a");
    assert_eq!(list.count, 41);
    let refused = get_invoices(Some(PaginationOption { limit: Some(2000), offset: None }), vec![], 0);
    assert!(matches!(refused, Err(ListError::LimitAboveMax(1000))));
    let refused = get_invoices(Some(PaginationOption { limit: Some(0), offset: None }), vec![], 0);
    assert!(matches!(refused, Err(ListError::LimitBelowMin(1))));
}

#[test]
fn single_invoice_is_the_last_row_or_not_found() {
    let rows = vec![
        invoice("a", "s", InvoiceRowType::OutboundShipment, InvoiceRowStatus::New),
        invoice("b", "s", InvoiceRowType::OutboundShipment, InvoiceRowStatus::New),
    ];
    assert_eq!(get_invoice(rows, "b".to_string()).unwrap().id, "b");
    match get_invoice(vec![], "missing".to_string()) {
        Err(SingleRecordError::NotFound(id)) => assert_eq!(id, "missing"),
        other => panic!("expected not found, got {:?}", other),
    }
}

#[test]
fn dashboard_counts_open_shipments_of_the_store() {
    type S = InvoiceRowStatus;
    type T = InvoiceRowType;
    let invoices = vec![
        invoice("1", "store_a", T::OutboundShipment, S::New),
        invoice("2", "store_a", T::OutboundShipment, S::Allocated),
        invoice("3", "store_a", T::OutboundShipment, S::Picked),
        invoice("4", "store_a", T::OutboundShipment, S::Shipped),
        invoice("5", "store_b", T::OutboundShipment, S::New),
        invoice("6", "store_a", T::InboundShipment, S::New),
        invoice("7", "store_a", T::InboundShipment, S::Shipped),
        invoice("8", "store_a", T::InboundShipment, S::Delivered),
        invoice("9", "store_a", T::InboundReturn, S::Shipped),
    ];
    let service = InvoiceCountService {};
    assert_eq!(service.outbound_invoices_not_shipped_count(&invoices, "store_a"), 3);
    assert_eq!(service.outbound_invoices_not_shipped_count(&invoices, "store_b"), 1);
    assert_eq!(service.outbound_invoices_not_shipped_count(&invoices, "store_c"), 0);
    assert_eq!(service.inbound_invoices_not_delivered_count(&invoices, "store_a"), 1);
    assert_eq!(service.inbound_invoices_not_delivered_count(&invoices, "store_b"), 0);
}

#[test]
fn generated_row_holds_the_values_of_the_input() {
    let row = generate(input(10));
    assert_eq!(row.id, "variant");
    assert_eq!(row.item_id, "item");
    assert_eq!(row.pack_size, 10);
    assert_eq!(row.short_name, "tab");
    assert_eq!(row.long_name, "tablet");
}

#[test]
fn pack_variant_rules_are_tested_in_order() {
    let all_wrong =
        PackVariantLookup { pack_variant_exists: true, pack_size_is_unique: false, item_exists: false };
    assert!(matches!(
        insert_pack_variant(all_wrong, input(0)),
        Err(InsertPackVariantError::PackVariantAlreadyExists)
    ));
    let not_unique =
        PackVariantLookup { pack_variant_exists: false, pack_size_is_unique: false, item_exists: false };
    assert!(matches!(
        insert_pack_variant(not_unique, input(0)),
        Err(InsertPackVariantError::VariantWithPackSizeAlreadyExists)
    ));
    let no_item =
        PackVariantLookup { pack_variant_exists: false, pack_size_is_unique: true, item_exists: false };
    assert!(matches!(
        insert_pack_variant(no_item, input(0)),
        Err(InsertPackVariantError::CannotAddPackSizeOfZero)
    ));
    assert!(matches!(
        insert_pack_variant(no_item, input(5)),
        Err(InsertPackVariantError::ItemDoesNotExist)
    ));
    assert!(matches!(
        validate(no_item, &input(5)),
        Err(InsertPackVariantError::ItemDoesNotExist)
    ));
    assert!(validate(FOUND_NOTHING_WRONG, &input(5)).is_ok());
}

#[test]
fn accepted_pack_variant_becomes_a_row() {
    let row = insert_pack_variant(FOUND_NOTHING_WRONG, input(-3)).unwrap();
    assert_eq!(row.pack_size, -3);
    assert_eq!(row.id, "variant");
}

#[test]
fn stored_row_is_read_back_or_reported_missing() {
    let row = PackVariantRow {
        id: "v".to_string(),
        item_id: "i".to_string(),
        pack_size: 1,
        short_name: String::new(),
        long_name: String::new(),
    };
    assert_eq!(created_record(Some(row)).unwrap().id, "v");
    assert!(matches!(
        created_record(None),
        Err(InsertPackVariantError::CreatedRecordNotFound)
    ));
}

#[test]
fn test_created_invoice_count() {
    let store_id = "store_b";
    let invalid_store_id = "invalid_store_id";
    let invoice_1 = invoice("outbound_shipment_a", store_id, InvoiceRowType::OutboundShipment, InvoiceRowStatus::Picked);
    let item1_type = invoice_1.invoice_type;
    let created = invoice_1.created_datetime;
    let invoices = vec![invoice_1];
    let status = InvoiceRowStatus::New;

    let count = invoices_count(&invoices, &item1_type, &status, created + 1_000, None, store_id);
    assert_eq!(0, count);
    let count = invoices_count(&invoices, &item1_type, &status, created, None, store_id);
    assert_eq!(1, count);
    let oldest = created - 50;
    let count = invoices_count(&invoices, &item1_type, &status, oldest, None, store_id);
    assert_eq!(1, count);
    let earliest = created - 20;
    let count = invoices_count(&invoices, &item1_type, &status, oldest, Some(earliest), store_id);
    assert_eq!(0, count);
    let count = invoices_count(&invoices, &item1_type, &status, oldest, None, invalid_store_id);
    assert_eq!(0, count);
}

#[test]
fn invoices_are_counted_by_the_time_of_the_status_change() {
    let mut shipped = invoice("a", "s", InvoiceRowType::InboundShipment, InvoiceRowStatus::Delivered);
    shipped.shipped_datetime = Some(CREATED + 10);
    shipped.delivered_datetime = Some(CREATED + 500);
    let never_shipped = invoice("b", "s", InvoiceRowType::InboundShipment, InvoiceRowStatus::New);
    let other_type = invoice("c", "s", InvoiceRowType::OutboundShipment, InvoiceRowStatus::New);
    let invoices = vec![shipped, never_shipped, other_type];
    let kind = InvoiceRowType::InboundShipment;
    assert_eq!(invoices_count(&invoices, &kind, &InvoiceRowStatus::Shipped, CREATED, None, "s"), 1);
    assert_eq!(invoices_count(&invoices, &kind, &InvoiceRowStatus::Shipped, CREATED + 11, None, "s"), 0);
    assert_eq!(invoices_count(&invoices, &kind, &InvoiceRowStatus::Delivered, CREATED, Some(CREATED + 500), "s"), 1);
    assert_eq!(invoices_count(&invoices, &kind, &InvoiceRowStatus::Delivered, CREATED, Some(CREATED + 499), "s"), 0);
    assert_eq!(invoices_count(&invoices, &kind, &InvoiceRowStatus::New, CREATED, None, "s"), 2);
    assert_eq!(invoices_count(&invoices, &kind, &InvoiceRowStatus::Verified, i64::MIN, None, "s"), 0);
}
