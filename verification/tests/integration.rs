use supply_sync::sync::domain_store::DomainStore;
use supply_sync::sync::envelope::{Envelope, SyncAction};
use supply_sync::sync::integration::{
    apply_envelope, newest_sequence, FatalError, Integrator, Outcome, SkipReason, StorageError,
    StorageOutcome, TableCounts,
};
use supply_sync::sync::link_store::{EntityLink, LinkResolutionError, LinkStore};
use supply_sync::sync::plan::{applies_no_later, key_of, plan_batch, PlanKey};
use supply_sync::sync::registry::{ConfigurationError, PullDependency, Registry};
use supply_sync::sync::table::LegacyTable;
use supply_sync::sync::translation::{standard_registry, TranslationError};

fn merge(record_id: &str, sequence: u64, keep: &str, delete: &str) -> Envelope {
    Envelope::new(
        record_id,
        "name",
        SyncAction::Merge,
        sequence,
        &format!(
            r#"{{
                "mergeIdToKeep": "{}",
                "mergeIdToDelete": "{}"
            }}"#,
            keep, delete
        ),
    )
}

fn name(id: &str, sequence: u64) -> Envelope {
    Envelope::new(
        id,
        "name",
        SyncAction::Upsert,
        sequence,
        &format!(r#"{{"ID": "{}", "name": "Name {}"}}"#, id, id),
    )
}

fn store(id: &str, sequence: u64, name_id: &str) -> Envelope {
    Envelope::new(
        id,
        "store",
        SyncAction::Upsert,
        sequence,
        &format!(r#"{{"ID": "{}", "code": "S", "name_ID": "{}"}}"#, id, name_id),
    )
}

fn order(id: &str, sequence: u64, name_id: &str, store_id: &str) -> Envelope {
    Envelope::new(
        id,
        "orders",
        SyncAction::Upsert,
        sequence,
        &format!(
            r#"{{"ID": "{}", "status": "new", "name_ID": "{}", "store_ID": "{}"}}"#,
            id, name_id, store_id
        ),
    )
}

fn item(id: &str, sequence: u64) -> Envelope {
    Envelope::new(
        id,
        "item",
        SyncAction::Upsert,
        sequence,
        &format!(r#"{{"ID": "{}", "item_name": "Item {}"}}"#, id, id),
    )
}

fn sorted_links(links: &LinkStore) -> Vec<(String, String)> {
    let mut rows: Vec<(String, String)> = links
        .links()
        .into_iter()
        .map(|EntityLink { id, canonical_id }| (id, canonical_id))
        .collect();
    rows.sort();
    rows
}

fn sorted_rows(domain: &DomainStore) -> Vec<(LegacyTable, String, Option<String>, Option<String>, String)> {
    let mut rows: Vec<_> = domain
        .rows()
        .into_iter()
        .map(|row| (row.table, row.id, row.entity_id, row.parent_id, row.label))
        .collect();
    rows.sort_by(|a, b| (a.0.name(), &a.1).cmp(&(b.0.name(), &b.1)));
    rows
}

fn integrate(driver: &mut Integrator, batch: &Vec<Envelope>) -> supply_sync::sync::integration::IntegrationSummary {
    let staged = driver.stage(batch);
    driver.settle(staged, StorageOutcome::Committed).unwrap()
}

fn record_ids(plan: &Vec<Envelope>) -> Vec<String> {
    plan.iter().map(|e| e.record_id.clone()).collect()
}

#[test]
fn test_name_merge() {
    let mut sync_records = vec![
        Envelope {
            record_id: "name_b_merge".to_string(),
            table_name: LegacyTable::Name.name().to_string(),
            action: SyncAction::Merge,
            sequence: 0,
            payload: r#"{
                        "mergeIdToKeep": "name_b",
                        "mergeIdToDelete": "name_a"
                    }"#
            .to_string(),
        },
        Envelope {
            record_id: "name_c_merge".to_string(),
            table_name: LegacyTable::Name.name().to_string(),
            action: SyncAction::Merge,
            sequence: 0,
            payload: r#"{
                      "mergeIdToKeep": "name_c",
                      "mergeIdToDelete": "name_b"
                    }"#
            .to_string(),
        },
    ];

    let expected_name_links = vec![
        ("name_a".to_string(), "name_c".to_string()),
        ("name_b".to_string(), "name_c".to_string()),
        ("name_c".to_string(), "name_c".to_string()),
    ];

    let mut driver = Integrator::new(standard_registry());
    integrate(&mut driver, &sync_records);
    let mut name_links = driver.links().ids_resolving_to("name_c");
    name_links.sort();
    assert_eq!(name_links, vec!["name_a", "name_b", "name_c"]);
    assert_eq!(sorted_links(driver.links()), expected_name_links);

    let mut driver = Integrator::new(standard_registry());
    sync_records.reverse();
    let plan = plan_batch(&standard_registry(), &sync_records);
    assert_eq!(record_ids(&plan), vec!["name_c_merge", "name_b_merge"]);
    integrate(&mut driver, &sync_records);
    let mut name_links = driver.links().ids_resolving_to("name_c");
    name_links.sort();
    assert_eq!(name_links, vec!["name_a", "name_b", "name_c"]);
    assert_eq!(sorted_links(driver.links()), expected_name_links);
}

#[test]
fn order_row_references_the_kept_entity_after_a_merge_in_the_same_batch() {
    let mut driver = Integrator::new(standard_registry());
    integrate(&mut driver, &vec![name("p1", 1), name("p2", 2), store("s1", 3, "p1")]);
    let batch = vec![order("o1", 10, "p2", "s1"), merge("m1", 11, "p1", "p2")];
    let summary = integrate(&mut driver, &batch);
    let row = driver.domain().get(LegacyTable::Orders, "o1").unwrap();
    assert_eq!(row.entity_id, Some("p1".to_string()));
    assert_eq!(summary.orders, TableCounts { applied: 1, skipped: 0, errored: 0 });
    assert_eq!(summary.name, TableCounts { applied: 1, skipped: 0, errored: 0 });
}

#[test]
fn failed_storage_keeps_the_cursor_and_the_retry_applies_the_record_once() {
    let mut driver = Integrator::new(standard_registry());
    integrate(&mut driver, &vec![item("i10", 10)]);
    assert_eq!(driver.cursor(), 10);
    let rows_before = sorted_rows(driver.domain());

    let batch = vec![item("i11", 11)];
    let staged = driver.stage(&batch);
    assert_eq!(staged.cursor(), 11);
    let result = driver.settle(staged, StorageOutcome::Failed(StorageError::Transaction));
    assert_eq!(result, Err(FatalError::Storage(StorageError::Transaction)));
    assert_eq!(driver.cursor(), 10);
    assert_eq!(sorted_rows(driver.domain()), rows_before);
    assert!(driver.domain().get(LegacyTable::Item, "i11").is_none());

    let summary = integrate(&mut driver, &batch);
    assert_eq!(summary.item, TableCounts { applied: 1, skipped: 0, errored: 0 });
    assert_eq!(driver.cursor(), 11);
    let rows = sorted_rows(driver.domain());
    assert_eq!(rows.iter().filter(|row| row.1 == "i11").count(), 1);
    assert_eq!(rows.len(), 2);
}

#[test]
fn failed_storage_keeps_the_links_of_the_batch_out() {
    let mut driver = Integrator::new(standard_registry());
    let staged = driver.stage(&vec![merge("m", 1, "a", "b")]);
    let result = driver.settle(staged, StorageOutcome::Failed(StorageError::Connection));
    assert_eq!(result, Err(FatalError::Storage(StorageError::Connection)));
    assert_eq!(driver.links().len(), 0);
    assert_eq!(driver.cursor(), 0);
}

#[test]
fn staging_does_not_change_the_driver() {
    let driver = Integrator::new(standard_registry());
    let staged = driver.stage(&vec![name("n1", 5)]);
    assert_eq!(staged.log().len(), 1);
    assert_eq!(driver.cursor(), 0);
    assert_eq!(driver.domain().len(), 0);
    assert_eq!(driver.links().len(), 0);
}

#[test]
fn applying_the_same_record_twice_is_applying_it_once() {
    let registry = standard_registry();
    let envelopes = vec![
        name("n1", 1),
        store("s1", 2, "n1"),
        merge("m1", 3, "n2", "n1"),
        Envelope::new("s1", "store", SyncAction::Delete, 4, ""),
        Envelope::new("u", "unknown", SyncAction::Upsert, 5, "{}"),
        Envelope::new("bad", "item", SyncAction::Upsert, 6, "{"),
    ];
    let mut links = LinkStore::new();
    let mut domain = DomainStore::new();
    for envelope in &envelopes {
        apply_envelope(&registry, &mut links, &mut domain, envelope);
        let links_once = sorted_links(&links);
        let rows_once = sorted_rows(&domain);
        apply_envelope(&registry, &mut links, &mut domain, envelope);
        assert_eq!(sorted_links(&links), links_once);
        assert_eq!(sorted_rows(&domain), rows_once);
    }
}

#[test]
fn integrating_the_same_batch_twice_gives_the_same_state() {
    let batch = vec![
        order("o1", 4, "p2", "s1"),
        store("s1", 3, "p1"),
        name("p2", 2),
        name("p1", 1),
        merge("m1", 5, "p1", "p2"),
    ];
    let mut driver = Integrator::new(standard_registry());
    integrate(&mut driver, &batch);
    let links_once = sorted_links(driver.links());
    let rows_once = sorted_rows(driver.domain());
    integrate(&mut driver, &batch);
    assert_eq!(sorted_links(driver.links()), links_once);
    assert_eq!(sorted_rows(driver.domain()), rows_once);
}

#[test]
fn records_of_a_dependent_table_are_applied_after_all_records_of_its_dependency() {
    let registry = Registry::new(vec![
        PullDependency { table: LegacyTable::Store, dependencies: vec![LegacyTable::Name] },
        PullDependency { table: LegacyTable::Name, dependencies: vec![] },
    ])
    .unwrap();
    let batch = vec![
        store("t2_first", 1, "n1"),
        name("t1_late", 9),
        store("t2_second", 2, "n2"),
        name("t1_early", 3),
    ];
    let plan = plan_batch(&registry, &batch);
    assert_eq!(
        record_ids(&plan),
        vec!["t1_early", "t1_late", "t2_first", "t2_second"]
    );
}

#[test]
fn merges_are_applied_first_and_unknown_tables_last() {
    let registry = standard_registry();
    let batch = vec![
        Envelope::new("x", "unheard_of", SyncAction::Upsert, 1, "{}"),
        order("o", 2, "p", "s"),
        merge("m2", 8, "a", "b"),
        item("i", 3),
        name("n", 7),
        merge("m1", 4, "c", "d"),
        store("s", 5, "p"),
    ];
    let plan = plan_batch(&registry, &batch);
    assert_eq!(record_ids(&plan), vec!["m1", "m2", "n", "s", "i", "o", "x"]);
}

#[test]
fn records_with_equal_keys_keep_their_order_of_arrival() {
    let registry = standard_registry();
    let batch = vec![item("first", 5), item("second", 5), item("third", 5)];
    let plan = plan_batch(&registry, &batch);
    assert_eq!(record_ids(&plan), vec!["first", "second", "third"]);
}

#[test]
fn plan_of_an_empty_batch_is_empty() {
    let plan = plan_batch(&standard_registry(), &vec![]);
    assert!(plan.is_empty());
}

#[test]
fn plan_keys_order_by_phase_then_rank_then_sequence() {
    let registry = standard_registry();
    assert_eq!(
        key_of(&registry, &merge("m", 9, "a", "b")),
        PlanKey { phase: 0, rank: 0, sequence: 9 }
    );
    assert_eq!(
        key_of(&registry, &order("o", 3, "p", "s")),
        PlanKey { phase: 1, rank: 3, sequence: 3 }
    );
    assert_eq!(
        key_of(&registry, &Envelope::new("x", "nope", SyncAction::Delete, 2, "")),
        PlanKey { phase: 2, rank: 0, sequence: 2 }
    );
    let early = PlanKey { phase: 1, rank: 2, sequence: 50 };
    let late = PlanKey { phase: 1, rank: 3, sequence: 1 };
    assert!(applies_no_later(early, late));
    assert!(!applies_no_later(late, early));
    assert!(applies_no_later(early, early));
    assert!(applies_no_later(PlanKey { phase: 0, rank: 9, sequence: 9 }, early));
    assert!(!applies_no_later(
        PlanKey { phase: 1, rank: 2, sequence: 51 },
        early
    ));
}

#[test]
fn malformed_record_does_not_keep_the_others_from_being_applied() {
    let mut batch: Vec<Envelope> = (1..=8).map(|n| item(&format!("R{}", n), n)).collect();
    batch[4] = Envelope::new("R5", "item", SyncAction::Upsert, 5, r#"{"ID": "R5"}"#);
    let mut driver = Integrator::new(standard_registry());
    let staged = driver.stage(&batch);
    let outcomes: Vec<(String, Outcome)> = staged
        .log()
        .iter()
        .map(|entry| (entry.record_id.clone(), entry.outcome))
        .collect();
    for (record_id, outcome) in &outcomes {
        if record_id == "R5" {
            assert_eq!(*outcome, Outcome::Errored(TranslationError::MalformedPayload));
        } else {
            assert_eq!(*outcome, Outcome::Applied);
        }
    }
    let summary = driver.settle(staged, StorageOutcome::Committed).unwrap();
    assert_eq!(summary.item, TableCounts { applied: 7, skipped: 0, errored: 1 });
    for n in [1, 2, 3, 4, 6, 7, 8] {
        assert!(driver.domain().contains(LegacyTable::Item, &format!("R{}", n)));
    }
    assert!(!driver.domain().contains(LegacyTable::Item, "R5"));
    assert_eq!(driver.cursor(), 8);

    let mut without = Integrator::new(standard_registry());
    batch.remove(4);
    integrate(&mut without, &batch);
    assert_eq!(sorted_rows(without.domain()), sorted_rows(driver.domain()));
}

#[test]
fn summary_counts_each_table_and_the_unknown_ones() {
    let mut driver = Integrator::new(standard_registry());
    let batch = vec![
        name("n1", 1),
        name("n2", 2),
        merge("m1", 3, "n1", "n2"),
        merge("m2", 4, "n1", "n2"),
        merge("m3", 5, "n1", "n1"),
        Envelope::new("m4", "name", SyncAction::Merge, 6, "{}"),
        Envelope::new("n1", "name", SyncAction::Delete, 7, ""),
        store("s1", 8, "n2"),
        order("o1", 9, "n2", "s1"),
        order("o2", 10, "n2", "missing_store"),
        Envelope::new("l1", "order_line", SyncAction::Upsert, 11, r#"{"ID": "l1", "item_name": "x", "order_ID": "o1"}"#),
        Envelope::new("q", "vaccine", SyncAction::Upsert, 12, "{}"),
        Envelope::new("mq", "vaccine", SyncAction::Merge, 13, "{}"),
    ];
    let summary = integrate(&mut driver, &batch);
    assert_eq!(summary.name, TableCounts { applied: 3, skipped: 2, errored: 2 });
    assert_eq!(summary.store, TableCounts { applied: 1, skipped: 0, errored: 0 });
    assert_eq!(summary.item, TableCounts { applied: 0, skipped: 0, errored: 0 });
    assert_eq!(summary.orders, TableCounts { applied: 1, skipped: 0, errored: 1 });
    assert_eq!(summary.order_line, TableCounts { applied: 1, skipped: 0, errored: 0 });
    assert_eq!(summary.unknown, TableCounts { applied: 0, skipped: 2, errored: 0 });
    assert_eq!(summary.counts(LegacyTable::Orders), summary.orders);
    assert_eq!(driver.cursor(), 13);
}

#[test]
fn records_of_an_unregistered_table_are_skipped() {
    let registry = Registry::new(vec![PullDependency {
        table: LegacyTable::Name,
        dependencies: vec![],
    }])
    .unwrap();
    let mut driver = Integrator::new(registry);
    let summary = integrate(&mut driver, &vec![item("i1", 1), name("n1", 2)]);
    assert_eq!(summary.item, TableCounts { applied: 0, skipped: 1, errored: 0 });
    assert_eq!(summary.name, TableCounts { applied: 1, skipped: 0, errored: 0 });
    assert_eq!(driver.domain().len(), 1);
}

#[test]
fn cursor_is_the_newest_sequence_and_never_goes_back() {
    assert_eq!(newest_sequence(10, &vec![]), 10);
    assert_eq!(newest_sequence(10, &vec![item("a", 11), item("b", 14), item("c", 12)]), 14);
    assert_eq!(newest_sequence(10, &vec![item("a", 3)]), 10);
    let mut driver = Integrator::new(standard_registry());
    integrate(&mut driver, &vec![item("a", 7)]);
    integrate(&mut driver, &vec![item("b", 4)]);
    assert_eq!(driver.cursor(), 7);
}

#[test]
fn driver_resumes_from_stored_state() {
    let mut links = LinkStore::new();
    links.merge("p1", "p2").unwrap();
    let mut driver = Integrator::resume(standard_registry(), links, DomainStore::new(), 40);
    assert_eq!(driver.cursor(), 40);
    integrate(&mut driver, &vec![store("s1", 41, "p2")]);
    let row = driver.domain().get(LegacyTable::Store, "s1").unwrap();
    assert_eq!(row.entity_id, Some("p1".to_string()));
    assert_eq!(driver.cursor(), 41);
}

#[test]
fn log_holds_what_each_record_wrote() {
    let driver = Integrator::new(standard_registry());
    let staged = driver.stage(&vec![item("i1", 1), Envelope::new("i0", "item", SyncAction::Delete, 2, "")]);
    let log = staged.log();
    assert_eq!(log.len(), 2);
    assert_eq!(log[0].record_id, "i1");
    assert_eq!(log[0].table_name, "item");
    assert_eq!(log[0].sequence, 1);
    assert_eq!(log[0].records.as_ref().unwrap().upserts.len(), 1);
    assert_eq!(log[1].records.as_ref().unwrap().deletes.len(), 1);
    assert_eq!(staged.summary().item, TableCounts { applied: 2, skipped: 0, errored: 0 });
}

#[test]
fn driver_does_not_start_on_cyclic_dependencies() {
    let result = Integrator::start(vec![
        PullDependency { table: LegacyTable::Name, dependencies: vec![LegacyTable::Orders] },
        PullDependency { table: LegacyTable::Orders, dependencies: vec![LegacyTable::Name] },
    ]);
    assert_eq!(
        result.err(),
        Some(FatalError::Configuration(ConfigurationError::CyclicDependency))
    );
    let result = Integrator::start(vec![
        PullDependency { table: LegacyTable::Name, dependencies: vec![] },
        PullDependency { table: LegacyTable::Name, dependencies: vec![] },
    ]);
    assert_eq!(
        result.err(),
        Some(FatalError::Configuration(ConfigurationError::DuplicateTable(LegacyTable::Name)))
    );
}

#[test]
fn driver_starts_empty_on_valid_descriptors() {
    let driver = Integrator::start(vec![
        PullDependency { table: LegacyTable::Orders, dependencies: vec![LegacyTable::Name] },
        PullDependency { table: LegacyTable::Name, dependencies: vec![] },
    ])
    .ok()
    .unwrap();
    assert_eq!(driver.cursor(), 0);
    assert_eq!(driver.links().len(), 0);
    assert_eq!(driver.domain().len(), 0);
}

#[test]
fn log_says_why_a_record_was_skipped() {
    let driver = Integrator::new(standard_registry());
    let staged = driver.stage(&vec![
        merge("applied", 1, "n1", "n2"),
        merge("again", 2, "n1", "n2"),
        merge("self", 3, "n1", "n1"),
        merge("back", 4, "n2", "n1"),
        Envelope::new("other", "store", SyncAction::Merge, 5, "{}"),
        Envelope::new("unknown", "vaccine", SyncAction::Upsert, 6, "{}"),
    ]);
    let outcomes: Vec<Outcome> = staged.log().iter().map(|entry| entry.outcome).collect();
    assert_eq!(
        outcomes,
        vec![
            Outcome::Applied,
            Outcome::Skipped(SkipReason::NoExistingLink),
            Outcome::Skipped(SkipReason::MergeRefused(LinkResolutionError::SelfMerge)),
            Outcome::Skipped(SkipReason::MergeRefused(
                LinkResolutionError::KeepResolvesToDelete
            )),
            Outcome::Skipped(SkipReason::UnknownTable),
            Outcome::Skipped(SkipReason::UnknownTable),
        ]
    );
}
