use supply_sync::sync::link_store::{EntityLink, LinkResolutionError, LinkStore, MergeOutcome};

fn pairs(store: &LinkStore) -> Vec<(String, String)> {
    let mut rows: Vec<(String, String)> = store
        .links()
        .into_iter()
        .map(|EntityLink { id, canonical_id }| (id, canonical_id))
        .collect();
    rows.sort();
    rows
}

fn pair(id: &str, canonical: &str) -> (String, String) {
    (id.to_string(), canonical.to_string())
}

#[test]
fn first_seen_id_resolves_to_itself() {
    let mut store = LinkStore::new();
    assert_eq!(store.resolve("name_a"), "name_a");
    assert_eq!(store.len(), 1);
    assert_eq!(store.lookup("name_a"), Some("name_a".to_string()));
    assert_eq!(store.lookup("name_b"), None);
}

#[test]
fn resolving_a_known_id_adds_no_row() {
    let mut store = LinkStore::new();
    store.resolve("name_a");
    store.resolve("name_a");
    assert_eq!(store.len(), 1);
}

#[test]
fn resolve_is_a_fixed_point() {
    let mut store = LinkStore::new();
    store.merge("p1", "p2").unwrap();
    store.merge("p0", "p1").unwrap();
    for id in ["p0", "p1", "p2", "never_seen"] {
        let once = store.resolve(id);
        let twice = store.resolve(&once);
        assert_eq!(once, twice);
    }
}

#[test]
fn merge_chain_in_order_resolves_to_the_last_kept_id() {
    let mut store = LinkStore::new();
    assert_eq!(store.merge("name_b", "name_a"), Ok(MergeOutcome::Applied));
    assert_eq!(store.merge("name_c", "name_b"), Ok(MergeOutcome::Applied));
    assert_eq!(store.resolve("name_a"), "name_c");
    assert_eq!(store.resolve("name_b"), "name_c");
    assert_eq!(store.resolve("name_c"), "name_c");
}

#[test]
fn merge_chain_in_reverse_order_resolves_to_the_same_ids() {
    let mut store = LinkStore::new();
    assert_eq!(store.merge("name_c", "name_b"), Ok(MergeOutcome::Applied));
    assert_eq!(store.merge("name_b", "name_a"), Ok(MergeOutcome::Applied));
    assert_eq!(store.resolve("name_a"), "name_c");
    assert_eq!(store.resolve("name_b"), "name_c");
    assert_eq!(store.resolve("name_c"), "name_c");
}

#[test]
fn merge_chain_gives_the_same_store_in_either_order() {
    let mut in_order = LinkStore::new();
    in_order.resolve("other");
    in_order.merge("b", "a").unwrap();
    in_order.merge("c", "b").unwrap();
    let mut reversed = LinkStore::new();
    reversed.resolve("other");
    reversed.merge("c", "b").unwrap();
    reversed.merge("b", "a").unwrap();
    assert_eq!(pairs(&in_order), pairs(&reversed));
    assert_eq!(
        pairs(&in_order),
        vec![pair("a", "c"), pair("b", "c"), pair("c", "c"), pair("other", "other")]
    );
}

#[test]
fn merging_twice_is_merging_once() {
    let mut once = LinkStore::new();
    once.resolve("x");
    assert_eq!(once.merge("keep", "delete"), Ok(MergeOutcome::Applied));
    let mut twice = LinkStore::new();
    twice.resolve("x");
    assert_eq!(twice.merge("keep", "delete"), Ok(MergeOutcome::Applied));
    assert_eq!(twice.merge("keep", "delete"), Ok(MergeOutcome::Skipped));
    assert_eq!(pairs(&once), pairs(&twice));
}

#[test]
fn merge_repoints_ids_that_were_merged_into_the_deleted_id_before() {
    let mut store = LinkStore::new();
    store.merge("b", "a1").unwrap();
    store.merge("b", "a2").unwrap();
    store.merge("c", "b").unwrap();
    assert_eq!(
        pairs(&store),
        vec![pair("a1", "c"), pair("a2", "c"), pair("b", "c"), pair("c", "c")]
    );
}

#[test]
fn merge_of_ids_without_prior_activity_succeeds() {
    let mut store = LinkStore::new();
    assert_eq!(store.merge("fresh_keep", "fresh_delete"), Ok(MergeOutcome::Applied));
    assert_eq!(
        pairs(&store),
        vec![pair("fresh_delete", "fresh_keep"), pair("fresh_keep", "fresh_keep")]
    );
}

#[test]
fn self_merge_is_refused_and_changes_nothing() {
    let mut store = LinkStore::new();
    assert_eq!(store.merge("p1", "p1"), Err(LinkResolutionError::SelfMerge));
    assert_eq!(store.len(), 0);
}

#[test]
fn merging_back_into_a_deleted_id_is_refused() {
    let mut store = LinkStore::new();
    store.merge("keep", "delete").unwrap();
    let before = pairs(&store);
    assert_eq!(
        store.merge("delete", "keep"),
        Err(LinkResolutionError::KeepResolvesToDelete)
    );
    assert_eq!(pairs(&store), before);
}

#[test]
fn merge_of_an_id_that_is_already_merged_is_skipped() {
    let mut store = LinkStore::new();
    store.merge("x", "a").unwrap();
    assert_eq!(store.merge("b", "a"), Ok(MergeOutcome::Skipped));
    assert_eq!(store.resolve("a"), "x");
    assert_eq!(store.resolve("b"), "b");
}

#[test]
fn ids_resolving_to_lists_ids_in_the_order_in_which_they_were_seen() {
    let mut store = LinkStore::new();
    store.resolve("z");
    store.merge("k", "b").unwrap();
    store.merge("k", "a").unwrap();
    assert_eq!(store.ids_resolving_to("k"), vec!["k", "b", "a"]);
    assert_eq!(store.ids_resolving_to("b"), Vec::<String>::new());
}

#[test]
fn a_copy_of_the_store_does_not_follow_the_store() {
    let mut store = LinkStore::new();
    store.resolve("a");
    let copy = store.clone();
    store.merge("b", "a").unwrap();
    assert_eq!(copy.lookup("a"), Some("a".to_string()));
    assert_eq!(store.lookup("a"), Some("b".to_string()));
}

#[test]
fn entity_link_new_holds_both_ids() {
    let link = EntityLink::new("raw", "canon");
    assert_eq!(link.id, "raw");
    assert_eq!(link.canonical_id, "canon");
}
