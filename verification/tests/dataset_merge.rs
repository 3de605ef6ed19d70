use ratcrate::dataset::{
    build_metadata, is_core, merge_page, Crates, LoaderAction, LoaderState, Meta,
};

fn record(id: &str, name: &str) -> Crates {
    Crates {
        id: id.to_string(),
        name: name.to_string(),
        max_version: Some("0.1.0".to_string()),
        repository: None,
        description: Some("a test record".to_string()),
        downloads: 1200,
        created_at: Some("2023-05-01T00:00:00Z".to_string()),
        updated_at: Some("2024-05-01T00:00:00Z".to_string()),
    }
}

#[test]
fn merge_keeps_first_seen_record() {
    let mut records = Vec::new();
    let page1 = vec![record("a", "ratatui"), record("b", "tui-input")];
    let added1 = merge_page(&mut records, &page1);
    assert_eq!(added1, 2);
    let page2 = vec![record("b", "tui-input-renamed"), record("c", "ratatui-image")];
    let added2 = merge_page(&mut records, &page2);
    assert_eq!(added2, 1);
    assert_eq!(records.len(), 3);
    assert_eq!(records[1].name, "tui-input", "the first record seen for an id wins");
    assert_eq!(records[2].id, "c");
}

#[test]
fn merge_deduplicates_within_one_page() {
    let mut records = Vec::new();
    let page = vec![record("x", "one"), record("x", "two"), record("y", "three")];
    let added = merge_page(&mut records, &page);
    assert_eq!(added, 2);
    assert_eq!(records[0].name, "one");
}

#[test]
fn core_classification() {
    assert!(is_core(&record("1", "ratatui")));
    assert!(is_core(&record("2", "ratatui-image")));
    assert!(!is_core(&record("3", "tui-realm")));
    assert!(!is_core(&record("4", "ratatu")));
    assert!(!is_core(&record("5", "xratatui")));
}

#[test]
fn metadata_counts() {
    let records = vec![
        record("1", "ratatui"),
        record("2", "ratatui-image"),
        record("3", "tui-realm"),
        record("4", "crossterm-helper"),
    ];
    let md = build_metadata(&records, "2024-01-01T00:00:00Z".to_string());
    assert_eq!(md.total_crates, 4);
    assert_eq!(md.core_libraries, 2);
    assert_eq!(md.community_packages, 2);
    assert_eq!(md.generated_at, "2024-01-01T00:00:00Z");
}

#[test]
fn loader_pages_until_total_reached() {
    let mut state = LoaderState::new();
    let meta = Meta { total: 3, next_page: Some(2), previous_page: None };
    let a1 = state.process_page(&vec![record("a", "one"), record("b", "two")], &meta);
    match a1 {
        LoaderAction::FetchPage { page } => assert_eq!(page, 2),
        LoaderAction::Finish => panic!("two of three records cannot finish the load"),
    }
    let a2 = state.process_page(&vec![record("c", "three")], &meta);
    assert!(matches!(a2, LoaderAction::Finish));
    assert_eq!(state.records.len(), 3);
    assert_eq!(state.pages_fetched, 2);
}

#[test]
fn loader_stops_on_a_page_with_nothing_new() {
    let mut state = LoaderState::new();
    let meta = Meta { total: 100, next_page: Some(2), previous_page: None };
    state.process_page(&vec![record("a", "one")], &meta);
    let action = state.process_page(&vec![record("a", "one again")], &meta);
    assert!(matches!(action, LoaderAction::Finish), "a page with no new record must stop paging");
}

#[test]
fn snapshot_carries_records_and_counts() {
    let mut state = LoaderState::new();
    let meta = Meta { total: 2, next_page: None, previous_page: None };
    state.process_page(&vec![record("a", "ratatui"), record("b", "helper")], &meta);
    let snapshot = state.into_snapshot("now".to_string());
    assert_eq!(snapshot.records.len(), 2);
    assert_eq!(snapshot.metadata.total_crates, 2);
    assert_eq!(snapshot.metadata.core_libraries, 1);
    assert_eq!(snapshot.metadata.community_packages, 1);
    assert_eq!(snapshot.metadata.generated_at, "now");
}
