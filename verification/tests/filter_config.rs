use ratcrate::config::Config;
use ratcrate::dataset::Crates;
use ratcrate::filter::{contains_sub, filter_crates, matches_query};
use ratcrate::text::{starts_with, str_eq, truncate_chars};

fn record(name: &str, description: Option<&str>) -> Crates {
    Crates {
        id: name.to_string(),
        name: name.to_string(),
        max_version: None,
        repository: None,
        description: description.map(|d| d.to_string()),
        downloads: 0,
        created_at: None,
        updated_at: None,
    }
}

#[test]
fn query_matches_name_and_description_case_insensitively() {
    let widget = record("Ratatui-Widgets", None);
    let themed = record("themer", Some("Terminal WIDGET theming"));
    let other = record("serde-helper", Some("serialization glue"));
    assert!(matches_query(&widget, "widget"));
    assert!(matches_query(&themed, "widget"));
    assert!(!matches_query(&other, "widget"));
}

#[test]
fn filter_reports_total_and_honours_limit() {
    let crates = vec![
        record("ratatui", Some("terminal UI")),
        record("ratatui-image", Some("images for the terminal")),
        record("serde", Some("serialization")),
        record("tui-realm", Some("a ratatui framework")),
    ];
    let query = "RATATUI".to_string();
    let (shown, total) = filter_crates(&crates, Some(&query), 2);
    assert_eq!(total, 3, "name or description matches, ignoring case");
    assert_eq!(shown.len(), 2, "only `limit` records are kept");
    assert_eq!(shown[0].name, "ratatui");
    assert_eq!(shown[1].name, "ratatui-image");
}

#[test]
fn no_query_keeps_everything() {
    let crates = vec![record("a", None), record("b", None), record("c", None)];
    let (shown, total) = filter_crates(&crates, None, 10);
    assert_eq!(total, 3);
    assert_eq!(shown.len(), 3);
}

#[test]
fn substring_search() {
    assert!(contains_sub("hello world", "lo wo"));
    assert!(contains_sub("hello", ""));
    assert!(!contains_sub("hello", "world"));
    assert!(!contains_sub("ab", "abc"));
}

#[test]
fn truncation_counts_characters() {
    assert_eq!(truncate_chars("short", 10), "short");
    assert_eq!(truncate_chars("exactly-10", 10), "exactly-10");
    assert_eq!(truncate_chars("a longer description", 9), "a longer \u{2026}");
    assert_eq!(truncate_chars("héllo wörld", 5), "héllo\u{2026}");
}

#[test]
fn string_helpers() {
    assert!(str_eq("same", "same"));
    assert!(!str_eq("same", "sam"));
    assert!(starts_with("ratatui-image", "ratatui-"));
    assert!(!starts_with("rat", "ratatui-"));
}

#[test]
fn standard_config_paths() {
    let config = Config::standard();
    assert_eq!(config.get_cache_dir(), ".ratatui_cache");
    assert_eq!(config.get_cache_file(), "crates.json");
    assert_eq!(config.etag_cache_file, ".ratatui_cache/etags.json");
    assert_eq!(config.registry_base, "https://crates.io/api/v1/crates");
    assert_eq!(config.request_timeout_secs, 30);
    assert_eq!(config.policy.max_attempts, 5);
}
