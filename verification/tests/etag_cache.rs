use ratcrate::etag::ETagCache;

#[test]
fn round_trip_empty() {
    let cache = ETagCache::new();
    let text = cache.to_json();
    assert_eq!(text, "{}");
    let loaded = ETagCache::from_json(&text);
    assert!(loaded.get("https://example.org/a").is_none());
    assert_eq!(loaded.to_json(), "{}");
}

#[test]
fn round_trip_mapping() {
    let mut cache = ETagCache::new();
    cache.set("https://crates.io/api/v1/crates?page=1", "\"etag-one\"");
    cache.set("https://crates.io/api/v1/crates?page=2", "W/\"etag-two\"");
    cache.set("https://crates.io/api/v1/crates?page=3", "plain");
    let text = cache.to_json();
    let loaded = ETagCache::from_json(&text);
    assert_eq!(
        loaded.get("https://crates.io/api/v1/crates?page=1").as_deref(),
        Some("\"etag-one\"")
    );
    assert_eq!(
        loaded.get("https://crates.io/api/v1/crates?page=2").as_deref(),
        Some("W/\"etag-two\"")
    );
    assert_eq!(loaded.get("https://crates.io/api/v1/crates?page=3").as_deref(), Some("plain"));
    assert!(loaded.get("https://crates.io/api/v1/crates?page=4").is_none());
}

#[test]
fn round_trip_escaped_characters() {
    let mut cache = ETagCache::new();
    cache.set("https://example.org/\"quoted\"", "back\\slash");
    cache.set("https://example.org/b", "\"\\\"\"");
    let text = cache.to_json();
    let loaded = ETagCache::from_json(&text);
    assert_eq!(loaded.get("https://example.org/\"quoted\"").as_deref(), Some("back\\slash"));
    assert_eq!(loaded.get("https://example.org/b").as_deref(), Some("\"\\\"\""));
}

#[test]
fn set_overwrites_and_keeps_others() {
    let mut cache = ETagCache::new();
    cache.set("u1", "a");
    cache.set("u2", "b");
    cache.set("u1", "c");
    assert_eq!(cache.get("u1").as_deref(), Some("c"));
    assert_eq!(cache.get("u2").as_deref(), Some("b"));
}

#[test]
fn corrupt_cache_yields_empty() {
    for bad in [
        "",
        "not json at all",
        "{\"unterminated\":\"...",
        "{\"a\":\"b\"",
        "[1,2,3]",
        "{\"a\":\"b\",}",
        "{\"a\":1}",
        "\u{0}\u{1}\u{2}",
    ] {
        let loaded = ETagCache::from_json(bad);
        assert_eq!(loaded.to_json(), "{}", "input {:?} must load as empty", bad);
    }
}

#[test]
fn exact_file_shape() {
    let mut cache = ETagCache::new();
    cache.set("a", "1");
    cache.set("b", "2");
    assert_eq!(cache.to_json(), "{\"a\":\"1\",\"b\":\"2\"}");
}

#[test]
fn well_formed_text_loads() {
    let loaded = ETagCache::from_json("{\"x\":\"y\"}");
    assert_eq!(loaded.get("x").as_deref(), Some("y"));
}

#[test]
fn pretty_printed_text_loads() {
    let text = "{\n  \"a\": \"1\",\n  \"b\": \"2\"\n}\n";
    let loaded = ETagCache::from_json(text);
    assert_eq!(loaded.get("a").as_deref(), Some("1"));
    assert_eq!(loaded.get("b").as_deref(), Some("2"));
    let empty = ETagCache::from_json("  { }  ");
    assert_eq!(empty.to_json(), "{}");
}
