use ratcrate::etag::ETagCache;
use ratcrate::fetch::{
    build_request_plan, interpret_response, record_fingerprint, FetchFailure, FetchResult,
};

#[test]
fn conditional_header_equals_stored_fingerprint() {
    let mut cache = ETagCache::new();
    cache.set("https://example.org/data", "\"f-123\"");
    let plan = build_request_plan(&cache, "https://example.org/data");
    assert_eq!(plan.url, "https://example.org/data");
    assert_eq!(plan.if_none_match.as_deref(), Some("\"f-123\""));
}

#[test]
fn no_fingerprint_no_header() {
    let cache = ETagCache::new();
    let plan = build_request_plan(&cache, "https://example.org/data");
    assert!(plan.if_none_match.is_none());
}

#[test]
fn unchanged_path_leaves_cache_untouched() {
    let mut cache = ETagCache::new();
    cache.set("u", "v1");
    let step = interpret_response(304, None, String::new()).unwrap();
    assert!(matches!(step.outcome, FetchResult::NotModified));
    assert!(step.fingerprint.is_none());
    record_fingerprint(&mut cache, "u", &step);
    assert_eq!(cache.get("u").as_deref(), Some("v1"));
}

#[test]
fn changed_path_stores_new_fingerprint() {
    let mut cache = ETagCache::new();
    cache.set("u", "old");
    let step = interpret_response(200, Some("f2".to_string()), "body-bytes".to_string()).unwrap();
    match &step.outcome {
        FetchResult::Modified(body) => assert_eq!(body, "body-bytes"),
        FetchResult::NotModified => panic!("expected a modified body"),
    }
    assert_eq!(step.fingerprint.as_deref(), Some("f2"));
    record_fingerprint(&mut cache, "u", &step);
    assert_eq!(cache.get("u").as_deref(), Some("f2"));
}

#[test]
fn other_statuses_are_failures() {
    for status in [301u16, 400, 404, 429, 500, 503] {
        match interpret_response(status, None, String::new()) {
            Err(FetchFailure::Status { code }) => assert_eq!(code, status),
            _ => panic!("status {} must be a failure", status),
        }
    }
}

#[test]
fn end_to_end_conditional_cycle() {
    // first fetch: empty cache, server answers 200 with a fingerprint
    let mut cache = ETagCache::new();
    let url = "https://registry.example/a";
    let plan = build_request_plan(&cache, url);
    assert!(plan.if_none_match.is_none());
    let step = interpret_response(200, Some("v1".to_string()), "{\"x\":1}".to_string()).unwrap();
    match &step.outcome {
        FetchResult::Modified(body) => assert_eq!(body, "{\"x\":1}"),
        FetchResult::NotModified => panic!("expected a body"),
    }
    record_fingerprint(&mut cache, url, &step);
    assert_eq!(cache.get(url).as_deref(), Some("v1"));

    // second fetch: the fingerprint goes out, the server says 304
    let plan2 = build_request_plan(&cache, url);
    assert_eq!(plan2.if_none_match.as_deref(), Some("v1"));
    let step2 = interpret_response(304, None, String::new()).unwrap();
    assert!(matches!(step2.outcome, FetchResult::NotModified));
    record_fingerprint(&mut cache, url, &step2);
    assert_eq!(cache.get(url).as_deref(), Some("v1"));
}
