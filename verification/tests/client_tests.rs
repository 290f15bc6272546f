use masday_mcp::client::{bearer_header, endpoint, request_error, status_error, try_get_api_key, RequestFailure};
use masday_mcp::client::{api_key, api_url, init, sanitize_id, try_get_api_url, ApiSettings};

#[test]
fn test_init() {
    let mut settings = ApiSettings::new();
    let base = "http://localhost:8080".to_string();
    init(&mut settings, base.clone(), "test-key".to_string());
    assert_eq!(api_url(&settings), &base);
    assert_eq!(api_key(&settings), "test-key");
}

#[test]
fn init_twice_keeps_the_first_values() {
    let mut settings = ApiSettings::new();
    assert_eq!(try_get_api_url(&settings), None);
    init(&mut settings, "http://a".to_string(), "k1".to_string());
    init(&mut settings, "http://b".to_string(), "k2".to_string());
    assert_eq!(try_get_api_url(&settings).map(|s| s.as_str()), Some("http://a"));
    assert_eq!(api_key(&settings), "k1");
}

#[test]
fn sanitize_id_accepts_safe_ids() {
    assert_eq!(sanitize_id("wf-1_a"), Some("wf-1_a"));
    assert_eq!(sanitize_id("wf-123_abc"), Some("wf-123_abc"));
    assert_eq!(sanitize_id("550e8400-e29b-41d4-a716-446655440000"), Some("550e8400-e29b-41d4-a716-446655440000"));
}

#[test]
fn sanitize_id_rejects_path_and_query_characters() {
    for bad in ["", "a/b", "a\\b", "a?b", "a#b", "a&b", "a b", "a\0b", "invalid/workflow", "é", "a:b", "..", "a.b", "."] {
        assert_eq!(sanitize_id(bad), None, "{:?} must be rejected", bad);
    }
}

#[test]
fn request_texts() {
    assert_eq!(bearer_header("k1"), "Bearer k1");
    assert_eq!(endpoint("http://h:1", "/api/x"), "http://h:1/api/x");
    assert_eq!(
        request_error("GET", "http://h", RequestFailure::Timeout, "t"),
        "API request timed out after 30s. The API server may be down or unreachable: http://h"
    );
    assert_eq!(
        request_error("POST", "http://h", RequestFailure::Connect, "c"),
        "Cannot connect to API server at http://h. Check if the server is running."
    );
    assert_eq!(request_error("PATCH", "http://h", RequestFailure::Other, "boom"), "PATCH request failed: boom");
    assert_eq!(status_error("DELETE", "404 Not Found", "gone"), "API DELETE failed: 404 Not Found - gone");
}

#[test]
fn api_key_is_absent_before_init() {
    let mut s = ApiSettings::new();
    assert!(try_get_api_key(&s).is_none());
    init(&mut s, "http://u".to_string(), "key".to_string());
    assert_eq!(try_get_api_key(&s).map(|k| k.as_str()), Some("key"));
}
