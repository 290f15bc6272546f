use masday_mcp::json::json_quote;
use masday_mcp::readiness::{
    api_health_check, disk_within_budget, health_url, pg_pool_check, readiness_gate,
    sqlite_connectivity_check, sqlite_integrity_check, sqlite_schema_check, summarize, HealthProbe,
};

#[test]
fn sqlite_checks() {
    let ok = sqlite_connectivity_check(Ok(()));
    assert!(ok.ready && ok.critical);
    assert_eq!(ok.message, "SELECT 1 OK");
    let bad = sqlite_connectivity_check(Err("locked".to_string()));
    assert!(!bad.ready);
    assert_eq!(bad.message, "SELECT 1 failed: locked");
    assert_eq!(sqlite_integrity_check(Ok("ok".to_string())).message, "PRAGMA quick_check: ok");
    let broken = sqlite_integrity_check(Ok("row 3 missing".to_string()));
    assert!(!broken.ready);
    assert_eq!(broken.message, "Integrity issue: row 3 missing");
    assert_eq!(
        sqlite_integrity_check(Err("io".to_string())).message,
        "PRAGMA quick_check failed: io"
    );
}

#[test]
fn schema_needs_sixteen_tables() {
    let s = sqlite_schema_check(15);
    assert!(!s.ready && !s.critical);
    assert_eq!(s.message, "15 tables found (expected 16+)");
    assert!(sqlite_schema_check(16).ready);
}

#[test]
fn pg_and_api_checks() {
    assert_eq!(pg_pool_check(true, true, false).message, "not configured (standalone mode)");
    assert!(pg_pool_check(false, false, false).ready);
    assert_eq!(pg_pool_check(false, true, true).message, "pool connected");
    let p = pg_pool_check(false, true, false);
    assert!(!p.ready);
    assert_eq!(p.message, "pool not ready (sync may be delayed)");
    assert_eq!(
        api_health_check(true, Some("http://x"), HealthProbe::Healthy).message,
        "not checked (standalone mode)"
    );
    assert_eq!(api_health_check(false, None, HealthProbe::Healthy).message, "api_url not configured");
    assert_eq!(
        api_health_check(false, Some("http://x"), HealthProbe::Healthy).message,
        "API healthy (http://x)"
    );
    let down = api_health_check(false, Some("http://x"), HealthProbe::Unreachable("refused".to_string()));
    assert!(!down.ready);
    assert_eq!(down.message, "API unreachable: refused");
    assert_eq!(
        api_health_check(false, Some("u"), HealthProbe::HttpStatus("503 Service Unavailable".to_string())).message,
        "API returned HTTP 503 Service Unavailable"
    );
    assert_eq!(
        api_health_check(false, Some("u"), HealthProbe::ClientError("tls".to_string())).message,
        "HTTP client error: tls"
    );
    assert_eq!(health_url("http://api//"), "http://api/api/health");
    assert_eq!(health_url("http://api"), "http://api/api/health");
}

#[test]
fn disk_budget_is_500_mib() {
    assert!(disk_within_budget(524_287_999));
    assert!(!disk_within_budget(524_288_000));
}

#[test]
fn summary_splits_critical_from_advisory() {
    let checks = vec![
        sqlite_connectivity_check(Ok(())),
        sqlite_integrity_check(Ok("bad".to_string())),
        sqlite_schema_check(3),
        pg_pool_check(false, true, false),
    ];
    let s = summarize(&checks);
    assert!(!s.ready);
    assert_eq!(s.errors, vec!["Integrity issue: bad".to_string()]);
    assert_eq!(
        s.warnings,
        vec!["3 tables found (expected 16+)".to_string(), "pool not ready (sync may be delayed)".to_string()]
    );
    let fine = summarize(&vec![sqlite_connectivity_check(Ok(())), sqlite_schema_check(1)]);
    assert!(fine.ready);
    assert!(fine.errors.is_empty());
    assert_eq!(fine.warnings.len(), 1);
}

#[test]
fn gate_quotes_the_failing_message() {
    let ok = sqlite_connectivity_check(Ok(()));
    let intact = sqlite_integrity_check(Ok("ok".to_string()));
    assert!(readiness_gate(&ok, &intact).is_ok());
    let down = sqlite_connectivity_check(Err("db \"locked\"".to_string()));
    assert_eq!(
        readiness_gate(&down, &intact).unwrap_err(),
        "SQLite not ready: \"SELECT 1 failed: db \\\"locked\\\"\""
    );
    let broken = sqlite_integrity_check(Ok("x".to_string()));
    assert_eq!(readiness_gate(&ok, &broken).unwrap_err(), "SQLite integrity: \"Integrity issue: x\"");
}

#[test]
fn json_quote_matches_serde_json() {
    for s in ["plain", "quote \" and \\ backslash", "tab\tnew\nline\r", "\u{1}\u{1f}\u{7f}", "ünï"] {
        let expected = serde_json::Value::String(s.to_string()).to_string();
        assert_eq!(json_quote(s), expected);
    }
}
