use masday_mcp::database::pool_status;
use masday_mcp::database::{
    database_url, is_configured, is_standalone, migration_applied, pool_step, split_sql_statements,
    sync_mode, PoolStep,
};

#[test]
fn statements_are_cut_at_semicolons() {
    let sql = "-- schema\nCREATE TABLE a (\n  id INT\n);\n\nCREATE INDEX i ON a(id);;\n  -- trailing comment\nINSERT INTO a VALUES (1)\n";
    let stmts = split_sql_statements(sql);
    assert_eq!(
        stmts,
        vec![
            "CREATE TABLE a (\n  id INT\n)".to_string(),
            "CREATE INDEX i ON a(id)".to_string(),
            "INSERT INTO a VALUES (1)".to_string(),
        ]
    );
}

#[test]
fn lone_semicolons_make_no_statement() {
    assert!(split_sql_statements(";\n  ;  \n").is_empty());
    assert!(split_sql_statements("").is_empty());
    assert!(split_sql_statements("-- only comments\n\n").is_empty());
}

#[test]
fn already_existing_objects_count_as_applied() {
    assert!(migration_applied(None));
    assert!(migration_applied(Some("db error: relation \"x\" already exists")));
    assert!(!migration_applied(Some("syntax error")));
}

#[test]
fn database_url_prefers_the_environment() {
    assert_eq!(database_url(Some("env".to_string()), Some("cfg".to_string())), "env");
    assert_eq!(database_url(Some(String::new()), Some("cfg".to_string())), "");
    assert_eq!(database_url(None, Some("cfg".to_string())), "cfg");
    assert_eq!(database_url(None, None), "");
    assert!(is_configured(Some("x"), None));
    assert!(!is_configured(Some(""), None));
    assert!(is_configured(None, Some("cfg")));
}

#[test]
fn pool_requests() {
    assert!(is_standalone("standalone"));
    assert!(!is_standalone("local"));
    assert!(matches!(pool_step(true, true, false, false), PoolStep::NoPool));
    assert!(matches!(pool_step(false, true, true, true), PoolStep::UsePool));
    assert!(matches!(pool_step(false, false, true, false), PoolStep::NoPool));
    assert!(matches!(pool_step(false, false, false, false), PoolStep::StartInit));
    assert!(matches!(pool_step(false, false, false, true), PoolStep::NoPool));
    assert_eq!(sync_mode(false, true), "async");
    assert_eq!(sync_mode(true, true), "disabled");
}

#[test]
fn pool_status_reports_sync_only_when_postgres_is_used() {
    let s = pool_status("cloud", true, true);
    assert_eq!(s.mode, "cloud");
    assert!(s.sqlite_ready);
    assert!(s.pg_ready);
    assert!(s.pg_configured);
    assert_eq!(s.sync, "async");
    let s = pool_status("standalone", false, true);
    assert!(!s.pg_configured);
    assert_eq!(s.sync, "disabled");
    let s = pool_status("cloud", false, false);
    assert!(!s.pg_ready);
    assert!(!s.pg_configured);
    assert_eq!(s.sync, "disabled");
}
