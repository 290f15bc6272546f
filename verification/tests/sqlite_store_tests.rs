use masday_mcp::sqlite_store::{backfill_continues, db_location, DbLocation, BACKFILL_BATCH};

fn s(x: &str) -> Option<String> {
    Some(x.to_string())
}

#[test]
fn db_location_prefers_explicit_path_then_home() {
    assert_eq!(db_location(s("/tmp/x.db"), s("/home/u"), None), Ok(DbLocation::Path("/tmp/x.db".to_string())));
    assert_eq!(db_location(None, s("/home/u"), s("C:/Users/u")), Ok(DbLocation::UnderHome("/home/u".to_string())));
    assert_eq!(db_location(None, None, s("C:/Users/u")), Ok(DbLocation::UnderHome("C:/Users/u".to_string())));
    assert_eq!(
        db_location(None, None, None),
        Err("Cannot determine home directory: set HOME or MASYDAY_SQLITE_PATH".to_string())
    );
}

#[test]
fn backfill_stops_at_empty_or_short_total() {
    assert_eq!(BACKFILL_BATCH, 50);
    assert!(!backfill_continues(0, 100));
    assert!(!backfill_continues(10, 10));
    assert!(backfill_continues(50, 50));
    assert!(backfill_continues(3, 53));
}

#[test]
fn test_db_path_from_env() {
    assert_eq!(
        db_location(s("/tmp/test-masday.db"), s("/home/u"), None),
        Ok(DbLocation::Path("/tmp/test-masday.db".to_string()))
    );
}

#[test]
fn test_db_path_default() {
    assert!(matches!(db_location(None, s("/home/u"), None), Ok(DbLocation::UnderHome(_))));
}
