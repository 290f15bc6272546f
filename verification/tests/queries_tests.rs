use masday_mcp::queries::{page_window, reminder_list_query, review_decision, SqlValue};

#[test]
fn reminder_query_without_filters() {
    let q = reminder_list_query("", None, None);
    assert_eq!(
        q.sql,
        "SELECT id, workflow_id, reminder_type, severity, message, acknowledged FROM workflow_reminders WHERE 1=1 ORDER BY created_at DESC"
    );
    assert!(q.binds.is_empty());
}

#[test]
fn test_reminder_list_honors_acknowledged_and_limit_filters() {
    let q = reminder_list_query("wf", Some(false), Some(5));
    assert!(q.sql.ends_with(" AND workflow_id = ? AND acknowledged = ? ORDER BY created_at DESC LIMIT ?"));
    assert_eq!(q.binds.len(), 3);
    assert!(matches!(&q.binds[0], SqlValue::Text(s) if s == "wf"));
    assert!(matches!(q.binds[1], SqlValue::Int(0)));
    assert!(matches!(q.binds[2], SqlValue::Int(5)));
    let neg = reminder_list_query("", Some(true), Some(-1));
    assert!(neg.sql.ends_with("AND acknowledged = ? ORDER BY created_at DESC"));
    assert_eq!(neg.binds.len(), 1);
    assert!(matches!(neg.binds[0], SqlValue::Int(1)));
}

#[test]
fn test_review_submit_normalizes_decision_case() {
    assert_eq!(review_decision("approved").unwrap(), "APPROVED");
    assert_eq!(review_decision("Rework_Required").unwrap(), "REWORK_REQUIRED");
    assert_eq!(review_decision("MAYBE").unwrap_err(), "Invalid review decision: MAYBE");
}

#[test]
fn pages_are_windows_of_rows() {
    assert_eq!(page_window(1, 50), (50, 0));
    assert_eq!(page_window(3, 20), (20, 40));
}
