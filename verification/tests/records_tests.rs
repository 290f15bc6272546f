use masday_mcp::json::json_string_array;
use masday_mcp::records::{
    branch_fields, branches_gate, cwd_metadata, embedding_text, entity_gate, like_pattern, make_fingerprint,
    memory_delete_check, memory_update_kind, no_running_task, non_empty, observations_json, plan_summary,
    retrieval_query, session_key, tags_json, workflow_exists_check, workflow_memories_delete_check, MemoryUpdate,
};

fn object(key: &str, value: serde_json::Value) -> String {
    let mut m = serde_json::Map::new();
    m.insert(key.to_string(), value);
    serde_json::Value::Object(m).to_string()
}

fn string_array(items: &[&str]) -> serde_json::Value {
    serde_json::Value::Array(items.iter().map(|s| serde_json::Value::String(s.to_string())).collect())
}

fn strings(items: &[&str]) -> Vec<String> {
    items.iter().map(|s| s.to_string()).collect()
}

#[test]
fn session_key_replaces_slashes() {
    assert_eq!(session_key("/home/user/project"), "session::home:user:project");
    assert_eq!(session_key(""), "session:");
    assert!(!session_key("/a/b/c").contains('/'));
}

#[test]
fn cwd_metadata_matches_serde_json() {
    let cwd = "/tmp/a \"b\"\\c";
    let expected = object("cwd", serde_json::Value::String(cwd.to_string()));
    assert_eq!(cwd_metadata(cwd), expected);
}

#[test]
fn json_arrays_match_serde_json() {
    for items in [vec![], vec!["a"], vec!["x", "y\n", "quote\"d"]] {
        let owned = strings(&items);
        let expected = string_array(&items).to_string();
        assert_eq!(json_string_array(&owned), expected);
        assert_eq!(tags_json(&owned), expected);
        let props = object("observations", string_array(&items));
        assert_eq!(observations_json(&owned), props);
    }
}

#[test]
fn text_helpers() {
    assert_eq!(like_pattern("abc"), "%abc%");
    assert_eq!(embedding_text("sum", "body"), "sum body");
    assert_eq!(plan_summary(3), "Plan v3");
    assert_eq!(plan_summary(-1), "Plan v-1");
    assert_eq!(make_fingerprint("w", "p", "t"), "fp-w-p-t");
    assert_eq!(make_fingerprint("", "", ""), "fp---");
    assert_eq!(no_running_task("wf1"), "No running task found for workflow: wf1");
}

#[test]
fn entity_gate_reports_first_missing_field() {
    assert_eq!(entity_gate(Some("n"), Some("t")), Ok(()));
    assert_eq!(entity_gate(None, Some("t")), Err("missing name in entity".to_string()));
    assert_eq!(entity_gate(None, None), Err("missing name in entity".to_string()));
    assert_eq!(entity_gate(Some("n"), None), Err("missing entityType".to_string()));
}

#[test]
fn branches_need_a_task_and_get_defaults() {
    assert!(branches_gate(1).is_ok());
    assert_eq!(
        branches_gate(0),
        Err("branches array is empty — provide at least one branch object with task_id, branch_key, role".to_string())
    );
    let b = branch_fields(Some("t1"), None, None).unwrap();
    assert_eq!((b.task_id.as_str(), b.branch_key.as_str(), b.role.as_str()), ("t1", "default", "executor"));
    let b = branch_fields(Some("t2"), Some("k"), Some("critic")).unwrap();
    assert_eq!((b.branch_key.as_str(), b.role.as_str()), ("k", "critic"));
    assert!(branch_fields(Some(""), Some("k"), None).is_none());
    assert!(branch_fields(None, Some("k"), None).is_none());
}

#[test]
fn memory_update_kinds() {
    assert_eq!(memory_update_kind(true, true), MemoryUpdate::ContentAndImportance);
    assert_eq!(memory_update_kind(true, false), MemoryUpdate::Content);
    assert_eq!(memory_update_kind(false, true), MemoryUpdate::Importance);
    assert_eq!(memory_update_kind(false, false), MemoryUpdate::Touch);
}

#[test]
fn delete_and_existence_checks() {
    assert_eq!(memory_delete_check(1, "m1"), Ok(()));
    assert_eq!(memory_delete_check(0, "m1"), Err("Memory not found: m1".to_string()));
    assert_eq!(workflow_memories_delete_check(3, "w"), Ok(()));
    assert_eq!(workflow_memories_delete_check(0, "w"), Err("No memories found for workflow: w".to_string()));
    assert_eq!(workflow_exists_check(1, "w"), Ok(()));
    assert_eq!(workflow_exists_check(0, "w"), Err("Workflow not found: w".to_string()));
}

#[test]
fn retrieval_log_fields() {
    assert_eq!(non_empty(""), None);
    assert_eq!(non_empty("x"), Some("x"));
    assert_eq!(retrieval_query("wf", ""), "wf");
    assert_eq!(retrieval_query("wf", "task"), "task");
}

#[test]
fn test_semantic_search_make_fingerprint_stdio_mode() {
    let fp = make_fingerprint("test-workflow", "test-plan", "test-task");
    assert!(!fp.is_empty());
    assert_eq!(fp, "fp-test-workflow-test-plan-test-task");
}

#[test]
fn automatic_memory_texts() {
    assert_eq!(masday_mcp::records::auto_memory_tags(&masday_mcp::records::AutoMemory::TaskComplete), "[\"auto\",\"task-complete\"]");
    assert_eq!(masday_mcp::records::auto_memory_tags(&masday_mcp::records::AutoMemory::AnalysisToPlan), "[\"auto\",\"analyze-to-plan\"]");
    assert!(masday_mcp::records::auto_memory_skipped(1));
    assert!(!masday_mcp::records::auto_memory_skipped(0));
    assert_eq!(masday_mcp::records::task_complete_summary("t"), "Task completed: t");
    assert_eq!(masday_mcp::records::task_failed_summary("t"), "Task failed: t");
    assert_eq!(masday_mcp::records::analysis_summary(3), "Workflow transitioned ANALYZE -> PLAN (3 artifacts)");
    let mut m = serde_json::Map::new();
    m.insert("transition".to_string(), serde_json::Value::String("ANALYZE -> PLAN".to_string()));
    m.insert("workflow_id".to_string(), serde_json::Value::String("w\"1".to_string()));
    m.insert("artifacts_found".to_string(), serde_json::Value::from(3i64));
    assert_eq!(masday_mcp::records::analysis_summary_json("w\"1", 3), serde_json::Value::Object(m).to_string());
    assert_eq!(masday_mcp::records::workflow_complete_summary("wf", 2), "Workflow 'wf' completed (2 tasks)");
    assert_eq!(
        masday_mcp::records::workflow_complete_content("id1", "wf", 2),
        "{\"workflow_id\":\"id1\",\"workflow_name\":\"wf\",\"final_status\":\"DONE\",\"task_count\":2}"
    );
}
