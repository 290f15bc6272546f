use masday_mcp::sync::{
    plan_transfer, MAX_BATCH_PER_PUSH,
    counts_as_pushed, is_state_file, pg_sync_label, plan_file_name, plan_sync_error,
    plan_task_push, plan_workflow_push, render_plan_markdown, resolve_workflow_id, state_file_name,
    sync_error, sync_target, PlanFields, SyncFailure, SyncTarget, TaskFields, WorkflowFields,
    WorkflowPush,
};

fn fields<'a>() -> WorkflowFields<'a> {
    WorkflowFields {
        name: Some("Build"),
        description: None,
        status: Some("EXECUTE"),
        project_path_camel: None,
        project_path_snake: Some("/p"),
        metadata: Some("{\"k\":1}"),
    }
}

#[test]
fn workflow_id_comes_from_id_then_workflow_id_then_file() {
    assert_eq!(resolve_workflow_id(Some(Some("a")), Some(Some("b")), "f"), "a");
    assert_eq!(resolve_workflow_id(None, Some(Some("b")), "f"), "b");
    assert_eq!(resolve_workflow_id(Some(None), Some(Some("b")), "f"), "f");
    assert_eq!(resolve_workflow_id(None, None, "f"), "f");
}

#[test]
fn unsafe_ids_are_rejected() {
    match plan_workflow_push("../x", "stem", &fields(), false) {
        WorkflowPush::Rejected { file_stem, error } => {
            assert_eq!(file_stem, "stem");
            assert_eq!(error, "Invalid workflow_id (contains disallowed characters)");
        }
        _ => panic!("expected rejection"),
    }
}

#[test]
fn new_workflows_are_inserted_with_defaults() {
    let empty = WorkflowFields {
        name: None,
        description: None,
        status: None,
        project_path_camel: None,
        project_path_snake: None,
        metadata: None,
    };
    match plan_workflow_push("wf1", "wf1", &empty, false) {
        WorkflowPush::Insert(row) => {
            assert_eq!(row.id, "wf1");
            assert_eq!(row.name, "");
            assert_eq!(row.status, "INIT");
            assert_eq!(row.description, None);
            assert_eq!(row.project_path, None);
            assert_eq!(row.metadata, "{}");
        }
        _ => panic!("expected insert"),
    }
    match plan_workflow_push("wf1", "wf1", &fields(), false) {
        WorkflowPush::Insert(row) => {
            assert_eq!(row.name, "Build");
            assert_eq!(row.status, "EXECUTE");
            assert_eq!(row.project_path.as_deref(), Some("/p"));
            assert_eq!(row.metadata, "{\"k\":1}");
        }
        _ => panic!("expected insert"),
    }
}

#[test]
fn existing_workflows_get_the_present_columns_in_order() {
    match plan_workflow_push("wf1", "wf1", &fields(), true) {
        WorkflowPush::Update { id, changes } => {
            assert_eq!(id, "wf1");
            let cols: Vec<(&str, &str)> =
                changes.iter().map(|c| (c.column.as_str(), c.value.as_str())).collect();
            assert_eq!(
                cols,
                vec![("name", "Build"), ("status", "EXECUTE"), ("project_path", "/p"), ("metadata", "{\"k\":1}")]
            );
        }
        _ => panic!("expected update"),
    }
}

#[test]
fn updated_workflow_counts_when_nothing_failed() {
    assert!(counts_as_pushed(true, 3));
    assert!(counts_as_pushed(false, 0));
    assert!(!counts_as_pushed(false, 1));
}

#[test]
fn tasks_are_updated_only_when_known() {
    let t = TaskFields { id: Some("t1"), status: Some("DONE"), result: Some("ok"), output: None };
    let c = plan_task_push(&t, true);
    let cols: Vec<(&str, &str)> = c.iter().map(|c| (c.column.as_str(), c.value.as_str())).collect();
    assert_eq!(cols, vec![("status", "DONE"), ("result", "ok")]);
    assert!(plan_task_push(&t, false).is_empty());
    let no_status = TaskFields { id: Some("t1"), status: None, result: Some("ok"), output: None };
    assert!(plan_task_push(&no_status, true).is_empty());
}

#[test]
fn files_and_labels() {
    assert_eq!(state_file_name("wf1"), "wf1.json");
    assert!(is_state_file(Some("json")));
    assert!(!is_state_file(Some("md")));
    assert!(!is_state_file(None));
    assert_eq!(pg_sync_label(true), "background");
    assert_eq!(pg_sync_label(false), "skipped_no_pool");
}

#[test]
fn test_local_sync_invalid_workflow_id() {
    let err = match sync_target(Some("invalid/workflow")) {
        Err(e) => e,
        Ok(_) => panic!("expected an error"),
    };
    assert!(err.contains("invalid workflow_id"));
}

#[test]
fn sync_targets() {
    assert!(matches!(sync_target(None), Ok(SyncTarget::All)));
    assert!(matches!(sync_target(Some("")), Ok(SyncTarget::All)));
    assert!(matches!(sync_target(Some("wf-1")), Ok(SyncTarget::One("wf-1"))));
}

#[test]
fn sync_report_lines() {
    assert_eq!(sync_error("w", SyncFailure::InvalidId, ""), "w: invalid workflow_id");
    assert_eq!(sync_error("w", SyncFailure::NotFound, ""), "w: not found in SQLite");
    assert_eq!(sync_error("w", SyncFailure::WriteFailed, "disk full"), "w: write failed: disk full");
    assert_eq!(sync_error("w", SyncFailure::SerializeFailed, "x"), "w: serialize failed: x");
    assert_eq!(plan_file_name("wf", 3), "wf-v3.md");
    assert_eq!(plan_file_name("wf", -2), "wf-v-2.md");
    assert_eq!(plan_sync_error("p1", "wf", "invalid workflow_id"), "plan p1 (wf wf): invalid workflow_id");
}

#[test]
fn plan_markdown() {
    let p = PlanFields {
        summary: Some("Plan v1"),
        workflow_id: Some("wf"),
        version: Some(1),
        status: Some("ACTIVE"),
        created_by: Some("agent"),
        created_at: Some("2026-01-01"),
    };
    let md = render_plan_markdown(&p, "{\n  \"phases\": []\n}");
    assert_eq!(
        md,
        "# Plan v1 (v1)\n\n- **Workflow:** wf\n- **Version:** 1\n- **Status:** ACTIVE\n- **Created by:** agent\n- **Created at:** 2026-01-01\n\n## Content\n\n```json\n{\n  \"phases\": []\n}\n```\n"
    );
    let empty = PlanFields {
        summary: None,
        workflow_id: None,
        version: None,
        status: None,
        created_by: None,
        created_at: None,
    };
    let md = render_plan_markdown(&empty, "null");
    assert!(md.starts_with("# (untitled plan) (v0)\n"));
    assert!(md.contains("```json\nnull\n```"));
}

#[test]
fn bulk_push_takes_a_batch_and_skips_known_memories() {
    let source: Vec<String> = (0..250).map(|i| format!("m{}", i)).collect();
    let existing = vec!["m1".to_string(), "m3".to_string(), "m240".to_string()];
    let plan = plan_transfer(&source, &existing, Some(MAX_BATCH_PER_PUSH), false);
    assert_eq!(plan.remaining, 50);
    assert_eq!(plan.skipped, 2);
    assert_eq!(plan.copy.len(), 198);
    assert_eq!(&plan.copy[..3], &[0, 2, 4]);
}

#[test]
fn bulk_pull_ignores_empty_ids() {
    let source = vec!["a".to_string(), String::new(), "b".to_string()];
    let existing = vec!["b".to_string()];
    let plan = plan_transfer(&source, &existing, None, true);
    assert_eq!(plan.copy, vec![0]);
    assert_eq!(plan.skipped, 1);
    assert_eq!(plan.remaining, 0);
    let push = plan_transfer(&source, &existing, None, false);
    assert_eq!(push.copy, vec![0, 1]);
}
