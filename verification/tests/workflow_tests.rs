use masday_mcp::lifecycle::{
    analysis_gate, auto_plan_gate, completion_review_gate, completion_route, dependency_gate,
    execute_step, fail_task_gate, fail_task_route, plan_gate, resolve_task_plan, resume_suggestion,
    start_task_gate, synthesis_ready_gate, task_creation_gate, task_plan_id_gate,
    update_status_gate, verification_ready_gate, ExecuteStep,
};
use masday_mcp::workflow::{auto_done_path, parse_workflow_state, workflow_state_str, WorkflowState};

#[test]
fn test_auto_done_paths_respect_state_machine() {
    for src in [
        WorkflowState::Init,
        WorkflowState::Analyze,
        WorkflowState::Plan,
        WorkflowState::Execute,
        WorkflowState::Verify,
        WorkflowState::Fix,
        WorkflowState::Paused,
    ]
    .iter()
    {
        let path = auto_done_path(src);
        assert!(!path.is_empty(), "{:?} must have a path to DONE", src);
        let mut cur = src.clone();
        for target in &path {
            assert!(
                cur.can_transition_to(target),
                "illegal step in auto-DONE path: {:?} -> {:?}",
                cur,
                target
            );
            cur = target.clone();
        }
        assert_eq!(cur, WorkflowState::Done, "{:?} path must end at DONE", src);
    }
    assert!(auto_done_path(&WorkflowState::Done).is_empty());
    assert!(auto_done_path(&WorkflowState::Failed).is_empty());
}

#[test]
fn state_names_round_trip() {
    for s in [
        WorkflowState::Init,
        WorkflowState::Analyze,
        WorkflowState::Plan,
        WorkflowState::Execute,
        WorkflowState::Verify,
        WorkflowState::Fix,
        WorkflowState::Done,
        WorkflowState::Failed,
        WorkflowState::Paused,
    ] {
        assert_eq!(parse_workflow_state(workflow_state_str(&s)), Some(s));
    }
    assert_eq!(parse_workflow_state("execute"), Some(WorkflowState::Execute));
    assert_eq!(parse_workflow_state("RUNNING"), None);
}

#[test]
fn terminal_states_have_no_moves() {
    let all = [
        WorkflowState::Init,
        WorkflowState::Analyze,
        WorkflowState::Plan,
        WorkflowState::Execute,
        WorkflowState::Verify,
        WorkflowState::Fix,
        WorkflowState::Done,
        WorkflowState::Failed,
        WorkflowState::Paused,
    ];
    for t in all.iter() {
        assert!(!WorkflowState::Done.can_transition_to(t));
        assert!(!WorkflowState::Failed.can_transition_to(t));
    }
}

#[test]
fn execute_step_from_each_status() {
    assert!(matches!(execute_step("INIT"), ExecuteStep::Advance(WorkflowState::Analyze)));
    assert!(matches!(execute_step("PAUSED"), ExecuteStep::Advance(WorkflowState::Execute)));
    assert!(matches!(execute_step("ANALYZE"), ExecuteStep::AdvanceAfterAnalysis));
    assert!(matches!(execute_step("PLAN"), ExecuteStep::AdvanceAfterPlanning));
    assert!(matches!(execute_step("EXECUTE"), ExecuteStep::Unchanged));
    assert!(matches!(execute_step("DONE"), ExecuteStep::Unchanged));
    match execute_step("FAILED") {
        ExecuteStep::Rejected(m) => assert_eq!(m, "Cannot execute workflow in state FAILED"),
        other => panic!("unexpected {:?}", other),
    }
}

#[test]
fn execute_prerequisites() {
    assert_eq!(
        analysis_gate(0, 0).unwrap_err(),
        "Cannot advance to PLAN: no analysis artifacts found. Run analysis first."
    );
    assert_eq!(analysis_gate(1, 0).unwrap(), WorkflowState::Plan);
    assert_eq!(
        plan_gate(0, 3).unwrap_err(),
        "Cannot advance to EXECUTE: no plan found. Create a plan first."
    );
    assert_eq!(
        plan_gate(1, 0).unwrap_err(),
        "Cannot advance to EXECUTE: plan has no tasks. Add tasks to the plan first."
    );
    assert_eq!(plan_gate(1, 2).unwrap(), WorkflowState::Execute);
}

#[test]
fn update_status_follows_the_state_machine() {
    let c = update_status_gate("FIX", "EXECUTE").unwrap();
    assert_eq!(c.from, WorkflowState::Fix);
    assert_eq!(c.to, WorkflowState::Execute);
    assert!(c.reset_failed_tasks);
    let c = update_status_gate("EXECUTE", "VERIFY").unwrap();
    assert!(!c.reset_failed_tasks);
    let e = update_status_gate("DONE", "EXECUTE").unwrap_err();
    assert!(e.contains("illegal transition"));
    assert_eq!(e, "illegal transition DONE -> EXECUTE (not allowed by state machine)");
    assert_eq!(update_status_gate("EXECUTE", "BOGUS").unwrap_err(), "unknown workflow status: BOGUS");
}

#[test]
fn ready_gates() {
    assert!(synthesis_ready_gate("EXECUTE").is_ok());
    let e = synthesis_ready_gate("PLAN").unwrap_err();
    assert!(e.contains("illegal transition"));
    assert!(verification_ready_gate("VERIFY").is_ok());
    assert!(verification_ready_gate("EXECUTE").unwrap_err().contains("illegal transition"));
}

#[test]
fn task_gates() {
    assert!(fail_task_gate("t1", "w1", "w1", "RUNNING").is_ok());
    assert_eq!(
        fail_task_gate("t1", "w1", "w1", "DONE").unwrap_err(),
        "Cannot fail task with status: DONE (only RUNNING/PENDING tasks can fail)"
    );
    assert_eq!(
        fail_task_gate("t1", "w2", "w1", "RUNNING").unwrap_err(),
        "Task t1 does not belong to workflow w1"
    );
    assert_eq!(fail_task_route("EXECUTE"), Some(WorkflowState::Fix));
    assert_eq!(fail_task_route("DONE"), None);
    assert!(start_task_gate("t", "PENDING", "EXECUTE").is_ok());
    assert_eq!(
        start_task_gate("t", "RUNNING", "EXECUTE").unwrap_err(),
        "Task t is RUNNING, cannot start (must be PENDING)"
    );
    assert_eq!(
        start_task_gate("t", "PENDING", "DONE").unwrap_err(),
        "Workflow is DONE, tasks can only start in EXECUTE/ANALYZE/PLAN state"
    );
    assert_eq!(
        dependency_gate("d", "RUNNING").unwrap_err(),
        "Dependency d not complete (status: RUNNING)"
    );
    assert_eq!(task_plan_id_gate("").unwrap_err(), "plan_id cannot be empty");
    assert_eq!(resolve_task_plan("p", "w", "w", None).unwrap(), "p");
    assert_eq!(resolve_task_plan("p", "x", "w", Some("a")).unwrap(), "a");
    assert!(resolve_task_plan("p", "x", "w", None).is_err());
    assert!(auto_plan_gate("INIT").is_ok());
    assert!(auto_plan_gate("PLAN").is_err());
    assert!(task_creation_gate("EXECUTE").is_ok());
    assert_eq!(
        task_creation_gate("DONE").unwrap_err(),
        "Cannot add tasks to workflow in DONE state. Allowed states: INIT, PLAN, EXECUTE."
    );
}

#[test]
fn completion_paths() {
    assert_eq!(completion_route("EXECUTE"), vec![WorkflowState::Verify, WorkflowState::Done]);
    assert_eq!(
        completion_route("PLAN"),
        vec![WorkflowState::Execute, WorkflowState::Verify, WorkflowState::Done]
    );
    assert!(completion_route("FAILED").is_empty());
    assert!(completion_review_gate("t", false, None).is_ok());
    assert!(completion_review_gate("t", true, Some("APPROVED")).is_ok());
    assert_eq!(
        completion_review_gate("t", true, None).unwrap_err(),
        "Task t requires review (requires_tdd) but no review found"
    );
    assert_eq!(
        completion_review_gate("t", true, Some("BLOCKED")).unwrap_err(),
        "Task t requires review (requires_tdd) but latest review is BLOCKED (not APPROVED)"
    );
}

#[test]
fn resume_suggestions() {
    let (msg, skill) = resume_suggestion("EXECUTE", None, Some("write tests"));
    assert_eq!(msg, "Mulai task berikutnya: '\"write tests\"'.");
    let title = serde_json::Value::String("run \"it\"".to_string());
    let (msg, _) = resume_suggestion("EXECUTE", Some("run \"it\""), Some("other"));
    assert_eq!(msg, format!("Lanjutkan task '{}' yang sedang berjalan.", title));
    assert_eq!(skill, "masday-workflow-run");
    let (msg, skill) = resume_suggestion("DONE", None, None);
    assert_eq!(msg, "Workflow sudah selesai!");
    assert_eq!(skill, "");
    let (msg, _) = resume_suggestion("weird", None, None);
    assert_eq!(msg, "Status tidak dikenal.");
}
