use masday_mcp::policy::{
    completion_reason, completion_suggestion, completion_verdict, execution_allowed,
    parallel_branch_gate, tasks_all_terminal, CompletionVerdict,
};

#[test]
fn test_tasks_all_terminal_logic() {
    assert!(tasks_all_terminal(&["DONE", "DONE", "DONE"]));
    assert!(tasks_all_terminal(&["DONE", "CANCELLED", "DONE"]));
    assert!(!tasks_all_terminal(&["DONE", "PENDING", "DONE"]));
    assert!(!tasks_all_terminal(&["DONE", "RUNNING"]));
    assert!(!tasks_all_terminal(&["DONE", "FAILED"]));
    assert!(tasks_all_terminal(&[]));
}

#[test]
fn execution_is_allowed_only_for_open_tasks_of_running_workflows() {
    assert!(execution_allowed("EXECUTE", "RUNNING"));
    assert!(execution_allowed("PLAN", "PENDING"));
    assert!(!execution_allowed("DONE", "RUNNING"));
    assert!(!execution_allowed("EXECUTE", "DONE"));
}

#[test]
fn completion_requires_review_when_asked() {
    let v = completion_verdict("DONE", None, true, None);
    assert!(matches!(v, CompletionVerdict::ReviewMissing));
    assert_eq!(completion_reason(&v, "DONE").unwrap(), "Task requires review but none found");
    let v = completion_verdict("DONE", None, true, Some("APPROVED"));
    assert!(matches!(v, CompletionVerdict::Valid));
    assert_eq!(completion_reason(&v, "DONE"), None);
    assert_eq!(completion_suggestion(&v), None);
}

#[test]
fn completion_rejects_unfinished_work() {
    let v = completion_verdict("RUNNING", None, false, None);
    assert_eq!(
        completion_reason(&v, "RUNNING").unwrap(),
        "Task status is RUNNING (expected DONE or CANCELLED). Complete the task first with workflow_completeTask."
    );
    let v = completion_verdict("DONE", Some(("t2", "PENDING")), false, None);
    assert_eq!(completion_reason(&v, "DONE").unwrap(), "Task t2 not terminal: PENDING");
    let v = completion_verdict("DONE", None, true, Some("BLOCKED"));
    assert_eq!(completion_reason(&v, "DONE").unwrap(), "Latest review is BLOCKED");
    assert_eq!(completion_suggestion(&v), Some("Address review feedback and resubmit."));
}

#[test]
fn pending_parallel_branches_block_completion() {
    assert_eq!(parallel_branch_gate(2).unwrap(), "2 parallel branch(es) not yet DONE");
    assert_eq!(parallel_branch_gate(0), None);
}
