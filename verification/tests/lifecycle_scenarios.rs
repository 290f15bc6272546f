// The tool scenarios, taken at the level of the decisions the tools ask the
// library for: what a stored status leads to, and which errors come back.

use masday_mcp::lifecycle::{
    analysis_gate, completion_review_gate, completion_route, execute_step, fail_task_gate, fail_task_route,
    plan_gate, synthesis_ready_gate, update_status_gate, verification_ready_gate, ExecuteStep,
};
use masday_mcp::policy::{completion_reason, completion_verdict, execution_allowed, parallel_branch_gate};
use masday_mcp::workflow::{workflow_state_str, WorkflowState};

fn executed(status: &str, docs: i64, plans: i64, tasks: i64) -> Result<&'static str, String> {
    match execute_step(status) {
        ExecuteStep::Unchanged => Ok(match status {
            "EXECUTE" => "EXECUTE",
            "VERIFY" => "VERIFY",
            "FIX" => "FIX",
            _ => "DONE",
        }),
        ExecuteStep::Advance(s) => Ok(workflow_state_str(&s)),
        ExecuteStep::AdvanceAfterAnalysis => analysis_gate(docs, 0).map(|s| workflow_state_str(&s)),
        ExecuteStep::AdvanceAfterPlanning => plan_gate(plans, tasks).map(|s| workflow_state_str(&s)),
        ExecuteStep::Rejected(m) => Err(m),
    }
}

#[test]
fn test_workflow_execute_from_init() {
    assert_eq!(executed("INIT", 0, 0, 0), Ok("ANALYZE"));
}

#[test]
fn test_workflow_execute_from_plan() {
    assert_eq!(executed("PLAN", 0, 1, 1), Ok("EXECUTE"));
}

#[test]
fn test_workflow_execute_from_plan_without_prerequisites() {
    assert!(executed("PLAN", 0, 0, 0).unwrap_err().contains("Cannot advance to EXECUTE: no plan found"));
}

#[test]
fn test_workflow_execute_from_analyze_without_prerequisites() {
    assert!(executed("ANALYZE", 0, 0, 0)
        .unwrap_err()
        .contains("Cannot advance to PLAN: no analysis artifacts found"));
}

#[test]
fn test_workflow_execute_from_analyze_with_prerequisites() {
    assert_eq!(executed("ANALYZE", 1, 0, 0), Ok("PLAN"));
}

#[test]
fn test_workflow_execute_from_done_rejected() {
    assert_eq!(executed("DONE", 0, 0, 0), Ok("DONE"));
}

#[test]
fn test_workflow_execute_from_failed_rejected() {
    assert!(executed("FAILED", 0, 0, 0).unwrap_err().contains("Cannot execute workflow in state FAILED"));
}

#[test]
fn test_workflow_execute_idempotent_execute() {
    assert_eq!(executed("EXECUTE", 0, 0, 0), Ok("EXECUTE"));
}

#[test]
fn test_mark_synthesis_ready_from_execute_ok() {
    assert!(synthesis_ready_gate("EXECUTE").is_ok());
}

#[test]
fn test_mark_synthesis_ready_from_plan_rejected() {
    assert!(synthesis_ready_gate("PLAN").unwrap_err().contains("illegal transition"));
}

#[test]
fn test_mark_verification_ready_from_verify_ok() {
    assert!(verification_ready_gate("VERIFY").is_ok());
}

#[test]
fn test_mark_verification_ready_from_execute_rejected() {
    assert!(verification_ready_gate("EXECUTE").unwrap_err().contains("illegal transition"));
}

fn final_state(status: &str) -> String {
    match completion_route(status).last() {
        Some(s) => workflow_state_str(s).to_string(),
        None => status.to_string(),
    }
}

#[test]
fn test_complete_task_transitions_execute_to_done() {
    assert_eq!(final_state("EXECUTE"), "DONE");
}

#[test]
fn test_complete_task_walks_legal_path_from_plan() {
    let path = completion_route("PLAN");
    assert_eq!(path, vec![WorkflowState::Execute, WorkflowState::Verify, WorkflowState::Done]);
}

#[test]
fn test_complete_task_does_not_transition_from_failed() {
    assert_eq!(final_state("FAILED"), "FAILED");
}

#[test]
fn test_fail_task_rejects_done_task() {
    assert!(fail_task_gate("t1", "w1", "w1", "DONE")
        .unwrap_err()
        .contains("only RUNNING/PENDING tasks can fail"));
}

#[test]
fn test_fail_task_transitions_execute_to_fix() {
    assert!(fail_task_gate("t1", "w1", "w1", "PENDING").is_ok());
    assert_eq!(fail_task_route("EXECUTE"), Some(WorkflowState::Fix));
}

#[test]
fn test_complete_task_blocks_when_requires_tdd_and_no_review() {
    assert!(completion_review_gate("t1", true, None).is_err());
}

#[test]
fn test_complete_task_allows_with_approved_review() {
    assert!(completion_review_gate("t1", true, Some("APPROVED")).is_ok());
    assert_eq!(final_state("EXECUTE"), "DONE");
}

#[test]
fn test_complete_task_blocks_with_nonapproved_review() {
    assert!(completion_review_gate("t1", true, Some("REWORK_REQUIRED")).is_err());
}

#[test]
fn test_workflow_update_status_fix_to_execute_resets_failed_tasks() {
    let change = update_status_gate("FIX", "EXECUTE").unwrap();
    assert_eq!(change.to, WorkflowState::Execute);
    assert!(change.reset_failed_tasks);
}

#[test]
fn test_workflow_update_status_rejects_illegal_transition() {
    assert!(update_status_gate("DONE", "EXECUTE").unwrap_err().contains("illegal transition"));
}

#[test]
fn test_policy_validate_execution_accepts_session_key_alias() {
    assert!(execution_allowed("EXECUTE", "PENDING"));
}

#[test]
fn test_policy_validate_completion_requires_review() {
    let v = completion_verdict("DONE", None, true, None);
    assert!(completion_reason(&v, "DONE").unwrap().contains("requires review but none found"));
}

#[test]
fn test_policy_validate_completion_with_review_approved() {
    let v = completion_verdict("DONE", None, true, Some("APPROVED"));
    assert_eq!(completion_reason(&v, "DONE"), None);
}

#[test]
fn test_validate_parallel_completion_blocks_on_pending_branch() {
    assert_eq!(parallel_branch_gate(1), Some("1 parallel branch(es) not yet DONE".to_string()));
}

#[test]
fn test_validate_parallel_completion_passes_when_no_branches() {
    assert_eq!(parallel_branch_gate(0), None);
}
