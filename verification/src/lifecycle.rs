//! Decisions taken by the workflow and task tools before they write anything.
//!
//! Each function here receives what the caller read from storage (statuses,
//! counts, review decisions) and says what may happen next: which state a
//! workflow moves to, or the exact error the tool answers with.
use vstd::prelude::*;
use crate::json::{json_quote, json_string};
use crate::text::{concat3, concat5, concat_str, str_eq};
use crate::workflow::{
    auto_done_path, done_path, legal_path, parse_workflow_state, parsed_state, state_name,
    state_named, state_named_exactly, transition_allowed, workflow_state_str, WorkflowState,
};

verus! {

/// What `workflow_execute` does for a workflow in a given stored status.
#[derive(Debug)]
pub enum ExecuteStep {
    /// Already at or past EXECUTE: answer with the status unchanged.
    Unchanged,
    /// Move to the given state without further checks.
    Advance(WorkflowState),
    /// Move ANALYZE → PLAN once analysis artifacts exist (see [`analysis_gate`]).
    AdvanceAfterAnalysis,
    /// Move PLAN → EXECUTE once an active plan with tasks exists (see [`plan_gate`]).
    AdvanceAfterPlanning,
    /// The status cannot be executed; the message is the tool's error.
    Rejected(String),
}

/// The step `workflow_execute` takes from a stored status (matched exactly).
pub open spec fn spec_execute_step_kind(status: Seq<char>) -> int {
    match state_named(status) {
        Some(WorkflowState::Execute) => 0,
        Some(WorkflowState::Verify) => 0,
        Some(WorkflowState::Fix) => 0,
        Some(WorkflowState::Done) => 0,
        Some(WorkflowState::Init) => 1,
        Some(WorkflowState::Paused) => 2,
        Some(WorkflowState::Analyze) => 3,
        Some(WorkflowState::Plan) => 4,
        _ => 5,
    }
}

/// Decides what `workflow_execute` does for a workflow whose stored status is
/// `current`: EXECUTE/VERIFY/FIX/DONE are left as they are, INIT advances to
/// ANALYZE, PAUSED resumes to EXECUTE, ANALYZE and PLAN advance once their
/// prerequisites hold, and any other status is refused.
pub fn execute_step(current: &str) -> (r: ExecuteStep)
    ensures
        spec_execute_step_kind(current@) == 0 <==> r is Unchanged,
        spec_execute_step_kind(current@) == 1 <==> r == ExecuteStep::Advance(WorkflowState::Analyze),
        spec_execute_step_kind(current@) == 2 <==> r == ExecuteStep::Advance(WorkflowState::Execute),
        spec_execute_step_kind(current@) == 3 <==> r is AdvanceAfterAnalysis,
        spec_execute_step_kind(current@) == 4 <==> r is AdvanceAfterPlanning,
        spec_execute_step_kind(current@) == 5 <==> r is Rejected,
        r matches ExecuteStep::Rejected(msg) ==> msg@ == "Cannot execute workflow in state "@
            + current@,
        r matches ExecuteStep::Advance(t) ==> state_named(current@) is Some && transition_allowed(
            state_named(current@)->0,
            t,
        ),
        state_named(current@) == Some(WorkflowState::Execute) ==> r is Unchanged,
        state_named(current@) == Some(WorkflowState::Verify) ==> r is Unchanged,
        state_named(current@) == Some(WorkflowState::Fix) ==> r is Unchanged,
        state_named(current@) == Some(WorkflowState::Done) ==> r is Unchanged,
        state_named(current@) == Some(WorkflowState::Init) ==> r == ExecuteStep::Advance(
            WorkflowState::Analyze,
        ),
        state_named(current@) == Some(WorkflowState::Paused) ==> r == ExecuteStep::Advance(
            WorkflowState::Execute,
        ),
        state_named(current@) == Some(WorkflowState::Analyze) ==> r is AdvanceAfterAnalysis,
        state_named(current@) == Some(WorkflowState::Plan) ==> r is AdvanceAfterPlanning,
        r is Rejected <==> (state_named(current@) is None || state_named(current@) == Some(
            WorkflowState::Failed,
        )),
{
    match state_named_exactly(current) {
        Some(WorkflowState::Execute) | Some(WorkflowState::Verify) | Some(WorkflowState::Fix) | Some(
            WorkflowState::Done,
        ) => ExecuteStep::Unchanged,
        Some(WorkflowState::Init) => ExecuteStep::Advance(WorkflowState::Analyze),
        Some(WorkflowState::Paused) => ExecuteStep::Advance(WorkflowState::Execute),
        Some(WorkflowState::Analyze) => ExecuteStep::AdvanceAfterAnalysis,
        Some(WorkflowState::Plan) => ExecuteStep::AdvanceAfterPlanning,
        _ => ExecuteStep::Rejected(concat_str("Cannot execute workflow in state ", current)),
    }
}

/// `workflow_execute` by stored status: every status at or past EXECUTE
/// (EXECUTE, VERIFY, FIX, DONE) is left as it is; INIT goes to ANALYZE and
/// PAUSED back to EXECUTE; ANALYZE and PLAN advance behind their gates; only
/// FAILED and a status that names no state are refused.
pub proof fn lemma_execute_step_by_status(status: Seq<char>)
    ensures
        state_named(status) == Some(WorkflowState::Execute) ==> spec_execute_step_kind(status) == 0,
        state_named(status) == Some(WorkflowState::Verify) ==> spec_execute_step_kind(status) == 0,
        state_named(status) == Some(WorkflowState::Fix) ==> spec_execute_step_kind(status) == 0,
        state_named(status) == Some(WorkflowState::Done) ==> spec_execute_step_kind(status) == 0,
        state_named(status) == Some(WorkflowState::Init) ==> spec_execute_step_kind(status) == 1,
        state_named(status) == Some(WorkflowState::Paused) ==> spec_execute_step_kind(status) == 2,
        state_named(status) == Some(WorkflowState::Analyze) ==> spec_execute_step_kind(status) == 3,
        state_named(status) == Some(WorkflowState::Plan) ==> spec_execute_step_kind(status) == 4,
        spec_execute_step_kind(status) == 5 <==> (state_named(status) is None || state_named(status)
            == Some(WorkflowState::Failed)),
{
}

/// ANALYZE → PLAN requires at least one context document or memory for the
/// workflow.
pub fn analysis_gate(doc_count: i64, mem_count: i64) -> (r: Result<WorkflowState, String>)
    ensures
        r is Ok <==> !(doc_count == 0 && mem_count == 0),
        r matches Ok(t) ==> t == WorkflowState::Plan && transition_allowed(
            WorkflowState::Analyze,
            t,
        ),
        r matches Err(e) ==> e@
            == "Cannot advance to PLAN: no analysis artifacts found. Run analysis first."@,
{
    if doc_count == 0 && mem_count == 0 {
        Err("Cannot advance to PLAN: no analysis artifacts found. Run analysis first.".to_owned())
    } else {
        Ok(WorkflowState::Plan)
    }
}

/// PLAN → EXECUTE requires an ACTIVE plan and at least one task.
pub fn plan_gate(plan_count: i64, task_count: i64) -> (r: Result<WorkflowState, String>)
    ensures
        r is Ok <==> plan_count != 0 && task_count != 0,
        r matches Ok(t) ==> t == WorkflowState::Execute && transition_allowed(
            WorkflowState::Plan,
            t,
        ),
        plan_count == 0 ==> (r matches Err(e) && e@
            == "Cannot advance to EXECUTE: no plan found. Create a plan first."@),
        plan_count != 0 && task_count == 0 ==> (r matches Err(e) && e@
            == "Cannot advance to EXECUTE: plan has no tasks. Add tasks to the plan first."@),
{
    if plan_count == 0 {
        Err("Cannot advance to EXECUTE: no plan found. Create a plan first.".to_owned())
    } else if task_count == 0 {
        Err("Cannot advance to EXECUTE: plan has no tasks. Add tasks to the plan first.".to_owned())
    } else {
        Ok(WorkflowState::Execute)
    }
}

/// An accepted explicit status change.
#[derive(Debug)]
pub struct StatusChange {
    pub from: WorkflowState,
    pub to: WorkflowState,
    /// FIX → EXECUTE resumes a failed run: FAILED tasks go back to PENDING.
    pub reset_failed_tasks: bool,
}

/// Checks an explicit status change (`workflow_update_status`): both statuses
/// must name states (ASCII case ignored) and the move must be legal.
pub fn update_status_gate(current: &str, target: &str) -> (r: Result<StatusChange, String>)
    ensures
        r is Ok <==> parsed_state(target@) is Some && parsed_state(current@) is Some
            && transition_allowed(parsed_state(current@)->0, parsed_state(target@)->0),
        r matches Ok(c) ==> c.from == parsed_state(current@)->0 && c.to == parsed_state(
            target@,
        )->0 && c.reset_failed_tasks == (c.from == WorkflowState::Fix && c.to
            == WorkflowState::Execute),
        parsed_state(target@) is None ==> (r matches Err(e) && e@ == "unknown workflow status: "@
            + target@),
        parsed_state(target@) is Some && parsed_state(current@) is None ==> (r matches Err(e)
            && e@ == "unknown workflow status: "@ + current@),
        parsed_state(target@) is Some && parsed_state(current@) is Some && !transition_allowed(
            parsed_state(current@)->0,
            parsed_state(target@)->0,
        ) ==> (r matches Err(e) && e@ == "illegal transition "@ + current@ + " -> "@ + state_name(
            parsed_state(target@)->0,
        ) + " (not allowed by state machine)"@),
{
    let to = match parse_workflow_state(target) {
        Some(t) => t,
        None => {
            return Err(concat_str("unknown workflow status: ", target));
        },
    };
    let from = match parse_workflow_state(current) {
        Some(f) => f,
        None => {
            return Err(concat_str("unknown workflow status: ", current));
        },
    };
    if !from.can_transition_to(&to) {
        return Err(
            concat5(
                "illegal transition ",
                current,
                " -> ",
                workflow_state_str(&to),
                " (not allowed by state machine)",
            ),
        );
    }
    let reset = from == WorkflowState::Fix && to == WorkflowState::Execute;
    Ok(StatusChange { from, to, reset_failed_tasks: reset })
}

/// Checks `workflow_mark_synthesis_ready`: the workflow may move to VERIFY
/// (or already be there).
pub fn synthesis_ready_gate(current: &str) -> (r: Result<(), String>)
    ensures
        r is Ok <==> parsed_state(current@) is Some && (parsed_state(current@)->0
            == WorkflowState::Verify || transition_allowed(
            parsed_state(current@)->0,
            WorkflowState::Verify,
        )),
        parsed_state(current@) is None ==> (r matches Err(e) && e@ == "unknown workflow status: "@
            + current@),
        parsed_state(current@) is Some && r is Err ==> (r matches Err(e) && e@
            == "illegal transition: "@ + current@
            + " -> VERIFY (synthesis ready requires EXECUTE)"@),
{
    ready_gate(current, WorkflowState::Verify, " -> VERIFY (synthesis ready requires EXECUTE)")
}

/// Checks `workflow_mark_verification_ready`: the workflow may move to DONE
/// (or already be there).
pub fn verification_ready_gate(current: &str) -> (r: Result<(), String>)
    ensures
        r is Ok <==> parsed_state(current@) is Some && (parsed_state(current@)->0
            == WorkflowState::Done || transition_allowed(
            parsed_state(current@)->0,
            WorkflowState::Done,
        )),
        parsed_state(current@) is None ==> (r matches Err(e) && e@ == "unknown workflow status: "@
            + current@),
        parsed_state(current@) is Some && r is Err ==> (r matches Err(e) && e@
            == "illegal transition: "@ + current@
            + " -> DONE (verification ready requires VERIFY/FIX)"@),
{
    ready_gate(current, WorkflowState::Done, " -> DONE (verification ready requires VERIFY/FIX)")
}

fn ready_gate(current: &str, target: WorkflowState, tail: &str) -> (r: Result<(), String>)
    ensures
        r is Ok <==> parsed_state(current@) is Some && (parsed_state(current@)->0 == target
            || transition_allowed(parsed_state(current@)->0, target)),
        parsed_state(current@) is None ==> (r matches Err(e) && e@ == "unknown workflow status: "@
            + current@),
        parsed_state(current@) is Some && r is Err ==> (r matches Err(e) && e@
            == "illegal transition: "@ + current@ + tail@),
{
    match parse_workflow_state(current) {
        None => Err(concat_str("unknown workflow status: ", current)),
        Some(cur) => {
            if cur != target && !cur.can_transition_to(&target) {
                Err(concat3("illegal transition: ", current, tail))
            } else {
                Ok(())
            }
        },
    }
}

/// Checks `workflow_fail_task`: the task must belong to the workflow and be
/// RUNNING or PENDING.
pub fn fail_task_gate(task_id: &str, task_workflow: &str, workflow_id: &str, task_status: &str) -> (r:
    Result<(), String>)
    ensures
        r is Ok <==> task_workflow@ == workflow_id@ && (task_status@ == "RUNNING"@
            || task_status@ == "PENDING"@),
        task_workflow@ != workflow_id@ ==> (r matches Err(e) && e@ == "Task "@ + task_id@
            + " does not belong to workflow "@ + workflow_id@),
        task_workflow@ == workflow_id@ && r is Err ==> (r matches Err(e) && e@
            == "Cannot fail task with status: "@ + task_status@
            + " (only RUNNING/PENDING tasks can fail)"@),
{
    if !str_eq(task_workflow, workflow_id) {
        return Err(concat4_owned("Task ", task_id, " does not belong to workflow ", workflow_id));
    }
    if !str_eq(task_status, "RUNNING") && !str_eq(task_status, "PENDING") {
        return Err(
            concat3(
                "Cannot fail task with status: ",
                task_status,
                " (only RUNNING/PENDING tasks can fail)",
            ),
        );
    }
    Ok(())
}

fn concat4_owned(a: &str, b: &str, c: &str, d: &str) -> (s: String)
    ensures
        s@ == a@ + b@ + c@ + d@,
{
    crate::text::concat4(a, b, c, d)
}

/// Where a failed task sends its workflow: to FIX when that move is legal from
/// the stored status, nowhere otherwise.
pub fn fail_task_route(current: &str) -> (r: Option<WorkflowState>)
    ensures
        r is Some <==> parsed_state(current@) is Some && transition_allowed(
            parsed_state(current@)->0,
            WorkflowState::Fix,
        ),
        r is Some ==> r == Some(WorkflowState::Fix),
        parsed_state(current@) == Some(WorkflowState::Execute) ==> r == Some(WorkflowState::Fix),
        parsed_state(current@) == Some(WorkflowState::Verify) ==> r == Some(WorkflowState::Fix),
{
    match parse_workflow_state(current) {
        Some(s) => {
            if s.can_transition_to(&WorkflowState::Fix) {
                Some(WorkflowState::Fix)
            } else {
                None
            }
        },
        None => None,
    }
}

/// The review gate of `workflow_complete_task`: a task that requires review
/// completes only when its latest review decision is APPROVED.
pub fn completion_review_gate(task_id: &str, requires_review: bool, latest_review: Option<&str>) -> (r:
    Result<(), String>)
    ensures
        r is Ok <==> !requires_review || (latest_review is Some && latest_review->0@
            == "APPROVED"@),
        r is Err && latest_review is Some ==> (r matches Err(e) && e@ == "Task "@ + task_id@
            + " requires review (requires_tdd) but latest review is "@ + latest_review->0@
            + " (not APPROVED)"@),
        r is Err && latest_review is None ==> (r matches Err(e) && e@ == "Task "@ + task_id@
            + " requires review (requires_tdd) but no review found"@),
{
    if !requires_review {
        return Ok(());
    }
    match latest_review {
        Some(d) => {
            if str_eq(d, "APPROVED") {
                Ok(())
            } else {
                Err(
                    concat5(
                        "Task ",
                        task_id,
                        " requires review (requires_tdd) but latest review is ",
                        d,
                        " (not APPROVED)",
                    ),
                )
            }
        },
        None => Err(
            concat3("Task ", task_id, " requires review (requires_tdd) but no review found"),
        ),
    }
}

/// The states a workflow walks through when its last open task completes:
/// the legal path to DONE from its stored status, or nothing when the status
/// is terminal or unknown.
pub fn completion_route(current: &str) -> (path: Vec<WorkflowState>)
    ensures
        parsed_state(current@) is None ==> path@.len() == 0,
        parsed_state(current@) is Some ==> path@ == done_path(parsed_state(current@)->0),
        path@.len() > 0 ==> legal_path(parsed_state(current@)->0, path@) && path@.last()
            == WorkflowState::Done,
{
    match parse_workflow_state(current) {
        Some(s) => auto_done_path(&s),
        None => Vec::new(),
    }
}

/// Checks `workflow_start_task`: the task must be PENDING and the workflow in
/// EXECUTE, ANALYZE or PLAN.
pub fn start_task_gate(task_id: &str, task_status: &str, workflow_status: &str) -> (r: Result<
    (),
    String,
>)
    ensures
        r is Ok <==> task_status@ == "PENDING"@ && (workflow_status@ == "EXECUTE"@
            || workflow_status@ == "ANALYZE"@ || workflow_status@ == "PLAN"@),
        task_status@ != "PENDING"@ ==> (r matches Err(e) && e@ == "Task "@ + task_id@ + " is "@
            + task_status@ + ", cannot start (must be PENDING)"@),
        task_status@ == "PENDING"@ && r is Err ==> (r matches Err(e) && e@ == "Workflow is "@
            + workflow_status@ + ", tasks can only start in EXECUTE/ANALYZE/PLAN state"@),
{
    if !str_eq(task_status, "PENDING") {
        return Err(
            concat5("Task ", task_id, " is ", task_status, ", cannot start (must be PENDING)"),
        );
    }
    if !str_eq(workflow_status, "EXECUTE") && !str_eq(workflow_status, "ANALYZE") && !str_eq(
        workflow_status,
        "PLAN",
    ) {
        return Err(
            concat3(
                "Workflow is ",
                workflow_status,
                ", tasks can only start in EXECUTE/ANALYZE/PLAN state",
            ),
        );
    }
    Ok(())
}

/// A task may start only when each of its dependencies is DONE.
pub fn dependency_gate(dep_id: &str, dep_status: &str) -> (r: Result<(), String>)
    ensures
        r is Ok <==> dep_status@ == "DONE"@,
        r matches Err(e) ==> e@ == "Dependency "@ + dep_id@ + " not complete (status: "@
            + dep_status@ + ")"@,
{
    if str_eq(dep_status, "DONE") {
        Ok(())
    } else {
        Err(concat5("Dependency ", dep_id, " not complete (status: ", dep_status, ")"))
    }
}


/// A new task needs a non-empty plan id.
pub fn task_plan_id_gate(plan_id: &str) -> (r: Result<(), String>)
    ensures
        r is Ok <==> plan_id@.len() > 0,
        r matches Err(e) ==> e@ == "plan_id cannot be empty"@,
{
    if plan_id.is_empty() {
        Err("plan_id cannot be empty".to_owned())
    } else {
        Ok(())
    }
}

/// The plan a new task is filed under when the requested plan exists: the
/// plan itself when it belongs to the workflow, otherwise the workflow's
/// newest ACTIVE plan, or an error when it has none.
pub fn resolve_task_plan(
    plan_id: &str,
    plan_workflow_id: &str,
    workflow_id: &str,
    active_plan: Option<&str>,
) -> (r: Result<String, String>)
    ensures
        plan_workflow_id@ == workflow_id@ ==> (r matches Ok(p) && p@ == plan_id@),
        plan_workflow_id@ != workflow_id@ && active_plan is Some ==> (r matches Ok(p) && p@
            == active_plan->0@),
        plan_workflow_id@ != workflow_id@ && active_plan is None ==> (r matches Err(e) && e@
            == "Plan "@ + plan_id@ + " does not belong to workflow "@ + workflow_id@
            + " and no ACTIVE plan found for this workflow"@),
{
    if str_eq(plan_workflow_id, workflow_id) {
        return Ok(plan_id.to_owned());
    }
    match active_plan {
        Some(p) => Ok(p.to_owned()),
        None => Err(
            concat5(
                "Plan ",
                plan_id,
                " does not belong to workflow ",
                workflow_id,
                " and no ACTIVE plan found for this workflow",
            ),
        ),
    }
}

/// A missing plan is created automatically only for a workflow in INIT.
pub fn auto_plan_gate(workflow_status: &str) -> (r: Result<(), String>)
    ensures
        r is Ok <==> workflow_status@ == "INIT"@,
        r matches Err(e) ==> e@ == "Cannot create plan for workflow in "@ + workflow_status@
            + " state. Only INIT state allows auto-plan creation."@,
{
    if str_eq(workflow_status, "INIT") {
        Ok(())
    } else {
        Err(
            concat3(
                "Cannot create plan for workflow in ",
                workflow_status,
                " state. Only INIT state allows auto-plan creation.",
            ),
        )
    }
}

/// Tasks may be added to a workflow in INIT, PLAN or EXECUTE only.
pub fn task_creation_gate(workflow_status: &str) -> (r: Result<(), String>)
    ensures
        r is Ok <==> workflow_status@ == "INIT"@ || workflow_status@ == "PLAN"@
            || workflow_status@ == "EXECUTE"@,
        r matches Err(e) ==> e@ == "Cannot add tasks to workflow in "@ + workflow_status@
            + " state. Allowed states: INIT, PLAN, EXECUTE."@,
{
    if str_eq(workflow_status, "INIT") || str_eq(workflow_status, "PLAN") || str_eq(
        workflow_status,
        "EXECUTE",
    ) {
        Ok(())
    } else {
        Err(
            concat3(
                "Cannot add tasks to workflow in ",
                workflow_status,
                " state. Allowed states: INIT, PLAN, EXECUTE.",
            ),
        )
    }
}

/// The next action and command `workflow_resume_suggestion` proposes for a
/// workflow in `status`. For EXECUTE it points at the first running task, else
/// the first pending one, its title written as a JSON string (quotes
/// included, as a JSON value displays), else at verification.
pub fn resume_suggestion(status: &str, running_title: Option<&str>, pending_title: Option<&str>) -> (r:
    (String, &'static str))
    ensures
        status@ == "INIT"@ ==> r.0@ == "Workflow baru saja dibuat. Jalankan analyze untuk memulai."@
            && r.1@ == "masday-workflow-run"@,
        status@ == "ANALYZE"@ ==> r.0@ == "Sedang menganalisis. Lanjutkan ke planning."@ && r.1@
            == "masday-workflow-plan"@,
        status@ == "PLAN"@ ==> r.0@ == "Plan sudah dibuat. Siap untuk eksekusi."@ && r.1@
            == "masday-workflow-run"@,
        status@ == "EXECUTE"@ && running_title is Some ==> r.0@ == "Lanjutkan task '"@
            + json_string(running_title->0@) + "' yang sedang berjalan."@ && r.1@ == "masday-workflow-run"@,
        status@ == "EXECUTE"@ && running_title is None && pending_title is Some ==> r.0@
            == "Mulai task berikutnya: '"@ + json_string(pending_title->0@) + "'."@ && r.1@
            == "masday-workflow-run"@,
        status@ == "EXECUTE"@ && running_title is None && pending_title is None ==> r.0@
            == "Semua task selesai. Jalankan verify."@ && r.1@ == "masday-workflow-verify"@,
        status@ == "VERIFY"@ ==> r.0@
            == "Sedang verifikasi hasil. Jalankan complete jika semua OK."@ && r.1@
            == "masday-workflow-verify"@,
        status@ == "FIX"@ ==> r.0@ == "Ada task yang gagal. Perbaiki dan jalankan ulang."@ && r.1@
            == "masday-workflow-fix"@,
        status@ == "PAUSED"@ ==> r.0@ == "Workflow di-pause. Lanjutkan ketika siap."@ && r.1@
            == "masday-workflow-run"@,
        status@ == "DONE"@ ==> r.0@ == "Workflow sudah selesai!"@ && r.1@ == ""@,
        status@ == "FAILED"@ ==> r.0@ == "Workflow gagal. Cek task yang failed dan perbaiki."@
            && r.1@ == "masday-workflow-fix"@,
        state_named(status@) is None ==> r.0@ == "Status tidak dikenal."@ && r.1@ == ""@,
{
    proof {
        reveal_strlit("INIT");
        reveal_strlit("ANALYZE");
        reveal_strlit("PLAN");
        reveal_strlit("EXECUTE");
        reveal_strlit("VERIFY");
        reveal_strlit("FIX");
        reveal_strlit("PAUSED");
        reveal_strlit("DONE");
        reveal_strlit("FAILED");
        reveal_strlit("");
        assert("INIT"@ =~= state_name(WorkflowState::Init));
        assert("ANALYZE"@ =~= state_name(WorkflowState::Analyze));
        assert("PLAN"@ =~= state_name(WorkflowState::Plan));
        assert("EXECUTE"@ =~= state_name(WorkflowState::Execute));
        assert("VERIFY"@ =~= state_name(WorkflowState::Verify));
        assert("FIX"@ =~= state_name(WorkflowState::Fix));
        assert("PAUSED"@ =~= state_name(WorkflowState::Paused));
        assert("DONE"@ =~= state_name(WorkflowState::Done));
        assert("FAILED"@ =~= state_name(WorkflowState::Failed));
    }
    match state_named_exactly(status) {
        Some(WorkflowState::Init) => (
            "Workflow baru saja dibuat. Jalankan analyze untuk memulai.".to_owned(),
            "masday-workflow-run",
        ),
        Some(WorkflowState::Analyze) => (
            "Sedang menganalisis. Lanjutkan ke planning.".to_owned(),
            "masday-workflow-plan",
        ),
        Some(WorkflowState::Plan) => (
            "Plan sudah dibuat. Siap untuk eksekusi.".to_owned(),
            "masday-workflow-run",
        ),
        Some(WorkflowState::Execute) => {
            match running_title {
                Some(t) => (
                    concat3("Lanjutkan task '", json_quote(t).as_str(), "' yang sedang berjalan."),
                    "masday-workflow-run",
                ),
                None => match pending_title {
                    Some(t) => (
                        concat3("Mulai task berikutnya: '", json_quote(t).as_str(), "'."),
                        "masday-workflow-run",
                    ),
                    None => (
                        "Semua task selesai. Jalankan verify.".to_owned(),
                        "masday-workflow-verify",
                    ),
                },
            }
        },
        Some(WorkflowState::Verify) => (
            "Sedang verifikasi hasil. Jalankan complete jika semua OK.".to_owned(),
            "masday-workflow-verify",
        ),
        Some(WorkflowState::Fix) => (
            "Ada task yang gagal. Perbaiki dan jalankan ulang.".to_owned(),
            "masday-workflow-fix",
        ),
        Some(WorkflowState::Paused) => (
            "Workflow di-pause. Lanjutkan ketika siap.".to_owned(),
            "masday-workflow-run",
        ),
        Some(WorkflowState::Done) => ("Workflow sudah selesai!".to_owned(), ""),
        Some(WorkflowState::Failed) => (
            "Workflow gagal. Cek task yang failed dan perbaiki.".to_owned(),
            "masday-workflow-fix",
        ),
        None => ("Status tidak dikenal.".to_owned(), ""),
    }
}

} // verus!
