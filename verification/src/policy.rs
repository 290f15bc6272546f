//! Policy verdicts: whether a task may execute or complete, and what a
//! resuming agent should do next.
use vstd::prelude::*;
use crate::text::{concat3, concat4, concat_str, i64_decimal, spec_int_decimal, str_eq};

verus! {

/// A task status counts as finished for completion checks (DONE or CANCELLED;
/// FAILED is not finished).
pub open spec fn is_finished_status(s: Seq<char>) -> bool {
    s == "DONE"@ || s == "CANCELLED"@
}

/// DONE and CANCELLED are the finished statuses; FAILED, PENDING and
/// RUNNING are not, and nothing else is finished.
pub proof fn lemma_finished_status_table(s: Seq<char>)
    ensures
        is_finished_status("DONE"@),
        is_finished_status("CANCELLED"@),
        !is_finished_status("FAILED"@),
        !is_finished_status("PENDING"@),
        !is_finished_status("RUNNING"@),
        is_finished_status(s) ==> s == "DONE"@ || s == "CANCELLED"@,
{
    reveal_strlit("DONE");
    reveal_strlit("CANCELLED");
    reveal_strlit("FAILED");
    reveal_strlit("PENDING");
    reveal_strlit("RUNNING");
    assert("FAILED"@.len() != "DONE"@.len() && "FAILED"@.len() != "CANCELLED"@.len());
    assert("PENDING"@.len() != "DONE"@.len() && "PENDING"@.len() != "CANCELLED"@.len());
    assert("RUNNING"@.len() != "DONE"@.len() && "RUNNING"@.len() != "CANCELLED"@.len());
}

/// Whether a status is DONE or CANCELLED.
pub fn is_finished(status: &str) -> (r: bool)
    ensures
        r == is_finished_status(status@),
{
    str_eq(status, "DONE") || str_eq(status, "CANCELLED")
}

/// Whether every status in the list is DONE or CANCELLED (true for an empty list).
pub fn tasks_all_terminal(statuses: &[&str]) -> (r: bool)
    ensures
        r == forall|i: int| 0 <= i < statuses@.len() ==> #[trigger] is_finished_status(
            statuses@[i]@,
        ),
{
    let mut i: usize = 0;
    while i < statuses.len()
        invariant
            i <= statuses@.len(),
            forall|j: int| 0 <= j < i ==> #[trigger] is_finished_status(statuses@[j]@),
        decreases statuses@.len() - i,
    {
        if !is_finished(statuses[i]) {
            return false;
        }
        i = i + 1;
    }
    true
}

/// `policy_validate_execution`: a task may run while its workflow is in
/// EXECUTE or PLAN and the task itself is PENDING or RUNNING.
pub fn execution_allowed(workflow_status: &str, task_status: &str) -> (r: bool)
    ensures
        r == ((workflow_status@ == "EXECUTE"@ || workflow_status@ == "PLAN"@) && (task_status@
            == "PENDING"@ || task_status@ == "RUNNING"@)),
{
    let wf_ok = str_eq(workflow_status, "EXECUTE") || str_eq(workflow_status, "PLAN");
    wf_ok && (str_eq(task_status, "PENDING") || str_eq(task_status, "RUNNING"))
}

/// The outcome of `policy_validate_completion`.
#[derive(Debug)]
pub enum CompletionVerdict {
    /// The task itself is not DONE/CANCELLED.
    TaskNotFinished,
    /// Another task of the workflow is still open (its id and status).
    WorkflowTaskOpen { task_id: String, status: String },
    /// The task requires review and its latest review is not APPROVED.
    ReviewNotApproved { decision: String },
    /// The task requires review and has none.
    ReviewMissing,
    /// The task may be marked complete.
    Valid,
}


/// Decides `policy_validate_completion` from what storage holds: the task's
/// status, the first still-open task of the workflow (if any), whether the
/// task requires review, and its latest review decision scoped to this
/// workflow. Checks run in that order.
pub fn completion_verdict(
    task_status: &str,
    open_task: Option<(&str, &str)>,
    requires_review: bool,
    latest_review: Option<&str>,
) -> (v: CompletionVerdict)
    ensures
        !is_finished_status(task_status@) ==> v is TaskNotFinished,
        is_finished_status(task_status@) ==> (open_task matches Some((id, st)) ==> (v matches CompletionVerdict::WorkflowTaskOpen { task_id, status }
            && task_id@ == id@ && status@ == st@)),
        is_finished_status(task_status@) && open_task is None && requires_review
            && latest_review is None ==> v is ReviewMissing,
        is_finished_status(task_status@) && open_task is None && requires_review
            && latest_review is Some && latest_review->0@ != "APPROVED"@ ==> v is ReviewNotApproved
            && v->decision@ == latest_review->0@,
        v is Valid <==> is_finished_status(task_status@) && open_task is None && (!requires_review
            || (latest_review is Some && latest_review->0@ == "APPROVED"@)),
{
    if !is_finished(task_status) {
        return CompletionVerdict::TaskNotFinished;
    }
    if let Some((id, status)) = open_task {
        return CompletionVerdict::WorkflowTaskOpen {
            task_id: id.to_owned(),
            status: status.to_owned(),
        };
    }
    if requires_review {
        match latest_review {
            Some(d) => {
                if !str_eq(d, "APPROVED") {
                    return CompletionVerdict::ReviewNotApproved { decision: d.to_owned() };
                }
            },
            None => {
                return CompletionVerdict::ReviewMissing;
            },
        }
    }
    CompletionVerdict::Valid
}

/// The reason text the tool reports for a refused completion.
pub fn completion_reason(v: &CompletionVerdict, task_status: &str) -> (r: Option<String>)
    ensures
        v is Valid <==> r is None,
        v is TaskNotFinished ==> (r matches Some(s) && s@ == "Task status is "@ + task_status@
            + " (expected DONE or CANCELLED). Complete the task first with workflow_completeTask."@),
        v matches CompletionVerdict::WorkflowTaskOpen { task_id, status } ==> (r matches Some(s)
            && s@ == "Task "@ + task_id@ + " not terminal: "@ + status@),
        v matches CompletionVerdict::ReviewNotApproved { decision } ==> (r matches Some(s) && s@
            == "Latest review is "@ + decision@),
        v is ReviewMissing ==> (r matches Some(s) && s@ == "Task requires review but none found"@),
{
    match v {
        CompletionVerdict::TaskNotFinished => Some(
            concat3(
                "Task status is ",
                task_status,
                " (expected DONE or CANCELLED). Complete the task first with workflow_completeTask.",
            ),
        ),
        CompletionVerdict::WorkflowTaskOpen { task_id, status } => Some(
            concat4("Task ", task_id.as_str(), " not terminal: ", status.as_str()),
        ),
        CompletionVerdict::ReviewNotApproved { decision } => Some(
            concat_str("Latest review is ", decision.as_str()),
        ),
        CompletionVerdict::ReviewMissing => Some("Task requires review but none found".to_owned()),
        CompletionVerdict::Valid => None,
    }
}

/// The suggestion text the tool reports for a refused completion.
pub fn completion_suggestion(v: &CompletionVerdict) -> (r: Option<&'static str>)
    ensures
        v is Valid <==> r is None,
        v is TaskNotFinished ==> (r matches Some(s) && s@
            == "Use workflow_saveProgress to save work, then workflow_completeTask to mark DONE."@),
        v is WorkflowTaskOpen ==> (r matches Some(s) && s@
            == "Complete all workflow tasks before marking completion."@),
        v is ReviewNotApproved ==> (r matches Some(s) && s@
            == "Address review feedback and resubmit."@),
        v is ReviewMissing ==> (r matches Some(s) && s@
            == "Submit review for approval before completing."@),
{
    match v {
        CompletionVerdict::TaskNotFinished => Some(
            "Use workflow_saveProgress to save work, then workflow_completeTask to mark DONE.",
        ),
        CompletionVerdict::WorkflowTaskOpen { .. } => Some(
            "Complete all workflow tasks before marking completion.",
        ),
        CompletionVerdict::ReviewNotApproved { .. } => Some(
            "Address review feedback and resubmit.",
        ),
        CompletionVerdict::ReviewMissing => Some("Submit review for approval before completing."),
        CompletionVerdict::Valid => None,
    }
}

/// The extra gate of `policy_validate_parallel_completion`: once the task
/// itself may complete, every parallel branch of the workflow must be DONE.
/// Returns the refusal reason when `pending` branches are not.
pub fn parallel_branch_gate(pending: i64) -> (r: Option<String>)
    ensures
        r is None <==> pending <= 0,
        r matches Some(s) ==> s@ == spec_int_decimal(pending as int)
            + " parallel branch(es) not yet DONE"@,
{
    if pending > 0 {
        let n = i64_decimal(pending);
        Some(concat_str(n.as_str(), " parallel branch(es) not yet DONE"))
    } else {
        None
    }
}

} // verus!
