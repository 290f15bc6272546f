//! The records the tools keep besides workflows and tasks: memories,
//! parallel branches, sessions, graph entities and retrieval logs. What is
//! decided about them before they are written, and the text stored with
//! them.
use vstd::prelude::*;
use crate::json::{json_array, json_quote, json_string, json_string_array};
use crate::text::{concat3, concat_str, i64_decimal, push_char, spec_int_decimal};

verus! {

/// `/` becomes `:` in a session key.
pub open spec fn key_char(c: char) -> char {
    if c == '/' {
        ':'
    } else {
        c
    }
}

/// The key of the session opened in a working directory:
/// `session:` and the directory with each `/` turned into `:`.
pub open spec fn spec_session_key(cwd: Seq<char>) -> Seq<char> {
    "session:"@ + cwd.map_values(|c: char| key_char(c))
}

/// A session key is `session:` followed by one character for each character
/// of the directory: `:` where the directory has `/`, the same character
/// elsewhere; so no `/` is left in the key past its prefix.
pub proof fn lemma_session_key_shape(cwd: Seq<char>)
    ensures
        spec_session_key(cwd).len() == 8 + cwd.len(),
        spec_session_key(cwd).take(8) == "session:"@,
        forall|i: int|
            0 <= i < cwd.len() ==> (cwd[i] == '/' ==> #[trigger] spec_session_key(cwd)[8 + i]
                == ':') && (cwd[i] != '/' ==> spec_session_key(cwd)[8 + i] == cwd[i]),
        forall|i: int| 8 <= i < spec_session_key(cwd).len() ==> #[trigger] spec_session_key(cwd)[i] != '/',
{
    reveal_strlit("session:");
    let k = spec_session_key(cwd);
    assert(k.take(8) =~= "session:"@);
    assert forall|i: int| 8 <= i < k.len() implies #[trigger] k[i] != '/' by {
        assert(k[i] == key_char(cwd[i - 8]));
    }
}

/// The session key for a working directory, as [`spec_session_key`] states.
pub fn session_key(cwd: &str) -> (r: String)
    ensures
        r@ == spec_session_key(cwd@),
{
    let mut out = String::from_str("session:");
    let ghost head = out@;
    for c in it: cwd.chars()
        invariant
            it.seq() == cwd@,
            out@ == head + cwd@.take(it.index() as int).map_values(|c: char| key_char(c)),
    {
        proof {
            assert(cwd@.take(it.index() + 1).map_values(|c: char| key_char(c)) =~= cwd@.take(
                it.index() as int,
            ).map_values(|c: char| key_char(c)).push(key_char(c)));
        }
        if c == '/' {
            push_char(&mut out, ':');
        } else {
            push_char(&mut out, c);
        }
    }
    assert(cwd@.take(cwd@.len() as int) =~= cwd@);
    out
}

/// A session key never holds a `/`: one working directory's key cannot be
/// read as a path.
pub proof fn lemma_session_key_has_no_slash(cwd: Seq<char>)
    ensures
        forall|i: int| 0 <= i < spec_session_key(cwd).len() ==> #[trigger] spec_session_key(cwd)[i] != '/',
{
    reveal_strlit("session:");
}

/// The metadata a new session is stored with: `{"cwd":<cwd>}`.
pub fn cwd_metadata(cwd: &str) -> (r: String)
    ensures
        r@ == "{\"cwd\":"@ + json_string(cwd@) + "}"@,
{
    let q = json_quote(cwd);
    concat3("{\"cwd\":", q.as_str(), "}")
}

/// The `LIKE` pattern matching text that contains `query`.
pub fn like_pattern(query: &str) -> (r: String)
    ensures
        r@ == "%"@ + query@ + "%"@,
{
    concat3("%", query, "%")
}

/// The text a memory's embedding is computed from: its summary, a space,
/// and its content.
pub fn embedding_text(summary: &str, content: &str) -> (r: String)
    ensures
        r@ == summary@ + " "@ + content@,
{
    concat3(summary, " ", content)
}

/// The summary a new plan is stored with: `Plan v<version>`.
pub fn plan_summary(version: i64) -> (r: String)
    ensures
        r@ == "Plan v"@ + spec_int_decimal(version as int),
{
    let v = i64_decimal(version);
    concat_str("Plan v", v.as_str())
}

/// A memory's tags as stored: a JSON array of the string tags.
pub fn tags_json(tags: &[String]) -> (r: String)
    ensures
        r@ == json_array(tags@.map_values(|s: String| s@)),
{
    json_string_array(tags)
}

/// The properties a graph entity is stored with:
/// `{"observations":[...]}`.
pub fn observations_json(observations: &[String]) -> (r: String)
    ensures
        r@ == "{\"observations\":"@ + json_array(observations@.map_values(|s: String| s@)) + "}"@,
{
    let a = json_string_array(observations);
    concat3("{\"observations\":", a.as_str(), "}")
}

/// A graph entity needs a name and a type.
pub fn entity_gate(name: Option<&str>, entity_type: Option<&str>) -> (r: Result<(), String>)
    ensures
        match r {
            Ok(()) => name is Some && entity_type is Some,
            Err(e) => if name is None {
                e@ == "missing name in entity"@
            } else {
                entity_type is None && e@ == "missing entityType"@
            },
        },
{
    if name.is_none() {
        return Err(String::from_str("missing name in entity"));
    }
    if entity_type.is_none() {
        return Err(String::from_str("missing entityType"));
    }
    Ok(())
}

/// Parallel branches are created from a non-empty list.
pub fn branches_gate(count: usize) -> (r: Result<(), String>)
    ensures
        r is Ok <==> count > 0,
        r matches Err(e) ==> e@
            == "branches array is empty — provide at least one branch object with task_id, branch_key, role"@,
{
    if count == 0 {
        Err(
            String::from_str(
                "branches array is empty — provide at least one branch object with task_id, branch_key, role",
            ),
        )
    } else {
        Ok(())
    }
}

/// What a parallel branch is created with.
#[derive(Debug)]
pub struct BranchFields {
    pub task_id: String,
    pub branch_key: String,
    pub role: String,
}

/// The fields of a branch to create: none when it names no task (it is
/// skipped), else its task, its key (`default` when absent) and its role
/// (`executor` when absent).
pub fn branch_fields(task_id: Option<&str>, branch_key: Option<&str>, role: Option<&str>) -> (r: Option<BranchFields>)
    ensures
        match task_id {
            Some(t) if t@.len() > 0 => r matches Some(b) && b.task_id@ == t@ && b.branch_key@ == match branch_key {
                Some(k) => k@,
                None => "default"@,
            } && b.role@ == match role {
                Some(x) => x@,
                None => "executor"@,
            },
            _ => r is None,
        },
{
    match task_id {
        Some(t) => {
            if t.is_empty() {
                return None;
            }
            let key = match branch_key {
                Some(k) => k.to_string(),
                None => String::from_str("default"),
            };
            let role = match role {
                Some(x) => x.to_string(),
                None => String::from_str("executor"),
            };
            Some(BranchFields { task_id: t.to_string(), branch_key: key, role })
        },
        None => None,
    }
}

/// How a memory is updated, from what the update carries.
#[derive(Debug, PartialEq, Eq, Structural)]
pub enum MemoryUpdate {
    /// New content and importance: both written, the embedding recomputed.
    ContentAndImportance,
    /// New content: written, the embedding recomputed.
    Content,
    /// A new importance only.
    Importance,
    /// Nothing new: only the update time moves.
    Touch,
}

/// Whether an update recomputes the memory's embedding.
pub open spec fn reembeds(u: MemoryUpdate) -> bool {
    u is ContentAndImportance || u is Content
}

/// Whether an update counts as a new version of the memory.
pub open spec fn new_version(u: MemoryUpdate) -> bool {
    !(u is Touch)
}

/// The kind of update for the fields it carries.
pub fn memory_update_kind(has_content: bool, has_importance: bool) -> (r: MemoryUpdate)
    ensures
        reembeds(r) == has_content,
        (r is ContentAndImportance || r is Importance) == has_importance,
        new_version(r) == (has_content || has_importance),
{
    match (has_content, has_importance) {
        (true, true) => MemoryUpdate::ContentAndImportance,
        (true, false) => MemoryUpdate::Content,
        (false, true) => MemoryUpdate::Importance,
        (false, false) => MemoryUpdate::Touch,
    }
}

/// Deleting a memory that was not there is an error.
pub fn memory_delete_check(deleted: usize, id: &str) -> (r: Result<(), String>)
    ensures
        r is Ok <==> deleted > 0,
        r matches Err(e) ==> e@ == "Memory not found: "@ + id@,
{
    if deleted == 0 {
        Err(concat_str("Memory not found: ", id))
    } else {
        Ok(())
    }
}

/// Deleting a workflow's memories when it has none is an error.
pub fn workflow_memories_delete_check(deleted: usize, workflow_id: &str) -> (r: Result<(), String>)
    ensures
        r is Ok <==> deleted > 0,
        r matches Err(e) ==> e@ == "No memories found for workflow: "@ + workflow_id@,
{
    if deleted == 0 {
        Err(concat_str("No memories found for workflow: ", workflow_id))
    } else {
        Ok(())
    }
}

/// Listing the tasks of a workflow that does not exist is an error.
pub fn workflow_exists_check(count: i64, workflow_id: &str) -> (r: Result<(), String>)
    ensures
        r is Ok <==> count != 0,
        r matches Err(e) ==> e@ == "Workflow not found: "@ + workflow_id@,
{
    if count == 0 {
        Err(concat_str("Workflow not found: ", workflow_id))
    } else {
        Ok(())
    }
}

/// An identifier as a retrieval log records it: absent when empty.
pub fn non_empty(s: &str) -> (r: Option<&str>)
    ensures
        match r {
            Some(v) => s@.len() > 0 && v@ == s@,
            None => s@.len() == 0,
        },
{
    if s.is_empty() {
        None
    } else {
        Some(s)
    }
}

/// What a context retrieval is logged as having asked for: the task when
/// one is named, else the workflow.
pub fn retrieval_query<'a>(workflow_id: &'a str, task_id: &'a str) -> (r: &'a str)
    ensures
        r@ == if task_id@.len() == 0 {
            workflow_id@
        } else {
            task_id@
        },
{
    if task_id.is_empty() {
        workflow_id
    } else {
        task_id
    }
}

/// The error when a workflow has no running task.
pub fn no_running_task(workflow_id: &str) -> (r: String)
    ensures
        r@ == "No running task found for workflow: "@ + workflow_id@,
{
    concat_str("No running task found for workflow: ", workflow_id)
}

/// The readable fingerprint of a context: `fp-<workflow>-<plan>-<task>`.
pub fn make_fingerprint(workflow_id: &str, plan_id: &str, task_id: &str) -> (r: String)
    ensures
        r@ == "fp-"@ + workflow_id@ + "-"@ + plan_id@ + "-"@ + task_id@,
{
    let a = concat3("fp-", workflow_id, "-");
    let b = concat3(a.as_str(), plan_id, "-");
    concat_str(b.as_str(), task_id)
}

/// The memories the workflow tools store on their own, as `system`.
#[derive(Debug, PartialEq, Eq, Structural)]
pub enum AutoMemory {
    /// A workflow moved from ANALYZE to PLAN.
    AnalysisToPlan,
    /// A task completed.
    TaskComplete,
    /// A task failed.
    TaskFailed,
    /// A workflow reached DONE.
    WorkflowComplete,
}

/// The tag naming the event of an automatic memory.
pub open spec fn auto_tag(kind: AutoMemory) -> Seq<char> {
    match kind {
        AutoMemory::AnalysisToPlan => "analyze-to-plan"@,
        AutoMemory::TaskComplete => "task-complete"@,
        AutoMemory::TaskFailed => "task-failed"@,
        AutoMemory::WorkflowComplete => "workflow-complete"@,
    }
}

/// The tags of an automatic memory, stored as JSON: `["auto","<event>"]`.
pub fn auto_memory_tags(kind: &AutoMemory) -> (r: String)
    ensures
        r@ == json_array(seq!["auto"@, auto_tag(*kind)]),
{
    let tag: &str = match kind {
        AutoMemory::AnalysisToPlan => "analyze-to-plan",
        AutoMemory::TaskComplete => "task-complete",
        AutoMemory::TaskFailed => "task-failed",
        AutoMemory::WorkflowComplete => "workflow-complete",
    };
    let tags: Vec<String> = vec![String::from_str("auto"), tag.to_string()];
    let r = json_string_array(tags.as_slice());
    assert(tags@.map_values(|s: String| s@) =~= seq!["auto"@, auto_tag(*kind)]);
    r
}

/// An automatic memory is not stored twice: it is skipped when the workflow
/// already holds a `system` memory with its summary.
pub fn auto_memory_skipped(existing: i64) -> (r: bool)
    ensures
        r == (existing > 0),
{
    existing > 0
}

/// The summary of the memory of a completed task.
pub fn task_complete_summary(title: &str) -> (r: String)
    ensures
        r@ == "Task completed: "@ + title@,
{
    concat_str("Task completed: ", title)
}

/// The summary of the memory of a failed task.
pub fn task_failed_summary(title: &str) -> (r: String)
    ensures
        r@ == "Task failed: "@ + title@,
{
    concat_str("Task failed: ", title)
}

/// The summary of the memory of an ANALYZE → PLAN move.
pub fn analysis_summary(artifacts: i64) -> (r: String)
    ensures
        r@ == "Workflow transitioned ANALYZE -> PLAN ("@ + spec_int_decimal(artifacts as int) + " artifacts)"@,
{
    let n = i64_decimal(artifacts);
    concat3("Workflow transitioned ANALYZE -> PLAN (", n.as_str(), " artifacts)")
}

/// The content of the analysis summary document and memory, as
/// `serde_json` writes the object (keys in order):
/// `{"artifacts_found":<n>,"transition":"ANALYZE -> PLAN","workflow_id":<id>}`.
pub fn analysis_summary_json(workflow_id: &str, artifacts: i64) -> (r: String)
    ensures
        r@ == "{\"artifacts_found\":"@ + spec_int_decimal(artifacts as int)
            + ",\"transition\":\"ANALYZE -> PLAN\",\"workflow_id\":"@ + json_string(workflow_id@) + "}"@,
{
    let n = i64_decimal(artifacts);
    let q = json_quote(workflow_id);
    let head = concat3("{\"artifacts_found\":", n.as_str(), ",\"transition\":\"ANALYZE -> PLAN\",\"workflow_id\":");
    concat3(head.as_str(), q.as_str(), "}")
}

/// The summary of the memory of a completed workflow.
pub fn workflow_complete_summary(name: &str, task_count: i64) -> (r: String)
    ensures
        r@ == "Workflow '"@ + name@ + "' completed ("@ + spec_int_decimal(task_count as int) + " tasks)"@,
{
    let n = i64_decimal(task_count);
    let head = concat3("Workflow '", name, "' completed (");
    concat3(head.as_str(), n.as_str(), " tasks)")
}

/// The content of the memory of a completed workflow: the id and name
/// written between quotes as they are (not escaped), the final status and the
/// task count.
pub fn workflow_complete_content(workflow_id: &str, name: &str, task_count: i64) -> (r: String)
    ensures
        r@ == "{\"workflow_id\":\""@ + workflow_id@ + "\",\"workflow_name\":\""@ + name@
            + "\",\"final_status\":\"DONE\",\"task_count\":"@ + spec_int_decimal(task_count as int) + "}"@,
{
    let n = i64_decimal(task_count);
    let a = concat3("{\"workflow_id\":\"", workflow_id, "\",\"workflow_name\":\"");
    let b = concat3(a.as_str(), name, "\",\"final_status\":\"DONE\",\"task_count\":");
    concat3(b.as_str(), n.as_str(), "}")
}

} // verus!
