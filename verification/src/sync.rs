//! Local state sync: what pushing a workflow state file into the local
//! database does to each workflow and task, and what a sync back to disk
//! writes and reports.
use vstd::prelude::*;
use crate::client::{sanitize_id, valid_id};
use crate::text::{concat3, concat4, concat5, concat_str, i64_decimal, spec_int_decimal, str_eq};

verus! {

/// A JSON field as the sync reads it: `None` when the key is absent,
/// `Some(None)` when its value is not a string, `Some(Some(s))` otherwise.
pub type FieldText<'a> = Option<Option<&'a str>>;

/// The id a pushed workflow is stored under: the `id` field when the key is
/// there, else the `workflow_id` field; the file's stem when the chosen field
/// is not a string or neither key is there.
pub open spec fn chosen_workflow_id<'a>(id: FieldText<'a>, workflow_id: FieldText<'a>, file_stem: &'a str) -> &'a str {
    match id {
        Some(Some(s)) => s,
        Some(None) => file_stem,
        None => match workflow_id {
            Some(Some(s)) => s,
            _ => file_stem,
        },
    }
}

/// Picks the id a pushed workflow is stored under (see
/// [`chosen_workflow_id`]).
pub fn resolve_workflow_id<'a>(
    id: FieldText<'a>,
    workflow_id: FieldText<'a>,
    file_stem: &'a str,
) -> (r: &'a str)
    ensures
        r == chosen_workflow_id(id, workflow_id, file_stem),
{
    match id {
        Some(Some(s)) => s,
        Some(None) => file_stem,
        None => match workflow_id {
            Some(Some(s)) => s,
            _ => file_stem,
        },
    }
}

/// The workflow fields a state file carries, each when it is a string
/// (`metadata` as JSON text, when present at all).
pub struct WorkflowFields<'a> {
    pub name: Option<&'a str>,
    pub description: Option<&'a str>,
    pub status: Option<&'a str>,
    pub project_path_camel: Option<&'a str>,
    pub project_path_snake: Option<&'a str>,
    pub metadata: Option<&'a str>,
}

/// The project path of a state file: `projectPath`, else `project_path`.
pub open spec fn project_path_of<'a>(f: WorkflowFields<'a>) -> Option<&'a str> {
    match f.project_path_camel {
        Some(p) => Some(p),
        None => f.project_path_snake,
    }
}

/// A row to insert into `workflows`.
#[derive(Debug)]
pub struct WorkflowRow {
    pub id: String,
    pub name: String,
    pub description: Option<String>,
    pub status: String,
    pub project_path: Option<String>,
    pub metadata: String,
}

/// One column to set on an existing row.
#[derive(Debug)]
pub struct ColumnChange {
    pub column: String,
    pub value: String,
}

/// What pushing one workflow does to the `workflows` table.
#[derive(Debug)]
pub enum WorkflowPush {
    /// The id is unsafe: nothing is written, and this error is reported for
    /// the file.
    Rejected { file_stem: String, error: String },
    /// The workflow is new: insert this row.
    Insert(WorkflowRow),
    /// The workflow exists: set these columns, in order, each alone.
    Update { id: String, changes: Vec<ColumnChange> },
}

pub open spec fn opt_str<'a>(o: Option<&'a str>) -> Option<Seq<char>> {
    match o {
        Some(s) => Some(s@),
        None => None,
    }
}

pub open spec fn opt_string(o: Option<String>) -> Option<Seq<char>> {
    match o {
        Some(s) => Some(s@),
        None => None,
    }
}

/// The columns an update sets, in order: each of name, description, status,
/// project path and metadata that the file carries.
pub open spec fn update_columns<'a>(f: WorkflowFields<'a>) -> Seq<(Seq<char>, Seq<char>)> {
    (match f.name {
        Some(v) => seq![("name"@, v@)],
        None => Seq::empty(),
    }) + (match f.description {
        Some(v) => seq![("description"@, v@)],
        None => Seq::empty(),
    }) + (match f.status {
        Some(v) => seq![("status"@, v@)],
        None => Seq::empty(),
    }) + (match project_path_of(f) {
        Some(v) => seq![("project_path"@, v@)],
        None => Seq::empty(),
    }) + (match f.metadata {
        Some(v) => seq![("metadata"@, v@)],
        None => Seq::empty(),
    })
}

/// An update sets one column for each field the file carries, and each
/// column it sets holds that field's value: `name`, `description`, `status`,
/// `metadata` from the fields of the same names, and `project_path` from
/// `projectPath` or else `project_path`.
pub proof fn lemma_update_columns_carry(f: WorkflowFields)
    ensures
        update_columns(f).len() == (if f.name is Some { 1int } else { 0 }) + (if f.description is Some {
            1int
        } else {
            0
        }) + (if f.status is Some { 1int } else { 0 }) + (if project_path_of(f) is Some {
            1int
        } else {
            0
        }) + (if f.metadata is Some { 1int } else { 0 }),
        forall|i: int|
            0 <= i < update_columns(f).len() ==> {
                let (c, v) = #[trigger] update_columns(f)[i];
                ||| c == "name"@ && opt_str(f.name) == Some(v)
                ||| c == "description"@ && opt_str(f.description) == Some(v)
                ||| c == "status"@ && opt_str(f.status) == Some(v)
                ||| c == "project_path"@ && opt_str(project_path_of(f)) == Some(v)
                ||| c == "metadata"@ && opt_str(f.metadata) == Some(v)
            },
{
}

pub open spec fn change_view(c: ColumnChange) -> (Seq<char>, Seq<char>) {
    (c.column@, c.value@)
}

fn push_change(changes: &mut Vec<ColumnChange>, column: &str, value: &str)
    ensures
        final(changes)@.map_values(|c: ColumnChange| change_view(c)) == old(changes)@.map_values(
            |c: ColumnChange| change_view(c),
        ).push((column@, value@)),
{
    changes.push(ColumnChange { column: column.to_string(), value: value.to_string() });
    assert(final(changes)@.map_values(|c: ColumnChange| change_view(c)) =~= old(changes)@.map_values(
        |c: ColumnChange| change_view(c),
    ).push((column@, value@)));
}

fn push_opt(changes: &mut Vec<ColumnChange>, column: &str, value: Option<&str>)
    ensures
        final(changes)@.map_values(|c: ColumnChange| change_view(c)) == old(changes)@.map_values(
            |c: ColumnChange| change_view(c),
        ) + match value {
            Some(v) => seq![(column@, v@)],
            None => Seq::<(Seq<char>, Seq<char>)>::empty(),
        },
{
    match value {
        Some(v) => push_change(changes, column, v),
        None => {
            assert(old(changes)@.map_values(|c: ColumnChange| change_view(c)) =~= old(changes)@.map_values(
                |c: ColumnChange| change_view(c),
            ) + Seq::<(Seq<char>, Seq<char>)>::empty());
        },
    }
}

/// Decides what pushing one workflow does. An id that is not a safe id is
/// rejected with `Invalid workflow_id (contains disallowed characters)`. A
/// workflow not in the table is inserted with name `""`, status `INIT` and
/// metadata `{}` where the file has none; one that is, gets the columns of
/// [`update_columns`].
pub fn plan_workflow_push(
    workflow_id: &str,
    file_stem: &str,
    fields: &WorkflowFields,
    exists: bool,
) -> (r: WorkflowPush)
    ensures
        !valid_id(workflow_id@) <==> r is Rejected,
        match r {
            WorkflowPush::Rejected { file_stem: s, error } => s@ == file_stem@ && error@
                == "Invalid workflow_id (contains disallowed characters)"@,
            WorkflowPush::Insert(row) => !exists && row.id@ == workflow_id@ && row.name@ == (
            match fields.name {
                Some(n) => n@,
                None => ""@,
            }) && opt_string(row.description) == opt_str(fields.description) && row.status@ == (
            match fields.status {
                Some(s) => s@,
                None => "INIT"@,
            }) && opt_string(row.project_path) == opt_str(project_path_of(*fields))
                && row.metadata@ == (match fields.metadata {
                Some(m) => m@,
                None => "{}"@,
            }),
            WorkflowPush::Update { id, changes } => exists && id@ == workflow_id@
                && changes@.map_values(|c: ColumnChange| change_view(c)) == update_columns(
                *fields,
            ),
        },
{
    if sanitize_id(workflow_id).is_none() {
        return WorkflowPush::Rejected {
            file_stem: file_stem.to_string(),
            error: "Invalid workflow_id (contains disallowed characters)".to_string(),
        };
    }
    let project_path = match fields.project_path_camel {
        Some(p) => Some(p),
        None => fields.project_path_snake,
    };
    if !exists {
        let row = WorkflowRow {
            id: workflow_id.to_string(),
            name: match fields.name {
                Some(n) => n.to_string(),
                None => "".to_string(),
            },
            description: match fields.description {
                Some(d) => Some(d.to_string()),
                None => None,
            },
            status: match fields.status {
                Some(s) => s.to_string(),
                None => "INIT".to_string(),
            },
            project_path: match project_path {
                Some(p) => Some(p.to_string()),
                None => None,
            },
            metadata: match fields.metadata {
                Some(m) => m.to_string(),
                None => "{}".to_string(),
            },
        };
        return WorkflowPush::Insert(row);
    }
    let mut changes: Vec<ColumnChange> = Vec::new();
    assert(changes@.map_values(|c: ColumnChange| change_view(c)) =~= Seq::<
        (Seq<char>, Seq<char>),
    >::empty());
    push_opt(&mut changes, "name", fields.name);
    push_opt(&mut changes, "description", fields.description);
    push_opt(&mut changes, "status", fields.status);
    push_opt(&mut changes, "project_path", project_path);
    push_opt(&mut changes, "metadata", fields.metadata);
    assert(changes@.map_values(|c: ColumnChange| change_view(c)) =~= update_columns(*fields));
    WorkflowPush::Update { id: workflow_id.to_string(), changes }
}

/// Whether an updated workflow counts as pushed: when one of its columns was
/// set, or when no error at all has been recorded so far in this push.
pub fn counts_as_pushed(any_update_succeeded: bool, errors_so_far: usize) -> (r: bool)
    ensures
        r == (any_update_succeeded || errors_so_far == 0),
{
    any_update_succeeded || errors_so_far == 0
}

/// The task fields a state file carries, each when it is a string.
pub struct TaskFields<'a> {
    pub id: Option<&'a str>,
    pub status: Option<&'a str>,
    pub result: Option<&'a str>,
    pub output: Option<&'a str>,
}

/// The task columns a push sets: for a task with id and status that exists in
/// the table, its status, then its result and its output when present;
/// nothing otherwise (a task unknown to the table is skipped).
pub open spec fn task_columns<'a>(t: TaskFields<'a>, exists: bool) -> Seq<(Seq<char>, Seq<char>)> {
    if t.id is Some && t.status is Some && exists {
        seq![("status"@, t.status.unwrap()@)] + (match t.result {
            Some(v) => seq![("result"@, v@)],
            None => Seq::empty(),
        }) + (match t.output {
            Some(v) => seq![("output"@, v@)],
            None => Seq::empty(),
        })
    } else {
        Seq::empty()
    }
}

/// The columns a push sets on one task (see [`task_columns`]).
pub fn plan_task_push(task: &TaskFields, exists: bool) -> (r: Vec<ColumnChange>)
    ensures
        r@.map_values(|c: ColumnChange| change_view(c)) == task_columns(*task, exists),
{
    let mut changes: Vec<ColumnChange> = Vec::new();
    assert(changes@.map_values(|c: ColumnChange| change_view(c)) =~= Seq::<
        (Seq<char>, Seq<char>),
    >::empty());
    match (task.id, task.status) {
        (Some(_), Some(status)) => {
            if exists {
                push_change(&mut changes, "status", status);
                push_opt(&mut changes, "result", task.result);
                push_opt(&mut changes, "output", task.output);
                assert(changes@.map_values(|c: ColumnChange| change_view(c)) =~= task_columns(
                    *task,
                    exists,
                ));
            }
        },
        _ => {},
    }
    changes
}

/// How the push reports the background PostgreSQL sync.
pub fn pg_sync_label(pg_available: bool) -> (r: &'static str)
    ensures
        r@ == if pg_available {
            "background"@
        } else {
            "skipped_no_pool"@
        },
{
    if pg_available {
        "background"
    } else {
        "skipped_no_pool"
    }
}

/// The state file of a workflow: `<id>.json`.
pub fn state_file_name(workflow_id: &str) -> (r: String)
    ensures
        r@ == workflow_id@ + ".json"@,
{
    concat_str(workflow_id, ".json")
}

/// Whether a file in the state directory is a workflow state file: its
/// extension is `json`.
pub fn is_state_file(extension: Option<&str>) -> (r: bool)
    ensures
        r == (extension is Some && extension.unwrap()@ == "json"@),
{
    match extension {
        Some(e) => str_eq(e, "json"),
        None => false,
    }
}

/// What a sync request asks for.
#[derive(Debug)]
pub enum SyncTarget<'a> {
    /// No workflow named (or an empty name): sync every workflow.
    All,
    /// Sync this workflow.
    One(&'a str),
}

/// Decides what a sync request syncs: every workflow when none (or an empty
/// id) is given; the given one when it is a safe id; otherwise the error
/// `invalid workflow_id: contains disallowed characters`.
pub fn sync_target<'a>(workflow_id: Option<&'a str>) -> (r: Result<SyncTarget<'a>, String>)
    ensures
        match r {
            Ok(SyncTarget::All) => workflow_id is None || workflow_id.unwrap()@.len() == 0,
            Ok(SyncTarget::One(id)) => workflow_id == Some(id) && id@.len() > 0 && valid_id(id@),
            Err(e) => workflow_id is Some && workflow_id.unwrap()@.len() > 0 && !valid_id(
                workflow_id.unwrap()@,
            ) && e@ == "invalid workflow_id: contains disallowed characters"@,
        },
{
    match workflow_id {
        None => Ok(SyncTarget::All),
        Some(id) => {
            if id.is_empty() {
                Ok(SyncTarget::All)
            } else {
                match sanitize_id(id) {
                    Some(s) => Ok(SyncTarget::One(s)),
                    None => Err("invalid workflow_id: contains disallowed characters".to_string()),
                }
            }
        },
    }
}

/// Why syncing one workflow to disk failed, as the sync reports it.
#[derive(Debug)]
pub enum SyncFailure {
    InvalidId,
    NotFound,
    WriteFailed,
    SerializeFailed,
}

/// The report line of a workflow that could not be synced:
/// `<id>: <reason>`, with the underlying error where there is one.
pub fn sync_error(workflow_id: &str, failure: SyncFailure, detail: &str) -> (r: String)
    ensures
        r@ == workflow_id@ + match failure {
            SyncFailure::InvalidId => ": invalid workflow_id"@,
            SyncFailure::NotFound => ": not found in SQLite"@,
            SyncFailure::WriteFailed => ": write failed: "@ + detail@,
            SyncFailure::SerializeFailed => ": serialize failed: "@ + detail@,
        },
{
    match failure {
        SyncFailure::InvalidId => concat_str(workflow_id, ": invalid workflow_id"),
        SyncFailure::NotFound => concat_str(workflow_id, ": not found in SQLite"),
        SyncFailure::WriteFailed => concat3(workflow_id, ": write failed: ", detail),
        SyncFailure::SerializeFailed => concat3(workflow_id, ": serialize failed: ", detail),
    }
}

/// The file a plan is mirrored to: `<workflow>-v<version>.md`.
pub fn plan_file_name(workflow_id: &str, version: i64) -> (r: String)
    ensures
        r@ == workflow_id@ + "-v"@ + spec_int_decimal(version as int) + ".md"@,
{
    let v = i64_decimal(version);
    concat4(workflow_id, "-v", v.as_str(), ".md")
}

/// The report line of a plan that could not be mirrored:
/// `plan <plan> (wf <workflow>): <reason>`.
pub fn plan_sync_error(plan_id: &str, workflow_id: &str, reason: &str) -> (r: String)
    ensures
        r@ == "plan "@ + plan_id@ + " (wf "@ + workflow_id@ + "): "@ + reason@,
{
    let head = concat5("plan ", plan_id, " (wf ", workflow_id, "): ");
    concat_str(head.as_str(), reason)
}

/// The fields of a plan that its markdown shows; absent fields read as
/// defaults.
pub struct PlanFields<'a> {
    pub summary: Option<&'a str>,
    pub workflow_id: Option<&'a str>,
    pub version: Option<i64>,
    pub status: Option<&'a str>,
    pub created_by: Option<&'a str>,
    pub created_at: Option<&'a str>,
}

pub open spec fn or_default<'a>(o: Option<&'a str>, d: Seq<char>) -> Seq<char> {
    match o {
        Some(s) => s@,
        None => d,
    }
}

/// The markdown of a plan: its summary and version as title, a list of its
/// workflow, version, status, author and date, and its content (pretty JSON)
/// in a fenced block. A missing summary reads `(untitled plan)`, a missing
/// version `0`, other missing fields the empty string.
pub open spec fn plan_markdown_text<'a>(p: PlanFields<'a>, content_pretty: Seq<char>) -> Seq<char> {
    let version = spec_int_decimal(
        match p.version {
            Some(v) => v as int,
            None => 0,
        },
    );
    "# "@ + or_default(p.summary, "(untitled plan)"@) + " (v"@ + version + ")\n\n- **Workflow:** "@
        + or_default(p.workflow_id, ""@) + "\n- **Version:** "@ + version + "\n- **Status:** "@
        + or_default(p.status, ""@) + "\n- **Created by:** "@ + or_default(p.created_by, ""@)
        + "\n- **Created at:** "@ + or_default(p.created_at, ""@)
        + "\n\n## Content\n\n```json\n"@ + content_pretty + "\n```\n"@
}

fn str_or<'a>(o: Option<&'a str>, d: &'a str) -> (r: &'a str)
    ensures
        r@ == or_default(o, d@),
{
    match o {
        Some(s) => s,
        None => d,
    }
}

/// Renders a plan as the markdown mirrored to `.masday/plans/`.
pub fn render_plan_markdown(plan: &PlanFields, content_pretty: &str) -> (r: String)
    ensures
        r@ == plan_markdown_text(*plan, content_pretty@),
{
    let version_num: i64 = match plan.version {
        Some(v) => v,
        None => 0,
    };
    let version = i64_decimal(version_num);
    let summary = str_or(plan.summary, "(untitled plan)");
    let wf = str_or(plan.workflow_id, "");
    let status = str_or(plan.status, "");
    let created_by = str_or(plan.created_by, "");
    let created_at = str_or(plan.created_at, "");
    let a = concat5("# ", summary, " (v", version.as_str(), ")\n\n- **Workflow:** ");
    let b = concat5(a.as_str(), wf, "\n- **Version:** ", version.as_str(), "\n- **Status:** ");
    let c = concat5(b.as_str(), status, "\n- **Created by:** ", created_by, "\n- **Created at:** ");
    let d = concat5(c.as_str(), created_at, "\n\n## Content\n\n```json\n", content_pretty, "\n```\n");
    d
}


/// The largest number of memories one bulk push sends.
pub const MAX_BATCH_PER_PUSH: usize = 200;

/// What a bulk copy of memories between the two stores does.
#[derive(Debug)]
pub struct TransferPlan {
    /// The positions, among the source ids, of the memories to copy, in order.
    pub copy: Vec<usize>,
    /// How many considered memories the target already holds.
    pub skipped: usize,
    /// How many source memories are left for a later copy.
    pub remaining: usize,
}

/// Whether `id` is among `ids`.
pub open spec fn listed(ids: Seq<Seq<char>>, id: Seq<char>) -> bool {
    exists|j: int| 0 <= j < ids.len() && ids[j] == id
}

pub open spec fn string_views(v: Seq<String>) -> Seq<Seq<char>> {
    v.map_values(|s: String| s@)
}

/// The positions among the first `n` source ids that a copy takes: those
/// not already in the target (nor empty, when empty ids are skipped).
pub open spec fn copied_upto(source: Seq<Seq<char>>, existing: Seq<Seq<char>>, skip_empty: bool, n: int) -> Seq<usize>
    decreases n,
{
    if n <= 0 {
        Seq::empty()
    } else {
        copied_upto(source, existing, skip_empty, n - 1) + if (!skip_empty || source[n - 1].len() > 0) && !listed(
            existing,
            source[n - 1],
        ) {
            seq![(n - 1) as usize]
        } else {
            Seq::empty()
        }
    }
}

/// How many of the first `n` source ids the target already holds (not
/// counting empty ids, when they are skipped).
pub open spec fn skipped_upto(source: Seq<Seq<char>>, existing: Seq<Seq<char>>, skip_empty: bool, n: int) -> nat
    decreases n,
{
    if n <= 0 {
        0
    } else {
        skipped_upto(source, existing, skip_empty, n - 1) + if (!skip_empty || source[n - 1].len() > 0) && listed(
            existing,
            source[n - 1],
        ) {
            1nat
        } else {
            0nat
        }
    }
}

fn is_listed(ids: &[String], id: &str) -> (r: bool)
    ensures
        r == listed(string_views(ids@), id@),
{
    let ghost v = string_views(ids@);
    let mut j: usize = 0;
    while j < ids.len()
        invariant
            v == string_views(ids@),
            j <= ids@.len(),
            forall|k: int| 0 <= k < j ==> v[k] != id@,
        decreases ids@.len() - j,
    {
        if str_eq(ids[j].as_str(), id) {
            assert(v[j as int] == id@);
            return true;
        }
        j = j + 1;
    }
    false
}

pub proof fn lemma_skipped_bound(source: Seq<Seq<char>>, existing: Seq<Seq<char>>, skip_empty: bool, n: int)
    requires
        0 <= n <= source.len(),
    ensures
        skipped_upto(source, existing, skip_empty, n) <= n,
    decreases n,
{
    if n > 0 {
        lemma_skipped_bound(source, existing, skip_empty, n - 1);
    }
}

/// Plans a bulk copy of memories: of the source ids, at most `limit` are
/// considered (all when there is no limit); among those, empty ids are
/// ignored when `skip_empty`, ids the target already holds are counted as
/// skipped, and the rest are copied, in source order.
pub fn plan_transfer(source: &[String], existing: &[String], limit: Option<usize>, skip_empty: bool) -> (r: TransferPlan)
    ensures
        ({
            let n = match limit {
                Some(l) => if l < source@.len() { l as int } else { source@.len() as int },
                None => source@.len() as int,
            };
            &&& r.copy@ == copied_upto(string_views(source@), string_views(existing@), skip_empty, n)
            &&& r.skipped == skipped_upto(string_views(source@), string_views(existing@), skip_empty, n)
            &&& r.remaining == source@.len() - n
        }),
{
    let n: usize = match limit {
        Some(l) => if l < source.len() { l } else { source.len() },
        None => source.len(),
    };
    let ghost src = string_views(source@);
    let ghost ex = string_views(existing@);
    let mut copy: Vec<usize> = Vec::new();
    let mut skipped: usize = 0;
    let mut i: usize = 0;
    while i < n
        invariant
            n <= source@.len(),
            src == string_views(source@),
            ex == string_views(existing@),
            i <= n,
            copy@ == copied_upto(src, ex, skip_empty, i as int),
            skipped == skipped_upto(src, ex, skip_empty, i as int),
        decreases n - i,
    {
        proof {
            lemma_skipped_bound(src, ex, skip_empty, i as int);
        }
        let id = source[i].as_str();
        assert(src[i as int] == id@);
        if !skip_empty || !id.is_empty() {
            if is_listed(existing, id) {
                skipped = skipped + 1;
            } else {
                copy.push(i);
            }
        }
        assert(copy@ =~= copied_upto(src, ex, skip_empty, i + 1));
        i = i + 1;
    }
    TransferPlan { copy, skipped, remaining: source.len() - n }
}

} // verus!
