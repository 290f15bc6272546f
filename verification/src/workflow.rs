//! The workflow lifecycle state machine.
//!
//! A workflow moves through `INIT → ANALYZE → PLAN → EXECUTE → VERIFY → DONE`,
//! with `FIX`, `PAUSED` and `FAILED` as side states. Statuses are stored as
//! UPPERCASE strings; this module parses them, renders them, and decides which
//! moves between them are legal.
use vstd::prelude::*;
use crate::text::{chars_eq, chars_of};

verus! {

/// A workflow lifecycle state.
#[derive(Clone, Copy, Debug, PartialEq, Eq, Structural)]
pub enum WorkflowState {
    Init,
    Analyze,
    Plan,
    Execute,
    Verify,
    Fix,
    Done,
    Failed,
    Paused,
}

/// The legal direct moves of the state machine.
pub open spec fn transition_allowed(from: WorkflowState, to: WorkflowState) -> bool {
    match from {
        WorkflowState::Init => to == WorkflowState::Analyze || to == WorkflowState::Done
            || to == WorkflowState::Failed,
        WorkflowState::Analyze => to == WorkflowState::Plan || to == WorkflowState::Done,
        WorkflowState::Plan => to == WorkflowState::Execute || to == WorkflowState::Failed,
        WorkflowState::Execute => to == WorkflowState::Verify || to == WorkflowState::Fix
            || to == WorkflowState::Paused,
        WorkflowState::Verify => to == WorkflowState::Done || to == WorkflowState::Fix,
        WorkflowState::Fix => to == WorkflowState::Execute || to == WorkflowState::Done
            || to == WorkflowState::Failed,
        WorkflowState::Paused => to == WorkflowState::Execute || to == WorkflowState::Failed,
        WorkflowState::Done => false,
        WorkflowState::Failed => false,
    }
}

/// Terminal states: nothing leaves them.
pub open spec fn is_terminal(s: WorkflowState) -> bool {
    s == WorkflowState::Done || s == WorkflowState::Failed
}

/// The canonical UPPERCASE name of a state.
pub open spec fn state_name(s: WorkflowState) -> Seq<char> {
    match s {
        WorkflowState::Init => seq!['I', 'N', 'I', 'T'],
        WorkflowState::Analyze => seq!['A', 'N', 'A', 'L', 'Y', 'Z', 'E'],
        WorkflowState::Plan => seq!['P', 'L', 'A', 'N'],
        WorkflowState::Execute => seq!['E', 'X', 'E', 'C', 'U', 'T', 'E'],
        WorkflowState::Verify => seq!['V', 'E', 'R', 'I', 'F', 'Y'],
        WorkflowState::Fix => seq!['F', 'I', 'X'],
        WorkflowState::Done => seq!['D', 'O', 'N', 'E'],
        WorkflowState::Failed => seq!['F', 'A', 'I', 'L', 'E', 'D'],
        WorkflowState::Paused => seq!['P', 'A', 'U', 'S', 'E', 'D'],
    }
}

/// The state whose canonical name is exactly `name`, if any.
pub open spec fn state_named(name: Seq<char>) -> Option<WorkflowState> {
    if name == state_name(WorkflowState::Init) {
        Some(WorkflowState::Init)
    } else if name == state_name(WorkflowState::Analyze) {
        Some(WorkflowState::Analyze)
    } else if name == state_name(WorkflowState::Plan) {
        Some(WorkflowState::Plan)
    } else if name == state_name(WorkflowState::Execute) {
        Some(WorkflowState::Execute)
    } else if name == state_name(WorkflowState::Verify) {
        Some(WorkflowState::Verify)
    } else if name == state_name(WorkflowState::Fix) {
        Some(WorkflowState::Fix)
    } else if name == state_name(WorkflowState::Done) {
        Some(WorkflowState::Done)
    } else if name == state_name(WorkflowState::Failed) {
        Some(WorkflowState::Failed)
    } else if name == state_name(WorkflowState::Paused) {
        Some(WorkflowState::Paused)
    } else {
        None
    }
}

/// ASCII upper-casing of one character (other characters are unchanged).
pub open spec fn ascii_upper(c: char) -> char {
    if 'a' <= c && c <= 'z' {
        ((c as u32) - 32) as char
    } else {
        c
    }
}

/// ASCII upper-casing of a character sequence.
pub open spec fn ascii_upper_seq(s: Seq<char>) -> Seq<char> {
    s.map_values(|c: char| ascii_upper(c))
}

/// The state a stored status denotes: its ASCII upper-cased form must be a
/// canonical state name.
pub open spec fn parsed_state(status: Seq<char>) -> Option<WorkflowState> {
    state_named(ascii_upper_seq(status))
}

/// A path of states, each step a legal move from the one before.
pub open spec fn legal_path(from: WorkflowState, path: Seq<WorkflowState>) -> bool
    decreases path.len(),
{
    path.len() == 0 || (transition_allowed(from, path[0]) && legal_path(
        path[0],
        path.drop_first(),
    ))
}

/// The states walked to reach DONE automatically once every task is finished.
pub open spec fn done_path(s: WorkflowState) -> Seq<WorkflowState> {
    match s {
        WorkflowState::Execute => seq![WorkflowState::Verify, WorkflowState::Done],
        WorkflowState::Verify => seq![WorkflowState::Done],
        WorkflowState::Fix => seq![WorkflowState::Done],
        WorkflowState::Init => seq![WorkflowState::Done],
        WorkflowState::Analyze => seq![WorkflowState::Done],
        WorkflowState::Plan => seq![
            WorkflowState::Execute,
            WorkflowState::Verify,
            WorkflowState::Done,
        ],
        WorkflowState::Paused => seq![
            WorkflowState::Execute,
            WorkflowState::Verify,
            WorkflowState::Done,
        ],
        WorkflowState::Done => seq![],
        WorkflowState::Failed => seq![],
    }
}

fn upper_char(c: char) -> (r: char)
    ensures
        r == ascii_upper(c),
{
    if 'a' <= c && c <= 'z' {
        let b: u8 = c as u8;
        (b - 32) as char
    } else {
        c
    }
}

/// ASCII upper-cased characters of `s`.
pub fn ascii_upper_chars(s: &str) -> (v: Vec<char>)
    ensures
        v@ == ascii_upper_seq(s@),
{
    let cs = chars_of(s);
    let mut v: Vec<char> = Vec::new();
    let mut i: usize = 0;
    while i < cs.len()
        invariant
            cs@ == s@,
            i <= cs@.len(),
            v@ == ascii_upper_seq(cs@.take(i as int)),
        decreases cs@.len() - i,
    {
        v.push(upper_char(cs[i]));
        assert(ascii_upper_seq(cs@.take(i + 1)) =~= ascii_upper_seq(cs@.take(i as int)).push(
            ascii_upper(cs@[i as int]),
        ));
        i = i + 1;
    }
    assert(cs@.take(cs@.len() as int) =~= cs@);
    v
}

impl WorkflowState {
    /// Whether the state machine allows moving from `self` to `target`.
    pub fn can_transition_to(&self, target: &WorkflowState) -> (b: bool)
        ensures
            b == transition_allowed(*self, *target),
    {
        let t = *target;
        match self {
            WorkflowState::Init => t == WorkflowState::Analyze || t == WorkflowState::Done
                || t == WorkflowState::Failed,
            WorkflowState::Analyze => t == WorkflowState::Plan || t == WorkflowState::Done,
            WorkflowState::Plan => t == WorkflowState::Execute || t == WorkflowState::Failed,
            WorkflowState::Execute => t == WorkflowState::Verify || t == WorkflowState::Fix
                || t == WorkflowState::Paused,
            WorkflowState::Verify => t == WorkflowState::Done || t == WorkflowState::Fix,
            WorkflowState::Fix => t == WorkflowState::Execute || t == WorkflowState::Done
                || t == WorkflowState::Failed,
            WorkflowState::Paused => t == WorkflowState::Execute || t == WorkflowState::Failed,
            WorkflowState::Done => false,
            WorkflowState::Failed => false,
        }
    }
}

/// Renders a state as its canonical UPPERCASE status string.
pub fn workflow_state_str(state: &WorkflowState) -> (s: &'static str)
    ensures
        s@ == state_name(*state),
{
    match state {
        WorkflowState::Init => {
            proof {
                reveal_strlit("INIT");
            }
            "INIT"
        },
        WorkflowState::Analyze => {
            proof {
                reveal_strlit("ANALYZE");
            }
            "ANALYZE"
        },
        WorkflowState::Plan => {
            proof {
                reveal_strlit("PLAN");
            }
            "PLAN"
        },
        WorkflowState::Execute => {
            proof {
                reveal_strlit("EXECUTE");
            }
            "EXECUTE"
        },
        WorkflowState::Verify => {
            proof {
                reveal_strlit("VERIFY");
            }
            "VERIFY"
        },
        WorkflowState::Fix => {
            proof {
                reveal_strlit("FIX");
            }
            "FIX"
        },
        WorkflowState::Done => {
            proof {
                reveal_strlit("DONE");
            }
            "DONE"
        },
        WorkflowState::Failed => {
            proof {
                reveal_strlit("FAILED");
            }
            "FAILED"
        },
        WorkflowState::Paused => {
            proof {
                reveal_strlit("PAUSED");
            }
            "PAUSED"
        },
    }
}

fn name_is(name: &[char], state: WorkflowState) -> (r: bool)
    ensures
        r == (name@ == state_name(state)),
{
    let canon = chars_of(workflow_state_str(&state));
    chars_eq(name, canon.as_slice())
}

/// The state whose canonical name is exactly `name`.
fn state_from_chars(name: &[char]) -> (r: Option<WorkflowState>)
    ensures
        r == state_named(name@),
{
    if name_is(name, WorkflowState::Init) {
        Some(WorkflowState::Init)
    } else if name_is(name, WorkflowState::Analyze) {
        Some(WorkflowState::Analyze)
    } else if name_is(name, WorkflowState::Plan) {
        Some(WorkflowState::Plan)
    } else if name_is(name, WorkflowState::Execute) {
        Some(WorkflowState::Execute)
    } else if name_is(name, WorkflowState::Verify) {
        Some(WorkflowState::Verify)
    } else if name_is(name, WorkflowState::Fix) {
        Some(WorkflowState::Fix)
    } else if name_is(name, WorkflowState::Done) {
        Some(WorkflowState::Done)
    } else if name_is(name, WorkflowState::Failed) {
        Some(WorkflowState::Failed)
    } else if name_is(name, WorkflowState::Paused) {
        Some(WorkflowState::Paused)
    } else {
        None
    }
}

/// The state a status string names exactly (case-sensitive).
pub fn state_named_exactly(status: &str) -> (r: Option<WorkflowState>)
    ensures
        r == state_named(status@),
{
    let cs = chars_of(status);
    state_from_chars(cs.as_slice())
}

/// Parses a stored status string into a state, ignoring ASCII case.
/// Unknown statuses give `None`.
pub fn parse_workflow_state(status: &str) -> (r: Option<WorkflowState>)
    ensures
        r == parsed_state(status@),
{
    let up = ascii_upper_chars(status);
    state_from_chars(up.as_slice())
}

/// The legal path that walks a workflow from `state` to DONE; empty for the
/// terminal states DONE and FAILED.
pub fn auto_done_path(state: &WorkflowState) -> (path: Vec<WorkflowState>)
    ensures
        path@ == done_path(*state),
        !is_terminal(*state) ==> path@.len() > 0 && legal_path(*state, path@) && path@.last()
            == WorkflowState::Done,
        is_terminal(*state) ==> path@.len() == 0,
{
    proof {
        lemma_done_path_legal(*state);
    }
    match state {
        WorkflowState::Execute => vec![WorkflowState::Verify, WorkflowState::Done],
        WorkflowState::Verify => vec![WorkflowState::Done],
        WorkflowState::Fix => vec![WorkflowState::Done],
        WorkflowState::Init => vec![WorkflowState::Done],
        WorkflowState::Analyze => vec![WorkflowState::Done],
        WorkflowState::Plan => vec![
            WorkflowState::Execute,
            WorkflowState::Verify,
            WorkflowState::Done,
        ],
        WorkflowState::Paused => vec![
            WorkflowState::Execute,
            WorkflowState::Verify,
            WorkflowState::Done,
        ],
        WorkflowState::Done => vec![],
        WorkflowState::Failed => vec![],
    }
}

/// Every automatic path to DONE is a chain of legal moves that ends at DONE;
/// the terminal states DONE and FAILED have no such path.
pub proof fn lemma_done_path_legal(s: WorkflowState)
    ensures
        !is_terminal(s) ==> done_path(s).len() > 0 && legal_path(s, done_path(s)) && done_path(
            s,
        ).last() == WorkflowState::Done,
        is_terminal(s) ==> done_path(s).len() == 0,
{
    let p = done_path(s);
    if !is_terminal(s) {
        reveal_with_fuel(legal_path, 4);
        if p.len() == 1 {
            assert(p.drop_first() =~= Seq::<WorkflowState>::empty());
        } else if p.len() == 2 {
            assert(p.drop_first() =~= seq![WorkflowState::Done]);
            assert(p.drop_first().drop_first() =~= Seq::<WorkflowState>::empty());
        } else {
            assert(p.drop_first() =~= seq![WorkflowState::Verify, WorkflowState::Done]);
            assert(p.drop_first().drop_first() =~= seq![WorkflowState::Done]);
            assert(p.drop_first().drop_first().drop_first() =~= Seq::<WorkflowState>::empty());
        }
    }
}

/// The automatic walk to DONE once every task is finished: EXECUTE goes
/// through VERIFY; VERIFY, FIX, INIT and ANALYZE go straight to DONE; PLAN
/// and PAUSED go through EXECUTE and VERIFY; DONE and FAILED stay where they
/// are. No walk passes through FIX, FAILED or PAUSED.
pub proof fn lemma_done_path_table(s: WorkflowState)
    ensures
        done_path(WorkflowState::Execute) =~= seq![WorkflowState::Verify, WorkflowState::Done],
        done_path(WorkflowState::Verify) =~= seq![WorkflowState::Done],
        done_path(WorkflowState::Fix) =~= seq![WorkflowState::Done],
        done_path(WorkflowState::Init) =~= seq![WorkflowState::Done],
        done_path(WorkflowState::Analyze) =~= seq![WorkflowState::Done],
        done_path(WorkflowState::Plan) =~= seq![
            WorkflowState::Execute,
            WorkflowState::Verify,
            WorkflowState::Done,
        ],
        done_path(WorkflowState::Paused) =~= seq![
            WorkflowState::Execute,
            WorkflowState::Verify,
            WorkflowState::Done,
        ],
        done_path(WorkflowState::Done).len() == 0,
        done_path(WorkflowState::Failed).len() == 0,
        forall|i: int|
            0 <= i < done_path(s).len() ==> {
                let t = #[trigger] done_path(s)[i];
                t != WorkflowState::Fix && t != WorkflowState::Failed && t != WorkflowState::Paused
            },
{
}

/// ASCII lower-casing of one character (other characters are unchanged).
pub open spec fn ascii_lower(c: char) -> char {
    if 'A' <= c && c <= 'Z' {
        ((c as u32) + 32) as char
    } else {
        c
    }
}

/// A stored status names its state whatever the ASCII case of its letters:
/// the lower-case name and the canonical name parse to the same state.
pub proof fn lemma_parse_ignores_case(s: WorkflowState)
    ensures
        parsed_state(state_name(s).map_values(|c: char| ascii_lower(c))) == Some(s),
        parsed_state(state_name(s)) == Some(s),
{
    let n = state_name(s);
    let l = n.map_values(|c: char| ascii_lower(c));
    assert forall|i: int| 0 <= i < n.len() implies 'A' <= #[trigger] n[i] && n[i] <= 'Z' by {
        match s {
            WorkflowState::Init => {},
            WorkflowState::Analyze => {},
            WorkflowState::Plan => {},
            WorkflowState::Execute => {},
            WorkflowState::Verify => {},
            WorkflowState::Fix => {},
            WorkflowState::Done => {},
            WorkflowState::Failed => {},
            WorkflowState::Paused => {},
        }
    }
    assert(ascii_upper_seq(l) =~= n) by {
        assert forall|i: int| 0 <= i < n.len() implies #[trigger] ascii_upper_seq(l)[i] == n[i] by {
            assert('A' <= n[i] && n[i] <= 'Z');
            assert(l[i] == ascii_lower(n[i]));
        }
    }
    lemma_state_name_round_trip(s);
}

/// Terminal states admit no move at all.
pub proof fn lemma_terminal_states_are_final(s: WorkflowState, t: WorkflowState)
    requires
        is_terminal(s),
    ensures
        !transition_allowed(s, t),
{
}

/// Rendering a state and parsing the result gives the state back.
pub proof fn lemma_state_name_round_trip(s: WorkflowState)
    ensures
        parsed_state(state_name(s)) == Some(s),
        state_named(state_name(s)) == Some(s),
{
    assert(ascii_upper_seq(state_name(s)) =~= state_name(s));
}

/// Distinct states have distinct names.
pub proof fn lemma_state_names_distinct(s: WorkflowState, t: WorkflowState)
    requires
        s != t,
    ensures
        state_name(s) != state_name(t),
{
    lemma_state_name_round_trip(s);
    lemma_state_name_round_trip(t);
}

/// The moves of the workflow state machine: the main line INIT → ANALYZE →
/// PLAN → EXECUTE → VERIFY → DONE; early exits INIT → DONE, INIT → FAILED,
/// ANALYZE → DONE, PLAN → FAILED; EXECUTE → PAUSED and back, PAUSED →
/// FAILED; a failure in EXECUTE or VERIFY goes to FIX, and FIX goes back to
/// EXECUTE, or to DONE or FAILED. Nothing leaves DONE or FAILED, and nothing
/// else is a move.
pub proof fn lemma_transition_table(from: WorkflowState, to: WorkflowState)
    ensures
        transition_allowed(WorkflowState::Init, WorkflowState::Analyze),
        transition_allowed(WorkflowState::Analyze, WorkflowState::Plan),
        transition_allowed(WorkflowState::Plan, WorkflowState::Execute),
        transition_allowed(WorkflowState::Execute, WorkflowState::Verify),
        transition_allowed(WorkflowState::Verify, WorkflowState::Done),
        transition_allowed(WorkflowState::Init, WorkflowState::Done),
        transition_allowed(WorkflowState::Init, WorkflowState::Failed),
        transition_allowed(WorkflowState::Analyze, WorkflowState::Done),
        transition_allowed(WorkflowState::Plan, WorkflowState::Failed),
        transition_allowed(WorkflowState::Execute, WorkflowState::Paused),
        transition_allowed(WorkflowState::Paused, WorkflowState::Execute),
        transition_allowed(WorkflowState::Paused, WorkflowState::Failed),
        transition_allowed(WorkflowState::Execute, WorkflowState::Fix),
        transition_allowed(WorkflowState::Verify, WorkflowState::Fix),
        transition_allowed(WorkflowState::Fix, WorkflowState::Execute),
        transition_allowed(WorkflowState::Fix, WorkflowState::Done),
        transition_allowed(WorkflowState::Fix, WorkflowState::Failed),
        transition_allowed(from, to) ==> {
            ||| from == WorkflowState::Init && (to == WorkflowState::Analyze || to == WorkflowState::Done
                || to == WorkflowState::Failed)
            ||| from == WorkflowState::Analyze && (to == WorkflowState::Plan || to == WorkflowState::Done)
            ||| from == WorkflowState::Plan && (to == WorkflowState::Execute || to == WorkflowState::Failed)
            ||| from == WorkflowState::Execute && (to == WorkflowState::Verify || to == WorkflowState::Fix
                || to == WorkflowState::Paused)
            ||| from == WorkflowState::Verify && (to == WorkflowState::Done || to == WorkflowState::Fix)
            ||| from == WorkflowState::Fix && (to == WorkflowState::Execute || to == WorkflowState::Done
                || to == WorkflowState::Failed)
            ||| from == WorkflowState::Paused && (to == WorkflowState::Execute || to
                == WorkflowState::Failed)
        },
{
}

/// The stored name of each state, and the state each name denotes.
pub proof fn lemma_state_name_table()
    ensures
        state_name(WorkflowState::Init) == "INIT"@,
        state_named("INIT"@) == Some(WorkflowState::Init),
        state_name(WorkflowState::Analyze) == "ANALYZE"@,
        state_named("ANALYZE"@) == Some(WorkflowState::Analyze),
        state_name(WorkflowState::Plan) == "PLAN"@,
        state_named("PLAN"@) == Some(WorkflowState::Plan),
        state_name(WorkflowState::Execute) == "EXECUTE"@,
        state_named("EXECUTE"@) == Some(WorkflowState::Execute),
        state_name(WorkflowState::Verify) == "VERIFY"@,
        state_named("VERIFY"@) == Some(WorkflowState::Verify),
        state_name(WorkflowState::Fix) == "FIX"@,
        state_named("FIX"@) == Some(WorkflowState::Fix),
        state_name(WorkflowState::Done) == "DONE"@,
        state_named("DONE"@) == Some(WorkflowState::Done),
        state_name(WorkflowState::Failed) == "FAILED"@,
        state_named("FAILED"@) == Some(WorkflowState::Failed),
        state_name(WorkflowState::Paused) == "PAUSED"@,
        state_named("PAUSED"@) == Some(WorkflowState::Paused),
{
    reveal_strlit("INIT");
    reveal_strlit("ANALYZE");
    reveal_strlit("PLAN");
    reveal_strlit("EXECUTE");
    reveal_strlit("VERIFY");
    reveal_strlit("FIX");
    reveal_strlit("DONE");
    reveal_strlit("FAILED");
    reveal_strlit("PAUSED");
    assert("INIT"@ =~= state_name(WorkflowState::Init));
    lemma_state_name_round_trip(WorkflowState::Init);
    assert("ANALYZE"@ =~= state_name(WorkflowState::Analyze));
    lemma_state_name_round_trip(WorkflowState::Analyze);
    assert("PLAN"@ =~= state_name(WorkflowState::Plan));
    lemma_state_name_round_trip(WorkflowState::Plan);
    assert("EXECUTE"@ =~= state_name(WorkflowState::Execute));
    lemma_state_name_round_trip(WorkflowState::Execute);
    assert("VERIFY"@ =~= state_name(WorkflowState::Verify));
    lemma_state_name_round_trip(WorkflowState::Verify);
    assert("FIX"@ =~= state_name(WorkflowState::Fix));
    lemma_state_name_round_trip(WorkflowState::Fix);
    assert("DONE"@ =~= state_name(WorkflowState::Done));
    lemma_state_name_round_trip(WorkflowState::Done);
    assert("FAILED"@ =~= state_name(WorkflowState::Failed));
    lemma_state_name_round_trip(WorkflowState::Failed);
    assert("PAUSED"@ =~= state_name(WorkflowState::Paused));
    lemma_state_name_round_trip(WorkflowState::Paused);
}

} // verus!
