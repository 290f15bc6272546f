//! Matching a task to an agent of the capability registry by the words
//! they share.
use vstd::prelude::*;
use vstd::string::StringSliceAdditionalSpecFns;
use crate::features::{is_alphanumeric, to_lower, unicode_alphanumeric, unicode_lower};
use crate::text::{chars_eq, chars_of, string_from_chars};

verus! {

/// Cutting text at each character that is not alphanumeric: the pieces
/// completed so far, and the piece being read.
pub open spec fn cut(cs: Seq<char>) -> (Seq<Seq<char>>, Seq<char>)
    decreases cs.len(),
{
    if cs.len() == 0 {
        (Seq::empty(), Seq::empty())
    } else {
        let prev = cut(cs.drop_last());
        let c = cs.last();
        if unicode_alphanumeric(c) {
            (prev.0, prev.1.push(c))
        } else {
            (prev.0.push(prev.1), Seq::empty())
        }
    }
}

/// The pieces of text between its non-alphanumeric characters
/// (`str::split` with that predicate), empty ones included.
pub open spec fn pieces(cs: Seq<char>) -> Seq<Seq<char>> {
    cut(cs).0.push(cut(cs).1)
}

/// The length in bytes of the UTF-8 form of a piece, as `str::len` gives it.
pub open spec fn byte_len(w: Seq<char>) -> usize {
    vstd::utf8::encode_utf8(w).len() as usize
}

/// The pieces longer than two bytes in UTF-8.
pub open spec fn long_pieces(ps: Seq<Seq<char>>) -> Seq<Seq<char>>
    decreases ps.len(),
{
    if ps.len() == 0 {
        Seq::empty()
    } else {
        long_pieces(ps.drop_last()) + if byte_len(ps.last()) > 2 {
            seq![ps.last()]
        } else {
            Seq::empty()
        }
    }
}

/// The words of a text: the pieces of its lower case longer than two bytes.
pub open spec fn words(text: Seq<char>) -> Seq<Seq<char>> {
    long_pieces(pieces(unicode_lower(text)))
}

/// How many of the task's words (repeats included) are among the agent's
/// words.
pub open spec fn overlap(task: Seq<Seq<char>>, agent: Seq<Seq<char>>) -> nat
    decreases task.len(),
{
    if task.len() == 0 {
        0
    } else {
        overlap(task.drop_last(), agent) + if agent.contains(task.last()) {
            1nat
        } else {
            0nat
        }
    }
}

/// The agent with the most overlap among the first `n`: the first to reach
/// it, and only when it is above zero.
pub open spec fn best_upto(scores: Seq<nat>, n: int) -> Option<int>
    decreases n,
{
    if n <= 0 {
        None
    } else {
        let s = scores[n - 1];
        match best_upto(scores, n - 1) {
            None => if s > 0 {
                Some(n - 1)
            } else {
                None
            },
            Some(i) => if s > scores[i] {
                Some(n - 1)
            } else {
                Some(i)
            },
        }
    }
}

/// The agent a task is matched to: the one whose words cover the largest
/// share of the task's words (the first of equals), unless that share is
/// under one in twenty; `None` means the default orchestrator.
pub open spec fn matched_agent(task: Seq<char>, agents: Seq<Seq<char>>) -> Option<int> {
    let tw = words(task);
    let scores = Seq::new(agents.len(), |i: int| overlap(tw, words(agents[i])));
    match best_upto(scores, agents.len() as int) {
        Some(i) => if 20 * scores[i] < tw.len() {
            None
        } else {
            Some(i)
        },
        None => None,
    }
}

pub proof fn lemma_best_in_range(scores: Seq<nat>, n: int)
    requires
        n <= scores.len(),
    ensures
        best_upto(scores, n) matches Some(i) ==> 0 <= i < n && scores[i] > 0,
    decreases n,
{
    if n > 0 {
        lemma_best_in_range(scores, n - 1);
    }
}

/// The pick among the first `n` scores is the first of the highest, and there
/// is a pick exactly when some score is above zero.
pub proof fn lemma_best_is_first_maximum(scores: Seq<nat>, n: int)
    requires
        n <= scores.len(),
    ensures
        best_upto(scores, n) matches Some(i) ==> 0 <= i < n && scores[i] > 0 && (forall|j: int|
            0 <= j < n ==> #[trigger] scores[j] <= scores[i]) && (forall|j: int|
            0 <= j < i ==> #[trigger] scores[j] < scores[i]),
        best_upto(scores, n) is None ==> forall|j: int| 0 <= j < n ==> #[trigger] scores[j] == 0,
    decreases n,
{
    if n > 0 {
        lemma_best_is_first_maximum(scores, n - 1);
    }
}

/// The agent a task is matched to has the highest overlap with the task's
/// words, no agent before it has as much, and that overlap is at least one
/// twentieth of the task's words; with no match, the best overlap is under
/// that share (or no agent shares a word).
pub proof fn lemma_matched_agent_is_best(task: Seq<char>, agents: Seq<Seq<char>>)
    ensures
        matched_agent(task, agents) matches Some(i) ==> 0 <= i < agents.len() && overlap(
            words(task),
            words(agents[i]),
        ) > 0 && 20 * overlap(words(task), words(agents[i])) >= words(task).len() && (forall|
            j: int,
        |
            0 <= j < agents.len() ==> overlap(words(task), words(#[trigger] agents[j]))
                <= overlap(words(task), words(agents[i]))) && (forall|j: int|
            0 <= j < i ==> overlap(words(task), words(#[trigger] agents[j])) < overlap(
                words(task),
                words(agents[i]),
            )),
        matched_agent(task, agents) is None ==> forall|j: int|
            0 <= j < agents.len() ==> 20 * overlap(words(task), words(#[trigger] agents[j]))
                < words(task).len() || overlap(words(task), words(agents[j])) == 0,
{
    let tw = words(task);
    let scores = Seq::new(agents.len(), |i: int| overlap(tw, words(agents[i])));
    lemma_best_is_first_maximum(scores, agents.len() as int);
    match best_upto(scores, agents.len() as int) {
        Some(b) => {
            assert forall|j: int| 0 <= j < agents.len() implies overlap(tw, words(#[trigger] agents[j]))
                <= overlap(tw, words(agents[b])) by {
                assert(scores[j] <= scores[b]);
            }
            assert forall|j: int| 0 <= j < b implies overlap(tw, words(#[trigger] agents[j]))
                < overlap(tw, words(agents[b])) by {
                assert(scores[j] < scores[b]);
            }
            if 20 * scores[b] < tw.len() {
                assert forall|j: int| 0 <= j < agents.len() implies 20 * overlap(tw, words(
                    #[trigger] agents[j],
                )) < tw.len() || overlap(tw, words(agents[j])) == 0 by {
                    assert(scores[j] <= scores[b]);
                }
            }
        },
        None => {
            assert forall|j: int| 0 <= j < agents.len() implies 20 * overlap(tw, words(
                #[trigger] agents[j],
            )) < tw.len() || overlap(tw, words(agents[j])) == 0 by {
                assert(scores[j] == 0);
            }
        },
    }
}

pub proof fn lemma_overlap_bound(task: Seq<Seq<char>>, agent: Seq<Seq<char>>)
    ensures
        overlap(task, agent) <= task.len(),
    decreases task.len(),
{
    if task.len() > 0 {
        lemma_overlap_bound(task.drop_last(), agent);
    }
}

/// The words of `text`, as [`words`] states.
pub fn text_words(text: &str) -> (r: Vec<Vec<char>>)
    ensures
        r@.len() == words(text@).len(),
        forall|i: int| 0 <= i < r@.len() ==> #[trigger] r@[i]@ == words(text@)[i],
{
    let lower = to_lower(text);
    let cs = chars_of(lower.as_str());
    let ghost l = unicode_lower(text@);
    let mut out: Vec<Vec<char>> = Vec::new();
    let mut cur: Vec<char> = Vec::new();
    let mut i: usize = 0;
    assert(cs@.take(0) =~= Seq::<char>::empty());
    assert(long_pieces(cut(cs@.take(0)).0) =~= Seq::<Seq<char>>::empty());
    while i < cs.len()
        invariant
            cs@ == l,
            i <= cs@.len(),
            cur@ == cut(cs@.take(i as int)).1,
            out@.len() == long_pieces(cut(cs@.take(i as int)).0).len(),
            forall|k: int| 0 <= k < out@.len() ==> #[trigger] out@[k]@ == long_pieces(
                cut(cs@.take(i as int)).0,
            )[k],
        decreases cs@.len() - i,
    {
        let c = cs[i];
        let ghost before = cut(cs@.take(i as int));
        proof {
            assert(cs@.take(i + 1).drop_last() =~= cs@.take(i as int));
            assert(cs@.take(i + 1).last() == c);
        }
        if is_alphanumeric(c) {
            cur.push(c);
        } else {
            let piece = string_from_chars(cur.as_slice());
            let ghost done = before.0.push(before.1);
            assert(done.drop_last() =~= before.0);
            if piece.as_str().len() > 2 {
                let ghost old_out = out@;
                out.push(cur);
                assert forall|k: int| 0 <= k < out@.len() implies #[trigger] out@[k]@
                    == long_pieces(done)[k] by {
                    if k < old_out.len() {
                        assert(out@[k] == old_out[k]);
                    }
                }
            }
            cur = Vec::new();
        }
        i = i + 1;
    }
    assert(cs@.take(cs@.len() as int) =~= cs@);
    let ghost fin = cut(l);
    let ghost all = fin.0.push(fin.1);
    assert(all.drop_last() =~= fin.0);
    let last = string_from_chars(cur.as_slice());
    if last.as_str().len() > 2 {
        let ghost old_out = out@;
        out.push(cur);
        assert forall|k: int| 0 <= k < out@.len() implies #[trigger] out@[k]@ == long_pieces(all)[k] by {
            if k < old_out.len() {
                assert(out@[k] == old_out[k]);
            }
        }
    }
    out
}

fn contains_word(ws: &Vec<Vec<char>>, w: &Vec<char>, Ghost(spec_ws): Ghost<Seq<Seq<char>>>) -> (r: bool)
    requires
        ws@.len() == spec_ws.len(),
        forall|i: int| 0 <= i < ws@.len() ==> #[trigger] ws@[i]@ == spec_ws[i],
    ensures
        r == spec_ws.contains(w@),
{
    let mut i: usize = 0;
    while i < ws.len()
        invariant
            ws@.len() == spec_ws.len(),
            forall|k: int| 0 <= k < ws@.len() ==> #[trigger] ws@[k]@ == spec_ws[k],
            i <= ws@.len(),
            forall|k: int| 0 <= k < i ==> spec_ws[k] != w@,
        decreases ws@.len() - i,
    {
        if chars_eq(ws[i].as_slice(), w.as_slice()) {
            assert(spec_ws[i as int] == w@);
            return true;
        }
        i = i + 1;
    }
    false
}

/// How many of the task's words are among the agent's.
fn overlap_count(
    task: &Vec<Vec<char>>,
    agent: &Vec<Vec<char>>,
    Ghost(tw): Ghost<Seq<Seq<char>>>,
    Ghost(aw): Ghost<Seq<Seq<char>>>,
) -> (r: usize)
    requires
        task@.len() == tw.len(),
        forall|i: int| 0 <= i < task@.len() ==> #[trigger] task@[i]@ == tw[i],
        agent@.len() == aw.len(),
        forall|i: int| 0 <= i < agent@.len() ==> #[trigger] agent@[i]@ == aw[i],
    ensures
        r == overlap(tw, aw),
{
    let mut n: usize = 0;
    let mut i: usize = 0;
    assert(tw.take(0) =~= Seq::<Seq<char>>::empty());
    while i < task.len()
        invariant
            task@.len() == tw.len(),
            forall|k: int| 0 <= k < task@.len() ==> #[trigger] task@[k]@ == tw[k],
            agent@.len() == aw.len(),
            forall|k: int| 0 <= k < agent@.len() ==> #[trigger] agent@[k]@ == aw[k],
            i <= task@.len(),
            n == overlap(tw.take(i as int), aw),
        decreases task@.len() - i,
    {
        proof {
            assert(tw.take(i + 1).drop_last() =~= tw.take(i as int));
            assert(tw.take(i + 1).last() == tw[i as int]);
            lemma_overlap_bound(tw.take(i as int), aw);
        }
        if contains_word(agent, &task[i], Ghost(aw)) {
            n = n + 1;
        }
        i = i + 1;
    }
    assert(tw.take(task@.len() as int) =~= tw);
    n
}

/// Matches a task description to one of the agents, each given as the text
/// of its name, role, description and category: the index of the agent of
/// [`matched_agent`], or `None` for the default orchestrator.
pub fn match_agent(task: &str, agents: &[String]) -> (r: Option<usize>)
    ensures
        match r {
            Some(i) => matched_agent(task@, agents@.map_values(|a: String| a@)) == Some(i as int),
            None => matched_agent(task@, agents@.map_values(|a: String| a@)) is None,
        },
{
    let ghost av = agents@.map_values(|a: String| a@);
    let tw = text_words(task);
    let ghost tws = words(task@);
    let ghost scores = Seq::new(av.len(), |i: int| overlap(tws, words(av[i])));
    let mut best: Option<usize> = None;
    let mut best_score: usize = 0;
    let mut i: usize = 0;
    while i < agents.len()
        invariant
            av == agents@.map_values(|a: String| a@),
            tws == words(task@),
            scores == Seq::new(av.len(), |i: int| overlap(tws, words(av[i]))),
            tw@.len() == tws.len(),
            forall|k: int| 0 <= k < tw@.len() ==> #[trigger] tw@[k]@ == tws[k],
            i <= agents@.len(),
            best matches Some(b) ==> best_upto(scores, i as int) == Some(b as int) && best_score
                == scores[b as int],
            best is None ==> best_upto(scores, i as int) is None && best_score == 0,
        decreases agents@.len() - i,
    {
        let aw = text_words(agents[i].as_str());
        let ghost aws = words(av[i as int]);
        assert(agents@[i as int]@ == av[i as int]);
        let s = overlap_count(&tw, &aw, Ghost(tws), Ghost(aws));
        assert(s == scores[i as int]);
        if s > best_score {
            best = Some(i);
            best_score = s;
        }
        i = i + 1;
    }
    proof {
        lemma_best_in_range(scores, av.len() as int);
    }
    match best {
        Some(b) => {
            proof {
                lemma_overlap_bound(tws, words(av[b as int]));
            }
            if best_score < tw.len() / 20 + if tw.len() % 20 == 0 { 0 } else { 1 } {
                None
            } else {
                Some(b)
            }
        },
        None => None,
    }
}

} // verus!
