//! The PostgreSQL side: which database URL applies, when the pool is
//! created, and how an embedded migration script is cut into statements.
use vstd::prelude::*;
use crate::config::{trim, trim_char_end, trim_char_end_chars, trim_chars};
use crate::lines::{spec_lines, split_lines};
use crate::text::{chars_of, starts_with, starts_with_chars, string_from_chars, str_eq};

verus! {

/// The database URL: the `DATABASE_URL` variable when it is set (even if
/// empty), else the config's `database_url`, else empty.
pub fn database_url(env: Option<String>, config: Option<String>) -> (r: String)
    ensures
        r@ == match env {
            Some(e) => e@,
            None => match config {
                Some(c) => c@,
                None => Seq::<char>::empty(),
            },
        },
{
    match env {
        Some(e) => e,
        None => match config {
            Some(c) => c,
            None => String::new(),
        },
    }
}

/// Whether PostgreSQL is configured: a non-empty `DATABASE_URL`, or a
/// `database_url` in the config.
pub fn is_configured(env: Option<&str>, config_url: Option<&str>) -> (r: bool)
    ensures
        r == ((env is Some && env.unwrap()@.len() > 0) || config_url is Some),
{
    match env {
        Some(e) => {
            if !e.is_empty() {
                return true;
            }
        },
        None => {},
    }
    config_url.is_some()
}

/// Whether a mode is the standalone (SQLite-only) mode.
pub fn is_standalone(mode: &str) -> (r: bool)
    ensures
        r == (mode@ == "standalone"@),
{
    str_eq(mode, "standalone")
}

/// What a request for the pool does.
#[derive(Debug)]
pub enum PoolStep {
    /// Answer without a pool: standalone mode, no URL, or a connection
    /// already being made.
    NoPool,
    /// Answer with the pool that exists.
    UsePool,
    /// Start connecting in the background (once), and answer without a pool
    /// for now.
    StartInit,
}

/// Decides what a request for the pool does: nothing in standalone mode;
/// the pool when it exists; nothing without a URL; otherwise start the
/// background connection if none has started.
pub fn pool_step(standalone: bool, pool_exists: bool, url_empty: bool, init_started: bool) -> (r:
    PoolStep)
    ensures
        r is UsePool <==> (!standalone && pool_exists),
        r is StartInit <==> (!standalone && !pool_exists && !url_empty && !init_started),
{
    if standalone {
        PoolStep::NoPool
    } else if pool_exists {
        PoolStep::UsePool
    } else if url_empty || init_started {
        PoolStep::NoPool
    } else {
        PoolStep::StartInit
    }
}

/// How the pool status reports the PostgreSQL sync: asynchronous when
/// PostgreSQL is in use (not standalone and configured), disabled otherwise.
pub fn sync_mode(standalone: bool, configured: bool) -> (r: &'static str)
    ensures
        r@ == if !standalone && configured {
            "async"@
        } else {
            "disabled"@
        },
{
    if !standalone && configured {
        "async"
    } else {
        "disabled"
    }
}

/// Whether `s` ends with `c`.
pub open spec fn ends_with_char(s: Seq<char>, c: char) -> bool {
    s.len() > 0 && s.last() == c
}

/// The statement text a migration keeps for an accumulated chunk: trimmed,
/// its trailing `;` characters removed, trimmed again.
pub open spec fn statement_of(chunk: Seq<char>) -> Seq<char> {
    trim(trim_char_end(trim(chunk), ';'))
}

/// Cutting a migration into statements, line by line: blank lines and `--`
/// comment lines are skipped; other lines accumulate (each with a newline)
/// until one whose trimmed text ends with `;`, which closes a statement.
/// The state is the statements so far and the open chunk.
pub open spec fn split_step(state: (Seq<Seq<char>>, Seq<char>), line: Seq<char>) -> (
    Seq<Seq<char>>,
    Seq<char>,
) {
    let t = trim(line);
    if t.len() == 0 || starts_with(t, "--"@) {
        state
    } else {
        let chunk = state.1 + line + seq!['\n'];
        if ends_with_char(t, ';') {
            let stmt = statement_of(chunk);
            (if stmt.len() > 0 {
                state.0.push(stmt)
            } else {
                state.0
            }, Seq::empty())
        } else {
            (state.0, chunk)
        }
    }
}

/// The state after the first `n` lines.
pub open spec fn split_upto(ls: Seq<Seq<char>>, n: int) -> (Seq<Seq<char>>, Seq<char>)
    decreases n,
{
    if n <= 0 {
        (Seq::empty(), Seq::empty())
    } else {
        split_step(split_upto(ls, n - 1), ls[n - 1])
    }
}

/// The statements of a migration script: those closed by `;`, then what is
/// left open at the end, trimmed, when it is not blank.
pub open spec fn sql_statements(sql: Seq<char>) -> Seq<Seq<char>> {
    let ls = spec_lines(sql);
    let end = split_upto(ls, ls.len() as int);
    if trim(end.1).len() > 0 {
        end.0.push(trim(end.1))
    } else {
        end.0
    }
}

proof fn lemma_split_nonempty(ls: Seq<Seq<char>>, n: int)
    ensures
        forall|i: int| 0 <= i < split_upto(ls, n).0.len() ==> (#[trigger] split_upto(ls, n).0[i]).len() > 0,
    decreases n,
{
    if n > 0 {
        lemma_split_nonempty(ls, n - 1);
        let prev = split_upto(ls, n - 1);
        let cur = split_upto(ls, n);
        assert forall|i: int| 0 <= i < cur.0.len() implies (#[trigger] cur.0[i]).len() > 0 by {
            if i < prev.0.len() {
                assert(cur.0[i] == prev.0[i]);
            }
        }
    }
}

/// No statement a migration runs is empty.
pub proof fn lemma_statements_nonempty(sql: Seq<char>)
    ensures
        forall|i: int| 0 <= i < sql_statements(sql).len() ==> (#[trigger] sql_statements(sql)[i]).len() > 0,
{
    let ls = spec_lines(sql);
    lemma_split_nonempty(ls, ls.len() as int);
}

/// Cuts an embedded migration script into the statements it runs, as
/// [`sql_statements`] states.
pub fn split_sql_statements(sql: &str) -> (r: Vec<String>)
    ensures
        r@.map_values(|s: String| s@) == sql_statements(sql@),
{
    let ls = split_lines(sql);
    let ghost all = spec_lines(sql@);
    let dashes = chars_of("--");
    let mut statements: Vec<String> = Vec::new();
    let mut current: Vec<char> = Vec::new();
    let mut i: usize = 0;
    while i < ls.len()
        invariant
            all == spec_lines(sql@),
            ls@.len() == all.len(),
            forall|j: int| 0 <= j < ls@.len() ==> #[trigger] ls@[j]@ == all[j],
            dashes@ == "--"@,
            i <= ls@.len(),
            statements@.map_values(|s: String| s@) == split_upto(all, i as int).0,
            current@ == split_upto(all, i as int).1,
        decreases ls@.len() - i,
    {
        let line = &ls[i];
        let t = trim_chars(line.as_slice());
        let ghost prev = split_upto(all, i as int);
        assert(line@ == all[i as int]);
        if t.len() == 0 || starts_with_chars(t.as_slice(), dashes.as_slice()) {
            assert(split_upto(all, i + 1) == prev);
        } else {
            let mut j: usize = 0;
            let ghost before = current@;
            while j < line.len()
                invariant
                    j <= line@.len(),
                    current@ == before + line@.take(j as int),
                decreases line@.len() - j,
            {
                current.push(line[j]);
                assert(line@.take(j + 1) =~= line@.take(j as int).push(line@[j as int]));
                j = j + 1;
            }
            assert(line@.take(line@.len() as int) =~= line@);
            current.push('\n');
            let ghost chunk = current@;
            assert(chunk =~= prev.1 + line@ + seq!['\n']);
            if t[t.len() - 1] == ';' {
                assert(ends_with_char(t@, ';'));
                let a = trim_chars(current.as_slice());
                let b = trim_char_end_chars(a.as_slice(), ';');
                let stmt = trim_chars(b.as_slice());
                assert(stmt@ == statement_of(chunk));
                if stmt.len() > 0 {
                    let ghost old_views = statements@.map_values(|s: String| s@);
                    statements.push(string_from_chars(stmt.as_slice()));
                    assert(statements@.map_values(|s: String| s@) =~= old_views.push(stmt@));
                }
                current = Vec::new();
                assert(split_upto(all, i + 1).0 == (if stmt@.len() > 0 {
                    prev.0.push(stmt@)
                } else {
                    prev.0
                }));
            } else {
                assert(!ends_with_char(t@, ';'));
                assert(split_upto(all, i + 1) == (prev.0, chunk));
            }
        }
        proof {
            assert(current@ =~= split_upto(all, i + 1).1);
            assert(statements@.map_values(|s: String| s@) =~= split_upto(all, i + 1).0);
        }
        i = i + 1;
    }
    let rest = trim_chars(current.as_slice());
    if rest.len() > 0 {
        let ghost old_views = statements@.map_values(|s: String| s@);
        statements.push(string_from_chars(rest.as_slice()));
        assert(statements@.map_values(|s: String| s@) =~= old_views.push(rest@));
    }
    statements
}

/// Whether a migration statement counts as applied: it ran, or it failed
/// only because the object already exists.
pub fn migration_applied(error: Option<&str>) -> (r: bool)
    ensures
        r == match error {
            None => true,
            Some(e) => exists|k: int|
                0 <= k && k + 14 <= e@.len() && #[trigger] e@.subrange(k, k + 14)
                    == "already exists"@,
        },
{
    match error {
        None => true,
        Some(e) => contains_already_exists(e),
    }
}

fn contains_already_exists(e: &str) -> (r: bool)
    ensures
        r == exists|k: int|
            0 <= k && k + 14 <= e@.len() && #[trigger] e@.subrange(k, k + 14) == "already exists"@,
{
    proof {
        reveal_strlit("already exists");
    }
    let v = chars_of(e);
    let pat = chars_of("already exists");
    assert(pat@.len() == 14);
    let mut k: usize = 0;
    while k < v.len() && v.len() - k >= 14
        invariant
            v@ == e@,
            pat@ == "already exists"@,
            pat@.len() == 14,
            forall|m: int| 0 <= m < k && m + 14 <= e@.len() ==> #[trigger] e@.subrange(m, m + 14)
                != "already exists"@,
        decreases v@.len() - k,
    {
        let mut j: usize = 0;
        let mut same = true;
        while j < 14
            invariant
                v@ == e@,
                pat@.len() == 14,
                k + 14 <= v.len(),
                j <= 14,
                same == (forall|m: int| 0 <= m < j ==> v@[k + m] == pat@[m]),
            decreases 14 - j,
        {
            if v[k + j] != pat[j] {
                same = false;
            }
            j = j + 1;
        }
        if same {
            assert(e@.subrange(k as int, k + 14) =~= pat@);
            return true;
        }
        assert(e@.subrange(k as int, k + 14) != "already exists"@) by {
            let m = choose|m: int| 0 <= m < 14 && v@[k + m] != pat@[m];
            assert(e@.subrange(k as int, k + 14)[m] != pat@[m]);
        }
        k = k + 1;
    }
    false
}


/// The database status the readiness checks read.
#[derive(Debug)]
pub struct PoolStatus {
    pub mode: String,
    /// SQLite is always ready once the server runs.
    pub sqlite_ready: bool,
    /// A PostgreSQL pool exists.
    pub pg_ready: bool,
    /// PostgreSQL is in use: not standalone, and configured.
    pub pg_configured: bool,
    /// `async` when PostgreSQL is in use, `disabled` otherwise.
    pub sync: &'static str,
}

/// The database status for a mode, whether a pool exists, and whether
/// PostgreSQL is configured.
pub fn pool_status(mode: &str, pg_ready: bool, configured: bool) -> (r: PoolStatus)
    ensures
        r.mode@ == mode@,
        r.sqlite_ready,
        r.pg_ready == pg_ready,
        r.pg_configured == (mode@ != "standalone"@ && configured),
        r.sync@ == if mode@ != "standalone"@ && configured {
            "async"@
        } else {
            "disabled"@
        },
{
    let standalone = is_standalone(mode);
    PoolStatus {
        mode: mode.to_string(),
        sqlite_ready: true,
        pg_ready,
        pg_configured: !standalone && configured,
        sync: sync_mode(standalone, configured),
    }
}

} // verus!
