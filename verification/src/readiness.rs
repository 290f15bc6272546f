//! System readiness: the verdict of each check from what it observed, and
//! the overall verdict, warnings and errors from the checks.
use vstd::prelude::*;
use crate::json::{json_quote, json_string};
use crate::text::{concat3, concat_str, i64_decimal, push_char, spec_int_decimal, str_eq};

verus! {

/// One readiness check's outcome.
#[derive(Debug)]
pub struct ReadinessCheck {
    pub name: String,
    pub ready: bool,
    pub message: String,
    /// A critical check that is not ready makes the system not ready; an
    /// advisory one only warns.
    pub critical: bool,
}

fn check(name: &str, ready: bool, message: String, critical: bool) -> (r: ReadinessCheck)
    ensures
        r.name@ == name@,
        r.ready == ready,
        r.message@ == message@,
        r.critical == critical,
{
    ReadinessCheck { name: name.to_string(), ready, message, critical }
}

/// SQLite connectivity (`SELECT 1`), critical.
pub fn sqlite_connectivity_check(outcome: Result<(), String>) -> (r: ReadinessCheck)
    ensures
        r.name@ == "sqlite_connectivity"@,
        r.critical,
        r.ready == outcome is Ok,
        r.message@ == match outcome {
            Ok(_) => "SELECT 1 OK"@,
            Err(e) => "SELECT 1 failed: "@ + e@,
        },
{
    match outcome {
        Ok(_) => check("sqlite_connectivity", true, "SELECT 1 OK".to_string(), true),
        Err(e) => check("sqlite_connectivity", false, concat_str("SELECT 1 failed: ", e.as_str()), true),
    }
}

/// SQLite integrity (`PRAGMA quick_check`), critical: ready when the check
/// answers `ok`.
pub fn sqlite_integrity_check(outcome: Result<String, String>) -> (r: ReadinessCheck)
    ensures
        r.name@ == "sqlite_integrity"@,
        r.critical,
        r.ready == (outcome is Ok && outcome.unwrap()@ == "ok"@),
        r.message@ == match outcome {
            Ok(s) => if s@ == "ok"@ {
                "PRAGMA quick_check: ok"@
            } else {
                "Integrity issue: "@ + s@
            },
            Err(e) => "PRAGMA quick_check failed: "@ + e@,
        },
{
    match outcome {
        Ok(s) => {
            if str_eq(s.as_str(), "ok") {
                check("sqlite_integrity", true, "PRAGMA quick_check: ok".to_string(), true)
            } else {
                check("sqlite_integrity", false, concat_str("Integrity issue: ", s.as_str()), true)
            }
        },
        Err(e) => check(
            "sqlite_integrity",
            false,
            concat_str("PRAGMA quick_check failed: ", e.as_str()),
            true,
        ),
    }
}

/// The number of tables a complete schema has at least.
pub const EXPECTED_TABLES: i64 = 16;

/// SQLite schema completeness, advisory: ready with at least
/// [`EXPECTED_TABLES`] tables.
pub fn sqlite_schema_check(table_count: i64) -> (r: ReadinessCheck)
    ensures
        r.name@ == "sqlite_schema"@,
        !r.critical,
        r.ready == (table_count >= EXPECTED_TABLES),
        r.message@ == spec_int_decimal(table_count as int) + " tables found (expected 16+)"@,
{
    let n = i64_decimal(table_count);
    check(
        "sqlite_schema",
        table_count >= EXPECTED_TABLES,
        concat_str(n.as_str(), " tables found (expected 16+)"),
        false,
    )
}

/// The PostgreSQL pool, advisory: skipped in standalone mode; otherwise
/// ready when not configured or connected.
pub fn pg_pool_check(standalone: bool, configured: bool, pool_ready: bool) -> (r: ReadinessCheck)
    ensures
        r.name@ == "pg_pool"@,
        !r.critical,
        r.ready == (standalone || !configured || pool_ready),
        r.message@ == if standalone {
            "not configured (standalone mode)"@
        } else if !configured {
            "not configured"@
        } else if pool_ready {
            "pool connected"@
        } else {
            "pool not ready (sync may be delayed)"@
        },
{
    if standalone {
        check("pg_pool", true, "not configured (standalone mode)".to_string(), false)
    } else if !configured {
        check("pg_pool", true, "not configured".to_string(), false)
    } else if pool_ready {
        check("pg_pool", true, "pool connected".to_string(), false)
    } else {
        check("pg_pool", false, "pool not ready (sync may be delayed)".to_string(), false)
    }
}

/// The disk budget of `~/.masday/`: 500 MiB.
pub const DISK_THRESHOLD_BYTES: u64 = 524288000;

/// Whether the data directory is within its disk budget.
pub fn disk_within_budget(size_bytes: u64) -> (r: bool)
    ensures
        r == (size_bytes < DISK_THRESHOLD_BYTES),
{
    size_bytes < DISK_THRESHOLD_BYTES
}

/// `s` without its trailing `/` characters.
pub open spec fn trim_slashes_end(s: Seq<char>) -> Seq<char>
    decreases s.len(),
{
    if s.len() > 0 && s.last() == '/' {
        trim_slashes_end(s.drop_last())
    } else {
        s
    }
}

/// A URL without its trailing slashes (`str::trim_end_matches('/')`).
pub fn without_trailing_slashes(url: &str) -> (r: String)
    ensures
        r@ == trim_slashes_end(url@),
{
    let mut chars: Vec<char> = Vec::new();
    for c in it: url.chars()
        invariant
            it.seq() == url@,
            chars@ == url@.take(it.index() as int),
    {
        chars.push(c);
        proof {
            assert(url@.take(it.index() + 1) =~= url@.take(it.index() as int).push(c));
        }
    }
    assert(url@.take(url@.len() as int) =~= url@);
    let ghost full = chars@;
    while chars.len() > 0 && chars[chars.len() - 1] == '/'
        invariant
            trim_slashes_end(chars@) == trim_slashes_end(full),
        decreases chars@.len(),
    {
        chars.pop();
    }
    let mut out = String::new();
    let mut i: usize = 0;
    while i < chars.len()
        invariant
            i <= chars@.len(),
            out@ == chars@.take(i as int),
        decreases chars@.len() - i,
    {
        push_char(&mut out, chars[i]);
        assert(chars@.take(i + 1) =~= chars@.take(i as int).push(chars@[i as int]));
        i = i + 1;
    }
    assert(chars@.take(chars@.len() as int) =~= chars@);
    assert(trim_slashes_end(chars@) == chars@);
    out
}

/// The health endpoint of an API: its URL without trailing slashes, then
/// `/api/health`.
pub fn health_url(api_url: &str) -> (r: String)
    ensures
        r@ == trim_slashes_end(api_url@) + "/api/health"@,
{
    let base = without_trailing_slashes(api_url);
    concat_str(base.as_str(), "/api/health")
}

/// What probing the API health endpoint observed.
#[derive(Debug)]
pub enum HealthProbe {
    /// A success status.
    Healthy,
    /// Another status, as the HTTP client shows it.
    HttpStatus(String),
    /// The request did not get an answer.
    Unreachable(String),
    /// The HTTP client could not be built.
    ClientError(String),
}

/// The API health check, advisory: skipped in standalone mode and when no
/// API URL is configured; otherwise ready when the endpoint answers with
/// success.
pub fn api_health_check(standalone: bool, api_url: Option<&str>, probe: HealthProbe) -> (r: ReadinessCheck)
    ensures
        r.name@ == "api_health"@,
        !r.critical,
        r.ready == (standalone || api_url is None || probe is Healthy),
        r.message@ == if standalone {
            "not checked (standalone mode)"@
        } else {
            match api_url {
                None => "api_url not configured"@,
                Some(u) => match probe {
                    HealthProbe::Healthy => "API healthy ("@ + u@ + ")"@,
                    HealthProbe::HttpStatus(s) => "API returned HTTP "@ + s@,
                    HealthProbe::Unreachable(e) => "API unreachable: "@ + e@,
                    HealthProbe::ClientError(e) => "HTTP client error: "@ + e@,
                },
            }
        },
{
    if standalone {
        return check("api_health", true, "not checked (standalone mode)".to_string(), false);
    }
    match api_url {
        None => check("api_health", true, "api_url not configured".to_string(), false),
        Some(u) => match probe {
            HealthProbe::Healthy => check("api_health", true, concat3("API healthy (", u, ")"), false),
            HealthProbe::HttpStatus(s) => check(
                "api_health",
                false,
                concat_str("API returned HTTP ", s.as_str()),
                false,
            ),
            HealthProbe::Unreachable(e) => check(
                "api_health",
                false,
                concat_str("API unreachable: ", e.as_str()),
                false,
            ),
            HealthProbe::ClientError(e) => check(
                "api_health",
                false,
                concat_str("HTTP client error: ", e.as_str()),
                false,
            ),
        },
    }
}

/// The messages of the checks that are not ready and whose criticality is
/// `critical`, in order.
pub open spec fn failing_messages(checks: Seq<ReadinessCheck>, critical: bool) -> Seq<Seq<char>>
    decreases checks.len(),
{
    if checks.len() == 0 {
        Seq::empty()
    } else {
        failing_messages(checks.drop_last(), critical) + if !checks.last().ready
            && checks.last().critical == critical {
            seq![checks.last().message@]
        } else {
            Seq::empty()
        }
    }
}

/// The overall verdict of a set of checks.
#[derive(Debug)]
pub struct ReadinessSummary {
    /// Every critical check is ready.
    pub ready: bool,
    /// The messages of the advisory checks that are not ready.
    pub warnings: Vec<String>,
    /// The messages of the critical checks that are not ready.
    pub errors: Vec<String>,
}

pub open spec fn views(v: Seq<String>) -> Seq<Seq<char>> {
    v.map_values(|s: String| s@)
}

/// Summarises the checks: ready when every critical check is ready; each
/// check that is not ready contributes its message to the errors (critical)
/// or to the warnings (advisory), in the checks' order.
pub fn summarize(checks: &Vec<ReadinessCheck>) -> (r: ReadinessSummary)
    ensures
        r.ready == (forall|i: int| 0 <= i < checks@.len() ==> (#[trigger] checks@[i]).critical
            ==> checks@[i].ready),
        views(r.errors@) == failing_messages(checks@, true),
        views(r.warnings@) == failing_messages(checks@, false),
{
    let mut ready = true;
    let mut warnings: Vec<String> = Vec::new();
    let mut errors: Vec<String> = Vec::new();
    let mut i: usize = 0;
    while i < checks.len()
        invariant
            i <= checks@.len(),
            ready == (forall|j: int| 0 <= j < i ==> (#[trigger] checks@[j]).critical
                ==> checks@[j].ready),
            views(errors@) == failing_messages(checks@.take(i as int), true),
            views(warnings@) == failing_messages(checks@.take(i as int), false),
        decreases checks@.len() - i,
    {
        let c = &checks[i];
        proof {
            assert(checks@.take(i + 1).drop_last() =~= checks@.take(i as int));
            assert(checks@.take(i + 1).last() == checks@[i as int]);
        }
        if !c.ready {
            if c.critical {
                ready = false;
                errors.push(c.message.clone());
                assert(views(errors@) =~= failing_messages(checks@.take(i + 1), true));
                assert(views(warnings@) =~= failing_messages(checks@.take(i + 1), false));
            } else {
                warnings.push(c.message.clone());
                assert(views(errors@) =~= failing_messages(checks@.take(i + 1), true));
                assert(views(warnings@) =~= failing_messages(checks@.take(i + 1), false));
            }
        } else {
            assert(views(errors@) =~= failing_messages(checks@.take(i + 1), true));
            assert(views(warnings@) =~= failing_messages(checks@.take(i + 1), false));
        }
        i = i + 1;
    }
    assert(checks@.take(checks@.len() as int) =~= checks@);
    ReadinessSummary { ready, warnings, errors }
}

/// The system is ready exactly when no error is reported: a critical check
/// that is not ready always contributes an error, and nothing else does.
pub proof fn lemma_ready_iff_no_errors(checks: Seq<ReadinessCheck>)
    ensures
        (forall|i: int| 0 <= i < checks.len() ==> (#[trigger] checks[i]).critical ==> checks[i].ready)
            <==> failing_messages(checks, true).len() == 0,
    decreases checks.len(),
{
    if checks.len() > 0 {
        let d = checks.drop_last();
        lemma_ready_iff_no_errors(d);
        if forall|i: int| 0 <= i < checks.len() ==> (#[trigger] checks[i]).critical ==> checks[i].ready {
            assert forall|i: int| 0 <= i < d.len() && (#[trigger] d[i]).critical implies d[i].ready by {
                assert(d[i] == checks[i]);
            }
            assert(checks[checks.len() - 1] == checks.last());
        }
        if failing_messages(checks, true).len() == 0 {
            assert forall|i: int| 0 <= i < checks.len() && (#[trigger] checks[i]).critical implies checks[i].ready by {
                if i < checks.len() - 1 {
                    assert(d[i] == checks[i]);
                }
            }
        }
    }
}

/// Whether workflow changes may proceed: SQLite must answer, and its data
/// must be intact. The error quotes the failing check's message as a JSON
/// string.
pub fn readiness_gate(connectivity: &ReadinessCheck, integrity: &ReadinessCheck) -> (r: Result<(), String>)
    ensures
        match r {
            Ok(_) => connectivity.ready && integrity.ready,
            Err(e) => if !connectivity.ready {
                e@ == "SQLite not ready: "@ + json_string(connectivity.message@)
            } else {
                !integrity.ready && e@ == "SQLite integrity: "@ + json_string(integrity.message@)
            },
        },
{
    if !connectivity.ready {
        let q = json_quote(connectivity.message.as_str());
        return Err(concat_str("SQLite not ready: ", q.as_str()));
    }
    if !integrity.ready {
        let q = json_quote(integrity.message.as_str());
        return Err(concat_str("SQLite integrity: ", q.as_str()));
    }
    Ok(())
}

} // verus!
