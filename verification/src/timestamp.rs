//! Stored timestamps: the database holds either RFC 3339 text or SQLite's
//! `datetime('now')` shape, and both are read as instants.
use vstd::prelude::*;

verus! {

/// An instant: seconds since the Unix epoch and the nanoseconds past that
/// second.
#[derive(Debug)]
pub struct Instant {
    pub secs: i64,
    pub nanos: u32,
}

/// The instant `chrono` reads from RFC 3339 text, as (seconds, nanoseconds)
/// since the epoch, or `None` when the text is not RFC 3339.
pub uninterp spec fn rfc3339_instant(raw: Seq<char>) -> Option<(i64, u32)>;

/// The instant `chrono` reads from text in a `strftime` format, taken as UTC,
/// or `None` when the text does not match.
pub uninterp spec fn naive_utc_instant(raw: Seq<char>, format: Seq<char>) -> Option<(i64, u32)>;

/// Parses RFC 3339 text with `chrono::DateTime::parse_from_rfc3339`; the
/// result is the parsed instant's Unix seconds and sub-second nanoseconds.
#[verifier::external_body]
fn parse_rfc3339(raw: &str) -> (r: Option<(i64, u32)>)
    ensures
        r == rfc3339_instant(raw@),
{
    match chrono::DateTime::parse_from_rfc3339(raw) {
        Ok(dt) => Some((dt.timestamp(), dt.timestamp_subsec_nanos())),
        Err(_) => None,
    }
}

/// Parses text in a `strftime` format with
/// `chrono::NaiveDateTime::parse_from_str`, reading it as UTC.
#[verifier::external_body]
fn parse_naive_utc(raw: &str, format: &str) -> (r: Option<(i64, u32)>)
    ensures
        r == naive_utc_instant(raw@, format@),
{
    match chrono::NaiveDateTime::parse_from_str(raw, format) {
        Ok(ndt) => {
            let dt = ndt.and_utc();
            Some((dt.timestamp(), dt.timestamp_subsec_nanos()))
        },
        Err(_) => None,
    }
}

/// The current time from `chrono::Utc::now`. It depends on the clock, so
/// nothing is stated of it.
#[verifier::external_body]
fn current_instant() -> (i64, u32) {
    let dt = chrono::Utc::now();
    (dt.timestamp(), dt.timestamp_subsec_nanos())
}

/// The format of SQLite's `datetime('now')`, fractional seconds allowed.
pub const SQLITE_DATETIME_FORMAT: &'static str = "%Y-%m-%d %H:%M:%S%.f";

/// The instant a stored timestamp stands for, given what each reading gave:
/// the RFC 3339 reading first, then the SQLite one, and the current time
/// when neither reads it (a malformed value counts as fresh).
pub fn pick_instant(rfc: Option<(i64, u32)>, sqlite: Option<(i64, u32)>, now: (i64, u32)) -> (r: Instant)
    ensures
        (r.secs, r.nanos) == match rfc {
            Some(t) => t,
            None => match sqlite {
                Some(t) => t,
                None => now,
            },
        },
{
    let (secs, nanos) = match rfc {
        Some(t) => t,
        None => match sqlite {
            Some(t) => t,
            None => now,
        },
    };
    Instant { secs, nanos }
}

/// Reads a stored timestamp: RFC 3339 first, then SQLite's
/// `datetime('now')` shape as UTC; text that is neither reads as the
/// current time.
pub fn parse_ts(raw: &str) -> (r: Instant)
    ensures
        rfc3339_instant(raw@) is Some ==> (r.secs, r.nanos) == rfc3339_instant(raw@).unwrap(),
        rfc3339_instant(raw@) is None && naive_utc_instant(raw@, SQLITE_DATETIME_FORMAT@) is Some
            ==> (r.secs, r.nanos) == naive_utc_instant(raw@, SQLITE_DATETIME_FORMAT@).unwrap(),
{
    let rfc = parse_rfc3339(raw);
    if rfc.is_some() {
        return pick_instant(rfc, None, (0, 0));
    }
    let sqlite = parse_naive_utc(raw, SQLITE_DATETIME_FORMAT);
    if sqlite.is_some() {
        return pick_instant(None, sqlite, (0, 0));
    }
    pick_instant(None, None, current_instant())
}

} // verus!
