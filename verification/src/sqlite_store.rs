//! The local SQLite store: where its file lives, and how far the
//! embedding backfill goes.
use vstd::prelude::*;

verus! {

/// Where the database file is.
#[derive(Debug, PartialEq, Eq)]
pub enum DbLocation {
    /// The path `MASDAY_SQLITE_PATH` names.
    Path(String),
    /// `.masday/data.db` under this home directory.
    UnderHome(String),
}

/// The database's location: `MASDAY_SQLITE_PATH` when it is set, else
/// under `HOME`, else under `USERPROFILE`, else an error.
pub fn db_location(sqlite_path: Option<String>, home: Option<String>, userprofile: Option<String>) -> (r: Result<
    DbLocation,
    String,
>)
    ensures
        match sqlite_path {
            Some(p) => r matches Ok(DbLocation::Path(q)) && q@ == p@,
            None => match home {
                Some(h) => r matches Ok(DbLocation::UnderHome(q)) && q@ == h@,
                None => match userprofile {
                    Some(h) => r matches Ok(DbLocation::UnderHome(q)) && q@ == h@,
                    None => r matches Err(e) && e@
                        == "Cannot determine home directory: set HOME or MASYDAY_SQLITE_PATH"@,
                },
            },
        },
{
    match sqlite_path {
        Some(p) => Ok(DbLocation::Path(p)),
        None => match home {
            Some(h) => Ok(DbLocation::UnderHome(h)),
            None => match userprofile {
                Some(h) => Ok(DbLocation::UnderHome(h)),
                None => Err(String::from_str("Cannot determine home directory: set HOME or MASYDAY_SQLITE_PATH")),
            },
        },
    }
}

/// The number of memories fetched per backfill batch.
pub const BACKFILL_BATCH: usize = 50;

/// Whether the embedding backfill fetches another batch: it stops at an
/// empty batch, and once the total filled stays under one batch.
pub fn backfill_continues(batch_len: usize, filled_total: usize) -> (r: bool)
    ensures
        r == (batch_len > 0 && filled_total >= BACKFILL_BATCH),
{
    batch_len > 0 && filled_total >= BACKFILL_BATCH
}

} // verus!
