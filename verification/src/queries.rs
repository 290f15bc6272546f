//! Request parameters turned into queries and stored values: the reminder
//! listing query, review decisions, and list paging.
use vstd::prelude::*;
use crate::text::{concat_str, str_eq};

verus! {

/// A value bound to a `?` placeholder.
#[derive(Debug)]
pub enum SqlValue {
    Text(String),
    Int(i64),
}

/// A query and the values for its placeholders, in order.
#[derive(Debug)]
pub struct SqlQuery {
    pub sql: String,
    pub binds: Vec<SqlValue>,
}

/// The listing query's fixed start.
pub const REMINDER_SELECT: &'static str = "SELECT id, workflow_id, reminder_type, severity, message, acknowledged FROM workflow_reminders WHERE 1=1";

/// The reminder listing query: filtered by workflow when one is named (a
/// non-empty id), by acknowledgement when asked, newest first, and limited
/// when a non-negative limit is given. Only fixed fragments enter the text;
/// every value is bound.
pub open spec fn reminder_sql(workflow_id: Seq<char>, acknowledged: Option<bool>, limit: Option<i64>) -> Seq<
    char,
> {
    REMINDER_SELECT@ + (if workflow_id.len() > 0 {
        " AND workflow_id = ?"@
    } else {
        Seq::empty()
    }) + (if acknowledged is Some {
        " AND acknowledged = ?"@
    } else {
        Seq::empty()
    }) + " ORDER BY created_at DESC"@ + (if limit is Some && limit.unwrap() >= 0 {
        " LIMIT ?"@
    } else {
        Seq::empty()
    })
}

/// The values bound to the listing query, as (is text, text, number).
pub open spec fn reminder_binds(workflow_id: Seq<char>, acknowledged: Option<bool>, limit: Option<i64>) -> Seq<
    SqlValueView,
> {
    (if workflow_id.len() > 0 {
        seq![SqlValueView::Text(workflow_id)]
    } else {
        Seq::empty()
    }) + (match acknowledged {
        Some(a) => seq![SqlValueView::Int(if a { 1 } else { 0 })],
        None => Seq::empty(),
    }) + (if limit is Some && limit.unwrap() >= 0 {
        seq![SqlValueView::Int(limit.unwrap())]
    } else {
        Seq::empty()
    })
}

/// A bound value as plain data.
pub enum SqlValueView {
    Text(Seq<char>),
    Int(i64),
}

pub open spec fn bind_view(v: SqlValue) -> SqlValueView {
    match v {
        SqlValue::Text(s) => SqlValueView::Text(s@),
        SqlValue::Int(n) => SqlValueView::Int(n),
    }
}

/// Builds the reminder listing query (see [`reminder_sql`] and
/// [`reminder_binds`]).
pub fn reminder_list_query(workflow_id: &str, acknowledged: Option<bool>, limit: Option<i64>) -> (r:
    SqlQuery)
    ensures
        r.sql@ == reminder_sql(workflow_id@, acknowledged, limit),
        r.binds@.map_values(|v: SqlValue| bind_view(v)) == reminder_binds(
            workflow_id@,
            acknowledged,
            limit,
        ),
{
    let mut sql = REMINDER_SELECT.to_string();
    let mut binds: Vec<SqlValue> = Vec::new();
    let ghost b0 = binds@.map_values(|v: SqlValue| bind_view(v));
    assert(b0 =~= Seq::<SqlValueView>::empty());
    if !workflow_id.is_empty() {
        sql.append(" AND workflow_id = ?");
        binds.push(SqlValue::Text(workflow_id.to_string()));
    }
    let ghost b1 = binds@.map_values(|v: SqlValue| bind_view(v));
    assert(b1 =~= if workflow_id@.len() > 0 {
        seq![SqlValueView::Text(workflow_id@)]
    } else {
        Seq::empty()
    });
    match acknowledged {
        Some(a) => {
            sql.append(" AND acknowledged = ?");
            binds.push(SqlValue::Int(if a { 1 } else { 0 }));
        },
        None => {},
    }
    let ghost b2 = binds@.map_values(|v: SqlValue| bind_view(v));
    assert(b2 =~= b1 + match acknowledged {
        Some(a) => seq![SqlValueView::Int(if a { 1 } else { 0 })],
        None => Seq::empty(),
    });
    sql.append(" ORDER BY created_at DESC");
    match limit {
        Some(n) => {
            if n >= 0 {
                sql.append(" LIMIT ?");
                binds.push(SqlValue::Int(n));
            }
        },
        None => {},
    }
    let ghost b3 = binds@.map_values(|v: SqlValue| bind_view(v));
    assert(b3 =~= b2 + if limit is Some && limit.unwrap() >= 0 {
        seq![SqlValueView::Int(limit.unwrap())]
    } else {
        Seq::empty()
    });
    assert(sql@ =~= reminder_sql(workflow_id@, acknowledged, limit));
    SqlQuery { sql, binds }
}

/// What `str::to_uppercase` makes of a string (Unicode upper case, which
/// may change a string's length).
pub uninterp spec fn unicode_upper(s: Seq<char>) -> Seq<char>;

/// Upper-cases a string with `str::to_uppercase`.
#[verifier::external_body]
fn to_upper(s: &str) -> (r: String)
    ensures
        r@ == unicode_upper(s@),
{
    s.to_uppercase()
}

/// The decisions a review may record.
pub open spec fn review_decision_allowed(d: Seq<char>) -> bool {
    d == "APPROVED"@ || d == "REWORK_REQUIRED"@ || d == "BLOCKED"@
}

/// A review records APPROVED, REWORK_REQUIRED or BLOCKED, and nothing else.
pub proof fn lemma_review_decision_table(d: Seq<char>)
    ensures
        review_decision_allowed("APPROVED"@),
        review_decision_allowed("REWORK_REQUIRED"@),
        review_decision_allowed("BLOCKED"@),
        !review_decision_allowed("approved"@),
        !review_decision_allowed(Seq::empty()),
        review_decision_allowed(d) ==> d == "APPROVED"@ || d == "REWORK_REQUIRED"@ || d
            == "BLOCKED"@,
{
    reveal_strlit("APPROVED");
    reveal_strlit("REWORK_REQUIRED");
    reveal_strlit("BLOCKED");
    reveal_strlit("approved");
    assert("approved"@[0] != "APPROVED"@[0]);
    assert(Seq::<char>::empty().len() == 0 && "APPROVED"@.len() > 0 && "REWORK_REQUIRED"@.len()
        > 0 && "BLOCKED"@.len() > 0);
}

/// Normalises a submitted review decision: its upper case when that is
/// `APPROVED`, `REWORK_REQUIRED` or `BLOCKED`; otherwise the error
/// `Invalid review decision: <as submitted>`.
pub fn review_decision(raw: &str) -> (r: Result<String, String>)
    ensures
        match r {
            Ok(d) => d@ == unicode_upper(raw@) && review_decision_allowed(d@),
            Err(e) => !review_decision_allowed(unicode_upper(raw@)) && e@
                == "Invalid review decision: "@ + raw@,
        },
{
    let d = to_upper(raw);
    if str_eq(d.as_str(), "APPROVED") || str_eq(d.as_str(), "REWORK_REQUIRED") || str_eq(
        d.as_str(),
        "BLOCKED",
    ) {
        Ok(d)
    } else {
        Err(concat_str("Invalid review decision: ", raw))
    }
}

/// The rows of one page of a listing: `(limit, offset)` for 1-based
/// `page` of `page_size` rows, each converted to the database's signed
/// integer as the listing does (`as i64`).
pub fn page_window(page: u64, page_size: u64) -> (r: (i64, i64))
    requires
        page >= 1,
        (page - 1) * page_size <= u64::MAX,
    ensures
        r.0 == page_size as i64,
        r.1 == ((page - 1) * page_size) as u64 as i64,
{
    let offset: u64 = (page - 1) * page_size;
    (page_size as i64, offset as i64)
}

} // verus!
