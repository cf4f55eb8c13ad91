//! Session storage: the statements that start and confirm a session.
use vstd::prelude::*;
use crate::db::sql::{binds_view, SqlQuery, SqlValue, SqlValueView};
use crate::strings::to_owned_string;

verus! {

/// A stored session row.
#[derive(Debug)]
pub struct SessionDb {
    pub id: i64,
    pub address: String,
    pub sent_at: i64,
    pub expires_at: i64,
}

/// A session to start: the address, the code sent to it, and the times.
#[derive(Debug)]
pub struct InitSessionDb<'a> {
    pub address: &'a str,
    pub code: &'a str,
    pub sent_at: i64,
    pub expires_at: i64,
}

/// A session confirmation: the address and the code it received.
#[derive(Debug)]
pub struct ConfirmSessionDb<'a> {
    pub address: &'a str,
    pub code: &'a str,
}

/// Starting a session.
pub const SESSION_INSERT: &'static str = "INSERT INTO session (address, code, sent_at, expires_at) VALUES (?, ?, ?, ?) RETURNING id, address, code, sent_at, expires_at";

/// Finding the session of an address and code.
pub const SESSION_CONFIRM: &'static str = "SELECT id, address, sent_at, expires_at FROM session WHERE address = ? AND code = ?";

/// Store the address, code and times of a new session.
pub fn init_session_query(item: &InitSessionDb) -> (q: SqlQuery)
    ensures
        q.sql@ == SESSION_INSERT@,
        binds_view(q.binds@) == seq![
            SqlValueView::Text(item.address@),
            SqlValueView::Text(item.code@),
            SqlValueView::Int(item.sent_at as int),
            SqlValueView::Int(item.expires_at as int),
        ],
{
    let mut binds: Vec<SqlValue> = Vec::new();
    binds.push(SqlValue::Text(to_owned_string(item.address)));
    binds.push(SqlValue::Text(to_owned_string(item.code)));
    binds.push(SqlValue::Int(item.sent_at));
    binds.push(SqlValue::Int(item.expires_at));
    assert(binds_view(binds@) =~= seq![
        SqlValueView::Text(item.address@),
        SqlValueView::Text(item.code@),
        SqlValueView::Int(item.sent_at as int),
        SqlValueView::Int(item.expires_at as int),
    ]);
    SqlQuery { sql: to_owned_string(SESSION_INSERT), binds }
}

/// Find the session of an address by the code it received.
pub fn confirm_session_query(item: &ConfirmSessionDb) -> (q: SqlQuery)
    ensures
        q.sql@ == SESSION_CONFIRM@,
        binds_view(q.binds@) == seq![SqlValueView::Text(item.address@), SqlValueView::Text(item.code@)],
{
    let mut binds: Vec<SqlValue> = Vec::new();
    binds.push(SqlValue::Text(to_owned_string(item.address)));
    binds.push(SqlValue::Text(to_owned_string(item.code)));
    assert(binds_view(binds@) =~= seq![SqlValueView::Text(item.address@), SqlValueView::Text(item.code@)]);
    SqlQuery { sql: to_owned_string(SESSION_CONFIRM), binds }
}

} // verus!
