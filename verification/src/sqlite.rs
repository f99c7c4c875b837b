//! The narrow, trusted interface to the embedded SQL engine.
//!
//! Everything in this module is believed rather than proved: each wrapper
//! holds one engine call, and its contract states no more than rusqlite's
//! own source and documentation show. All verified reasoning about engine
//! results happens in the callers, which treat those results as arbitrary
//! values satisfying only what is stated here.

use vstd::prelude::*;
use crate::values::BindValue;
use crate::values::SqlValue;

verus! {

#[verifier::external_type_specification]
#[verifier::external_body]
pub struct ExConnection(rusqlite::Connection);

#[verifier::external_type_specification]
#[verifier::external_body]
pub struct ExStatement<'conn>(rusqlite::Statement<'conn>);

#[verifier::external_type_specification]
#[verifier::external_body]
pub struct ExValueRef<'a>(rusqlite::types::ValueRef<'a>);

#[verifier::external_type_specification]
#[verifier::external_body]
pub struct ExOwnedValue(rusqlite::types::Value);

/// Relies on the derived Clone of rusqlite::types::Value, which copies the
/// value field for field.
pub assume_specification[ <rusqlite::types::Value as Clone>::clone ](
    v: &rusqlite::types::Value,
) -> (r: rusqlite::types::Value)
    ensures
        r == *v,
;

#[verifier::external_type_specification]
#[verifier::external_body]
pub struct ExSqliteError(rusqlite::Error);

#[verifier::external_type_specification]
#[verifier::external_body]
pub struct ExInterruptHandle(rusqlite::InterruptHandle);

/// Relies on rusqlite::Connection::open_in_memory: opens a connection to a
/// fresh, empty in-memory database, or fails with an engine error.
#[verifier::external_body]
pub(crate) fn conn_open_in_memory() -> (r: Result<rusqlite::Connection, rusqlite::Error>) {
    rusqlite::Connection::open_in_memory()
}

/// Relies on rusqlite::Connection::open: opens (creating it if absent) the
/// database file at `path`, or fails with an engine error.
#[verifier::external_body]
pub(crate) fn conn_open_path(path: &str) -> (r: Result<rusqlite::Connection, rusqlite::Error>) {
    rusqlite::Connection::open(path)
}

/// Relies on rusqlite::Connection::execute with no parameters: runs one SQL
/// statement, returning the count of rows it changed, and failing in
/// particular when the statement returns rows.
#[verifier::external_body]
pub(crate) fn conn_execute(conn: &rusqlite::Connection, sql: &str) -> (r: Result<
    usize,
    rusqlite::Error,
>) {
    conn.execute(sql, [])
}

/// Relies on rusqlite::Connection::execute with positional text parameters:
/// runs one SQL statement binding `args` in order.
#[verifier::external_body]
pub(crate) fn conn_execute_text_params(
    conn: &rusqlite::Connection,
    sql: &str,
    args: &Vec<String>,
) -> (r: Result<usize, rusqlite::Error>) {
    conn.execute(sql, rusqlite::params_from_iter(args.iter()))
}

/// Relies on rusqlite::Connection::query_row: runs `sql` with `arg` bound as
/// its single parameter and reads the first row's first column as text.
/// A query that returns no rows yields `Ok(None)` (rusqlite reports it as
/// `QueryReturnedNoRows`); any other engine failure is passed through.
/// While naming a column in an error, rusqlite's own `column_name` panics
/// on a column name that is not valid UTF-8, which only a database file
/// crafted outside this library can produce.
#[verifier::external_body]
pub(crate) fn conn_query_single_text(
    conn: &rusqlite::Connection,
    sql: &str,
    arg: &str,
) -> (r: Result<Option<String>, rusqlite::Error>) {
    match conn.query_row(sql, [arg], |row| row.get::<usize, String>(0)) {
        Ok(s) => Ok(Some(s)),
        Err(rusqlite::Error::QueryReturnedNoRows) => Ok(None),
        Err(e) => Err(e),
    }
}

/// Relies on rusqlite::Connection::prepare: compiles `sql` into a prepared
/// statement tied to this connection.
#[verifier::external_body]
pub(crate) fn conn_prepare<'c>(conn: &'c rusqlite::Connection, sql: &str) -> (r: Result<
    rusqlite::Statement<'c>,
    rusqlite::Error,
>) {
    conn.prepare(sql)
}

/// Relies on rusqlite::Statement::parameter_index and raw_bind_parameter:
/// binds `v` to the parameter called `name`, returning `Ok(false)` when the
/// statement has no parameter of that name.
#[verifier::external_body]
pub(crate) fn stmt_bind_named(
    stmt: &mut rusqlite::Statement<'_>,
    name: &str,
    v: &BindValue,
) -> (r: Result<bool, rusqlite::Error>) {
    let val = match v {
        BindValue::Null => rusqlite::types::Value::Null,
        BindValue::Integer(i) => rusqlite::types::Value::Integer(*i),
        BindValue::Real(x) => x.clone(),
        BindValue::Text(s) => rusqlite::types::Value::Text(s.clone()),
    };
    match stmt.parameter_index(name)? {
        Some(i) => stmt.raw_bind_parameter(i, val).map(|_| true),
        None => Ok(false),
    }
}

/// Relies on rusqlite::Statement::raw_execute: runs the statement with the
/// parameters bound so far, returning the count of rows it changed, and
/// failing in particular when the statement returns rows.
#[verifier::external_body]
pub(crate) fn stmt_raw_execute(stmt: &mut rusqlite::Statement<'_>) -> (r: Result<
    usize,
    rusqlite::Error,
>) {
    stmt.raw_execute()
}

/// Relies on rusqlite::Statement::raw_query and rusqlite::Rows::next: runs
/// the statement with the parameters bound so far and drains its rows, each
/// as the column's name paired with the column's value. rusqlite's own
/// `column_name` panics on a column name that is not valid UTF-8; such a
/// name can only come from a database file crafted outside this library.
#[verifier::external_body]
pub(crate) fn stmt_collect_rows(stmt: &mut rusqlite::Statement<'_>) -> (r: Result<
    Vec<Vec<(String, SqlValue)>>,
    rusqlite::Error,
>) {
    let mut out: Vec<Vec<(String, SqlValue)>> = Vec::new();
    let mut rows = stmt.raw_query();
    loop {
        match rows.next()? {
            None => return Ok(out),
            Some(row) => {
                let mut cols: Vec<(String, SqlValue)> = Vec::new();
                for i in 0..row.as_ref().column_count() {
                    let name = row.as_ref().column_name(i)?.to_owned();
                    cols.push((name, sql_value_from_ref(row.get_ref(i)?)));
                }
                out.push(cols);
            },
        }
    }
}

/// Relies on the shape of rusqlite::types::ValueRef: carries each engine
/// column value over to the core's value model, one variant to one variant.
/// Text that is not valid UTF-8 is carried over lossily.
#[verifier::external_body]
pub(crate) fn sql_value_from_ref(v: rusqlite::types::ValueRef<'_>) -> (r: SqlValue) {
    match v {
        rusqlite::types::ValueRef::Null => SqlValue::Null,
        rusqlite::types::ValueRef::Integer(i) => SqlValue::Integer(i),
        rusqlite::types::ValueRef::Real(x) => SqlValue::Float(x.to_bits()),
        rusqlite::types::ValueRef::Text(t) => SqlValue::Text(
            String::from_utf8_lossy(t).into_owned(),
        ),
        rusqlite::types::ValueRef::Blob(b) => SqlValue::Bytes(b.to_vec()),
    }
}

/// Relies on rusqlite::Connection::get_interrupt_handle: yields a handle,
/// safe to hold and call from other threads, whose `interrupt` aborts the
/// statement currently executing against this connection.
#[verifier::external_body]
pub(crate) fn conn_interrupt_handle(conn: &rusqlite::Connection) -> (r:
    rusqlite::InterruptHandle) {
    conn.get_interrupt_handle()
}

/// Relies on rusqlite::Error::SqliteFailure and the engine's error codes:
/// true exactly when the engine reported that the operation was interrupted.
#[verifier::external_body]
pub(crate) fn engine_error_is_interrupt(e: &rusqlite::Error) -> (r: bool) {
    if let rusqlite::Error::SqliteFailure(f, _) = e {
        f.code == rusqlite::ErrorCode::OperationInterrupted
    } else {
        false
    }
}

/// Relies on rusqlite::Error's Debug rendering: the engine-supplied text
/// that the core surfaces verbatim inside an `Unknown` failure.
#[verifier::external_body]
pub(crate) fn engine_error_text(e: &rusqlite::Error) -> (r: String) {
    format!("{:?}", e)
}

} // verus!
