//! Trusted boundary to the durable SQLite store, through `rusqlite`.
//!
//! Every function here is an `external_body` wrapper around one call into
//! the storage engine. What a call returns depends on what is on disk, so
//! no wrapper promises anything of its outcome: the verified store treats
//! every returned value as possible, keeps its own authoritative image of
//! the tables, and maps any storage error to
//! [`AuthError::StorageUnavailable`](crate::errors::AuthError).

use vstd::prelude::*;

verus! {

/// Declares `rusqlite::Connection`, the handle to the durable store, so
/// that it can stand in fields and signatures; it is opaque to the proofs.
#[verifier::external_type_specification]
#[verifier::external_body]
pub struct ExConnection(rusqlite::Connection);

/// Declares `rusqlite::Error`, the storage engine's error type; the store
/// maps every value of it to `AuthError::StorageUnavailable`.
#[verifier::external_type_specification]
#[verifier::external_body]
pub struct ExSqlError(rusqlite::Error);

/// Relies on `rusqlite::Connection::open`: opens (creating it if absent)
/// the database at `path`; the outcome depends on what is on disk.
#[verifier::external_body]
pub(crate) fn open_connection(path: &str) -> Result<rusqlite::Connection, rusqlite::Error> {
    rusqlite::Connection::open(path)
}

/// Relies on `rusqlite::Connection::execute_batch`: runs the statements of
/// `sql`, used once at startup to create the schema.
#[verifier::external_body]
pub(crate) fn exec_batch(conn: &rusqlite::Connection, sql: &str) -> Result<(), rusqlite::Error> {
    conn.execute_batch(sql)
}

/// Relies on `rusqlite::Connection::execute`: runs `sql` with one text
/// parameter, returning how many rows the statement changed.
#[verifier::external_body]
pub(crate) fn exec_sql1(conn: &rusqlite::Connection, sql: &str, a: &str) -> Result<
    usize,
    rusqlite::Error,
> {
    conn.execute(sql, (a,))
}

/// Relies on `rusqlite::Connection::execute`: runs `sql` with two text
/// parameters, returning how many rows the statement changed.
#[verifier::external_body]
pub(crate) fn exec_sql2(conn: &rusqlite::Connection, sql: &str, a: &str, b: &str) -> Result<
    usize,
    rusqlite::Error,
> {
    conn.execute(sql, (a, b))
}

/// Relies on `rusqlite::Connection::execute`: runs `sql` with four text
/// parameters, returning how many rows the statement changed.
#[verifier::external_body]
pub(crate) fn exec_sql4(
    conn: &rusqlite::Connection,
    sql: &str,
    a: &str,
    b: &str,
    c: &str,
    d: &str,
) -> Result<usize, rusqlite::Error> {
    conn.execute(sql, (a, b, c, d))
}

/// Relies on `rusqlite::Connection::execute`: runs `sql` with a username
/// and an absolute timestamp rendered as decimal text.
#[verifier::external_body]
pub(crate) fn exec_sql_time1(conn: &rusqlite::Connection, sql: &str, a: &str, t: u64) -> Result<
    usize,
    rusqlite::Error,
> {
    conn.execute(sql, (a, t.to_string()))
}

/// Relies on `rusqlite::Connection::execute`: runs `sql` with a username
/// and two absolute timestamps rendered as decimal text.
#[verifier::external_body]
pub(crate) fn exec_sql_time2(
    conn: &rusqlite::Connection,
    sql: &str,
    a: &str,
    t0: u64,
    t1: u64,
) -> Result<usize, rusqlite::Error> {
    conn.execute(sql, (a, t0.to_string(), t1.to_string()))
}

/// Relies on `rusqlite::Connection::prepare` and
/// `rusqlite::Statement::query_map`: runs a query of two text columns and
/// collects the rows.
#[verifier::external_body]
pub(crate) fn query_rows2(conn: &rusqlite::Connection, sql: &str) -> Result<
    Vec<(String, String)>,
    rusqlite::Error,
> {
    let mut stmt = conn.prepare(sql)?;
    let rows = stmt.query_map([], |row| Ok((row.get(0)?, row.get(1)?)))?;
    rows.collect()
}

/// Relies on `rusqlite::Connection::prepare` and
/// `rusqlite::Statement::query_map`: runs a query of three text columns and
/// collects the rows.
#[verifier::external_body]
pub(crate) fn query_rows3(conn: &rusqlite::Connection, sql: &str) -> Result<
    Vec<(String, String, String)>,
    rusqlite::Error,
> {
    let mut stmt = conn.prepare(sql)?;
    let rows = stmt.query_map([], |row| Ok((row.get(0)?, row.get(1)?, row.get(2)?)))?;
    rows.collect()
}

/// Relies on `rusqlite::Connection::prepare` and
/// `rusqlite::Statement::query_map`: runs a query of four text columns and
/// collects the rows.
#[verifier::external_body]
pub(crate) fn query_rows4(conn: &rusqlite::Connection, sql: &str) -> Result<
    Vec<(String, String, String, String)>,
    rusqlite::Error,
> {
    let mut stmt = conn.prepare(sql)?;
    let rows = stmt.query_map([], |row| Ok((row.get(0)?, row.get(1)?, row.get(2)?, row.get(3)?)))?;
    rows.collect()
}

} // verus!
