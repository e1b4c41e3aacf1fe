//! The SQLite connection, reduced to the four things the store asks of it:
//! open a file, run a script, run one statement, and read rows back as plain
//! values. What the database holds is on disk, so nothing is promised about
//! what a statement changes or a query returns; the store decides what each
//! answer means.

use vstd::prelude::*;
use crate::error::{AppError, is_internal_error};
use crate::text::push_decimal;

verus! {

#[verifier::external_type_specification]
#[verifier::external_body]
pub struct ExConnection(rusqlite::Connection);

#[verifier::external_type_specification]
#[verifier::external_body]
pub struct ExSqliteError(rusqlite::Error);

/// One SQL value as this schema uses them.
#[derive(Debug, Clone, PartialEq, Eq)]
pub enum SqlValue {
    Null,
    Integer(i64),
    Text(String),
    /// A value of a storage class this schema never writes.
    Unsupported,
}

/// What an SQL value is, as the store's contracts speak of it.
pub enum SqlModel {
    Null,
    Integer(i64),
    Text(Seq<char>),
    Unsupported,
}

impl View for SqlValue {
    type V = SqlModel;

    open spec fn view(&self) -> SqlModel {
        match self {
            SqlValue::Null => SqlModel::Null,
            SqlValue::Integer(n) => SqlModel::Integer(*n),
            SqlValue::Text(s) => SqlModel::Text(s@),
            SqlValue::Unsupported => SqlModel::Unsupported,
        }
    }
}

/// Parameters as values.
pub open spec fn models(params: Seq<SqlValue>) -> Seq<SqlModel> {
    params.map_values(|v: SqlValue| v@)
}

/// `rusqlite::Connection::open` on `path`.
#[verifier::external_body]
pub(crate) fn open_connection(path: &str) -> (r: Result<rusqlite::Connection, rusqlite::Error>) {
    rusqlite::Connection::open(path)
}

/// `Connection::execute_batch`: runs every statement of `sql`.
#[verifier::external_body]
pub(crate) fn execute_batch(conn: &rusqlite::Connection, sql: &str) -> (r: Result<(), rusqlite::Error>) {
    conn.execute_batch(sql)
}

#[verifier::external_type_specification]
#[verifier::external_body]
pub struct ExSqliteValue(rusqlite::types::Value);

/// The parameters as rusqlite values, one for one.
#[verifier::external_body]
fn bind(params: &Vec<SqlValue>) -> (r: Vec<rusqlite::types::Value>) {
    params.iter().map(|v| match v {
        SqlValue::Integer(i) => rusqlite::types::Value::Integer(*i),
        SqlValue::Text(s) => rusqlite::types::Value::Text(s.clone()),
        _ => rusqlite::types::Value::Null,
    }).collect()
}

#[verifier::external_type_specification]
#[verifier::external_body]
pub struct ExSqliteValueRef<'a>(rusqlite::types::ValueRef<'a>);

/// A cell as a plain value. Text that is not UTF-8, a real and a blob are
/// values this schema never writes: they read as `Unsupported`, which every
/// reader refuses with an error.
#[verifier::external_body]
fn plain(v: rusqlite::types::ValueRef<'_>) -> (r: SqlValue) {
    match v {
        rusqlite::types::ValueRef::Null => SqlValue::Null,
        rusqlite::types::ValueRef::Integer(n) => SqlValue::Integer(n),
        rusqlite::types::ValueRef::Text(t) => match std::str::from_utf8(t) {
            Ok(s) => SqlValue::Text(s.to_string()),
            Err(_) => SqlValue::Unsupported,
        },
        _ => SqlValue::Unsupported,
    }
}

/// `Connection::execute`: runs one statement with positional parameters and
/// returns how many rows it changed.
#[verifier::external_body]
pub(crate) fn execute(conn: &rusqlite::Connection, sql: &str, params: &Vec<SqlValue>) -> (r: Result<
    usize,
    rusqlite::Error,
>) {
    conn.execute(sql, rusqlite::params_from_iter(bind(params)))
}

/// `Connection::prepare` and `Statement::query_map`: every row the query
/// returns, in order, with its first `columns` columns read as plain values.
#[verifier::external_body]
pub(crate) fn query(conn: &rusqlite::Connection, sql: &str, params: &Vec<SqlValue>, columns: usize) -> (r:
    Result<Vec<Vec<SqlValue>>, rusqlite::Error>)
    ensures
        r matches Ok(rows) ==> forall|k: int| 0 <= k < rows@.len() ==> (#[trigger] rows@[k])@.len() == columns,
{
    let mut stmt = conn.prepare(sql)?;
    let rows = stmt.query_map(rusqlite::params_from_iter(bind(params)), |row| {
        (0..columns).map(|i| row.get_ref(i).map(plain)).collect()
    })?;
    rows.collect()
}

/// The `Display` text of a SQLite error.
#[verifier::external_body]
fn sqlite_error_text(e: &rusqlite::Error) -> (s: String) {
    e.to_string()
}

/// Whether SQLite reported a constraint violation (a `UNIQUE` or partial
/// unique index refusing a row).
#[verifier::external_body]
pub(crate) fn is_constraint_violation(e: &rusqlite::Error) -> (b: bool) {
    match e {
        rusqlite::Error::SqliteFailure(inner, _) => inner.code == rusqlite::ErrorCode::ConstraintViolation,
        _ => false,
    }
}

/// A database failure as the store reports it: an internal error prefixed
/// `sqlite: `.
pub fn db_error(e: &rusqlite::Error) -> (r: AppError)
    ensures
        r matches AppError::Internal { message } && message@.take(8) == "sqlite: "@,
{
    let text = sqlite_error_text(e);
    let mut m = String::from_str("sqlite: ");
    m.append(text.as_str());
    proof {
        reveal_strlit("sqlite: ");
        assert(m@.take(8) =~= "sqlite: "@);
    }
    AppError::internal(m.as_str())
}

pub open spec fn unreadable_message(column: nat) -> Seq<char> {
    "sqlite: unexpected value in result column "@ + crate::text::decimal(column)
}

fn unreadable(column: usize) -> (e: AppError)
    ensures
        is_internal_error(e, unreadable_message(column as nat)),
{
    let mut m = String::from_str("sqlite: unexpected value in result column ");
    push_decimal(&mut m, column as u64);
    AppError::internal(m.as_str())
}

/// The text in column `i` of `row`.
pub fn text_at(row: &Vec<SqlValue>, i: usize) -> (r: Result<String, AppError>)
    ensures
        match r {
            Ok(s) => i < row@.len() && row@[i as int] == SqlValue::Text(s),
            Err(e) => !(i < row@.len() && row@[i as int] is Text) && is_internal_error(e, unreadable_message(i as nat)),
        },
{
    if i < row.len() {
        match &row[i] {
            SqlValue::Text(s) => return Ok(s.clone()),
            _ => {},
        }
    }
    Err(unreadable(i))
}

/// The text in column `i` of `row`, or `None` for SQL `NULL`.
pub fn opt_text_at(row: &Vec<SqlValue>, i: usize) -> (r: Result<Option<String>, AppError>)
    ensures
        match r {
            Ok(Some(s)) => i < row@.len() && row@[i as int] == SqlValue::Text(s),
            Ok(None) => i < row@.len() && row@[i as int] is Null,
            Err(e) => !(i < row@.len() && (row@[i as int] is Text || row@[i as int] is Null))
                && is_internal_error(e, unreadable_message(i as nat)),
        },
{
    if i < row.len() {
        match &row[i] {
            SqlValue::Text(s) => return Ok(Some(s.clone())),
            SqlValue::Null => return Ok(None),
            _ => {},
        }
    }
    Err(unreadable(i))
}

/// The integer in column `i` of `row`.
pub fn int_at(row: &Vec<SqlValue>, i: usize) -> (r: Result<i64, AppError>)
    ensures
        match r {
            Ok(n) => i < row@.len() && row@[i as int] == SqlValue::Integer(n),
            Err(e) => !(i < row@.len() && row@[i as int] is Integer) && is_internal_error(e, unreadable_message(i as nat)),
        },
{
    if i < row.len() {
        match &row[i] {
            SqlValue::Integer(n) => return Ok(*n),
            _ => {},
        }
    }
    Err(unreadable(i))
}

/// The integer in column `i` of `row`, or `None` for SQL `NULL`.
pub fn opt_int_at(row: &Vec<SqlValue>, i: usize) -> (r: Result<Option<i64>, AppError>)
    ensures
        match r {
            Ok(Some(n)) => i < row@.len() && row@[i as int] == SqlValue::Integer(n),
            Ok(None) => i < row@.len() && row@[i as int] is Null,
            Err(e) => !(i < row@.len() && (row@[i as int] is Integer || row@[i as int] is Null))
                && is_internal_error(e, unreadable_message(i as nat)),
        },
{
    if i < row.len() {
        match &row[i] {
            SqlValue::Integer(n) => return Ok(Some(*n)),
            SqlValue::Null => return Ok(None),
            _ => {},
        }
    }
    Err(unreadable(i))
}

pub fn text(s: &str) -> (v: SqlValue)
    ensures
        v matches SqlValue::Text(t) && t@ == s@,
{
    SqlValue::Text(String::from_str(s))
}

pub fn opt_text(s: Option<&str>) -> (v: SqlValue)
    ensures
        match s {
            Some(t) => v matches SqlValue::Text(u) && u@ == t@,
            None => v is Null,
        },
{
    match s {
        Some(t) => SqlValue::Text(String::from_str(t)),
        None => SqlValue::Null,
    }
}

} // verus!
