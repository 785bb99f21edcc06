//! The SQLite boundary. Everything the storage modules send to or read from
//! the database goes through the handful of trusted items in this file; the
//! values that cross it are plain library types (`SqlParam`, `SqlValue`,
//! `DbError`).

use vstd::prelude::*;

verus! {

/// The connection to an SQLite database, opened by `rusqlite`.
#[verifier::external_type_specification]
#[verifier::external_body]
pub struct ExConnection(rusqlite::Connection);

/// An open transaction on a connection; rolled back when dropped uncommitted.
#[verifier::external_type_specification]
#[verifier::external_body]
pub struct ExTransaction<'conn>(rusqlite::Transaction<'conn>);

/// A prepared statement.
#[verifier::external_type_specification]
#[verifier::external_body]
pub struct ExStatement<'conn>(rusqlite::Statement<'conn>);

/// One result row of a running statement.
#[verifier::external_type_specification]
#[verifier::external_body]
pub struct ExRow<'stmt>(rusqlite::Row<'stmt>);

/// An owned value bound to a statement parameter.
#[verifier::external_type_specification]
#[verifier::external_body]
pub struct ExValue(rusqlite::types::Value);

/// An error reported by `rusqlite` or SQLite.
#[verifier::external_type_specification]
#[verifier::external_body]
pub struct ExError(rusqlite::Error);

/// A value bound to a `?N` placeholder of a statement.
#[derive(Debug, PartialEq, Eq)]
pub enum SqlParam {
    Null,
    Integer(i64),
    Text(String),
}

/// One column of a result row, as SQLite stored it. `Other` stands for a
/// REAL or BLOB value (or text that is not UTF-8), which no query of the
/// library reads as text or integer.
#[derive(Debug, PartialEq, Eq)]
pub enum SqlValue {
    Null,
    Integer(i64),
    Text(String),
    Other,
}

impl Clone for SqlParam {
    fn clone(&self) -> (r: Self)
        ensures
            r == *self,
    {
        match self {
            SqlParam::Null => SqlParam::Null,
            SqlParam::Integer(i) => SqlParam::Integer(*i),
            SqlParam::Text(s) => SqlParam::Text(s.clone()),
        }
    }
}

impl Clone for SqlValue {
    fn clone(&self) -> (r: Self)
        ensures
            r == *self,
    {
        match self {
            SqlValue::Null => SqlValue::Null,
            SqlValue::Integer(i) => SqlValue::Integer(*i),
            SqlValue::Text(s) => SqlValue::Text(s.clone()),
            SqlValue::Other => SqlValue::Other,
        }
    }
}

/// An error reported by the database, carried as its display text.
#[derive(Debug, PartialEq, Eq)]
pub struct DbError {
    pub message: String,
}

/// Why a multi-row query produced no rows at all: the statement did not
/// prepare, or it did not start.
#[derive(Debug, PartialEq, Eq)]
pub enum QueryFailure {
    Prepare(DbError),
    Run(DbError),
}

/// Reads a column as `rusqlite` reads an `i64`: only an INTEGER value succeeds.
pub open spec fn spec_as_i64(v: SqlValue) -> Option<i64> {
    match v {
        SqlValue::Integer(i) => Some(i),
        _ => None,
    }
}

/// Reads a column as `rusqlite` reads a `String`: only a TEXT value succeeds.
pub open spec fn spec_as_text(v: SqlValue) -> Option<Seq<char>> {
    match v {
        SqlValue::Text(s) => Some(s@),
        _ => None,
    }
}

/// Column `i` of `row`, or `Null` where the row is shorter.
pub open spec fn spec_col(row: Seq<SqlValue>, i: int) -> SqlValue {
    if 0 <= i < row.len() { row[i] } else { SqlValue::Null }
}

pub fn col(row: &Vec<SqlValue>, i: usize) -> (r: SqlValue)
    ensures
        r == spec_col(row@, i as int),
{
    if i < row.len() {
        row[i].clone()
    } else {
        SqlValue::Null
    }
}

pub fn as_i64(v: &SqlValue) -> (r: Option<i64>)
    ensures
        r == spec_as_i64(*v),
{
    match v {
        SqlValue::Integer(i) => Some(*i),
        _ => None,
    }
}

pub fn as_text(v: &SqlValue) -> (r: Option<String>)
    ensures
        r matches Some(s) ==> spec_as_text(*v) == Some(s@),
        r is None ==> spec_as_text(*v) is None,
{
    match v {
        SqlValue::Text(s) => Some(s.clone()),
        _ => None,
    }
}

/// An error reported as `prefix` followed by the database's message.
pub fn prefixed(prefix: &str, e: DbError) -> (r: String)
    ensures
        r@ == prefix@ + e.message@,
{
    let mut out = String::new();
    crate::text::push_str(&mut out, prefix);
    crate::text::push_str(&mut out, e.message.as_str());
    out
}

/// The first column of a `query_row` reply read as an integer, where the
/// query succeeded and the column holds one.
pub open spec fn spec_reply_i64(reply: Result<Vec<SqlValue>, DbError>) -> Option<i64> {
    match reply {
        Ok(row) => spec_as_i64(spec_col(row@, 0)),
        Err(_) => None,
    }
}

pub fn reply_i64(reply: &Result<Vec<SqlValue>, DbError>) -> (r: Option<i64>)
    ensures
        r == spec_reply_i64(*reply),
{
    match reply {
        Ok(row) => as_i64(&col(row, 0)),
        Err(_) => None,
    }
}

// ---------------------------------------------------------------- trusted calls

/// `<rusqlite::Error as Display>::to_string`: the error's message, which
/// the error decides: not stated.
#[verifier::external_body]
fn error_message(e: &rusqlite::Error) -> (r: String) {
    e.to_string()
}

/// A parameter as `rusqlite` binds it: each variant becomes the
/// `rusqlite::types::Value` variant of the same name, holding the same
/// integer or text. The value is opaque to the library: nothing is stated.
#[verifier::external_body]
fn param_value(p: &SqlParam) -> (r: rusqlite::types::Value) {
    match p {
        SqlParam::Null => rusqlite::types::Value::Null,
        SqlParam::Integer(i) => rusqlite::types::Value::Integer(*i),
        SqlParam::Text(s) => rusqlite::types::Value::Text(s.clone()),
    }
}

/// `Statement::column_count` of the row's statement: how many columns
/// each row has, which the statement decides: not stated.
#[verifier::external_body]
fn row_width(row: &rusqlite::Row<'_>) -> (r: usize) {
    row.as_ref().column_count()
}

/// `rusqlite::Row::get::<rusqlite::types::Value>`: column `i` as an owned
/// value, `None` where `rusqlite` refuses it (TEXT that is not UTF-8, an
/// index past the end). NULL, INTEGER and TEXT keep their variant and
/// content; REAL and BLOB, which the library never reads, become `Other`.
/// What the column holds is the database's: not stated.
#[verifier::external_body]
fn row_value(row: &rusqlite::Row<'_>, i: usize) -> (r: Option<SqlValue>) {
    match row.get::<usize, rusqlite::types::Value>(i) {
        Ok(rusqlite::types::Value::Null) => Some(SqlValue::Null),
        Ok(rusqlite::types::Value::Integer(v)) => Some(SqlValue::Integer(v)),
        Ok(rusqlite::types::Value::Text(t)) => Some(SqlValue::Text(t)),
        Ok(rusqlite::types::Value::Real(_)) => Some(SqlValue::Other),
        Ok(rusqlite::types::Value::Blob(_)) => Some(SqlValue::Other),
        Err(_) => None,
    }
}

/// `rusqlite::Connection::open_in_memory`: a fresh private in-memory
/// database, with a log that records this open and belongs to it. Whether
/// it opens is not stated.
#[verifier::external_body]
fn raw_open_in_memory() -> (r: Result<(rusqlite::Connection, Log), DbError>)
    ensures
        r matches Ok(p) ==> p.1.conn() == p.0 && p.1.sent() == seq![Sent::OpenMemory],
{
    match rusqlite::Connection::open_in_memory() {
        Ok(c) => Ok((c, Log { sent: Ghost(seq![Sent::OpenMemory]), conn: Ghost(arbitrary()) })),
        Err(e) => Err(db_error(&e)),
    }
}

/// `rusqlite::Connection::open` of exactly `path`: opens (creating if
/// needed) that database file. Either way the open is recorded: with a
/// log that belongs to the connection where it opened, or in the error
/// (with `rusqlite`'s message) where it did not. Whether it opens depends
/// on the file system: not stated.
#[verifier::external_body]
fn raw_open(path: &str) -> (r: Result<(rusqlite::Connection, Log), OpenError>)
    ensures
        r matches Ok(p) ==> p.1.conn() == p.0 && p.1.sent() == seq![Sent::Open(path@, true)],
        r matches Err(e) ==> e.sent() == seq![Sent::Open(path@, false)],
{
    match rusqlite::Connection::open(path) {
        Ok(c) => Ok((c, Log { sent: Ghost(seq![Sent::Open(path@, true)]), conn: Ghost(arbitrary()) })),
        Err(e) => Err(OpenError { message: error_message(&e), sent: Ghost(seq![Sent::Open(path@, false)]) }),
    }
}

/// `rusqlite::Connection::busy_timeout` in whole seconds on the log's
/// connection; it panics past `i32::MAX` milliseconds, so `secs` stays
/// within that. The log gains this exchange; whether it is set is not
/// stated.
#[verifier::external_body]
fn raw_busy_timeout(conn: &rusqlite::Connection, log: &mut Log, secs: u64) -> (r: Result<(), DbError>)
    requires
        secs <= 2147483,
        old(log).conn() == *conn,
    ensures
        final(log).conn() == old(log).conn(),
        final(log).sent() == old(log).sent().push(Sent::BusyTimeout(secs, r is Ok)),
{
    conn.busy_timeout(std::time::Duration::from_secs(secs)).map_err(|e| db_error(&e))
}

/// `rusqlite::Connection::execute_batch` of exactly `sql` on the log's
/// connection: runs each statement of it in turn. The log gains this
/// exchange; what it changes and whether it succeeds are the database's:
/// not stated.
#[verifier::external_body]
fn raw_execute_batch(conn: &rusqlite::Connection, log: &mut Log, sql: &str) -> (r: Result<(), DbError>)
    requires
        old(log).conn() == *conn,
    ensures
        final(log).conn() == old(log).conn(),
        final(log).sent() == old(log).sent().push(Sent::Batch(sql@, r is Ok)),
{
    conn.execute_batch(sql).map_err(|e| db_error(&e))
}

/// `rusqlite::Connection::execute` of exactly `sql` on the log's
/// connection, with `params` bound to `?1`, `?2`, ... in order. The log
/// gains this exchange; the count of changed rows and whether it succeeds
/// are the database's: not stated.
#[verifier::external_body]
fn raw_execute(conn: &rusqlite::Connection, log: &mut Log, sql: &str, params: &Vec<SqlParam>) -> (r: Result<usize, DbError>)
    requires
        old(log).conn() == *conn,
    ensures
        final(log).conn() == old(log).conn(),
        final(log).sent() == old(log).sent().push(Sent::Execute(sql@, params_view(params@), r)),
{
    let values: Vec<rusqlite::types::Value> = params.iter().map(param_value).collect();
    conn.execute(sql, rusqlite::params_from_iter(values.iter())).map_err(|e| db_error(&e))
}

/// `rusqlite::Connection::query_row` of exactly `sql` on the log's
/// connection, with `params` bound in order: the columns of the first row,
/// or an error where there is none. The log gains this exchange; which
/// row comes back is the database's: not stated.
#[verifier::external_body]
fn raw_query_row(conn: &rusqlite::Connection, log: &mut Log, sql: &str, params: &Vec<SqlParam>) -> (r: Result<Vec<SqlValue>, DbError>)
    requires
        old(log).conn() == *conn,
    ensures
        final(log).conn() == old(log).conn(),
        final(log).sent() == old(log).sent().push(Sent::QueryRow(sql@, params_view(params@), r)),
{
    let values: Vec<rusqlite::types::Value> = params.iter().map(param_value).collect();
    conn.query_row(sql, rusqlite::params_from_iter(values.iter()), |row| Ok(row_values(row))).map_err(|e| db_error(&e))
}

/// `rusqlite::Connection::prepare` of exactly `sql` on the log's
/// connection, then `Statement::query_map` with `params` bound in order,
/// collected: each row in the order SQLite yields it, or the error of a row
/// whose step failed. The log gains this exchange; the rows are the
/// database's: not stated.
#[verifier::external_body]
fn raw_query(conn: &rusqlite::Connection, log: &mut Log, sql: &str, params: &Vec<SqlParam>) -> (r: Result<Vec<Result<Vec<SqlValue>, DbError>>, QueryFailure>)
    requires
        old(log).conn() == *conn,
    ensures
        final(log).conn() == old(log).conn(),
        final(log).sent() == old(log).sent().push(Sent::Query(sql@, params_view(params@), r)),
{
    let mut stmt = conn.prepare(sql).map_err(|e| QueryFailure::Prepare(db_error(&e)))?;
    let values: Vec<rusqlite::types::Value> = params.iter().map(param_value).collect();
    let rows = stmt.query_map(rusqlite::params_from_iter(values.iter()), |row| Ok(row_values(row)))
        .map_err(|e| QueryFailure::Run(db_error(&e)))?;
    Ok(rows.map(|row| row.map_err(|e| db_error(&e))).collect())
}

/// `rusqlite::Connection::last_insert_rowid` on the log's connection: the
/// rowid of its most recent successful INSERT, which the database decides.
/// The log gains it.
#[verifier::external_body]
fn raw_rowid(conn: &rusqlite::Connection, log: &mut Log) -> (r: i64)
    requires
        old(log).conn() == *conn,
    ensures
        final(log).conn() == old(log).conn(),
        final(log).sent() == old(log).sent().push(Sent::RowId(r)),
{
    conn.last_insert_rowid()
}

/// `rusqlite::Connection::unchecked_transaction` on the log's connection:
/// begins a deferred transaction, rolled back when dropped uncommitted.
/// The log gains this exchange; whether it begins is not stated.
#[verifier::external_body]
fn raw_transaction<'c>(conn: &'c rusqlite::Connection, log: &mut Log) -> (r: Result<rusqlite::Transaction<'c>, DbError>)
    requires
        old(log).conn() == *conn,
    ensures
        final(log).conn() == old(log).conn(),
        final(log).sent() == old(log).sent().push(Sent::Begin(r is Ok)),
{
    conn.unchecked_transaction().map_err(|e| db_error(&e))
}

/// `rusqlite::Transaction::commit` of a transaction begun on the log's
/// connection. The log gains this exchange; whether it commits is not
/// stated.
#[verifier::external_body]
fn raw_commit(tx: Tx<'_>, log: &mut Log) -> (r: Result<(), DbError>)
    requires
        tx.conn() == old(log).conn(),
    ensures
        final(log).conn() == old(log).conn(),
        final(log).sent() == old(log).sent().push(Sent::Commit(r is Ok)),
{
    tx.tx.commit().map_err(|e| db_error(&e))
}

/// The record of one connection's exchanges with the database. It is made
/// only together with its connection (`db_open`, `db_open_in_memory`), and
/// every statement runs through a function that takes it and the same
/// connection, so nothing reaches the database unrecorded.
pub struct Log {
    sent: Ghost<Seq<Sent>>,
    conn: Ghost<rusqlite::Connection>,
}

impl Log {
    /// Every exchange so far, in order.
    pub closed spec fn sent(&self) -> Seq<Sent> {
        self.sent@
    }

    /// The connection the exchanges ran on.
    pub closed spec fn conn(&self) -> rusqlite::Connection {
        self.conn@
    }
}

impl Log {
    /// A failure to open a storage, carrying what this log recorded up to it.
    pub fn fail(self, message: String) -> (r: OpenError)
        ensures
            r.sent() == self.sent(),
            r.text() == message@,
    {
        OpenError { message, sent: self.sent }
    }
}

/// Why opening a storage failed: the message, and every exchange with the
/// database up to and including the one that failed. It is made only from
/// a failed open of a file or from the log of the connection concerned.
pub struct OpenError {
    message: String,
    sent: Ghost<Seq<Sent>>,
}

impl OpenError {
    /// The exchanges that led to the failure, in order.
    pub closed spec fn sent(&self) -> Seq<Sent> {
        self.sent@
    }

    /// The message.
    pub closed spec fn text(&self) -> Seq<char> {
        self.message@
    }

    /// The message, which names the step that failed.
    pub fn message(&self) -> (r: &str)
        ensures
            r@ == self.text(),
    {
        self.message.as_str()
    }

    /// The same failure under another message.
    pub fn with_message(self, message: String) -> (r: OpenError)
        ensures
            r.sent() == self.sent(),
            r.text() == message@,
    {
        OpenError { message, sent: self.sent }
    }
}

/// An open transaction, with the connection it was begun on; rolled back
/// when dropped uncommitted.
pub struct Tx<'c> {
    tx: rusqlite::Transaction<'c>,
    conn: Ghost<rusqlite::Connection>,
}

impl<'c> Tx<'c> {
    pub closed spec fn conn(&self) -> rusqlite::Connection {
        self.conn@
    }
}

/// A statement parameter as the log records it.
pub enum ParamView {
    Null,
    Integer(i64),
    Text(Seq<char>),
}

impl View for SqlParam {
    type V = ParamView;

    open spec fn view(&self) -> ParamView {
        match self {
            SqlParam::Null => ParamView::Null,
            SqlParam::Integer(i) => ParamView::Integer(*i),
            SqlParam::Text(s) => ParamView::Text(s@),
        }
    }
}

pub open spec fn params_view(p: Seq<SqlParam>) -> Seq<ParamView> {
    p.map_values(|x: SqlParam| x@)
}

/// One exchange with the database: what the library sent and what came
/// back. The storage types keep the exchanges they made, in order, as a
/// ghost log; their contracts are stated over it.
pub enum Sent {
    /// The database file at this path opened; whether it did.
    Open(Seq<char>, bool),
    /// A fresh in-memory database opened.
    OpenMemory,
    /// `execute_batch` of the SQL text; whether it succeeded.
    Batch(Seq<char>, bool),
    /// A busy timeout of so many seconds; whether it was set.
    BusyTimeout(u64, bool),
    /// One statement with its parameters, and the changed-row count or error.
    Execute(Seq<char>, Seq<ParamView>, Result<usize, DbError>),
    /// A query for one row, and the row or error.
    QueryRow(Seq<char>, Seq<ParamView>, Result<Vec<SqlValue>, DbError>),
    /// A query for every row, and the rows or error.
    Query(Seq<char>, Seq<ParamView>, Result<Vec<Result<Vec<SqlValue>, DbError>>, QueryFailure>),
    /// A transaction begun; whether it began.
    Begin(bool),
    /// The open transaction committed; whether it committed.
    Commit(bool),
    /// The rowid of the latest insert, as the database reported it.
    RowId(i64),
}

pub open spec fn is_batch(e: Sent, sql: Seq<char>) -> bool {
    e matches Sent::Batch(s, _) && s == sql
}

pub open spec fn batch_ok(e: Sent) -> bool {
    e matches Sent::Batch(_, true)
}

pub open spec fn is_execute(e: Sent, sql: Seq<char>, params: Seq<ParamView>) -> bool {
    e matches Sent::Execute(s, p, _) && s == sql && p == params
}

pub open spec fn execute_ok(e: Sent) -> bool {
    e matches Sent::Execute(_, _, Ok(_))
}

pub open spec fn execute_count(e: Sent) -> usize {
    match e {
        Sent::Execute(_, _, Ok(n)) => n,
        _ => 0,
    }
}

pub open spec fn is_query_row(e: Sent, sql: Seq<char>, params: Seq<ParamView>) -> bool {
    e matches Sent::QueryRow(s, p, _) && s == sql && p == params
}

/// The reply of a one-row query (an error for any other entry).
pub open spec fn row_reply(e: Sent) -> Result<Vec<SqlValue>, DbError> {
    match e {
        Sent::QueryRow(_, _, r) => r,
        _ => Err(arbitrary()),
    }
}

pub open spec fn is_query(e: Sent, sql: Seq<char>, params: Seq<ParamView>) -> bool {
    e matches Sent::Query(s, p, _) && s == sql && p == params
}

/// The rows of a multi-row query; none where it failed.
pub open spec fn rows_reply(e: Sent) -> Seq<Result<Vec<SqlValue>, DbError>> {
    match e {
        Sent::Query(_, _, Ok(rows)) => rows@,
        _ => Seq::empty(),
    }
}

pub open spec fn query_ok(e: Sent) -> bool {
    e matches Sent::Query(_, _, Ok(_))
}

pub open spec fn is_begin(e: Sent) -> bool {
    e matches Sent::Begin(_)
}

pub open spec fn begin_ok(e: Sent) -> bool {
    e matches Sent::Begin(true)
}

pub open spec fn commit_ok(e: Sent) -> bool {
    e matches Sent::Commit(true)
}

pub open spec fn is_commit(e: Sent) -> bool {
    e matches Sent::Commit(_)
}

pub open spec fn rowid_of(e: Sent) -> i64 {
    match e {
        Sent::RowId(i) => i,
        _ => 0,
    }
}

/// The entries `new` has beyond `old`, where `new` extends `old`.
pub open spec fn since(old: Seq<Sent>, new: Seq<Sent>) -> Seq<Sent> {
    new.subrange(old.len() as int, new.len() as int)
}

/// `new` is `old` with entries appended.
pub open spec fn extends(old: Seq<Sent>, new: Seq<Sent>) -> bool {
    old.len() <= new.len() && new.subrange(0, old.len() as int) == old
}

/// Appending keeps what was logged before, and what was appended is what
/// `since` gives back.
pub proof fn lemma_extends_trans(a: Seq<Sent>, b: Seq<Sent>, c: Seq<Sent>)
    requires
        extends(a, b),
        extends(b, c),
    ensures
        extends(a, c),
        since(a, c) == since(a, b) + since(b, c),
{
    assert(c.subrange(0, a.len() as int) =~= b.subrange(0, a.len() as int));
    assert(since(a, c) =~= since(a, b) + since(b, c));
}

pub proof fn lemma_extends_push(a: Seq<Sent>, e: Sent)
    ensures
        extends(a, a.push(e)),
        since(a, a.push(e)) == seq![e],
{
    assert(a.push(e).subrange(0, a.len() as int) =~= a);
    assert(since(a, a.push(e)) =~= seq![e]);
}

/// No commit in the segment went through: nothing it sent persists.
pub open spec fn uncommitted(seg: Seq<Sent>) -> bool {
    forall|k: int| 0 <= k < seg.len() ==> !commit_ok(#[trigger] seg[k])
}

pub proof fn lemma_one_more(a: Seq<Sent>, b: Seq<Sent>)
    requires
        b.len() == a.len() + 1,
        b.drop_last() == a,
    ensures
        b == a.push(b.last()),
{
    assert(b =~= a.push(b.last()));
}

pub proof fn lemma_prefix(start: Seq<Sent>, log: Seq<Sent>)
    requires
        start.len() <= log.len(),
        forall|k: int| 0 <= k < start.len() ==> #[trigger] log[k] == start[k],
    ensures
        extends(start, log),
{
    assert(log.subrange(0, start.len() as int) =~= start);
}

pub proof fn lemma_uncommitted(start: Seq<Sent>, log: Seq<Sent>)
    requires
        start.len() <= log.len(),
        forall|k: int| 0 <= k < start.len() ==> #[trigger] log[k] == start[k],
        forall|k: int| start.len() <= k < log.len() ==> !commit_ok(#[trigger] log[k]),
    ensures
        extends(start, log),
        uncommitted(since(start, log)),
{
    lemma_prefix(start, log);
    assert forall|k: int| 0 <= k < since(start, log).len() implies !commit_ok(#[trigger] since(start, log)[k]) by {
        assert(since(start, log)[k] == log[start.len() + k]);
    }
}

pub proof fn lemma_extends_refl(a: Seq<Sent>)
    ensures
        extends(a, a),
        since(a, a) == Seq::<Sent>::empty(),
{
    assert(a.subrange(0, a.len() as int) =~= a);
    assert(since(a, a) =~= Seq::<Sent>::empty());
}

/// The settings a database file is opened with.
pub const FILE_PRAGMAS: &'static str = "PRAGMA journal_mode=WAL; PRAGMA foreign_keys=ON;";

/// The settings an in-memory database is opened with.
pub const MEMORY_PRAGMAS: &'static str = "PRAGMA foreign_keys=ON;";

/// What opening the database file at `path` sends: the open of exactly
/// that file, the pragmas, then a five-second busy timeout.
pub open spec fn opened_file(log: Seq<Sent>, path: Seq<char>) -> bool {
    &&& log.len() == 3
    &&& log[0] == Sent::Open(path, true)
    &&& is_batch(log[1], FILE_PRAGMAS@)
    &&& (log[2] matches Sent::BusyTimeout(secs, _) && secs == 5)
}

/// What opening a fresh in-memory database with `schema` sends: the
/// in-memory open, the pragmas, then the schema.
pub open spec fn opened_memory(log: Seq<Sent>, schema: Seq<char>) -> bool {
    &&& log.len() == 3
    &&& log[0] == Sent::OpenMemory
    &&& is_batch(log[1], MEMORY_PRAGMAS@)
    &&& is_batch(log[2], schema)
}

// ---------------------------------------------------------------- verified layer

/// The library's form of a database error: its message.
pub fn db_error(e: &rusqlite::Error) -> (r: DbError) {
    DbError { message: error_message(e) }
}

/// Every column of a result row, in order; a column `rusqlite` cannot
/// read as a value reads as `Other`.
pub fn row_values(row: &rusqlite::Row<'_>) -> (r: Vec<SqlValue>) {
    let n = row_width(row);
    let mut out: Vec<SqlValue> = Vec::new();
    let mut i: usize = 0;
    while i < n
        invariant
            i <= n,
        decreases n - i,
    {
        let v = match row_value(row, i) {
            Some(v) => v,
            None => SqlValue::Other,
        };
        out.push(v);
        i = i + 1;
    }
    out
}

/// A fresh in-memory database and its log.
pub fn db_open_in_memory() -> (r: Result<(rusqlite::Connection, Log), DbError>)
    ensures
        r matches Ok(p) ==> p.1.conn() == p.0 && p.1.sent() == seq![Sent::OpenMemory],
{
    raw_open_in_memory()
}

/// The database file at `path` and its log; where it does not open, the
/// error records that open.
pub fn db_open(path: &str) -> (r: Result<(rusqlite::Connection, Log), OpenError>)
    ensures
        r matches Ok(p) ==> p.1.conn() == p.0 && p.1.sent() == seq![Sent::Open(path@, true)],
        r matches Err(e) ==> e.sent() == seq![Sent::Open(path@, false)],
{
    raw_open(path)
}

/// Sets the busy timeout; `rusqlite` takes at most `i32::MAX`
/// milliseconds.
pub fn db_busy_timeout(conn: &rusqlite::Connection, log: &mut Log, secs: u64) -> (r: Result<(), DbError>)
    requires
        secs <= 2147483,
        old(log).conn() == *conn,
    ensures
        final(log).conn() == old(log).conn(),
        final(log).sent() == old(log).sent().push(Sent::BusyTimeout(secs, r is Ok)),
{
    raw_busy_timeout(conn, log, secs)
}

pub fn db_execute_batch(conn: &rusqlite::Connection, log: &mut Log, sql: &str) -> (r: Result<(), DbError>)
    requires
        old(log).conn() == *conn,
    ensures
        final(log).conn() == old(log).conn(),
        final(log).sent() == old(log).sent().push(Sent::Batch(sql@, r is Ok)),
{
    raw_execute_batch(conn, log, sql)
}

/// Runs one statement with `params` bound in order.
pub fn db_execute(conn: &rusqlite::Connection, log: &mut Log, sql: &str, params: &Vec<SqlParam>) -> (r: Result<usize, DbError>)
    requires
        old(log).conn() == *conn,
    ensures
        final(log).conn() == old(log).conn(),
        final(log).sent() == old(log).sent().push(Sent::Execute(sql@, params_view(params@), r)),
{
    raw_execute(conn, log, sql, params)
}

/// The first row of a query with `params` bound in order.
pub fn db_query_row(conn: &rusqlite::Connection, log: &mut Log, sql: &str, params: &Vec<SqlParam>) -> (r: Result<Vec<SqlValue>, DbError>)
    requires
        old(log).conn() == *conn,
    ensures
        final(log).conn() == old(log).conn(),
        final(log).sent() == old(log).sent().push(Sent::QueryRow(sql@, params_view(params@), r)),
{
    raw_query_row(conn, log, sql, params)
}

/// Every row of a query with `params` bound in order, each with the error
/// of its step where that failed.
pub fn db_query(conn: &rusqlite::Connection, log: &mut Log, sql: &str, params: &Vec<SqlParam>) -> (r: Result<Vec<Result<Vec<SqlValue>, DbError>>, QueryFailure>)
    requires
        old(log).conn() == *conn,
    ensures
        final(log).conn() == old(log).conn(),
        final(log).sent() == old(log).sent().push(Sent::Query(sql@, params_view(params@), r)),
{
    raw_query(conn, log, sql, params)
}

/// Begins a transaction on the log's connection.
pub fn db_transaction<'c>(conn: &'c rusqlite::Connection, log: &mut Log) -> (r: Result<Tx<'c>, DbError>)
    requires
        old(log).conn() == *conn,
    ensures
        final(log).conn() == old(log).conn(),
        final(log).sent() == old(log).sent().push(Sent::Begin(r is Ok)),
        r matches Ok(t) ==> t.conn() == *conn,
{
    match raw_transaction(conn, log) {
        Ok(tx) => Ok(Tx { tx, conn: Ghost(*conn) }),
        Err(e) => Err(e),
    }
}

/// Commits a transaction begun on the log's connection.
pub fn tx_commit(tx: Tx<'_>, log: &mut Log) -> (r: Result<(), DbError>)
    requires
        tx.conn() == old(log).conn(),
    ensures
        final(log).conn() == old(log).conn(),
        final(log).sent() == old(log).sent().push(Sent::Commit(r is Ok)),
{
    raw_commit(tx, log)
}

/// The rowid of the latest insert on the connection.
pub fn db_rowid(conn: &rusqlite::Connection, log: &mut Log) -> (r: i64)
    requires
        old(log).conn() == *conn,
    ensures
        final(log).conn() == old(log).conn(),
        final(log).sent() == old(log).sent().push(Sent::RowId(r)),
{
    raw_rowid(conn, log)
}

} // verus!
