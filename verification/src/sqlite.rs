//! The calls into `rusqlite` that the library makes, each behind a trusted
//! item. What these calls return depends on the database file and on the
//! SQLite engine, so no contract here promises a result. Each call that
//! reaches the database records, in the ghost history of the `Db` it goes
//! through, what was handed to SQLite and what came back; the verified code
//! above states its own behaviour over that history.

use vstd::prelude::*;

verus! {

/// An open SQLite database connection (`rusqlite::Connection`), carried
/// through the library without being looked into.
#[verifier::external_type_specification]
#[verifier::external_body]
pub struct ExConnection(rusqlite::Connection);

/// A prepared statement of a connection (`rusqlite::Statement`).
#[verifier::external_type_specification]
#[verifier::external_body]
pub struct ExStatement<'conn>(rusqlite::Statement<'conn>);

/// The rows that a query yields (`rusqlite::Rows`).
#[verifier::external_type_specification]
#[verifier::external_body]
pub struct ExRows<'stmt>(rusqlite::Rows<'stmt>);

/// One row of a query's result (`rusqlite::Row`).
#[verifier::external_type_specification]
#[verifier::external_body]
pub struct ExRow<'stmt>(rusqlite::Row<'stmt>);

/// An error reported by `rusqlite` (`rusqlite::Error`).
#[verifier::external_type_specification]
#[verifier::external_body]
pub struct ExError(rusqlite::Error);

/// A value bound to a named parameter of a statement.
pub enum SqlParam {
    Integer(i64),
    Text(String),
}

/// The mathematical value of a bound parameter.
pub enum SqlArg {
    Integer(i64),
    Text(Seq<char>),
}

impl View for SqlParam {
    type V = SqlArg;

    open spec fn view(&self) -> SqlArg {
        match self {
            SqlParam::Integer(i) => SqlArg::Integer(*i),
            SqlParam::Text(t) => SqlArg::Text(t@),
        }
    }
}

/// The named parameters of a call, by their views.
pub open spec fn params_view(params: Seq<(&str, SqlParam)>) -> Seq<(Seq<char>, SqlArg)> {
    params.map_values(|p: (&str, SqlParam)| (p.0@, p.1@))
}

/// One statement, or batch of statements, handed to SQLite: its SQL text
/// and its named parameters.
pub struct DbCall {
    pub sql: Seq<char>,
    pub params: Seq<(Seq<char>, SqlArg)>,
}

/// A batch of SQL statements run as they stand, without parameters.
pub open spec fn batch_call(sql: Seq<char>) -> DbCall {
    DbCall { sql, params: seq![] }
}

/// One exchange with the database, as the history of a `Db` records it.
pub enum DbEvent {
    /// Preparing a statement from this SQL text failed.
    PrepareFailed(Seq<char>),
    /// A statement or batch was handed to SQLite (for a query: its
    /// parameters were bound); whether that succeeded.
    Run(DbCall, bool),
    /// `last_insert_rowid` gave this rowid.
    RowId(i64),
    /// A query was asked for its next row; whether one came.
    NextRow(bool),
    /// Column `idx` of the current row was read with this value.
    Value(usize, SqlArg),
    /// Asking for the next row, or reading a column, failed.
    ReadFailed,
}

/// Whether `e` records a failure.
pub open spec fn is_failure(e: DbEvent) -> bool {
    match e {
        DbEvent::PrepareFailed(_) => true,
        DbEvent::Run(_, ok) => !ok,
        DbEvent::ReadFailed => true,
        _ => false,
    }
}

/// A connection, with the ghost history of everything handed to it and read
/// from it through this value.
pub struct Db<'a> {
    conn: &'a rusqlite::Connection,
    events: Ghost<Seq<DbEvent>>,
}

impl<'a> Db<'a> {
    /// The connection that every call runs on.
    pub closed spec fn connection(&self) -> rusqlite::Connection {
        *self.conn
    }

    /// Every exchange with the database made through this value, oldest
    /// first.
    pub closed spec fn events(&self) -> Seq<DbEvent> {
        self.events@
    }

    /// A `Db` on `conn` with an empty history.
    pub fn new(conn: &'a rusqlite::Connection) -> (db: Self)
        ensures
            db.connection() == *conn,
            db.events() == Seq::<DbEvent>::empty(),
    {
        Db { conn, events: Ghost(Seq::empty()) }
    }
}

/// A statement prepared on a connection, with the SQL text it was prepared
/// from.
pub struct PreparedStatement<'a> {
    stmt: rusqlite::Statement<'a>,
    sql: Ghost<Seq<char>>,
}

impl<'a> PreparedStatement<'a> {
    /// The SQL text the statement was prepared from.
    pub closed spec fn sql(&self) -> Seq<char> {
        self.sql@
    }
}

/// `Connection::prepare`: compiles `sql` into a statement of the connection.
/// Where it succeeds, the statement is kept together with `sql`; where it
/// fails, the history records the failure. Nothing is promised of whether it
/// succeeds, which depends on the database schema.
#[verifier::external_body]
pub(crate) fn prepare<'c>(db: &mut Db<'c>, sql: &str) -> (r: Result<PreparedStatement<'c>, rusqlite::Error>)
    ensures
        final(db).connection() == old(db).connection(),
        r matches Ok(p) ==> p.sql() == sql@ && final(db).events() == old(db).events(),
        r is Err ==> final(db).events() == old(db).events().push(DbEvent::PrepareFailed(sql@)),
{
    match db.conn.prepare(sql) {
        Ok(stmt) => Ok(PreparedStatement { stmt, sql: Ghost(sql@) }),
        Err(e) => Err(e),
    }
}

/// `Connection::execute_batch`: hands `sql` to SQLite, which runs the
/// statements in it one after the other. The history records the batch.
/// Nothing is promised of the outcome, which depends on the database.
#[verifier::external_body]
pub(crate) fn execute_batch(db: &mut Db, sql: &str) -> (r: Result<(), rusqlite::Error>)
    ensures
        final(db).connection() == old(db).connection(),
        final(db).events() == old(db).events().push(DbEvent::Run(batch_call(sql@), r is Ok)),
{
    db.conn.execute_batch(sql)
}

/// `Connection::last_insert_rowid`: the rowid of the most recent successful
/// insert on the connection, which the history records. Nothing is promised
/// of the number, which the database chooses.
#[verifier::external_body]
pub(crate) fn last_insert_rowid(db: &mut Db) -> (id: i64)
    ensures
        final(db).connection() == old(db).connection(),
        final(db).events() == old(db).events().push(DbEvent::RowId(id)),
{
    db.conn.last_insert_rowid()
}

/// `Statement::execute`: hands the statement to SQLite with each parameter
/// bound by its name as an SQLite integer or text value. The history records
/// the statement's SQL text, the parameters, and whether it succeeded.
/// Nothing is promised of the outcome, which depends on the database.
#[verifier::external_body]
pub(crate) fn execute(db: &mut Db, p: &mut PreparedStatement, params: &Vec<(&str, SqlParam)>) -> (r: Result<
    usize,
    rusqlite::Error,
>)
    ensures
        final(db).connection() == old(db).connection(),
        final(db).events() == old(db).events().push(
            DbEvent::Run(DbCall { sql: old(p).sql(), params: params_view(params@) }, r is Ok),
        ),
        final(p).sql() == old(p).sql(),
{
    let values: Vec<(&str, rusqlite::types::Value)> = params.iter().map(|(n, v)| (*n, match v {
        SqlParam::Integer(i) => rusqlite::types::Value::Integer(*i),
        SqlParam::Text(t) => rusqlite::types::Value::Text(t.clone()),
    })).collect();
    let bound: Vec<(&str, &dyn rusqlite::ToSql)> = values.iter().map(|(n, v)| (*n, v as &dyn rusqlite::ToSql)).collect();
    p.stmt.execute(bound.as_slice())
}

/// `Statement::query`: binds each parameter of the statement by its name as
/// an SQLite integer or text value; SQLite then runs the statement as its
/// rows are asked for with `next_row`. The history records the statement's
/// SQL text, the parameters, and whether binding them succeeded. Nothing is
/// promised of the rows, which depend on the database.
#[verifier::external_body]
pub(crate) fn query<'s, 'c>(db: &mut Db, p: &'s mut PreparedStatement<'c>, params: &Vec<(&str, SqlParam)>) -> (r: Result<
    rusqlite::Rows<'s>,
    rusqlite::Error,
>)
    ensures
        final(db).connection() == old(db).connection(),
        final(db).events() == old(db).events().push(
            DbEvent::Run(DbCall { sql: old(p).sql(), params: params_view(params@) }, r is Ok),
        ),
        final(p).sql() == old(p).sql(),
{
    let values: Vec<(&str, rusqlite::types::Value)> = params.iter().map(|(n, v)| (*n, match v {
        SqlParam::Integer(i) => rusqlite::types::Value::Integer(*i),
        SqlParam::Text(t) => rusqlite::types::Value::Text(t.clone()),
    })).collect();
    let bound: Vec<(&str, &dyn rusqlite::ToSql)> = values.iter().map(|(n, v)| (*n, v as &dyn rusqlite::ToSql)).collect();
    p.stmt.query(bound.as_slice())
}

/// `Rows::next`: the next row of a query, or `None` once all have been
/// read; the history records whether a row came, or that asking failed.
/// Nothing is promised of the outcome, which depends on the database.
#[verifier::external_body]
pub(crate) fn next_row<'r, 's>(db: &mut Db, rows: &'r mut rusqlite::Rows<'s>) -> (r: Result<
    Option<&'r rusqlite::Row<'s>>,
    rusqlite::Error,
>)
    ensures
        final(db).connection() == old(db).connection(),
        r matches Ok(row) ==> final(db).events() == old(db).events().push(DbEvent::NextRow(row is Some)),
        r is Err ==> final(db).events() == old(db).events().push(DbEvent::ReadFailed),
{
    rows.next()
}

/// `Row::get` of column `idx` as an `i64`; the history records the column
/// and the value read, or that reading failed. Nothing is promised of the value, which was read from the database.
#[verifier::external_body]
pub(crate) fn column_i64(db: &mut Db, row: &rusqlite::Row, idx: usize) -> (r: Result<i64, rusqlite::Error>)
    ensures
        final(db).connection() == old(db).connection(),
        r matches Ok(v) ==> final(db).events() == old(db).events().push(DbEvent::Value(idx, SqlArg::Integer(v))),
        r is Err ==> final(db).events() == old(db).events().push(DbEvent::ReadFailed),
{
    row.get::<usize, i64>(idx)
}

/// `Row::get` of column `idx` as a `String`; the history records the column
/// and the value read, or that reading failed. Nothing is promised of the value, which was read from the database.
#[verifier::external_body]
pub(crate) fn column_text(db: &mut Db, row: &rusqlite::Row, idx: usize) -> (r: Result<String, rusqlite::Error>)
    ensures
        final(db).connection() == old(db).connection(),
        r matches Ok(v) ==> final(db).events() == old(db).events().push(DbEvent::Value(idx, SqlArg::Text(v@))),
        r is Err ==> final(db).events() == old(db).events().push(DbEvent::ReadFailed),
{
    row.get::<usize, String>(idx)
}

} // verus!
