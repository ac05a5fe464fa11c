//! A connection to the scan database, with the statements it has prepared
//! kept for reuse.

use crate::models::{FileModel, FolderModel};
use crate::sql::{Filter, SqlStatement, is_name, is_op, join, render, render_assignment, statement_wf};
use crate::sqlite::{
    self, Db, DbCall, DbEvent, PreparedStatement, SqlArg, SqlParam, batch_call, is_failure, params_view,
};
use rusqlite::Connection;
use vstd::prelude::*;

verus! {

/// Why a database operation failed.
#[derive(Debug)]
pub enum DbError {
    /// SQLite, or `rusqlite` around it, reported an error.
    Sqlite(rusqlite::Error),
    /// A query that must yield a row yielded none.
    QueryReturnedNoRows,
    /// A query yielded more rows than a `Vec` can hold.
    TooManyRows,
}

/// The statements that a context prepares once and then reuses.
#[derive(PartialEq, Eq, Structural, Clone, Copy)]
pub enum StatementKind {
    FolderCreate,
    FolderRetrieve,
    FolderUpdate,
    FolderDelete,
    FileCreate,
    FileUpdate,
}

/// The SQL text of each statement that a context prepares.
pub open spec fn sql_text(kind: StatementKind) -> Seq<char> {
    match kind {
        StatementKind::FolderCreate =>
            "INSERT INTO folders (name, parent_folder_id) VALUES (:name, :parent_folder_id);"@,
        StatementKind::FolderRetrieve => render(folder_select_statement()),
        StatementKind::FolderUpdate => render(folder_update_statement()),
        StatementKind::FolderDelete => render(folder_delete_statement()),
        StatementKind::FileCreate =>
            "INSERT INTO files (name, parent_folder_id, hash, size, modified_date) \n                VALUES (:name, :parent_folder_id, :hash, :size, :modified_date)"@,
        StatementKind::FileUpdate => render(file_update_statement()),
    }
}

/// The condition that picks the row stored under the id bound to `:id`.
pub open spec fn id_is_bound_id() -> Filter {
    Filter::Compare { column: "id"@, op: "="@, param: "id"@ }
}

/// The query that reads back a folder by its id.
pub open spec fn folder_select_statement() -> SqlStatement {
    SqlStatement::Select {
        table: "folders"@,
        columns: seq!["id"@, "name"@, "parent_folder_id"@],
        filter: id_is_bound_id(),
        order: seq![],
    }
}

/// The update that overwrites the name and parent of a folder, by its id.
pub open spec fn folder_update_statement() -> SqlStatement {
    SqlStatement::Update {
        table: "folders"@,
        set: seq![("name"@, "name"@), ("parent_folder_id"@, "parent_folder_id"@)],
        filter: id_is_bound_id(),
    }
}

/// The delete of a folder, by its id.
pub open spec fn folder_delete_statement() -> SqlStatement {
    SqlStatement::Delete { table: "folders"@, filter: id_is_bound_id() }
}

/// The update that overwrites every column of a file but its id, by its id.
pub open spec fn file_update_statement() -> SqlStatement {
    SqlStatement::Update {
        table: "files"@,
        set: seq![
            ("name"@, "name"@),
            ("parent_folder_id"@, "parent_folder_id"@),
            ("hash"@, "hash"@),
            ("size"@, "size"@),
            ("modified_date"@, "modified_date"@),
        ],
        filter: id_is_bound_id(),
    }
}

/// The query that lists, by size and then id, the files whose size some
/// other file shares.
pub open spec fn duplicate_sizes_statement() -> SqlStatement {
    SqlStatement::Select {
        table: "files"@,
        columns: seq!["id"@, "name"@, "parent_folder_id"@, "hash"@, "size"@, "modified_date"@],
        filter: Filter::Repeated { column: "size"@, table: "files"@, groups: seq!["size"@] },
        order: seq!["size"@, "id"@],
    }
}

/// The column definitions of the `folders` table.
pub open spec fn folders_columns() -> Seq<char> {
    "(\n        id integer primary key not null,\n        parent_folder_id integer not null,\n        name text not null\n    )"@
}

/// The column definitions of the `files` table.
pub open spec fn files_columns() -> Seq<char> {
    "(\n        id integer primary key not null,\n        parent_folder_id integer not null,\n        name text not null,\n        hash text not null,\n        size integer not null,\n        modified_date text not null\n    )"@
}

/// The statements that empty the database and create its two tables, in
/// the order they run.
pub open spec fn schema_statements() -> Seq<SqlStatement> {
    seq![
        SqlStatement::DropTable { table: "files"@ },
        SqlStatement::DropTable { table: "folders"@ },
        SqlStatement::CreateTable { table: "folders"@, definitions: folders_columns() },
        SqlStatement::CreateTable { table: "files"@, definitions: files_columns() },
    ]
}

/// The query that lists the files whose size some other file shares.
pub open spec fn duplicate_sizes_sql() -> Seq<char> {
    render(duplicate_sizes_statement())
}

/// The insert that records folder `f` (its id is chosen by the database).
pub open spec fn folder_insert_call(f: FolderModel) -> DbCall {
    DbCall {
        sql: sql_text(StatementKind::FolderCreate),
        params: seq![
            (":name"@, SqlArg::Text(f.name@)),
            (":parent_folder_id"@, SqlArg::Integer(f.parent_folder_id)),
        ],
    }
}

/// The query that reads back the folder with the given id.
pub open spec fn folder_select_call(id: i64) -> DbCall {
    DbCall { sql: sql_text(StatementKind::FolderRetrieve), params: seq![(":id"@, SqlArg::Integer(id))] }
}

/// The update that overwrites the stored folder whose id is `f.id`.
pub open spec fn folder_update_call(f: FolderModel) -> DbCall {
    DbCall {
        sql: sql_text(StatementKind::FolderUpdate),
        params: seq![
            (":id"@, SqlArg::Integer(f.id)),
            (":name"@, SqlArg::Text(f.name@)),
            (":parent_folder_id"@, SqlArg::Integer(f.parent_folder_id)),
        ],
    }
}

/// The delete of the stored folder with the given id.
pub open spec fn folder_delete_call(id: i64) -> DbCall {
    DbCall { sql: sql_text(StatementKind::FolderDelete), params: seq![(":id"@, SqlArg::Integer(id))] }
}

/// The insert that records file `f`; its size is stored as the signed
/// integer with the same bits.
pub open spec fn file_insert_call(f: FileModel) -> DbCall {
    DbCall {
        sql: sql_text(StatementKind::FileCreate),
        params: seq![
            (":name"@, SqlArg::Text(f.name@)),
            (":parent_folder_id"@, SqlArg::Integer(f.parent_folder_id)),
            (":hash"@, SqlArg::Text(f.hash@)),
            (":size"@, SqlArg::Integer(f.size as i64)),
            (":modified_date"@, SqlArg::Text(f.modified_date@)),
        ],
    }
}

/// The update that overwrites the stored file whose id is `f.id`.
pub open spec fn file_update_call(f: FileModel) -> DbCall {
    DbCall {
        sql: sql_text(StatementKind::FileUpdate),
        params: seq![
            (":id"@, SqlArg::Integer(f.id)),
            (":name"@, SqlArg::Text(f.name@)),
            (":parent_folder_id"@, SqlArg::Integer(f.parent_folder_id)),
            (":hash"@, SqlArg::Text(f.hash@)),
            (":size"@, SqlArg::Integer(f.size as i64)),
            (":modified_date"@, SqlArg::Text(f.modified_date@)),
        ],
    }
}

/// The query behind `find_potential_duplicate_files`.
pub open spec fn duplicate_sizes_call() -> DbCall {
    DbCall { sql: duplicate_sizes_sql(), params: seq![] }
}

/// The batches that empty the database and create its two tables, in the
/// order they run: one statement each.
pub open spec fn schema_calls() -> Seq<DbCall> {
    schema_statements().map_values(|st: SqlStatement| batch_call(render(st)))
}

/// The statements that a context sends are well formed, so that their
/// texts read back as them.
pub proof fn lemma_statements_wf()
    ensures
        statement_wf(folder_select_statement()),
        statement_wf(folder_update_statement()),
        statement_wf(folder_delete_statement()),
        statement_wf(file_update_statement()),
        statement_wf(duplicate_sizes_statement()),
        forall|i: int| 0 <= i < schema_statements().len() ==> statement_wf(#[trigger] schema_statements()[i]),
{
    reveal_strlit("id");
    reveal_strlit("name");
    reveal_strlit("parent_folder_id");
    reveal_strlit("hash");
    reveal_strlit("size");
    reveal_strlit("modified_date");
    reveal_strlit("files");
    reveal_strlit("folders");
    reveal_strlit("=");
    assert(is_name("id"@));
    assert(is_name("name"@));
    assert(is_name("parent_folder_id"@));
    assert(is_name("hash"@));
    assert(is_name("size"@));
    assert(is_name("modified_date"@));
    assert(is_name("files"@));
    assert(is_name("folders"@));
    assert(is_op("="@));
    assert(statement_wf(duplicate_sizes_statement()));
}

/// The text of the query that reads back a folder.
proof fn lemma_folder_select_text()
    ensures
        "SELECT id, name, parent_folder_id FROM folders WHERE id = :id;"@ == render(folder_select_statement()),
{
    reveal_with_fuel(join, 3);
    reveal_strlit("SELECT ");
    reveal_strlit(" FROM ");
    reveal_strlit(" WHERE ");
    reveal_strlit(" IN (SELECT ");
    reveal_strlit(" GROUP BY ");
    reveal_strlit(" HAVING COUNT(*) > 1)");
    reveal_strlit(" ORDER BY ");
    reveal_strlit("UPDATE ");
    reveal_strlit(" SET ");
    reveal_strlit("DELETE FROM ");
    reveal_strlit("drop table if exists ");
    reveal_strlit("create table if not exists ");
    reveal_strlit(" = :");
    reveal_strlit(" :");
    reveal_strlit(" ");
    reveal_strlit("=");
    reveal_strlit(";");
    reveal_strlit(", ");
    reveal_strlit("id");
    reveal_strlit("name");
    reveal_strlit("parent_folder_id");
    reveal_strlit("hash");
    reveal_strlit("size");
    reveal_strlit("modified_date");
    reveal_strlit("files");
    reveal_strlit("folders");
    reveal_strlit("SELECT id, name, parent_folder_id FROM folders WHERE id = :id;");
    assert("SELECT id, name, parent_folder_id FROM folders WHERE id = :id;"@ =~= render(folder_select_statement()));
}

/// The text of the update of a folder.
proof fn lemma_folder_update_text()
    ensures
        "UPDATE folders SET name = :name, parent_folder_id = :parent_folder_id WHERE id = :id;"@
            == render(folder_update_statement()),
{
    reveal_with_fuel(join, 3);
    reveal_strlit("SELECT ");
    reveal_strlit(" FROM ");
    reveal_strlit(" WHERE ");
    reveal_strlit(" IN (SELECT ");
    reveal_strlit(" GROUP BY ");
    reveal_strlit(" HAVING COUNT(*) > 1)");
    reveal_strlit(" ORDER BY ");
    reveal_strlit("UPDATE ");
    reveal_strlit(" SET ");
    reveal_strlit("DELETE FROM ");
    reveal_strlit("drop table if exists ");
    reveal_strlit("create table if not exists ");
    reveal_strlit(" = :");
    reveal_strlit(" :");
    reveal_strlit(" ");
    reveal_strlit("=");
    reveal_strlit(";");
    reveal_strlit(", ");
    reveal_strlit("id");
    reveal_strlit("name");
    reveal_strlit("parent_folder_id");
    reveal_strlit("hash");
    reveal_strlit("size");
    reveal_strlit("modified_date");
    reveal_strlit("files");
    reveal_strlit("folders");
    reveal_strlit("UPDATE folders SET name = :name, parent_folder_id = :parent_folder_id WHERE id = :id;");
    let set = seq![("name"@, "name"@), ("parent_folder_id"@, "parent_folder_id"@)];
    let texts = set.map_values(|a: (Seq<char>, Seq<char>)| render_assignment(a));
    assert(texts =~= seq![render_assignment(set[0]), render_assignment(set[1])]);
    assert("UPDATE folders SET name = :name, parent_folder_id = :parent_folder_id WHERE id = :id;"@
        =~= render(folder_update_statement()));
}

/// The text of the delete of a folder.
proof fn lemma_folder_delete_text()
    ensures
        "DELETE FROM folders WHERE id = :id;"@ == render(folder_delete_statement()),
{
    reveal_strlit("SELECT ");
    reveal_strlit(" FROM ");
    reveal_strlit(" WHERE ");
    reveal_strlit(" IN (SELECT ");
    reveal_strlit(" GROUP BY ");
    reveal_strlit(" HAVING COUNT(*) > 1)");
    reveal_strlit(" ORDER BY ");
    reveal_strlit("UPDATE ");
    reveal_strlit(" SET ");
    reveal_strlit("DELETE FROM ");
    reveal_strlit("drop table if exists ");
    reveal_strlit("create table if not exists ");
    reveal_strlit(" = :");
    reveal_strlit(" :");
    reveal_strlit(" ");
    reveal_strlit("=");
    reveal_strlit(";");
    reveal_strlit(", ");
    reveal_strlit("id");
    reveal_strlit("name");
    reveal_strlit("parent_folder_id");
    reveal_strlit("hash");
    reveal_strlit("size");
    reveal_strlit("modified_date");
    reveal_strlit("files");
    reveal_strlit("folders");
    reveal_strlit("DELETE FROM folders WHERE id = :id;");
    assert("DELETE FROM folders WHERE id = :id;"@ =~= render(folder_delete_statement()));
}

/// The text of the update of a file.
proof fn lemma_file_update_text()
    ensures
        "UPDATE files SET name = :name, parent_folder_id = :parent_folder_id, hash = :hash, size = :size, modified_date = :modified_date WHERE id = :id;"@
            == render(file_update_statement()),
{
    reveal_with_fuel(join, 6);
    reveal_strlit("SELECT ");
    reveal_strlit(" FROM ");
    reveal_strlit(" WHERE ");
    reveal_strlit(" IN (SELECT ");
    reveal_strlit(" GROUP BY ");
    reveal_strlit(" HAVING COUNT(*) > 1)");
    reveal_strlit(" ORDER BY ");
    reveal_strlit("UPDATE ");
    reveal_strlit(" SET ");
    reveal_strlit("DELETE FROM ");
    reveal_strlit("drop table if exists ");
    reveal_strlit("create table if not exists ");
    reveal_strlit(" = :");
    reveal_strlit(" :");
    reveal_strlit(" ");
    reveal_strlit("=");
    reveal_strlit(";");
    reveal_strlit(", ");
    reveal_strlit("id");
    reveal_strlit("name");
    reveal_strlit("parent_folder_id");
    reveal_strlit("hash");
    reveal_strlit("size");
    reveal_strlit("modified_date");
    reveal_strlit("files");
    reveal_strlit("folders");
    reveal_strlit("UPDATE files SET name = :name, parent_folder_id = :parent_folder_id, hash = :hash, size = :size, modified_date = :modified_date WHERE id = :id;");
    let set = seq![
        ("name"@, "name"@),
        ("parent_folder_id"@, "parent_folder_id"@),
        ("hash"@, "hash"@),
        ("size"@, "size"@),
        ("modified_date"@, "modified_date"@),
    ];
    let texts = set.map_values(|a: (Seq<char>, Seq<char>)| render_assignment(a));
    let t = seq![
        render_assignment(set[0]),
        render_assignment(set[1]),
        render_assignment(set[2]),
        render_assignment(set[3]),
        render_assignment(set[4]),
    ];
    assert(texts =~= t);
    assert("UPDATE files SET name = :name, parent_folder_id = :parent_folder_id, hash = :hash, size = :size, modified_date = :modified_date WHERE id = :id;"@
        =~= render(file_update_statement()));
}

/// The text of the query that lists the files whose size another shares.
proof fn lemma_duplicate_sizes_text()
    ensures
        "SELECT id, name, parent_folder_id, hash, size, modified_date FROM files WHERE size IN (SELECT size FROM files GROUP BY size HAVING COUNT(*) > 1) ORDER BY size, id;"@
            == duplicate_sizes_sql(),
{
    reveal_with_fuel(join, 7);
    reveal_strlit("SELECT ");
    reveal_strlit(" FROM ");
    reveal_strlit(" WHERE ");
    reveal_strlit(" IN (SELECT ");
    reveal_strlit(" GROUP BY ");
    reveal_strlit(" HAVING COUNT(*) > 1)");
    reveal_strlit(" ORDER BY ");
    reveal_strlit("UPDATE ");
    reveal_strlit(" SET ");
    reveal_strlit("DELETE FROM ");
    reveal_strlit("drop table if exists ");
    reveal_strlit("create table if not exists ");
    reveal_strlit(" = :");
    reveal_strlit(" :");
    reveal_strlit(" ");
    reveal_strlit("=");
    reveal_strlit(";");
    reveal_strlit(", ");
    reveal_strlit("id");
    reveal_strlit("name");
    reveal_strlit("parent_folder_id");
    reveal_strlit("hash");
    reveal_strlit("size");
    reveal_strlit("modified_date");
    reveal_strlit("files");
    reveal_strlit("folders");
    reveal_strlit("SELECT id, name, parent_folder_id, hash, size, modified_date FROM files WHERE size IN (SELECT size FROM files GROUP BY size HAVING COUNT(*) > 1) ORDER BY size, id;");
    assert("SELECT id, name, parent_folder_id, hash, size, modified_date FROM files WHERE size IN (SELECT size FROM files GROUP BY size HAVING COUNT(*) > 1) ORDER BY size, id;"@
        =~= render(duplicate_sizes_statement()));
}

/// The texts of the batches that empty the database and create its tables.
proof fn lemma_schema_texts()
    ensures
        schema_calls() == seq![
            batch_call("drop table if exists files;"@),
            batch_call("drop table if exists folders;"@),
            batch_call("create table if not exists folders (\n        id integer primary key not null,\n        parent_folder_id integer not null,\n        name text not null\n    );"@),
            batch_call("create table if not exists files (\n        id integer primary key not null,\n        parent_folder_id integer not null,\n        name text not null,\n        hash text not null,\n        size integer not null,\n        modified_date text not null\n    );"@),
        ],
{
    reveal_strlit("SELECT ");
    reveal_strlit(" FROM ");
    reveal_strlit(" WHERE ");
    reveal_strlit(" IN (SELECT ");
    reveal_strlit(" GROUP BY ");
    reveal_strlit(" HAVING COUNT(*) > 1)");
    reveal_strlit(" ORDER BY ");
    reveal_strlit("UPDATE ");
    reveal_strlit(" SET ");
    reveal_strlit("DELETE FROM ");
    reveal_strlit("drop table if exists ");
    reveal_strlit("create table if not exists ");
    reveal_strlit(" = :");
    reveal_strlit(" :");
    reveal_strlit(" ");
    reveal_strlit("=");
    reveal_strlit(";");
    reveal_strlit(", ");
    reveal_strlit("id");
    reveal_strlit("name");
    reveal_strlit("parent_folder_id");
    reveal_strlit("hash");
    reveal_strlit("size");
    reveal_strlit("modified_date");
    reveal_strlit("files");
    reveal_strlit("folders");
    reveal_strlit("drop table if exists files;");
    reveal_strlit("drop table if exists folders;");
    reveal_strlit("create table if not exists folders (\n        id integer primary key not null,\n        parent_folder_id integer not null,\n        name text not null\n    );");
    reveal_strlit("create table if not exists files (\n        id integer primary key not null,\n        parent_folder_id integer not null,\n        name text not null,\n        hash text not null,\n        size integer not null,\n        modified_date text not null\n    );");
    reveal_strlit("(\n        id integer primary key not null,\n        parent_folder_id integer not null,\n        name text not null\n    )");
    reveal_strlit("(\n        id integer primary key not null,\n        parent_folder_id integer not null,\n        name text not null,\n        hash text not null,\n        size integer not null,\n        modified_date text not null\n    )");
    assert("drop table if exists files;"@ =~= render(schema_statements()[0]));
    assert("drop table if exists folders;"@ =~= render(schema_statements()[1]));
    assert("create table if not exists folders (\n        id integer primary key not null,\n        parent_folder_id integer not null,\n        name text not null\n    );"@
        =~= render(schema_statements()[2]));
    assert("create table if not exists files (\n        id integer primary key not null,\n        parent_folder_id integer not null,\n        name text not null,\n        hash text not null,\n        size integer not null,\n        modified_date text not null\n    );"@
        =~= render(schema_statements()[3]));
    assert(schema_calls() =~= seq![
        batch_call("drop table if exists files;"@),
        batch_call("drop table if exists folders;"@),
        batch_call("create table if not exists folders (\n        id integer primary key not null,\n        parent_folder_id integer not null,\n        name text not null\n    );"@),
        batch_call("create table if not exists files (\n        id integer primary key not null,\n        parent_folder_id integer not null,\n        name text not null,\n        hash text not null,\n        size integer not null,\n        modified_date text not null\n    );"@),
    ]);
}

/// What reading back a stored folder records: a row came, then its id,
/// name and parent.
pub open spec fn folder_row_events(f: FolderModel) -> Seq<DbEvent> {
    seq![
        DbEvent::NextRow(true),
        DbEvent::Value(0, SqlArg::Integer(f.id)),
        DbEvent::Value(1, SqlArg::Text(f.name@)),
        DbEvent::Value(2, SqlArg::Integer(f.parent_folder_id)),
    ]
}

/// What reading back a stored file records: a row came, then its six
/// columns.
pub open spec fn file_row_events(f: FileModel) -> Seq<DbEvent> {
    seq![DbEvent::NextRow(true)] + file_value_events(f)
}

/// What reading the six columns of a stored file records, the size as the
/// signed integer that was stored.
pub open spec fn file_value_events(f: FileModel) -> Seq<DbEvent> {
    seq![
        DbEvent::Value(0, SqlArg::Integer(f.id)),
        DbEvent::Value(1, SqlArg::Text(f.name@)),
        DbEvent::Value(2, SqlArg::Integer(f.parent_folder_id)),
        DbEvent::Value(3, SqlArg::Text(f.hash@)),
        DbEvent::Value(4, SqlArg::Integer(f.size as i64)),
        DbEvent::Value(5, SqlArg::Text(f.modified_date@)),
    ]
}

/// What reading back the files of `s`, in order, records.
pub open spec fn file_rows_events(s: Seq<FileModel>) -> Seq<DbEvent>
    decreases s.len(),
{
    if s.len() == 0 {
        seq![]
    } else {
        file_rows_events(s.drop_last()) + file_row_events(s.last())
    }
}

/// What handing the first `k` batches of `schema_calls` to SQLite records.
pub open spec fn schema_events(k: int) -> Seq<DbEvent> {
    schema_calls().take(k).map_values(|c: DbCall| DbEvent::Run(c, true))
}

/// What handing the batches of `schema_calls` to SQLite records when the
/// batch at `k` fails, after the ones before it succeeded.
pub open spec fn schema_failed_at(k: int) -> Seq<DbEvent> {
    schema_events(k).push(DbEvent::Run(schema_calls()[k], false))
}

/// `s` holds only rows that came and columns read.
pub open spec fn clean_reads(s: Seq<DbEvent>) -> bool {
    forall|i: int| 0 <= i < s.len() ==> (#[trigger] s[i] is NextRow || s[i] is Value)
}

/// `s` is rows and columns read, ending in a read that failed.
pub open spec fn failed_reads(s: Seq<DbEvent>) -> bool {
    &&& s.len() > 0
    &&& s.last() is ReadFailed
    &&& clean_reads(s.drop_last())
}

/// `s` records no failure.
pub open spec fn no_failures(s: Seq<DbEvent>) -> bool {
    forall|i: int| 0 <= i < s.len() ==> !is_failure(#[trigger] s[i])
}

/// `s` records exactly one failure, as its last event.
pub open spec fn ends_in_failure(s: Seq<DbEvent>) -> bool {
    &&& s.len() > 0
    &&& is_failure(s.last())
    &&& no_failures(s.drop_last())
}

/// What `new` recorded since `old`, leaving out its first `skip` events.
pub open spec fn added(old: Seq<DbEvent>, new: Seq<DbEvent>, skip: int) -> Seq<DbEvent> {
    new.subrange(old.len() + skip, new.len() as int)
}

/// A slot holds either nothing or a statement prepared from `kind`'s text.
spec fn slot_holds(slot: Option<PreparedStatement>, kind: StatementKind) -> bool {
    slot matches Some(p) ==> p.sql() == sql_text(kind)
}

/// The statements that a context keeps, one slot for each.
struct Statements<'a> {
    folder_create_stmt: Option<PreparedStatement<'a>>,
    folder_retrieve_stmt: Option<PreparedStatement<'a>>,
    folder_update_stmt: Option<PreparedStatement<'a>>,
    folder_delete_stmt: Option<PreparedStatement<'a>>,
    file_create_stmt: Option<PreparedStatement<'a>>,
    file_retrieve_stmt: Option<PreparedStatement<'a>>,
    file_update_stmt: Option<PreparedStatement<'a>>,
    file_delete_stmt: Option<PreparedStatement<'a>>,
}

impl<'a> Statements<'a> {
    spec fn slot(&self, kind: StatementKind) -> Option<PreparedStatement<'a>> {
        match kind {
            StatementKind::FolderCreate => self.folder_create_stmt,
            StatementKind::FolderRetrieve => self.folder_retrieve_stmt,
            StatementKind::FolderUpdate => self.folder_update_stmt,
            StatementKind::FolderDelete => self.folder_delete_stmt,
            StatementKind::FileCreate => self.file_create_stmt,
            StatementKind::FileUpdate => self.file_update_stmt,
        }
    }

    /// These slots with the slot of `kind` holding `v`.
    spec fn with_slot(self, kind: StatementKind, v: Option<PreparedStatement<'a>>) -> Self {
        match kind {
            StatementKind::FolderCreate => Self { folder_create_stmt: v, ..self },
            StatementKind::FolderRetrieve => Self { folder_retrieve_stmt: v, ..self },
            StatementKind::FolderUpdate => Self { folder_update_stmt: v, ..self },
            StatementKind::FolderDelete => Self { folder_delete_stmt: v, ..self },
            StatementKind::FileCreate => Self { file_create_stmt: v, ..self },
            StatementKind::FileUpdate => Self { file_update_stmt: v, ..self },
        }
    }

    fn slot_mut(&mut self, kind: StatementKind) -> (s: &mut Option<PreparedStatement<'a>>)
        ensures
            *s == old(self).slot(kind),
            *final(self) == old(self).with_slot(kind, *final(s)),
    {
        match kind {
            StatementKind::FolderCreate => &mut self.folder_create_stmt,
            StatementKind::FolderRetrieve => &mut self.folder_retrieve_stmt,
            StatementKind::FolderUpdate => &mut self.folder_update_stmt,
            StatementKind::FolderDelete => &mut self.folder_delete_stmt,
            StatementKind::FileCreate => &mut self.file_create_stmt,
            StatementKind::FileUpdate => &mut self.file_update_stmt,
        }
    }

    spec fn wf(&self) -> bool {
        &&& slot_holds(self.folder_create_stmt, StatementKind::FolderCreate)
        &&& slot_holds(self.folder_retrieve_stmt, StatementKind::FolderRetrieve)
        &&& slot_holds(self.folder_update_stmt, StatementKind::FolderUpdate)
        &&& slot_holds(self.folder_delete_stmt, StatementKind::FolderDelete)
        &&& slot_holds(self.file_create_stmt, StatementKind::FileCreate)
        &&& slot_holds(self.file_update_stmt, StatementKind::FileUpdate)
        &&& self.file_retrieve_stmt is None
        &&& self.file_delete_stmt is None
    }
}

/// Runs the folder and file statements on one connection, preparing each
/// of them the first time it is needed and reusing it afterwards.
pub struct RustFileScanDbContext<'a> {
    db: Db<'a>,
    stmts: Statements<'a>,
}


impl<'a> RustFileScanDbContext<'a> {
    /// Every prepared statement was prepared from its kind's SQL text.
    pub closed spec fn wf(&self) -> bool {
        self.stmts.wf()
    }

    /// The connection that every statement runs on.
    pub closed spec fn connection(&self) -> Connection {
        self.db.connection()
    }

    /// The kinds of statement that are prepared and kept for reuse.
    pub closed spec fn prepared(&self) -> Set<StatementKind> {
        Set::new(|k: StatementKind| self.stmts.slot(k) is Some)
    }

    /// Every exchange with the database made through this context, oldest
    /// first, as the calls into `rusqlite` recorded it.
    pub closed spec fn events(&self) -> Seq<DbEvent> {
        self.db.events()
    }

    /// Since `old`, `new` has statement `kind` prepared (preparing it if
    /// needed) and has handed it to SQLite once as `call`, with the outcome
    /// `ok`, and nothing else.
    pub open spec fn ran(old: Self, new: Self, kind: StatementKind, call: DbCall, ok: bool) -> bool {
        &&& new.wf()
        &&& new.connection() == old.connection()
        &&& new.prepared() == old.prepared().insert(kind)
        &&& new.events() == old.events().push(DbEvent::Run(call, ok))
    }

    /// Since `old`, `new` has statement `kind` prepared, has handed it to
    /// SQLite once as `call`, which succeeded, and then recorded `rest`.
    pub open spec fn ran_then(old: Self, new: Self, kind: StatementKind, call: DbCall, rest: Seq<DbEvent>) -> bool {
        &&& new.wf()
        &&& new.connection() == old.connection()
        &&& new.prepared() == old.prepared().insert(kind)
        &&& new.events() == old.events().push(DbEvent::Run(call, true)) + rest
    }

    /// Preparing statement `kind` failed, and nothing was handed to SQLite.
    pub open spec fn not_prepared(old: Self, new: Self, kind: StatementKind) -> bool {
        &&& new.wf()
        &&& new.connection() == old.connection()
        &&& !old.prepared().contains(kind)
        &&& new.prepared() == old.prepared()
        &&& new.events() == old.events().push(DbEvent::PrepareFailed(sql_text(kind)))
    }

    /// A context on `conn` that has prepared and run nothing yet.
    pub fn new(conn: &'a Connection) -> (ctxt: Self)
        ensures
            ctxt.wf(),
            ctxt.connection() == *conn,
            ctxt.prepared() == Set::<StatementKind>::empty(),
            ctxt.events() == Seq::<DbEvent>::empty(),
    {
        let ctxt = RustFileScanDbContext {
            db: Db::new(conn),
            stmts: Statements {
                folder_create_stmt: None,
                folder_retrieve_stmt: None,
                folder_update_stmt: None,
                folder_delete_stmt: None,
                file_create_stmt: None,
                file_retrieve_stmt: None,
                file_update_stmt: None,
                file_delete_stmt: None,
            },
        };
        assert(ctxt.prepared() =~= Set::<StatementKind>::empty());
        ctxt
    }

    /// Prepares statement `kind` from `sql` unless it is prepared already.
    fn ensure_kind_prepared(&mut self, kind: StatementKind, sql: &str) -> (r: Result<(), DbError>)
        requires
            old(self).wf(),
            sql@ == sql_text(kind),
        ensures
            final(self).wf(),
            final(self).connection() == old(self).connection(),
            r is Ok ==> final(self).prepared() == old(self).prepared().insert(kind)
                && final(self).stmts.slot(kind) is Some
                && final(self).events() == old(self).events(),
            r matches Err(e) ==> e is Sqlite && Self::not_prepared(*old(self), *final(self), kind),
    {
        let slot = self.stmts.slot_mut(kind);
        let r = ensure_prepared(slot, &mut self.db, sql);
        proof {
            if r is Ok {
                assert(self.prepared() =~= old(self).prepared().insert(kind));
            } else {
                assert(self.prepared() =~= old(self).prepared());
            }
        }
        r
    }

    /// Prepares statement `kind` from `sql` unless it is prepared already,
    /// then hands it to SQLite once with `params`: `Ok` exactly where that
    /// succeeds.
    fn run_execute(&mut self, kind: StatementKind, sql: &str, params: &Vec<(&str, SqlParam)>) -> (r: Result<(), DbError>)
        requires
            old(self).wf(),
            sql@ == sql_text(kind),
        ensures
            r is Ok ==> Self::ran(*old(self), *final(self), kind, DbCall { sql: sql@, params: params_view(params@) }, true),
            r matches Err(e) ==> {
                &&& e is Sqlite
                &&& (Self::ran(*old(self), *final(self), kind, DbCall { sql: sql@, params: params_view(params@) }, false)
                    || Self::not_prepared(*old(self), *final(self), kind))
            },
    {
        match self.ensure_kind_prepared(kind, sql) {
            Ok(()) => {},
            Err(e) => { return Err(e); },
        }
        let ghost before = *self;
        let slot = self.stmts.slot_mut(kind);
        let prepared = slot.as_mut().unwrap();
        let executed = sqlite::execute(&mut self.db, prepared, params);
        proof {
            assert(self.prepared() =~= before.prepared());
        }
        match executed {
            Ok(_) => Ok(()),
            Err(e) => Err(DbError::Sqlite(e)),
        }
    }

    /// Inserts `folder` (its name and parent) and records in `folder.id` the
    /// id that the database gave it, which is also returned. `Ok` exactly
    /// where the insert succeeded.
    pub fn create_folder(&mut self, folder: &mut FolderModel) -> (r: Result<i64, DbError>)
        requires
            old(self).wf(),
        ensures
            match r {
                Ok(id) => {
                    &&& Self::ran_then(*old(self), *final(self), StatementKind::FolderCreate,
                        folder_insert_call(*old(folder)), seq![DbEvent::RowId(id)])
                    &&& *final(folder) == (FolderModel { id: id, ..*old(folder) })
                },
                Err(e) => {
                    &&& e is Sqlite
                    &&& *final(folder) == *old(folder)
                    &&& (Self::ran(*old(self), *final(self), StatementKind::FolderCreate, folder_insert_call(*old(folder)), false)
                        || Self::not_prepared(*old(self), *final(self), StatementKind::FolderCreate))
                },
            },
    {
        let params = vec![
            (":name", SqlParam::Text(folder.name.clone())),
            (":parent_folder_id", SqlParam::Integer(folder.parent_folder_id)),
        ];
        proof {
            assert(params_view(params@) =~= folder_insert_call(*folder).params);
        }
        let sql = "INSERT INTO folders (name, parent_folder_id) VALUES (:name, :parent_folder_id);";
        match self.run_execute(StatementKind::FolderCreate, sql, &params) {
            Ok(()) => {},
            Err(e) => { return Err(e); },
        }
        let ghost ran = self.events();
        let id = sqlite::last_insert_rowid(&mut self.db);
        folder.id = id;
        proof {
            assert(self.events() =~= old(self).events().push(
                DbEvent::Run(folder_insert_call(*old(folder)), true)) + seq![DbEvent::RowId(id)]);
        }
        Ok(id)
    }

    /// Reads back the folder stored with the given id: the first row that
    /// the query yields, made into a folder by `FolderModel::from_row`. The
    /// folder comes back without its sub-folders and files, which are not
    /// read. After the query nothing but reading is done, whatever the
    /// outcome.
    pub fn retrieve_folder(&mut self, id: i64) -> (r: Result<FolderModel, DbError>)
        requires
            old(self).wf(),
        ensures
            r matches Ok(f) ==> {
                &&& Self::ran_then(*old(self), *final(self), StatementKind::FolderRetrieve,
                    folder_select_call(id), folder_row_events(f))
                &&& f.folders@.len() == 0
                &&& f.files@.len() == 0
            },
            r matches Err(e) ==> e is Sqlite || e is QueryReturnedNoRows,
            r matches Err(DbError::QueryReturnedNoRows) ==> Self::ran_then(*old(self), *final(self),
                StatementKind::FolderRetrieve, folder_select_call(id), seq![DbEvent::NextRow(false)]),
            r matches Err(DbError::Sqlite(_)) ==> {
                ||| Self::not_prepared(*old(self), *final(self), StatementKind::FolderRetrieve)
                ||| Self::ran(*old(self), *final(self), StatementKind::FolderRetrieve, folder_select_call(id), false)
                ||| {
                    &&& Self::ran_then(*old(self), *final(self), StatementKind::FolderRetrieve,
                        folder_select_call(id), added(old(self).events(), final(self).events(), 1))
                    &&& failed_reads(added(old(self).events(), final(self).events(), 1))
                }
            },
    {
        let params = vec![(":id", SqlParam::Integer(id))];
        proof {
            assert(params_view(params@) =~= folder_select_call(id).params);
        }
        let sql = "SELECT id, name, parent_folder_id FROM folders WHERE id = :id;";
        proof {
            lemma_folder_select_text();
        }
        match self.ensure_kind_prepared(StatementKind::FolderRetrieve, sql) {
            Ok(()) => {},
            Err(e) => { return Err(e); },
        }
        let ghost before = *self;
        proof {
            assert(self.prepared().contains(StatementKind::FolderRetrieve));
        }
        let prepared = self.stmts.folder_retrieve_stmt.as_mut().unwrap();
        proof {
            assert(prepared.sql() == sql_text(StatementKind::FolderRetrieve));
            assert(DbCall { sql: prepared.sql(), params: params_view(params@) } == folder_select_call(id));
        }
        let r = read_folder(&mut self.db, prepared, &params);
        proof {
            assert(self.prepared() =~= before.prepared());
            if r matches Err(DbError::QueryReturnedNoRows) {
                assert(self.events() =~= old(self).events().push(DbEvent::Run(folder_select_call(id), true))
                    + seq![DbEvent::NextRow(false)]);
            }
        }
        r
    }

    /// Overwrites the name and parent of the stored folder whose id is
    /// `folder.id`; `Ok` exactly where the update succeeded.
    pub fn update_folder(&mut self, folder: &FolderModel) -> (r: Result<(), DbError>)
        requires
            old(self).wf(),
        ensures
            r is Ok ==> Self::ran(*old(self), *final(self), StatementKind::FolderUpdate, folder_update_call(*folder), true),
            r matches Err(e) ==> {
                &&& e is Sqlite
                &&& (Self::ran(*old(self), *final(self), StatementKind::FolderUpdate, folder_update_call(*folder), false)
                    || Self::not_prepared(*old(self), *final(self), StatementKind::FolderUpdate))
            },
    {
        let params = vec![
            (":id", SqlParam::Integer(folder.id)),
            (":name", SqlParam::Text(folder.name.clone())),
            (":parent_folder_id", SqlParam::Integer(folder.parent_folder_id)),
        ];
        proof {
            assert(params_view(params@) =~= folder_update_call(*folder).params);
        }
        let sql = "UPDATE folders SET name = :name, parent_folder_id = :parent_folder_id WHERE id = :id;";
        proof {
            lemma_folder_update_text();
        }
        self.run_execute(StatementKind::FolderUpdate, sql, &params)
    }

    /// Deletes the stored folder with the given id; `Ok` exactly where the
    /// delete succeeded.
    pub fn delete_folder(&mut self, id: i64) -> (r: Result<(), DbError>)
        requires
            old(self).wf(),
        ensures
            r is Ok ==> Self::ran(*old(self), *final(self), StatementKind::FolderDelete, folder_delete_call(id), true),
            r matches Err(e) ==> {
                &&& e is Sqlite
                &&& (Self::ran(*old(self), *final(self), StatementKind::FolderDelete, folder_delete_call(id), false)
                    || Self::not_prepared(*old(self), *final(self), StatementKind::FolderDelete))
            },
    {
        let params = vec![(":id", SqlParam::Integer(id))];
        proof {
            assert(params_view(params@) =~= folder_delete_call(id).params);
        }
        let sql = "DELETE FROM folders WHERE id = :id;";
        proof {
            lemma_folder_delete_text();
        }
        self.run_execute(StatementKind::FolderDelete, sql, &params)
    }

    /// Inserts `file` and records in `file.id` the id that the database gave
    /// it, which is also returned; `Ok` exactly where the insert succeeded.
    /// The size is stored as the signed integer with the same bits.
    pub fn create_file(&mut self, file: &mut FileModel) -> (r: Result<i64, DbError>)
        requires
            old(self).wf(),
        ensures
            match r {
                Ok(id) => {
                    &&& Self::ran_then(*old(self), *final(self), StatementKind::FileCreate,
                        file_insert_call(*old(file)), seq![DbEvent::RowId(id)])
                    &&& *final(file) == (FileModel { id: id, ..*old(file) })
                },
                Err(e) => {
                    &&& e is Sqlite
                    &&& *final(file) == *old(file)
                    &&& (Self::ran(*old(self), *final(self), StatementKind::FileCreate, file_insert_call(*old(file)), false)
                        || Self::not_prepared(*old(self), *final(self), StatementKind::FileCreate))
                },
            },
    {
        let size_i64 = file.size as i64;
        let params = vec![
            (":name", SqlParam::Text(file.name.clone())),
            (":parent_folder_id", SqlParam::Integer(file.parent_folder_id)),
            (":hash", SqlParam::Text(file.hash.clone())),
            (":size", SqlParam::Integer(size_i64)),
            (":modified_date", SqlParam::Text(file.modified_date.clone())),
        ];
        proof {
            assert(params_view(params@) =~= file_insert_call(*file).params);
        }
        let sql = "INSERT INTO files (name, parent_folder_id, hash, size, modified_date) \n                VALUES (:name, :parent_folder_id, :hash, :size, :modified_date)";
        match self.run_execute(StatementKind::FileCreate, sql, &params) {
            Ok(()) => {},
            Err(e) => { return Err(e); },
        }
        let id = sqlite::last_insert_rowid(&mut self.db);
        file.id = id;
        proof {
            assert(self.events() =~= old(self).events().push(
                DbEvent::Run(file_insert_call(*old(file)), true)) + seq![DbEvent::RowId(id)]);
        }
        Ok(id)
    }

    /// Lists the stored files whose size at least one other stored file
    /// shares: the files that may be copies of one another. Each row is made
    /// into a file by `FileModel::from_row`. After the query nothing but
    /// reading is done, whatever the outcome.
    pub fn find_potential_duplicate_files(&mut self) -> (r: Result<Vec<FileModel>, DbError>)
        requires
            old(self).wf(),
        ensures
            final(self).wf(),
            final(self).connection() == old(self).connection(),
            final(self).prepared() == old(self).prepared(),
            match r {
                Ok(files) => final(self).events() == old(self).events().push(DbEvent::Run(duplicate_sizes_call(), true))
                    + file_rows_events(files@) + seq![DbEvent::NextRow(false)],
                Err(DbError::Sqlite(_)) => {
                    ||| final(self).events() == old(self).events().push(DbEvent::PrepareFailed(duplicate_sizes_sql()))
                    ||| final(self).events() == old(self).events().push(DbEvent::Run(duplicate_sizes_call(), false))
                    ||| {
                        &&& final(self).events() == old(self).events().push(DbEvent::Run(duplicate_sizes_call(), true))
                            + added(old(self).events(), final(self).events(), 1)
                        &&& failed_reads(added(old(self).events(), final(self).events(), 1))
                    }
                },
                Err(DbError::TooManyRows) => {
                    &&& final(self).events() == old(self).events().push(DbEvent::Run(duplicate_sizes_call(), true))
                        + added(old(self).events(), final(self).events(), 1)
                    &&& clean_reads(added(old(self).events(), final(self).events(), 1))
                },
                Err(DbError::QueryReturnedNoRows) => false,
            },
    {
        let sql = "SELECT id, name, parent_folder_id, hash, size, modified_date FROM files WHERE size IN (SELECT size FROM files GROUP BY size HAVING COUNT(*) > 1) ORDER BY size, id;";
        proof {
            lemma_duplicate_sizes_text();
        }
        let mut stmt = match sqlite::prepare(&mut self.db, sql) {
            Ok(stmt) => stmt,
            Err(e) => {
                proof {
                    assert(self.prepared() =~= old(self).prepared());
                }
                return Err(DbError::Sqlite(e));
            },
        };
        let params: Vec<(&str, SqlParam)> = Vec::new();
        proof {
            assert(params_view(params@) =~= duplicate_sizes_call().params);
            assert(stmt.sql() == duplicate_sizes_sql());
            assert(DbCall { sql: stmt.sql(), params: params_view(params@) } == duplicate_sizes_call());
        }
        let r = read_files(&mut self.db, &mut stmt, &params);
        proof {
            assert(self.prepared() =~= old(self).prepared());
        }
        r
    }

    /// Overwrites every column of the stored file whose id is `file.id`;
    /// `Ok` exactly where the update succeeded.
    pub fn update_file(&mut self, file: &FileModel) -> (r: Result<(), DbError>)
        requires
            old(self).wf(),
        ensures
            r is Ok ==> Self::ran(*old(self), *final(self), StatementKind::FileUpdate, file_update_call(*file), true),
            r matches Err(e) ==> {
                &&& e is Sqlite
                &&& (Self::ran(*old(self), *final(self), StatementKind::FileUpdate, file_update_call(*file), false)
                    || Self::not_prepared(*old(self), *final(self), StatementKind::FileUpdate))
            },
    {
        let size_i64 = file.size as i64;
        let params = vec![
            (":id", SqlParam::Integer(file.id)),
            (":name", SqlParam::Text(file.name.clone())),
            (":parent_folder_id", SqlParam::Integer(file.parent_folder_id)),
            (":hash", SqlParam::Text(file.hash.clone())),
            (":size", SqlParam::Integer(size_i64)),
            (":modified_date", SqlParam::Text(file.modified_date.clone())),
        ];
        proof {
            assert(params_view(params@) =~= file_update_call(*file).params);
        }
        let sql = "UPDATE files SET name = :name, parent_folder_id = :parent_folder_id, hash = :hash, size = :size, modified_date = :modified_date WHERE id = :id;";
        proof {
            lemma_file_update_text();
        }
        self.run_execute(StatementKind::FileUpdate, sql, &params)
    }

    /// Hands the statements in `sql` to SQLite as they stand; `Ok` exactly
    /// where that succeeded.
    pub fn execute_batch(&mut self, sql: &str) -> (r: Result<(), DbError>)
        requires
            old(self).wf(),
        ensures
            final(self).wf(),
            final(self).connection() == old(self).connection(),
            final(self).prepared() == old(self).prepared(),
            final(self).events() == old(self).events().push(DbEvent::Run(batch_call(sql@), r is Ok)),
            r matches Err(e) ==> e is Sqlite,
    {
        let executed = sqlite::execute_batch(&mut self.db, sql);
        proof {
            assert(self.prepared() =~= old(self).prepared());
        }
        sqlite_result(executed)
    }
}

/// Reading more after `reads` keeps them clean.
proof fn lemma_clean_push(reads: Seq<DbEvent>, e: DbEvent)
    requires
        clean_reads(reads),
        e is NextRow || e is Value,
    ensures
        clean_reads(reads.push(e)),
{
    assert forall|i: int| 0 <= i < reads.push(e).len() implies (#[trigger] reads.push(e)[i] is NextRow
        || reads.push(e)[i] is Value) by {
        if i < reads.len() {
            assert(reads.push(e)[i] == reads[i]);
        }
    }
}

/// Clean reads followed by a failed read are failed reads.
proof fn lemma_reads_then_failure(reads: Seq<DbEvent>)
    requires
        clean_reads(reads),
    ensures
        failed_reads(reads.push(DbEvent::ReadFailed)),
{
    assert(reads.push(DbEvent::ReadFailed).drop_last() =~= reads);
}

/// Reads the first row of `stmt` run with `params` as a folder; after the
/// query it only reads.
fn read_folder(db: &mut Db, stmt: &mut PreparedStatement, params: &Vec<(&str, SqlParam)>) -> (r: Result<FolderModel, DbError>)
    ensures
        final(db).connection() == old(db).connection(),
        final(stmt).sql() == old(stmt).sql(),
        match r {
            Ok(f) => {
                &&& final(db).events() == old(db).events().push(
                    DbEvent::Run(DbCall { sql: old(stmt).sql(), params: params_view(params@) }, true),
                ) + folder_row_events(f)
                &&& f.folders@.len() == 0
                &&& f.files@.len() == 0
            },
            Err(DbError::QueryReturnedNoRows) => final(db).events() == old(db).events().push(
                DbEvent::Run(DbCall { sql: old(stmt).sql(), params: params_view(params@) }, true),
            ).push(DbEvent::NextRow(false)),
            Err(DbError::Sqlite(_)) => {
                ||| final(db).events() == old(db).events().push(
                    DbEvent::Run(DbCall { sql: old(stmt).sql(), params: params_view(params@) }, false),
                )
                ||| {
                    &&& final(db).events() == old(db).events().push(
                        DbEvent::Run(DbCall { sql: old(stmt).sql(), params: params_view(params@) }, true),
                    ) + added(old(db).events(), final(db).events(), 1)
                    &&& failed_reads(added(old(db).events(), final(db).events(), 1))
                }
            },
            Err(DbError::TooManyRows) => false,
        },
{
    let ghost e0 = db.events();
    let queried = sqlite::query(db, stmt, params);
    let ghost e1 = db.events();
    let mut rows = match queried {
        Ok(rows) => rows,
        Err(e) => { return Err(DbError::Sqlite(e)); },
    };
    let row = match sqlite::next_row(db, &mut rows) {
        Ok(Some(row)) => row,
        Ok(None) => { return Err(DbError::QueryReturnedNoRows); },
        Err(e) => {
            proof {
                lemma_failed_after(e1, seq![], db.events());
                assert(added(e0, db.events(), 1) =~= added(e1, db.events(), 0));
            }
            return Err(DbError::Sqlite(e));
        },
    };
    let ghost mut reads: Seq<DbEvent> = seq![DbEvent::NextRow(true)];
    proof {
        lemma_clean_push(seq![], DbEvent::NextRow(true));
        assert(seq![].push(DbEvent::NextRow(true)) =~= reads);
        assert(db.events() =~= e1 + reads);
    }
    let id = match read_i64(db, row, 0, Ghost(e1), Ghost(reads)) {
        Ok(v) => v,
        Err(e) => {
            proof { assert(added(e0, db.events(), 1) =~= added(e1, db.events(), 0)); }
            return Err(e);
        },
    };
    proof { reads = reads.push(DbEvent::Value(0, SqlArg::Integer(id))); }
    let name = match read_text(db, row, 1, Ghost(e1), Ghost(reads)) {
        Ok(v) => v,
        Err(e) => {
            proof { assert(added(e0, db.events(), 1) =~= added(e1, db.events(), 0)); }
            return Err(e);
        },
    };
    proof { reads = reads.push(DbEvent::Value(1, SqlArg::Text(name@))); }
    let parent_folder_id = match read_i64(db, row, 2, Ghost(e1), Ghost(reads)) {
        Ok(v) => v,
        Err(e) => {
            proof { assert(added(e0, db.events(), 1) =~= added(e1, db.events(), 0)); }
            return Err(e);
        },
    };
    let f = FolderModel::from_row(id, name, parent_folder_id);
    proof {
        assert(db.events() =~= e1 + folder_row_events(f));
    }
    Ok(f)
}

/// Reads integer column `idx` of `row`, after the history `base` and the
/// reads `reads` of that row so far.
fn read_i64(db: &mut Db, row: &rusqlite::Row, idx: usize, Ghost(base): Ghost<Seq<DbEvent>>, Ghost(reads): Ghost<Seq<DbEvent>>) -> (r: Result<i64, DbError>)
    requires
        old(db).events() == base + reads,
        clean_reads(reads),
    ensures
        final(db).connection() == old(db).connection(),
        r matches Ok(v) ==> final(db).events() == base + reads.push(DbEvent::Value(idx, SqlArg::Integer(v)))
            && clean_reads(reads.push(DbEvent::Value(idx, SqlArg::Integer(v)))),
        r matches Err(e) ==> e is Sqlite && final(db).events() == base + added(base, final(db).events(), 0)
            && failed_reads(added(base, final(db).events(), 0)),
{
    match sqlite::column_i64(db, row, idx) {
        Ok(v) => {
            proof {
                lemma_clean_push(reads, DbEvent::Value(idx, SqlArg::Integer(v)));
                assert(db.events() =~= base + reads.push(DbEvent::Value(idx, SqlArg::Integer(v))));
            }
            Ok(v)
        },
        Err(e) => {
            proof { lemma_failed_after(base, reads, db.events()); }
            Err(DbError::Sqlite(e))
        },
    }
}

/// Reads text column `idx` of `row`, after the history `base` and the reads
/// `reads` of that row so far.
fn read_text(db: &mut Db, row: &rusqlite::Row, idx: usize, Ghost(base): Ghost<Seq<DbEvent>>, Ghost(reads): Ghost<Seq<DbEvent>>) -> (r: Result<String, DbError>)
    requires
        old(db).events() == base + reads,
        clean_reads(reads),
    ensures
        final(db).connection() == old(db).connection(),
        r matches Ok(v) ==> final(db).events() == base + reads.push(DbEvent::Value(idx, SqlArg::Text(v@)))
            && clean_reads(reads.push(DbEvent::Value(idx, SqlArg::Text(v@)))),
        r matches Err(e) ==> e is Sqlite && final(db).events() == base + added(base, final(db).events(), 0)
            && failed_reads(added(base, final(db).events(), 0)),
{
    match sqlite::column_text(db, row, idx) {
        Ok(v) => {
            proof {
                lemma_clean_push(reads, DbEvent::Value(idx, SqlArg::Text(v@)));
                assert(db.events() =~= base + reads.push(DbEvent::Value(idx, SqlArg::Text(v@))));
            }
            Ok(v)
        },
        Err(e) => {
            proof { lemma_failed_after(base, reads, db.events()); }
            Err(DbError::Sqlite(e))
        },
    }
}

/// Reads the six columns of a row of the `files` table as a file; a failed
/// read ends the reading.
fn read_file_values(db: &mut Db, row: &rusqlite::Row) -> (r: Result<FileModel, DbError>)
    ensures
        final(db).connection() == old(db).connection(),
        match r {
            Ok(f) => final(db).events() == old(db).events() + file_value_events(f),
            Err(e) => {
                &&& e is Sqlite
                &&& final(db).events() == old(db).events() + added(old(db).events(), final(db).events(), 0)
                &&& failed_reads(added(old(db).events(), final(db).events(), 0))
            },
        },
{
    let ghost e0 = db.events();
    let ghost mut reads: Seq<DbEvent> = seq![];
    proof {
        assert(db.events() =~= e0 + reads);
    }
    let id = read_i64(db, row, 0, Ghost(e0), Ghost(reads))?;
    proof { reads = reads.push(DbEvent::Value(0, SqlArg::Integer(id))); }
    let name = read_text(db, row, 1, Ghost(e0), Ghost(reads))?;
    proof { reads = reads.push(DbEvent::Value(1, SqlArg::Text(name@))); }
    let parent_folder_id = read_i64(db, row, 2, Ghost(e0), Ghost(reads))?;
    proof { reads = reads.push(DbEvent::Value(2, SqlArg::Integer(parent_folder_id))); }
    let hash = read_text(db, row, 3, Ghost(e0), Ghost(reads))?;
    proof { reads = reads.push(DbEvent::Value(3, SqlArg::Text(hash@))); }
    let size = read_i64(db, row, 4, Ghost(e0), Ghost(reads))?;
    proof { reads = reads.push(DbEvent::Value(4, SqlArg::Integer(size))); }
    let modified_date = read_text(db, row, 5, Ghost(e0), Ghost(reads))?;
    let f = FileModel::from_row(id, name, parent_folder_id, hash, size, modified_date);
    proof {
        assert((size as u64) as i64 == size) by (bit_vector);
        assert(db.events() =~= e0 + file_value_events(f));
    }
    Ok(f)
}

/// Where the history is `e0` followed by clean reads and a failed read,
/// what was added since `e0` is exactly that.
proof fn lemma_failed_after(e0: Seq<DbEvent>, reads: Seq<DbEvent>, now: Seq<DbEvent>)
    requires
        clean_reads(reads),
        now == (e0 + reads).push(DbEvent::ReadFailed),
    ensures
        now == e0 + added(e0, now, 0),
        added(e0, now, 0) =~= reads.push(DbEvent::ReadFailed),
        added(e0, now, 0).last() is ReadFailed,
        added(e0, now, 0).len() > 0,
        clean_reads(added(e0, now, 0).drop_last()),
{
    assert(added(e0, now, 0) =~= reads.push(DbEvent::ReadFailed));
    assert(now =~= e0 + added(e0, now, 0));
    assert(added(e0, now, 0).drop_last() =~= reads);
}

/// Reads every row of `stmt` run with `params` as a file; after the query
/// it only reads.
fn read_files(db: &mut Db, stmt: &mut PreparedStatement, params: &Vec<(&str, SqlParam)>) -> (r: Result<Vec<FileModel>, DbError>)
    ensures
        final(db).connection() == old(db).connection(),
        match r {
            Ok(files) => final(db).events() == old(db).events().push(
                DbEvent::Run(DbCall { sql: old(stmt).sql(), params: params_view(params@) }, true),
            ) + file_rows_events(files@) + seq![DbEvent::NextRow(false)],
            Err(DbError::Sqlite(_)) => {
                ||| final(db).events() == old(db).events().push(
                    DbEvent::Run(DbCall { sql: old(stmt).sql(), params: params_view(params@) }, false),
                )
                ||| {
                    &&& final(db).events() == old(db).events().push(
                        DbEvent::Run(DbCall { sql: old(stmt).sql(), params: params_view(params@) }, true),
                    ) + added(old(db).events(), final(db).events(), 1)
                    &&& failed_reads(added(old(db).events(), final(db).events(), 1))
                }
            },
            Err(DbError::TooManyRows) => {
                &&& final(db).events() == old(db).events().push(
                    DbEvent::Run(DbCall { sql: old(stmt).sql(), params: params_view(params@) }, true),
                ) + added(old(db).events(), final(db).events(), 1)
                &&& clean_reads(added(old(db).events(), final(db).events(), 1))
            },
            Err(DbError::QueryReturnedNoRows) => false,
        },
{
    let ghost e0 = db.events();
    let queried = sqlite::query(db, stmt, params);
    let ghost e1 = db.events();
    let mut rows = match queried {
        Ok(rows) => rows,
        Err(e) => { return Err(DbError::Sqlite(e)); },
    };
    let mut files: Vec<FileModel> = Vec::new();
    proof {
        assert(e1 + file_rows_events(files@) =~= e1);
        lemma_file_rows_clean(files@);
    }
    loop
        invariant_except_break
            db.events() == e1 + file_rows_events(files@),
            clean_reads(file_rows_events(files@)),
        invariant
            db.connection() == old(db).connection(),
            e0 == old(db).events(),
            e1 == e0.push(DbEvent::Run(DbCall { sql: old(stmt).sql(), params: params_view(params@) }, true)),
        ensures
            db.connection() == old(db).connection(),
            db.events() == e1 + file_rows_events(files@) + seq![DbEvent::NextRow(false)],
        decreases usize::MAX - files.len(),
    {
        let ghost reads = file_rows_events(files@);
        if files.len() == usize::MAX {
            proof {
                assert(added(e0, db.events(), 1) =~= reads);
            }
            return Err(DbError::TooManyRows);
        }
        let row = match sqlite::next_row(db, &mut rows) {
            Ok(Some(row)) => row,
            Ok(None) => { break; },
            Err(e) => {
                proof {
                    lemma_reads_then_failure(reads);
                    assert(added(e0, db.events(), 1) =~= reads.push(DbEvent::ReadFailed));
                }
                return Err(DbError::Sqlite(e));
            },
        };
        let ghost e2 = db.events();
        let f = match read_file_values(db, row) {
            Ok(f) => f,
            Err(e) => {
                proof {
                    let tail = added(e2, db.events(), 0);
                    lemma_clean_push(reads, DbEvent::NextRow(true));
                    lemma_clean_concat(reads.push(DbEvent::NextRow(true)), tail.drop_last());
                    assert(added(e0, db.events(), 1) =~= reads.push(DbEvent::NextRow(true)) + tail);
                    assert(added(e0, db.events(), 1).drop_last() =~= reads.push(DbEvent::NextRow(true)) + tail.drop_last());
                }
                return Err(e);
            },
        };
        let ghost before = files@;
        files.push(f);
        proof {
            assert(files@.drop_last() =~= before);
            assert(db.events() =~= e2 + file_value_events(f));
            assert(file_rows_events(files@) =~= file_rows_events(before) + file_row_events(f));
            lemma_file_rows_clean(files@);
        }
    }
    Ok(files)
}

/// Two clean stretches of reads make one.
proof fn lemma_clean_concat(a: Seq<DbEvent>, b: Seq<DbEvent>)
    requires
        clean_reads(a),
        clean_reads(b),
    ensures
        clean_reads(a + b),
{
    assert forall|i: int| 0 <= i < (a + b).len() implies (#[trigger] (a + b)[i] is NextRow || (a + b)[i] is Value) by {
        if i < a.len() {
            assert((a + b)[i] == a[i]);
        } else {
            assert((a + b)[i] == b[i - a.len()]);
        }
    }
}

/// Reading back files records only rows and columns.
proof fn lemma_file_rows_clean(s: Seq<FileModel>)
    ensures
        clean_reads(file_rows_events(s)),
    decreases s.len(),
{
    if s.len() > 0 {
        lemma_file_rows_clean(s.drop_last());
        let r = file_row_events(s.last());
        assert(clean_reads(r)) by {
            assert forall|i: int| 0 <= i < r.len() implies (#[trigger] r[i] is NextRow || r[i] is Value) by {}
        }
        lemma_clean_concat(file_rows_events(s.drop_last()), r);
    }
}

/// Empties the database and creates its `folders` and `files` tables: hands
/// the batches of `schema_calls` to SQLite in order and stops at the first
/// that fails. `Ok` exactly where all of them succeeded.
pub fn initialize_database(ctxt: &mut RustFileScanDbContext) -> (r: Result<(), DbError>)
    requires
        old(ctxt).wf(),
    ensures
        final(ctxt).wf(),
        final(ctxt).connection() == old(ctxt).connection(),
        final(ctxt).prepared() == old(ctxt).prepared(),
        r is Ok ==> final(ctxt).events() == old(ctxt).events() + schema_events(schema_calls().len() as int),
        r matches Err(e) ==> {
            &&& e is Sqlite
            &&& exists|k: int| 0 <= k < schema_calls().len()
                && final(ctxt).events() == old(ctxt).events() + #[trigger] schema_failed_at(k)
        },
{
    let ghost events0 = ctxt.events();
    let ghost schema = schema_calls();
    let mut done: usize = 0;
    let batches: [&str; 4] = [
        "drop table if exists files;",
        "drop table if exists folders;",
        "create table if not exists folders (\n        id integer primary key not null,\n        parent_folder_id integer not null,\n        name text not null\n    );",
        "create table if not exists files (\n        id integer primary key not null,\n        parent_folder_id integer not null,\n        name text not null,\n        hash text not null,\n        size integer not null,\n        modified_date text not null\n    );",
    ];
    proof {
        lemma_schema_texts();
        assert(batches@.map_values(|b: &str| batch_call(b@)) =~= schema);
    }
    while done < 4
        invariant
            0 <= done <= 4,
            schema == schema_calls(),
            batches@.map_values(|b: &str| batch_call(b@)) == schema,
            ctxt.wf(),
            ctxt.connection() == old(ctxt).connection(),
            ctxt.prepared() == old(ctxt).prepared(),
            ctxt.events() == events0 + schema_events(done as int),
            events0 == old(ctxt).events(),
        decreases 4 - done,
    {
        let r = ctxt.execute_batch(batches[done]);
        proof {
            assert(schema[done as int] == batch_call(batches@[done as int]@));
        }
        match r {
            Ok(()) => {
                proof {
                    assert(schema_events(done + 1) =~= schema_events(done as int).push(DbEvent::Run(schema[done as int], true)));
                }
            },
            Err(e) => {
                proof {
                    assert(ctxt.events() =~= old(ctxt).events() + schema_failed_at(done as int));
                }
                return Err(e);
            },
        }
        done = done + 1;
    }
    proof {
        assert(ctxt.events() == old(ctxt).events() + schema_events(4));
    }
    Ok(())
}

/// Maps an error of `rusqlite` into the library's own.
fn sqlite_result<T>(r: Result<T, rusqlite::Error>) -> (out: Result<T, DbError>)
    ensures
        match r {
            Ok(v) => out == Ok::<T, DbError>(v),
            Err(e) => out == Err::<T, DbError>(DbError::Sqlite(e)),
        },
{
    match r {
        Ok(v) => Ok(v),
        Err(e) => Err(DbError::Sqlite(e)),
    }
}

/// Fills an empty slot with a statement prepared from `sql`.
fn ensure_prepared<'a>(slot: &mut Option<PreparedStatement<'a>>, db: &mut Db<'a>, sql: &str) -> (r: Result<(), DbError>)
    ensures
        final(db).connection() == old(db).connection(),
        *old(slot) is Some ==> *final(slot) == *old(slot) && r is Ok && final(db).events() == old(db).events(),
        *old(slot) is None && r is Ok ==> (*final(slot) matches Some(p) && p.sql() == sql@)
            && final(db).events() == old(db).events(),
        *old(slot) is None && r is Err ==> *final(slot) is None
            && final(db).events() == old(db).events().push(DbEvent::PrepareFailed(sql@)),
        r matches Err(e) ==> e is Sqlite,
{
    if slot.is_none() {
        let stmt = sqlite_result(sqlite::prepare(db, sql))?;
        *slot = Some(stmt);
    }
    Ok(())
}

} // verus!

