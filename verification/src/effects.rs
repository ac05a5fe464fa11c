//! What the statements that a context hands to SQLite do to the database,
//! as SQL prescribes: each law below takes the SQL text and the parameters
//! that an operation of the context sends (as its contract records them)
//! and states their effect on any database, or the answer that SQLite may
//! give to them.

use crate::context::{
    lemma_statements_wf, duplicate_sizes_call, duplicate_sizes_statement, file_row_events, file_value_events, file_rows_events, file_update_call,
    file_update_statement, folder_delete_call, folder_delete_statement, folder_row_events, folder_select_call,
    folder_select_statement, folder_update_call, folder_update_statement, schema_calls, schema_statements,
};
use crate::models::{FileModel, FolderModel};
use crate::sql::{
    Database, Filter, answers, answers_sql, assign, bound, column_value, first_row_reads, holds, lemma_parse_render, parse,
    row_reads, rows_reads, run, run_calls, run_sql,
};
use crate::sqlite::{DbCall, DbEvent, SqlArg};
use vstd::prelude::*;

verus! {

/// Whether file `f` is the row stored under `f.id` in table `t`, column by
/// column (its size as the signed integer with the same bits).
pub open spec fn stored_file(t: Map<i64, Map<Seq<char>, SqlArg>>, f: FileModel) -> bool {
    &&& t.dom().contains(f.id)
    &&& t[f.id]["name"@] == SqlArg::Text(f.name@)
    &&& t[f.id]["parent_folder_id"@] == SqlArg::Integer(f.parent_folder_id)
    &&& t[f.id]["hash"@] == SqlArg::Text(f.hash@)
    &&& t[f.id]["size"@] == SqlArg::Integer(f.size as i64)
    &&& t[f.id]["modified_date"@] == SqlArg::Text(f.modified_date@)
}

/// `delete_folder(id)` deletes the folder stored under `id` and no other:
/// the delete that it sends, run on any database that has a `folders`
/// table, removes the row with that id, if there is one, keeps every other
/// folder as it was and leaves the other tables alone.
pub proof fn law_delete_folder_removes_only_its_row(id: i64, db: Database)
    requires
        db.tables.contains_key("folders"@),
    ensures
        run_sql(folder_delete_call(id).sql, folder_delete_call(id).params, db) == Some(
            Database { tables: db.tables.insert("folders"@, db.tables["folders"@].remove(id)) },
        ),
{
    reveal_strlit(":id");
    reveal_strlit(":");
    reveal_strlit("id");
    assert(":id"@ =~= ":"@ + "id"@);
    lemma_statements_wf();
    lemma_parse_render(folder_delete_statement());
    let params = folder_delete_call(id).params;
    assert(bound(params, "id"@) == Some(SqlArg::Integer(id)));
    let s = run(folder_delete_statement(), params, db);
    let t = db.tables["folders"@];
    assert(s.unwrap().tables["folders"@] =~= t.remove(id));
    assert(s.unwrap().tables =~= db.tables.insert("folders"@, t.remove(id)));
}

/// `update_folder(f)` overwrites the name and parent of the folder stored
/// under `f.id` with those of `f`, and nothing else: the update that it
/// sends, run on any database that has a `folders` table, gives that row
/// the name `f.name` and the parent `f.parent_folder_id`, keeps its other
/// columns and every other folder as they were, and leaves the other
/// tables alone.
pub proof fn law_update_folder_overwrites_its_row(f: FolderModel, db: Database)
    requires
        db.tables.contains_key("folders"@),
    ensures
        run_sql(folder_update_call(f).sql, folder_update_call(f).params, db) == Some(
            Database {
                tables: db.tables.insert(
                    "folders"@,
                    Map::new(
                        |k: i64| db.tables["folders"@].dom().contains(k),
                        |k: i64|
                            if k == f.id {
                                db.tables["folders"@][k].insert("name"@, SqlArg::Text(f.name@)).insert(
                                    "parent_folder_id"@,
                                    SqlArg::Integer(f.parent_folder_id),
                                )
                            } else {
                                db.tables["folders"@][k]
                            },
                    ),
                ),
            },
        ),
{
    reveal_strlit(":id");
    reveal_strlit(":name");
    reveal_strlit(":parent_folder_id");
    reveal_strlit(":");
    reveal_strlit("id");
    reveal_strlit("name");
    reveal_strlit("parent_folder_id");
    reveal_with_fuel(bound, 4);
    reveal_with_fuel(assign, 3);
    assert(":id"@ =~= ":"@ + "id"@);
    assert(":name"@ =~= ":"@ + "name"@);
    assert(":parent_folder_id"@ =~= ":"@ + "parent_folder_id"@);
    lemma_statements_wf();
    lemma_parse_render(folder_update_statement());
    let params = folder_update_call(f).params;
    assert(params.drop_last() =~= seq![(":id"@, SqlArg::Integer(f.id)), (":name"@, SqlArg::Text(f.name@))]);
    assert(params.drop_last().drop_last() =~= seq![(":id"@, SqlArg::Integer(f.id))]);
    assert(bound(params, "id"@) == Some(SqlArg::Integer(f.id)));
    assert(bound(params, "name"@) == Some(SqlArg::Text(f.name@)));
    assert(bound(params, "parent_folder_id"@) == Some(SqlArg::Integer(f.parent_folder_id)));
    let set = seq![("name"@, "name"@), ("parent_folder_id"@, "parent_folder_id"@)];
    assert(set.drop_last() =~= seq![("name"@, "name"@)]);
    assert(seq![("name"@, "name"@)].drop_last() =~= Seq::<(Seq<char>, Seq<char>)>::empty());
    let t = db.tables["folders"@];
    assert forall|k: i64| t.dom().contains(k) && k == f.id implies assign(t[k], set, params) == t[k].insert(
        "name"@,
        SqlArg::Text(f.name@),
    ).insert("parent_folder_id"@, SqlArg::Integer(f.parent_folder_id)) by {}
    let s = run(folder_update_statement(), params, db);
    let expected = Map::new(
        |k: i64| t.dom().contains(k),
        |k: i64|
            if k == f.id {
                t[k].insert("name"@, SqlArg::Text(f.name@)).insert(
                    "parent_folder_id"@,
                    SqlArg::Integer(f.parent_folder_id),
                )
            } else {
                t[k]
            },
    );
    assert(s.unwrap().tables["folders"@] =~= expected);
    assert(s.unwrap().tables =~= db.tables.insert("folders"@, expected));
}

/// `update_file(f)` overwrites every column of the file stored under
/// `f.id` with those of `f`, and nothing else: the update that it sends,
/// run on any database that has a `files` table, gives that row the name,
/// parent, hash, size (as the signed integer with the same bits) and
/// modification date of `f`, keeps every other file as it was, and leaves
/// the other tables alone.
pub proof fn law_update_file_overwrites_its_row(f: FileModel, db: Database)
    requires
        db.tables.contains_key("files"@),
    ensures
        run_sql(file_update_call(f).sql, file_update_call(f).params, db) == Some(
            Database {
                tables: db.tables.insert(
                    "files"@,
                    Map::new(
                        |k: i64| db.tables["files"@].dom().contains(k),
                        |k: i64|
                            if k == f.id {
                                db.tables["files"@][k].insert("name"@, SqlArg::Text(f.name@)).insert(
                                    "parent_folder_id"@,
                                    SqlArg::Integer(f.parent_folder_id),
                                ).insert("hash"@, SqlArg::Text(f.hash@)).insert(
                                    "size"@,
                                    SqlArg::Integer(f.size as i64),
                                ).insert("modified_date"@, SqlArg::Text(f.modified_date@))
                            } else {
                                db.tables["files"@][k]
                            },
                    ),
                ),
            },
        ),
{
    reveal_strlit(":id");
    reveal_strlit(":name");
    reveal_strlit(":parent_folder_id");
    reveal_strlit(":hash");
    reveal_strlit(":size");
    reveal_strlit(":modified_date");
    reveal_strlit(":");
    reveal_strlit("id");
    reveal_strlit("name");
    reveal_strlit("parent_folder_id");
    reveal_strlit("hash");
    reveal_strlit("size");
    reveal_strlit("modified_date");
    reveal_with_fuel(bound, 7);
    reveal_with_fuel(assign, 6);
    assert(":id"@ =~= ":"@ + "id"@);
    assert(":name"@ =~= ":"@ + "name"@);
    assert(":parent_folder_id"@ =~= ":"@ + "parent_folder_id"@);
    assert(":hash"@ =~= ":"@ + "hash"@);
    assert(":size"@ =~= ":"@ + "size"@);
    assert(":modified_date"@ =~= ":"@ + "modified_date"@);
    lemma_statements_wf();
    lemma_parse_render(file_update_statement());
    let params = file_update_call(f).params;
    let p = seq![
        (":id"@, SqlArg::Integer(f.id)),
        (":name"@, SqlArg::Text(f.name@)),
        (":parent_folder_id"@, SqlArg::Integer(f.parent_folder_id)),
        (":hash"@, SqlArg::Text(f.hash@)),
        (":size"@, SqlArg::Integer(f.size as i64)),
        (":modified_date"@, SqlArg::Text(f.modified_date@)),
    ];
    assert(params == p);
    assert(":size"@[1] != ":name"@[1] && ":size"@[1] != ":hash"@[1] && ":hash"@[1] != ":name"@[1]);
    assert(p.drop_last() =~= seq![p[0], p[1], p[2], p[3], p[4]]);
    assert(seq![p[0], p[1], p[2], p[3], p[4]].drop_last() =~= seq![p[0], p[1], p[2], p[3]]);
    assert(seq![p[0], p[1], p[2], p[3]].drop_last() =~= seq![p[0], p[1], p[2]]);
    assert(seq![p[0], p[1], p[2]].drop_last() =~= seq![p[0], p[1]]);
    assert(seq![p[0], p[1]].drop_last() =~= seq![p[0]]);
    assert(bound(params, "id"@) == Some(SqlArg::Integer(f.id)));
    assert(bound(params, "name"@) == Some(SqlArg::Text(f.name@)));
    assert(bound(params, "parent_folder_id"@) == Some(SqlArg::Integer(f.parent_folder_id)));
    assert(bound(params, "hash"@) == Some(SqlArg::Text(f.hash@)));
    assert(bound(params, "size"@) == Some(SqlArg::Integer(f.size as i64)));
    assert(bound(params, "modified_date"@) == Some(SqlArg::Text(f.modified_date@)));
    let set = seq![
        ("name"@, "name"@),
        ("parent_folder_id"@, "parent_folder_id"@),
        ("hash"@, "hash"@),
        ("size"@, "size"@),
        ("modified_date"@, "modified_date"@),
    ];
    assert(set.drop_last() =~= seq![set[0], set[1], set[2], set[3]]);
    assert(seq![set[0], set[1], set[2], set[3]].drop_last() =~= seq![set[0], set[1], set[2]]);
    assert(seq![set[0], set[1], set[2]].drop_last() =~= seq![set[0], set[1]]);
    assert(seq![set[0], set[1]].drop_last() =~= seq![set[0]]);
    assert(seq![set[0]].drop_last() =~= Seq::<(Seq<char>, Seq<char>)>::empty());
    let t = db.tables["files"@];
    let expected = Map::new(
        |k: i64| t.dom().contains(k),
        |k: i64|
            if k == f.id {
                t[k].insert("name"@, SqlArg::Text(f.name@)).insert(
                    "parent_folder_id"@,
                    SqlArg::Integer(f.parent_folder_id),
                ).insert("hash"@, SqlArg::Text(f.hash@)).insert("size"@, SqlArg::Integer(f.size as i64)).insert(
                    "modified_date"@,
                    SqlArg::Text(f.modified_date@),
                )
            } else {
                t[k]
            },
    );
    assert forall|k: i64| t.dom().contains(k) && k == f.id implies assign(t[k], set, params) == expected[k] by {}
    let s = run(file_update_statement(), params, db);
    assert(s.unwrap().tables["files"@] =~= expected);
    assert(s.unwrap().tables =~= db.tables.insert("files"@, expected));
}

/// Initializing empties both tables, whatever they held: the batches that
/// `initialize_database` hands to SQLite, run in order on any database,
/// leave a `folders` table and a `files` table that hold no row, and every
/// other table as it was.
pub proof fn law_initialize_empties_both_tables(db: Database)
    ensures
        run_calls(schema_calls(), db) == Some(
            Database {
                tables: db.tables.insert("folders"@, Map::<i64, Map<Seq<char>, SqlArg>>::empty()).insert(
                    "files"@,
                    Map::empty(),
                ),
            },
        ),
{
    reveal_strlit("files");
    reveal_strlit("folders");
    reveal_with_fuel(run_calls, 5);
    lemma_statements_wf();
    let st = schema_statements();
    let calls = schema_calls();
    assert forall|i: int| 0 <= i < 4 implies parse(#[trigger] calls[i].sql) == Some(st[i]) && calls[i].params
        == Seq::<(Seq<char>, SqlArg)>::empty() by {
        lemma_parse_render(st[i]);
    }
    assert(calls.drop_last() =~= seq![calls[0], calls[1], calls[2]]);
    assert(calls.drop_last().drop_last() =~= seq![calls[0], calls[1]]);
    assert(seq![calls[0], calls[1]].drop_last() =~= seq![calls[0]]);
    assert(seq![calls[0]].drop_last() =~= Seq::<DbCall>::empty());
    let empty = Map::<i64, Map<Seq<char>, SqlArg>>::empty();
    let t1 = db.tables.remove("files"@);
    let t2 = t1.remove("folders"@);
    let t3 = t2.insert("folders"@, empty);
    let t4 = t3.insert("files"@, empty);
    assert(run_calls(seq![calls[0]], db) == Some(Database { tables: t1 }));
    assert(run_calls(seq![calls[0], calls[1]], db) == Some(Database { tables: t2 }));
    assert(run_calls(seq![calls[0], calls[1], calls[2]], db) == Some(Database { tables: t3 }));
    assert("files"@.len() != "folders"@.len());
    assert(!t1.dom().contains("files"@));
    assert(!t3.dom().contains("files"@));
    assert(calls.last() == calls[3]);
    assert(run_calls(calls, db) == Some(Database { tables: t4 }));
    assert(t4 =~= db.tables.insert("folders"@, empty).insert("files"@, empty));
}

/// Reading a folder back by its id gives the folder stored under that id
/// and no other: where SQLite answers the query that `retrieve_folder(id)`
/// sends as SQL prescribes, the first row comes back exactly where a
/// folder is stored under `id`, and a folder read from it has that id and
/// the stored name and parent.
pub proof fn law_retrieve_folder_reads_its_row(id: i64, db: Database, rows: Seq<Seq<SqlArg>>)
    requires
        answers_sql(folder_select_call(id).sql, folder_select_call(id).params, db, rows),
    ensures
        (first_row_reads(rows) == seq![DbEvent::NextRow(false)]) <==> !db.tables["folders"@].dom().contains(id),
        forall|f: FolderModel|
            first_row_reads(rows) == #[trigger] folder_row_events(f) ==> {
                &&& f.id == id
                &&& db.tables["folders"@].dom().contains(id)
                &&& db.tables["folders"@][id]["name"@] == SqlArg::Text(f.name@)
                &&& db.tables["folders"@][id]["parent_folder_id"@] == SqlArg::Integer(f.parent_folder_id)
            },
{
    reveal_strlit(":id");
    reveal_strlit(":");
    reveal_strlit("id");
    reveal_strlit("name");
    reveal_strlit("parent_folder_id");
    assert(":id"@ =~= ":"@ + "id"@);
    lemma_statements_wf();
    lemma_parse_render(folder_select_statement());
    let params = folder_select_call(id).params;
    assert(bound(params, "id"@) == Some(SqlArg::Integer(id)));
    let t = db.tables["folders"@];
    let columns = seq!["id"@, "name"@, "parent_folder_id"@];
    let filter = crate::context::id_is_bound_id();
    let keys = choose|keys: Seq<i64>|
        {
            &&& keys.no_duplicates()
            &&& keys.len() == rows.len()
            &&& forall|k: i64|
                #![trigger keys.contains(k)]
                keys.contains(k) <==> (t.dom().contains(k) && crate::sql::holds(filter, params, db, t, k))
            &&& forall|i: int|
                #![trigger rows[i]]
                0 <= i < rows.len() ==> rows[i] == columns.map_values(
                    |c: Seq<char>| crate::sql::column_value(keys[i], t[keys[i]], c),
                )
        };
    assert forall|k: i64| keys.contains(k) <==> (t.dom().contains(k) && k == id) by {
        if keys.contains(k) {
        }
    }
    if t.dom().contains(id) {
        assert(keys.contains(id));
        assert(keys.len() == 1) by {
            if keys.len() > 1 {
                assert(keys.contains(keys[0]));
                assert(keys.contains(keys[1]));
            }
        }
        assert(keys[0] == id) by {
            assert(keys.contains(keys[0]));
        }
        let row = rows[0];
        assert(row == columns.map_values(|c: Seq<char>| crate::sql::column_value(id, t[id], c)));
        assert(row.len() == 3);
        assert(row[0] == SqlArg::Integer(id));
        assert(row[1] == t[id]["name"@]);
        assert(row[2] == t[id]["parent_folder_id"@]);
        let reads = row_reads(row);
        assert(reads.len() == 4);
        assert(reads[0] == DbEvent::NextRow(true));
        assert(reads[1] == DbEvent::Value(0, row[0]));
        assert(reads[2] == DbEvent::Value(1, row[1]));
        assert(reads[3] == DbEvent::Value(2, row[2]));
        assert(first_row_reads(rows) != seq![DbEvent::NextRow(false)]) by {
            assert(seq![DbEvent::NextRow(false)].len() == 1);
        }
        assert forall|f: FolderModel| first_row_reads(rows) == #[trigger] folder_row_events(f) implies {
            &&& f.id == id
            &&& t.dom().contains(id)
            &&& t[id]["name"@] == SqlArg::Text(f.name@)
            &&& t[id]["parent_folder_id"@] == SqlArg::Integer(f.parent_folder_id)
        } by {
            assert(reads[1] == folder_row_events(f)[1]);
            assert(reads[2] == folder_row_events(f)[2]);
            assert(reads[3] == folder_row_events(f)[3]);
        }
    } else {
        assert(keys.len() == 0) by {
            if keys.len() > 0 {
                assert(keys.contains(keys[0]));
            }
        }
        assert forall|f: FolderModel| first_row_reads(rows) == #[trigger] folder_row_events(f) implies false by {
            assert(first_row_reads(rows).len() == 1);
        }
    }
}

/// A sequence that ends in the same events as another, their starts being
/// as long, starts as the other does.
proof fn lemma_split_concat(a: Seq<DbEvent>, b: Seq<DbEvent>, c: Seq<DbEvent>, d: Seq<DbEvent>)
    requires
        a + b == c + d,
        b.len() == d.len(),
    ensures
        a == c,
        b == d,
{
    assert(a =~= (a + b).subrange(0, a.len() as int));
    assert(c =~= (c + d).subrange(0, c.len() as int));
    assert(b =~= (a + b).subrange(a.len() as int, (a + b).len() as int));
    assert(d =~= (c + d).subrange(c.len() as int, (c + d).len() as int));
}

/// Reading rows of six columns records seven events a row.
proof fn lemma_rows_reads_len(rows: Seq<Seq<SqlArg>>)
    requires
        forall|i: int| 0 <= i < rows.len() ==> (#[trigger] rows[i]).len() == 6,
    ensures
        rows_reads(rows).len() == 7 * rows.len(),
    decreases rows.len(),
{
    if rows.len() > 0 {
        lemma_rows_reads_len(rows.drop_last());
    }
}

/// Reading back files records seven events a file.
proof fn lemma_file_rows_len(files: Seq<FileModel>)
    ensures
        file_rows_events(files).len() == 7 * files.len(),
    decreases files.len(),
{
    if files.len() > 0 {
        lemma_file_rows_len(files.drop_last());
    }
}

/// Where reading rows of six columns records what reading back `files`
/// does, row `i` is read as file `i`.
proof fn lemma_reads_match(rows: Seq<Seq<SqlArg>>, files: Seq<FileModel>)
    requires
        forall|i: int| 0 <= i < rows.len() ==> (#[trigger] rows[i]).len() == 6,
        rows_reads(rows) == file_rows_events(files),
    ensures
        rows.len() == files.len(),
        forall|i: int| 0 <= i < rows.len() ==> row_reads(#[trigger] rows[i]) == file_row_events(files[i]),
    decreases rows.len(),
{
    lemma_rows_reads_len(rows);
    lemma_file_rows_len(files);
    if rows.len() > 0 {
        let rest = rows.drop_last();
        assert(row_reads(rows.last()).len() == 7);
        lemma_split_concat(
            rows_reads(rest),
            row_reads(rows.last()),
            file_rows_events(files.drop_last()),
            file_row_events(files.last()),
        );
        lemma_reads_match(rest, files.drop_last());
        assert forall|i: int| 0 <= i < rows.len() implies row_reads(#[trigger] rows[i]) == file_row_events(files[i]) by {
            if i < rows.len() - 1 {
                assert(rest[i] == rows[i]);
            }
        }
    }
}

/// A row of six columns read as file `f` holds `f`'s columns in order.
proof fn lemma_row_as_file(row: Seq<SqlArg>, f: FileModel)
    requires
        row.len() == 6,
        row_reads(row) == file_row_events(f),
    ensures
        row[0] == SqlArg::Integer(f.id),
        row[1] == SqlArg::Text(f.name@),
        row[2] == SqlArg::Integer(f.parent_folder_id),
        row[3] == SqlArg::Text(f.hash@),
        row[4] == SqlArg::Integer(f.size as i64),
        row[5] == SqlArg::Text(f.modified_date@),
{
    let r = row_reads(row);
    let e = file_row_events(f);
    let v = Seq::new(row.len(), |i: int| DbEvent::Value(i as usize, row[i]));
    let w = file_value_events(f);
    assert(r =~= seq![DbEvent::NextRow(true)] + v);
    assert(e =~= seq![DbEvent::NextRow(true)] + w);
    assert(v =~= w) by {
        assert(v =~= r.subrange(1, 7));
        assert(w =~= e.subrange(1, 7));
    }
    assert(v[0] == w[0]);
    assert(v[1] == w[1]);
    assert(v[2] == w[2]);
    assert(v[3] == w[3]);
    assert(v[4] == w[4]);
    assert(v[5] == w[5]);
}

/// The potential duplicates are exactly the stored files whose size
/// another stored file shares, whatever their other columns: where SQLite
/// answers the query that `find_potential_duplicate_files` sends as SQL
/// prescribes, each file read from the answer is a stored file, column by
/// column, no file comes twice, and a stored file comes exactly where some
/// other stored file has the same size.
pub proof fn law_duplicates_are_the_files_sharing_a_size(
    db: Database,
    rows: Seq<Seq<SqlArg>>,
    files: Seq<FileModel>,
)
    requires
        answers_sql(duplicate_sizes_call().sql, duplicate_sizes_call().params, db, rows),
        rows_reads(rows) + seq![DbEvent::NextRow(false)] == file_rows_events(files) + seq![DbEvent::NextRow(false)],
    ensures
        forall|i: int| 0 <= i < files.len() ==> stored_file(db.tables["files"@], #[trigger] files[i]),
        forall|i: int, j: int|
            0 <= i < files.len() && 0 <= j < files.len() && i != j ==> #[trigger] files[i].id != #[trigger] files[j].id,
        forall|k: i64|
            #[trigger] db.tables["files"@].dom().contains(k) ==> ((exists|i: int|
                0 <= i < files.len() && #[trigger] files[i].id == k) <==> (exists|k2: i64|
                k2 != k && #[trigger] db.tables["files"@].dom().contains(k2) && db.tables["files"@][k2]["size"@]
                    == db.tables["files"@][k]["size"@])),
{
    reveal_strlit("id");
    reveal_strlit("name");
    reveal_strlit("parent_folder_id");
    reveal_strlit("hash");
    reveal_strlit("size");
    reveal_strlit("modified_date");
    lemma_statements_wf();
    lemma_parse_render(duplicate_sizes_statement());
    let t = db.tables["files"@];
    let params = duplicate_sizes_call().params;
    let columns = seq!["id"@, "name"@, "parent_folder_id"@, "hash"@, "size"@, "modified_date"@];
    let groups = seq!["size"@];
    let filter = Filter::Repeated { column: "size"@, table: "files"@, groups: groups };
    let keys = choose|keys: Seq<i64>|
        {
            &&& keys.no_duplicates()
            &&& keys.len() == rows.len()
            &&& forall|k: i64|
                #![trigger keys.contains(k)]
                keys.contains(k) <==> (t.dom().contains(k) && holds(filter, params, db, t, k))
            &&& forall|i: int|
                #![trigger rows[i]]
                0 <= i < rows.len() ==> rows[i] == columns.map_values(
                    |c: Seq<char>| column_value(keys[i], t[keys[i]], c),
                )
        };
    assert forall|i: int| 0 <= i < rows.len() implies (#[trigger] rows[i]).len() == 6 by {
        assert(rows[i] == columns.map_values(|c: Seq<char>| column_value(keys[i], t[keys[i]], c)));
    }
    lemma_split_concat(
        rows_reads(rows),
        seq![DbEvent::NextRow(false)],
        file_rows_events(files),
        seq![DbEvent::NextRow(false)],
    );
    lemma_reads_match(rows, files);
    assert forall|i: int| 0 <= i < files.len() implies files[i].id == keys[i] && stored_file(
        t,
        #[trigger] files[i],
    ) by {
        let row = rows[i];
        let k = keys[i];
        assert(row == columns.map_values(|c: Seq<char>| column_value(k, t[k], c)));
        lemma_row_as_file(row, files[i]);
        assert(row[0] == column_value(k, t[k], "id"@));
        assert(row[1] == column_value(k, t[k], "name"@));
        assert(row[2] == column_value(k, t[k], "parent_folder_id"@));
        assert(row[3] == column_value(k, t[k], "hash"@));
        assert(row[4] == column_value(k, t[k], "size"@));
        assert(row[5] == column_value(k, t[k], "modified_date"@));
        assert(keys.contains(k));
    }
    assert forall|i: int, j: int|
        0 <= i < files.len() && 0 <= j < files.len() && i != j implies #[trigger] files[i].id
        != #[trigger] files[j].id by {
        assert(files[i].id == keys[i]);
        assert(files[j].id == keys[j]);
    }
    assert forall|k: i64| #[trigger] t.dom().contains(k) implies ((exists|i: int|
        0 <= i < files.len() && #[trigger] files[i].id == k) <==> (exists|k2: i64|
        k2 != k && #[trigger] t.dom().contains(k2) && t[k2]["size"@] == t[k]["size"@])) by {
        if exists|i: int| 0 <= i < files.len() && #[trigger] files[i].id == k {
            let i = choose|i: int| 0 <= i < files.len() && #[trigger] files[i].id == k;
            assert(files[i].id == keys[i]);
            assert(keys.contains(k));
            assert(holds(filter, params, db, t, k));
            let (k1, k2) = choose|k1: i64, k2: i64|
                #![trigger t[k1], t[k2]]
                {
                    &&& k1 != k2
                    &&& t.dom().contains(k1)
                    &&& t.dom().contains(k2)
                    &&& forall|g: int|
                        0 <= g < groups.len() ==> column_value(k1, t[k1], #[trigger] groups[g])
                            == column_value(k2, t[k2], groups[g])
                    &&& column_value(k1, t[k1], "size"@) == column_value(k, t[k], "size"@)
                };
            assert(column_value(k1, t[k1], groups[0]) == column_value(k2, t[k2], groups[0]));
            if k1 != k {
                assert(t.dom().contains(k1) && t[k1]["size"@] == t[k]["size"@]);
            } else {
                assert(t.dom().contains(k2) && t[k2]["size"@] == t[k]["size"@]);
            }
        }
        if exists|k2: i64| k2 != k && #[trigger] t.dom().contains(k2) && t[k2]["size"@] == t[k]["size"@] {
            let k2 = choose|k2: i64| k2 != k && #[trigger] t.dom().contains(k2) && t[k2]["size"@] == t[k]["size"@];
            assert forall|g: int| 0 <= g < groups.len() implies column_value(k, t[k], #[trigger] groups[g])
                == column_value(k2, t[k2], groups[g]) by {
                assert(groups[g] == "size"@);
            }
            assert(column_value(k, t[k], "size"@) == column_value(k, t[k], "size"@));
            assert(holds(filter, params, db, t, k));
            assert(keys.contains(k));
            let i = choose|i: int| 0 <= i < keys.len() && keys[i] == k;
            assert(files[i].id == keys[i]);
        }
    }
}

} // verus!
