//! File-scan records and their storage in an SQLite database.

pub mod context;
pub mod effects;
pub mod models;
pub mod records;
pub mod scan;
pub mod sql;
pub mod sqlite;

use context::{
    DbError, RustFileScanDbContext, StatementKind, added, ends_in_failure, file_insert_call, folder_insert_call,
    no_failures, sql_text,
};
use models::{
    FileModel, FolderModel, file_count, file_count_seq, folder_count, folder_count_seq, kept, kept_under,
    total, total_seq, written, written_under,
};
use sqlite::{DbEvent, batch_call, is_failure};
use vstd::prelude::*;

verus! {

/// What inserting file `x` records: the insert, then the rowid that the
/// database gave it, which is `x.id`.
pub open spec fn file_write_events(x: FileModel) -> Seq<DbEvent> {
    seq![DbEvent::Run(file_insert_call(x), true), DbEvent::RowId(x.id)]
}

/// What inserting the files of `s`, in order, records.
pub open spec fn files_write_events(s: Seq<FileModel>) -> Seq<DbEvent>
    decreases s.len(),
{
    if s.len() == 0 {
        seq![]
    } else {
        files_write_events(s.drop_last()) + file_write_events(s.last())
    }
}

/// What writing the tree `f` records, in order: the insert of the folder
/// and the rowid it got (`f.id`), the insert and rowid of each of its files,
/// then everything that writing each sub-folder records.
pub open spec fn write_events(f: FolderModel) -> Seq<DbEvent>
    decreases f,
{
    seq![DbEvent::Run(folder_insert_call(f), true), DbEvent::RowId(f.id)] + files_write_events(f.files@)
        + write_events_seq(f.folders@)
}

/// What writing each folder of `s` in turn records.
pub open spec fn write_events_seq(s: Seq<FolderModel>) -> Seq<DbEvent>
    decreases s,
{
    if s.len() == 0 {
        seq![]
    } else {
        write_events_seq(s.drop_last()) + write_events(s.last())
    }
}

/// The number of statements in `s` that were handed to SQLite with the SQL
/// text `sql`.
pub open spec fn runs_of(s: Seq<DbEvent>, sql: Seq<char>) -> nat
    decreases s.len(),
{
    if s.len() == 0 {
        0
    } else {
        runs_of(s.drop_last(), sql) + match s.last() {
            DbEvent::Run(c, _) => if c.sql == sql { 1nat } else { 0nat },
            _ => 0nat,
        }
    }
}

/// Counting statements distributes over concatenation.
pub proof fn lemma_runs_of_add(a: Seq<DbEvent>, b: Seq<DbEvent>, sql: Seq<char>)
    ensures
        runs_of(a + b, sql) == runs_of(a, sql) + runs_of(b, sql),
    decreases b.len(),
{
    if b.len() > 0 {
        assert((a + b).drop_last() =~= a + b.drop_last());
        lemma_runs_of_add(a, b.drop_last(), sql);
    } else {
        assert(a + b =~= a);
    }
}

/// Writing a tree records one insert and one rowid for each record that
/// `total_items` counts in it.
pub proof fn lemma_write_events_len(f: FolderModel)
    ensures
        write_events(f).len() == 2 * total(f),
    decreases f,
{
    lemma_files_write_events_len(f.files@);
    lemma_write_events_seq_len(f.folders@);
}

/// Inserting a sequence of files records two events for each.
pub proof fn lemma_files_write_events_len(s: Seq<FileModel>)
    ensures
        files_write_events(s).len() == 2 * s.len(),
    decreases s.len(),
{
    if s.len() > 0 {
        lemma_files_write_events_len(s.drop_last());
    }
}

/// Writing a sequence of trees records two events for each record in them.
pub proof fn lemma_write_events_seq_len(s: Seq<FolderModel>)
    ensures
        write_events_seq(s).len() == 2 * total_seq(s),
    decreases s,
{
    if s.len() > 0 {
        lemma_write_events_seq_len(s.drop_last());
        lemma_write_events_len(s.last());
    }
}

/// A statement followed by a rowid counts once, where its text is `sql`.
proof fn lemma_runs_of_pair(c: sqlite::DbCall, id: i64, sql: Seq<char>)
    ensures
        runs_of(seq![DbEvent::Run(c, true), DbEvent::RowId(id)], sql) == if c.sql == sql { 1nat } else { 0nat },
{
    let s = seq![DbEvent::Run(c, true), DbEvent::RowId(id)];
    assert(s.drop_last() =~= seq![DbEvent::Run(c, true)]);
    assert(seq![DbEvent::Run(c, true)].drop_last() =~= Seq::<DbEvent>::empty());
    assert(runs_of(Seq::<DbEvent>::empty(), sql) == 0);
    assert(runs_of(seq![DbEvent::Run(c, true)], sql) == if c.sql == sql { 1nat } else { 0nat });
}

/// The folder insert and the file insert have different SQL texts.
proof fn lemma_insert_texts_differ()
    ensures
        sql_text(StatementKind::FolderCreate) != sql_text(StatementKind::FileCreate),
{
    reveal_strlit("INSERT INTO folders (name, parent_folder_id) VALUES (:name, :parent_folder_id);");
    reveal_strlit("INSERT INTO files (name, parent_folder_id, hash, size, modified_date) \n                VALUES (:name, :parent_folder_id, :hash, :size, :modified_date)");
    assert(sql_text(StatementKind::FolderCreate)[13] != sql_text(StatementKind::FileCreate)[13]);
}

/// Inserting files runs one file insert for each and no folder insert.
proof fn lemma_files_write_runs(s: Seq<FileModel>)
    ensures
        runs_of(files_write_events(s), sql_text(StatementKind::FolderCreate)) == 0,
        runs_of(files_write_events(s), sql_text(StatementKind::FileCreate)) == s.len(),
    decreases s.len(),
{
    lemma_insert_texts_differ();
    if s.len() > 0 {
        let x = s.last();
        lemma_files_write_runs(s.drop_last());
        lemma_runs_of_add(files_write_events(s.drop_last()), file_write_events(x), sql_text(StatementKind::FolderCreate));
        lemma_runs_of_add(files_write_events(s.drop_last()), file_write_events(x), sql_text(StatementKind::FileCreate));
        lemma_runs_of_pair(file_insert_call(x), x.id, sql_text(StatementKind::FolderCreate));
        lemma_runs_of_pair(file_insert_call(x), x.id, sql_text(StatementKind::FileCreate));
    }
}

/// Writing a tree runs one folder insert for each folder in it and one file
/// insert for each file in it, and nothing else is counted twice: together
/// they are the records that `total_items` counts.
pub proof fn lemma_write_runs(f: FolderModel)
    ensures
        runs_of(write_events(f), sql_text(StatementKind::FolderCreate)) == folder_count(f),
        runs_of(write_events(f), sql_text(StatementKind::FileCreate)) == file_count(f),
        folder_count(f) + file_count(f) == total(f),
    decreases f,
{
    let fs = sql_text(StatementKind::FolderCreate);
    let xs = sql_text(StatementKind::FileCreate);
    let head = seq![DbEvent::Run(folder_insert_call(f), true), DbEvent::RowId(f.id)];
    lemma_insert_texts_differ();
    lemma_files_write_runs(f.files@);
    lemma_write_runs_seq(f.folders@);
    lemma_runs_of_pair(folder_insert_call(f), f.id, fs);
    lemma_runs_of_pair(folder_insert_call(f), f.id, xs);
    lemma_runs_of_add(head, files_write_events(f.files@), fs);
    lemma_runs_of_add(head, files_write_events(f.files@), xs);
    lemma_runs_of_add(head + files_write_events(f.files@), write_events_seq(f.folders@), fs);
    lemma_runs_of_add(head + files_write_events(f.files@), write_events_seq(f.folders@), xs);
    models::lemma_total_is_folders_and_files(f);
}

/// Writing a sequence of trees runs one folder insert for each folder and
/// one file insert for each file in them.
pub proof fn lemma_write_runs_seq(s: Seq<FolderModel>)
    ensures
        runs_of(write_events_seq(s), sql_text(StatementKind::FolderCreate)) == folder_count_seq(s),
        runs_of(write_events_seq(s), sql_text(StatementKind::FileCreate)) == file_count_seq(s),
    decreases s,
{
    if s.len() > 0 {
        lemma_write_runs_seq(s.drop_last());
        lemma_write_runs(s.last());
        lemma_runs_of_add(write_events_seq(s.drop_last()), write_events(s.last()), sql_text(StatementKind::FolderCreate));
        lemma_runs_of_add(write_events_seq(s.drop_last()), write_events(s.last()), sql_text(StatementKind::FileCreate));
    }
}

/// A history with no failure in either part has none in the whole.
proof fn lemma_no_failures_add(a: Seq<DbEvent>, b: Seq<DbEvent>)
    requires
        no_failures(a),
        no_failures(b),
    ensures
        no_failures(a + b),
{
    assert forall|i: int| 0 <= i < (a + b).len() implies !is_failure(#[trigger] (a + b)[i]) by {
        if i < a.len() {
            assert((a + b)[i] == a[i]);
        } else {
            assert((a + b)[i] == b[i - a.len()]);
        }
    }
}

/// A run without failures, then a run ending in its first failure, ends in
/// its first failure.
proof fn lemma_failure_after(a: Seq<DbEvent>, b: Seq<DbEvent>)
    requires
        no_failures(a),
        ends_in_failure(b),
    ensures
        ends_in_failure(a + b),
{
    assert((a + b).drop_last() =~= a + b.drop_last());
    lemma_no_failures_add(a, b.drop_last());
}

/// Where the history grew from `old` by `a`, with no failure, and then by
/// `b`, ending in its first failure, what was added ends in its first
/// failure.
proof fn lemma_grew_to_failure(old: Seq<DbEvent>, a: Seq<DbEvent>, b: Seq<DbEvent>, now: Seq<DbEvent>)
    requires
        now == old + a + b,
        no_failures(a),
        ends_in_failure(b),
    ensures
        now == old + added(old, now, 0),
        ends_in_failure(added(old, now, 0)),
{
    assert(added(old, now, 0) =~= a + b);
    assert(now =~= old + (a + b));
    lemma_failure_after(a, b);
}

/// One failure alone ends in its first failure.
proof fn lemma_single_failure(e: DbEvent)
    requires
        is_failure(e),
    ensures
        ends_in_failure(seq![e]),
{
    assert(seq![e].drop_last() =~= Seq::<DbEvent>::empty());
}

/// Inserting files records no failure.
proof fn lemma_files_write_no_failures(s: Seq<FileModel>)
    ensures
        no_failures(files_write_events(s)),
    decreases s.len(),
{
    if s.len() > 0 {
        lemma_files_write_no_failures(s.drop_last());
        lemma_no_failures_add(files_write_events(s.drop_last()), file_write_events(s.last()));
    }
}

/// Writing a tree records no failure.
proof fn lemma_write_no_failures(f: FolderModel)
    ensures
        no_failures(write_events(f)),
    decreases f,
{
    let head = seq![DbEvent::Run(folder_insert_call(f), true), DbEvent::RowId(f.id)];
    lemma_files_write_no_failures(f.files@);
    lemma_write_seq_no_failures(f.folders@);
    lemma_no_failures_add(head, files_write_events(f.files@));
    lemma_no_failures_add(head + files_write_events(f.files@), write_events_seq(f.folders@));
}

/// Writing a sequence of trees records no failure.
proof fn lemma_write_seq_no_failures(s: Seq<FolderModel>)
    ensures
        no_failures(write_events_seq(s)),
    decreases s,
{
    if s.len() > 0 {
        lemma_write_seq_no_failures(s.drop_last());
        lemma_write_no_failures(s.last());
        lemma_no_failures_add(write_events_seq(s.drop_last()), write_events(s.last()));
    }
}

/// Writes the tree under `folder` through `ctxt`: the folder first, then
/// each of its files, then each of its sub-folders in the same way. Every
/// record gets the id that its own insert was given by the database, and
/// every file and sub-folder the id of the folder that holds it as its
/// parent. `Ok` exactly where every insert succeeded: the first that fails
/// ends the walk, so that what this call recorded ends in its only failure.
/// Whatever happens, only ids, and parents below the top folder, change.
pub fn internal_write(ctxt: &mut RustFileScanDbContext, folder: &mut FolderModel) -> (r: Result<(), DbError>)
    requires
        old(ctxt).wf(),
    ensures
        final(ctxt).wf(),
        final(ctxt).connection() == old(ctxt).connection(),
        old(ctxt).prepared().subset_of(final(ctxt).prepared()),
        final(ctxt).events() == old(ctxt).events() + added(old(ctxt).events(), final(ctxt).events(), 0),
        kept(*old(folder), *final(folder)),
        r is Ok ==> written(*old(folder), *final(folder)),
        r is Ok ==> added(old(ctxt).events(), final(ctxt).events(), 0) == write_events(*final(folder)),
        r matches Err(e) ==> e is Sqlite && ends_in_failure(added(old(ctxt).events(), final(ctxt).events(), 0)),
    decreases total(*old(folder)),
{
    let ghost before = *folder;
    let ghost e0 = ctxt.events();
    proof {
        models::lemma_kept_under_refl(before);
    }
    let id = match ctxt.create_folder(folder) {
        Ok(id) => id,
        Err(e) => {
            proof {
                let x = ctxt.events().last();
                assert(ctxt.events() =~= e0 + seq![] + seq![x]);
                assert(no_failures(Seq::<DbEvent>::empty()));
                lemma_single_failure(x);
                lemma_grew_to_failure(e0, seq![], seq![x], ctxt.events());
            }
            return Err(e);
        },
    };
    let ghost head = seq![DbEvent::Run(folder_insert_call(before), true), DbEvent::RowId(id)];
    let ghost events1 = ctxt.events();
    proof {
        assert forall|j: int| 0 <= j < before.folders@.len() implies kept_under(#[trigger] before.folders@[j], before.folders@[j]) by {
            models::lemma_kept_under_refl(before.folders@[j]);
        }
        assert(events1 =~= e0 + head);
        assert(no_failures(head)) by {
            assert forall|j: int| 0 <= j < head.len() implies !is_failure(#[trigger] head[j]) by {}
        }
    }
    let n = folder.files.len();
    let mut i: usize = 0;
    while i < n
        invariant
            0 <= i <= n,
            n == before.files@.len(),
            before == *old(folder),
            e0 == old(ctxt).events(),
            ctxt.wf(),
            ctxt.connection() == old(ctxt).connection(),
            old(ctxt).prepared().subset_of(ctxt.prepared()),
            head == seq![DbEvent::Run(folder_insert_call(before), true), DbEvent::RowId(id)],
            no_failures(head),
            events1 == e0 + head,
            folder.id == id,
            folder.name == before.name,
            folder.parent_folder_id == before.parent_folder_id,
            folder.folders == before.folders,
            folder.files@.len() == n,
            forall|j: int|
                0 <= j < i ==> #[trigger] folder.files@[j] == (FileModel {
                    id: folder.files@[j].id,
                    parent_folder_id: id,
                    ..before.files@[j]
                }),
            forall|j: int| i <= j < n ==> #[trigger] folder.files@[j] == before.files@[j],
            ctxt.events() == events1 + files_write_events(folder.files@.take(i as int)),
            forall|j: int| 0 <= j < before.folders@.len() ==> kept_under(#[trigger] before.folders@[j], before.folders@[j]),
        decreases n - i,
    {
        let ghost files_before = folder.files@;
        let ghost events_before = ctxt.events();
        let file = &mut folder.files[i];
        file.parent_folder_id = id;
        match ctxt.create_file(file) {
            Ok(_) => {},
            Err(e) => {
                proof {
                    let done = head + files_write_events(files_before.take(i as int));
                    let x = ctxt.events().last();
                    lemma_files_write_no_failures(files_before.take(i as int));
                    lemma_no_failures_add(head, files_write_events(files_before.take(i as int)));
                    lemma_single_failure(x);
                    assert(ctxt.events() =~= e0 + done + seq![x]);
                    lemma_grew_to_failure(e0, done, seq![x], ctxt.events());
                    assert forall|j: int| 0 <= j < n implies #[trigger] folder.files@[j] == (FileModel {
                        id: folder.files@[j].id,
                        parent_folder_id: folder.files@[j].parent_folder_id,
                        ..before.files@[j]
                    }) by {}
                    assert(kept_under(before, *folder));
                }
                return Err(e);
            },
        }
        proof {
            assert(folder.files@.take(i as int) =~= files_before.take(i as int));
            assert(folder.files@.take(i + 1).drop_last() =~= folder.files@.take(i as int));
            assert(folder.files@.take(i + 1).last() == folder.files@[i as int]);
            assert(ctxt.events() =~= events_before + file_write_events(folder.files@[i as int]));
        }
        i = i + 1;
    }
    proof {
        assert(folder.files@.take(n as int) =~= folder.files@);
        lemma_files_write_no_failures(folder.files@);
        lemma_no_failures_add(head, files_write_events(folder.files@));
    }
    let ghost events2 = ctxt.events();
    let ghost with_files = *folder;
    let ghost done_files = head + files_write_events(folder.files@);
    let m = folder.folders.len();
    let mut k: usize = 0;
    while k < m
        invariant
            0 <= k <= m,
            m == before.folders@.len(),
            before == *old(folder),
            e0 == old(ctxt).events(),
            ctxt.wf(),
            ctxt.connection() == old(ctxt).connection(),
            old(ctxt).prepared().subset_of(ctxt.prepared()),
            events2 == e0 + done_files,
            no_failures(done_files),
            folder.id == id,
            folder.name == before.name,
            folder.parent_folder_id == before.parent_folder_id,
            folder.files == with_files.files,
            folder.files@.len() == before.files@.len(),
            forall|j: int|
                0 <= j < before.files@.len() ==> #[trigger] folder.files@[j] == (FileModel {
                    id: folder.files@[j].id,
                    parent_folder_id: id,
                    ..before.files@[j]
                }),
            folder.folders@.len() == m,
            forall|j: int| 0 <= j < k ==> written_under(#[trigger] before.folders@[j], folder.folders@[j], id),
            forall|j: int| k <= j < m ==> #[trigger] folder.folders@[j] == before.folders@[j],
            ctxt.events() == events2 + write_events_seq(folder.folders@.take(k as int)),
            total(before) == total(*old(folder)),
        decreases m - k,
    {
        let ghost folders_before = folder.folders@;
        let ghost events_before = ctxt.events();
        proof {
            models::lemma_total_seq_element(before.folders@, k as int);
        }
        let child = &mut folder.folders[k];
        child.parent_folder_id = id;
        match internal_write(ctxt, child) {
            Ok(()) => {},
            Err(e) => {
                proof {
                    let done = done_files + write_events_seq(folders_before.take(k as int));
                    let tail = added(events_before, ctxt.events(), 0);
                    lemma_write_seq_no_failures(folders_before.take(k as int));
                    lemma_no_failures_add(done_files, write_events_seq(folders_before.take(k as int)));
                    assert(ctxt.events() =~= e0 + done + tail);
                    lemma_grew_to_failure(e0, done, tail, ctxt.events());
                    assert(kept_under(before.folders@[k as int], folder.folders@[k as int]));
                    assert forall|j: int| 0 <= j < m implies kept_under(#[trigger] before.folders@[j], folder.folders@[j]) by {
                        if j < k {
                            models::lemma_written_kept(before.folders@[j], folder.folders@[j], id);
                        } else if j > k {
                            models::lemma_kept_under_refl(before.folders@[j]);
                        }
                    }
                    assert forall|j: int| 0 <= j < before.files@.len() implies #[trigger] folder.files@[j] == (FileModel {
                        id: folder.files@[j].id,
                        parent_folder_id: folder.files@[j].parent_folder_id,
                        ..before.files@[j]
                    }) by {}
                    assert(kept_under(before, *folder));
                }
                return Err(e);
            },
        }
        proof {
            let s = folder.folders@;
            assert(s.take(k as int) =~= folders_before.take(k as int));
            assert(s.take(k + 1).drop_last() =~= s.take(k as int));
            assert(s.take(k + 1).last() == s[k as int]);
        }
        k = k + 1;
    }
    proof {
        assert(folder.folders@.take(m as int) =~= folder.folders@);
        assert(folder_insert_call(*folder) == folder_insert_call(before));
        assert(ctxt.events() =~= e0 + write_events(*folder));
        assert(added(e0, ctxt.events(), 0) =~= write_events(*folder));
        models::lemma_written_kept(before, *folder, before.parent_folder_id);
    }
    Ok(())
}

/// What beginning the transaction records, where it succeeded.
pub open spec fn begin_event(ok: bool) -> DbEvent {
    DbEvent::Run(batch_call("BEGIN TRANSACTION;"@), ok)
}

/// What committing the transaction records, where it succeeded.
pub open spec fn commit_event(ok: bool) -> DbEvent {
    DbEvent::Run(batch_call("COMMIT TRANSACTION;"@), ok)
}

/// Whether `e` records rolling back the transaction, whatever its outcome.
pub open spec fn is_rollback(e: DbEvent) -> bool {
    e matches DbEvent::Run(c, _) && c == batch_call("ROLLBACK TRANSACTION;"@)
}

/// Begins a transaction, writes the tree under `folder` as `internal_write`
/// does, and commits the transaction; `Ok` exactly where all of that
/// succeeded. Where writing or committing fails, the transaction is rolled
/// back, so that the database keeps none of the rows this call inserted.
pub fn write_folder_nested(ctxt: &mut RustFileScanDbContext, folder: &mut FolderModel) -> (r: Result<(), DbError>)
    requires
        old(ctxt).wf(),
    ensures
        final(ctxt).wf(),
        final(ctxt).connection() == old(ctxt).connection(),
        kept(*old(folder), *final(folder)),
        r is Ok ==> written(*old(folder), *final(folder)),
        r is Ok ==> final(ctxt).events() == old(ctxt).events().push(begin_event(true)) + write_events(*final(folder))
            + seq![commit_event(true)],
        r matches Err(e) ==> {
            &&& e is Sqlite
            &&& {
                ||| final(ctxt).events() == old(ctxt).events().push(begin_event(false))
                ||| {
                    &&& final(ctxt).events().len() > 0
                    &&& is_rollback(final(ctxt).events().last())
                    &&& final(ctxt).events().drop_last() == old(ctxt).events().push(begin_event(true))
                        + added(old(ctxt).events(), final(ctxt).events().drop_last(), 1)
                    &&& ends_in_failure(added(old(ctxt).events(), final(ctxt).events().drop_last(), 1))
                }
            }
        },
{
    let ghost e0 = ctxt.events();
    proof {
        models::lemma_kept_under_refl(*folder);
    }
    match ctxt.execute_batch("BEGIN TRANSACTION;") {
        Ok(()) => {},
        Err(e) => { return Err(e); },
    }
    let ghost began = ctxt.events();
    match internal_write(ctxt, folder) {
        Ok(()) => {},
        Err(e) => {
            let ghost failed = ctxt.events();
            let _ = ctxt.execute_batch("ROLLBACK TRANSACTION;");
            proof {
                assert(ctxt.events().drop_last() =~= failed);
                assert(added(e0, failed, 1) =~= added(began, failed, 0));
                assert(failed =~= e0.push(begin_event(true)) + added(e0, failed, 1));
            }
            return Err(e);
        },
    }
    let ghost written_calls = ctxt.events();
    proof {
        lemma_write_no_failures(*folder);
    }
    let r = ctxt.execute_batch("COMMIT TRANSACTION;");
    match r {
        Ok(()) => {
            proof {
                assert(ctxt.events() =~= e0.push(begin_event(true)) + write_events(*folder) + seq![commit_event(true)]);
            }
            Ok(())
        },
        Err(e) => {
            let ghost committed = ctxt.events();
            let _ = ctxt.execute_batch("ROLLBACK TRANSACTION;");
            proof {
                let tail = write_events(*folder) + seq![commit_event(false)];
                lemma_single_failure(commit_event(false));
                lemma_failure_after(write_events(*folder), seq![commit_event(false)]);
                assert(ctxt.events().drop_last() =~= committed);
                assert(committed =~= e0.push(begin_event(true)) + tail);
                assert(added(e0, committed, 1) =~= tail);
            }
            Err(e)
        },
    }
}

} // verus!
