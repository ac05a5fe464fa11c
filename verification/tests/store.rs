use filescandb::context::{initialize_database, DbError, RustFileScanDbContext};
use filescandb::models::{FileModel, FolderModel};
use filescandb::write_folder_nested;
use rusqlite::Connection;

fn file(name: &str, size: u64) -> FileModel {
    FileModel {
        id: 0,
        parent_folder_id: 0,
        name: name.to_string(),
        hash: String::new(),
        size,
        modified_date: "2020-01-01T00:00:00+00:00".to_string(),
    }
}

fn folder(name: &str, folders: Vec<FolderModel>, files: Vec<FileModel>) -> FolderModel {
    FolderModel { id: 0, parent_folder_id: 0, name: name.to_string(), folders, files }
}

fn fresh() -> Connection {
    let conn = Connection::open_in_memory().unwrap();
    let mut ctxt = RustFileScanDbContext::new(&conn);
    initialize_database(&mut ctxt).unwrap();
    drop(ctxt);
    conn
}

fn count(conn: &Connection, table: &str) -> i64 {
    conn.query_row(&format!("SELECT COUNT(*) FROM {}", table), [], |r| r.get(0)).unwrap()
}

#[test]
fn create_then_retrieve_folder() {
    let conn = fresh();
    let mut ctxt = RustFileScanDbContext::new(&conn);
    let mut f = folder("/music", vec![], vec![]);
    f.parent_folder_id = 9;
    let id = ctxt.create_folder(&mut f).unwrap();
    assert_eq!(id, 1);
    assert_eq!(f.id, 1);
    let back = ctxt.retrieve_folder(1).unwrap();
    assert_eq!(back.id, 1);
    assert_eq!(back.name, "/music");
    assert_eq!(back.parent_folder_id, 9);
    assert!(back.folders.is_empty() && back.files.is_empty());
}

#[test]
fn ids_follow_insert_order() {
    let conn = fresh();
    let mut ctxt = RustFileScanDbContext::new(&conn);
    let mut a = folder("a", vec![], vec![]);
    let mut b = folder("b", vec![], vec![]);
    assert_eq!(ctxt.create_folder(&mut a).unwrap(), 1);
    assert_eq!(ctxt.create_folder(&mut b).unwrap(), 2);
    assert_eq!(b.id, 2);
}

#[test]
fn update_then_read_back() {
    let conn = fresh();
    let mut ctxt = RustFileScanDbContext::new(&conn);
    let mut f = folder("/docs", vec![], vec![]);
    ctxt.create_folder(&mut f).unwrap();
    let mut read_back = ctxt.retrieve_folder(f.id).unwrap();
    read_back.name = read_back.name + " hi mom!";
    ctxt.update_folder(&read_back).unwrap();
    let again = ctxt.retrieve_folder(f.id).unwrap();
    assert_eq!(again.name, "/docs hi mom!");
}

#[test]
fn retrieve_missing_folder_reports_no_rows() {
    let conn = fresh();
    let mut ctxt = RustFileScanDbContext::new(&conn);
    assert!(matches!(ctxt.retrieve_folder(5), Err(DbError::QueryReturnedNoRows)));
}

#[test]
fn delete_folder_removes_it() {
    let conn = fresh();
    let mut ctxt = RustFileScanDbContext::new(&conn);
    let mut f = folder("/tmp", vec![], vec![]);
    ctxt.create_folder(&mut f).unwrap();
    ctxt.delete_folder(f.id).unwrap();
    assert!(matches!(ctxt.retrieve_folder(f.id), Err(DbError::QueryReturnedNoRows)));
    assert_eq!(count(&conn, "folders"), 0);
}

#[test]
fn operations_without_tables_fail_with_sqlite_error() {
    let conn = Connection::open_in_memory().unwrap();
    let mut ctxt = RustFileScanDbContext::new(&conn);
    let mut f = folder("/x", vec![], vec![]);
    assert!(matches!(ctxt.create_folder(&mut f), Err(DbError::Sqlite(_))));
    assert_eq!(f.id, 0);
    let mut g = file("/x/y", 3);
    assert!(matches!(ctxt.create_file(&mut g), Err(DbError::Sqlite(_))));
    assert_eq!(g.id, 0);
    assert!(matches!(ctxt.retrieve_folder(1), Err(DbError::Sqlite(_))));
}

#[test]
fn create_file_stores_every_column() {
    let conn = fresh();
    let mut ctxt = RustFileScanDbContext::new(&conn);
    let mut g = file("/x/y", u64::MAX);
    g.parent_folder_id = 4;
    g.hash = "abc".to_string();
    let id = ctxt.create_file(&mut g).unwrap();
    assert_eq!(id, 1);
    assert_eq!(g.id, 1);
    let row: (i64, String, i64, String, i64, String) = conn
        .query_row("SELECT id, name, parent_folder_id, hash, size, modified_date FROM files", [], |r| {
            Ok((r.get(0)?, r.get(1)?, r.get(2)?, r.get(3)?, r.get(4)?, r.get(5)?))
        })
        .unwrap();
    assert_eq!(row, (1, "/x/y".to_string(), 4, "abc".to_string(), -1, "2020-01-01T00:00:00+00:00".to_string()));
}

#[test]
fn update_file_and_find_duplicates() {
    let conn = fresh();
    let mut ctxt = RustFileScanDbContext::new(&conn);
    let mut a = file("/a", 10);
    let mut b = file("/b", 20);
    let mut c = file("/c", 10);
    ctxt.create_file(&mut a).unwrap();
    ctxt.create_file(&mut b).unwrap();
    ctxt.create_file(&mut c).unwrap();
    let dups = ctxt.find_potential_duplicate_files().unwrap();
    let names: Vec<&str> = dups.iter().map(|f| f.name.as_str()).collect();
    assert_eq!(names, vec!["/a", "/c"]);
    assert_eq!(dups[0].size, 10);
    assert_eq!(dups[1].id, 3);
    let mut changed = FileModel { hash: "h".to_string(), ..file("/a", 10) };
    changed.id = a.id;
    ctxt.update_file(&changed).unwrap();
    let dups = ctxt.find_potential_duplicate_files().unwrap();
    assert_eq!(dups[0].hash, "h");
}

#[test]
fn find_duplicates_in_empty_table() {
    let conn = fresh();
    let mut ctxt = RustFileScanDbContext::new(&conn);
    assert!(ctxt.find_potential_duplicate_files().unwrap().is_empty());
}

#[test]
fn write_nested_tree_links_parents() {
    let conn = fresh();
    let inner = folder("/r/s/t", vec![], vec![file("/r/s/t/z", 3)]);
    let mid = folder("/r/s", vec![inner], vec![file("/r/s/y", 2)]);
    let mut top = folder("/r", vec![mid], vec![file("/r/x", 1), file("/r/w", 4)]);
    top.parent_folder_id = 0;
    let before = top.total_items();
    let mut ctxt = RustFileScanDbContext::new(&conn);
    write_folder_nested(&mut ctxt, &mut top).unwrap();
    drop(ctxt);
    assert_eq!(top.total_items(), before);
    assert_eq!(top.id, 1);
    assert_eq!(top.parent_folder_id, 0);
    for f in &top.files {
        assert_eq!(f.parent_folder_id, top.id);
        assert!(f.id > 0);
    }
    let mid = &top.folders[0];
    assert_eq!(mid.id, 2);
    assert_eq!(mid.parent_folder_id, top.id);
    assert_eq!(mid.files[0].parent_folder_id, mid.id);
    let inner = &mid.folders[0];
    assert_eq!(inner.parent_folder_id, mid.id);
    assert_eq!(inner.files[0].parent_folder_id, inner.id);
    assert_eq!(count(&conn, "folders"), 3);
    assert_eq!(count(&conn, "files"), 4);
    // one row for each record that total_items counts
    assert_eq!((count(&conn, "folders") + count(&conn, "files")) as usize, before);
    // files are inserted right after their folder, before any sub-folder
    let ids: Vec<i64> = top.files.iter().map(|f| f.id).collect();
    assert_eq!(ids, vec![1, 2]);
    assert_eq!(mid.files[0].id, 3);
    assert_eq!(inner.files[0].id, 4);
}

#[test]
fn write_single_folder() {
    let conn = fresh();
    let mut top = folder("/only", vec![], vec![]);
    top.parent_folder_id = 7;
    let mut writer = RustFileScanDbContext::new(&conn);
    write_folder_nested(&mut writer, &mut top).unwrap();
    drop(writer);
    assert_eq!(top.id, 1);
    assert_eq!(top.parent_folder_id, 7);
    let mut ctxt = RustFileScanDbContext::new(&conn);
    let back = ctxt.retrieve_folder(1).unwrap();
    assert_eq!(back.name, "/only");
    assert_eq!(back.parent_folder_id, 7);
}

#[test]
fn write_without_tables_fails() {
    let conn = Connection::open_in_memory().unwrap();
    let mut top = folder("/r", vec![], vec![]);
    let mut ctxt = RustFileScanDbContext::new(&conn);
    assert!(matches!(write_folder_nested(&mut ctxt, &mut top), Err(DbError::Sqlite(_))));
}

#[test]
fn initialize_database_empties_tables() {
    let conn = fresh();
    let mut ctxt = RustFileScanDbContext::new(&conn);
    let mut f = folder("/a", vec![], vec![]);
    ctxt.create_folder(&mut f).unwrap();
    initialize_database(&mut ctxt).unwrap();
    drop(ctxt);
    assert_eq!(count(&conn, "folders"), 0);
    assert_eq!(count(&conn, "files"), 0);
}

#[test]
fn written_transaction_is_committed() {
    let conn = fresh();
    let mut top = folder("/t", vec![folder("/t/u", vec![], vec![])], vec![file("/t/a", 1)]);
    let mut ctxt = RustFileScanDbContext::new(&conn);
    write_folder_nested(&mut ctxt, &mut top).unwrap();
    drop(ctxt);
    assert!(conn.is_autocommit());
    assert_eq!(count(&conn, "folders"), 2);
    assert_eq!(top.folders[0].parent_folder_id, top.id);
}

#[test]
fn batch_runs_statements() {
    let conn = fresh();
    let mut ctxt = RustFileScanDbContext::new(&conn);
    ctxt.execute_batch("INSERT INTO folders (name, parent_folder_id) VALUES ('a', 0); INSERT INTO folders (name, parent_folder_id) VALUES ('b', 1);").unwrap();
    assert!(matches!(ctxt.execute_batch("not sql"), Err(DbError::Sqlite(_))));
    drop(ctxt);
    assert_eq!(count(&conn, "folders"), 2);
}

#[test]
fn failed_write_rolls_back() {
    let conn = fresh();
    conn.execute_batch(
        "CREATE TRIGGER refuse BEFORE INSERT ON files WHEN NEW.name = 'bad' BEGIN SELECT RAISE(ABORT, 'refused'); END;",
    )
    .unwrap();
    let sub = folder("/r/s", vec![], vec![file("bad", 1)]);
    let mut top = folder("/r", vec![sub], vec![file("/r/ok", 2)]);
    top.parent_folder_id = 5;
    let before = top.total_items();
    let mut ctxt = RustFileScanDbContext::new(&conn);
    assert!(matches!(write_folder_nested(&mut ctxt, &mut top), Err(DbError::Sqlite(_))));
    drop(ctxt);
    assert!(conn.is_autocommit());
    assert_eq!(count(&conn, "folders"), 0);
    assert_eq!(count(&conn, "files"), 0);
    // only ids and parents below the top changed
    assert_eq!(top.parent_folder_id, 5);
    assert_eq!(top.name, "/r");
    assert_eq!(top.folders[0].name, "/r/s");
    assert_eq!(top.folders[0].files[0].name, "bad");
    assert_eq!(top.total_items(), before);
}

#[test]
fn folder_from_row_keeps_columns() {
    let f = FolderModel::from_row(3, "/x".to_string(), 9);
    assert_eq!((f.id, f.name.as_str(), f.parent_folder_id), (3, "/x", 9));
    assert!(f.folders.is_empty() && f.files.is_empty());
}

#[test]
fn file_from_row_reinterprets_size() {
    let f = FileModel::from_row(1, "n".to_string(), 2, "h".to_string(), -1, "d".to_string());
    assert_eq!(f.size, u64::MAX);
    assert_eq!((f.id, f.parent_folder_id), (1, 2));
    assert_eq!((f.name.as_str(), f.hash.as_str(), f.modified_date.as_str()), ("n", "h", "d"));
}

#[test]
fn failed_insert_reports_error_and_keeps_id() {
    let conn = fresh();
    conn.execute_batch(
        "CREATE TRIGGER refuse_folder BEFORE INSERT ON folders WHEN NEW.name = 'no' BEGIN SELECT RAISE(ABORT, 'refused'); END;",
    )
    .unwrap();
    let mut ctxt = RustFileScanDbContext::new(&conn);
    let mut ok = folder("yes", vec![], vec![]);
    ctxt.create_folder(&mut ok).unwrap();
    let mut f = folder("no", vec![], vec![]);
    f.id = 77;
    assert!(matches!(ctxt.create_folder(&mut f), Err(DbError::Sqlite(_))));
    assert_eq!(f.id, 77);
}

#[test]
fn failed_update_reports_error() {
    let conn = fresh();
    conn.execute_batch(
        "CREATE TRIGGER refuse_update BEFORE UPDATE ON folders BEGIN SELECT RAISE(ABORT, 'refused'); END;",
    )
    .unwrap();
    let mut ctxt = RustFileScanDbContext::new(&conn);
    let mut f = folder("a", vec![], vec![]);
    ctxt.create_folder(&mut f).unwrap();
    assert!(matches!(ctxt.update_folder(&f), Err(DbError::Sqlite(_))));
}

#[test]
fn update_of_missing_row_succeeds() {
    let conn = fresh();
    let mut ctxt = RustFileScanDbContext::new(&conn);
    let mut f = folder("a", vec![], vec![]);
    f.id = 42;
    ctxt.update_folder(&f).unwrap();
    assert_eq!(count(&conn, "folders"), 0);
}

#[test]
fn retrieve_keeps_columns_apart() {
    let conn = fresh();
    let mut ctxt = RustFileScanDbContext::new(&conn);
    let mut f = folder("/kept", vec![], vec![]);
    f.parent_folder_id = 31;
    let id = ctxt.create_folder(&mut f).unwrap();
    let back = ctxt.retrieve_folder(id).unwrap();
    assert_eq!((back.id, back.parent_folder_id, back.name.as_str()), (id, 31, "/kept"));
    let mut g = file("name-col", 9);
    g.hash = "hash-col".to_string();
    g.parent_folder_id = 8;
    ctxt.create_file(&mut g).unwrap();
    let mut h = file("other", 9);
    ctxt.create_file(&mut h).unwrap();
    let dups = ctxt.find_potential_duplicate_files().unwrap();
    assert_eq!(dups[0].name, "name-col");
    assert_eq!(dups[0].hash, "hash-col");
    assert_eq!(dups[0].parent_folder_id, 8);
    assert_eq!(dups[0].modified_date, "2020-01-01T00:00:00+00:00");
}
