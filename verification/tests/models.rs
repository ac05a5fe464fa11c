use filescandb::models::{FileModel, FolderModel};

fn file(name: &str, size: u64) -> FileModel {
    FileModel {
        id: 0,
        parent_folder_id: 0,
        name: name.to_string(),
        hash: String::new(),
        size,
        modified_date: String::new(),
    }
}

fn folder(name: &str, folders: Vec<FolderModel>, files: Vec<FileModel>) -> FolderModel {
    FolderModel { id: 0, parent_folder_id: 0, name: name.to_string(), folders, files }
}

#[test]
fn total_items_of_empty_folder_is_one() {
    let f = folder("/a", vec![], vec![]);
    assert_eq!(f.total_items(), 1);
}

#[test]
fn total_items_counts_files() {
    let f = folder("/a", vec![], vec![file("/a/x", 1), file("/a/y", 2)]);
    assert_eq!(f.total_items(), 3);
}

#[test]
fn total_items_counts_nested_folders() {
    let inner = folder("/a/b/c", vec![], vec![file("/a/b/c/z", 3)]);
    let mid = folder("/a/b", vec![inner], vec![file("/a/b/y", 2), file("/a/b/w", 5)]);
    let empty = folder("/a/e", vec![], vec![]);
    let top = folder("/a", vec![mid, empty], vec![file("/a/x", 1)]);
    // top, x, b, y, w, c, z, e
    assert_eq!(top.total_items(), 8);
}


use filescandb::records::{entry_action, EntryAction};

#[test]
fn pushing_adds_to_total() {
    let mut f = folder("/a", vec![], vec![file("/a/x", 1)]);
    let n = f.total_items();
    let c = folder("/a/b", vec![], vec![file("/a/b/y", 2), file("/a/b/z", 3)]);
    let k = c.total_items();
    f.folders.push(c);
    f.files.push(file("/a/w", 4));
    assert_eq!(f.total_items(), n + k + 1);
}

#[test]
fn legacy_walk_actions() {
    assert!(matches!(entry_action(true, 0), EntryAction::InsertFolder));
    assert!(matches!(entry_action(true, 5), EntryAction::InsertFolder));
    assert!(matches!(entry_action(false, 5), EntryAction::InsertFile));
    assert!(matches!(entry_action(false, 0), EntryAction::Skip));
}
