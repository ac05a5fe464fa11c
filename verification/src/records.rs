//! The rows of the `folders` and `files` tables as the relational schema of
//! the diesel-based store declares them, and the values that an insert into
//! each table takes.

use vstd::prelude::*;

verus! {

/// A row of the `folders` table.
pub struct FolderModel {
    pub id: i32,
    pub parent_id: i32,
    pub name: String,
}

/// A row of the `files` table.
pub struct FileModel {
    pub id: i32,
    pub folder_id: i32,
    pub name: String,
    pub hash: String,
    pub size: i32,
    pub modified_date: String,
}

/// The values of a new row of the `folders` table; its id is chosen by the
/// database.
pub struct NewFolder<'a> {
    pub name: &'a str,
    pub parent_id: &'a i32,
}

/// The values of a new row of the `files` table; its id is chosen by the
/// database.
pub struct NewFile<'a> {
    pub name: &'a str,
    pub folder_id: &'a i32,
    pub hash: &'a str,
    pub size: &'a i32,
    pub modified_date: &'a str,
}

/// What the diesel-based walk does with one directory entry.
pub enum EntryAction {
    /// Insert a row for the sub-directory, then walk it.
    InsertFolder,
    /// Insert a row for the file.
    InsertFile,
    /// Leave the entry out.
    Skip,
}

/// The diesel-based walk records every sub-directory, and a file only under
/// a folder that has an id (`parent_id != 0`).
pub fn entry_action(is_dir: bool, parent_id: i32) -> (a: EntryAction)
    ensures
        a == (if is_dir {
            EntryAction::InsertFolder
        } else if parent_id != 0 {
            EntryAction::InsertFile
        } else {
            EntryAction::Skip
        }),
{
    if is_dir {
        EntryAction::InsertFolder
    } else if parent_id != 0 {
        EntryAction::InsertFile
    } else {
        EntryAction::Skip
    }
}

} // verus!
