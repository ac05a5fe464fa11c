use filescandb::scan::{epoch_seconds, hash_from_shasum_output, is_whitespace};
use filescandb::models::FileModel;

#[test]
fn shasum_hash_is_first_word() {
    let out = "da39a3ee5e6b4b0d3255bfef95601890afd80709  /tmp/empty.txt\n";
    assert_eq!(hash_from_shasum_output(out), "da39a3ee5e6b4b0d3255bfef95601890afd80709");
}

#[test]
fn shasum_hash_skips_leading_white_space() {
    assert_eq!(hash_from_shasum_output("  \t abc def"), "abc");
}

#[test]
fn shasum_hash_of_blank_output_is_empty() {
    assert_eq!(hash_from_shasum_output(""), "");
    assert_eq!(hash_from_shasum_output(" \n\t "), "");
}

#[test]
fn shasum_hash_single_word() {
    assert_eq!(hash_from_shasum_output("abc"), "abc");
}

#[test]
fn shasum_hash_splits_on_unicode_white_space() {
    assert_eq!(hash_from_shasum_output("\u{3000}ab\u{2003}cd"), "ab");
    assert_eq!(hash_from_shasum_output("é\u{a0}x"), "é");
}

#[test]
fn shasum_hash_matches_split_whitespace() {
    for s in ["a b", "  a", "\u{85}q\u{2028}r", "x\u{200b}y z", "\u{1680}", "tab\there"] {
        let expected = s.split_whitespace().next().unwrap_or_default().to_string();
        assert_eq!(hash_from_shasum_output(s), expected);
    }
}

#[test]
fn whitespace_agrees_with_std() {
    for v in 0u32..0x3100 {
        if let Some(c) = char::from_u32(v) {
            assert_eq!(is_whitespace(c), c.is_whitespace(), "{:x}", v);
        }
    }
}

#[test]
fn scanned_file_at_epoch() {
    let f = FileModel::scanned("/tmp/a".to_string(), 42, 0, 0).unwrap();
    assert_eq!(f.id, 0);
    assert_eq!(f.parent_folder_id, 0);
    assert_eq!(f.name, "/tmp/a");
    assert_eq!(f.hash, "");
    assert_eq!(f.size, 42);
    assert_eq!(f.modified_date, "1970-01-01T00:00:00+00:00");
}

#[test]
fn scanned_file_with_fraction_of_a_second() {
    let f = FileModel::scanned("b".to_string(), 0, 1_500_000_000, 500_000_000).unwrap();
    assert_eq!(f.modified_date, "2017-07-14T02:40:00.500+00:00");
}

#[test]
fn scanned_file_before_epoch() {
    let f = FileModel::scanned("c".to_string(), 7, -1, 0).unwrap();
    assert_eq!(f.modified_date, "1969-12-31T23:59:59+00:00");
}

#[test]
fn scanned_file_out_of_range_time() {
    assert!(FileModel::scanned("d".to_string(), 1, i64::MAX, 0).is_none());
}

#[test]
fn epoch_seconds_after_epoch() {
    assert_eq!(epoch_seconds(false, 12, 345), (12, 345));
}

#[test]
fn epoch_seconds_before_epoch_whole_second() {
    assert_eq!(epoch_seconds(true, 5, 0), (-5, 0));
}

#[test]
fn epoch_seconds_before_epoch_with_fraction() {
    // 1.25 s before the epoch is 2 s before it plus 0.75 s
    assert_eq!(epoch_seconds(true, 1, 250_000_000), (-2, 750_000_000));
}

#[test]
fn epoch_seconds_extremes() {
    assert_eq!(epoch_seconds(false, i64::MAX as u64, 999_999_999), (i64::MAX, 999_999_999));
    assert_eq!(epoch_seconds(true, i64::MAX as u64, 1), (i64::MIN, 999_999_999));
}

use filescandb::models::FolderModel;
use filescandb::scan::{add_entry, ScanEntry};

fn empty_folder(name: &str) -> FolderModel {
    FolderModel { id: 0, parent_folder_id: 0, name: name.to_string(), folders: vec![], files: vec![] }
}

#[test]
fn add_entry_sorts_entries() {
    let mut top = empty_folder("/t");
    assert!(add_entry(&mut top, ScanEntry::Dir(Some(empty_folder("/t/d")))));
    assert!(add_entry(&mut top, ScanEntry::Dir(None)));
    assert!(add_entry(&mut top, ScanEntry::File { path: "/t/f".to_string(), meta: Some((10, 0, 0)) }));
    assert!(add_entry(&mut top, ScanEntry::File { path: "/t/g".to_string(), meta: None }));
    assert!(add_entry(&mut top, ScanEntry::Other));
    assert_eq!(top.folders.len(), 1);
    assert_eq!(top.folders[0].name, "/t/d");
    assert_eq!(top.files.len(), 1);
    assert_eq!(top.files[0].name, "/t/f");
    assert_eq!(top.files[0].size, 10);
    assert_eq!(top.files[0].modified_date, "1970-01-01T00:00:00+00:00");
}

#[test]
fn add_entry_refuses_unrepresentable_time() {
    let mut top = empty_folder("/t");
    assert!(!add_entry(&mut top, ScanEntry::File { path: "/t/f".to_string(), meta: Some((1, i64::MAX, 0)) }));
    assert!(top.files.is_empty());
}

#[test]
fn scanned_root_folder_is_empty() {
    let f = FolderModel::scanned("/data".to_string());
    assert_eq!((f.id, f.parent_folder_id, f.name.as_str()), (0, 0, "/data"));
    assert!(f.folders.is_empty() && f.files.is_empty());
}
