//! What a scan computes from the plain values that it reads from the file
//! system and from the hashing tool.

use crate::models::{FileModel, FolderModel};
use vstd::prelude::*;

verus! {

/// Whether `c` is white space, as `char::is_whitespace` defines it: the
/// characters with the Unicode `White_Space` property.
pub open spec fn is_white_space(c: char) -> bool {
    let v = c as u32;
    ||| 0x09 <= v <= 0x0D
    ||| v == 0x20
    ||| v == 0x85
    ||| v == 0xA0
    ||| v == 0x1680
    ||| 0x2000 <= v <= 0x200A
    ||| v == 0x2028
    ||| v == 0x2029
    ||| v == 0x202F
    ||| v == 0x205F
    ||| v == 0x3000
}

/// Tells white space from other characters, as `char::is_whitespace` does.
pub fn is_whitespace(c: char) -> (r: bool)
    ensures
        r == is_white_space(c),
{
    let v = c as u32;
    (0x09 <= v && v <= 0x0D) || v == 0x20 || v == 0x85 || v == 0xA0 || v == 0x1680 || (0x2000
        <= v && v <= 0x200A) || v == 0x2028 || v == 0x2029 || v == 0x202F || v == 0x205F || v
        == 0x3000
}

/// `t` is the first whitespace-separated word of `s`, or empty where `s`
/// holds only white space: it stands at `a..b`, everything before `a` is
/// white space, `s[a]` is not, and the word runs up to the next white space
/// or to the end.
pub open spec fn is_first_word(s: Seq<char>, t: Seq<char>) -> bool {
    exists|a: int, b: int|
        {
            &&& 0 <= a <= b <= s.len()
            &&& forall|i: int| 0 <= i < a ==> is_white_space(#[trigger] s[i])
            &&& (a == s.len() || !is_white_space(s[a]))
            &&& forall|i: int| a <= i < b ==> !is_white_space(#[trigger] s[i])
            &&& (b == s.len() || is_white_space(s[b]))
            &&& t == s.subrange(a, b)
        }
}

/// `String`'s `FromIterator<char>`: the string made of `chars` in order.
#[verifier::external_body]
fn string_from_chars(chars: &Vec<char>) -> (s: String)
    ensures
        s@ == chars@,
{
    chars.iter().collect()
}

/// The hash that `shasum` printed: the first word of its output, or the
/// empty string where the output holds no word.
pub fn hash_from_shasum_output(output: &str) -> (hash: String)
    ensures
        is_first_word(output@, hash@),
{
    let ghost s = output@;
    let mut word: Vec<char> = Vec::new();
    let mut started = false;
    let mut done = false;
    let ghost mut a: int = 0;
    let ghost mut b: int = 0;
    for c in it: output.chars()
        invariant
            it.seq() == s,
            0 <= a <= b <= it.index() <= s.len(),
            forall|i: int| 0 <= i < a ==> is_white_space(#[trigger] s[i]),
            !started ==> a == it.index() && b == a,
            started ==> a < s.len() && !is_white_space(s[a]),
            forall|i: int| a <= i < b ==> !is_white_space(#[trigger] s[i]),
            started && !done ==> b == it.index(),
            done ==> started && b < s.len() && is_white_space(s[b]),
            word@ == s.subrange(a, b),
    {
        if done {
        } else if is_whitespace(c) {
            if started {
                done = true;
            } else {
                proof {
                    a = a + 1;
                    b = a;
                }
            }
        } else {
            started = true;
            word.push(c);
            proof {
                b = b + 1;
            }
        }
    }
    let hash = string_from_chars(&word);
    proof {
        assert(s.subrange(a, b) == hash@);
    }
    hash
}

/// The instant that lies `secs` seconds and `nanos` nanoseconds after the
/// Unix epoch, or before it where `before_epoch`, as whole seconds (rounded
/// down) and the nanoseconds past them: the form in which chrono takes a
/// time.
pub fn epoch_seconds(before_epoch: bool, secs: u64, nanos: u32) -> (r: (i64, u32))
    requires
        secs <= i64::MAX,
        nanos < 1_000_000_000,
    ensures
        r.1 < 1_000_000_000,
        r.0 * 1_000_000_000 + r.1 == if before_epoch {
            -(secs * 1_000_000_000 + nanos)
        } else {
            secs * 1_000_000_000 + nanos
        },
{
    let whole = secs as i64;
    if !before_epoch {
        (whole, nanos)
    } else if nanos == 0 {
        (-whole, 0)
    } else {
        (-whole - 1, 1_000_000_000 - nanos)
    }
}

/// The RFC 3339 text that chrono writes for the UTC time `secs` seconds and
/// `nanos` nanoseconds after the Unix epoch, or `None` where chrono has no
/// such time.
pub uninterp spec fn rfc3339_utc(secs: i64, nanos: u32) -> Option<Seq<char>>;

/// `DateTime::<Utc>::from_timestamp(secs, nanos)` and, where that gives a
/// time, `DateTime::to_rfc3339` of it. The contract says only that the
/// outcome is `rfc3339_utc` of the arguments.
#[verifier::external_body]
fn format_rfc3339_utc(secs: i64, nanos: u32) -> (r: Option<String>)
    ensures
        match r {
            Some(t) => rfc3339_utc(secs, nanos) == Some(t@),
            None => rfc3339_utc(secs, nanos) == None::<Seq<char>>,
        },
{
    match chrono::DateTime::<chrono::Utc>::from_timestamp(secs, nanos) {
        Some(time) => Some(time.to_rfc3339()),
        None => None,
    }
}

impl FolderModel {
    /// The record of the directory at `path` that a scan starts from: no id,
    /// no parent, and nothing in it yet.
    pub fn scanned(path: String) -> (f: FolderModel)
        ensures
            f.id == 0,
            f.parent_folder_id == 0,
            f.name == path,
            f.folders@.len() == 0,
            f.files@.len() == 0,
    {
        FolderModel { id: 0, parent_folder_id: 0, name: path, folders: Vec::new(), files: Vec::new() }
    }
}

impl FileModel {
    /// The record of a file found by a scan: its path, its size in bytes,
    /// and the time it was last modified, given as seconds and nanoseconds
    /// after the Unix epoch and kept as RFC 3339 text in UTC. It has no id,
    /// parent or hash yet. `None` where chrono cannot represent the time.
    pub fn scanned(name: String, size: u64, modified_secs: i64, modified_nanos: u32) -> (r: Option<FileModel>)
        ensures
            r is None <==> rfc3339_utc(modified_secs, modified_nanos) is None,
            r matches Some(f) ==> {
                &&& f.id == 0
                &&& f.parent_folder_id == 0
                &&& f.name == name
                &&& f.hash@ == Seq::<char>::empty()
                &&& f.size == size
                &&& rfc3339_utc(modified_secs, modified_nanos) == Some(f.modified_date@)
            },
    {
        match format_rfc3339_utc(modified_secs, modified_nanos) {
            Some(modified_date) => Some(FileModel {
                id: 0,
                parent_folder_id: 0,
                name,
                hash: String::new(),
                size,
                modified_date,
            }),
            None => None,
        }
    }
}

/// One entry of a directory, as a scan found it.
pub enum ScanEntry {
    /// A sub-directory: the tree walked under it, or `None` where it could
    /// not be read.
    Dir(Option<FolderModel>),
    /// A regular file at `path`: its size in bytes and the time it was last
    /// modified (seconds and nanoseconds after the Unix epoch), or `None`
    /// where its metadata could not be read.
    File { path: String, meta: Option<(u64, i64, u32)> },
    /// Anything else, such as a socket.
    Other,
}

/// `f` is the record of a file at `path` of `size` bytes last modified at
/// `secs` and `nanos`, as `FileModel::scanned` makes it.
pub open spec fn is_scanned_file(f: FileModel, path: Seq<char>, size: u64, secs: i64, nanos: u32) -> bool {
    &&& f.id == 0
    &&& f.parent_folder_id == 0
    &&& f.name@ == path
    &&& f.hash@ == Seq::<char>::empty()
    &&& f.size == size
    &&& rfc3339_utc(secs, nanos) == Some(f.modified_date@)
}

/// Adds what a scan found in one entry of `folder`'s directory: a
/// sub-directory's tree to its folders, a file's record to its files, and
/// nothing for an entry that could not be read or is neither. Returns
/// `false`, leaving `folder` as it was, only for a file whose time chrono
/// cannot represent.
pub fn add_entry(folder: &mut FolderModel, e: ScanEntry) -> (r: bool)
    ensures
        final(folder).id == old(folder).id,
        final(folder).parent_folder_id == old(folder).parent_folder_id,
        final(folder).name == old(folder).name,
        match e {
            ScanEntry::Dir(Some(c)) => {
                &&& r
                &&& final(folder).folders@ == old(folder).folders@.push(c)
                &&& final(folder).files == old(folder).files
            },
            ScanEntry::File { path, meta: Some((size, secs, nanos)) } => {
                &&& final(folder).folders == old(folder).folders
                &&& r == rfc3339_utc(secs, nanos) is Some
                &&& r ==> {
                    &&& final(folder).files@.len() == old(folder).files@.len() + 1
                    &&& final(folder).files@.drop_last() == old(folder).files@
                    &&& is_scanned_file(final(folder).files@.last(), path@, size, secs, nanos)
                }
                &&& !r ==> final(folder).files == old(folder).files
            },
            _ => {
                &&& r
                &&& final(folder).folders == old(folder).folders
                &&& final(folder).files == old(folder).files
            },
        },
{
    match e {
        ScanEntry::Dir(Some(child)) => {
            folder.folders.push(child);
            true
        },
        ScanEntry::File { path, meta: Some((size, secs, nanos)) } => {
            match FileModel::scanned(path, size, secs, nanos) {
                Some(file) => {
                    folder.files.push(file);
                    proof {
                        assert(folder.files@.drop_last() =~= old(folder).files@);
                    }
                    true
                },
                None => false,
            }
        },
        _ => true,
    }
}

} // verus!
