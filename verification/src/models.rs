//! The records that a scan of a directory tree produces.

use vstd::prelude::*;

verus! {

/// A regular file found by a scan.
#[derive(Debug)]
pub struct FileModel {
    pub id: i64,
    pub parent_folder_id: i64,
    pub name: String,
    pub hash: String,
    pub size: u64,
    pub modified_date: String,
}

/// A folder found by a scan, with the folders and files directly inside it.
#[derive(Debug)]
pub struct FolderModel {
    pub id: i64,
    pub parent_folder_id: i64,
    pub name: String,
    pub folders: Vec<FolderModel>,
    pub files: Vec<FileModel>,
}

/// The number of records in the tree rooted at `f`: the folder itself,
/// its files, and everything below its sub-folders.
pub open spec fn total(f: FolderModel) -> nat
    decreases f,
{
    1 + f.files@.len() + total_seq(f.folders@)
}

/// The number of records in the trees rooted at the folders of `s`.
pub open spec fn total_seq(s: Seq<FolderModel>) -> nat
    decreases s,
{
    if s.len() == 0 {
        0
    } else {
        total_seq(s.drop_last()) + total(s.last())
    }
}

/// The count over a prefix never exceeds the count over the whole sequence.
pub proof fn lemma_total_seq_prefix(s: Seq<FolderModel>, i: int)
    requires
        0 <= i <= s.len(),
    ensures
        total_seq(s.take(i)) <= total_seq(s),
    decreases s.len(),
{
    if i < s.len() {
        assert(s.drop_last().take(i) =~= s.take(i));
        lemma_total_seq_prefix(s.drop_last(), i);
    } else {
        assert(s.take(i) =~= s);
    }
}

/// `after` is the tree `before` once it has been written to the database
/// under a parent folder whose id is `parent`: every folder and file keeps
/// its name and contents and has got an id of its own, each folder's
/// parent is `parent` or the folder above it, and each file's parent is the
/// folder that holds it.
pub open spec fn written_under(before: FolderModel, after: FolderModel, parent: i64) -> bool
    decreases before,
{
    &&& after.name == before.name
    &&& after.parent_folder_id == parent
    &&& after.files@.len() == before.files@.len()
    &&& forall|i: int|
        0 <= i < before.files@.len() ==> #[trigger] after.files@[i] == (FileModel {
            id: after.files@[i].id,
            parent_folder_id: after.id,
            ..before.files@[i]
        })
    &&& after.folders@.len() == before.folders@.len()
    &&& forall|i: int|
        0 <= i < before.folders@.len() ==> written_under(
            #[trigger] before.folders@[i],
            after.folders@[i],
            after.id,
        )
}

/// `after` is the tree `before` once it has been written to the database,
/// the top folder keeping the parent it had.
pub open spec fn written(before: FolderModel, after: FolderModel) -> bool {
    written_under(before, after, before.parent_folder_id)
}

/// `a` and `b` have the same shape: as many files, and as many sub-folders,
/// each with the same shape as its counterpart. Ids, parents, names and the
/// files' contents may all differ.
pub open spec fn same_shape(a: FolderModel, b: FolderModel) -> bool
    decreases a,
{
    &&& a.files@.len() == b.files@.len()
    &&& a.folders@.len() == b.folders@.len()
    &&& forall|i: int| 0 <= i < a.folders@.len() ==> same_shape(#[trigger] a.folders@[i], b.folders@[i])
}

/// `after` is `before` with only ids and parents changed below the top
/// folder: every name, every file's contents, and the nesting are kept.
pub open spec fn kept_under(before: FolderModel, after: FolderModel) -> bool
    decreases before,
{
    &&& after.name == before.name
    &&& after.files@.len() == before.files@.len()
    &&& forall|i: int|
        0 <= i < before.files@.len() ==> #[trigger] after.files@[i] == (FileModel {
            id: after.files@[i].id,
            parent_folder_id: after.files@[i].parent_folder_id,
            ..before.files@[i]
        })
    &&& after.folders@.len() == before.folders@.len()
    &&& forall|i: int| 0 <= i < before.folders@.len() ==> kept_under(#[trigger] before.folders@[i], after.folders@[i])
}

/// `after` is `before` with only ids changed, and parents below the top
/// folder.
pub open spec fn kept(before: FolderModel, after: FolderModel) -> bool {
    &&& kept_under(before, after)
    &&& after.parent_folder_id == before.parent_folder_id
}

/// Every tree is kept by itself.
pub proof fn lemma_kept_under_refl(f: FolderModel)
    ensures
        kept_under(f, f),
    decreases f,
{
    assert forall|i: int| 0 <= i < f.folders@.len() implies kept_under(#[trigger] f.folders@[i], f.folders@[i]) by {
        lemma_kept_under_refl(f.folders@[i]);
    }
}

/// A written tree keeps what it held.
pub proof fn lemma_written_kept(before: FolderModel, after: FolderModel, parent: i64)
    requires
        written_under(before, after, parent),
    ensures
        kept_under(before, after),
    decreases before,
{
    assert forall|i: int| 0 <= i < before.folders@.len() implies kept_under(#[trigger] before.folders@[i], after.folders@[i]) by {
        lemma_written_kept(before.folders@[i], after.folders@[i], after.id);
    }
}

/// A kept tree has the shape it had.
pub proof fn lemma_kept_same_shape(before: FolderModel, after: FolderModel)
    requires
        kept_under(before, after),
    ensures
        same_shape(before, after),
    decreases before,
{
    assert forall|i: int| 0 <= i < before.folders@.len() implies same_shape(#[trigger] before.folders@[i], after.folders@[i]) by {
        lemma_kept_same_shape(before.folders@[i], after.folders@[i]);
    }
}

/// Trees of the same shape count the same number of records, whatever
/// their ids, parents, names and file contents.
pub proof fn lemma_same_shape_total(a: FolderModel, b: FolderModel)
    requires
        same_shape(a, b),
    ensures
        total(a) == total(b),
    decreases a,
{
    lemma_same_shape_seq_total(a.folders@, b.folders@);
}

/// Sequences of trees of pairwise the same shape count the same number of
/// records.
pub proof fn lemma_same_shape_seq_total(a: Seq<FolderModel>, b: Seq<FolderModel>)
    requires
        a.len() == b.len(),
        forall|i: int| 0 <= i < a.len() ==> same_shape(#[trigger] a[i], b[i]),
    ensures
        total_seq(a) == total_seq(b),
    decreases a,
{
    if a.len() > 0 {
        let n = a.len() - 1;
        assert(same_shape(a[n], b[n]));
        lemma_same_shape_total(a[n], b[n]);
        lemma_same_shape_seq_total(a.drop_last(), b.drop_last());
    }
}

/// Taking one folder out of a sequence takes its tree's records out of the
/// count.
pub proof fn lemma_total_seq_remove(s: Seq<FolderModel>, j: int)
    requires
        0 <= j < s.len(),
    ensures
        total_seq(s) == total_seq(s.remove(j)) + total(s[j]),
    decreases s.len(),
{
    if j == s.len() - 1 {
        assert(s.remove(j) =~= s.drop_last());
    } else {
        lemma_total_seq_remove(s.drop_last(), j);
        assert(s.remove(j).drop_last() =~= s.drop_last().remove(j));
        assert(s.remove(j).last() == s.last());
    }
}

/// The count over a sequence of folders does not depend on their order.
pub proof fn lemma_total_seq_permutation(s: Seq<FolderModel>, t: Seq<FolderModel>)
    requires
        s.to_multiset() =~= t.to_multiset(),
    ensures
        total_seq(s) == total_seq(t),
    decreases s.len(),
{
    broadcast use vstd::seq_lib::group_to_multiset_ensures;

    if s.len() == 0 {
        assert(t.len() == t.to_multiset().len());
        assert(t.len() == 0);
    } else {
        let x = s.last();
        assert(s.contains(x)) by {
            assert(s[s.len() - 1] == x);
        }
        assert(s.to_multiset().count(x) > 0);
        assert(t.to_multiset().count(x) > 0);
        assert(t.contains(x));
        let j = choose|j: int| 0 <= j < t.len() && t[j] == x;
        assert(s.drop_last() =~= s.remove(s.len() - 1));
        assert(s.drop_last().to_multiset() =~= s.to_multiset().remove(x));
        assert(t.remove(j).to_multiset() =~= t.to_multiset().remove(x));
        lemma_total_seq_permutation(s.drop_last(), t.remove(j));
        lemma_total_seq_remove(t, j);
        assert(total_seq(s) == total_seq(s.drop_last()) + total(x));
    }
}

/// A folder counts the same number of records whatever the order of its
/// files and sub-folders and whatever its own id, parent and name.
pub proof fn lemma_total_reordered(a: FolderModel, b: FolderModel)
    requires
        a.files@.len() == b.files@.len(),
        a.folders@.to_multiset() =~= b.folders@.to_multiset(),
    ensures
        total(a) == total(b),
{
    lemma_total_seq_permutation(a.folders@, b.folders@);
}

/// `b` is `a` with any of its records' fields changed and the files and
/// sub-folders of any folder put in another order: as many files, and
/// sub-folders that, in some order, are each like one of `a`'s.
pub open spec fn similar(a: FolderModel, b: FolderModel) -> bool
    decreases a,
{
    &&& a.files@.len() == b.files@.len()
    &&& exists|c: Seq<FolderModel>|
        #![trigger c.to_multiset()]
        {
            &&& c.to_multiset() == b.folders@.to_multiset()
            &&& c.len() == a.folders@.len()
            &&& forall|i: int| 0 <= i < a.folders@.len() ==> similar(#[trigger] a.folders@[i], c[i])
        }
}

/// Every tree is similar to itself.
pub proof fn lemma_similar_refl(f: FolderModel)
    ensures
        similar(f, f),
    decreases f,
{
    let c = f.folders@;
    assert forall|i: int| 0 <= i < f.folders@.len() implies similar(#[trigger] f.folders@[i], c[i]) by {
        lemma_similar_refl(f.folders@[i]);
    }
    assert(c.to_multiset() == f.folders@.to_multiset());
}

/// Changing fields and reordering files and sub-folders, at any depth,
/// keeps the number of records.
pub proof fn lemma_similar_total(a: FolderModel, b: FolderModel)
    requires
        similar(a, b),
    ensures
        total(a) == total(b),
    decreases a,
{
    let c = choose|c: Seq<FolderModel>|
        #![trigger c.to_multiset()]
        {
            &&& c.to_multiset() == b.folders@.to_multiset()
            &&& c.len() == a.folders@.len()
            &&& forall|i: int| 0 <= i < a.folders@.len() ==> similar(#[trigger] a.folders@[i], c[i])
        };
    lemma_similar_seq_total(a.folders@, c);
    lemma_total_seq_permutation(c, b.folders@);
}

/// Sequences of pairwise similar trees count the same number of records.
pub proof fn lemma_similar_seq_total(s: Seq<FolderModel>, c: Seq<FolderModel>)
    requires
        s.len() == c.len(),
        forall|i: int| 0 <= i < s.len() ==> similar(#[trigger] s[i], c[i]),
    ensures
        total_seq(s) == total_seq(c),
    decreases s,
{
    if s.len() > 0 {
        let n = s.len() - 1;
        assert(similar(s[n], c[n]));
        lemma_similar_total(s[n], c[n]);
        lemma_similar_seq_total(s.drop_last(), c.drop_last());
    }
}

/// Adding a file to a folder adds one record.
pub proof fn lemma_total_push_file(f: FolderModel, g: FolderModel, x: FileModel)
    requires
        g.files@ == f.files@.push(x),
        g.folders@ == f.folders@,
    ensures
        total(g) == total(f) + 1,
{
}

/// Adding a sub-folder to a folder adds the records of the sub-folder's
/// tree.
pub proof fn lemma_total_push_folder(f: FolderModel, g: FolderModel, c: FolderModel)
    requires
        g.files@ == f.files@,
        g.folders@ == f.folders@.push(c),
    ensures
        total(g) == total(f) + total(c),
{
    assert(g.folders@.drop_last() =~= f.folders@);
}

/// Adding a sub-folder and a file to a folder adds the sub-folder's records
/// and one.
pub proof fn lemma_total_push(f: FolderModel, g: FolderModel, c: FolderModel, x: FileModel)
    requires
        g.files@ == f.files@.push(x),
        g.folders@ == f.folders@.push(c),
    ensures
        total(g) == total(f) + total(c) + 1,
{
    assert(g.folders@.drop_last() =~= f.folders@);
}

/// The number of folders in the tree rooted at `f`, itself included.
pub open spec fn folder_count(f: FolderModel) -> nat
    decreases f,
{
    1 + folder_count_seq(f.folders@)
}

/// The number of folders in the trees rooted at the folders of `s`.
pub open spec fn folder_count_seq(s: Seq<FolderModel>) -> nat
    decreases s,
{
    if s.len() == 0 {
        0
    } else {
        folder_count_seq(s.drop_last()) + folder_count(s.last())
    }
}

/// The number of files in the tree rooted at `f`.
pub open spec fn file_count(f: FolderModel) -> nat
    decreases f,
{
    f.files@.len() + file_count_seq(f.folders@)
}

/// The number of files in the trees rooted at the folders of `s`.
pub open spec fn file_count_seq(s: Seq<FolderModel>) -> nat
    decreases s,
{
    if s.len() == 0 {
        0
    } else {
        file_count_seq(s.drop_last()) + file_count(s.last())
    }
}

/// The records of a tree are its folders and its files.
pub proof fn lemma_total_is_folders_and_files(f: FolderModel)
    ensures
        total(f) == folder_count(f) + file_count(f),
    decreases f,
{
    lemma_total_seq_is_folders_and_files(f.folders@);
}

/// The records of a sequence of trees are their folders and their files.
pub proof fn lemma_total_seq_is_folders_and_files(s: Seq<FolderModel>)
    ensures
        total_seq(s) == folder_count_seq(s) + file_count_seq(s),
    decreases s,
{
    if s.len() > 0 {
        lemma_total_seq_is_folders_and_files(s.drop_last());
        lemma_total_is_folders_and_files(s.last());
    }
}

/// The tree under one folder of a sequence counts no more than the
/// trees under all of them.
pub proof fn lemma_total_seq_element(s: Seq<FolderModel>, i: int)
    requires
        0 <= i < s.len(),
    ensures
        total(s[i]) <= total_seq(s),
    decreases s.len(),
{
    if i < s.len() - 1 {
        lemma_total_seq_element(s.drop_last(), i);
    }
}

/// Writing a tree to the database keeps the number of records in it.
pub proof fn lemma_written_keeps_total(before: FolderModel, after: FolderModel, parent: i64)
    requires
        written_under(before, after, parent),
    ensures
        total(after) == total(before),
{
    lemma_written_kept(before, after, parent);
    lemma_kept_same_shape(before, after);
    lemma_same_shape_total(before, after);
}

impl FolderModel {
    /// Counts this folder, its files, and every folder and file below it.
    pub fn total_items(&self) -> (count: usize)
        requires
            total(*self) <= usize::MAX,
        ensures
            count == total(*self),
        decreases *self,
    {
        let mut count: usize = 1 + self.files.len();
        let mut i: usize = 0;
        while i < self.folders.len()
            invariant
                0 <= i <= self.folders@.len(),
                total(*self) <= usize::MAX,
                count == 1 + self.files@.len() + total_seq(self.folders@.take(i as int)),
            decreases self.folders@.len() - i,
        {
            let child = &self.folders[i];
            proof {
                let s = self.folders@;
                assert(s.take(i + 1).drop_last() =~= s.take(i as int));
                assert(s.take(i + 1).last() == s[i as int]);
                lemma_total_seq_prefix(s, i + 1);
                assert(decreases_to!(*self => self.folders));
            }
            let sub = child.total_items();
            count = count + sub;
            i = i + 1;
        }
        proof {
            assert(self.folders@.take(i as int) =~= self.folders@);
        }
        count
    }
}

impl FolderModel {
    /// The folder that a row of the `folders` table describes, without its
    /// sub-folders and files.
    pub fn from_row(id: i64, name: String, parent_folder_id: i64) -> (f: FolderModel)
        ensures
            f == (FolderModel { id, name, parent_folder_id, folders: f.folders, files: f.files }),
            f.folders@.len() == 0,
            f.files@.len() == 0,
    {
        FolderModel { id, name, parent_folder_id, folders: Vec::new(), files: Vec::new() }
    }
}

impl FileModel {
    /// The file that a row of the `files` table describes; the stored size is
    /// the signed integer with the same bits as the size.
    pub fn from_row(id: i64, name: String, parent_folder_id: i64, hash: String, size: i64, modified_date: String) -> (f: FileModel)
        ensures
            f == (FileModel { id, parent_folder_id, name, hash, size: size as u64, modified_date }),
    {
        FileModel { id, parent_folder_id, name, hash, size: size as u64, modified_date }
    }
}

} // verus!
