//! The table of scanned files, grouped by a checksum of their contents: files that
//! land in one group are duplicate candidates.

use vstd::prelude::*;
use std::collections::HashMap;

use crate::walk::{classify, kind_of, EntryInfo, EntryKind};
use crate::text::{
    decimal, decimal_text, pad_left, pad_right, prefix_chars, first_chars, push_padded_left,
    push_padded_right, push_spaces, push_text, spaces,
};

verus! {

broadcast use vstd::std_specs::hash::group_hash_axioms;

/// A scanned file, as plain values.
pub struct FileView {
    pub name: Seq<char>,
    pub path: Seq<char>,
    pub size: u64,
    pub accessed: Seq<char>,
    pub modified: Seq<char>,
}

/// A scanned file: its name, full path, size in bytes, and the times it was last
/// accessed and modified, already written out as text.
#[derive(Debug)]
pub struct FileInfo {
    name: String,
    path: String,
    size: u64,
    accessed: String,
    modified: String,
}

impl View for FileInfo {
    type V = FileView;

    closed spec fn view(&self) -> FileView {
        FileView {
            name: self.name@,
            path: self.path@,
            size: self.size,
            accessed: self.accessed@,
            modified: self.modified@,
        }
    }
}

impl FileInfo {
    /// A file record from what the file system reported.
    pub fn new(name: String, path: String, size: u64, accessed: String, modified: String) -> (f:
        FileInfo)
        ensures
            f@ == (FileView {
                name: name@,
                path: path@,
                size,
                accessed: accessed@,
                modified: modified@,
            }),
    {
        FileInfo { name, path, size, accessed, modified }
    }

    /// A file record for the file at `path`, named by the last component of the
    /// path; `None` when the path has no such component (it ends in `..` or is a
    /// root).
    pub fn from_path(path: String, size: u64, accessed: String, modified: String) -> (r: Option<
        FileInfo,
    >)
        ensures
            r is Some == path_file_name(path@) is Some,
            r matches Some(f) ==> f@ == (FileView {
                name: path_file_name(path@)->0,
                path: path@,
                size,
                accessed: accessed@,
                modified: modified@,
            }),
    {
        match file_name(path.as_str()) {
            Some(name) => Some(FileInfo { name, path, size, accessed, modified }),
            None => None,
        }
    }

    /// The file's name.
    pub fn get_name(&self) -> (r: &String)
        ensures
            r@ == self@.name,
    {
        &self.name
    }

    /// The file's full path.
    pub fn get_path(&self) -> (r: &String)
        ensures
            r@ == self@.path,
    {
        &self.path
    }

    /// The file's size in bytes.
    pub fn get_size(&self) -> (r: u64)
        ensures
            r == self@.size,
    {
        self.size
    }

    /// When the file was last accessed, as text.
    pub fn get_accessed(&self) -> (r: &String)
        ensures
            r@ == self@.accessed,
    {
        &self.accessed
    }

    /// When the file was last modified, as text.
    pub fn get_modified(&self) -> (r: &String)
        ensures
            r@ == self@.modified,
    {
        &self.modified
    }
}

/// The last component of the path `p`, as `std::path::Path::file_name` gives it;
/// `None` when there is none.
pub uninterp spec fn path_file_name(p: Seq<char>) -> Option<Seq<char>>;

/// Calls `std::path::Path::file_name` on `path`. Its result is named
/// `path_file_name`; a name of a path held in a `String` is valid UTF-8, so it is
/// always converted.
#[verifier::external_body]
fn file_name(path: &str) -> (r: Option<String>)
    ensures
        match (r, path_file_name(path@)) {
            (Some(n), Some(m)) => n@ == m,
            (None, None) => true,
            _ => false,
        },
{
    match std::path::Path::new(path).file_name() {
        Some(n) => match n.to_str() {
            Some(s) => Some(s.to_string()),
            None => None,
        },
        None => None,
    }
}

/// The files of one group, in the order they were first added.
pub open spec fn group_view(g: Seq<FileInfo>) -> Seq<FileView> {
    g.map_values(|f: FileInfo| f@)
}

/// The paths of a group's files.
pub open spec fn paths_of(g: Seq<FileView>) -> Seq<Seq<char>> {
    g.map_values(|f: FileView| f.path)
}

/// Whether some file of `g` has the path `p`.
pub open spec fn has_path(g: Seq<FileView>, p: Seq<char>) -> bool {
    exists|i: int| 0 <= i < g.len() && (#[trigger] g[i]).path == p
}

/// The group after adding `f`: a file with the same path is replaced in its
/// place, otherwise `f` joins at the end.
pub open spec fn group_with(g: Seq<FileView>, f: FileView) -> Seq<FileView> {
    if has_path(g, f.path) {
        let i = choose|i: int| 0 <= i < g.len() && (#[trigger] g[i]).path == f.path;
        g.update(i, f)
    } else {
        g.push(f)
    }
}

/// No two files of a group share a path.
pub open spec fn distinct_paths(g: Seq<FileView>) -> bool {
    forall|i: int, j: int|
        0 <= i < g.len() && 0 <= j < g.len() && i != j ==> (#[trigger] g[i]).path != (
        #[trigger] g[j]).path
}

/// The table as plain values: the groups by checksum, and how many directories
/// and files the scan has gone through.
pub struct TableView {
    pub groups: Map<u32, Seq<FileView>>,
    pub count_dir: u32,
    pub count_file: u32,
}

/// Scanned files grouped by a checksum of their first bytes.
pub struct FileTable {
    table: HashMap<u32, Vec<FileInfo>>,
    count_dir: u32,
    count_file: u32,
}

impl View for FileTable {
    type V = TableView;

    closed spec fn view(&self) -> TableView {
        TableView {
            groups: Map::new(
                |k: u32| self.table@.contains_key(k),
                |k: u32| group_view(self.table@[k]@),
            ),
            count_dir: self.count_dir,
            count_file: self.count_file,
        }
    }
}

/// Every group holds at least one file, and no two files of a group share a path.
pub open spec fn groups_wf(groups: Map<u32, Seq<FileView>>) -> bool {
    forall|k: u32|
        #[trigger] groups.contains_key(k) ==> groups[k].len() > 0 && distinct_paths(groups[k])
}

/// The group of checksum `sum`, empty when there is none.
pub open spec fn group_of(groups: Map<u32, Seq<FileView>>, sum: u32) -> Seq<FileView> {
    if groups.contains_key(sum) {
        groups[sum]
    } else {
        Seq::empty()
    }
}

impl FileTable {
    /// The table's invariant.
    pub open spec fn wf(&self) -> bool {
        groups_wf(self@.groups)
    }

    /// An empty table.
    pub fn new() -> (t: FileTable)
        ensures
            t.wf(),
            t@.groups == Map::<u32, Seq<FileView>>::empty(),
            t@.count_dir == 0,
            t@.count_file == 0,
    {
        let t = FileTable { table: HashMap::new(), count_dir: 0, count_file: 0 };
        assert(t@.groups =~= Map::<u32, Seq<FileView>>::empty());
        t
    }

    /// Files `f` under checksum `sum`: a file with the same path in that group is
    /// replaced, any other joins the group, which is made when it is missing.
    pub fn insert(&mut self, sum: u32, f: FileInfo)
        requires
            old(self).wf(),
        ensures
            final(self).wf(),
            final(self)@.groups == old(self)@.groups.insert(
                sum,
                group_with(group_of(old(self)@.groups, sum), f@),
            ),
            final(self)@.count_dir == old(self)@.count_dir,
            final(self)@.count_file == old(self)@.count_file,
    {
        let ghost old_groups = self@.groups;
        let mut group: Vec<FileInfo> = match self.table.remove(&sum) {
            Some(g) => g,
            None => Vec::new(),
        };
        assert(group_view(group@) =~= group_of(old_groups, sum));
        insert_in_group(&mut group, f);
        self.table.insert(sum, group);
        assert(self@.groups =~= old_groups.insert(sum, group_with(group_of(old_groups, sum), f@)));
    }

    /// Counts one more directory gone through.
    pub fn note_dir(&mut self)
        requires
            old(self)@.count_dir < u32::MAX,
        ensures
            final(self)@.count_dir == old(self)@.count_dir + 1,
            final(self)@.count_file == old(self)@.count_file,
            final(self)@.groups == old(self)@.groups,
            final(self).wf() == old(self).wf(),
    {
        self.count_dir = self.count_dir + 1;
        assert(self@.groups =~= old(self)@.groups);
    }

    /// Counts one more file gone through.
    pub fn note_file(&mut self)
        requires
            old(self)@.count_file < u32::MAX,
        ensures
            final(self)@.count_file == old(self)@.count_file + 1,
            final(self)@.count_dir == old(self)@.count_dir,
            final(self)@.groups == old(self)@.groups,
            final(self).wf() == old(self).wf(),
    {
        self.count_file = self.count_file + 1;
        assert(self@.groups =~= old(self)@.groups);
    }

    /// Goes through one listed entry: a directory or a regular file is counted,
    /// anything else is not. Returns what the entry is, which tells the caller to
    /// descend into it (`Dir`), to add it (`File`), or to skip it.
    pub fn visit(&mut self, e: &EntryInfo) -> (k: EntryKind)
        requires
            kind_of(*e) == EntryKind::Dir ==> old(self)@.count_dir < u32::MAX,
            kind_of(*e) == EntryKind::File ==> old(self)@.count_file < u32::MAX,
        ensures
            k == kind_of(*e),
            final(self)@.groups == old(self)@.groups,
            final(self).wf() == old(self).wf(),
            final(self)@.count_dir == old(self)@.count_dir + (if k == EntryKind::Dir {
                1int
            } else {
                0int
            }),
            final(self)@.count_file == old(self)@.count_file + (if k == EntryKind::File {
                1int
            } else {
                0int
            }),
            final(self)@ == after_visit(old(self)@, *e),
    {
        let k = classify(e);
        match k {
            EntryKind::Dir => self.note_dir(),
            EntryKind::File => self.note_file(),
            _ => {},
        }
        k
    }

    /// The number of directories gone through.
    pub fn dir_count(&self) -> (n: u32)
        ensures
            n == self@.count_dir,
    {
        self.count_dir
    }

    /// The number of files gone through.
    pub fn file_count(&self) -> (n: u32)
        ensures
            n == self@.count_file,
    {
        self.count_file
    }
}

/// Adds `f` to a group whose paths are distinct.
fn insert_in_group(group: &mut Vec<FileInfo>, f: FileInfo)
    requires
        distinct_paths(group_view(old(group)@)),
    ensures
        group_view(final(group)@) == group_with(group_view(old(group)@), f@),
        distinct_paths(group_view(final(group)@)),
        final(group)@.len() > 0,
{
    let ghost g0 = group_view(group@);
    let mut i: usize = 0;
    while i < group.len()
        invariant
            i <= group.len(),
            group@ == old(group)@,
            g0 == group_view(group@),
            distinct_paths(g0),
            forall|j: int| 0 <= j < i ==> (#[trigger] g0[j]).path != f@.path,
        decreases group.len() - i,
    {
        if same_string(&group[i].path, &f.path) {
            proof {
                assert(g0[i as int] == group@[i as int]@);
                assert(g0[i as int].path == f@.path);
                assert(has_path(g0, f@.path));
                let c = choose|c: int| 0 <= c < g0.len() && (#[trigger] g0[c]).path == f@.path;
                assert(g0[c].path == g0[i as int].path);
                assert(c == i);
            }
            group.set(i, f);
            assert(group_view(group@) =~= g0.update(i as int, f@));
            assert(distinct_paths(group_view(group@))) by {
                let g1 = group_view(group@);
                assert forall|a: int, b: int|
                    0 <= a < g1.len() && 0 <= b < g1.len() && a != b implies (#[trigger] g1[a]).path
                    != (#[trigger] g1[b]).path by {
                    assert(g1[a].path == g0[a].path);
                    assert(g1[b].path == g0[b].path);
                }
            }
            return;
        }
        i = i + 1;
    }
    group.push(f);
    assert(group_view(group@) =~= g0.push(f@));
}

/// Whether two strings hold the same characters.
fn same_string(a: &String, b: &String) -> (r: bool)
    ensures
        r == (a@ == b@),
{
    *a == *b
}

/// The texts of a sequence of strings.
pub open spec fn texts(v: Seq<String>) -> Seq<Seq<char>> {
    v.map_values(|s: String| s@)
}

/// A listing of duplicate groups as plain values: each checksum with the paths of
/// its files.
pub open spec fn listing_view(r: Seq<(u32, Vec<String>)>) -> Seq<(u32, Seq<Seq<char>>)> {
    r.map_values(|e: (u32, Vec<String>)| (e.0, texts(e.1@)))
}

/// `l` lists exactly the groups of `groups` that hold more than one file, each once,
/// with the paths of its files in the group's order.
pub open spec fn lists_duplicates(
    groups: Map<u32, Seq<FileView>>,
    l: Seq<(u32, Seq<Seq<char>>)>,
) -> bool {
    &&& forall|i: int|
        0 <= i < l.len() ==> {
            &&& groups.contains_key(#[trigger] l[i].0)
            &&& groups[l[i].0].len() > 1
            &&& l[i].1 == paths_of(groups[l[i].0])
        }
    &&& forall|k: u32|
        #[trigger] groups.contains_key(k) && groups[k].len() > 1 ==> exists|i: int|
            0 <= i < l.len() && (#[trigger] l[i]).0 == k
    &&& forall|i: int, j: int|
        0 <= i < l.len() && 0 <= j < l.len() && i != j ==> (#[trigger] l[i]).0 != (
        #[trigger] l[j]).0
}

/// `l` lists exactly those of the first `n` keys of `keys` whose groups hold more
/// than one file, each once.
pub open spec fn lists_duplicates_prefix(
    groups: Map<u32, Seq<FileView>>,
    l: Seq<(u32, Seq<Seq<char>>)>,
    keys: Seq<(&u32, &Vec<FileInfo>)>,
    n: int,
) -> bool {
    &&& forall|i: int|
        0 <= i < l.len() ==> {
            &&& groups.contains_key(#[trigger] l[i].0)
            &&& groups[l[i].0].len() > 1
            &&& l[i].1 == paths_of(groups[l[i].0])
            &&& exists|j: int| 0 <= j < n && *(#[trigger] keys[j]).0 == l[i].0
        }
    &&& forall|j: int|
        0 <= j < n && groups.contains_key(*(#[trigger] keys[j]).0) && groups[*keys[j].0].len()
            > 1 ==> exists|i: int| 0 <= i < l.len() && (#[trigger] l[i]).0 == *keys[j].0
    &&& forall|i: int, j: int|
        0 <= i < l.len() && 0 <= j < l.len() && i != j ==> (#[trigger] l[i]).0 != (
        #[trigger] l[j]).0
}

/// The paths of a group's files, in order.
fn group_paths(group: &Vec<FileInfo>) -> (r: Vec<String>)
    ensures
        texts(r@) == paths_of(group_view(group@)),
{
    let mut out: Vec<String> = Vec::new();
    let mut i: usize = 0;
    while i < group.len()
        invariant
            i <= group.len(),
            texts(out@) == paths_of(group_view(group@)).take(i as int),
        decreases group.len() - i,
    {
        let ghost prev = out@;
        let p = group[i].path.clone();
        assert(p@ == group_view(group@)[i as int].path);
        out.push(p);
        assert(out@ == prev.push(p));
        i = i + 1;
        assert(texts(prev).len() == i - 1);
        assert forall|j: int| 0 <= j < i implies #[trigger] texts(out@)[j]
            == paths_of(group_view(group@)).take(i as int)[j] by {
            if j < i - 1 {
                assert(texts(prev)[j] == paths_of(group_view(group@)).take(
                    i - 1,
                )[j]);
            }
        }
        assert(texts(out@) =~= paths_of(group_view(group@)).take(i as int));
    }
    assert(paths_of(group_view(group@)).take(i as int) =~= paths_of(group_view(group@)));
    out
}

impl FileTable {
    /// The paths of the files under checksum `sum`, in the group's order; empty when
    /// there is no such group.
    pub fn group(&self, sum: u32) -> (r: Vec<String>)
        ensures
            texts(r@) == paths_of(group_of(self@.groups, sum)),
    {
        match self.table.get(&sum) {
            Some(g) => group_paths(g),
            None => {
                let r: Vec<String> = Vec::new();
                assert(texts(r@) =~= paths_of(group_of(self@.groups, sum)));
                r
            },
        }
    }

    /// The duplicate candidates: every group that holds more than one file, with the
    /// paths of its files, in no particular order of groups.
    pub fn exact(&self) -> (r: Vec<(u32, Vec<String>)>)
        ensures
            lists_duplicates(self@.groups, listing_view(r@)),
    {
        let mut out: Vec<(u32, Vec<String>)> = Vec::new();
        let ghost groups = self@.groups;
        for entry in it: self.table.iter()
            invariant
                groups == self@.groups,
                forall|i: int| #![trigger it.seq()[i]]
                    0 <= i < it.seq().len() ==> self.table@.contains_key(*it.seq()[i].0)
                        && self.table@[*it.seq()[i].0] == *it.seq()[i].1,
                forall|k: u32| #[trigger] self.table@.contains_key(k) ==> exists|i: int|
                    0 <= i < it.seq().len() && *(#[trigger] it.seq()[i]).0 == k,
                it.seq().no_duplicates(),
                lists_duplicates_prefix(groups, listing_view(out@), it.seq(), it.index() as int),
        {
            let (k, g) = entry;
            let ghost n = it.index();
            let ghost prev = out@;
            assert(entry == it.seq()[n as int]);
            assert(groups.contains_key(*k) && groups[*k] == group_view(g@));
            assert(forall|j: int| 0 <= j < n ==> *(#[trigger] it.seq()[j]).0 != *k) by {
                assert forall|j: int| 0 <= j < n implies *(#[trigger] it.seq()[j]).0 != *k by {
                    if *it.seq()[j].0 == *k {
                        assert(it.seq()[j] == it.seq()[n as int]);
                    }
                }
            }
            if g.len() > 1 {
                let paths = group_paths(g);
                out.push((*k, paths));
                assert(listing_view(out@) =~= listing_view(prev).push((*k, paths_of(groups[*k]))));
            }
            proof {
                let l = listing_view(out@);
                let lp = listing_view(prev);
                let ks = it.seq();
                assert forall|i: int| 0 <= i < l.len() implies exists|j: int|
                    0 <= j < n + 1 && *(#[trigger] ks[j]).0 == (#[trigger] l[i]).0 by {
                    if i < lp.len() {
                        assert(l[i] == lp[i]);
                        let j = choose|j: int| 0 <= j < n && *(#[trigger] ks[j]).0 == lp[i].0;
                        assert(*ks[j].0 == l[i].0);
                    } else {
                        assert(*ks[n as int].0 == l[i].0);
                    }
                }
                assert forall|j: int|
                    0 <= j < n + 1 && groups.contains_key(*(#[trigger] ks[j]).0)
                        && groups[*ks[j].0].len() > 1 implies exists|i: int|
                    0 <= i < l.len() && (#[trigger] l[i]).0 == *ks[j].0 by {
                    if j < n {
                        let i = choose|i: int| 0 <= i < lp.len() && (#[trigger] lp[i]).0 == *ks[j].0;
                        assert(l[i] == lp[i]);
                    } else {
                        assert(l[lp.len() as int].0 == *ks[j].0);
                    }
                }
                assert forall|a: int, b: int|
                    0 <= a < l.len() && 0 <= b < l.len() && a != b implies (#[trigger] l[a]).0 != (
                    #[trigger] l[b]).0 by {
                    if a < lp.len() && b < lp.len() {
                        assert(l[a] == lp[a] && l[b] == lp[b]);
                    } else if a < lp.len() {
                        assert(l[a] == lp[a]);
                        let j = choose|j: int| 0 <= j < n && *(#[trigger] ks[j]).0 == lp[a].0;
                        assert(*ks[j].0 != *k);
                    } else if b < lp.len() {
                        assert(l[b] == lp[b]);
                        let j = choose|j: int| 0 <= j < n && *(#[trigger] ks[j]).0 == lp[b].0;
                        assert(*ks[j].0 != *k);
                    }
                }
                assert forall|i: int| 0 <= i < l.len() implies {
                    &&& groups.contains_key(#[trigger] l[i].0)
                    &&& groups[l[i].0].len() > 1
                    &&& l[i].1 == paths_of(groups[l[i].0])
                } by {
                    if i < lp.len() {
                        assert(l[i] == lp[i]);
                    }
                }
            }
        }
        out
    }
}

/// After a file is added to a group, the group holds exactly one file with that
/// path, and it is the file just added; the group never shrinks.
pub proof fn lemma_added_file_is_found(g: Seq<FileView>, f: FileView)
    requires
        distinct_paths(g),
    ensures
        has_path(group_with(g, f), f.path),
        forall|i: int|
            0 <= i < group_with(g, f).len() && (#[trigger] group_with(g, f)[i]).path == f.path
                ==> group_with(g, f)[i] == f,
        distinct_paths(group_with(g, f)),
        group_with(g, f).len() == (if has_path(g, f.path) { g.len() } else { g.len() + 1 }),
{
    let h = group_with(g, f);
    if has_path(g, f.path) {
        let c = choose|i: int| 0 <= i < g.len() && (#[trigger] g[i]).path == f.path;
        assert(h[c] == f);
        assert forall|i: int| 0 <= i < h.len() && (#[trigger] h[i]).path == f.path implies h[i]
            == f by {
            if i != c {
                assert(g[i].path == h[i].path);
                assert(g[c].path == g[i].path);
            }
        }
        assert forall|a: int, b: int|
            0 <= a < h.len() && 0 <= b < h.len() && a != b implies (#[trigger] h[a]).path != (
            #[trigger] h[b]).path by {
            assert(h[a].path == g[a].path);
            assert(h[b].path == g[b].path);
        }
    } else {
        assert(h[g.len() as int] == f);
        assert forall|a: int, b: int|
            0 <= a < h.len() && 0 <= b < h.len() && a != b implies (#[trigger] h[a]).path != (
            #[trigger] h[b]).path by {
            if a < g.len() && b < g.len() {
                assert(h[a] == g[a] && h[b] == g[b]);
            } else if a < g.len() {
                assert(h[a] == g[a]);
            } else if b < g.len() {
                assert(h[b] == g[b]);
            }
        }
    }
}

/// Two files with different paths added under one checksum make that checksum's
/// group a duplicate group: it holds at least two files, and both are in it.
pub proof fn lemma_two_paths_make_duplicates(
    groups: Map<u32, Seq<FileView>>,
    sum: u32,
    f1: FileView,
    f2: FileView,
)
    requires
        groups_wf(groups),
        f1.path != f2.path,
    ensures
        ({
            let g1 = group_with(group_of(groups, sum), f1);
            let g2 = group_with(g1, f2);
            &&& g2.len() > 1
            &&& has_path(g2, f1.path)
            &&& has_path(g2, f2.path)
        }),
{
    let g0 = group_of(groups, sum);
    assert(distinct_paths(g0));
    lemma_added_file_is_found(g0, f1);
    let g1 = group_with(g0, f1);
    lemma_added_file_is_found(g1, f2);
    let g2 = group_with(g1, f2);
    let i1 = choose|i: int| 0 <= i < g1.len() && (#[trigger] g1[i]).path == f1.path;
    if has_path(g1, f2.path) {
        let c = choose|i: int| 0 <= i < g1.len() && (#[trigger] g1[i]).path == f2.path;
        assert(c != i1);
        assert(g2[i1] == g1[i1]);
    } else {
        assert(g2[i1] == g1[i1]);
    }
}

/// One file as the table's report writes it: its name, size and times, each
/// left-aligned in a field.
pub open spec fn described(f: FileView) -> Seq<char> {
    "name:"@ + pad_right(f.name, 20) + " size:"@ + pad_right(decimal(f.size as nat), 15)
        + " accessed:"@ + pad_right(f.accessed, 14) + " modified:"@ + pad_right(f.modified, 14)
}

impl FileInfo {
    /// The file's line in a report.
    pub fn describe(&self) -> (r: String)
        ensures
            r@ == described(self@),
    {
        let mut out = String::new();
        push_text(&mut out, "name:");
        push_padded_right(&mut out, self.name.as_str(), 20);
        push_text(&mut out, " size:");
        let size = decimal_text(self.size);
        push_padded_right(&mut out, size.as_str(), 15);
        push_text(&mut out, " accessed:");
        push_padded_right(&mut out, self.accessed.as_str(), 14);
        push_text(&mut out, " modified:");
        push_padded_right(&mut out, self.modified.as_str(), 14);
        assert(out@ =~= described(self@));
        out
    }
}

/// The lines of one file in the table's report: its path right-aligned, then its
/// description indented.
pub open spec fn file_lines(f: FileView) -> Seq<char> {
    pad_left(f.path, 40) + " \n"@ + spaces(40) + " "@ + described(f) + "\n"@
}

/// The lines of the files of a group, in order.
pub open spec fn group_lines(g: Seq<FileView>) -> Seq<char>
    decreases g.len(),
{
    if g.len() == 0 {
        Seq::empty()
    } else {
        group_lines(g.drop_last()) + file_lines(g.last())
    }
}

/// The report of the groups with the checksums `ks`, in that order: each checksum
/// on a line, followed by the lines of its files.
pub open spec fn groups_report(groups: Map<u32, Seq<FileView>>, ks: Seq<u32>) -> Seq<char>
    decreases ks.len(),
{
    if ks.len() == 0 {
        Seq::empty()
    } else {
        groups_report(groups, ks.drop_last()) + pad_right(decimal(ks.last() as nat), 12) + " \n"@
            + group_lines(groups[ks.last()])
    }
}

/// The lines of a group's files.
fn push_group_lines(out: &mut String, group: &Vec<FileInfo>)
    ensures
        final(out)@ == old(out)@ + group_lines(group_view(group@)),
{
    let mut i: usize = 0;
    while i < group.len()
        invariant
            i <= group.len(),
            out@ == old(out)@ + group_lines(group_view(group@).take(i as int)),
        decreases group.len() - i,
    {
        let f = &group[i];
        push_padded_left(out, f.path.as_str(), 40);
        push_text(out, " \n");
        push_spaces(out, 40);
        push_text(out, " ");
        let d = f.describe();
        push_text(out, d.as_str());
        push_text(out, "\n");
        proof {
            let g = group_view(group@);
            assert(g.take(i + 1).drop_last() =~= g.take(i as int));
            assert(g.take(i + 1).last() == f@);
        }
        i = i + 1;
        assert(out@ =~= old(out)@ + group_lines(group_view(group@).take(i as int)));
    }
    assert(group_view(group@).take(i as int) =~= group_view(group@));
}

/// The keys of the first `n` entries of a map's listing.
pub open spec fn listed_keys(entries: Seq<(&u32, &Vec<FileInfo>)>, n: int) -> Seq<u32> {
    entries.take(n).map_values(|e: (&u32, &Vec<FileInfo>)| *e.0)
}

impl FileTable {
    /// The table's report: every group with its checksum and files, in no
    /// particular order of groups, closed by `]`.
    pub fn render(&self) -> (r: String)
        ensures
            exists|ks: Seq<u32>|
                #![trigger groups_report(self@.groups, ks)]
                ks.no_duplicates() && ks.to_set() == self@.groups.dom() && r@ == groups_report(
                    self@.groups,
                    ks,
                ) + "]"@,
    {
        let mut out = String::new();
        let ghost groups = self@.groups;
        let ghost mut ks: Seq<u32> = Seq::empty();
        for entry in it: self.table.iter()
            invariant
                groups == self@.groups,
                forall|i: int| #![trigger it.seq()[i]]
                    0 <= i < it.seq().len() ==> self.table@.contains_key(*it.seq()[i].0)
                        && self.table@[*it.seq()[i].0] == *it.seq()[i].1,
                forall|k: u32| #[trigger] self.table@.contains_key(k) ==> exists|i: int|
                    0 <= i < it.seq().len() && *(#[trigger] it.seq()[i]).0 == k,
                it.seq().no_duplicates(),
                ks == listed_keys(it.seq(), it.index() as int),
                ks.no_duplicates(),
                forall|i: int| 0 <= i < ks.len() ==> groups.contains_key(#[trigger] ks[i]),
                forall|k: u32|
                    #[trigger] groups.contains_key(k) && !ks.contains(k) ==> exists|j: int|
                        it.index() <= j < it.seq().len() && *(#[trigger] it.seq()[j]).0 == k,
                out@ == groups_report(groups, ks),
        {
            let (k, g) = entry;
            let ghost n = it.index();
            assert(entry == it.seq()[n as int]);
            let key = decimal_text(*k as u64);
            push_padded_right(&mut out, key.as_str(), 12);
            push_text(&mut out, " \n");
            push_group_lines(&mut out, g);
            proof {
                let ks1 = listed_keys(it.seq(), n + 1);
                assert(ks1.drop_last() =~= ks);
                assert(ks1.last() == *k);
                assert(groups[*k] == group_view(g@));
                assert forall|j: int| 0 <= j < n implies *(#[trigger] it.seq()[j]).0 != *k by {
                    if *it.seq()[j].0 == *k {
                        assert(it.seq()[j] == it.seq()[n as int]);
                    }
                }
                assert(!ks.contains(*k)) by {
                    if ks.contains(*k) {
                        let a = choose|a: int| 0 <= a < ks.len() && ks[a] == *k;
                        assert(ks[a] == *it.seq().take(n as int)[a].0);
                    }
                }
                assert forall|kk: u32|
                    #[trigger] groups.contains_key(kk) && !ks1.contains(kk) implies exists|j: int|
                    n + 1 <= j < it.seq().len() && *(#[trigger] it.seq()[j]).0 == kk by {
                    assert(!ks.contains(kk)) by {
                        if ks.contains(kk) {
                            let a = choose|a: int| 0 <= a < ks.len() && ks[a] == kk;
                            assert(ks1[a] == kk);
                        }
                    }
                    let j = choose|j: int|
                        n <= j < it.seq().len() && *(#[trigger] it.seq()[j]).0 == kk;
                    if j == n {
                        assert(ks1[n as int] == kk);
                    }
                }
                assert(ks1 =~= ks.push(*k));
                ks = ks.push(*k);
            }
        }
        proof {
            assert forall|k: u32| ks.contains(k) <==> groups.contains_key(k) by {
                if ks.contains(k) {
                    let a = choose|a: int| 0 <= a < ks.len() && ks[a] == k;
                }
            }
            assert(ks.to_set() =~= groups.dom());
        }
        push_text(&mut out, "]");
        out
    }

    /// The progress line while files are added: the counters, the directory of the
    /// current file, and the first ten characters of its name.
    pub fn progress(&self, parent: &str, name: &str) -> (r: String)
        ensures
            r@ == "dirs:"@ + decimal(self@.count_dir as nat) + ",files:"@ + decimal(
                self@.count_file as nat,
            ) + ", "@ + parent@ + " >> "@ + prefix_chars(name@, 10),
    {
        let mut out = String::new();
        push_text(&mut out, "dirs:");
        let d = decimal_text(self.count_dir as u64);
        push_text(&mut out, d.as_str());
        push_text(&mut out, ",files:");
        let f = decimal_text(self.count_file as u64);
        push_text(&mut out, f.as_str());
        push_text(&mut out, ", ");
        push_text(&mut out, parent);
        push_text(&mut out, " >> ");
        let short = first_chars(name, 10);
        push_text(&mut out, short.as_str());
        assert(out@ =~= "dirs:"@ + decimal(self@.count_dir as nat) + ",files:"@ + decimal(
            self@.count_file as nat,
        ) + ", "@ + parent@ + " >> "@ + prefix_chars(name@, 10));
        out
    }
}

/// The table after going through the entry `e`: a directory or a regular file is
/// counted, the groups stay.
pub open spec fn after_visit(t: TableView, e: EntryInfo) -> TableView {
    TableView {
        groups: t.groups,
        count_dir: if kind_of(e) == EntryKind::Dir {
            (t.count_dir + 1) as u32
        } else {
            t.count_dir
        },
        count_file: if kind_of(e) == EntryKind::File {
            (t.count_file + 1) as u32
        } else {
            t.count_file
        },
    }
}

/// The table after going through the entries `es`, in order.
pub open spec fn after_visits(t: TableView, es: Seq<EntryInfo>) -> TableView
    decreases es.len(),
{
    if es.len() == 0 {
        t
    } else {
        after_visits(after_visit(t, es[0]), es.drop_first())
    }
}

/// Every entry of `es`, taken in order, can be counted without a counter leaving
/// its range.
pub open spec fn can_visit_all(t: TableView, es: Seq<EntryInfo>) -> bool
    decreases es.len(),
{
    if es.len() == 0 {
        true
    } else {
        &&& (kind_of(es[0]) == EntryKind::Dir ==> t.count_dir < u32::MAX)
        &&& (kind_of(es[0]) == EntryKind::File ==> t.count_file < u32::MAX)
        &&& can_visit_all(after_visit(t, es[0]), es.drop_first())
    }
}

/// The number of entries of `es` of kind `k`.
pub open spec fn count_kind(es: Seq<EntryInfo>, k: EntryKind) -> nat
    decreases es.len(),
{
    if es.len() == 0 {
        0
    } else {
        (if kind_of(es[0]) == k { 1nat } else { 0nat }) + count_kind(es.drop_first(), k)
    }
}

/// Over any walk, the directory counter grows by the number of directories gone
/// through, the file counter by the number of regular files, and going through
/// entries alone changes no group.
pub proof fn lemma_walk_is_counted(t: TableView, es: Seq<EntryInfo>)
    requires
        can_visit_all(t, es),
    ensures
        after_visits(t, es).count_dir == t.count_dir + count_kind(es, EntryKind::Dir),
        after_visits(t, es).count_file == t.count_file + count_kind(es, EntryKind::File),
        after_visits(t, es).groups == t.groups,
    decreases es.len(),
{
    if es.len() > 0 {
        lemma_walk_is_counted(after_visit(t, es[0]), es.drop_first());
    }
}

/// The lines of a group grow by the lines of each file added at its end: a group
/// of files is reported file by file, none left out.
pub proof fn lemma_group_lines_push(g: Seq<FileView>, f: FileView)
    ensures
        group_lines(g.push(f)) == group_lines(g) + file_lines(f),
{
    assert(g.push(f).drop_last() =~= g);
}

/// The lines of two groups one after the other are the lines of the first then
/// those of the second; so the report of a group holds the lines of every one of
/// its files, in order.
pub proof fn lemma_group_lines_concat(g1: Seq<FileView>, g2: Seq<FileView>)
    ensures
        group_lines(g1 + g2) == group_lines(g1) + group_lines(g2),
    decreases g2.len(),
{
    if g2.len() == 0 {
        assert(g1 + g2 =~= g1);
        assert(group_lines(g2) =~= Seq::<char>::empty());
        assert(group_lines(g1) + group_lines(g2) =~= group_lines(g1));
    } else {
        let g2p = g2.drop_last();
        lemma_group_lines_concat(g1, g2p);
        assert((g1 + g2).drop_last() =~= g1 + g2p);
        assert((g1 + g2).last() == g2.last());
        assert(group_lines(g1 + g2) =~= group_lines(g1) + group_lines(g2));
    }
}

/// The report of a group is the lines of its files, each file's lines in its
/// place: for a group `g`, the lines of `g[i]` stand after those of `g[0..i]`.
pub proof fn lemma_group_lines_split(g: Seq<FileView>, i: int)
    requires
        0 <= i < g.len(),
    ensures
        group_lines(g) == group_lines(g.take(i)) + file_lines(g[i]) + group_lines(
            g.skip(i + 1),
        ),
{
    lemma_group_lines_concat(g.take(i + 1), g.skip(i + 1));
    assert(g.take(i + 1) + g.skip(i + 1) =~= g);
    lemma_group_lines_push(g.take(i), g[i]);
    assert(g.take(i).push(g[i]) =~= g.take(i + 1));
}

} // verus!
