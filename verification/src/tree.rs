//! A directory tree of files, modeled as a finite map from segment paths to
//! file contents. Staged sources, git checkouts and installed version
//! directories are all values of this type.

use vstd::prelude::*;

use crate::paths::{
    path_contains_dir_segment, path_eq, path_has_dir_segment, path_has_prefix, valid_path,
    SpecPath,
};

verus! {

/// One regular file: its path relative to the tree root, and its bytes.
pub struct FileEntry {
    pub path: Vec<String>,
    pub data: Vec<u8>,
}

impl FileEntry {
    pub open spec fn spec_path(self) -> SpecPath {
        self.path.deep_view()
    }

    pub open spec fn spec_data(self) -> Seq<u8> {
        self.data@
    }
}

/// The map described by a list of entries: later entries overwrite earlier
/// ones with the same path.
pub open spec fn entries_map(s: Seq<FileEntry>) -> Map<SpecPath, Seq<u8>>
    decreases s.len(),
{
    if s.len() == 0 {
        Map::empty()
    } else {
        entries_map(s.drop_last()).insert(s.last().spec_path(), s.last().spec_data())
    }
}

pub proof fn lemma_entries_map_dom(s: Seq<FileEntry>, p: SpecPath)
    ensures
        entries_map(s).dom().contains(p) <==> exists|i: int|
            0 <= i < s.len() && s[i].spec_path() == p,
    decreases s.len(),
{
    if s.len() > 0 {
        lemma_entries_map_dom(s.drop_last(), p);
        if s.last().spec_path() == p {
            assert(s[s.len() - 1].spec_path() == p);
        } else {
            if exists|i: int| 0 <= i < s.len() && s[i].spec_path() == p {
                let i = choose|i: int| 0 <= i < s.len() && s[i].spec_path() == p;
                assert(s.drop_last()[i] == s[i]);
            }
            if exists|i: int| 0 <= i < s.len() - 1 && s.drop_last()[i].spec_path() == p {
                let i = choose|i: int| 0 <= i < s.len() - 1 && s.drop_last()[i].spec_path() == p;
                assert(s[i].spec_path() == p);
            }
        }
    }
}

pub proof fn lemma_entries_map_value(s: Seq<FileEntry>, i: int)
    requires
        0 <= i < s.len(),
        forall|j: int, k: int|
            0 <= j < k < s.len() ==> s[j].spec_path() != s[k].spec_path(),
    ensures
        entries_map(s).dom().contains(s[i].spec_path()),
        entries_map(s)[s[i].spec_path()] == s[i].spec_data(),
    decreases s.len(),
{
    if i < s.len() - 1 {
        assert(forall|j: int, k: int|
            0 <= j < k < s.len() - 1 ==> s.drop_last()[j].spec_path()
                != s.drop_last()[k].spec_path());
        lemma_entries_map_value(s.drop_last(), i);
        assert(s.drop_last()[i] == s[i]);
        assert(s[i].spec_path() != s[s.len() - 1].spec_path());
    }
}

/// A directory tree of regular files.
pub struct FileTree {
    pub entries: Vec<FileEntry>,
}

impl View for FileTree {
    type V = Map<SpecPath, Seq<u8>>;

    open spec fn view(&self) -> Map<SpecPath, Seq<u8>> {
        entries_map(self.entries@)
    }
}

/// The tree with every file under a directory of the given name removed. A
/// plain file whose own name equals it — the last segment — is kept.
pub open spec fn spec_without_segment(
    m: Map<SpecPath, Seq<u8>>,
    seg: Seq<char>,
) -> Map<SpecPath, Seq<u8>> {
    Map::new(
        |p: SpecPath| m.dom().contains(p) && !path_contains_dir_segment(p, seg),
        |p: SpecPath| m[p],
    )
}

/// The files strictly below the given prefix, with the prefix stripped.
pub open spec fn spec_subtree(
    m: Map<SpecPath, Seq<u8>>,
    prefix: SpecPath,
) -> Map<SpecPath, Seq<u8>> {
    Map::new(
        |q: SpecPath| q.len() > 0 && m.dom().contains(prefix + q),
        |q: SpecPath| m[prefix + q],
    )
}

/// Copy a byte vector element by element.
pub fn copy_bytes(v: &Vec<u8>) -> (r: Vec<u8>)
    ensures
        r@ == v@,
{
    let mut r: Vec<u8> = Vec::new();
    let mut i: usize = 0;
    while i < v.len()
        invariant
            0 <= i <= v@.len(),
            r@ == v@.take(i as int),
        decreases v@.len() - i,
    {
        r.push(v[i]);
        proof {
            assert(v@.take(i + 1) =~= v@.take(i as int).push(v@[i as int]));
        }
        i += 1;
    }
    proof {
        assert(v@.take(v@.len() as int) =~= v@);
    }
    r
}

/// Copy a segment path element by element.
pub fn copy_path(v: &Vec<String>) -> (r: Vec<String>)
    ensures
        r.deep_view() == v.deep_view(),
{
    let mut r: Vec<String> = Vec::new();
    let mut i: usize = 0;
    while i < v.len()
        invariant
            0 <= i <= v@.len(),
            r@.len() == i,
            forall|j: int| 0 <= j < i ==> r.deep_view()[j] == v.deep_view()[j],
        decreases v@.len() - i,
    {
        r.push(v[i].clone());
        proof {
            assert(r.deep_view()[i as int] == v@[i as int]@);
            assert(v.deep_view()[i as int] == v@[i as int]@);
        }
        i += 1;
    }
    proof {
        assert(r.deep_view() =~= v.deep_view());
    }
    r
}

impl FileTree {
    /// Every path is a valid segment path and no path repeats.
    pub open spec fn wf(self) -> bool {
        &&& (forall|i: int|
            0 <= i < self.entries@.len() ==> valid_path(#[trigger] self.entries@[i].spec_path()))
        &&& (forall|i: int, j: int|
            0 <= i < j < self.entries@.len() ==> self.entries@[i].spec_path()
                != self.entries@[j].spec_path())
    }

    /// The empty tree.
    pub fn new() -> (r: FileTree)
        ensures
            r@ == Map::<SpecPath, Seq<u8>>::empty(),
            r.wf(),
    {
        FileTree { entries: Vec::new() }
    }

    /// Whether the tree holds no file at all.
    pub fn is_empty(&self) -> (r: bool)
        ensures
            r == (self@.dom() == Set::<SpecPath>::empty()),
    {
        proof {
            if self.entries@.len() == 0 {
                assert(self@.dom() =~= Set::<SpecPath>::empty());
            } else {
                lemma_entries_map_dom(self.entries@, self.entries@[0].spec_path());
                assert(self@.dom().contains(self.entries@[0].spec_path()));
            }
        }
        self.entries.len() == 0
    }

    /// The index of the entry with the given path, if any.
    fn find_index(&self, path: &Vec<String>) -> (r: Option<usize>)
        ensures
            match r {
                Some(i) => i < self.entries@.len() && self.entries@[i as int].spec_path()
                    == path.deep_view(),
                None => forall|i: int|
                    0 <= i < self.entries@.len() ==> (#[trigger] self.entries@[i].spec_path())
                        != path.deep_view(),
            },
    {
        let mut i: usize = 0;
        while i < self.entries.len()
            invariant
                0 <= i <= self.entries@.len(),
                forall|j: int|
                    0 <= j < i ==> (#[trigger] self.entries@[j].spec_path()) != path.deep_view(),
            decreases self.entries@.len() - i,
        {
            if path_eq(&self.entries[i].path, path) {
                return Some(i);
            }
            i += 1;
        }
        None
    }

    /// Whether a file stands at the given path.
    pub fn contains_path(&self, path: &Vec<String>) -> (r: bool)
        ensures
            r == self@.dom().contains(path.deep_view()),
    {
        proof {
            lemma_entries_map_dom(self.entries@, path.deep_view());
        }
        self.find_index(path).is_some()
    }

    /// The bytes of the file at the given path, if any.
    pub fn get(&self, path: &Vec<String>) -> (r: Option<&Vec<u8>>)
        requires
            self.wf(),
        ensures
            match r {
                Some(d) => self@.dom().contains(path.deep_view()) && d@ == self@[path.deep_view()],
                None => !self@.dom().contains(path.deep_view()),
            },
    {
        proof {
            lemma_entries_map_dom(self.entries@, path.deep_view());
        }
        match self.find_index(path) {
            Some(i) => {
                proof {
                    lemma_entries_map_value(self.entries@, i as int);
                }
                Some(&self.entries[i].data)
            },
            None => None,
        }
    }

    /// Put a file at the given path, replacing any file already there.
    pub fn insert(&mut self, path: Vec<String>, data: Vec<u8>)
        requires
            old(self).wf(),
            valid_path(path.deep_view()),
        ensures
            final(self).wf(),
            final(self)@ == old(self)@.insert(path.deep_view(), data@),
    {
        let ghost old_entries = self.entries@;
        match self.find_index(&path) {
            Some(i) => {
                let entry = FileEntry { path, data };
                self.entries.set(i, entry);
                proof {
                    lemma_set_entry(old_entries, i as int, entry);
                }
            },
            None => {
                let ghost p = path.deep_view();
                let ghost d = data@;
                self.entries.push(FileEntry { path, data });
                proof {
                    assert(self.entries@.drop_last() =~= old_entries);
                    assert(self@ == entries_map(old_entries).insert(p, d));
                }
            },
        }
    }
}

impl FileTree {
    /// The tree copied with every file under a directory of the given name
    /// left out. Placement copies a staged source this way, skipping
    /// version-control metadata such as a nested ".git".
    pub fn without_segment(&self, seg: &str) -> (r: FileTree)
        requires
            self.wf(),
        ensures
            r.wf(),
            r@ == spec_without_segment(self@, seg@),
    {
        let mut out = FileTree::new();
        proof {
            assert(self.entries@.take(0) =~= Seq::<FileEntry>::empty());
            assert(out@ =~= spec_without_segment(entries_map(self.entries@.take(0)), seg@));
        }
        let mut i: usize = 0;
        while i < self.entries.len()
            invariant
                self.wf(),
                0 <= i <= self.entries@.len(),
                out.wf(),
                out@ == spec_without_segment(entries_map(self.entries@.take(i as int)), seg@),
            decreases self.entries@.len() - i,
        {
            let ghost m_prev = entries_map(self.entries@.take(i as int));
            let ghost p = self.entries@[i as int].spec_path();
            let ghost d = self.entries@[i as int].spec_data();
            proof {
                assert(self.entries@.take(i + 1).drop_last() =~= self.entries@.take(i as int));
                assert(self.entries@.take(i + 1).last() == self.entries@[i as int]);
            }
            if !path_has_dir_segment(&self.entries[i].path, seg) {
                let path2 = copy_path(&self.entries[i].path);
                let data2 = copy_bytes(&self.entries[i].data);
                out.insert(path2, data2);
                proof {
                    assert(out@ =~= spec_without_segment(m_prev.insert(p, d), seg@));
                }
            } else {
                proof {
                    assert(out@ =~= spec_without_segment(m_prev.insert(p, d), seg@));
                }
            }
            i += 1;
        }
        proof {
            assert(self.entries@.take(self.entries@.len() as int) =~= self.entries@);
        }
        out
    }

    /// The files strictly below the given prefix, with the prefix stripped.
    pub fn subtree(&self, prefix: &Vec<String>) -> (r: FileTree)
        requires
            self.wf(),
        ensures
            r.wf(),
            r@ == spec_subtree(self@, prefix.deep_view()),
    {
        let ghost pre = prefix.deep_view();
        let mut out = FileTree::new();
        proof {
            assert(self.entries@.take(0) =~= Seq::<FileEntry>::empty());
            assert(out@ =~= spec_subtree(entries_map(self.entries@.take(0)), pre));
        }
        let mut i: usize = 0;
        while i < self.entries.len()
            invariant
                self.wf(),
                pre == prefix.deep_view(),
                0 <= i <= self.entries@.len(),
                out.wf(),
                out@ == spec_subtree(entries_map(self.entries@.take(i as int)), pre),
            decreases self.entries@.len() - i,
        {
            let ghost m_prev = entries_map(self.entries@.take(i as int));
            let ghost p = self.entries@[i as int].spec_path();
            let ghost d = self.entries@[i as int].spec_data();
            proof {
                assert(self.entries@.take(i + 1).drop_last() =~= self.entries@.take(i as int));
                assert(self.entries@.take(i + 1).last() == self.entries@[i as int]);
                assert forall|q: SpecPath| (#[trigger] (pre + q)).skip(pre.len() as int) =~= q by {}
                assert forall|q: SpecPath| (#[trigger] (pre + q)).take(pre.len() as int) =~= pre by {}
            }
            if path_has_prefix(&self.entries[i].path, prefix) && self.entries[i].path.len()
                > prefix.len() {
                let mut stripped: Vec<String> = Vec::new();
                let mut j: usize = prefix.len();
                while j < self.entries[i].path.len()
                    invariant
                        0 <= i < self.entries@.len(),
                        prefix@.len() <= j <= self.entries@[i as int].path@.len(),
                        p == self.entries@[i as int].spec_path(),
                        pre == prefix.deep_view(),
                        stripped@.len() == j - prefix@.len(),
                        forall|k: int|
                            0 <= k < stripped@.len() ==> stripped.deep_view()[k] == p[pre.len()
                                + k],
                    decreases self.entries@[i as int].path@.len() - j,
                {
                    let ghost old_sv = stripped.deep_view();
                    stripped.push(self.entries[i].path[j].clone());
                    proof {
                        assert forall|k: int|
                            0 <= k < stripped@.len() implies stripped.deep_view()[k] == p[pre.len()
                            + k] by {
                            if k == stripped@.len() - 1 {
                                assert(stripped.deep_view()[k] == self.entries@[i as int].path@[j as int]@);
                                assert(p[pre.len() + k] == self.entries@[i as int].path@[j as int]@);
                            } else {
                                assert(stripped.deep_view()[k] == old_sv[k]);
                            }
                        }
                    }
                    j += 1;
                }
                proof {
                    assert(stripped.deep_view() =~= p.skip(pre.len() as int));
                    assert(valid_path(p));
                    assert(pre + p.skip(pre.len() as int) =~= p);
                    assert forall|k: int| 0 <= k < p.skip(pre.len() as int).len() implies
                        crate::paths::valid_segment(#[trigger] p.skip(pre.len() as int)[k]) by {
                        assert(p.skip(pre.len() as int)[k] == p[pre.len() + k]);
                    }
                }
                let data2 = copy_bytes(&self.entries[i].data);
                out.insert(stripped, data2);
                proof {
                    assert(out@ =~= spec_subtree(m_prev.insert(p, d), pre));
                }
            } else {
                proof {
                    assert(out@ =~= spec_subtree(m_prev.insert(p, d), pre));
                }
            }
            i += 1;
        }
        proof {
            assert(self.entries@.take(self.entries@.len() as int) =~= self.entries@);
        }
        out
    }
}

/// Overwriting the entry at a position with one of the same path updates the
/// described map exactly as an insert does.
proof fn lemma_set_entry(s: Seq<FileEntry>, i: int, e: FileEntry)
    requires
        0 <= i < s.len(),
        s[i].spec_path() == e.spec_path(),
        forall|j: int, k: int| 0 <= j < k < s.len() ==> s[j].spec_path() != s[k].spec_path(),
    ensures
        entries_map(s.update(i, e)) == entries_map(s).insert(e.spec_path(), e.spec_data()),
        forall|j: int, k: int|
            0 <= j < k < s.len() ==> s.update(i, e)[j].spec_path() != s.update(
                i,
                e,
            )[k].spec_path(),
    decreases s.len(),
{
    let t = s.update(i, e);
    if i == s.len() - 1 {
        assert(t.drop_last() =~= s.drop_last());
        assert(t.last() == e);
        assert(entries_map(t) == entries_map(s.drop_last()).insert(e.spec_path(), e.spec_data()));
        assert(entries_map(s) == entries_map(s.drop_last()).insert(
            s.last().spec_path(),
            s.last().spec_data(),
        ));
        assert(entries_map(t) =~= entries_map(s).insert(e.spec_path(), e.spec_data()));
    } else {
        assert(forall|j: int, k: int|
            0 <= j < k < s.len() - 1 ==> s.drop_last()[j].spec_path()
                != s.drop_last()[k].spec_path());
        lemma_set_entry(s.drop_last(), i, e);
        assert(t.drop_last() =~= s.drop_last().update(i, e));
        assert(t.last() == s.last());
        assert(s[i].spec_path() != s[s.len() - 1].spec_path());
        assert(entries_map(t) == entries_map(s.drop_last()).insert(
            e.spec_path(),
            e.spec_data(),
        ).insert(s.last().spec_path(), s.last().spec_data()));
        assert(entries_map(t) =~= entries_map(s).insert(e.spec_path(), e.spec_data()));
    }
}

} // verus!
