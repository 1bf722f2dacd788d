//! An in-memory model of a directory tree: the set of files it holds (each a
//! relative path with byte content) and the directories known to exist. The
//! differ and the propagator work on this model; whatever enumerates a real
//! directory hands the library one of these values.

use vstd::prelude::*;
use crate::paths::{path_eq, RelPath};

verus! {

/// One file of a tree: its path relative to the tree root and its bytes.
pub struct TreeFile {
    pub path: RelPath,
    pub content: Vec<u8>,
}

/// A directory tree, relative to an unnamed root.
pub struct Tree {
    pub files: Vec<TreeFile>,
    pub dirs: Vec<RelPath>,
}

impl Tree {
    /// Well-formed: no two files share a path.
    pub open spec fn wf(self) -> bool {
        forall|i: int, j: int|
            0 <= i < j < self.files@.len() ==> self.files@[i].path@ != self.files@[j].path@
    }

    /// Whether a file exists at the relative path `p`.
    pub open spec fn contains_file(self, p: Seq<Seq<char>>) -> bool {
        exists|i: int| 0 <= i < self.files@.len() && self.files@[i].path@ == p
    }

    /// The position of the file at `p` (meaningful when `contains_file(p)`).
    pub open spec fn index_of(self, p: Seq<Seq<char>>) -> int {
        choose|i: int| 0 <= i < self.files@.len() && self.files@[i].path@ == p
    }

    /// The byte content of the file at `p` (meaningful when `contains_file(p)`).
    pub open spec fn file_at(self, p: Seq<Seq<char>>) -> Seq<u8> {
        self.files@[self.index_of(p)].content@
    }

    /// Whether a directory exists at the relative path `p`.
    pub open spec fn has_dir(self, p: Seq<Seq<char>>) -> bool {
        exists|i: int| 0 <= i < self.dirs@.len() && self.dirs@[i]@ == p
    }

    /// An empty tree.
    pub fn new() -> (r: Tree)
        ensures
            r.wf(),
            r.files@.len() == 0,
            r.dirs@.len() == 0,
            forall|p: Seq<Seq<char>>| !r.contains_file(p),
            forall|p: Seq<Seq<char>>| !r.has_dir(p),
    {
        Tree { files: Vec::new(), dirs: Vec::new() }
    }

    /// The number of files in the tree.
    pub fn file_count(&self) -> (r: usize)
        ensures
            r == self.files@.len(),
    {
        self.files.len()
    }

    /// Whether a file exists at `p`, by scanning the file list.
    pub fn contains(&self, p: &RelPath) -> (r: bool)
        ensures
            r == self.contains_file(p@),
    {
        let mut i: usize = 0;
        while i < self.files.len()
            invariant
                i <= self.files@.len(),
                forall|j: int| 0 <= j < i ==> self.files@[j].path@ != p@,
            decreases self.files@.len() - i,
        {
            if path_eq(&self.files[i].path, p) {
                proof {
                    let k = i as int;
                    assert(0 <= k < self.files@.len() && self.files@[k].path@ == p@);
                }
                return true;
            }
            i += 1;
        }
        false
    }

    /// The content of the file at `p`, or `None` when the tree has no file
    /// there.
    pub fn lookup(&self, p: &RelPath) -> (r: Option<&Vec<u8>>)
        requires
            self.wf(),
        ensures
            match r {
                Some(c) => self.contains_file(p@) && c@ == self.file_at(p@),
                None => !self.contains_file(p@),
            },
    {
        let mut i: usize = 0;
        while i < self.files.len()
            invariant
                self.wf(),
                i <= self.files@.len(),
                forall|j: int| 0 <= j < i ==> self.files@[j].path@ != p@,
            decreases self.files@.len() - i,
        {
            if path_eq(&self.files[i].path, p) {
                proof {
                    lemma_file_index(*self, p@, i as int);
                }
                return Some(&self.files[i].content);
            }
            i += 1;
        }
        None
    }


    /// Whether a directory is recorded at `p`, by scanning the directory list.
    pub fn dir_exists(&self, p: &RelPath) -> (r: bool)
        ensures
            r == self.has_dir(p@),
    {
        let mut i: usize = 0;
        while i < self.dirs.len()
            invariant
                i <= self.dirs@.len(),
                forall|j: int| 0 <= j < i ==> self.dirs@[j]@ != p@,
            decreases self.dirs@.len() - i,
        {
            if path_eq(&self.dirs[i], p) {
                proof {
                    let k = i as int;
                    assert(0 <= k < self.dirs@.len() && self.dirs@[k]@ == p@);
                }
                return true;
            }
            i += 1;
        }
        false
    }

    /// Adds a file at `path` when no file is there yet; an occupied path is
    /// left untouched. Returns whether the file was added.
    pub fn insert_file(&mut self, path: RelPath, content: Vec<u8>) -> (added: bool)
        requires
            old(self).wf(),
        ensures
            final(self).wf(),
            final(self).dirs == old(self).dirs,
            added == !old(self).contains_file(path@),
            !added ==> *final(self) == *old(self),
            final(self).contains_file(path@),
            added ==> final(self).file_at(path@) == content@,
            forall|q: Seq<Seq<char>>| old(self).contains_file(q) ==> final(self).contains_file(q)
                && final(self).file_at(q) == old(self).file_at(q),
            forall|q: Seq<Seq<char>>| final(self).contains_file(q) ==> old(self).contains_file(q)
                || q == path@,
            forall|q: Seq<Seq<char>>| final(self).has_dir(q) == old(self).has_dir(q),
    {
        let ghost p = path@;
        let ghost c = content@;
        if self.contains(&path) {
            return false;
        }
        let ghost pre = *self;
        self.files.push(TreeFile { path, content });
        proof {
            let n = pre.files@.len() as int;
            assert(self.files@ == pre.files@.push(TreeFile { path: path, content: content }));
            assert forall|i: int, j: int|
                0 <= i < j < self.files@.len() implies self.files@[i].path@ != self.files@[j].path@ by {
                if j < n {
                    assert(pre.files@[i].path@ != pre.files@[j].path@);
                } else {
                    assert(self.files@[j].path@ == p);
                    assert(self.files@[i].path@ != p);
                }
            }
            assert(0 <= n < self.files@.len() && self.files@[n].path@ == p);
            lemma_file_index(*self, p, n);
            assert forall|q: Seq<Seq<char>>| pre.contains_file(q) implies self.contains_file(q)
                && self.file_at(q) == pre.file_at(q) by {
                let i = pre.index_of(q);
                assert(0 <= i < pre.files@.len() && pre.files@[i].path@ == q);
                lemma_file_index(pre, q, i);
                lemma_file_index(*self, q, i);
            }
            assert forall|q: Seq<Seq<char>>| self.has_dir(q) == pre.has_dir(q) by {
                assert(self.dirs@ == pre.dirs@);
                if self.has_dir(q) {
                    let i = choose|i: int| 0 <= i < self.dirs@.len() && self.dirs@[i]@ == q;
                    assert(0 <= i < pre.dirs@.len() && pre.dirs@[i]@ == q);
                }
                if pre.has_dir(q) {
                    let i = choose|i: int| 0 <= i < pre.dirs@.len() && pre.dirs@[i]@ == q;
                    assert(0 <= i < self.dirs@.len() && self.dirs@[i]@ == q);
                }
            }
            assert forall|q: Seq<Seq<char>>| self.contains_file(q) implies pre.contains_file(q)
                || q == p by {
                let i = self.index_of(q);
                assert(0 <= i < self.files@.len() && self.files@[i].path@ == q);
                if i < n {
                    assert(pre.files@[i].path@ == q);
                }
            }
        }
        true
    }

    /// Records that a directory exists at `d`. Files are untouched.
    pub fn insert_dir(&mut self, d: RelPath)
        ensures
            final(self).files == old(self).files,
            final(self).has_dir(d@),
            forall|q: Seq<Seq<char>>| old(self).has_dir(q) ==> final(self).has_dir(q),
            forall|q: Seq<Seq<char>>| final(self).has_dir(q) ==> old(self).has_dir(q) || q == d@,
            old(self).wf() ==> final(self).wf(),
            forall|p: Seq<Seq<char>>| final(self).contains_file(p) == old(self).contains_file(p),
            old(self).wf() ==> forall|p: Seq<Seq<char>>| old(self).contains_file(p)
                ==> final(self).file_at(p) == old(self).file_at(p),
    {
        let ghost pre = *self;
        let ghost dv = d@;
        self.dirs.push(d);
        proof {
            let n = pre.dirs@.len() as int;
            assert(0 <= n < self.dirs@.len() && self.dirs@[n]@ == dv);
            assert forall|q: Seq<Seq<char>>| pre.has_dir(q) implies self.has_dir(q) by {
                let i = choose|i: int| 0 <= i < pre.dirs@.len() && pre.dirs@[i]@ == q;
                assert(0 <= i < self.dirs@.len() && self.dirs@[i]@ == q);
            }
            assert forall|p: Seq<Seq<char>>| self.contains_file(p) == pre.contains_file(p) by {
                assert(self.files@ == pre.files@);
                if self.contains_file(p) {
                    let i = self.index_of(p);
                    assert(0 <= i < pre.files@.len() && pre.files@[i].path@ == p);
                }
                if pre.contains_file(p) {
                    let i = pre.index_of(p);
                    assert(0 <= i < self.files@.len() && self.files@[i].path@ == p);
                }
            }
            if pre.wf() {
                assert forall|i: int, j: int| 0 <= i < j < self.files@.len()
                    implies self.files@[i].path@ != self.files@[j].path@ by {
                    assert(pre.files@[i].path@ != pre.files@[j].path@);
                }
                assert forall|p: Seq<Seq<char>>| pre.contains_file(p)
                    implies self.file_at(p) == pre.file_at(p) by {
                    let i = pre.index_of(p);
                    assert(0 <= i < pre.files@.len() && pre.files@[i].path@ == p);
                    lemma_file_index(pre, p, i);
                    lemma_file_index(*self, p, i);
                }
            }
            assert forall|q: Seq<Seq<char>>| self.has_dir(q) implies pre.has_dir(q) || q == dv by {
                let i = choose|i: int| 0 <= i < self.dirs@.len() && self.dirs@[i]@ == q;
                if i < n {
                    assert(0 <= i < pre.dirs@.len() && pre.dirs@[i]@ == q);
                }
            }
        }
    }
}

/// In a well-formed tree, the file found at position `i` is the file the
/// tree's spec-level lookup names: positions of equal paths coincide.
pub proof fn lemma_file_index(t: Tree, p: Seq<Seq<char>>, i: int)
    requires
        t.wf(),
        0 <= i < t.files@.len(),
        t.files@[i].path@ == p,
    ensures
        t.contains_file(p),
        t.index_of(p) == i,
        t.file_at(p) == t.files@[i].content@,
{
    assert(t.contains_file(p));
    let j = t.index_of(p);
    assert(0 <= j < t.files@.len() && t.files@[j].path@ == p);
    if j < i {
        assert(t.files@[j].path@ != t.files@[i].path@);
    }
    if i < j {
        assert(t.files@[i].path@ != t.files@[j].path@);
    }
}


/// An independent copy of a byte vector with equal contents.
pub fn clone_bytes(v: &Vec<u8>) -> (r: Vec<u8>)
    ensures
        r@ == v@,
{
    let r = v.clone();
    proof {
        assert forall|i: int| 0 <= i < r@.len() implies r@[i] == v@[i] by {
            assert(vstd::pervasive::cloned::<u8>(v@[i], r@[i]));
        }
        assert(r@ =~= v@);
    }
    r
}

} // verus!
