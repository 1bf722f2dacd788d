//! Relative paths inside a directory tree, stored as component sequences,
//! together with the exclusion rule the directory differ applies.

use vstd::prelude::*;
use vstd::string::StrSliceExecFns;

verus! {

/// A file or directory path relative to some tree root, as its sequence of
/// components (no separators, no root component).
pub struct RelPath {
    pub parts: Vec<String>,
}

impl View for RelPath {
    type V = Seq<Seq<char>>;

    open spec fn view(&self) -> Seq<Seq<char>> {
        self.parts.deep_view()
    }
}

impl RelPath {
    /// Wraps a component list as a relative path.
    pub fn new(parts: Vec<String>) -> (r: RelPath)
        ensures
            r@ == parts.deep_view(),
    {
        RelPath { parts }
    }

    /// An independent copy of the path with an equal view.
    pub fn duplicate(&self) -> (r: RelPath)
        ensures
            r@ == self@,
    {
        let mut parts: Vec<String> = Vec::new();
        let mut i: usize = 0;
        while i < self.parts.len()
            invariant
                i <= self.parts.len(),
                parts@.len() == i,
                forall|j: int| 0 <= j < i ==> parts@[j]@ == self.parts@[j]@,
            decreases self.parts.len() - i,
        {
            parts.push(self.parts[i].clone());
            i += 1;
        }
        let r = RelPath { parts };
        proof {
            assert(r@ =~= self@);
        }
        r
    }

    /// The prefix made of the first `n` components.
    pub fn prefix(&self, n: usize) -> (r: RelPath)
        requires
            n <= self@.len(),
        ensures
            r@ == self@.subrange(0, n as int),
    {
        let mut parts: Vec<String> = Vec::new();
        let mut i: usize = 0;
        while i < n
            invariant
                i <= n,
                n <= self.parts.len(),
                parts@.len() == i,
                forall|j: int| 0 <= j < i ==> parts@[j]@ == self.parts@[j]@,
            decreases n - i,
        {
            parts.push(self.parts[i].clone());
            i += 1;
        }
        let r = RelPath { parts };
        proof {
            assert(r@ =~= self@.subrange(0, n as int));
        }
        r
    }
}

/// Whether two relative paths name the same location: component-wise equality.
pub fn path_eq(a: &RelPath, b: &RelPath) -> (r: bool)
    ensures
        r == (a@ == b@),
{
    if a.parts.len() != b.parts.len() {
        proof {
            assert(a@.len() != b@.len());
        }
        return false;
    }
    let mut i: usize = 0;
    while i < a.parts.len()
        invariant
            i <= a.parts.len(),
            a.parts.len() == b.parts.len(),
            forall|j: int| 0 <= j < i ==> a@[j] == b@[j],
        decreases a.parts.len() - i,
    {
        if !(a.parts[i] == b.parts[i]) {
            proof {
                assert(a@[i as int] != b@[i as int]);
            }
            return false;
        }
        i += 1;
    }
    proof {
        assert(a@ =~= b@);
    }
    true
}

/// Whether `suffix` is a suffix of `s`.
pub open spec fn ends_with(s: Seq<char>, suffix: Seq<char>) -> bool {
    suffix.len() <= s.len() && s.subrange(s.len() - suffix.len(), s.len() as int) == suffix
}

/// Whether the string `s` ends with `suffix`, character for character.
pub fn str_ends_with(s: &String, suffix: &str) -> (r: bool)
    ensures
        r == ends_with(s@, suffix@),
{
    let s_len = s.as_str().unicode_len();
    let suf_len = suffix.unicode_len();
    if suf_len > s_len {
        return false;
    }
    let offset = s_len - suf_len;
    let mut i: usize = 0;
    while i < suf_len
        invariant
            i <= suf_len,
            suf_len <= s_len,
            offset == s_len - suf_len,
            s_len == s@.len(),
            suf_len == suffix@.len(),
            forall|j: int| 0 <= j < i ==> s@[offset + j] == suffix@[j],
        decreases suf_len - i,
    {
        if s.as_str().get_char(offset + i) != suffix.get_char(i) {
            proof {
                let tail = s@.subrange(s@.len() - suffix@.len(), s@.len() as int);
                assert(tail[i as int] == s@[offset + i]);
            }
            return false;
        }
        i += 1;
    }
    proof {
        assert(s@.subrange(s@.len() - suffix@.len(), s@.len() as int) =~= suffix@);
    }
    true
}

/// The exclusion rule: with `Some(suffix)`, a path is dropped from the diff
/// whenever one of its components ends with `suffix`; with `None`, nothing is
/// excluded.
pub open spec fn opt_view(ex: Option<&String>) -> Option<Seq<char>> {
    if ex is Some {
        Some(ex->0@)
    } else {
        None
    }
}

/// Whether the exclusion rule `ex` drops the path `p`: some component of `p`
/// ends with the excluded suffix.
pub open spec fn path_excluded(p: Seq<Seq<char>>, ex: Option<Seq<char>>) -> bool {
    match ex {
        Some(suffix) => exists|i: int| 0 <= i < p.len() && ends_with(p[i], suffix),
        None => false,
    }
}

/// Whether the exclusion rule drops the path, component by component.
pub fn is_excluded(p: &RelPath, ex: Option<&String>) -> (r: bool)
    ensures
        r == path_excluded(p@, opt_view(ex)),
{
    match ex {
        None => false,
        Some(suffix) => {
            let mut i: usize = 0;
            while i < p.parts.len()
                invariant
                    i <= p.parts.len(),
                    ex == Some(suffix),
                    forall|j: int| 0 <= j < i ==> !ends_with(p@[j], suffix@),
                decreases p.parts.len() - i,
            {
                if str_ends_with(&p.parts[i], suffix.as_str()) {
                    proof {
                        let j = i as int;
                        assert(0 <= j < p@.len() && ends_with(p@[j], suffix@));
                        assert(path_excluded(p@, opt_view(ex)));
                    }
                    return true;
                }
                i += 1;
            }
            false
        },
    }
}

/// The proper ancestor directories of a file path, shortest first: for the
/// path `a/b/c.txt` these are `a` and `a/b`. A path with a single component
/// has none.
pub fn ancestors(p: &RelPath) -> (r: Vec<RelPath>)
    ensures
        r@.len() == (if p@.len() == 0 { 0int } else { p@.len() - 1 }),
        forall|j: int| 0 <= j < r@.len() ==> r@[j]@ == p@.subrange(0, j + 1),
{
    let mut r: Vec<RelPath> = Vec::new();
    if p.parts.len() == 0 {
        return r;
    }
    let mut n: usize = 1;
    while n < p.parts.len()
        invariant
            1 <= n <= p.parts.len(),
            p.parts.len() == p@.len(),
            r@.len() == n - 1,
            forall|j: int| 0 <= j < r@.len() ==> r@[j]@ == p@.subrange(0, j + 1),
        decreases p.parts.len() - n,
    {
        r.push(p.prefix(n));
        n += 1;
    }
    r
}

} // verus!
