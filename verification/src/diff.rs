//! The one-directional directory differ: every relative file path found in
//! either tree is classified by presence alone — present only in the template,
//! only in the workspace, or in both. Content is never compared, and paths the
//! exclusion rule drops are never classified.

use vstd::prelude::*;
use crate::paths::{is_excluded, opt_view, path_excluded, RelPath};
use crate::tree::Tree;

verus! {

/// The classification of one relative path.
pub enum DiffEntry {
    /// The path holds a file under the template root only.
    TemplateOnly(RelPath),
    /// The path holds a file under the workspace root only.
    RepoOnly(RelPath),
    /// The path holds a file under both roots (contents may differ).
    Common(RelPath),
}

impl DiffEntry {
    /// The classified path.
    pub open spec fn path_view(self) -> Seq<Seq<char>> {
        match self {
            DiffEntry::TemplateOnly(p) => p@,
            DiffEntry::RepoOnly(p) => p@,
            DiffEntry::Common(p) => p@,
        }
    }

    /// The classified path, for callers of the differ.
    pub fn path(&self) -> (r: &RelPath)
        ensures
            r@ == self.path_view(),
    {
        match self {
            DiffEntry::TemplateOnly(p) => p,
            DiffEntry::RepoOnly(p) => p,
            DiffEntry::Common(p) => p,
        }
    }

    /// Whether this entry marks a path to propagate.
    pub fn is_template_only(&self) -> (r: bool)
        ensures
            r == (self is TemplateOnly),
    {
        match self {
            DiffEntry::TemplateOnly(_) => true,
            _ => false,
        }
    }
}

/// One entry is rightly classified for template `t` and workspace `w` under
/// the exclusion rule `ex`: its path is not excluded, and its variant agrees
/// with where a file at that path exists.
pub open spec fn entry_ok(e: DiffEntry, t: Tree, w: Tree, ex: Option<Seq<char>>) -> bool {
    &&& !path_excluded(e.path_view(), ex)
    &&& (e is TemplateOnly ==> t.contains_file(e.path_view()) && !w.contains_file(e.path_view()))
    &&& (e is RepoOnly ==> !t.contains_file(e.path_view()) && w.contains_file(e.path_view()))
    &&& (e is Common ==> t.contains_file(e.path_view()) && w.contains_file(e.path_view()))
}

/// What the differ promises of its output `out` for the trees `t` (template)
/// and `w` (workspace) under the exclusion rule `ex`:
/// - every entry is rightly classified, and no excluded path is classified;
/// - no path is classified twice;
/// - every non-excluded path with a file in either tree is classified.
pub open spec fn diff_classifies(out: Seq<DiffEntry>, t: Tree, w: Tree, ex: Option<Seq<char>>) -> bool {
    &&& forall|k: int| 0 <= k < out.len() ==> entry_ok(#[trigger] out[k], t, w, ex)
    &&& forall|k1: int, k2: int| 0 <= k1 < k2 < out.len()
            ==> out[k1].path_view() != out[k2].path_view()
    &&& forall|p: Seq<Seq<char>>|
            (t.contains_file(p) || w.contains_file(p)) && !path_excluded(p, ex)
                ==> exists|k: int| 0 <= k < out.len() && #[trigger] out[k].path_view() == p
}

/// Classifies every relative file path under the two roots by presence.
/// Entries come template files first, then workspace-only files; callers must
/// not rely on the order.
#[verifier::rlimit(60)]
#[verifier::loop_isolation(false)]
pub fn diff(template: &Tree, workspace: &Tree, exclude: Option<&String>) -> (out: Vec<DiffEntry>)
    requires
        template.wf(),
        workspace.wf(),
    ensures
        diff_classifies(out@, *template, *workspace, opt_view(exclude)),
{
    let ghost ex = opt_view(exclude);
    let mut out: Vec<DiffEntry> = Vec::new();
    let mut i: usize = 0;
    while i < template.files.len()
        invariant
            template.wf(),
            workspace.wf(),
            ex == opt_view(exclude),
            i <= template.files@.len(),
            forall|k: int| 0 <= k < out@.len()
                ==> entry_ok(#[trigger] out@[k], *template, *workspace, ex),
            forall|k: int| 0 <= k < out@.len() ==> !(#[trigger] out@[k] is RepoOnly),
            forall|k: int| 0 <= k < out@.len()
                ==> template.index_of(#[trigger] out@[k].path_view()) < i,
            forall|j: int| 0 <= j < i && !path_excluded(template.files@[j].path@, ex)
                ==> exists|k: int| 0 <= k < out@.len()
                    && #[trigger] out@[k].path_view() == template.files@[j].path@,
            forall|k1: int, k2: int| 0 <= k1 < k2 < out@.len()
                ==> out@[k1].path_view() != out@[k2].path_view(),
        decreases template.files@.len() - i,
    {
        let p = &template.files[i].path;
        if !is_excluded(p, exclude) {
            proof {
                crate::tree::lemma_file_index(*template, p@, i as int);
                assert forall|k: int| 0 <= k < out@.len()
                    implies #[trigger] out@[k].path_view() != p@ by {
                    assert(template.index_of(out@[k].path_view()) < i);
                }
            }
            let entry = if workspace.contains(p) {
                DiffEntry::Common(p.duplicate())
            } else {
                DiffEntry::TemplateOnly(p.duplicate())
            };
            let ghost out0 = out@;
            out.push(entry);
            proof {
                let m = out0.len() as int;
                assert(forall|k: int| 0 <= k < m ==> out@[k] == out0[k]);
                assert(out@[m].path_view() == template.files@[i as int].path@);
                assert(template.index_of(out@[m].path_view()) == i);
                assert forall|j: int| 0 <= j < i + 1
                    && !path_excluded(template.files@[j].path@, ex)
                    implies exists|k: int| 0 <= k < out@.len()
                        && #[trigger] out@[k].path_view() == template.files@[j].path@ by {
                    if j == i as int {
                        assert(out@[m].path_view() == template.files@[j].path@);
                    } else {
                        let k = choose|k: int| 0 <= k < m
                            && #[trigger] out0[k].path_view() == template.files@[j].path@;
                        assert(out@[k].path_view() == template.files@[j].path@);
                    }
                }
            }
        }
        i += 1;
    }
    let ghost n1 = out@.len() as int;
    let mut h: usize = 0;
    while h < workspace.files.len()
        invariant
            template.wf(),
            workspace.wf(),
            ex == opt_view(exclude),
            h <= workspace.files@.len(),
            n1 <= out@.len(),
            forall|k: int| 0 <= k < out@.len()
                ==> entry_ok(#[trigger] out@[k], *template, *workspace, ex),
            forall|j: int| 0 <= j < template.files@.len()
                && !path_excluded(template.files@[j].path@, ex)
                ==> exists|k: int| 0 <= k < n1
                    && #[trigger] out@[k].path_view() == template.files@[j].path@,
            forall|k: int| 0 <= k < n1 ==> !(#[trigger] out@[k] is RepoOnly),
            forall|k: int| n1 <= k < out@.len() ==> (#[trigger] out@[k] is RepoOnly),
            forall|k: int| n1 <= k < out@.len()
                ==> workspace.index_of(#[trigger] out@[k].path_view()) < h,
            forall|j: int| 0 <= j < h && !path_excluded(workspace.files@[j].path@, ex)
                && !template.contains_file(workspace.files@[j].path@)
                ==> exists|k: int| 0 <= k < out@.len()
                    && #[trigger] out@[k].path_view() == workspace.files@[j].path@,
            forall|k1: int, k2: int| 0 <= k1 < k2 < out@.len()
                ==> out@[k1].path_view() != out@[k2].path_view(),
        decreases workspace.files@.len() - h,
    {
        let p = &workspace.files[h].path;
        if !is_excluded(p, exclude) && !template.contains(p) {
            proof {
                crate::tree::lemma_file_index(*workspace, p@, h as int);
                assert forall|k: int| 0 <= k < out@.len()
                    implies #[trigger] out@[k].path_view() != p@ by {
                    if k < n1 {
                        assert(!(out@[k] is RepoOnly));
                        assert(template.contains_file(out@[k].path_view()));
                    } else {
                        assert(workspace.index_of(out@[k].path_view()) < h);
                    }
                }
            }
            let ghost out0 = out@;
            out.push(DiffEntry::RepoOnly(p.duplicate()));
            proof {
                let m = out0.len() as int;
                assert(n1 <= m);
                assert(forall|k: int| 0 <= k < m ==> out@[k] == out0[k]);
                assert(out@[m].path_view() == workspace.files@[h as int].path@);
                assert(workspace.index_of(out@[m].path_view()) == h);
                assert forall|k: int| n1 <= k < out@.len() implies (#[trigger] out@[k] is RepoOnly)
                    && workspace.index_of(out@[k].path_view()) < h + 1 by {
                    if k < m {
                        assert(out@[k] == out0[k]);
                        assert(out0[k] is RepoOnly);
                        assert(workspace.index_of(out0[k].path_view()) < h);
                    }
                }
                assert forall|j: int| 0 <= j < template.files@.len()
                    && !path_excluded(template.files@[j].path@, ex)
                    implies exists|k: int| 0 <= k < n1
                        && #[trigger] out@[k].path_view() == template.files@[j].path@ by {
                    let k = choose|k: int| 0 <= k < n1
                        && #[trigger] out0[k].path_view() == template.files@[j].path@;
                    assert(out@[k].path_view() == template.files@[j].path@);
                }
                assert forall|j: int| 0 <= j < h + 1
                    && !path_excluded(workspace.files@[j].path@, ex)
                    && !template.contains_file(workspace.files@[j].path@)
                    implies exists|k: int| 0 <= k < out@.len()
                        && #[trigger] out@[k].path_view() == workspace.files@[j].path@ by {
                    if j == h as int {
                        assert(out@[m].path_view() == workspace.files@[j].path@);
                    } else {
                        let k = choose|k: int| 0 <= k < m
                            && #[trigger] out0[k].path_view() == workspace.files@[j].path@;
                        assert(out@[k].path_view() == workspace.files@[j].path@);
                    }
                }
            }
        }
        h += 1;
    }
    proof {
        assert forall|p: Seq<Seq<char>>|
            ((*template).contains_file(p) || (*workspace).contains_file(p))
                && !path_excluded(p, ex)
            implies exists|k: int| 0 <= k < out@.len() && #[trigger] out@[k].path_view() == p by {
            if template.contains_file(p) {
                let j = template.index_of(p);
                assert(0 <= j < template.files@.len() && template.files@[j].path@ == p);
                let k = choose|k: int| 0 <= k < n1
                    && #[trigger] out@[k].path_view() == template.files@[j].path@;
            } else {
                let j = workspace.index_of(p);
                assert(0 <= j < workspace.files@.len() && workspace.files@[j].path@ == p);
            }
        }
    }
    out
}


/// Diff completeness: a path with a file in either tree, not dropped by the
/// exclusion rule, is classified exactly once, and its variant is the one its
/// presence on the two sides dictates.
pub proof fn lemma_diff_partition(
    out: Seq<DiffEntry>,
    t: Tree,
    w: Tree,
    ex: Option<Seq<char>>,
    p: Seq<Seq<char>>,
)
    requires
        diff_classifies(out, t, w, ex),
        t.contains_file(p) || w.contains_file(p),
        !path_excluded(p, ex),
    ensures
        exists|k: int| 0 <= k < out.len() && #[trigger] out[k].path_view() == p,
        forall|k1: int, k2: int|
            0 <= k1 < out.len() && 0 <= k2 < out.len() && out[k1].path_view() == p
                && out[k2].path_view() == p ==> k1 == k2,
        forall|k: int| 0 <= k < out.len() && #[trigger] out[k].path_view() == p
            ==> ((out[k] is TemplateOnly <==> t.contains_file(p) && !w.contains_file(p))
                && (out[k] is RepoOnly <==> !t.contains_file(p) && w.contains_file(p))
                && (out[k] is Common <==> t.contains_file(p) && w.contains_file(p))),
{
    assert forall|k: int| 0 <= k < out.len() && #[trigger] out[k].path_view() == p
        implies ((out[k] is TemplateOnly <==> t.contains_file(p) && !w.contains_file(p))
            && (out[k] is RepoOnly <==> !t.contains_file(p) && w.contains_file(p))
            && (out[k] is Common <==> t.contains_file(p) && w.contains_file(p))) by {
        assert(entry_ok(out[k], t, w, ex));
        assert(out[k] is TemplateOnly || out[k] is RepoOnly || out[k] is Common);
    }
}

/// Diff exclusion: a path the exclusion rule drops is never classified,
/// whatever stands at it on either side.
pub proof fn lemma_diff_excludes(
    out: Seq<DiffEntry>,
    t: Tree,
    w: Tree,
    ex: Option<Seq<char>>,
    p: Seq<Seq<char>>,
)
    requires
        diff_classifies(out, t, w, ex),
        path_excluded(p, ex),
    ensures
        forall|k: int| 0 <= k < out.len() ==> #[trigger] out[k].path_view() != p,
{
    assert forall|k: int| 0 <= k < out.len() implies #[trigger] out[k].path_view() != p by {
        assert(entry_ok(out[k], t, w, ex));
    }
}

} // verus!
