//! The file propagator: every file present in the template and absent from
//! the workspace (and not dropped by the exclusion rule) is copied into the
//! workspace byte for byte, with its ancestor directories created first.
//! Files the workspace already has are never touched, whatever their content.

use vstd::prelude::*;
use crate::paths::{ancestors, is_excluded, opt_view, path_excluded, RelPath};
use crate::tree::{clone_bytes, lemma_file_index, Tree};

verus! {

/// What one propagation run promises, relating the template `t`, the
/// workspace before (`w0`) and after (`w1`), under the exclusion rule `ex`:
/// - a file the workspace already had keeps its bytes;
/// - every template file missing from the workspace (and not excluded) now
///   exists in the workspace with the template's bytes, and every proper
///   ancestor directory of it exists;
/// - no other file appears, and no directory disappears.
pub open spec fn propagation_ok(t: Tree, w0: Tree, w1: Tree, ex: Option<Seq<char>>) -> bool {
    &&& forall|p: Seq<Seq<char>>| w0.contains_file(p)
            ==> w1.contains_file(p) && w1.file_at(p) == w0.file_at(p)
    &&& forall|p: Seq<Seq<char>>| t.contains_file(p) && !w0.contains_file(p)
            && !path_excluded(p, ex)
            ==> w1.contains_file(p) && w1.file_at(p) == t.file_at(p)
    &&& forall|p: Seq<Seq<char>>, k: int| t.contains_file(p) && !w0.contains_file(p)
            && !path_excluded(p, ex) && 1 <= k < p.len()
            ==> w1.has_dir(#[trigger] p.subrange(0, k))
    &&& forall|p: Seq<Seq<char>>| w1.contains_file(p)
            ==> w0.contains_file(p) || (t.contains_file(p) && !path_excluded(p, ex))
    &&& forall|q: Seq<Seq<char>>| w0.has_dir(q) ==> w1.has_dir(q)
}

/// The copied list names exactly the paths propagation copies: the template
/// files missing from `w0` and not excluded, each once.
pub open spec fn copied_exactly(copied: Seq<RelPath>, t: Tree, w0: Tree, ex: Option<Seq<char>>) -> bool {
    &&& forall|j: int| 0 <= j < copied.len() ==> t.contains_file(#[trigger] copied[j]@)
            && !w0.contains_file(copied[j]@) && !path_excluded(copied[j]@, ex)
    &&& forall|p: Seq<Seq<char>>| t.contains_file(p) && !w0.contains_file(p)
            && !path_excluded(p, ex)
            ==> exists|j: int| 0 <= j < copied.len() && #[trigger] copied[j]@ == p
    &&& forall|j1: int, j2: int| 0 <= j1 < j2 < copied.len() ==> copied[j1]@ != copied[j2]@
}

/// Copies every template file the workspace lacks (unless excluded) into the
/// workspace, creating ancestor directories, and returns the copied paths.
#[verifier::rlimit(100)]
#[verifier::loop_isolation(false)]
pub fn propagate(template: &Tree, workspace: &mut Tree, exclude: Option<&String>) -> (copied: Vec<RelPath>)
    requires
        template.wf(),
        old(workspace).wf(),
    ensures
        final(workspace).wf(),
        propagation_ok(*template, *old(workspace), *final(workspace), opt_view(exclude)),
        copied_exactly(copied@, *template, *old(workspace), opt_view(exclude)),
{
    let ghost t = *template;
    let ghost w0 = *old(workspace);
    let ghost ex = opt_view(exclude);
    let mut copied: Vec<RelPath> = Vec::new();
    let mut i: usize = 0;
    while i < template.files.len()
        invariant
            i <= t.files@.len(),
            workspace.wf(),
            forall|p: Seq<Seq<char>>| w0.contains_file(p)
                ==> workspace.contains_file(p) && workspace.file_at(p) == w0.file_at(p),
            forall|q: Seq<Seq<char>>| w0.has_dir(q) ==> workspace.has_dir(q),
            forall|p: Seq<Seq<char>>| #[trigger] workspace.contains_file(p)
                ==> w0.contains_file(p)
                || (t.contains_file(p) && t.index_of(p) < i && !path_excluded(p, ex)
                    && workspace.file_at(p) == t.file_at(p)),
            forall|j: int| 0 <= j < i && !path_excluded(#[trigger] t.files@[j].path@, ex)
                && !w0.contains_file(t.files@[j].path@)
                ==> workspace.contains_file(t.files@[j].path@),
            forall|j: int, k: int| 0 <= j < i && !path_excluded(#[trigger] t.files@[j].path@, ex)
                && !w0.contains_file(t.files@[j].path@) && 1 <= k < t.files@[j].path@.len()
                ==> workspace.has_dir(#[trigger] t.files@[j].path@.subrange(0, k)),
            forall|jj: int| 0 <= jj < copied@.len() ==> t.contains_file(#[trigger] copied@[jj]@)
                && t.index_of(copied@[jj]@) < i && !w0.contains_file(copied@[jj]@)
                && !path_excluded(copied@[jj]@, ex),
            forall|j: int| 0 <= j < i && !path_excluded(#[trigger] t.files@[j].path@, ex)
                && !w0.contains_file(t.files@[j].path@)
                ==> exists|jj: int| 0 <= jj < copied@.len()
                    && #[trigger] copied@[jj]@ == t.files@[j].path@,
            forall|j1: int, j2: int| 0 <= j1 < j2 < copied@.len() ==> copied@[j1]@ != copied@[j2]@,
        decreases t.files@.len() - i,
    {
        let p = &template.files[i].path;
        if !is_excluded(p, exclude) && !workspace.contains(p) {
            proof {
                lemma_file_index(t, p@, i as int);
                assert(!w0.contains_file(p@));
            }
            let dirs = ancestors(p);
            let ghost ws1 = *workspace;
            let mut d: usize = 0;
            while d < dirs.len()
                invariant
                    d <= dirs@.len(),
                    workspace.wf(),
                    forall|p2: Seq<Seq<char>>| #[trigger] workspace.contains_file(p2)
                        == ws1.contains_file(p2),
                    forall|p2: Seq<Seq<char>>| ws1.contains_file(p2)
                        ==> workspace.file_at(p2) == ws1.file_at(p2),
                    forall|q: Seq<Seq<char>>| ws1.has_dir(q) ==> workspace.has_dir(q),
                    forall|dd: int| 0 <= dd < d ==> workspace.has_dir(#[trigger] dirs@[dd]@),
                decreases dirs@.len() - d,
            {
                if !workspace.dir_exists(&dirs[d]) {
                    workspace.insert_dir(dirs[d].duplicate());
                }
                d += 1;
            }
            proof {
                assert(workspace.wf());
                assert forall|k: int| 1 <= k < p@.len()
                    implies workspace.has_dir(#[trigger] p@.subrange(0, k)) by {
                    assert(dirs@[k - 1]@ == p@.subrange(0, k));
                }
            }
            let content = clone_bytes(&template.files[i].content);
            let ghost ws2 = *workspace;
            let added = workspace.insert_file(p.duplicate(), content);
            proof {
                assert(added);
                assert forall|p2: Seq<Seq<char>>| #[trigger] workspace.contains_file(p2)
                    implies w0.contains_file(p2)
                    || (t.contains_file(p2) && t.index_of(p2) < i + 1 && !path_excluded(p2, ex)
                        && workspace.file_at(p2) == t.file_at(p2)) by {
                    if p2 == p@ {
                        assert(workspace.file_at(p@) == t.files@[i as int].content@);
                        assert(t.file_at(p@) == t.files@[i as int].content@);
                    } else {
                        assert(ws2.contains_file(p2));
                        assert(ws1.contains_file(p2));
                        assert(workspace.file_at(p2) == ws2.file_at(p2));
                        assert(ws2.file_at(p2) == ws1.file_at(p2));
                    }
                }
                assert forall|q: Seq<Seq<char>>| w0.contains_file(q)
                    implies workspace.contains_file(q)
                        && workspace.file_at(q) == w0.file_at(q) by {
                    assert(ws1.contains_file(q) && ws1.file_at(q) == w0.file_at(q));
                    assert(ws2.contains_file(q) && ws2.file_at(q) == ws1.file_at(q));
                }
                assert forall|q: Seq<Seq<char>>| w0.has_dir(q)
                    implies workspace.has_dir(q) by {
                    assert(ws1.has_dir(q));
                    assert(ws2.has_dir(q));
                }
                assert forall|j: int| 0 <= j < i + 1
                    && !path_excluded(#[trigger] t.files@[j].path@, ex)
                    && !w0.contains_file(t.files@[j].path@)
                    implies workspace.contains_file(t.files@[j].path@) by {
                    if j < i as int {
                        assert(ws1.contains_file(t.files@[j].path@));
                        assert(ws2.contains_file(t.files@[j].path@));
                    }
                }
                assert forall|j: int, k: int| 0 <= j < i + 1
                    && !path_excluded(#[trigger] t.files@[j].path@, ex)
                    && !w0.contains_file(t.files@[j].path@) && 1 <= k < t.files@[j].path@.len()
                    implies workspace.has_dir(#[trigger] t.files@[j].path@.subrange(0, k)) by {
                    if j < i as int {
                        assert(ws1.has_dir(t.files@[j].path@.subrange(0, k)));
                        assert(ws2.has_dir(t.files@[j].path@.subrange(0, k)));
                    } else {
                        assert(ws2.has_dir(p@.subrange(0, k)));
                    }
                }
            }
            let ghost copied0 = copied@;
            copied.push(p.duplicate());
            proof {
                let m = copied0.len() as int;
                assert(copied@[m]@ == p@);
                assert forall|j1: int, j2: int| 0 <= j1 < j2 < copied@.len()
                    implies copied@[j1]@ != copied@[j2]@ by {
                    if j2 == m {
                        assert(t.index_of(copied@[j1]@) < i);
                        assert(t.index_of(p@) == i);
                    }
                }
                assert forall|j: int| 0 <= j < i + 1
                    && !path_excluded(#[trigger] t.files@[j].path@, ex)
                    && !w0.contains_file(t.files@[j].path@)
                    implies exists|jj: int| 0 <= jj < copied@.len()
                        && #[trigger] copied@[jj]@ == t.files@[j].path@ by {
                    if j == i as int {
                        assert(copied@[m]@ == t.files@[j].path@);
                    } else {
                        let jj = choose|jj: int| 0 <= jj < copied0.len()
                            && #[trigger] copied0[jj]@ == t.files@[j].path@;
                        assert(copied@[jj]@ == t.files@[j].path@);
                    }
                }
            }
        } else {
            proof {
                if !path_excluded(p@, ex) {
                    lemma_file_index(t, p@, i as int);
                    assert(workspace.contains_file(p@));
                    assert(w0.contains_file(p@));
                }
            }
        }
        i += 1;
    }
    proof {
        assert forall|p: Seq<Seq<char>>| t.contains_file(p) && !w0.contains_file(p)
            && !path_excluded(p, ex)
            implies workspace.contains_file(p) && workspace.file_at(p) == t.file_at(p) by {
            let j = t.index_of(p);
            assert(0 <= j < t.files@.len() && t.files@[j].path@ == p);
        }
        assert forall|p: Seq<Seq<char>>, k: int| t.contains_file(p) && !w0.contains_file(p)
            && !path_excluded(p, ex) && 1 <= k < p.len()
            implies workspace.has_dir(#[trigger] p.subrange(0, k)) by {
            let j = t.index_of(p);
            assert(0 <= j < t.files@.len() && t.files@[j].path@ == p);
            assert(workspace.has_dir(t.files@[j].path@.subrange(0, k)));
        }
        assert forall|p: Seq<Seq<char>>| t.contains_file(p) && !w0.contains_file(p)
            && !path_excluded(p, ex)
            implies exists|j: int| 0 <= j < copied@.len() && #[trigger] copied@[j]@ == p by {
            let j = t.index_of(p);
            assert(0 <= j < t.files@.len() && t.files@[j].path@ == p);
        }
    }
    copied
}

/// Propagation idempotence: after one run against (`t`, `w0`) produced `w1`,
/// a second run against (`t`, `w1`) with no modification in between finds
/// nothing to copy — its copied list is empty.
pub proof fn lemma_second_run_copies_nothing(
    t: Tree,
    w0: Tree,
    w1: Tree,
    ex: Option<Seq<char>>,
    copied2: Seq<RelPath>,
)
    requires
        propagation_ok(t, w0, w1, ex),
        copied_exactly(copied2, t, w1, ex),
    ensures
        copied2.len() == 0,
{
    if copied2.len() > 0 {
        let p = copied2[0]@;
        assert(t.contains_file(p) && !w1.contains_file(p) && !path_excluded(p, ex));
        if w0.contains_file(p) {
            assert(w1.contains_file(p));
        } else {
            assert(w1.contains_file(p));
        }
    }
}

/// Whether the diff output classifies `p` as present only in the template.
pub open spec fn diff_marks_template_only(out: Seq<crate::diff::DiffEntry>, p: Seq<Seq<char>>) -> bool {
    exists|k: int| 0 <= k < out.len() && (#[trigger] out[k]) is TemplateOnly
        && out[k].path_view() == p
}

/// Whether the copied list holds the path `p`.
pub open spec fn copied_holds(copied: Seq<RelPath>, p: Seq<Seq<char>>) -> bool {
    exists|j: int| 0 <= j < copied.len() && #[trigger] copied[j]@ == p
}

/// The propagator acts on exactly the differ's `TemplateOnly` set: for one
/// (template, workspace) pair, the copied paths and the paths the diff
/// classifies as template-only name the same set.
pub proof fn lemma_copied_matches_diff(
    out: Seq<crate::diff::DiffEntry>,
    copied: Seq<RelPath>,
    t: Tree,
    w0: Tree,
    ex: Option<Seq<char>>,
)
    requires
        crate::diff::diff_classifies(out, t, w0, ex),
        copied_exactly(copied, t, w0, ex),
    ensures
        forall|j: int| 0 <= j < copied.len() ==> diff_marks_template_only(out, #[trigger] copied[j]@),
        forall|k: int| 0 <= k < out.len() && (#[trigger] out[k]) is TemplateOnly
            ==> copied_holds(copied, out[k].path_view()),
{
    assert forall|j: int| 0 <= j < copied.len()
        implies diff_marks_template_only(out, #[trigger] copied[j]@) by {
        let p = copied[j]@;
        assert(t.contains_file(p) && !w0.contains_file(p) && !path_excluded(p, ex));
        let k = choose|k: int| 0 <= k < out.len() && #[trigger] out[k].path_view() == p;
        assert(crate::diff::entry_ok(out[k], t, w0, ex));
        assert(out[k] is TemplateOnly || out[k] is RepoOnly || out[k] is Common);
        assert(out[k] is TemplateOnly);
    }
    assert forall|k: int| 0 <= k < out.len() && (#[trigger] out[k]) is TemplateOnly
        implies copied_holds(copied, out[k].path_view()) by {
        assert(crate::diff::entry_ok(out[k], t, w0, ex));
    }
}

} // verus!
