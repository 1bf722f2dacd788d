use template_sync::diff::{diff, DiffEntry};
use template_sync::paths::RelPath;
use template_sync::tree::Tree;

fn path(parts: &[&str]) -> RelPath {
    RelPath::new(parts.iter().map(|s| s.to_string()).collect())
}

fn parts(e: &DiffEntry) -> Vec<String> {
    e.path().parts.clone()
}

#[test]
fn every_path_classified_exactly_once() {
    let mut template = Tree::new();
    template.insert_file(path(&["a.txt"]), b"A".to_vec());
    template.insert_file(path(&["b.txt"]), b"B".to_vec());
    let mut workspace = Tree::new();
    workspace.insert_file(path(&["b.txt"]), b"other".to_vec());
    workspace.insert_file(path(&["c.txt"]), b"C".to_vec());

    let out = diff(&template, &workspace, None);
    assert_eq!(out.len(), 3);

    let mut template_only = Vec::new();
    let mut repo_only = Vec::new();
    let mut common = Vec::new();
    for e in &out {
        match e {
            DiffEntry::TemplateOnly(_) => template_only.push(parts(e)),
            DiffEntry::RepoOnly(_) => repo_only.push(parts(e)),
            DiffEntry::Common(_) => common.push(parts(e)),
        }
    }
    assert_eq!(template_only, vec![vec!["a.txt".to_string()]]);
    assert_eq!(common, vec![vec!["b.txt".to_string()]]);
    assert_eq!(repo_only, vec![vec!["c.txt".to_string()]]);
}

#[test]
fn excluded_paths_are_never_classified() {
    let mut template = Tree::new();
    template.insert_file(path(&[".git", "config"]), b"[core]".to_vec());
    template.insert_file(path(&["a.txt"]), b"A".to_vec());
    let mut workspace = Tree::new();
    workspace.insert_file(path(&[".git", "HEAD"]), b"ref".to_vec());

    let exclude = ".git".to_string();
    let out = diff(&template, &workspace, Some(&exclude));
    assert_eq!(out.len(), 1);
    assert_eq!(parts(&out[0]), vec!["a.txt".to_string()]);
    assert!(out[0].is_template_only());
}

#[test]
fn content_never_decides_classification() {
    let mut template = Tree::new();
    template.insert_file(path(&["f.txt"]), b"template bytes".to_vec());
    let mut workspace = Tree::new();
    workspace.insert_file(path(&["f.txt"]), b"completely different".to_vec());

    let out = diff(&template, &workspace, None);
    assert_eq!(out.len(), 1);
    assert!(matches!(out[0], DiffEntry::Common(_)));
}
