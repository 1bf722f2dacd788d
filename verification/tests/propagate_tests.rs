use template_sync::paths::RelPath;
use template_sync::propagate::propagate;
use template_sync::tree::Tree;

fn path(parts: &[&str]) -> RelPath {
    RelPath::new(parts.iter().map(|s| s.to_string()).collect())
}

#[test]
fn simple() {
    let mut template = Tree::new();
    template.insert_file(path(&["sample.txt"]), b"Some text".to_vec());
    let mut workspace = Tree::new();

    propagate(&template, &mut workspace, None);

    assert_eq!(
        workspace.lookup(&path(&["sample.txt"])),
        Some(&b"Some text".to_vec())
    );
}

#[test]
fn main_simple() {
    let mut template = Tree::new();
    template.insert_file(path(&["sample.txt"]), b"Some text".to_vec());
    let mut workspace = Tree::new();

    let copied = propagate(&template, &mut workspace, None);

    assert_eq!(copied.len(), 1);
    assert_eq!(copied[0].parts, vec!["sample.txt".to_string()]);
    assert_eq!(
        workspace.lookup(&copied[0]),
        Some(&b"Some text".to_vec())
    );
}

#[test]
fn sub_dir() {
    let mut template = Tree::new();
    template.insert_file(path(&["sub_dir", "sample.txt"]), b"Some text".to_vec());
    let mut workspace = Tree::new();

    propagate(&template, &mut workspace, None);

    assert_eq!(
        workspace.lookup(&path(&["sub_dir", "sample.txt"])),
        Some(&b"Some text".to_vec())
    );
    assert!(workspace.dir_exists(&path(&["sub_dir"])));
}

#[test]
fn second_run_copies_nothing() {
    let mut template = Tree::new();
    template.insert_file(path(&["ci.yml"]), b"jobs".to_vec());
    template.insert_file(path(&["docs", "guide.md"]), b"text".to_vec());
    let mut workspace = Tree::new();

    let first = propagate(&template, &mut workspace, None);
    assert_eq!(first.len(), 2);

    let second = propagate(&template, &mut workspace, None);
    assert!(second.is_empty());
    assert_eq!(workspace.file_count(), 2);
}

#[test]
fn existing_file_is_never_overwritten() {
    let mut template = Tree::new();
    template.insert_file(path(&["lint.toml"]), b"template version".to_vec());
    let mut workspace = Tree::new();
    workspace.insert_file(path(&["lint.toml"]), b"customized".to_vec());

    let copied = propagate(&template, &mut workspace, None);

    assert!(copied.is_empty());
    assert_eq!(
        workspace.lookup(&path(&["lint.toml"])),
        Some(&b"customized".to_vec())
    );
}

#[test]
fn ancestors_are_created() {
    let mut template = Tree::new();
    template.insert_file(path(&["a", "b", "c.txt"]), b"deep".to_vec());
    let mut workspace = Tree::new();

    propagate(&template, &mut workspace, None);

    assert_eq!(
        workspace.lookup(&path(&["a", "b", "c.txt"])),
        Some(&b"deep".to_vec())
    );
    assert!(workspace.dir_exists(&path(&["a"])));
    assert!(workspace.dir_exists(&path(&["a", "b"])));
}

#[test]
fn excluded_template_file_is_not_copied() {
    let mut template = Tree::new();
    template.insert_file(path(&["README.md"]), b"hello".to_vec());
    template.insert_file(path(&[".git", "config"]), b"[core]".to_vec());
    let mut workspace = Tree::new();

    let exclude = ".git".to_string();
    let copied = propagate(&template, &mut workspace, Some(&exclude));

    assert_eq!(copied.len(), 1);
    assert_eq!(copied[0].parts, vec!["README.md".to_string()]);
    assert_eq!(
        workspace.lookup(&path(&["README.md"])),
        Some(&b"hello".to_vec())
    );
    assert_eq!(workspace.lookup(&path(&[".git", "config"])), None);
}
