use template_sync::paths::RelPath;
use template_sync::tree::Tree;

fn path(parts: &[&str]) -> RelPath {
    RelPath::new(parts.iter().map(|s| s.to_string()).collect())
}

#[test]
fn insert_and_lookup() {
    let mut t = Tree::new();
    assert!(t.insert_file(path(&["sample.txt"]), b"Some text".to_vec()));
    assert_eq!(t.lookup(&path(&["sample.txt"])), Some(&b"Some text".to_vec()));
    assert_eq!(t.lookup(&path(&["other.txt"])), None);
}

#[test]
fn occupied_path_is_kept() {
    let mut t = Tree::new();
    assert!(t.insert_file(path(&["a", "b.txt"]), b"one".to_vec()));
    assert!(!t.insert_file(path(&["a", "b.txt"]), b"two".to_vec()));
    assert_eq!(t.lookup(&path(&["a", "b.txt"])), Some(&b"one".to_vec()));
}
