use template_sync::url::{add_pat, inject_all};

#[test]
fn foo() {
    assert_eq!(
        add_pat("https://github.com/foo/bar".to_string(), &"pat".to_string()),
        "https://pat:@github.com/foo/bar"
    );
}

#[test]
fn non_matching_url_unchanged() {
    assert_eq!(
        add_pat("ssh://example.org/foo/bar".to_string(), "pat"),
        "ssh://example.org/foo/bar"
    );
}

#[test]
fn inject_all_rewrites_each_url() {
    let repos = vec![
        "https://github.com/org/one".to_string(),
        "ssh://example.org/two".to_string(),
    ];
    let token = "TOK".to_string();
    assert_eq!(
        inject_all(&repos, Some(&token)),
        vec![
            "https://TOK:@github.com/org/one".to_string(),
            "ssh://example.org/two".to_string(),
        ]
    );
    assert_eq!(inject_all(&repos, None), repos);
}

#[test]
fn inject_exact_example() {
    assert_eq!(
        add_pat("https://github.com/org/repo".to_string(), "TOK"),
        "https://TOK:@github.com/org/repo"
    );
}
