use template_sync::diff::diff;
use template_sync::gitflow::{
    continues_after, make_refspec, next_step, push_userpass, GitStep, SyncError,
};
use template_sync::paths::RelPath;
use template_sync::propagate::propagate;
use template_sync::tree::Tree;

fn path(parts: &[&str]) -> RelPath {
    RelPath::new(parts.iter().map(|s| s.to_string()).collect())
}

#[test]
fn workflow_success_path() {
    let s = GitStep::Stage;
    let s = next_step(s, true);
    assert_eq!(s, GitStep::Commit);
    let s = next_step(s, true);
    assert_eq!(s, GitStep::Push);
    let s = next_step(s, true);
    assert_eq!(s, GitStep::Done);
    assert_eq!(next_step(s, false), GitStep::Done);
}

#[test]
fn workflow_failures_are_terminal() {
    assert_eq!(
        next_step(GitStep::Stage, false),
        GitStep::Failed(SyncError::Commit)
    );
    assert_eq!(
        next_step(GitStep::Commit, false),
        GitStep::Failed(SyncError::Commit)
    );
    assert_eq!(
        next_step(GitStep::Push, false),
        GitStep::Failed(SyncError::Push)
    );
    assert_eq!(
        next_step(GitStep::Failed(SyncError::Push), true),
        GitStep::Failed(SyncError::Push)
    );
}

#[test]
fn only_config_errors_stop_the_run() {
    assert!(!continues_after(&SyncError::Config));
    assert!(continues_after(&SyncError::Clone));
    assert!(continues_after(&SyncError::Propagation));
    assert!(continues_after(&SyncError::Commit));
    assert!(continues_after(&SyncError::Push));
}

#[test]
fn refspec_names_the_branch_twice() {
    assert_eq!(make_refspec("my_branch"), "my_branch:my_branch");
    assert_eq!(
        make_refspec("refs/heads/my_branch"),
        "refs/heads/my_branch:refs/heads/my_branch"
    );
}

#[test]
fn push_credentials_fall_back_to_empty_password() {
    assert_eq!(
        push_userpass(Some("pat")),
        Some(("pat".to_string(), "".to_string()))
    );
    assert_eq!(push_userpass(None), None);
}

#[test]
fn end_to_end_scenario() {
    // The template carries a README and git metadata; the freshly cloned
    // repository has neither.
    let mut template = Tree::new();
    template.insert_file(path(&["README.md"]), b"hello".to_vec());
    template.insert_file(path(&[".git", "config"]), b"[core]".to_vec());
    let mut workspace = Tree::new();

    let exclude = ".git".to_string();
    let entries = diff(&template, &workspace, Some(&exclude));
    assert_eq!(entries.len(), 1);
    assert!(entries[0].is_template_only());

    let copied = propagate(&template, &mut workspace, Some(&exclude));
    assert_eq!(copied.len(), 1);
    assert_eq!(copied[0].parts, vec!["README.md".to_string()]);
    assert_eq!(
        workspace.lookup(&path(&["README.md"])),
        Some(&b"hello".to_vec())
    );
    assert_eq!(workspace.lookup(&path(&[".git", "config"])), None);

    // The git workflow then stages, commits and pushes the one change.
    let mut step = GitStep::Stage;
    let mut actions = Vec::new();
    while step != GitStep::Done {
        actions.push(step);
        step = next_step(step, true);
    }
    assert_eq!(actions, vec![GitStep::Stage, GitStep::Commit, GitStep::Push]);
}
