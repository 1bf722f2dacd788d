//! The git workflow state machine: after propagation the workspace is staged,
//! committed against the current branch tip, and pushed to the identically
//! named remote branch, in that order, with no retry — any failure is terminal
//! for the repository being processed. The outside git client performs each
//! action; this module decides which action comes next and how a failure is
//! classified.

use vstd::prelude::*;
use vstd::string::StringExecFns;

verus! {

/// The error taxonomy: a configuration error is fatal to the whole run,
/// every other error is scoped to one repository.
#[derive(PartialEq, Eq, Structural, Clone, Copy, Debug)]
pub enum SyncError {
    /// The entry list is unreadable or malformed; no entry can be trusted.
    Config,
    /// The repository could not be cloned.
    Clone,
    /// A file could not be copied into the workspace.
    Propagation,
    /// Staging failed or no branch tip existed to parent the commit against.
    Commit,
    /// The push was rejected or the remote unreachable.
    Push,
}

/// One step of the per-repository git workflow: the action now due, or a
/// terminal state.
#[derive(PartialEq, Eq, Structural, Clone, Copy, Debug)]
pub enum GitStep {
    /// Stage every change in the workspace.
    Stage,
    /// Commit the staged tree against the current branch tip.
    Commit,
    /// Push the branch to the identically named remote ref.
    Push,
    /// The workflow finished: the commit is on the remote.
    Done,
    /// The workflow stopped at a failure; no step is retried.
    Failed(SyncError),
}

/// The transition table of the workflow: stage, then commit, then push, then
/// done; a failure of staging or committing is a commit error, a failure of
/// pushing a push error, and both end the workflow. Terminal states stay.
pub open spec fn spec_next_step(s: GitStep, ok: bool) -> GitStep {
    match s {
        GitStep::Stage => if ok {
            GitStep::Commit
        } else {
            GitStep::Failed(SyncError::Commit)
        },
        GitStep::Commit => if ok {
            GitStep::Push
        } else {
            GitStep::Failed(SyncError::Commit)
        },
        GitStep::Push => if ok {
            GitStep::Done
        } else {
            GitStep::Failed(SyncError::Push)
        },
        GitStep::Done => GitStep::Done,
        GitStep::Failed(e) => GitStep::Failed(e),
    }
}

/// Advances the workflow by one step: `s` is the action just performed (or a
/// terminal state), `ok` whether it succeeded.
pub fn next_step(s: GitStep, ok: bool) -> (r: GitStep)
    ensures
        r == spec_next_step(s, ok),
{
    match s {
        GitStep::Stage => if ok {
            GitStep::Commit
        } else {
            GitStep::Failed(SyncError::Commit)
        },
        GitStep::Commit => if ok {
            GitStep::Push
        } else {
            GitStep::Failed(SyncError::Commit)
        },
        GitStep::Push => if ok {
            GitStep::Done
        } else {
            GitStep::Failed(SyncError::Push)
        },
        GitStep::Done => GitStep::Done,
        GitStep::Failed(e) => GitStep::Failed(e),
    }
}

/// Once the workflow reaches a terminal state, no event moves it again — in
/// particular, no failed step is ever retried.
pub proof fn lemma_terminal_steps_stay(s: GitStep, ok: bool)
    requires
        s is Done || s is Failed,
    ensures
        spec_next_step(s, ok) == s,
{
}

/// A run that succeeds at every step stages, commits and pushes exactly once
/// and then is done.
pub proof fn lemma_success_path()
    ensures
        spec_next_step(GitStep::Stage, true) == GitStep::Commit,
        spec_next_step(GitStep::Commit, true) == GitStep::Push,
        spec_next_step(GitStep::Push, true) == GitStep::Done,
{
}

/// Whether the run goes on to the next repository after the error `e`: every
/// error but a configuration error is scoped to one repository.
pub fn continues_after(e: &SyncError) -> (r: bool)
    ensures
        r == !(e is Config),
{
    match e {
        SyncError::Config => false,
        _ => true,
    }
}

/// The refspec that pushes `branch` to the identically named remote ref.
pub fn make_refspec(branch: &str) -> (r: String)
    ensures
        r@ == branch@ + ":"@ + branch@,
{
    let r = String::from_str(branch).concat(":").concat(branch);
    proof {
        assert(r@ =~= branch@ + ":"@ + branch@);
    }
    r
}

/// The per-connection push credentials: the user name embedded in the
/// repository URL's user-info, with an empty password as the fallback; a URL
/// without user-info yields no credentials.
pub fn push_userpass(username_from_url: Option<&str>) -> (r: Option<(String, String)>)
    ensures
        r is Some <==> username_from_url is Some,
        r matches Some(c) ==> username_from_url matches Some(u) && c.0@ == u@
            && c.1@.len() == 0,
{
    match username_from_url {
        Some(u) => Some((String::from_str(u), String::new())),
        None => None,
    }
}

} // verus!
