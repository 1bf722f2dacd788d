//! Presence-based propagation of a template directory tree into target
//! repositories: a one-directional directory diff, selective file copying,
//! credential injection for authenticated pushes, and the git workflow
//! state machine that stages, commits and pushes the result.

pub mod paths;
pub mod tree;
pub mod diff;
pub mod propagate;
pub mod gitflow;
pub mod url;
