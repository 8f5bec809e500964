use vstd::prelude::*;

use crate::git::{Remote, WorktreeGitState};
use crate::path::FsPath;

use super::error::PortResult;

verus! {

/// Observes the local Git state of working trees and repositories.
pub trait GitObservationPort {
    fn observe_worktree(&self, worktree_path: &FsPath) -> PortResult<WorktreeGitState>;

    fn observe_repository_remotes(&self, repository_path: &FsPath) -> PortResult<Vec<Remote>>;
}

} // verus!
