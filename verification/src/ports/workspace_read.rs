use vstd::prelude::*;

use crate::git::{Remote, WorktreeGitState};
use crate::observation::{Observation, ObservationAttempt};
use crate::topology::{Location, Repository, Worktree};
use crate::workspace::WorkspaceRevision;

use super::error::PortResult;

verus! {

/// The latest attempt to observe a subject and its latest success.
#[derive(Clone, Debug, PartialEq, Eq)]
pub struct WorkspaceObservationState<T> {
    latest_attempt: ObservationAttempt<T>,
    latest_observation: Option<Observation<T>>,
}

impl<T> WorkspaceObservationState<T> {
    pub closed spec fn spec_latest_attempt(&self) -> ObservationAttempt<T> {
        self.latest_attempt
    }

    pub closed spec fn spec_latest_observation(&self) -> Option<Observation<T>> {
        self.latest_observation
    }

    pub fn new(latest_attempt: ObservationAttempt<T>, latest_observation: Option<Observation<T>>) -> (r: Self)
        ensures
            r.spec_latest_attempt() == latest_attempt,
            r.spec_latest_observation() == latest_observation,
    {
        WorkspaceObservationState { latest_attempt, latest_observation }
    }

    pub fn latest_attempt(&self) -> (r: &ObservationAttempt<T>)
        ensures
            *r == self.spec_latest_attempt(),
    {
        &self.latest_attempt
    }

    pub fn latest_observation(&self) -> (r: Option<&Observation<T>>)
        ensures
            r == match self.spec_latest_observation() {
                Some(o) => Some(&o),
                None => None,
            },
    {
        match &self.latest_observation {
            Some(observation) => Some(observation),
            None => None,
        }
    }
}

/// Everything persisted about the workspace at one revision.
#[derive(Clone, Debug, PartialEq, Eq)]
pub struct WorkspaceReadSnapshot {
    revision: WorkspaceRevision,
    repositories: Vec<Repository>,
    locations: Vec<Location>,
    worktrees: Vec<Worktree>,
    repository_remotes: Vec<WorkspaceObservationState<Vec<Remote>>>,
    worktree_git_states: Vec<WorkspaceObservationState<WorktreeGitState>>,
}

impl WorkspaceReadSnapshot {
    pub closed spec fn spec_revision(&self) -> WorkspaceRevision {
        self.revision
    }

    pub closed spec fn spec_repositories(&self) -> Seq<Repository> {
        self.repositories@
    }

    pub closed spec fn spec_locations(&self) -> Seq<Location> {
        self.locations@
    }

    pub closed spec fn spec_worktrees(&self) -> Seq<Worktree> {
        self.worktrees@
    }

    pub closed spec fn spec_repository_remotes(&self) -> Seq<WorkspaceObservationState<Vec<Remote>>> {
        self.repository_remotes@
    }

    pub closed spec fn spec_worktree_git_states(&self) -> Seq<WorkspaceObservationState<WorktreeGitState>> {
        self.worktree_git_states@
    }

    pub fn new(
        revision: WorkspaceRevision,
        repositories: Vec<Repository>,
        locations: Vec<Location>,
        worktrees: Vec<Worktree>,
        repository_remotes: Vec<WorkspaceObservationState<Vec<Remote>>>,
        worktree_git_states: Vec<WorkspaceObservationState<WorktreeGitState>>,
    ) -> (r: Self)
        ensures
            r.spec_revision() == revision,
            r.spec_repositories() == repositories@,
            r.spec_locations() == locations@,
            r.spec_worktrees() == worktrees@,
            r.spec_repository_remotes() == repository_remotes@,
            r.spec_worktree_git_states() == worktree_git_states@,
    {
        WorkspaceReadSnapshot {
            revision,
            repositories,
            locations,
            worktrees,
            repository_remotes,
            worktree_git_states,
        }
    }

    pub fn revision(&self) -> (r: WorkspaceRevision)
        ensures
            r == self.spec_revision(),
    {
        self.revision
    }

    pub fn repositories(&self) -> (r: &[Repository])
        ensures
            r@ == self.spec_repositories(),
    {
        self.repositories.as_slice()
    }

    pub fn locations(&self) -> (r: &[Location])
        ensures
            r@ == self.spec_locations(),
    {
        self.locations.as_slice()
    }

    pub fn worktrees(&self) -> (r: &[Worktree])
        ensures
            r@ == self.spec_worktrees(),
    {
        self.worktrees.as_slice()
    }

    pub fn repository_remotes(&self) -> (r: &[WorkspaceObservationState<Vec<Remote>>])
        ensures
            r@ == self.spec_repository_remotes(),
    {
        self.repository_remotes.as_slice()
    }

    pub fn worktree_git_states(&self) -> (r: &[WorkspaceObservationState<WorktreeGitState>])
        ensures
            r@ == self.spec_worktree_git_states(),
    {
        self.worktree_git_states.as_slice()
    }
}

/// Reads one consistent snapshot of the persisted workspace.
pub trait WorkspaceReadPort {
    fn read_workspace(&self) -> PortResult<WorkspaceReadSnapshot>;
}

} // verus!
