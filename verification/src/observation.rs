use vstd::prelude::*;

use crate::identity::{ObservationRunId, RepositoryId, WorktreeId};
use crate::time::Timestamp;

verus! {

/// When a piece of knowledge was observed.
#[derive(Clone, Copy, Debug, PartialEq, Eq, Hash, Structural)]
pub struct Freshness {
    observed_at: Timestamp,
}

impl Freshness {
    pub closed spec fn spec_observed_at(&self) -> Timestamp {
        self.observed_at
    }

    pub fn new(observed_at: Timestamp) -> (r: Self)
        ensures
            r.spec_observed_at() == observed_at,
    {
        Freshness { observed_at }
    }

    pub fn observed_at(&self) -> (r: Timestamp)
        ensures
            r == self.spec_observed_at(),
    {
        self.observed_at
    }

}

/// What an observation is about.
#[derive(Clone, Copy, Debug, PartialEq, Eq, Hash, Structural)]
pub enum ObservationKind {
    RepositoryRemotes,
    WorktreeGitState,
}

/// The subject of an observation.
#[derive(Clone, Debug, PartialEq, Eq, Hash)]
pub enum ObservationKey {
    RepositoryRemotes(RepositoryId),
    WorktreeGitState(WorktreeId),
}

impl ObservationKey {
    pub fn repository_remotes(repository_id: RepositoryId) -> (key: Self)
        ensures
            key == ObservationKey::RepositoryRemotes(repository_id),
    {
        ObservationKey::RepositoryRemotes(repository_id)
    }

    pub fn worktree_git_state(worktree_id: WorktreeId) -> (key: Self)
        ensures
            key == ObservationKey::WorktreeGitState(worktree_id),
    {
        ObservationKey::WorktreeGitState(worktree_id)
    }

    pub open spec fn spec_kind(&self) -> ObservationKind {
        match self {
            ObservationKey::RepositoryRemotes(_) => ObservationKind::RepositoryRemotes,
            ObservationKey::WorktreeGitState(_) => ObservationKind::WorktreeGitState,
        }
    }

    pub fn kind(&self) -> (kind: ObservationKind)
        ensures
            kind == self.spec_kind(),
    {
        match self {
            ObservationKey::RepositoryRemotes(_) => ObservationKind::RepositoryRemotes,
            ObservationKey::WorktreeGitState(_) => ObservationKind::WorktreeGitState,
        }
    }

    /// The repository observed, for a repository key.
    pub fn repository_id(&self) -> (id: Option<&RepositoryId>)
        ensures
            id == match self {
                ObservationKey::RepositoryRemotes(repository_id) => Some(repository_id),
                ObservationKey::WorktreeGitState(_) => None,
            },
    {
        match self {
            ObservationKey::RepositoryRemotes(repository_id) => Some(repository_id),
            ObservationKey::WorktreeGitState(_) => None,
        }
    }

    /// The working tree observed, for a working tree key.
    pub fn worktree_id(&self) -> (id: Option<&WorktreeId>)
        ensures
            id == match self {
                ObservationKey::RepositoryRemotes(_) => None,
                ObservationKey::WorktreeGitState(worktree_id) => Some(worktree_id),
            },
    {
        match self {
            ObservationKey::RepositoryRemotes(_) => None,
            ObservationKey::WorktreeGitState(worktree_id) => Some(worktree_id),
        }
    }

    pub fn duplicate(&self) -> (key: Self)
        ensures
            match (self, key) {
                (ObservationKey::RepositoryRemotes(a), ObservationKey::RepositoryRemotes(b)) => a@ == b@,
                (ObservationKey::WorktreeGitState(a), ObservationKey::WorktreeGitState(b)) => a@ == b@,
                _ => false,
            },
            key == *self,
    {
        match self {
            ObservationKey::RepositoryRemotes(id) => ObservationKey::RepositoryRemotes(id.duplicate()),
            ObservationKey::WorktreeGitState(id) => ObservationKey::WorktreeGitState(id.duplicate()),
        }
    }
}

/// Whether an observation covered everything it set out to observe.
#[derive(Clone, Copy, Debug, PartialEq, Eq, Hash, Structural)]
pub enum ObservationCoverage {
    Complete,
    Partial,
}

/// Which run observed which subject, when, and how completely.
#[derive(Clone, Debug, PartialEq, Eq)]
pub struct ObservationMetadata {
    run_id: ObservationRunId,
    key: ObservationKey,
    freshness: Freshness,
    coverage: ObservationCoverage,
}

impl ObservationMetadata {
    pub closed spec fn spec_run_id(&self) -> ObservationRunId {
        self.run_id
    }

    pub closed spec fn spec_key(&self) -> ObservationKey {
        self.key
    }

    pub closed spec fn spec_freshness(&self) -> Freshness {
        self.freshness
    }

    pub closed spec fn spec_coverage(&self) -> ObservationCoverage {
        self.coverage
    }

    pub fn new(run_id: ObservationRunId, key: ObservationKey, freshness: Freshness, coverage: ObservationCoverage) -> (r: Self)
        ensures
            r.spec_run_id() == run_id,
            r.spec_key() == key,
            r.spec_freshness() == freshness,
            r.spec_coverage() == coverage,
    {
        ObservationMetadata { run_id, key, freshness, coverage }
    }

    pub fn run_id(&self) -> (r: &ObservationRunId)
        ensures
            *r == self.spec_run_id(),
    {
        &self.run_id
    }

    pub fn key(&self) -> (r: &ObservationKey)
        ensures
            *r == self.spec_key(),
    {
        &self.key
    }

    pub fn freshness(&self) -> (r: Freshness)
        ensures
            r == self.spec_freshness(),
    {
        self.freshness
    }

    pub fn coverage(&self) -> (r: ObservationCoverage)
        ensures
            r == self.spec_coverage(),
    {
        self.coverage
    }

}

/// An observed value together with how it was observed.
#[derive(Clone, Debug, PartialEq, Eq)]
pub struct Observation<T> {
    metadata: ObservationMetadata,
    value: T,
}

impl<T> Observation<T> {
    pub closed spec fn spec_metadata(&self) -> ObservationMetadata {
        self.metadata
    }

    pub closed spec fn spec_value(&self) -> T {
        self.value
    }

    pub fn new(metadata: ObservationMetadata, value: T) -> (r: Self)
        ensures
            r.spec_metadata() == metadata,
            r.spec_value() == value,
    {
        Observation { metadata, value }
    }

    pub fn metadata(&self) -> (r: &ObservationMetadata)
        ensures
            *r == self.spec_metadata(),
    {
        &self.metadata
    }

    pub fn value(&self) -> (r: &T)
        ensures
            *r == self.spec_value(),
    {
        &self.value
    }

    pub fn freshness(&self) -> (r: Freshness)
        ensures
            r == self.spec_metadata().spec_freshness(),
    {
        self.metadata.freshness()
    }

    /// The metadata and the value, released together.
    pub fn into_parts(self) -> (r: (ObservationMetadata, T))
        ensures
            r == (self.spec_metadata(), self.spec_value()),
    {
        (self.metadata, self.value)
    }
}

/// Why an observation attempt produced no value.
#[derive(Clone, Copy, Debug, PartialEq, Eq, Hash, Structural)]
pub enum ObservationFailureKind {
    SubjectUnavailable,
    ProcessExited { exit_code: i32 },
    TimedOut,
    Cancelled,
    OutputLimitExceeded,
    InvalidMachineOutput,
    SubjectDisappeared,
}

/// A failed observation attempt: its metadata and the typed reason.
#[derive(Clone, Debug, PartialEq, Eq)]
pub struct ObservationFailure {
    metadata: ObservationMetadata,
    kind: ObservationFailureKind,
}

impl ObservationFailure {
    pub closed spec fn spec_metadata(&self) -> ObservationMetadata {
        self.metadata
    }

    pub closed spec fn spec_kind(&self) -> ObservationFailureKind {
        self.kind
    }

    pub fn new(metadata: ObservationMetadata, kind: ObservationFailureKind) -> (r: Self)
        ensures
            r.spec_metadata() == metadata,
            r.spec_kind() == kind,
    {
        ObservationFailure { metadata, kind }
    }

    pub fn metadata(&self) -> (r: &ObservationMetadata)
        ensures
            *r == self.spec_metadata(),
    {
        &self.metadata
    }

    pub fn kind(&self) -> (r: ObservationFailureKind)
        ensures
            r == self.spec_kind(),
    {
        self.kind
    }

}

/// The outcome of one attempt to observe a subject.
#[derive(Clone, Debug, PartialEq, Eq)]
pub enum ObservationAttempt<T> {
    Succeeded(Observation<T>),
    Failed(ObservationFailure),
}

impl<T> ObservationAttempt<T> {
    pub open spec fn spec_metadata(&self) -> ObservationMetadata {
        match self {
            ObservationAttempt::Succeeded(observation) => observation.spec_metadata(),
            ObservationAttempt::Failed(failure) => failure.spec_metadata(),
        }
    }

    pub fn metadata(&self) -> (r: &ObservationMetadata)
        ensures
            *r == self.spec_metadata(),
    {
        match self {
            ObservationAttempt::Succeeded(observation) => observation.metadata(),
            ObservationAttempt::Failed(failure) => failure.metadata(),
        }
    }

    pub fn is_success(&self) -> (success: bool)
        ensures
            success == (self is Succeeded),
    {
        match self {
            ObservationAttempt::Succeeded(_) => true,
            ObservationAttempt::Failed(_) => false,
        }
    }
}

} // verus!
