use vstd::prelude::*;

use crate::git::{Remote, WorktreeGitState};
use crate::identity::{LocationId, RepositoryId, WorktreeId};
use crate::observation::{ObservationCoverage, ObservationFailureKind};
use crate::path::FsPath;
use crate::time::Timestamp;
use crate::topology::LocationAvailability;
use crate::workspace::WorkspaceRevision;

verus! {

/// A fact that is either known or explicitly unknown; unknown is never
/// read as a negative answer.
#[derive(Clone, Debug, PartialEq, Eq)]
pub enum Knowledge<T> {
    Known(T),
    Unknown,
}

impl<T> Knowledge<T> {
    pub fn as_ref(&self) -> (r: Knowledge<&T>)
        ensures
            match (self, r) {
                (Knowledge::Known(a), Knowledge::Known(b)) => *b == *a,
                (Knowledge::Unknown, Knowledge::Unknown) => true,
                _ => false,
            },
    {
        match self {
            Knowledge::Known(value) => Knowledge::Known(value),
            Knowledge::Unknown => Knowledge::Unknown,
        }
    }

    pub fn is_known(&self) -> (r: bool)
        ensures
            r == (self is Known),
    {
        match self {
            Knowledge::Known(_) => true,
            Knowledge::Unknown => false,
        }
    }
}

/// Whether the latest observation attempt succeeded.
#[derive(Clone, Copy, Debug, PartialEq, Eq, Structural)]
pub enum ObservationAttemptOutcomeProjection {
    Succeeded,
    Failed(ObservationFailureKind),
}

/// When the latest attempt ran, how completely, and how it ended.
#[derive(Clone, Copy, Debug, PartialEq, Eq, Structural)]
pub struct ObservationAttemptProjection {
    observed_at: Timestamp,
    coverage: ObservationCoverage,
    outcome: ObservationAttemptOutcomeProjection,
}

impl ObservationAttemptProjection {
    pub closed spec fn spec_observed_at(&self) -> Timestamp {
        self.observed_at
    }

    pub closed spec fn spec_coverage(&self) -> ObservationCoverage {
        self.coverage
    }

    pub closed spec fn spec_outcome(&self) -> ObservationAttemptOutcomeProjection {
        self.outcome
    }

    pub fn new(observed_at: Timestamp, coverage: ObservationCoverage, outcome: ObservationAttemptOutcomeProjection) -> (r: Self)
        ensures
            r.spec_observed_at() == observed_at,
            r.spec_coverage() == coverage,
            r.spec_outcome() == outcome,
    {
        ObservationAttemptProjection { observed_at, coverage, outcome }
    }

    pub fn observed_at(&self) -> (r: Timestamp)
        ensures
            r == self.spec_observed_at(),
    {
        self.observed_at
    }

    pub fn coverage(&self) -> (r: ObservationCoverage)
        ensures
            r == self.spec_coverage(),
    {
        self.coverage
    }

    pub fn outcome(&self) -> (r: ObservationAttemptOutcomeProjection)
        ensures
            r == self.spec_outcome(),
    {
        self.outcome
    }

}

/// When the latest successful observation ran and how completely.
#[derive(Clone, Copy, Debug, PartialEq, Eq, Structural)]
pub struct ObservationSuccessProjection {
    observed_at: Timestamp,
    coverage: ObservationCoverage,
}

impl ObservationSuccessProjection {
    pub closed spec fn spec_observed_at(&self) -> Timestamp {
        self.observed_at
    }

    pub closed spec fn spec_coverage(&self) -> ObservationCoverage {
        self.coverage
    }

    pub fn new(observed_at: Timestamp, coverage: ObservationCoverage) -> (r: Self)
        ensures
            r.spec_observed_at() == observed_at,
            r.spec_coverage() == coverage,
    {
        ObservationSuccessProjection { observed_at, coverage }
    }

    pub fn observed_at(&self) -> (r: Timestamp)
        ensures
            r == self.spec_observed_at(),
    {
        self.observed_at
    }

    pub fn coverage(&self) -> (r: ObservationCoverage)
        ensures
            r == self.spec_coverage(),
    {
        self.coverage
    }

}

/// The evidence state of a subject, derived from its latest attempt.
#[derive(Clone, Copy, Debug, PartialEq, Eq, Structural)]
pub enum ObservationEvidenceState {
    NeverObserved,
    Observed { observed_at: Timestamp, coverage: ObservationCoverage },
    LatestAttemptFailed {
        attempted_at: Timestamp,
        failure: ObservationFailureKind,
        latest_success: Option<ObservationSuccessProjection>,
    },
}

/// The latest attempt and latest success for one subject.
#[derive(Clone, Debug, PartialEq, Eq, Structural)]
pub struct ObservationStatusProjection {
    latest_attempt: Option<ObservationAttemptProjection>,
    latest_success: Option<ObservationSuccessProjection>,
}

impl ObservationStatusProjection {
    pub closed spec fn spec_latest_attempt(&self) -> Option<ObservationAttemptProjection> {
        self.latest_attempt
    }

    pub closed spec fn spec_latest_success(&self) -> Option<ObservationSuccessProjection> {
        self.latest_success
    }

    pub fn new(
        latest_attempt: Option<ObservationAttemptProjection>,
        latest_success: Option<ObservationSuccessProjection>,
    ) -> (r: Self)
        ensures
            r.spec_latest_attempt() == latest_attempt,
            r.spec_latest_success() == latest_success,
    {
        ObservationStatusProjection { latest_attempt, latest_success }
    }

    pub fn latest_attempt(&self) -> (r: Option<ObservationAttemptProjection>)
        ensures
            r == self.spec_latest_attempt(),
    {
        self.latest_attempt
    }

    pub fn latest_success(&self) -> (r: Option<ObservationSuccessProjection>)
        ensures
            r == self.spec_latest_success(),
    {
        self.latest_success
    }

    pub open spec fn spec_evidence_state(&self) -> ObservationEvidenceState {
        match self.spec_latest_attempt() {
            None => ObservationEvidenceState::NeverObserved,
            Some(attempt) => match attempt.spec_outcome() {
                ObservationAttemptOutcomeProjection::Succeeded => ObservationEvidenceState::Observed {
                    observed_at: attempt.spec_observed_at(),
                    coverage: attempt.spec_coverage(),
                },
                ObservationAttemptOutcomeProjection::Failed(failure) => ObservationEvidenceState::LatestAttemptFailed {
                    attempted_at: attempt.spec_observed_at(),
                    failure,
                    latest_success: self.spec_latest_success(),
                },
            },
        }
    }

    /// Never observed, observed, or failed with the last success kept apart.
    pub fn evidence_state(&self) -> (r: ObservationEvidenceState)
        ensures
            r == self.spec_evidence_state(),
    {
        match self.latest_attempt {
            None => ObservationEvidenceState::NeverObserved,
            Some(attempt) => match attempt.outcome() {
                ObservationAttemptOutcomeProjection::Succeeded => ObservationEvidenceState::Observed {
                    observed_at: attempt.observed_at(),
                    coverage: attempt.coverage(),
                },
                ObservationAttemptOutcomeProjection::Failed(failure) => ObservationEvidenceState::LatestAttemptFailed {
                    attempted_at: attempt.observed_at(),
                    failure,
                    latest_success: self.latest_success,
                },
            },
        }
    }
}

/// A location as shown to readers.
#[derive(Clone, Debug, PartialEq, Eq)]
pub struct LocationProjection {
    id: LocationId,
    path: FsPath,
    availability: LocationAvailability,
}

impl LocationProjection {
    pub closed spec fn spec_id(&self) -> LocationId {
        self.id
    }

    pub closed spec fn spec_path(&self) -> FsPath {
        self.path
    }

    pub closed spec fn spec_availability(&self) -> LocationAvailability {
        self.availability
    }

    pub fn new(id: LocationId, path: FsPath, availability: LocationAvailability) -> (r: Self)
        ensures
            r.spec_id() == id,
            r.spec_path() == path,
            r.spec_availability() == availability,
    {
        LocationProjection { id, path, availability }
    }

    pub fn id(&self) -> (r: &LocationId)
        ensures
            *r == self.spec_id(),
    {
        &self.id
    }

    pub fn path(&self) -> (r: &FsPath)
        ensures
            *r == self.spec_path(),
    {
        &self.path
    }

    pub fn availability(&self) -> (r: LocationAvailability)
        ensures
            r == self.spec_availability(),
    {
        self.availability
    }

}

/// The number of available locations.
pub open spec fn available_count(locations: Seq<LocationProjection>) -> nat
    decreases locations.len(),
{
    if locations.len() == 0 {
        0
    } else {
        available_count(locations.drop_last()) + if locations.last().spec_availability()
            == LocationAvailability::Available {
            1nat
        } else {
            0nat
        }
    }
}

/// A working tree with its persisted Git state and observation status.
#[derive(Clone, Debug, PartialEq, Eq)]
pub struct WorktreeProjection {
    revision: WorkspaceRevision,
    id: WorktreeId,
    repository_id: RepositoryId,
    location: LocationProjection,
    git_state: Option<WorktreeGitState>,
    observation: ObservationStatusProjection,
}

impl WorktreeProjection {
    pub closed spec fn spec_revision(&self) -> WorkspaceRevision {
        self.revision
    }

    pub closed spec fn spec_id(&self) -> WorktreeId {
        self.id
    }

    pub closed spec fn spec_repository_id(&self) -> RepositoryId {
        self.repository_id
    }

    pub closed spec fn spec_location(&self) -> LocationProjection {
        self.location
    }

    pub closed spec fn spec_git_state(&self) -> Option<WorktreeGitState> {
        self.git_state
    }

    pub closed spec fn spec_observation(&self) -> ObservationStatusProjection {
        self.observation
    }

    pub fn new(revision: WorkspaceRevision, id: WorktreeId, repository_id: RepositoryId, location: LocationProjection, git_state: Option<WorktreeGitState>, observation: ObservationStatusProjection) -> (r: Self)
        ensures
            r.spec_revision() == revision,
            r.spec_id() == id,
            r.spec_repository_id() == repository_id,
            r.spec_location() == location,
            r.spec_git_state() == git_state,
            r.spec_observation() == observation,
    {
        WorktreeProjection { revision, id, repository_id, location, git_state, observation }
    }

    pub fn revision(&self) -> (r: WorkspaceRevision)
        ensures
            r == self.spec_revision(),
    {
        self.revision
    }

    pub fn id(&self) -> (r: &WorktreeId)
        ensures
            *r == self.spec_id(),
    {
        &self.id
    }

    pub fn repository_id(&self) -> (r: &RepositoryId)
        ensures
            *r == self.spec_repository_id(),
    {
        &self.repository_id
    }

    pub fn location(&self) -> (r: &LocationProjection)
        ensures
            *r == self.spec_location(),
    {
        &self.location
    }

    pub fn observation(&self) -> (r: &ObservationStatusProjection)
        ensures
            *r == self.spec_observation(),
    {
        &self.observation
    }

    pub fn git_state(&self) -> (r: Option<&WorktreeGitState>)
        ensures
            r == match self.spec_git_state() {
                Some(s) => Some(&s),
                None => None,
            },
    {
        match &self.git_state {
            Some(state) => Some(state),
            None => None,
        }
    }
}

/// A summary of one repository in a listing.
#[derive(Clone, Debug, PartialEq, Eq)]
pub struct RepositoryListItemProjection {
    id: RepositoryId,
    locations: Vec<LocationProjection>,
    worktree_count: usize,
    has_remotes: Knowledge<bool>,
    has_local_work: Knowledge<bool>,
}

impl RepositoryListItemProjection {
    pub closed spec fn spec_id(&self) -> RepositoryId {
        self.id
    }

    pub closed spec fn spec_locations(&self) -> Vec<LocationProjection> {
        self.locations
    }

    pub closed spec fn spec_worktree_count(&self) -> usize {
        self.worktree_count
    }

    pub closed spec fn spec_has_remotes(&self) -> Knowledge<bool> {
        self.has_remotes
    }

    pub closed spec fn spec_has_local_work(&self) -> Knowledge<bool> {
        self.has_local_work
    }

    pub fn new(id: RepositoryId, locations: Vec<LocationProjection>, worktree_count: usize, has_remotes: Knowledge<bool>, has_local_work: Knowledge<bool>) -> (r: Self)
        ensures
            r.spec_id() == id,
            r.spec_locations() == locations,
            r.spec_worktree_count() == worktree_count,
            r.spec_has_remotes() == has_remotes,
            r.spec_has_local_work() == has_local_work,
    {
        RepositoryListItemProjection { id, locations, worktree_count, has_remotes, has_local_work }
    }

    pub fn id(&self) -> (r: &RepositoryId)
        ensures
            *r == self.spec_id(),
    {
        &self.id
    }

    pub fn locations(&self) -> (r: &[LocationProjection])
        ensures
            r@ == self.spec_locations()@,
    {
        self.locations.as_slice()
    }

    pub fn worktree_count(&self) -> (r: usize)
        ensures
            r == self.spec_worktree_count(),
    {
        self.worktree_count
    }

    pub fn has_remotes(&self) -> (r: &Knowledge<bool>)
        ensures
            *r == self.spec_has_remotes(),
    {
        &self.has_remotes
    }

    pub fn has_local_work(&self) -> (r: &Knowledge<bool>)
        ensures
            *r == self.spec_has_local_work(),
    {
        &self.has_local_work
    }

    pub fn location_count(&self) -> (r: usize)
        ensures
            r == self.spec_locations()@.len(),
    {
        self.locations.len()
    }

    /// The number of locations currently available.
    pub fn available_location_count(&self) -> (r: usize)
        ensures
            r == available_count(self.spec_locations()@),
    {
        let mut count: usize = 0;
        let mut i: usize = 0;
        while i < self.locations.len()
            invariant
                i <= self.locations@.len(),
                count == available_count(self.locations@.take(i as int)),
                count <= i,
            decreases self.locations@.len() - i,
        {
            proof {
                assert(self.locations@.take(i + 1).drop_last() == self.locations@.take(i as int));
            }
            if self.locations[i].availability() == LocationAvailability::Available {
                count = count + 1;
            }
            i = i + 1;
        }
        proof {
            assert(self.locations@.take(self.locations@.len() as int) == self.locations@);
        }
        count
    }
}

/// One page of a repository listing.
#[derive(Clone, Debug, PartialEq, Eq)]
pub struct RepositoryListProjection {
    revision: WorkspaceRevision,
    total_matching: usize,
    offset: usize,
    items: Vec<RepositoryListItemProjection>,
}

impl RepositoryListProjection {
    pub closed spec fn spec_revision(&self) -> WorkspaceRevision {
        self.revision
    }

    pub closed spec fn spec_total_matching(&self) -> usize {
        self.total_matching
    }

    pub closed spec fn spec_offset(&self) -> usize {
        self.offset
    }

    pub closed spec fn spec_items(&self) -> Vec<RepositoryListItemProjection> {
        self.items
    }

    pub fn new(revision: WorkspaceRevision, total_matching: usize, offset: usize, items: Vec<RepositoryListItemProjection>) -> (r: Self)
        ensures
            r.spec_revision() == revision,
            r.spec_total_matching() == total_matching,
            r.spec_offset() == offset,
            r.spec_items() == items,
    {
        RepositoryListProjection { revision, total_matching, offset, items }
    }

    pub fn revision(&self) -> (r: WorkspaceRevision)
        ensures
            r == self.spec_revision(),
    {
        self.revision
    }

    pub fn total_matching(&self) -> (r: usize)
        ensures
            r == self.spec_total_matching(),
    {
        self.total_matching
    }

    pub fn offset(&self) -> (r: usize)
        ensures
            r == self.spec_offset(),
    {
        self.offset
    }

    pub fn items(&self) -> (r: &[RepositoryListItemProjection])
        ensures
            r@ == self.spec_items()@,
    {
        self.items.as_slice()
    }

}

/// Whether some working tree has no known Git state.
pub open spec fn some_worktree_unknown(worktrees: Seq<WorktreeProjection>) -> bool {
    exists|i: int| 0 <= i < worktrees.len() && (#[trigger] worktrees[i]).spec_git_state() is None
}

/// Everything persisted about one repository.
#[derive(Clone, Debug, PartialEq, Eq)]
pub struct RepositoryDetailProjection {
    revision: WorkspaceRevision,
    id: RepositoryId,
    locations: Vec<LocationProjection>,
    remotes: Option<Vec<Remote>>,
    remotes_observation: ObservationStatusProjection,
    worktrees: Vec<WorktreeProjection>,
}

impl RepositoryDetailProjection {
    pub closed spec fn spec_revision(&self) -> WorkspaceRevision {
        self.revision
    }

    pub closed spec fn spec_id(&self) -> RepositoryId {
        self.id
    }

    pub closed spec fn spec_locations(&self) -> Vec<LocationProjection> {
        self.locations
    }

    pub closed spec fn spec_remotes(&self) -> Option<Vec<Remote>> {
        self.remotes
    }

    pub closed spec fn spec_remotes_observation(&self) -> ObservationStatusProjection {
        self.remotes_observation
    }

    pub closed spec fn spec_worktrees(&self) -> Vec<WorktreeProjection> {
        self.worktrees
    }

    pub fn new(revision: WorkspaceRevision, id: RepositoryId, locations: Vec<LocationProjection>, remotes: Option<Vec<Remote>>, remotes_observation: ObservationStatusProjection, worktrees: Vec<WorktreeProjection>) -> (r: Self)
        ensures
            r.spec_revision() == revision,
            r.spec_id() == id,
            r.spec_locations() == locations,
            r.spec_remotes() == remotes,
            r.spec_remotes_observation() == remotes_observation,
            r.spec_worktrees() == worktrees,
    {
        RepositoryDetailProjection { revision, id, locations, remotes, remotes_observation, worktrees }
    }

    pub fn revision(&self) -> (r: WorkspaceRevision)
        ensures
            r == self.spec_revision(),
    {
        self.revision
    }

    pub fn id(&self) -> (r: &RepositoryId)
        ensures
            *r == self.spec_id(),
    {
        &self.id
    }

    pub fn locations(&self) -> (r: &[LocationProjection])
        ensures
            r@ == self.spec_locations()@,
    {
        self.locations.as_slice()
    }

    pub fn remotes_observation(&self) -> (r: &ObservationStatusProjection)
        ensures
            *r == self.spec_remotes_observation(),
    {
        &self.remotes_observation
    }

    pub fn worktrees(&self) -> (r: &[WorktreeProjection])
        ensures
            r@ == self.spec_worktrees()@,
    {
        self.worktrees.as_slice()
    }

    pub fn remotes(&self) -> (r: Option<&[Remote]>)
        ensures
            match (self.spec_remotes(), r) {
                (Some(v), Some(s)) => s@ == v@,
                (None, None) => true,
                _ => false,
            },
    {
        match &self.remotes {
            Some(remotes) => Some(remotes.as_slice()),
            None => None,
        }
    }

    /// Whether the remotes or the state of some working tree are unknown.
    pub fn has_unknown_observation_evidence(&self) -> (r: bool)
        ensures
            r == (self.spec_remotes() is None || some_worktree_unknown(self.spec_worktrees()@)),
    {
        if self.remotes.is_none() {
            return true;
        }
        let mut i: usize = 0;
        while i < self.worktrees.len()
            invariant
                i <= self.worktrees@.len(),
                forall|j: int| 0 <= j < i ==> (#[trigger] self.worktrees@[j]).spec_git_state() is Some,
            decreases self.worktrees@.len() - i,
        {
            if self.worktrees[i].git_state().is_none() {
                return true;
            }
            i = i + 1;
        }
        false
    }
}

/// Workspace-wide counts, keeping unknown apart from negative.
#[derive(Clone, Copy, Debug, PartialEq, Eq, Structural)]
pub struct OverviewProjection {
    revision: WorkspaceRevision,
    repository_count: usize,
    available_repository_count: usize,
    worktree_count: usize,
    repositories_with_local_work_count: usize,
    repositories_with_unknown_local_work_count: usize,
    repositories_without_remotes_count: usize,
    repositories_with_unknown_remotes_count: usize,
}

impl OverviewProjection {
    pub closed spec fn spec_revision(&self) -> WorkspaceRevision {
        self.revision
    }

    pub closed spec fn spec_repository_count(&self) -> usize {
        self.repository_count
    }

    pub closed spec fn spec_available_repository_count(&self) -> usize {
        self.available_repository_count
    }

    pub closed spec fn spec_worktree_count(&self) -> usize {
        self.worktree_count
    }

    pub closed spec fn spec_repositories_with_local_work_count(&self) -> usize {
        self.repositories_with_local_work_count
    }

    pub closed spec fn spec_repositories_with_unknown_local_work_count(&self) -> usize {
        self.repositories_with_unknown_local_work_count
    }

    pub closed spec fn spec_repositories_without_remotes_count(&self) -> usize {
        self.repositories_without_remotes_count
    }

    pub closed spec fn spec_repositories_with_unknown_remotes_count(&self) -> usize {
        self.repositories_with_unknown_remotes_count
    }

    pub fn new(revision: WorkspaceRevision, repository_count: usize, available_repository_count: usize, worktree_count: usize, repositories_with_local_work_count: usize, repositories_with_unknown_local_work_count: usize, repositories_without_remotes_count: usize, repositories_with_unknown_remotes_count: usize) -> (r: Self)
        ensures
            r.spec_revision() == revision,
            r.spec_repository_count() == repository_count,
            r.spec_available_repository_count() == available_repository_count,
            r.spec_worktree_count() == worktree_count,
            r.spec_repositories_with_local_work_count() == repositories_with_local_work_count,
            r.spec_repositories_with_unknown_local_work_count() == repositories_with_unknown_local_work_count,
            r.spec_repositories_without_remotes_count() == repositories_without_remotes_count,
            r.spec_repositories_with_unknown_remotes_count() == repositories_with_unknown_remotes_count,
    {
        OverviewProjection { revision, repository_count, available_repository_count, worktree_count, repositories_with_local_work_count, repositories_with_unknown_local_work_count, repositories_without_remotes_count, repositories_with_unknown_remotes_count }
    }

    pub fn revision(&self) -> (r: WorkspaceRevision)
        ensures
            r == self.spec_revision(),
    {
        self.revision
    }

    pub fn repository_count(&self) -> (r: usize)
        ensures
            r == self.spec_repository_count(),
    {
        self.repository_count
    }

    pub fn available_repository_count(&self) -> (r: usize)
        ensures
            r == self.spec_available_repository_count(),
    {
        self.available_repository_count
    }

    pub fn worktree_count(&self) -> (r: usize)
        ensures
            r == self.spec_worktree_count(),
    {
        self.worktree_count
    }

    pub fn repositories_with_local_work_count(&self) -> (r: usize)
        ensures
            r == self.spec_repositories_with_local_work_count(),
    {
        self.repositories_with_local_work_count
    }

    pub fn repositories_with_unknown_local_work_count(&self) -> (r: usize)
        ensures
            r == self.spec_repositories_with_unknown_local_work_count(),
    {
        self.repositories_with_unknown_local_work_count
    }

    pub fn repositories_without_remotes_count(&self) -> (r: usize)
        ensures
            r == self.spec_repositories_without_remotes_count(),
    {
        self.repositories_without_remotes_count
    }

    pub fn repositories_with_unknown_remotes_count(&self) -> (r: usize)
        ensures
            r == self.spec_repositories_with_unknown_remotes_count(),
    {
        self.repositories_with_unknown_remotes_count
    }

    /// Whether some repository has unknown local work or unknown remotes.
    pub fn has_unknown_observation_evidence(&self) -> (r: bool)
        ensures
            r == (self.spec_repositories_with_unknown_local_work_count() > 0
                || self.spec_repositories_with_unknown_remotes_count() > 0),
    {
        self.repositories_with_unknown_local_work_count > 0
            || self.repositories_with_unknown_remotes_count > 0
    }
}

/// The overview and every repository detail, read at one revision.
#[derive(Clone, Debug, PartialEq, Eq)]
pub struct WorkspaceMirror {
    revision: WorkspaceRevision,
    overview: OverviewProjection,
    repositories: Vec<RepositoryDetailProjection>,
}

impl WorkspaceMirror {
    pub closed spec fn spec_revision(&self) -> WorkspaceRevision {
        self.revision
    }

    pub closed spec fn spec_overview(&self) -> OverviewProjection {
        self.overview
    }

    pub closed spec fn spec_repositories(&self) -> Vec<RepositoryDetailProjection> {
        self.repositories
    }

    pub fn new(revision: WorkspaceRevision, overview: OverviewProjection, repositories: Vec<RepositoryDetailProjection>) -> (r: Self)
        ensures
            r.spec_revision() == revision,
            r.spec_overview() == overview,
            r.spec_repositories() == repositories,
    {
        WorkspaceMirror { revision, overview, repositories }
    }

    pub fn revision(&self) -> (r: WorkspaceRevision)
        ensures
            r == self.spec_revision(),
    {
        self.revision
    }

    pub fn overview(&self) -> (r: &OverviewProjection)
        ensures
            *r == self.spec_overview(),
    {
        &self.overview
    }

    pub fn repositories(&self) -> (r: &[RepositoryDetailProjection])
        ensures
            r@ == self.spec_repositories()@,
    {
        self.repositories.as_slice()
    }

}

} // verus!
