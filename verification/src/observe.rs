use vstd::prelude::*;

use crate::git::{Remote, WorktreeGitState};
use crate::identity::{ObservationRunId, RepositoryId, WorktreeId};
use crate::observation::{
    Freshness, Observation, ObservationAttempt, ObservationCoverage, ObservationFailure,
    ObservationFailureKind, ObservationKey, ObservationMetadata,
};
use crate::operation::OperationCompletion;
use crate::path::FsPath;
use crate::ports::{
    CancellationPort, ClockPort, GitObservationPort, IdentityGeneratorPort, ObservationStorePort,
    PortError, PortErrorKind, PortResult, RepositoryCatalogPort,
};
use crate::projection::{find_location, locate_location};
use crate::sorting::{keys_ascending, lemma_sort_by_key_ascending, sort_by_key, sort_by_text_key, TextKeyed};
use crate::time::Timestamp;
use crate::topology::{Location, LocationAvailability, Repository, Worktree};

verus! {

/// How many observations may run at the same time.
#[derive(Clone, Copy, Debug, PartialEq, Eq, Structural)]
pub struct ObservationExecutionPolicy {
    max_parallelism: usize,
}

impl ObservationExecutionPolicy {
    pub closed spec fn spec_max_parallelism(self) -> usize {
        self.max_parallelism
    }

    /// A policy with the given limit; the limit must be positive.
    pub fn new(max_parallelism: usize) -> (r: Option<Self>)
        ensures
            r is Some <==> max_parallelism > 0,
            r matches Some(policy) ==> policy.spec_max_parallelism() == max_parallelism,
    {
        if max_parallelism > 0 {
            Some(ObservationExecutionPolicy { max_parallelism })
        } else {
            None
        }
    }

    pub fn max_parallelism(self) -> (r: usize)
        ensures
            r == self.spec_max_parallelism(),
    {
        self.max_parallelism
    }
}

impl Default for ObservationExecutionPolicy {
    fn default() -> (r: Self)
        ensures
            r.spec_max_parallelism() == 4,
    {
        ObservationExecutionPolicy { max_parallelism: 4 }
    }
}


/// A subject whose observation failed, and why.
#[derive(Clone, Debug, PartialEq, Eq)]
pub struct ObservationTargetFailure {
    key: ObservationKey,
    kind: ObservationFailureKind,
}

impl ObservationTargetFailure {
    pub closed spec fn spec_key(&self) -> ObservationKey {
        self.key
    }

    pub closed spec fn spec_kind(&self) -> ObservationFailureKind {
        self.kind
    }

    pub fn new(key: ObservationKey, kind: ObservationFailureKind) -> (r: Self)
        ensures
            r.spec_key() == key,
            r.spec_kind() == kind,
    {
        ObservationTargetFailure { key, kind }
    }

    /// The subject and reason of a failed attempt.
    pub fn from_failure(failure: &ObservationFailure) -> (r: Self)
        ensures
            r.spec_key() == failure.spec_metadata().spec_key(),
            r.spec_kind() == failure.spec_kind(),
    {
        ObservationTargetFailure { key: failure.metadata().key().duplicate(), kind: failure.kind() }
    }

    pub fn key(&self) -> (r: &ObservationKey)
        ensures
            *r == self.spec_key(),
    {
        &self.key
    }

    pub fn kind(&self) -> (r: ObservationFailureKind)
        ensures
            r == self.spec_kind(),
    {
        self.kind
    }
}

/// How many of the failures were cancellations.
pub open spec fn cancelled_failures(failures: Seq<ObservationTargetFailure>) -> nat
    decreases failures.len(),
{
    if failures.len() == 0 {
        0
    } else {
        cancelled_failures(failures.drop_last()) + if failures.last().spec_kind()
            == ObservationFailureKind::Cancelled {
            1nat
        } else {
            0nat
        }
    }
}

proof fn lemma_cancelled_failures_bounded(failures: Seq<ObservationTargetFailure>)
    ensures
        cancelled_failures(failures) <= failures.len(),
    decreases failures.len(),
{
    if failures.len() > 0 {
        lemma_cancelled_failures_bounded(failures.drop_last());
    }
}

/// The summary of one inventory observation run.
#[derive(Clone, Debug, PartialEq, Eq)]
pub struct ObserveInventoryOutcome {
    run_id: ObservationRunId,
    succeeded_count: usize,
    failures: Vec<ObservationTargetFailure>,
}

impl ObserveInventoryOutcome {
    pub closed spec fn spec_run_id(&self) -> ObservationRunId {
        self.run_id
    }

    pub closed spec fn spec_succeeded_count(&self) -> nat {
        self.succeeded_count as nat
    }

    pub closed spec fn spec_failures(&self) -> Seq<ObservationTargetFailure> {
        self.failures@
    }

    pub open spec fn spec_cancelled_count(&self) -> nat {
        cancelled_failures(self.spec_failures())
    }

    pub open spec fn spec_coverage(&self) -> ObservationCoverage {
        if self.spec_failures().len() == 0 {
            ObservationCoverage::Complete
        } else {
            ObservationCoverage::Partial
        }
    }

    /// Cancelled when any target was cancelled; else complete without
    /// failures, failed when nothing succeeded, partial otherwise.
    pub open spec fn spec_completion(&self) -> OperationCompletion {
        if self.spec_cancelled_count() > 0 {
            OperationCompletion::Cancelled
        } else if self.spec_failures().len() == 0 {
            OperationCompletion::Complete
        } else if self.spec_succeeded_count() == 0 {
            OperationCompletion::Failed
        } else {
            OperationCompletion::Partial
        }
    }

    pub fn new(
        run_id: ObservationRunId,
        succeeded_count: usize,
        failures: Vec<ObservationTargetFailure>,
    ) -> (r: Self)
        ensures
            r.spec_run_id() == run_id,
            r.spec_succeeded_count() == succeeded_count,
            r.spec_failures() == failures@,
    {
        ObserveInventoryOutcome { run_id, succeeded_count, failures }
    }

    pub fn run_id(&self) -> (r: &ObservationRunId)
        ensures
            *r == self.spec_run_id(),
    {
        &self.run_id
    }

    pub fn coverage(&self) -> (r: ObservationCoverage)
        ensures
            r == self.spec_coverage(),
    {
        if self.failures.len() == 0 {
            ObservationCoverage::Complete
        } else {
            ObservationCoverage::Partial
        }
    }

    /// Every target, successful or not.
    pub fn target_count(&self) -> (r: usize)
        requires
            self.spec_succeeded_count() + self.spec_failures().len() <= usize::MAX,
        ensures
            r == self.spec_succeeded_count() + self.spec_failures().len(),
    {
        self.succeeded_count + self.failures.len()
    }

    pub fn succeeded_count(&self) -> (r: usize)
        ensures
            r == self.spec_succeeded_count(),
    {
        self.succeeded_count
    }

    pub fn failed_count(&self) -> (r: usize)
        ensures
            r == self.spec_failures().len(),
    {
        self.failures.len()
    }

    pub fn cancelled_count(&self) -> (r: usize)
        ensures
            r == self.spec_cancelled_count(),
    {
        let mut count: usize = 0;
        let mut index: usize = 0;
        while index < self.failures.len()
            invariant
                index <= self.failures@.len(),
                count == cancelled_failures(self.failures@.take(index as int)),
            decreases self.failures@.len() - index,
        {
            proof {
                assert(self.failures@.take(index as int + 1).drop_last() =~= self.failures@.take(
                    index as int,
                ));
                lemma_cancelled_failures_bounded(self.failures@.take(index as int));
            }
            if self.failures[index].kind() == ObservationFailureKind::Cancelled {
                count = count + 1;
            }
            index = index + 1;
        }
        proof {
            assert(self.failures@.take(index as int) =~= self.failures@);
        }
        count
    }

    pub fn failures(&self) -> (r: &[ObservationTargetFailure])
        ensures
            r@ == self.spec_failures(),
    {
        self.failures.as_slice()
    }

    pub fn completion(&self) -> (r: OperationCompletion)
        ensures
            r == self.spec_completion(),
            r == OperationCompletion::Complete ==> self.spec_coverage()
                == ObservationCoverage::Complete,
    {
        if self.cancelled_count() > 0 {
            OperationCompletion::Cancelled
        } else if self.failures.len() == 0 {
            OperationCompletion::Complete
        } else if self.succeeded_count == 0 {
            OperationCompletion::Failed
        } else {
            OperationCompletion::Partial
        }
    }

    pub fn was_cancelled(&self) -> (r: bool)
        ensures
            r == (self.spec_cancelled_count() > 0),
            r <==> self.spec_completion() == OperationCompletion::Cancelled,
    {
        self.cancelled_count() > 0
    }

    pub fn is_partial(&self) -> (r: bool)
        ensures
            r == (self.spec_coverage() == ObservationCoverage::Partial),
            r <==> self.spec_failures().len() > 0,
    {
        match self.coverage() {
            ObservationCoverage::Partial => true,
            ObservationCoverage::Complete => false,
        }
    }
}

/// A subject to observe, with the path to observe it at when one can be
/// reached.
#[derive(Debug)]
pub enum ObservationTarget {
    RepositoryRemotes { repository_id: RepositoryId, path: Option<FsPath> },
    Worktree { worktree_id: WorktreeId, path: Option<FsPath> },
}

impl ObservationTarget {
    pub open spec fn spec_key(&self) -> ObservationKey {
        match self {
            ObservationTarget::RepositoryRemotes { repository_id, .. } => {
                ObservationKey::RepositoryRemotes(*repository_id)
            },
            ObservationTarget::Worktree { worktree_id, .. } => ObservationKey::WorktreeGitState(
                *worktree_id,
            ),
        }
    }

    pub open spec fn spec_path(&self) -> Option<Seq<u8>> {
        let path = match self {
            ObservationTarget::RepositoryRemotes { path, .. } => *path,
            ObservationTarget::Worktree { path, .. } => *path,
        };
        match path {
            Some(p) => Some(p@),
            None => None,
        }
    }
}

/// The path of a location, when it is available.
pub open spec fn reachable_path(location: Location) -> Option<Seq<u8>> {
    if location.spec_availability() == LocationAvailability::Available {
        Some(location.spec_path()@)
    } else {
        None
    }
}

/// The path of the first available location.
pub open spec fn first_available_path(locations: Seq<Location>) -> Option<Seq<u8>>
    decreases locations.len(),
{
    if locations.len() == 0 {
        None
    } else if locations[0].spec_availability() == LocationAvailability::Available {
        Some(locations[0].spec_path()@)
    } else {
        first_available_path(locations.drop_first())
    }
}

/// Every location is one of the repository's.
pub open spec fn locations_belong(repository_id: RepositoryId, locations: Seq<Location>) -> bool {
    forall|i: int|
        0 <= i < locations.len() ==> (#[trigger] locations[i]).spec_repository_id()@
            == repository_id@
}

/// A worktree of the repository at one of the given locations.
pub open spec fn worktree_placed(
    repository_id: RepositoryId,
    locations: Seq<Location>,
    worktree: Worktree,
) -> bool {
    &&& worktree.spec_repository_id()@ == repository_id@
    &&& find_location(locations, worktree.spec_location_id()@) is Some
}

/// Where a worktree can be observed: the path of its location, when that
/// location is available.
pub open spec fn worktree_path(locations: Seq<Location>, worktree: Worktree) -> Option<Seq<u8>> {
    match find_location(locations, worktree.spec_location_id()@) {
        Some(location) => reachable_path(location),
        None => None,
    }
}

/// What is planned for one repository: its remotes at the first available
/// location, then each worktree at its location, in the given order.
pub open spec fn repository_planned(
    repository_id: RepositoryId,
    locations: Seq<Location>,
    worktrees: Seq<Worktree>,
    part: Seq<ObservationTarget>,
) -> bool {
    &&& part.len() == worktrees.len() + 1
    &&& part[0].spec_key() == ObservationKey::RepositoryRemotes(repository_id)
    &&& part[0].spec_path() == first_available_path(locations)
    &&& forall|i: int|
        0 <= i < worktrees.len() ==> {
            &&& (#[trigger] part.drop_first()[i]).spec_key() == ObservationKey::WorktreeGitState(
                worktrees[i].spec_id(),
            )
            &&& part.drop_first()[i].spec_path() == worktree_path(locations, worktrees[i])
        }
}

/// The parts of a plan, one after another.
pub open spec fn joined_parts(parts: Seq<Seq<ObservationTarget>>) -> Seq<ObservationTarget>
    decreases parts.len(),
{
    if parts.len() == 0 {
        Seq::empty()
    } else {
        joined_parts(parts.drop_last()) + parts.last()
    }
}

/// A plan that visits the repositories in identifier order and, for each,
/// plans its remotes and then its worktrees, both read in identifier order.
pub open spec fn plan_follows(
    plan: Seq<ObservationTarget>,
    repositories: Seq<Repository>,
    locations: Seq<Seq<Location>>,
    worktrees: Seq<Seq<Worktree>>,
    parts: Seq<Seq<ObservationTarget>>,
) -> bool {
    &&& keys_ascending(repositories)
    &&& locations.len() == repositories.len()
    &&& worktrees.len() == repositories.len()
    &&& parts.len() == repositories.len()
    &&& plan == joined_parts(parts)
    &&& forall|k: int| 0 <= k < repositories.len() ==> keys_ascending(#[trigger] locations[k])
    &&& forall|k: int| 0 <= k < repositories.len() ==> keys_ascending(#[trigger] worktrees[k])
    &&& forall|k: int|
        0 <= k < repositories.len() ==> repository_planned(
            repositories[k].spec_id(),
            locations[k],
            worktrees[k],
            #[trigger] parts[k],
        )
}

/// Each list sorted by text key.
pub open spec fn sorted_lists<T: TextKeyed>(lists: Seq<Seq<T>>) -> Seq<Seq<T>> {
    Seq::new(lists.len(), |k: int| sort_by_key(lists[k]))
}

/// The locations read for a repository all belong to it, and each of its
/// worktrees belongs to it and sits at one of those locations.
pub open spec fn lists_fit(
    repository_id: RepositoryId,
    locations: Seq<Location>,
    worktrees: Seq<Worktree>,
) -> bool {
    &&& locations_belong(repository_id, locations)
    &&& forall|i: int|
        0 <= i < worktrees.len() ==> worktree_placed(repository_id, locations, #[trigger] worktrees[i])
}

/// What the catalog answered while a run was planned: its repositories,
/// then, for each repository in identifier order, its locations and its
/// worktrees, each as answered; and the error of a read that failed.
pub struct CatalogReads {
    pub repositories: Option<Seq<Repository>>,
    pub locations: Seq<Seq<Location>>,
    pub worktrees: Seq<Seq<Worktree>>,
    pub failure: Option<PortError>,
}

/// Nothing read yet.
pub open spec fn no_reads() -> CatalogReads {
    CatalogReads {
        repositories: None,
        locations: Seq::empty(),
        worktrees: Seq::empty(),
        failure: None,
    }
}

/// The plan of what the catalog answered: every read succeeded, every
/// repository's locations and worktrees belong to it, and the plan visits
/// the repositories in identifier order, each with its remotes and then its
/// worktrees, from its locations and worktrees in identifier order.
pub open spec fn plan_of_reads(plan: Seq<ObservationTarget>, reads: CatalogReads) -> bool {
    match reads.repositories {
        Some(found) => {
            let repositories = sort_by_key(found);
            &&& reads.failure is None
            &&& reads.locations.len() == repositories.len()
            &&& reads.worktrees.len() == repositories.len()
            &&& forall|k: int|
                0 <= k < repositories.len() ==> lists_fit(
                    repositories[k].spec_id(),
                    sort_by_key(#[trigger] reads.locations[k]),
                    sort_by_key(reads.worktrees[k]),
                )
            &&& exists|parts: Seq<Seq<ObservationTarget>>|
                #[trigger] plan_follows(
                    plan,
                    repositories,
                    sorted_lists(reads.locations),
                    sorted_lists(reads.worktrees),
                    parts,
                )
        },
        None => false,
    }
}

/// Why planning failed: a catalog read failed with this very error; or the
/// last repository read, in identifier order, has a location of another
/// repository, or a worktree of another repository or at no location of
/// its own, which is an invariant violation, while every repository before
/// it was fine.
pub open spec fn plan_refused(reads: CatalogReads, error: PortError) -> bool {
    match reads.failure {
        Some(failure) => error == failure,
        None => match reads.repositories {
            Some(found) => {
                let repositories = sort_by_key(found);
                let k = reads.locations.len() - 1;
                &&& error.spec_kind() == PortErrorKind::InvariantViolation
                &&& 0 < reads.locations.len() <= repositories.len()
                &&& forall|j: int|
                    0 <= j < k ==> lists_fit(
                        repositories[j].spec_id(),
                        sort_by_key(#[trigger] reads.locations[j]),
                        sort_by_key(reads.worktrees[j]),
                    )
                &&& {
                    ||| (reads.worktrees.len() == k && !locations_belong(
                        repositories[k].spec_id(),
                        sort_by_key(reads.locations[k]),
                    ))
                    ||| (reads.worktrees.len() == k + 1 && !lists_fit(
                        repositories[k].spec_id(),
                        sort_by_key(reads.locations[k]),
                        sort_by_key(reads.worktrees[k]),
                    ) && locations_belong(repositories[k].spec_id(), sort_by_key(reads.locations[k])))
                }
            },
            None => false,
        },
    }
}

/// What planning returned for what the catalog answered.
pub open spec fn planning_reported(reads: CatalogReads, r: PortResult<Vec<ObservationTarget>>) -> bool {
    match r {
        Ok(plan) => plan_of_reads(plan@, reads),
        Err(error) => plan_refused(reads, error),
    }
}

fn invariant_violation() -> (r: PortError)
    ensures
        r.spec_kind() == PortErrorKind::InvariantViolation,
{
    PortError::new(PortErrorKind::InvariantViolation)
}

/// The remotes target of a repository: observed at its first available
/// location. Refused when a location belongs to another repository.
pub fn remotes_target(repository_id: &RepositoryId, locations: &[Location]) -> (r: PortResult<
    ObservationTarget,
>)
    ensures
        r is Ok <==> locations_belong(*repository_id, locations@),
        r matches Ok(target) ==> target.spec_key() == ObservationKey::RepositoryRemotes(
            *repository_id,
        ) && target.spec_path() == first_available_path(locations@),
        r matches Err(e) ==> e.spec_kind() == PortErrorKind::InvariantViolation,
{
    let mut index: usize = 0;
    while index < locations.len()
        invariant
            index <= locations@.len(),
            forall|i: int|
                0 <= i < index ==> (#[trigger] locations@[i]).spec_repository_id()@
                    == repository_id@,
        decreases locations@.len() - index,
    {
        if locations[index].repository_id() != repository_id {
            return Err(invariant_violation());
        }
        index = index + 1;
    }
    let mut path: Option<FsPath> = None;
    let mut scan: usize = locations.len();
    while scan > 0
        invariant
            scan <= locations@.len(),
            match path {
                Some(p) => Some(p@) == first_available_path(locations@.skip(scan as int)),
                None => first_available_path(locations@.skip(scan as int)) is None,
            },
        decreases scan,
    {
        scan = scan - 1;
        proof {
            assert(locations@.skip(scan as int).drop_first() =~= locations@.skip(scan as int + 1));
        }
        if locations[scan].availability() == LocationAvailability::Available {
            path = Some(locations[scan].path().duplicate());
        }
    }
    proof {
        assert(locations@.skip(0) =~= locations@);
    }
    Ok(ObservationTarget::RepositoryRemotes { repository_id: repository_id.duplicate(), path })
}

/// The worktree targets of a repository, in the given order. Refused when a
/// worktree belongs to another repository or lies at none of the locations.
pub fn worktree_targets(
    repository_id: &RepositoryId,
    locations: &[Location],
    worktrees: &[Worktree],
) -> (r: PortResult<Vec<ObservationTarget>>)
    ensures
        r is Ok <==> forall|i: int|
            0 <= i < worktrees@.len() ==> worktree_placed(
                *repository_id,
                locations@,
                #[trigger] worktrees@[i],
            ),
        r matches Ok(targets) ==> targets@.len() == worktrees@.len() && forall|i: int|
            0 <= i < worktrees@.len() ==> (#[trigger] targets@[i]).spec_key()
                == ObservationKey::WorktreeGitState(worktrees@[i].spec_id())
                && targets@[i].spec_path() == worktree_path(locations@, worktrees@[i]),
        r matches Err(e) ==> e.spec_kind() == PortErrorKind::InvariantViolation,
{
    let mut targets: Vec<ObservationTarget> = Vec::new();
    let mut index: usize = 0;
    while index < worktrees.len()
        invariant
            index <= worktrees@.len(),
            targets@.len() == index,
            forall|i: int|
                0 <= i < index ==> worktree_placed(
                    *repository_id,
                    locations@,
                    #[trigger] worktrees@[i],
                ),
            forall|i: int|
                0 <= i < index ==> (#[trigger] targets@[i]).spec_key()
                    == ObservationKey::WorktreeGitState(worktrees@[i].spec_id())
                    && targets@[i].spec_path() == worktree_path(locations@, worktrees@[i]),
        decreases worktrees@.len() - index,
    {
        let worktree = &worktrees[index];
        if worktree.repository_id() != repository_id {
            return Err(invariant_violation());
        }
        match locate_location(locations, worktree.location_id()) {
            None => {
                return Err(invariant_violation());
            },
            Some(found) => {
                let location = &locations[found];
                let path = if location.availability() == LocationAvailability::Available {
                    Some(location.path().duplicate())
                } else {
                    None
                };
                targets.push(
                    ObservationTarget::Worktree { worktree_id: worktree.id().duplicate(), path },
                );
            },
        }
        index = index + 1;
    }
    Ok(targets)
}

/// What observing one target came to: an attempt to record, or an error
/// that ends the run.
#[derive(Debug)]
pub enum TargetOutcome {
    RepositoryRemotes(ObservationAttempt<Vec<Remote>>),
    Worktree(ObservationAttempt<WorktreeGitState>),
    Fatal(PortError),
}

/// The failure kind a port error is recorded as, or none when the error
/// ends the run.
pub open spec fn recorded_failure(kind: PortErrorKind) -> Option<ObservationFailureKind> {
    match kind {
        PortErrorKind::PermissionDenied => Some(ObservationFailureKind::SubjectUnavailable),
        PortErrorKind::ResourceUnavailable => Some(ObservationFailureKind::SubjectDisappeared),
        PortErrorKind::ProcessExited { exit_code } => Some(
            ObservationFailureKind::ProcessExited { exit_code },
        ),
        PortErrorKind::InvalidData => Some(ObservationFailureKind::InvalidMachineOutput),
        PortErrorKind::OutputLimitExceeded => Some(ObservationFailureKind::OutputLimitExceeded),
        PortErrorKind::TimedOut => Some(ObservationFailureKind::TimedOut),
        PortErrorKind::Cancelled => Some(ObservationFailureKind::Cancelled),
        _ => None,
    }
}

/// Maps a port error of an observation to the failure it records, or hands
/// the error back when it cannot be recorded as a failure.
pub fn observation_failure(kind: PortErrorKind) -> (r: PortResult<ObservationFailureKind>)
    ensures
        match recorded_failure(kind) {
            Some(failure) => r == Ok::<ObservationFailureKind, PortError>(failure),
            None => r matches Err(e) && e.spec_kind() == kind,
        },
{
    match kind {
        PortErrorKind::PermissionDenied => Ok(ObservationFailureKind::SubjectUnavailable),
        PortErrorKind::ResourceUnavailable => Ok(ObservationFailureKind::SubjectDisappeared),
        PortErrorKind::ProcessExited { exit_code } => Ok(
            ObservationFailureKind::ProcessExited { exit_code },
        ),
        PortErrorKind::InvalidData => Ok(ObservationFailureKind::InvalidMachineOutput),
        PortErrorKind::OutputLimitExceeded => Ok(ObservationFailureKind::OutputLimitExceeded),
        PortErrorKind::TimedOut => Ok(ObservationFailureKind::TimedOut),
        PortErrorKind::Cancelled => Ok(ObservationFailureKind::Cancelled),
        PortErrorKind::IoFailure
        | PortErrorKind::StorageFailure
        | PortErrorKind::InvariantViolation
        | PortErrorKind::Unexpected => Err(PortError::new(kind)),
    }
}

/// The attempt carries the run, the key and the time, and its coverage
/// says whether it succeeded.
pub open spec fn attempt_stamped<T>(
    attempt: ObservationAttempt<T>,
    run_id: ObservationRunId,
    key: ObservationKey,
    now: Timestamp,
) -> bool {
    &&& attempt.spec_metadata().spec_run_id() == run_id
    &&& attempt.spec_metadata().spec_key() == key
    &&& attempt.spec_metadata().spec_freshness().spec_observed_at() == now
    &&& attempt.spec_metadata().spec_coverage() == if attempt is Succeeded {
        ObservationCoverage::Complete
    } else {
        ObservationCoverage::Partial
    }
}

/// What an observation call that returned `result` at `now` is recorded as.
pub open spec fn settled<T>(
    result: PortResult<T>,
    attempt: Result<ObservationAttempt<T>, PortError>,
    run_id: ObservationRunId,
    key: ObservationKey,
    now: Timestamp,
) -> bool {
    match result {
        Ok(value) => attempt matches Ok(ObservationAttempt::Succeeded(observation))
            && observation.spec_value() == value && attempt_stamped(
            ObservationAttempt::<T>::Succeeded(observation),
            run_id,
            key,
            now,
        ),
        Err(error) => match recorded_failure(error.spec_kind()) {
            Some(kind) => attempt matches Ok(ObservationAttempt::Failed(failure))
                && failure.spec_kind() == kind && attempt_stamped(
                ObservationAttempt::<T>::Failed(failure),
                run_id,
                key,
                now,
            ),
            None => attempt == Err::<ObservationAttempt<T>, PortError>(error),
        },
    }
}

fn stamped_metadata(
    run_id: &ObservationRunId,
    key: ObservationKey,
    now: Timestamp,
    coverage: ObservationCoverage,
) -> (r: ObservationMetadata)
    ensures
        r.spec_run_id() == *run_id,
        r.spec_key() == key,
        r.spec_freshness().spec_observed_at() == now,
        r.spec_coverage() == coverage,
{
    ObservationMetadata::new(run_id.duplicate(), key, Freshness::new(now), coverage)
}

/// A failed attempt of the run on the key at `now`.
pub fn failed_attempt<T>(
    run_id: &ObservationRunId,
    key: ObservationKey,
    now: Timestamp,
    kind: ObservationFailureKind,
) -> (r: ObservationAttempt<T>)
    ensures
        r matches ObservationAttempt::Failed(failure) && failure.spec_kind() == kind,
        attempt_stamped(r, *run_id, key, now),
{
    ObservationAttempt::Failed(
        ObservationFailure::new(
            stamped_metadata(run_id, key, now, ObservationCoverage::Partial),
            kind,
        ),
    )
}

/// Records what an observation call returned at `now`: a success, a
/// failure, or the error that ends the run.
pub fn settle<T>(
    run_id: &ObservationRunId,
    key: ObservationKey,
    now: Timestamp,
    result: PortResult<T>,
) -> (r: Result<ObservationAttempt<T>, PortError>)
    ensures
        settled(result, r, *run_id, key, now),
{
    match result {
        Ok(value) => {
            let metadata = stamped_metadata(run_id, key, now, ObservationCoverage::Complete);
            Ok(ObservationAttempt::Succeeded(Observation::new(metadata, value)))
        },
        Err(error) => match observation_failure(error.kind()) {
            Ok(kind) => Ok(failed_attempt(run_id, key, now, kind)),
            Err(_) => Err(error),
        },
    }
}

/// A failure recorded without asking Git: a cancellation or an unreachable
/// subject.
/// A successful attempt covers its subject completely, a failed one partly.
pub open spec fn coverage_of<T>(attempt: ObservationAttempt<T>) -> ObservationCoverage {
    if attempt is Succeeded {
        ObservationCoverage::Complete
    } else {
        ObservationCoverage::Partial
    }
}

pub open spec fn unobserved<T>(attempt: ObservationAttempt<T>) -> bool {
    match attempt {
        ObservationAttempt::Failed(f) => f.spec_kind() == ObservationFailureKind::Cancelled
            || f.spec_kind() == ObservationFailureKind::SubjectUnavailable,
        ObservationAttempt::Succeeded(_) => false,
    }
}

/// What holds of an outcome, whatever the ports answered: it is of the
/// target's kind and carries the run and the target's key; a target with
/// no reachable path is never observed; an error that ends the run is one
/// that cannot be recorded as a failure.
pub open spec fn outcome_of_target(
    outcome: TargetOutcome,
    target: ObservationTarget,
    run_id: ObservationRunId,
) -> bool {
    match outcome {
        TargetOutcome::RepositoryRemotes(attempt) => {
            &&& target is RepositoryRemotes
            &&& attempt.spec_metadata().spec_run_id() == run_id
            &&& attempt.spec_metadata().spec_key() == target.spec_key()
            &&& attempt.spec_metadata().spec_coverage() == coverage_of(attempt)
            &&& target.spec_path() is None ==> unobserved(attempt)
        },
        TargetOutcome::Worktree(attempt) => {
            &&& target is Worktree
            &&& attempt.spec_metadata().spec_run_id() == run_id
            &&& attempt.spec_metadata().spec_key() == target.spec_key()
            &&& attempt.spec_metadata().spec_coverage() == coverage_of(attempt)
            &&& target.spec_path() is None ==> unobserved(attempt)
        },
        TargetOutcome::Fatal(error) => {
            &&& target.spec_path() is Some
            &&& recorded_failure(error.spec_kind()) is None
        },
    }
}

/// Whether some planned target carries the key.
pub open spec fn key_planned(key: ObservationKey, plan: Seq<ObservationTarget>) -> bool {
    exists|i: int| 0 <= i < plan.len() && (#[trigger] plan[i]).spec_key() == key
}

/// A run accounts for its plan: every planned target ended as exactly one
/// success or one failure, and every failure names a planned target.
pub open spec fn accounts_for(outcome: ObserveInventoryOutcome, plan: Seq<ObservationTarget>) -> bool {
    &&& outcome.spec_succeeded_count() + outcome.spec_failures().len() == plan.len()
    &&& forall|j: int|
        0 <= j < outcome.spec_failures().len() ==> key_planned(
            (#[trigger] outcome.spec_failures()[j]).spec_key(),
            plan,
        )
}

/// A plan extended by what is planned for one more repository, later in
/// identifier order, is still a plan.
proof fn lemma_plan_grows(
    plan: Seq<ObservationTarget>,
    repositories: Seq<Repository>,
    locations: Seq<Seq<Location>>,
    worktrees: Seq<Seq<Worktree>>,
    parts: Seq<Seq<ObservationTarget>>,
    repository: Repository,
    repository_locations: Seq<Location>,
    repository_worktrees: Seq<Worktree>,
    part: Seq<ObservationTarget>,
)
    requires
        plan_follows(plan, repositories, locations, worktrees, parts),
        keys_ascending(repositories.push(repository)),
        keys_ascending(repository_locations),
        keys_ascending(repository_worktrees),
        repository_planned(repository.spec_id(), repository_locations, repository_worktrees, part),
    ensures
        plan_follows(
            plan + part,
            repositories.push(repository),
            locations.push(repository_locations),
            worktrees.push(repository_worktrees),
            parts.push(part),
        ),
{
    let next_repositories = repositories.push(repository);
    let next_locations = locations.push(repository_locations);
    let next_worktrees = worktrees.push(repository_worktrees);
    let next_parts = parts.push(part);
    assert(next_parts.drop_last() =~= parts);
    assert(joined_parts(next_parts) == joined_parts(parts) + part);
    assert forall|k: int| 0 <= k < next_repositories.len() implies keys_ascending(
        #[trigger] next_locations[k],
    ) by {
        if k < repositories.len() {
            assert(next_locations[k] == locations[k]);
        }
    }
    assert forall|k: int| 0 <= k < next_repositories.len() implies keys_ascending(
        #[trigger] next_worktrees[k],
    ) by {
        if k < repositories.len() {
            assert(next_worktrees[k] == worktrees[k]);
        }
    }
    assert forall|k: int| 0 <= k < next_repositories.len() implies repository_planned(
        next_repositories[k].spec_id(),
        next_locations[k],
        next_worktrees[k],
        #[trigger] next_parts[k],
    ) by {
        if k < repositories.len() {
            assert(next_repositories[k] == repositories[k]);
            assert(next_locations[k] == locations[k]);
            assert(next_worktrees[k] == worktrees[k]);
            assert(next_parts[k] == parts[k]);
        } else {
            assert(next_parts[k] == part);
        }
    }
    assert(plan + part == joined_parts(next_parts));
    assert(next_repositories.len() == next_parts.len());
}

/// A run without an error that ends it has one success or one failure per
/// planned target, and each failure names a planned target.
proof fn lemma_outcomes_account_for_plan(
    plan: Seq<ObservationTarget>,
    run_id: ObservationRunId,
    outcomes: Seq<TargetOutcome>,
)
    requires
        ran(plan, run_id, outcomes),
        first_fatal(outcomes) is None,
    ensures
        successes(outcomes) + failure_entries(outcomes).len() == outcomes.len(),
        forall|j: int|
            0 <= j < failure_entries(outcomes).len() ==> key_planned(
                (#[trigger] failure_entries(outcomes)[j]).0,
                plan,
            ),
    decreases outcomes.len(),
{
    if outcomes.len() > 0 {
        let shorter = outcomes.drop_last();
        let shorter_plan = plan.drop_last();
        assert forall|i: int| 0 <= i < shorter_plan.len() implies outcome_of_target(
            #[trigger] shorter[i],
            shorter_plan[i],
            run_id,
        ) by {
            assert(shorter[i] == outcomes[i]);
            assert(shorter_plan[i] == plan[i]);
            assert(outcome_of_target(outcomes[i], plan[i], run_id));
        }
        lemma_outcomes_account_for_plan(shorter_plan, run_id, shorter);
        let last = outcomes.len() - 1;
        assert(outcome_of_target(outcomes[last], plan[last], run_id));
        assert forall|j: int|
            0 <= j < failure_entries(outcomes).len() implies key_planned(
            (#[trigger] failure_entries(outcomes)[j]).0,
            plan,
        ) by {
            if j < failure_entries(shorter).len() {
                assert(failure_entries(outcomes)[j] == failure_entries(shorter)[j]);
                assert(key_planned(failure_entries(shorter)[j].0, shorter_plan));
                let i = choose|i: int| 0 <= i < shorter_plan.len() && (#[trigger] shorter_plan[i]).spec_key()
                    == failure_entries(shorter)[j].0;
                assert(plan[i] == shorter_plan[i]);
            } else {
                assert(plan[last].spec_key() == failure_entries(outcomes)[j].0);
            }
        }
    }
}

/// The attempts of a prefix of the outcomes start the attempts of all of
/// them.
proof fn lemma_attempts_prefix(outcomes: Seq<TargetOutcome>, k: int)
    requires
        0 <= k <= outcomes.len(),
    ensures
        attempts_of(outcomes.take(k)).len() <= attempts_of(outcomes).len(),
        forall|i: int|
            0 <= i < attempts_of(outcomes.take(k)).len() ==> #[trigger] attempts_of(outcomes.take(k))[i]
                == attempts_of(outcomes)[i],
    decreases outcomes.len() - k,
{
    if k == outcomes.len() {
        assert(outcomes.take(k) =~= outcomes);
    } else {
        lemma_attempts_prefix(outcomes, k + 1);
        assert(outcomes.take(k + 1).drop_last() =~= outcomes.take(k));
        let shorter = attempts_of(outcomes.take(k));
        let longer = attempts_of(outcomes.take(k + 1));
        assert forall|i: int| 0 <= i < shorter.len() implies #[trigger] shorter[i]
            == attempts_of(outcomes)[i] by {
            assert(shorter[i] == longer[i]);
        }
    }
}

/// Saving the attempt of the next outcome extends the saves in order; a
/// failed save is the run's end, with the store's error.
proof fn lemma_saved_next(
    run_id: ObservationRunId,
    outcomes: Seq<TargetOutcome>,
    position: int,
    before: Seq<SaveCall>,
    call: SaveCall,
)
    requires
        0 <= position < outcomes.len(),
        !(outcomes[position] is Fatal),
        all_saved(before, attempts_of(outcomes.take(position))),
        call.attempt == outcomes[position],
    ensures
        call.answer is Ok ==> all_saved(before.push(call), attempts_of(outcomes.take(position + 1))),
        call.answer is Err ==> saved_in_order(
            run_id,
            outcomes,
            before.push(call),
            Err(call.answer->Err_0),
        ),
{
    let next = outcomes.take(position + 1);
    assert(next.drop_last() =~= outcomes.take(position));
    assert(next.last() == outcomes[position]);
    assert(attempts_of(next) == attempts_of(outcomes.take(position)).push(outcomes[position]));
    lemma_attempts_prefix(outcomes, position + 1);
    let saves = before.push(call);
    assert forall|i: int| 0 <= i < saves.len() implies (#[trigger] saves[i]).attempt
        == attempts_of(next)[i] by {
        if i < before.len() {
            assert(saves[i] == before[i]);
        }
    }
}

/// A successful run's outcome accounts for the plan it observed.
proof fn lemma_run_accounts_for_plan(
    plan: Seq<ObservationTarget>,
    outcomes: Seq<TargetOutcome>,
    run_id: ObservationRunId,
    outcome: ObserveInventoryOutcome,
)
    requires
        ran(plan, run_id, outcomes),
        outcomes.len() <= usize::MAX,
        summarized(run_id, outcomes, Ok(outcome)),
    ensures
        accounts_for(outcome, plan),
        outcome.spec_succeeded_count() + outcome.spec_failures().len() <= usize::MAX,
{
    lemma_outcomes_account_for_plan(plan, run_id, outcomes);
    assert forall|j: int| 0 <= j < outcome.spec_failures().len() implies key_planned(
        (#[trigger] outcome.spec_failures()[j]).spec_key(),
        plan,
    ) by {
        assert(failure_view(outcome.spec_failures())[j] == failure_entries(outcomes)[j]);
    }
}

/// What observing a target was answered: whether the run was cancelled when
/// the target's turn came, else, for a target with a reachable path, what
/// Git answered for that path; and the time the attempt was stamped with.
pub enum TargetAnswers {
    Cancelled { now: Timestamp },
    Unreachable { now: Timestamp },
    Remotes { path: FsPath, answer: PortResult<Vec<Remote>>, now: Timestamp },
    WorktreeState { path: FsPath, answer: PortResult<WorktreeGitState>, now: Timestamp },
}

/// The outcome is a failed attempt of the target's kind, of this kind of
/// failure, stamped for the run at `now`.
pub open spec fn failed_as(
    outcome: TargetOutcome,
    target: ObservationTarget,
    kind: ObservationFailureKind,
    run_id: ObservationRunId,
    now: Timestamp,
) -> bool {
    match outcome {
        TargetOutcome::RepositoryRemotes(attempt) => {
            &&& target is RepositoryRemotes
            &&& attempt matches ObservationAttempt::Failed(failure) && failure.spec_kind() == kind
            &&& attempt_stamped(attempt, run_id, target.spec_key(), now)
        },
        TargetOutcome::Worktree(attempt) => {
            &&& target is Worktree
            &&& attempt matches ObservationAttempt::Failed(failure) && failure.spec_kind() == kind
            &&& attempt_stamped(attempt, run_id, target.spec_key(), now)
        },
        TargetOutcome::Fatal(_) => false,
    }
}

/// What observing a target came to, given what it was answered: a
/// cancelled run records a cancellation and asks Git nothing; a target
/// with no reachable path records an unavailable subject; otherwise Git is
/// asked once, for the target's path, and the outcome is what `settled`
/// makes of its answer.
pub open spec fn target_observed(
    target: ObservationTarget,
    run_id: ObservationRunId,
    answers: TargetAnswers,
    outcome: TargetOutcome,
) -> bool {
    match answers {
        TargetAnswers::Cancelled { now } => failed_as(
            outcome,
            target,
            ObservationFailureKind::Cancelled,
            run_id,
            now,
        ),
        TargetAnswers::Unreachable { now } => {
            &&& target.spec_path() is None
            &&& failed_as(outcome, target, ObservationFailureKind::SubjectUnavailable, run_id, now)
        },
        TargetAnswers::Remotes { path, answer, now } => {
            &&& target is RepositoryRemotes
            &&& target.spec_path() == Some(path@)
            &&& match outcome {
                TargetOutcome::RepositoryRemotes(attempt) => settled(
                    answer,
                    Ok(attempt),
                    run_id,
                    target.spec_key(),
                    now,
                ),
                TargetOutcome::Fatal(error) => settled(answer, Err(error), run_id, target.spec_key(), now),
                _ => false,
            }
        },
        TargetAnswers::WorktreeState { path, answer, now } => {
            &&& target is Worktree
            &&& target.spec_path() == Some(path@)
            &&& match outcome {
                TargetOutcome::Worktree(attempt) => settled(
                    answer,
                    Ok(attempt),
                    run_id,
                    target.spec_key(),
                    now,
                ),
                TargetOutcome::Fatal(error) => settled(answer, Err(error), run_id, target.spec_key(), now),
                _ => false,
            }
        },
    }
}

/// Observes one target: a cancelled run records a cancellation, a target
/// with no reachable path records an unavailable subject, otherwise Git is
/// asked and its answer settled. The second part of the result is what the
/// ports answered.
pub fn execute_target<G: GitObservationPort + ?Sized, K: ClockPort + ?Sized, X: CancellationPort + ?Sized>(
    target: &ObservationTarget,
    run_id: &ObservationRunId,
    git: &G,
    clock: &K,
    cancellation: &X,
) -> (r: (TargetOutcome, Ghost<TargetAnswers>))
    ensures
        outcome_of_target(r.0, *target, *run_id),
        target_observed(*target, *run_id, r.1@, r.0),
{
    match target {
        ObservationTarget::RepositoryRemotes { repository_id, path } => {
            let key = ObservationKey::repository_remotes(repository_id.duplicate());
            if cancellation.is_cancelled() {
                let now = clock.now();
                return (
                    TargetOutcome::RepositoryRemotes(
                        failed_attempt(run_id, key, now, ObservationFailureKind::Cancelled),
                    ),
                    Ghost(TargetAnswers::Cancelled { now }),
                );
            }
            match path {
                None => {
                    let now = clock.now();
                    (
                        TargetOutcome::RepositoryRemotes(
                            failed_attempt(run_id, key, now, ObservationFailureKind::SubjectUnavailable),
                        ),
                        Ghost(TargetAnswers::Unreachable { now }),
                    )
                },
                Some(path) => {
                    let result = git.observe_repository_remotes(path);
                    let now = clock.now();
                    let ghost answered = TargetAnswers::Remotes { path: *path, answer: result, now };
                    match settle(run_id, key, now, result) {
                        Ok(attempt) => (TargetOutcome::RepositoryRemotes(attempt), Ghost(answered)),
                        Err(error) => (TargetOutcome::Fatal(error), Ghost(answered)),
                    }
                },
            }
        },
        ObservationTarget::Worktree { worktree_id, path } => {
            let key = ObservationKey::worktree_git_state(worktree_id.duplicate());
            if cancellation.is_cancelled() {
                let now = clock.now();
                return (
                    TargetOutcome::Worktree(
                        failed_attempt(run_id, key, now, ObservationFailureKind::Cancelled),
                    ),
                    Ghost(TargetAnswers::Cancelled { now }),
                );
            }
            match path {
                None => {
                    let now = clock.now();
                    (
                        TargetOutcome::Worktree(
                            failed_attempt(run_id, key, now, ObservationFailureKind::SubjectUnavailable),
                        ),
                        Ghost(TargetAnswers::Unreachable { now }),
                    )
                },
                Some(path) => {
                    let result = git.observe_worktree(path);
                    let now = clock.now();
                    let ghost answered = TargetAnswers::WorktreeState { path: *path, answer: result, now };
                    match settle(run_id, key, now, result) {
                        Ok(attempt) => (TargetOutcome::Worktree(attempt), Ghost(answered)),
                        Err(error) => (TargetOutcome::Fatal(error), Ghost(answered)),
                    }
                },
            }
        },
    }
}

/// Whether an outcome is a successful attempt.
pub open spec fn is_success(outcome: TargetOutcome) -> bool {
    ||| outcome matches TargetOutcome::RepositoryRemotes(ObservationAttempt::Succeeded(_))
    ||| outcome matches TargetOutcome::Worktree(ObservationAttempt::Succeeded(_))
}

/// The subject and reason an outcome records as a failure, if it is a failed
/// attempt.
pub open spec fn recorded_entry(outcome: TargetOutcome) -> Option<(ObservationKey, ObservationFailureKind)> {
    match outcome {
        TargetOutcome::RepositoryRemotes(ObservationAttempt::Failed(failure)) => Some(
            (failure.spec_metadata().spec_key(), failure.spec_kind()),
        ),
        TargetOutcome::Worktree(ObservationAttempt::Failed(failure)) => Some(
            (failure.spec_metadata().spec_key(), failure.spec_kind()),
        ),
        _ => None,
    }
}

/// How many outcomes are successful attempts.
pub open spec fn successes(outcomes: Seq<TargetOutcome>) -> nat
    decreases outcomes.len(),
{
    if outcomes.len() == 0 {
        0
    } else {
        successes(outcomes.drop_last()) + if is_success(outcomes.last()) {
            1nat
        } else {
            0nat
        }
    }
}

/// The failures the outcomes record, in order.
pub open spec fn failure_entries(outcomes: Seq<TargetOutcome>) -> Seq<(ObservationKey, ObservationFailureKind)>
    decreases outcomes.len(),
{
    if outcomes.len() == 0 {
        Seq::empty()
    } else {
        match recorded_entry(outcomes.last()) {
            Some(entry) => failure_entries(outcomes.drop_last()).push(entry),
            None => failure_entries(outcomes.drop_last()),
        }
    }
}

/// The attempts among the outcomes, in order: every outcome but an error
/// that ends the run.
pub open spec fn attempts_of(outcomes: Seq<TargetOutcome>) -> Seq<TargetOutcome>
    decreases outcomes.len(),
{
    if outcomes.len() == 0 {
        Seq::empty()
    } else if outcomes.last() is Fatal {
        attempts_of(outcomes.drop_last())
    } else {
        attempts_of(outcomes.drop_last()).push(outcomes.last())
    }
}

/// The first error that ends the run, in order.
pub open spec fn first_fatal(outcomes: Seq<TargetOutcome>) -> Option<PortError>
    decreases outcomes.len(),
{
    if outcomes.len() == 0 {
        None
    } else {
        match first_fatal(outcomes.drop_last()) {
            Some(error) => Some(error),
            None => match outcomes.last() {
                TargetOutcome::Fatal(error) => Some(error),
                _ => None,
            },
        }
    }
}

/// The subject and reason of each failure.
pub open spec fn failure_view(failures: Seq<ObservationTargetFailure>) -> Seq<(ObservationKey, ObservationFailureKind)> {
    failures.map_values(|failure: ObservationTargetFailure| (failure.spec_key(), failure.spec_kind()))
}

/// What a run reports of its outcomes: the first error that ends the run,
/// or the run with its successes counted and its failures in order.
pub open spec fn summarized(
    run_id: ObservationRunId,
    outcomes: Seq<TargetOutcome>,
    r: PortResult<ObserveInventoryOutcome>,
) -> bool {
    match first_fatal(outcomes) {
        Some(error) => r == Err::<ObserveInventoryOutcome, PortError>(error),
        None => {
            &&& r matches Ok(outcome)
            &&& r->Ok_0.spec_run_id() == run_id
            &&& r->Ok_0.spec_succeeded_count() == successes(outcomes)
            &&& failure_view(r->Ok_0.spec_failures()) == failure_entries(outcomes)
        },
    }
}

/// What observing each target of a plan came to, target by target.
pub open spec fn ran(plan: Seq<ObservationTarget>, run_id: ObservationRunId, outcomes: Seq<TargetOutcome>) -> bool {
    &&& outcomes.len() == plan.len()
    &&& forall|i: int| 0 <= i < plan.len() ==> outcome_of_target(#[trigger] outcomes[i], plan[i], run_id)
}

/// What observing each target was answered, target by target.
pub open spec fn answered(
    plan: Seq<ObservationTarget>,
    run_id: ObservationRunId,
    outcomes: Seq<TargetOutcome>,
    answers: Seq<TargetAnswers>,
) -> bool {
    &&& answers.len() == plan.len()
    &&& outcomes.len() == plan.len()
    &&& forall|i: int|
        0 <= i < plan.len() ==> target_observed(plan[i], run_id, #[trigger] answers[i], outcomes[i])
}

/// One attempt handed to its store, with the store's answer.
pub struct SaveCall {
    pub attempt: TargetOutcome,
    pub answer: PortResult<()>,
}

/// The error the last save answered with, if it failed.
pub open spec fn save_failure(saves: Seq<SaveCall>) -> Option<PortError> {
    if saves.len() == 0 {
        None
    } else {
        match saves.last().answer {
            Err(error) => Some(error),
            Ok(_) => None,
        }
    }
}

/// The attempts are saved in order, each exactly as it came out; a failed
/// save ends the run with the store's error; only once every attempt was
/// saved is the run summarized, with its first error that ends the run, or
/// its counts and failures.
pub open spec fn saved_in_order(
    run_id: ObservationRunId,
    outcomes: Seq<TargetOutcome>,
    saves: Seq<SaveCall>,
    r: PortResult<ObserveInventoryOutcome>,
) -> bool {
    &&& saves.len() <= attempts_of(outcomes).len()
    &&& forall|i: int| 0 <= i < saves.len() ==> (#[trigger] saves[i]).attempt == attempts_of(outcomes)[i]
    &&& forall|i: int| 0 <= i < saves.len() - 1 ==> (#[trigger] saves[i]).answer is Ok
    &&& match save_failure(saves) {
        Some(error) => r == Err::<ObserveInventoryOutcome, PortError>(error),
        None => {
            &&& saves.len() == attempts_of(outcomes).len()
            &&& summarized(run_id, outcomes, r)
        },
    }
}

/// What one run planned, its identity, what each target came to and what
/// observing it was answered.
pub struct ObservationRunRecord {
    pub plan: Seq<ObservationTarget>,
    pub run_id: ObservationRunId,
    pub outcomes: Seq<TargetOutcome>,
    pub answers: Seq<TargetAnswers>,
}

/// Every attempt was handed to its store, in order, and saved.
pub open spec fn all_saved(saves: Seq<SaveCall>, attempts: Seq<TargetOutcome>) -> bool {
    &&& saves.len() == attempts.len()
    &&& forall|i: int|
        0 <= i < saves.len() ==> (#[trigger] saves[i]).attempt == attempts[i] && saves[i].answer is Ok
}

/// What a run did and returned. Planning is reported as
/// `planning_reported` says of the catalog's answers; a planning failure is
/// returned as it came, and so is a failure of the identity generator to
/// give the run an identity, and nothing is then saved. Otherwise the run
/// observed the plan of the catalog's answers under the identity the
/// generator gave, each target as answered, and saved and reported its
/// attempts as `saved_in_order` says.
pub open spec fn run_reported(
    reads: CatalogReads,
    run_id_answer: Option<PortResult<ObservationRunId>>,
    run: Option<ObservationRunRecord>,
    saves: Seq<SaveCall>,
    r: PortResult<ObserveInventoryOutcome>,
) -> bool {
    match run {
        None => {
            &&& saves.len() == 0
            &&& r is Err
            &&& match run_id_answer {
                None => plan_refused(reads, r->Err_0),
                Some(Err(error)) => {
                    &&& r == Err::<ObserveInventoryOutcome, PortError>(error)
                    &&& exists|plan: Seq<ObservationTarget>| #[trigger] plan_of_reads(plan, reads)
                },
                Some(Ok(_)) => false,
            }
        },
        Some(run) => {
            &&& plan_of_reads(run.plan, reads)
            &&& run_id_answer == Some(Ok::<ObservationRunId, PortError>(run.run_id))
            &&& ran(run.plan, run.run_id, run.outcomes)
            &&& answered(run.plan, run.run_id, run.outcomes, run.answers)
            &&& saved_in_order(run.run_id, run.outcomes, saves, r)
        },
    }
}

/// Counts the successes of a run and keeps its failures in order; the
/// first error that ends the run is returned instead, once all are read.
pub fn summarize(run_id: ObservationRunId, outcomes: &[TargetOutcome]) -> (r: PortResult<ObserveInventoryOutcome>)
    ensures
        summarized(run_id, outcomes@, r),
{
    let mut succeeded_count: usize = 0;
    let mut failures: Vec<ObservationTargetFailure> = Vec::new();
    let mut deferred: Option<PortError> = None;
    let mut index: usize = 0;
    proof {
        assert(outcomes@.take(0) =~= Seq::<TargetOutcome>::empty());
    }
    while index < outcomes.len()
        invariant
            index <= outcomes@.len(),
            succeeded_count + failures@.len() <= index,
            succeeded_count == successes(outcomes@.take(index as int)),
            failure_view(failures@) == failure_entries(outcomes@.take(index as int)),
            deferred == first_fatal(outcomes@.take(index as int)),
        decreases outcomes@.len() - index,
    {
        let ghost before = failures@;
        let ghost prefix = outcomes@.take(index as int);
        let ghost next = outcomes@.take(index + 1);
        proof {
            assert(next.drop_last() =~= prefix);
            assert(next.last() == outcomes@[index as int]);
        }
        match &outcomes[index] {
            TargetOutcome::Worktree(attempt) => {
                record_attempt(attempt, &mut succeeded_count, &mut failures);
            },
            TargetOutcome::RepositoryRemotes(attempt) => {
                record_attempt(attempt, &mut succeeded_count, &mut failures);
            },
            TargetOutcome::Fatal(error) => {
                if deferred.is_none() {
                    deferred = Some(*error);
                }
            },
        }
        proof {
            if failures@.len() > before.len() {
                assert(failures@ == before.push(failures@.last()));
                assert(failure_view(failures@) =~= failure_view(before).push(
                    (failures@.last().spec_key(), failures@.last().spec_kind()),
                ));
            } else {
                assert(failures@ =~= before);
            }
        }
        index = index + 1;
    }
    proof {
        assert(outcomes@.take(outcomes@.len() as int) =~= outcomes@);
    }
    match deferred {
        Some(error) => Err(error),
        None => Ok(ObserveInventoryOutcome::new(run_id, succeeded_count, failures)),
    }
}

/// Counts a success, or keeps the subject and reason of a failure.
pub fn record_attempt<T>(
    attempt: &ObservationAttempt<T>,
    succeeded_count: &mut usize,
    failures: &mut Vec<ObservationTargetFailure>,
)
    requires
        *old(succeeded_count) < usize::MAX,
    ensures
        match attempt {
            ObservationAttempt::Succeeded(_) => {
                &&& *final(succeeded_count) == *old(succeeded_count) + 1
                &&& final(failures)@ == old(failures)@
            },
            ObservationAttempt::Failed(failure) => {
                &&& *final(succeeded_count) == *old(succeeded_count)
                &&& final(failures)@.len() == old(failures)@.len() + 1
                &&& final(failures)@.drop_last() == old(failures)@
                &&& final(failures)@.last().spec_key() == failure.spec_metadata().spec_key()
                &&& final(failures)@.last().spec_kind() == failure.spec_kind()
            },
        },
{
    match attempt {
        ObservationAttempt::Succeeded(_) => {
            *succeeded_count = *succeeded_count + 1;
        },
        ObservationAttempt::Failed(failure) => {
            failures.push(ObservationTargetFailure::from_failure(failure));
            proof {
                assert(failures@.drop_last() =~= old(failures)@);
            }
        },
    }
}


/// Observes every repository's remotes and every worktree's Git state of the
/// catalog in one run, and records each attempt.
pub struct ObserveInventory<
    'a,
    C: RepositoryCatalogPort + ?Sized,
    G: GitObservationPort + ?Sized,
    K: ClockPort + ?Sized,
    X: CancellationPort + ?Sized,
    I: IdentityGeneratorPort + ?Sized,
    WS: ObservationStorePort<Value = WorktreeGitState> + ?Sized,
    RS: ObservationStorePort<Value = Vec<Remote>> + ?Sized,
> {
    catalog: &'a C,
    git: &'a G,
    clock: &'a K,
    cancellation: &'a X,
    identities: &'a mut I,
    worktree_store: &'a mut WS,
    repository_store: &'a mut RS,
    reads: Ghost<CatalogReads>,
    run_id_answer: Ghost<Option<PortResult<ObservationRunId>>>,
    last_run: Ghost<Option<ObservationRunRecord>>,
    saves: Ghost<Seq<SaveCall>>,
}

impl<
    'a,
    C: RepositoryCatalogPort + ?Sized,
    G: GitObservationPort + ?Sized,
    K: ClockPort + ?Sized,
    X: CancellationPort + ?Sized,
    I: IdentityGeneratorPort + ?Sized,
    WS: ObservationStorePort<Value = WorktreeGitState> + ?Sized,
    RS: ObservationStorePort<Value = Vec<Remote>> + ?Sized,
> ObserveInventory<'a, C, G, K, X, I, WS, RS> {
    /// The plan, identity and outcomes of the latest run that got as far as
    /// observing its targets.
    pub closed spec fn spec_last_run(&self) -> Option<ObservationRunRecord> {
        self.last_run@
    }

    /// What the catalog answered while the latest run was planned.
    pub closed spec fn spec_catalog_reads(&self) -> CatalogReads {
        self.reads@
    }

    /// What the identity generator answered when asked for the latest run's
    /// identity, if it was asked.
    pub closed spec fn spec_run_id_answer(&self) -> Option<PortResult<ObservationRunId>> {
        self.run_id_answer@
    }

    /// The attempts the latest run handed to the stores, in order, with the
    /// stores' answers.
    pub closed spec fn spec_saves(&self) -> Seq<SaveCall> {
        self.saves@
    }

    /// Whether the run reads through exactly these ports.
    pub closed spec fn reads_through(&self, catalog: &'a C, git: &'a G, clock: &'a K, cancellation: &'a X) -> bool {
        &&& self.catalog == catalog
        &&& self.git == git
        &&& self.clock == clock
        &&& self.cancellation == cancellation
    }

    pub fn new(
        catalog: &'a C,
        git: &'a G,
        clock: &'a K,
        cancellation: &'a X,
        identities: &'a mut I,
        worktree_store: &'a mut WS,
        repository_store: &'a mut RS,
    ) -> (r: Self)
        ensures
            r.reads_through(catalog, git, clock, cancellation),
            r.spec_last_run() is None,
            r.spec_catalog_reads() == no_reads(),
            r.spec_run_id_answer() is None,
            r.spec_saves() == Seq::<SaveCall>::empty(),
    {
        ObserveInventory {
            catalog,
            git,
            clock,
            cancellation,
            identities,
            worktree_store,
            repository_store,
            reads: Ghost(no_reads()),
            run_id_answer: Ghost(None),
            last_run: Ghost(None),
            saves: Ghost(Seq::empty()),
        }
    }

    /// Plans the targets: repositories in identifier order, each with its
    /// remotes first and then its worktrees in identifier order. What the
    /// catalog answers is recorded as it comes.
    fn targets(&mut self) -> (r: PortResult<Vec<ObservationTarget>>)
        ensures
            final(self).spec_run_id_answer() == old(self).spec_run_id_answer(),
            final(self).spec_last_run() == old(self).spec_last_run(),
            final(self).spec_saves() == old(self).spec_saves(),
            planning_reported(final(self).spec_catalog_reads(), r),
    {
        self.reads = Ghost(no_reads());
        let found = match self.catalog.repositories() {
            Ok(found) => found,
            Err(error) => {
                self.reads = Ghost(
                    CatalogReads {
                        repositories: None,
                        locations: Seq::empty(),
                        worktrees: Seq::empty(),
                        failure: Some(error),
                    },
                );
                return Err(error);
            },
        };
        let ghost found_view = found@;
        self.reads = Ghost(
            CatalogReads {
                repositories: Some(found_view),
                locations: Seq::empty(),
                worktrees: Seq::empty(),
                failure: None,
            },
        );
        let repositories = sort_by_text_key(found);
        proof {
            lemma_sort_by_key_ascending(found_view);
        }
        let mut targets: Vec<ObservationTarget> = Vec::new();
        let ghost mut all_locations: Seq<Seq<Location>> = Seq::empty();
        let ghost mut all_worktrees: Seq<Seq<Worktree>> = Seq::empty();
        let ghost mut parts: Seq<Seq<ObservationTarget>> = Seq::empty();
        let mut index: usize = 0;
        while index < repositories.len()
            invariant
                index <= repositories@.len(),
                repositories@ == sort_by_key(found_view),
                keys_ascending(repositories@),
                plan_follows(
                    targets@,
                    repositories@.take(index as int),
                    all_locations,
                    all_worktrees,
                    parts,
                ),
                self.reads@.repositories == Some(found_view),
                self.reads@.failure is None,
                self.reads@.locations.len() == index,
                self.reads@.worktrees.len() == index,
                all_locations == sorted_lists(self.reads@.locations),
                all_worktrees == sorted_lists(self.reads@.worktrees),
                forall|k: int|
                    0 <= k < index ==> lists_fit(
                        repositories@[k].spec_id(),
                        sort_by_key(#[trigger] self.reads@.locations[k]),
                        sort_by_key(self.reads@.worktrees[k]),
                    ),
                self.run_id_answer@ == old(self).run_id_answer@,
                self.last_run@ == old(self).last_run@,
                self.saves@ == old(self).saves@,
            decreases repositories@.len() - index,
        {
            let repository_id = repositories[index].id();
            let ghost read_before = self.reads@;
            let found_locations = match self.catalog.locations_for_repository(repository_id) {
                Ok(found_locations) => found_locations,
                Err(error) => {
                    self.reads = Ghost(
                        CatalogReads {
                            repositories: read_before.repositories,
                            locations: read_before.locations,
                            worktrees: read_before.worktrees,
                            failure: Some(error),
                        },
                    );
                    return Err(error);
                },
            };
            let ghost found_locations_view = found_locations@;
            self.reads = Ghost(
                CatalogReads {
                    repositories: read_before.repositories,
                    locations: read_before.locations.push(found_locations_view),
                    worktrees: read_before.worktrees,
                    failure: None,
                },
            );
            let locations = sort_by_text_key(found_locations);
            proof {
                lemma_sort_by_key_ascending(found_locations_view);
                assert(self.reads@.locations[index as int] == found_locations_view);
                assert forall|k: int| 0 <= k < index implies self.reads@.locations[k]
                    == read_before.locations[k] by {}
            }
            let remotes = match remotes_target(repository_id, locations.as_slice()) {
                Ok(remotes) => remotes,
                Err(error) => {
                    return Err(error);
                },
            };
            let ghost before = targets@;
            targets.push(remotes);
            let ghost read_locations = self.reads@;
            let found_worktrees = match self.catalog.worktrees_for_repository(repository_id) {
                Ok(found_worktrees) => found_worktrees,
                Err(error) => {
                    self.reads = Ghost(
                        CatalogReads {
                            repositories: read_locations.repositories,
                            locations: read_locations.locations,
                            worktrees: read_locations.worktrees,
                            failure: Some(error),
                        },
                    );
                    return Err(error);
                },
            };
            let ghost found_worktrees_view = found_worktrees@;
            self.reads = Ghost(
                CatalogReads {
                    repositories: read_locations.repositories,
                    locations: read_locations.locations,
                    worktrees: read_locations.worktrees.push(found_worktrees_view),
                    failure: None,
                },
            );
            let worktrees = sort_by_text_key(found_worktrees);
            proof {
                lemma_sort_by_key_ascending(found_worktrees_view);
                assert(self.reads@.worktrees[index as int] == found_worktrees_view);
            }
            let mut planned = match worktree_targets(
                repository_id,
                locations.as_slice(),
                worktrees.as_slice(),
            ) {
                Ok(planned) => planned,
                Err(error) => {
                    return Err(error);
                },
            };
            let ghost planned_view = planned@;
            let ghost part = seq![remotes] + planned_view;
            targets.append(&mut planned);
            proof {
                assert(part.drop_first() =~= planned_view);
                assert(targets@ =~= before + part);
                let taken = repositories@.take(index as int + 1);
                assert(taken =~= repositories@.take(index as int).push(repositories@[index as int]));
                assert forall|i: int, j: int|
                    0 <= i < j < taken.len() implies !crate::collation::text_precedes(
                    #[trigger] taken[j].text_key(),
                    #[trigger] taken[i].text_key(),
                ) by {
                    assert(taken[i] == repositories@[i]);
                    assert(taken[j] == repositories@[j]);
                }
                lemma_plan_grows(
                    before,
                    repositories@.take(index as int),
                    all_locations,
                    all_worktrees,
                    parts,
                    repositories@[index as int],
                    locations@,
                    worktrees@,
                    part,
                );
                all_locations = all_locations.push(locations@);
                all_worktrees = all_worktrees.push(worktrees@);
                parts = parts.push(part);
                assert(all_locations =~= sorted_lists(self.reads@.locations));
                assert(all_worktrees =~= sorted_lists(self.reads@.worktrees));
                assert forall|k: int| 0 <= k < index + 1 implies lists_fit(
                    repositories@[k].spec_id(),
                    sort_by_key(#[trigger] self.reads@.locations[k]),
                    sort_by_key(self.reads@.worktrees[k]),
                ) by {
                    if k < index {
                        assert(self.reads@.locations[k] == read_before.locations[k]);
                        assert(self.reads@.worktrees[k] == read_before.worktrees[k]);
                    }
                }
            }
            index = index + 1;
        }
        proof {
            assert(repositories@.take(repositories@.len() as int) =~= repositories@);
            assert(plan_follows(targets@, repositories@, all_locations, all_worktrees, parts));
        }
        Ok(targets)
    }

    /// Runs the observation. Targets are observed one after another, which
    /// stays within any parallelism the policy allows. Each attempt is saved
    /// in plan order, and a failed save ends the run with the store's error;
    /// the first error that cannot be recorded as a failure is returned once
    /// every attempt has been saved, else the run's successes and failures.
    pub fn execute(&mut self, _policy: ObservationExecutionPolicy) -> (r: PortResult<
        ObserveInventoryOutcome,
    >)
        ensures
            run_reported(
                final(self).spec_catalog_reads(),
                final(self).spec_run_id_answer(),
                final(self).spec_last_run(),
                final(self).spec_saves(),
                r,
            ),
            r matches Ok(outcome) ==> accounts_for(outcome, final(self).spec_last_run()->0.plan),
            r matches Ok(outcome) ==> outcome.spec_succeeded_count()
                + outcome.spec_failures().len() <= usize::MAX,
    {
        self.last_run = Ghost(None);
        self.saves = Ghost(Seq::empty());
        self.run_id_answer = Ghost(None);
        let targets = match self.targets() {
            Ok(targets) => targets,
            Err(error) => {
                return Err(error);
            },
        };
        let answer = self.identities.next_observation_run_id();
        self.run_id_answer = Ghost(Some(answer));
        let run_id = match answer {
            Ok(run_id) => run_id,
            Err(error) => {
                return Err(error);
            },
        };
        let mut outcomes: Vec<TargetOutcome> = Vec::new();
        let ghost mut answers: Seq<TargetAnswers> = Seq::empty();
        let mut index: usize = 0;
        while index < targets.len()
            invariant
                index <= targets@.len(),
                outcomes@.len() == index,
                answers.len() == index,
                forall|i: int|
                    0 <= i < index ==> outcome_of_target(
                        #[trigger] outcomes@[i],
                        targets@[i],
                        run_id,
                    ),
                forall|i: int|
                    0 <= i < index ==> target_observed(
                        targets@[i],
                        run_id,
                        #[trigger] answers[i],
                        outcomes@[i],
                    ),
            decreases targets@.len() - index,
        {
            let (outcome, Ghost(answer)) = execute_target(
                &targets[index],
                &run_id,
                self.git,
                self.clock,
                self.cancellation,
            );
            outcomes.push(outcome);
            proof {
                answers = answers.push(answer);
            }
            index = index + 1;
        }
        self.last_run = Ghost(
            Some(ObservationRunRecord { plan: targets@, run_id, outcomes: outcomes@, answers }),
        );
        let mut position: usize = 0;
        proof {
            assert(outcomes@.take(0) =~= Seq::<TargetOutcome>::empty());
        }
        while position < outcomes.len()
            invariant
                position <= outcomes@.len(),
                self.last_run@ == Some(
                    ObservationRunRecord { plan: targets@, run_id, outcomes: outcomes@, answers },
                ),
                all_saved(self.saves@, attempts_of(outcomes@.take(position as int))),
                plan_of_reads(targets@, self.reads@),
                self.run_id_answer@ == Some(Ok::<ObservationRunId, PortError>(run_id)),
                ran(targets@, run_id, outcomes@),
                answered(targets@, run_id, outcomes@, answers),
            decreases outcomes@.len() - position,
        {
            let ghost prefix = outcomes@.take(position as int);
            let ghost next = outcomes@.take(position + 1);
            let ghost before = self.saves@;
            proof {
                assert(next.drop_last() =~= prefix);
                assert(next.last() == outcomes@[position as int]);
                lemma_attempts_prefix(outcomes@, position + 1);
            }
            match &outcomes[position] {
                TargetOutcome::Worktree(attempt) => {
                    let answer = self.worktree_store.save_attempt(attempt);
                    let ghost call = SaveCall { attempt: outcomes@[position as int], answer };
                    self.saves = Ghost(self.saves@.push(call));
                    proof {
                        lemma_saved_next(run_id, outcomes@, position as int, before, call);
                    }
                    match answer {
                        Ok(()) => {},
                        Err(error) => {
                            return Err(error);
                        },
                    }
                },
                TargetOutcome::RepositoryRemotes(attempt) => {
                    let answer = self.repository_store.save_attempt(attempt);
                    let ghost call = SaveCall { attempt: outcomes@[position as int], answer };
                    self.saves = Ghost(self.saves@.push(call));
                    proof {
                        lemma_saved_next(run_id, outcomes@, position as int, before, call);
                    }
                    match answer {
                        Ok(()) => {},
                        Err(error) => {
                            return Err(error);
                        },
                    }
                },
                TargetOutcome::Fatal(_) => {},
            }
            position = position + 1;
        }
        proof {
            assert(outcomes@.take(outcomes@.len() as int) =~= outcomes@);
        }
        let ghost observed = outcomes@;
        let r = summarize(run_id, outcomes.as_slice());
        proof {
            if r is Ok {
                lemma_run_accounts_for_plan(targets@, observed, r->Ok_0.spec_run_id(), r->Ok_0);
            }
        }
        r
    }
}

/// No failure was a cancellation exactly when the count of cancelled
/// failures is zero.
proof fn lemma_no_cancelled_failure(failures: Seq<ObservationTargetFailure>)
    ensures
        cancelled_failures(failures) == 0 <==> forall|j: int|
            0 <= j < failures.len() ==> #[trigger] failures[j].spec_kind()
                != ObservationFailureKind::Cancelled,
    decreases failures.len(),
{
    if failures.len() > 0 {
        let rest = failures.drop_last();
        let last = failures.last();
        lemma_no_cancelled_failure(rest);
        assert forall|j: int| 0 <= j < rest.len() implies #[trigger] rest[j] == failures[j] by {}
        if cancelled_failures(failures) == 0 {
            assert forall|j: int| 0 <= j < failures.len() implies #[trigger] failures[j].spec_kind()
                != ObservationFailureKind::Cancelled by {
                if j < rest.len() {
                    assert(rest[j] == failures[j]);
                } else {
                    assert(failures[j] == last);
                }
            }
        } else if cancelled_failures(rest) != 0 {
            let j = choose|j: int|
                0 <= j < rest.len() && #[trigger] rest[j].spec_kind()
                    == ObservationFailureKind::Cancelled;
            assert(failures[j] == rest[j]);
        } else {
            assert(failures[failures.len() - 1] == last);
        }
    }
}

/// A refresh is cancelled when any target was cancelled. Without a
/// cancellation it is complete when no target failed, failed when targets
/// failed and none succeeded, and partial when some targets failed and at
/// least one succeeded.
pub proof fn law_refresh_completion(outcome: ObserveInventoryOutcome)
    ensures
        (exists|j: int|
            0 <= j < outcome.spec_failures().len() && #[trigger] outcome.spec_failures()[j].spec_kind()
                == ObservationFailureKind::Cancelled) ==> outcome.spec_completion()
            == OperationCompletion::Cancelled,
        (forall|j: int|
            0 <= j < outcome.spec_failures().len() ==> #[trigger] outcome.spec_failures()[j].spec_kind()
                != ObservationFailureKind::Cancelled) ==> {
            &&& outcome.spec_failures().len() == 0 ==> outcome.spec_completion()
                == OperationCompletion::Complete
            &&& outcome.spec_failures().len() > 0 && outcome.spec_succeeded_count() == 0
                ==> outcome.spec_completion() == OperationCompletion::Failed
            &&& outcome.spec_failures().len() > 0 && outcome.spec_succeeded_count() > 0
                ==> outcome.spec_completion() == OperationCompletion::Partial
        },
{
    lemma_no_cancelled_failure(outcome.spec_failures());
}

} // verus!
