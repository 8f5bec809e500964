use vstd::prelude::*;

use crate::identity::{LocationId, RepositoryId, WorktreeId};
use crate::operation::OperationCompletion;
use crate::path::{is_absolute_path, FsPath};
use crate::ports::{
    CatalogMissingScope, CatalogReconciliation, CatalogReconciliationCoverage,
    DiscoveryCompleteness, DiscoveryIssue, DiscoveryOutcome, DiscoveryRequest, FilesystemBoundary,
    FilesystemIdentityEvidence, FilesystemIdentityPort, FilesystemObjectId, GitRepositoryLayout,
    GitRepositoryProbePort, IdentityGeneratorPort, LocationIdentityEvidence, PortError,
    PortErrorKind, PortResult, RepositoryCandidate, RepositoryCatalogPort,
    RepositoryDiscoveryPort, RepositoryIdentityEvidence,
};
use crate::topology::{Location, LocationAvailability, Repository, Worktree};

verus! {

/// A candidate whose identity could not be established, and why.
#[derive(Clone, Debug, PartialEq, Eq)]
pub struct RepositoryIdentificationIssue {
    path: FsPath,
    kind: PortErrorKind,
}

impl RepositoryIdentificationIssue {
    pub closed spec fn spec_path(&self) -> FsPath {
        self.path
    }

    pub closed spec fn spec_kind(&self) -> PortErrorKind {
        self.kind
    }

    pub fn new(path: FsPath, kind: PortErrorKind) -> (r: Self)
        ensures
            r.spec_path() == path,
            r.spec_kind() == kind,
    {
        RepositoryIdentificationIssue { path, kind }
    }

    pub fn path(&self) -> (r: &FsPath)
        ensures
            *r == self.spec_path(),
    {
        &self.path
    }

    pub fn kind(&self) -> (r: PortErrorKind)
        ensures
            r == self.spec_kind(),
    {
        self.kind
    }
}

/// What discovering one root reconciled.
#[derive(Clone, Debug, PartialEq, Eq)]
pub struct DiscoverRepositoriesOutcome {
    root: FsPath,
    coverage: CatalogReconciliationCoverage,
    discovery_issues: Vec<DiscoveryIssue>,
    identification_issues: Vec<RepositoryIdentificationIssue>,
    repository_count: usize,
    location_count: usize,
    worktree_count: usize,
}

impl DiscoverRepositoriesOutcome {
    pub closed spec fn spec_root(&self) -> FsPath {
        self.root
    }

    pub closed spec fn spec_coverage(&self) -> CatalogReconciliationCoverage {
        self.coverage
    }

    pub closed spec fn spec_discovery_issues(&self) -> Seq<DiscoveryIssue> {
        self.discovery_issues@
    }

    pub closed spec fn spec_identification_issues(&self) -> Seq<RepositoryIdentificationIssue> {
        self.identification_issues@
    }

    pub closed spec fn spec_repository_count(&self) -> nat {
        self.repository_count as nat
    }

    pub closed spec fn spec_location_count(&self) -> nat {
        self.location_count as nat
    }

    pub closed spec fn spec_worktree_count(&self) -> nat {
        self.worktree_count as nat
    }

    pub fn new(
        root: FsPath,
        coverage: CatalogReconciliationCoverage,
        discovery_issues: Vec<DiscoveryIssue>,
        identification_issues: Vec<RepositoryIdentificationIssue>,
        repository_count: usize,
        location_count: usize,
        worktree_count: usize,
    ) -> (r: Self)
        ensures
            r.spec_root() == root,
            r.spec_coverage() == coverage,
            r.spec_discovery_issues() == discovery_issues@,
            r.spec_identification_issues() == identification_issues@,
            r.spec_repository_count() == repository_count,
            r.spec_location_count() == location_count,
            r.spec_worktree_count() == worktree_count,
    {
        DiscoverRepositoriesOutcome {
            root,
            coverage,
            discovery_issues,
            identification_issues,
            repository_count,
            location_count,
            worktree_count,
        }
    }

    pub fn root(&self) -> (r: &FsPath)
        ensures
            *r == self.spec_root(),
    {
        &self.root
    }

    pub fn coverage(&self) -> (r: CatalogReconciliationCoverage)
        ensures
            r == self.spec_coverage(),
    {
        self.coverage
    }

    pub fn discovery_issues(&self) -> (r: &[DiscoveryIssue])
        ensures
            r@ == self.spec_discovery_issues(),
    {
        self.discovery_issues.as_slice()
    }

    pub fn identification_issues(&self) -> (r: &[RepositoryIdentificationIssue])
        ensures
            r@ == self.spec_identification_issues(),
    {
        self.identification_issues.as_slice()
    }

    pub fn repository_count(&self) -> (r: usize)
        ensures
            r == self.spec_repository_count(),
    {
        self.repository_count
    }

    pub fn location_count(&self) -> (r: usize)
        ensures
            r == self.spec_location_count(),
    {
        self.location_count
    }

    pub fn worktree_count(&self) -> (r: usize)
        ensures
            r == self.spec_worktree_count(),
    {
        self.worktree_count
    }
}

/// A root whose discovery failed, and why.
#[derive(Clone, Debug, PartialEq, Eq)]
pub struct DiscoveryRootFailure {
    root: FsPath,
    kind: PortErrorKind,
}

impl DiscoveryRootFailure {
    pub closed spec fn spec_root(&self) -> FsPath {
        self.root
    }

    pub closed spec fn spec_kind(&self) -> PortErrorKind {
        self.kind
    }

    pub fn new(root: FsPath, kind: PortErrorKind) -> (r: Self)
        ensures
            r.spec_root() == root,
            r.spec_kind() == kind,
    {
        DiscoveryRootFailure { root, kind }
    }

    pub fn root(&self) -> (r: &FsPath)
        ensures
            *r == self.spec_root(),
    {
        &self.root
    }

    pub fn kind(&self) -> (r: PortErrorKind)
        ensures
            r == self.spec_kind(),
    {
        self.kind
    }
}


/// The sum of a measure over root outcomes.
pub open spec fn sum_by(
    outcomes: Seq<DiscoverRepositoriesOutcome>,
    measure: spec_fn(DiscoverRepositoriesOutcome) -> nat,
) -> nat
    decreases outcomes.len(),
{
    if outcomes.len() == 0 {
        0
    } else {
        sum_by(outcomes.drop_last(), measure) + measure(outcomes.last())
    }
}

proof fn lemma_sum_by_prefix(
    outcomes: Seq<DiscoverRepositoriesOutcome>,
    measure: spec_fn(DiscoverRepositoriesOutcome) -> nat,
    count: int,
)
    requires
        0 <= count <= outcomes.len(),
    ensures
        sum_by(outcomes.take(count), measure) <= sum_by(outcomes, measure),
    decreases outcomes.len(),
{
    if count == outcomes.len() {
        assert(outcomes.take(count) =~= outcomes);
    } else {
        lemma_sum_by_prefix(outcomes.drop_last(), measure, count);
        assert(outcomes.drop_last().take(count) =~= outcomes.take(count));
    }
}

proof fn lemma_sum_by_step(
    outcomes: Seq<DiscoverRepositoriesOutcome>,
    measure: spec_fn(DiscoverRepositoriesOutcome) -> nat,
    count: int,
)
    requires
        0 <= count < outcomes.len(),
    ensures
        sum_by(outcomes.take(count + 1), measure) == sum_by(outcomes.take(count), measure)
            + measure(outcomes[count]),
        sum_by(outcomes.take(count + 1), measure) <= sum_by(outcomes, measure),
{
    assert(outcomes.take(count + 1).drop_last() =~= outcomes.take(count));
    lemma_sum_by_prefix(outcomes, measure, count + 1);
}

pub open spec fn partial_measure() -> spec_fn(DiscoverRepositoriesOutcome) -> nat {
    |outcome: DiscoverRepositoriesOutcome|
        if outcome.spec_coverage() == CatalogReconciliationCoverage::Partial {
            1nat
        } else {
            0nat
        }
}

pub open spec fn discovery_issue_measure() -> spec_fn(DiscoverRepositoriesOutcome) -> nat {
    |outcome: DiscoverRepositoriesOutcome| outcome.spec_discovery_issues().len()
}

pub open spec fn identification_issue_measure() -> spec_fn(DiscoverRepositoriesOutcome) -> nat {
    |outcome: DiscoverRepositoriesOutcome| outcome.spec_identification_issues().len()
}

pub open spec fn repository_measure() -> spec_fn(DiscoverRepositoriesOutcome) -> nat {
    |outcome: DiscoverRepositoriesOutcome| outcome.spec_repository_count()
}

pub open spec fn location_measure() -> spec_fn(DiscoverRepositoriesOutcome) -> nat {
    |outcome: DiscoverRepositoriesOutcome| outcome.spec_location_count()
}

pub open spec fn worktree_measure() -> spec_fn(DiscoverRepositoriesOutcome) -> nat {
    |outcome: DiscoverRepositoriesOutcome| outcome.spec_worktree_count()
}

/// One of the per-root counts that a batch sums up.
#[derive(Clone, Copy, Debug, PartialEq, Eq, Structural)]
pub enum RootCount {
    DiscoveryIssues,
    IdentificationIssues,
    Repositories,
    Locations,
    Worktrees,
}

/// The measure that sums a count over the roots.
pub open spec fn root_count_measure(count: RootCount) -> spec_fn(DiscoverRepositoriesOutcome) -> nat {
    match count {
        RootCount::DiscoveryIssues => discovery_issue_measure(),
        RootCount::IdentificationIssues => identification_issue_measure(),
        RootCount::Repositories => repository_measure(),
        RootCount::Locations => location_measure(),
        RootCount::Worktrees => worktree_measure(),
    }
}

fn root_count(outcome: &DiscoverRepositoriesOutcome, count: RootCount) -> (r: usize)
    ensures
        r == root_count_measure(count)(*outcome),
{
    match count {
        RootCount::DiscoveryIssues => outcome.discovery_issues().len(),
        RootCount::IdentificationIssues => outcome.identification_issues().len(),
        RootCount::Repositories => outcome.repository_count(),
        RootCount::Locations => outcome.location_count(),
        RootCount::Worktrees => outcome.worktree_count(),
    }
}

/// Whether a count summed over the roots fits a `usize`.
fn sum_fits(outcomes: &[DiscoverRepositoriesOutcome], count: RootCount) -> (r: bool)
    ensures
        r == (sum_by(outcomes@, root_count_measure(count)) <= usize::MAX),
{
    let ghost measure = root_count_measure(count);
    let mut total: usize = 0;
    let mut index: usize = 0;
    while index < outcomes.len()
        invariant
            index <= outcomes@.len(),
            measure == root_count_measure(count),
            total == sum_by(outcomes@.take(index as int), measure),
        decreases outcomes@.len() - index,
    {
        proof {
            lemma_sum_by_step(outcomes@, measure, index as int);
        }
        match total.checked_add(root_count(&outcomes[index], count)) {
            Some(next) => {
                total = next;
            },
            None => {
                return false;
            },
        }
        index = index + 1;
    }
    proof {
        assert(outcomes@.take(index as int) =~= outcomes@);
    }
    true
}

/// The outcomes of discovering several roots.
#[derive(Clone, Debug, PartialEq, Eq)]
pub struct DiscoveryBatchOutcome {
    completed: Vec<DiscoverRepositoriesOutcome>,
    failed_roots: Vec<DiscoveryRootFailure>,
}

impl Default for DiscoveryBatchOutcome {
    fn default() -> (r: Self)
        ensures
            r.spec_completed().len() == 0,
            r.spec_failed_roots().len() == 0,
    {
        DiscoveryBatchOutcome { completed: Vec::new(), failed_roots: Vec::new() }
    }
}

impl DiscoveryBatchOutcome {
    pub closed spec fn spec_completed(&self) -> Seq<DiscoverRepositoriesOutcome> {
        self.completed@
    }

    pub closed spec fn spec_failed_roots(&self) -> Seq<DiscoveryRootFailure> {
        self.failed_roots@
    }

    pub open spec fn spec_partial_root_count(&self) -> nat {
        sum_by(self.spec_completed(), partial_measure())
    }

    /// Failed when nothing was requested or every root failed; partial when
    /// a root failed or was reconciled partially; complete otherwise.
    pub open spec fn spec_completion(&self) -> OperationCompletion {
        if self.spec_completed().len() + self.spec_failed_roots().len() == 0 || (
        self.spec_completed().len() == 0 && self.spec_failed_roots().len() > 0) {
            OperationCompletion::Failed
        } else if self.spec_failed_roots().len() > 0 || self.spec_partial_root_count() > 0 {
            OperationCompletion::Partial
        } else {
            OperationCompletion::Complete
        }
    }

    pub fn new(
        completed: Vec<DiscoverRepositoriesOutcome>,
        failed_roots: Vec<DiscoveryRootFailure>,
    ) -> (r: Self)
        ensures
            r.spec_completed() == completed@,
            r.spec_failed_roots() == failed_roots@,
    {
        DiscoveryBatchOutcome { completed, failed_roots }
    }

    pub fn completed(&self) -> (r: &[DiscoverRepositoriesOutcome])
        ensures
            r@ == self.spec_completed(),
    {
        self.completed.as_slice()
    }

    pub fn failed_roots(&self) -> (r: &[DiscoveryRootFailure])
        ensures
            r@ == self.spec_failed_roots(),
    {
        self.failed_roots.as_slice()
    }

    pub fn requested_root_count(&self) -> (r: usize)
        requires
            self.spec_completed().len() + self.spec_failed_roots().len() <= usize::MAX,
        ensures
            r == self.spec_completed().len() + self.spec_failed_roots().len(),
    {
        self.completed.len() + self.failed_roots.len()
    }

    pub fn completed_root_count(&self) -> (r: usize)
        ensures
            r == self.spec_completed().len(),
    {
        self.completed.len()
    }

    pub fn failed_root_count(&self) -> (r: usize)
        ensures
            r == self.spec_failed_roots().len(),
    {
        self.failed_roots.len()
    }

    pub fn partial_root_count(&self) -> (r: usize)
        ensures
            r == self.spec_partial_root_count(),
    {
        let ghost outcomes = self.completed@;
        let mut count: usize = 0;
        let mut index: usize = 0;
        while index < self.completed.len()
            invariant
                outcomes == self.completed@,
                index <= outcomes.len(),
                count == sum_by(outcomes.take(index as int), partial_measure()),
                count <= index,
            decreases outcomes.len() - index,
        {
            proof {
                lemma_sum_by_step(outcomes, partial_measure(), index as int);
            }
            if self.completed[index].coverage() == CatalogReconciliationCoverage::Partial {
                count = count + 1;
            }
            index = index + 1;
        }
        proof {
            assert(outcomes.take(index as int) =~= outcomes);
        }
        count
    }

    pub fn discovery_issue_count(&self) -> (r: usize)
        requires
            sum_by(self.spec_completed(), discovery_issue_measure()) <= usize::MAX,
        ensures
            r == sum_by(self.spec_completed(), discovery_issue_measure()),
    {
        let ghost outcomes = self.completed@;
        let mut total: usize = 0;
        let mut index: usize = 0;
        while index < self.completed.len()
            invariant
                outcomes == self.completed@,
                index <= outcomes.len(),
                total == sum_by(outcomes.take(index as int), discovery_issue_measure()),
                sum_by(outcomes, discovery_issue_measure()) <= usize::MAX,
            decreases outcomes.len() - index,
        {
            proof {
                lemma_sum_by_step(outcomes, discovery_issue_measure(), index as int);
            }
            total = total + self.completed[index].discovery_issues().len();
            index = index + 1;
        }
        proof {
            assert(outcomes.take(index as int) =~= outcomes);
        }
        total
    }

    pub fn identification_issue_count(&self) -> (r: usize)
        requires
            sum_by(self.spec_completed(), identification_issue_measure()) <= usize::MAX,
        ensures
            r == sum_by(self.spec_completed(), identification_issue_measure()),
    {
        let ghost outcomes = self.completed@;
        let mut total: usize = 0;
        let mut index: usize = 0;
        while index < self.completed.len()
            invariant
                outcomes == self.completed@,
                index <= outcomes.len(),
                total == sum_by(outcomes.take(index as int), identification_issue_measure()),
                sum_by(outcomes, identification_issue_measure()) <= usize::MAX,
            decreases outcomes.len() - index,
        {
            proof {
                lemma_sum_by_step(outcomes, identification_issue_measure(), index as int);
            }
            total = total + self.completed[index].identification_issues().len();
            index = index + 1;
        }
        proof {
            assert(outcomes.take(index as int) =~= outcomes);
        }
        total
    }

    /// Whether every count of the batch fits a `usize`: the roots, and each
    /// per-root count summed over the roots.
    pub fn counts_fit(&self) -> (r: bool)
        ensures
            r == {
                &&& self.spec_completed().len() + self.spec_failed_roots().len() <= usize::MAX
                &&& sum_by(self.spec_completed(), discovery_issue_measure()) <= usize::MAX
                &&& sum_by(self.spec_completed(), identification_issue_measure()) <= usize::MAX
                &&& sum_by(self.spec_completed(), repository_measure()) <= usize::MAX
                &&& sum_by(self.spec_completed(), location_measure()) <= usize::MAX
                &&& sum_by(self.spec_completed(), worktree_measure()) <= usize::MAX
            },
    {
        let completed = self.completed.as_slice();
        self.completed.len().checked_add(self.failed_roots.len()).is_some()
            && sum_fits(completed, RootCount::DiscoveryIssues)
            && sum_fits(completed, RootCount::IdentificationIssues)
            && sum_fits(completed, RootCount::Repositories)
            && sum_fits(completed, RootCount::Locations)
            && sum_fits(completed, RootCount::Worktrees)
    }

    pub fn repository_count(&self) -> (r: usize)
        requires
            sum_by(self.spec_completed(), repository_measure()) <= usize::MAX,
        ensures
            r == sum_by(self.spec_completed(), repository_measure()),
    {
        let ghost outcomes = self.completed@;
        let mut total: usize = 0;
        let mut index: usize = 0;
        while index < self.completed.len()
            invariant
                outcomes == self.completed@,
                index <= outcomes.len(),
                total == sum_by(outcomes.take(index as int), repository_measure()),
                sum_by(outcomes, repository_measure()) <= usize::MAX,
            decreases outcomes.len() - index,
        {
            proof {
                lemma_sum_by_step(outcomes, repository_measure(), index as int);
            }
            total = total + self.completed[index].repository_count();
            index = index + 1;
        }
        proof {
            assert(outcomes.take(index as int) =~= outcomes);
        }
        total
    }

    pub fn location_count(&self) -> (r: usize)
        requires
            sum_by(self.spec_completed(), location_measure()) <= usize::MAX,
        ensures
            r == sum_by(self.spec_completed(), location_measure()),
    {
        let ghost outcomes = self.completed@;
        let mut total: usize = 0;
        let mut index: usize = 0;
        while index < self.completed.len()
            invariant
                outcomes == self.completed@,
                index <= outcomes.len(),
                total == sum_by(outcomes.take(index as int), location_measure()),
                sum_by(outcomes, location_measure()) <= usize::MAX,
            decreases outcomes.len() - index,
        {
            proof {
                lemma_sum_by_step(outcomes, location_measure(), index as int);
            }
            total = total + self.completed[index].location_count();
            index = index + 1;
        }
        proof {
            assert(outcomes.take(index as int) =~= outcomes);
        }
        total
    }

    pub fn worktree_count(&self) -> (r: usize)
        requires
            sum_by(self.spec_completed(), worktree_measure()) <= usize::MAX,
        ensures
            r == sum_by(self.spec_completed(), worktree_measure()),
    {
        let ghost outcomes = self.completed@;
        let mut total: usize = 0;
        let mut index: usize = 0;
        while index < self.completed.len()
            invariant
                outcomes == self.completed@,
                index <= outcomes.len(),
                total == sum_by(outcomes.take(index as int), worktree_measure()),
                sum_by(outcomes, worktree_measure()) <= usize::MAX,
            decreases outcomes.len() - index,
        {
            proof {
                lemma_sum_by_step(outcomes, worktree_measure(), index as int);
            }
            total = total + self.completed[index].worktree_count();
            index = index + 1;
        }
        proof {
            assert(outcomes.take(index as int) =~= outcomes);
        }
        total
    }

    /// Whether a refresh is worth suggesting after the batch: it completed,
    /// wholly or in part, and found repositories.
    pub fn suggests_refresh(&self) -> (r: bool)
        requires
            sum_by(self.spec_completed(), repository_measure()) <= usize::MAX,
        ensures
            r == ((self.spec_completion() == OperationCompletion::Complete
                || self.spec_completion() == OperationCompletion::Partial) && sum_by(
                self.spec_completed(),
                repository_measure(),
            ) > 0),
    {
        let completion = self.completion();
        let worth = match completion {
            OperationCompletion::Complete | OperationCompletion::Partial => true,
            OperationCompletion::Failed | OperationCompletion::Cancelled => false,
        };
        worth && self.repository_count() > 0
    }

    pub fn completion(&self) -> (r: OperationCompletion)
        ensures
            r == self.spec_completion(),
    {
        if (self.completed.len() == 0 && self.failed_roots.len() == 0) || (self.completed.len()
            == 0 && self.failed_roots.len() > 0) {
            OperationCompletion::Failed
        } else if self.failed_roots.len() > 0 || self.partial_root_count() > 0 {
            OperationCompletion::Partial
        } else {
            OperationCompletion::Complete
        }
    }

    pub fn is_partial(&self) -> (r: bool)
        ensures
            r == (self.spec_failed_roots().len() > 0 || self.spec_partial_root_count() > 0),
    {
        self.failed_roots.len() > 0 || self.partial_root_count() > 0
    }
}


/// No filesystem object is a key twice.
pub open spec fn distinct_object_keys<V>(entries: Seq<(FilesystemObjectId, V)>) -> bool {
    forall|i: int, j: int|
        0 <= i < j < entries.len() ==> (#[trigger] entries[i]).0 != (#[trigger] entries[j]).0
}

/// No path is a key twice.
pub open spec fn distinct_path_keys<V>(entries: Seq<(FsPath, V)>) -> bool {
    forall|i: int, j: int|
        0 <= i < j < entries.len() ==> (#[trigger] entries[i]).0@ != (#[trigger] entries[j]).0@
}

/// No location is a key twice.
pub open spec fn distinct_location_keys(entries: Seq<(LocationId, WorktreeId)>) -> bool {
    forall|i: int, j: int|
        0 <= i < j < entries.len() ==> (#[trigger] entries[i]).0@ != (#[trigger] entries[j]).0@
}

/// The entries map the object to the value.
pub open spec fn object_maps<V>(
    entries: Seq<(FilesystemObjectId, V)>,
    key: FilesystemObjectId,
    value: V,
) -> bool {
    exists|i: int| 0 <= i < entries.len() && #[trigger] entries[i] == (key, value)
}

/// The entries map a path with these bytes to the value.
pub open spec fn path_maps<V>(entries: Seq<(FsPath, V)>, key: Seq<u8>, value: V) -> bool {
    exists|i: int| 0 <= i < entries.len() && (#[trigger] entries[i]).0@ == key && entries[i].1 == value
}

/// The entries map the location to the worktree.
pub open spec fn location_maps(
    entries: Seq<(LocationId, WorktreeId)>,
    key: Seq<char>,
    value: WorktreeId,
) -> bool {
    exists|i: int| 0 <= i < entries.len() && (#[trigger] entries[i]).0@ == key && entries[i].1 == value
}

fn object_position<V>(entries: &Vec<(FilesystemObjectId, V)>, key: FilesystemObjectId) -> (r: Option<
    usize,
>)
    ensures
        match r {
            Some(i) => i < entries@.len() && entries@[i as int].0 == key,
            None => forall|i: int| 0 <= i < entries@.len() ==> (#[trigger] entries@[i]).0 != key,
        },
{
    let mut index: usize = 0;
    while index < entries.len()
        invariant
            index <= entries@.len(),
            forall|i: int| 0 <= i < index ==> (#[trigger] entries@[i]).0 != key,
        decreases entries@.len() - index,
    {
        if entries[index].0 == key {
            return Some(index);
        }
        index = index + 1;
    }
    None
}

fn path_position<V>(entries: &Vec<(FsPath, V)>, key: &FsPath) -> (r: Option<usize>)
    ensures
        match r {
            Some(i) => i < entries@.len() && entries@[i as int].0@ == key@,
            None => forall|i: int| 0 <= i < entries@.len() ==> (#[trigger] entries@[i]).0@ != key@,
        },
{
    let mut index: usize = 0;
    while index < entries.len()
        invariant
            index <= entries@.len(),
            forall|i: int| 0 <= i < index ==> (#[trigger] entries@[i]).0@ != key@,
        decreases entries@.len() - index,
    {
        if entries[index].0.same_as(key) {
            return Some(index);
        }
        index = index + 1;
    }
    None
}

fn location_position(entries: &Vec<(LocationId, WorktreeId)>, key: &LocationId) -> (r: Option<
    usize,
>)
    ensures
        match r {
            Some(i) => i < entries@.len() && entries@[i as int].0@ == key@,
            None => forall|i: int| 0 <= i < entries@.len() ==> (#[trigger] entries@[i]).0@ != key@,
        },
{
    let mut index: usize = 0;
    while index < entries.len()
        invariant
            index <= entries@.len(),
            forall|i: int| 0 <= i < index ==> (#[trigger] entries@[i]).0@ != key@,
        decreases entries@.len() - index,
    {
        if entries[index].0 == *key {
            return Some(index);
        }
        index = index + 1;
    }
    None
}

/// The identities resolved so far in one discovery run and the entities to
/// reconcile, each listed once.
pub struct ReconciliationState {
    repository_ids_by_object: Vec<(FilesystemObjectId, RepositoryId)>,
    repository_ids_by_path: Vec<(FsPath, RepositoryId)>,
    location_ids_by_object: Vec<(FilesystemObjectId, LocationId)>,
    location_ids_by_path: Vec<(FsPath, LocationId)>,
    worktree_ids_by_location: Vec<(LocationId, WorktreeId)>,
    repositories: Vec<Repository>,
    locations: Vec<Location>,
    worktrees: Vec<Worktree>,
    repository_identities: Vec<RepositoryIdentityEvidence>,
    location_identities: Vec<LocationIdentityEvidence>,
}

impl ReconciliationState {
    pub closed spec fn spec_repository_ids_by_object(&self) -> Seq<(FilesystemObjectId, RepositoryId)> {
        self.repository_ids_by_object@
    }

    pub closed spec fn spec_repository_ids_by_path(&self) -> Seq<(FsPath, RepositoryId)> {
        self.repository_ids_by_path@
    }

    pub closed spec fn spec_location_ids_by_object(&self) -> Seq<(FilesystemObjectId, LocationId)> {
        self.location_ids_by_object@
    }

    pub closed spec fn spec_location_ids_by_path(&self) -> Seq<(FsPath, LocationId)> {
        self.location_ids_by_path@
    }

    pub closed spec fn spec_worktree_ids_by_location(&self) -> Seq<(LocationId, WorktreeId)> {
        self.worktree_ids_by_location@
    }

    pub closed spec fn spec_repositories(&self) -> Seq<Repository> {
        self.repositories@
    }

    pub closed spec fn spec_locations(&self) -> Seq<Location> {
        self.locations@
    }

    pub closed spec fn spec_worktrees(&self) -> Seq<Worktree> {
        self.worktrees@
    }

    pub closed spec fn spec_repository_identities(&self) -> Seq<RepositoryIdentityEvidence> {
        self.repository_identities@
    }

    pub closed spec fn spec_location_identities(&self) -> Seq<LocationIdentityEvidence> {
        self.location_identities@
    }

    /// Every key is resolved once, every entity listed once, and each
    /// entity's identity evidence stands at its position.
    pub open spec fn well_formed(&self) -> bool {
        &&& distinct_object_keys(self.spec_repository_ids_by_object())
        &&& distinct_path_keys(self.spec_repository_ids_by_path())
        &&& distinct_object_keys(self.spec_location_ids_by_object())
        &&& distinct_path_keys(self.spec_location_ids_by_path())
        &&& distinct_location_keys(self.spec_worktree_ids_by_location())
        &&& forall|i: int, j: int|
            0 <= i < j < self.spec_repositories().len() ==> (
            #[trigger] self.spec_repositories()[i]).spec_id()@
                != (#[trigger] self.spec_repositories()[j]).spec_id()@
        &&& forall|i: int, j: int|
            0 <= i < j < self.spec_locations().len() ==> (
            #[trigger] self.spec_locations()[i]).spec_id()@
                != (#[trigger] self.spec_locations()[j]).spec_id()@
        &&& forall|i: int, j: int|
            0 <= i < j < self.spec_worktrees().len() ==> (
            #[trigger] self.spec_worktrees()[i]).spec_id()@
                != (#[trigger] self.spec_worktrees()[j]).spec_id()@
        &&& self.spec_repository_identities().len() == self.spec_repositories().len()
        &&& forall|i: int|
            0 <= i < self.spec_repositories().len() ==> (
            #[trigger] self.spec_repository_identities()[i]).spec_repository_id()
                == self.spec_repositories()[i].spec_id()
        &&& self.spec_location_identities().len() == self.spec_locations().len()
        &&& forall|i: int|
            0 <= i < self.spec_locations().len() ==> (
            #[trigger] self.spec_location_identities()[i]).spec_location_id()
                == self.spec_locations()[i].spec_id()
    }

    /// The resolved identities are the same in both states.
    pub open spec fn same_resolutions(&self, other: &Self) -> bool {
        &&& self.spec_repository_ids_by_object() == other.spec_repository_ids_by_object()
        &&& self.spec_repository_ids_by_path() == other.spec_repository_ids_by_path()
        &&& self.spec_location_ids_by_object() == other.spec_location_ids_by_object()
        &&& self.spec_location_ids_by_path() == other.spec_location_ids_by_path()
        &&& self.spec_worktree_ids_by_location() == other.spec_worktree_ids_by_location()
    }

    /// The listed entities and their evidence are the same in both states.
    pub open spec fn same_entities(&self, other: &Self) -> bool {
        &&& self.spec_repositories() == other.spec_repositories()
        &&& self.spec_locations() == other.spec_locations()
        &&& self.spec_worktrees() == other.spec_worktrees()
        &&& self.spec_repository_identities() == other.spec_repository_identities()
        &&& self.spec_location_identities() == other.spec_location_identities()
    }

    pub open spec fn lists_repository(&self, id: Seq<char>) -> bool {
        exists|i: int|
            0 <= i < self.spec_repositories().len() && (#[trigger] self.spec_repositories()[i]).spec_id()@
                == id
    }

    pub open spec fn lists_location(&self, id: Seq<char>) -> bool {
        exists|i: int|
            0 <= i < self.spec_locations().len() && (#[trigger] self.spec_locations()[i]).spec_id()@
                == id
    }

    pub open spec fn lists_worktree(&self, id: Seq<char>) -> bool {
        exists|i: int|
            0 <= i < self.spec_worktrees().len() && (#[trigger] self.spec_worktrees()[i]).spec_id()@
                == id
    }

    /// A state with nothing resolved and nothing listed.
    pub fn new() -> (r: Self)
        ensures
            r.well_formed(),
            r.spec_repository_ids_by_object().len() == 0,
            r.spec_repository_ids_by_path().len() == 0,
            r.spec_location_ids_by_object().len() == 0,
            r.spec_location_ids_by_path().len() == 0,
            r.spec_worktree_ids_by_location().len() == 0,
            r.spec_repositories().len() == 0,
            r.spec_locations().len() == 0,
            r.spec_worktrees().len() == 0,
    {
        ReconciliationState {
            repository_ids_by_object: Vec::new(),
            repository_ids_by_path: Vec::new(),
            location_ids_by_object: Vec::new(),
            location_ids_by_path: Vec::new(),
            worktree_ids_by_location: Vec::new(),
            repositories: Vec::new(),
            locations: Vec::new(),
            worktrees: Vec::new(),
            repository_identities: Vec::new(),
            location_identities: Vec::new(),
        }
    }

    fn has_repository(&self, repository_id: &RepositoryId) -> (r: bool)
        ensures
            r == self.lists_repository(repository_id@),
    {
        let mut index: usize = 0;
        while index < self.repositories.len()
            invariant
                index <= self.repositories@.len(),
                forall|i: int|
                    0 <= i < index ==> (#[trigger] self.repositories@[i]).spec_id()@
                        != repository_id@,
            decreases self.repositories@.len() - index,
        {
            if self.repositories[index].id() == repository_id {
                proof {
                    assert(self.spec_repositories()[index as int].spec_id()@ == repository_id@);
                }
                return true;
            }
            index = index + 1;
        }
        false
    }

    fn has_location(&self, location_id: &LocationId) -> (r: bool)
        ensures
            r == self.lists_location(location_id@),
    {
        let mut index: usize = 0;
        while index < self.locations.len()
            invariant
                index <= self.locations@.len(),
                forall|i: int|
                    0 <= i < index ==> (#[trigger] self.locations@[i]).spec_id()@ != location_id@,
            decreases self.locations@.len() - index,
        {
            if self.locations[index].id() == location_id {
                proof {
                    assert(self.spec_locations()[index as int].spec_id()@ == location_id@);
                }
                return true;
            }
            index = index + 1;
        }
        false
    }

    fn has_worktree(&self, worktree_id: &WorktreeId) -> (r: bool)
        ensures
            r == self.lists_worktree(worktree_id@),
    {
        let mut index: usize = 0;
        while index < self.worktrees.len()
            invariant
                index <= self.worktrees@.len(),
                forall|i: int|
                    0 <= i < index ==> (#[trigger] self.worktrees@[i]).spec_id()@ != worktree_id@,
            decreases self.worktrees@.len() - index,
        {
            if self.worktrees[index].id() == worktree_id {
                proof {
                    assert(self.spec_worktrees()[index as int].spec_id()@ == worktree_id@);
                }
                return true;
            }
            index = index + 1;
        }
        false
    }

    /// Lists a repository with its evidence, unless it is listed already.
    pub fn add_repository(
        &mut self,
        repository_id: RepositoryId,
        common_dir: FsPath,
        object_id: Option<FilesystemObjectId>,
    )
        requires
            old(self).well_formed(),
        ensures
            final(self).well_formed(),
            final(self).same_resolutions(old(self)),
            final(self).spec_locations() == old(self).spec_locations(),
            final(self).spec_worktrees() == old(self).spec_worktrees(),
            final(self).spec_location_identities() == old(self).spec_location_identities(),
            old(self).lists_repository(repository_id@) ==> final(self).same_entities(old(self)),
            !old(self).lists_repository(repository_id@) ==> {
                &&& final(self).spec_repositories().drop_last() == old(self).spec_repositories()
                &&& final(self).spec_repositories().len() == old(self).spec_repositories().len() + 1
                &&& final(self).spec_repositories().last().spec_id() == repository_id
                &&& final(self).spec_repository_identities().last().spec_common_dir() == common_dir
                &&& final(self).spec_repository_identities().last().spec_common_dir_object_id()
                    == object_id
            },
    {
        if self.has_repository(&repository_id) {
            return;
        }
        let ghost previous = self.repositories@;
        let ghost previous_identities = self.repository_identities@;
        self.repositories.push(Repository::new(repository_id.duplicate()));
        self.repository_identities.push(
            RepositoryIdentityEvidence::new(repository_id, common_dir, object_id),
        );
        proof {
            assert(self.repositories@.drop_last() =~= previous);
            assert(self.spec_locations() == old(self).spec_locations());
            assert(self.spec_worktrees() == old(self).spec_worktrees());
            assert forall|i: int, j: int|
                0 <= i < j < self.repositories@.len() implies (#[trigger] self.repositories@[i]).spec_id()@
                    != (#[trigger] self.repositories@[j]).spec_id()@ by {
                assert(self.repositories@[i] == previous[i]);
                assert(old(self).spec_repositories()[i] == previous[i]);
                if j < previous.len() {
                    assert(self.repositories@[j] == previous[j]);
                }
            }
            assert forall|i: int|
                0 <= i < self.repositories@.len() implies (
                #[trigger] self.repository_identities@[i]).spec_repository_id()
                    == self.repositories@[i].spec_id() by {
                if i < previous.len() {
                    assert(self.repository_identities@[i] == previous_identities[i]);
                    assert(self.repositories@[i] == previous[i]);
                }
            }
        }
    }

    /// Lists an available location of a repository with its evidence,
    /// unless it is listed already.
    pub fn add_location(
        &mut self,
        repository_id: RepositoryId,
        location_id: LocationId,
        path: FsPath,
        object_id: Option<FilesystemObjectId>,
    )
        requires
            old(self).well_formed(),
        ensures
            final(self).well_formed(),
            final(self).same_resolutions(old(self)),
            final(self).spec_repositories() == old(self).spec_repositories(),
            final(self).spec_worktrees() == old(self).spec_worktrees(),
            final(self).spec_repository_identities() == old(self).spec_repository_identities(),
            old(self).lists_location(location_id@) ==> final(self).same_entities(old(self)),
            !old(self).lists_location(location_id@) ==> {
                &&& final(self).spec_locations().drop_last() == old(self).spec_locations()
                &&& final(self).spec_locations().len() == old(self).spec_locations().len() + 1
                &&& final(self).spec_locations().last().spec_id() == location_id
                &&& final(self).spec_locations().last().spec_repository_id() == repository_id
                &&& final(self).spec_locations().last().spec_path() == path
                &&& final(self).spec_locations().last().spec_availability()
                    == LocationAvailability::Available
                &&& final(self).spec_location_identities().last().spec_object_id() == object_id
            },
    {
        if self.has_location(&location_id) {
            return;
        }
        let ghost previous = self.locations@;
        let ghost previous_identities = self.location_identities@;
        self.locations.push(
            Location::new(
                location_id.duplicate(),
                repository_id,
                path,
                LocationAvailability::Available,
            ),
        );
        self.location_identities.push(LocationIdentityEvidence::new(location_id, object_id));
        proof {
            assert(self.locations@.drop_last() =~= previous);
            assert(self.spec_repositories() == old(self).spec_repositories());
            assert(self.spec_worktrees() == old(self).spec_worktrees());
            assert forall|i: int, j: int|
                0 <= i < j < self.locations@.len() implies (#[trigger] self.locations@[i]).spec_id()@
                    != (#[trigger] self.locations@[j]).spec_id()@ by {
                assert(self.locations@[i] == previous[i]);
                assert(old(self).spec_locations()[i] == previous[i]);
                if j < previous.len() {
                    assert(self.locations@[j] == previous[j]);
                }
            }
            assert forall|i: int|
                0 <= i < self.locations@.len() implies (
                #[trigger] self.location_identities@[i]).spec_location_id()
                    == self.locations@[i].spec_id() by {
                if i < previous.len() {
                    assert(self.location_identities@[i] == previous_identities[i]);
                    assert(self.locations@[i] == previous[i]);
                }
            }
        }
    }

    /// Lists a worktree, unless it is listed already.
    pub fn add_worktree(
        &mut self,
        repository_id: RepositoryId,
        location_id: LocationId,
        worktree_id: WorktreeId,
    )
        requires
            old(self).well_formed(),
        ensures
            final(self).well_formed(),
            final(self).same_resolutions(old(self)),
            final(self).spec_repositories() == old(self).spec_repositories(),
            final(self).spec_locations() == old(self).spec_locations(),
            final(self).spec_repository_identities() == old(self).spec_repository_identities(),
            final(self).spec_location_identities() == old(self).spec_location_identities(),
            old(self).lists_worktree(worktree_id@) ==> final(self).same_entities(old(self)),
            !old(self).lists_worktree(worktree_id@) ==> {
                &&& final(self).spec_worktrees().drop_last() == old(self).spec_worktrees()
                &&& final(self).spec_worktrees().len() == old(self).spec_worktrees().len() + 1
                &&& final(self).spec_worktrees().last().spec_id() == worktree_id
                &&& final(self).spec_worktrees().last().spec_repository_id() == repository_id
                &&& final(self).spec_worktrees().last().spec_location_id() == location_id
            },
    {
        if self.has_worktree(&worktree_id) {
            return;
        }
        let ghost previous = self.worktrees@;
        self.worktrees.push(Worktree::new(worktree_id, repository_id, location_id));
        proof {
            assert(self.worktrees@.drop_last() =~= previous);
            assert(self.spec_repositories() == old(self).spec_repositories());
            assert(self.spec_locations() == old(self).spec_locations());
            assert forall|i: int, j: int|
                0 <= i < j < self.worktrees@.len() implies (#[trigger] self.worktrees@[i]).spec_id()@
                    != (#[trigger] self.worktrees@[j]).spec_id()@ by {
                assert(self.worktrees@[i] == previous[i]);
                assert(old(self).spec_worktrees()[i] == previous[i]);
                if j < previous.len() {
                    assert(self.worktrees@[j] == previous[j]);
                }
            }
        }
    }

    /// Lists a repository and its location, unless they are listed already.
    fn list_repository_location(
        &mut self,
        repository_id: &RepositoryId,
        location_id: &LocationId,
        common_dir: &FsPath,
        location_path: &FsPath,
        common_dir_object_id: Option<FilesystemObjectId>,
        location_object_id: Option<FilesystemObjectId>,
    )
        requires
            old(self).well_formed(),
        ensures
            final(self).well_formed(),
            final(self).same_resolutions(old(self)),
            final(self).spec_worktrees() == old(self).spec_worktrees(),
            grew_by_at_most_one(old(self).spec_repositories(), final(self).spec_repositories()),
            grew_by_at_most_one(old(self).spec_locations(), final(self).spec_locations()),
            final(self).spec_repositories().len() > old(self).spec_repositories().len()
                ==> final(self).spec_repositories().last().spec_id() == *repository_id,
            final(self).spec_locations().len() > old(self).spec_locations().len() ==> {
                &&& final(self).spec_locations().last().spec_id() == *location_id
                &&& final(self).spec_locations().last().spec_repository_id() == *repository_id
                &&& final(self).spec_locations().last().spec_path()@ == location_path@
            },
            repository_listed(final(self).spec_repositories(), repository_id@),
            location_listed(final(self).spec_locations(), location_id@),
            references_listed(
                old(self).spec_repositories(),
                old(self).spec_locations(),
                old(self).spec_worktrees(),
            ) ==> references_listed(
                final(self).spec_repositories(),
                final(self).spec_locations(),
                final(self).spec_worktrees(),
            ),
    {
        let ghost unlisted = *self;
        self.add_repository(repository_id.duplicate(), common_dir.duplicate(), common_dir_object_id);
        proof {
            if references_listed(unlisted.spec_repositories(), unlisted.spec_locations(), unlisted.spec_worktrees()) {
                lemma_references_kept(
                    unlisted.spec_repositories(),
                    self.spec_repositories(),
                    unlisted.spec_locations(),
                    self.spec_locations(),
                    unlisted.spec_worktrees(),
                    self.spec_worktrees(),
                );
            }
            if !unlisted.lists_repository(repository_id@) {
                assert(self.spec_repositories()[self.spec_repositories().len() - 1].spec_id() == *repository_id);
            }
            assert(repository_listed(self.spec_repositories(), repository_id@));
        }
        let ghost with_repository = *self;
        self.add_location(
            repository_id.duplicate(),
            location_id.duplicate(),
            location_path.duplicate(),
            location_object_id,
        );
        proof {
            if references_listed(
                with_repository.spec_repositories(),
                with_repository.spec_locations(),
                with_repository.spec_worktrees(),
            ) {
                lemma_references_kept(
                    with_repository.spec_repositories(),
                    self.spec_repositories(),
                    with_repository.spec_locations(),
                    self.spec_locations(),
                    with_repository.spec_worktrees(),
                    self.spec_worktrees(),
                );
            }
            if !with_repository.lists_location(location_id@) {
                assert(self.spec_locations()[self.spec_locations().len() - 1].spec_id() == *location_id);
            }
            assert(location_listed(self.spec_locations(), location_id@));
        }
    }

    /// The reconciliation of a root: the listed entities and their evidence.
    pub fn finish(
        self,
        discovery_root: FsPath,
        coverage: CatalogReconciliationCoverage,
        missing_scope: CatalogMissingScope,
    ) -> (r: CatalogReconciliation)
        ensures
            r.spec_discovery_root() == discovery_root,
            r.spec_coverage() == coverage,
            r.spec_missing_scope() == missing_scope,
            r.spec_repositories() == self.spec_repositories(),
            r.spec_locations() == self.spec_locations(),
            r.spec_worktrees() == self.spec_worktrees(),
            r.spec_repository_identities() == self.spec_repository_identities(),
            r.spec_location_identities() == self.spec_location_identities(),
    {
        CatalogReconciliation::new(discovery_root, coverage, missing_scope).with_entities(
            self.repositories,
            self.locations,
            self.worktrees,
        ).with_identity_evidence(self.repository_identities, self.location_identities)
    }
}


proof fn lemma_object_entry_unique<V>(entries: Seq<(FilesystemObjectId, V)>, i: int, value: V)
    requires
        distinct_object_keys(entries),
        0 <= i < entries.len(),
        object_maps(entries, entries[i].0, value),
    ensures
        entries[i].1 == value,
{
    let j = choose|j: int| 0 <= j < entries.len() && #[trigger] entries[j] == (entries[i].0, value);
    if i < j {
        assert(entries[i].0 != entries[j].0);
    } else if j < i {
        assert(entries[j].0 != entries[i].0);
    }
}

proof fn lemma_path_entry_unique<V>(entries: Seq<(FsPath, V)>, i: int, value: V)
    requires
        distinct_path_keys(entries),
        0 <= i < entries.len(),
        path_maps(entries, entries[i].0@, value),
    ensures
        entries[i].1 == value,
{
    let j = choose|j: int|
        0 <= j < entries.len() && (#[trigger] entries[j]).0@ == entries[i].0@ && entries[j].1
            == value;
    if i < j {
        assert(entries[i].0@ != entries[j].0@);
    } else if j < i {
        assert(entries[j].0@ != entries[i].0@);
    }
}

proof fn lemma_location_entry_unique(
    entries: Seq<(LocationId, WorktreeId)>,
    i: int,
    value: WorktreeId,
)
    requires
        distinct_location_keys(entries),
        0 <= i < entries.len(),
        location_maps(entries, entries[i].0@, value),
    ensures
        entries[i].1 == value,
{
    let j = choose|j: int|
        0 <= j < entries.len() && (#[trigger] entries[j]).0@ == entries[i].0@ && entries[j].1
            == value;
    if i < j {
        assert(entries[i].0@ != entries[j].0@);
    } else if j < i {
        assert(entries[j].0@ != entries[i].0@);
    }
}

proof fn lemma_push_object_entry<V>(entries: Seq<(FilesystemObjectId, V)>, key: FilesystemObjectId, value: V)
    requires
        distinct_object_keys(entries),
        forall|i: int| 0 <= i < entries.len() ==> (#[trigger] entries[i]).0 != key,
    ensures
        distinct_object_keys(entries.push((key, value))),
        object_maps(entries.push((key, value)), key, value),
{
    let pushed = entries.push((key, value));
    assert(pushed[entries.len() as int] == (key, value));
    assert forall|i: int, j: int| 0 <= i < j < pushed.len() implies (#[trigger] pushed[i]).0
        != (#[trigger] pushed[j]).0 by {
        assert(pushed[i] == entries[i]);
        if j < entries.len() {
            assert(pushed[j] == entries[j]);
        }
    }
}

proof fn lemma_push_path_entry<V>(entries: Seq<(FsPath, V)>, key: FsPath, value: V)
    requires
        distinct_path_keys(entries),
        forall|i: int| 0 <= i < entries.len() ==> (#[trigger] entries[i]).0@ != key@,
    ensures
        distinct_path_keys(entries.push((key, value))),
        path_maps(entries.push((key, value)), key@, value),
{
    let pushed = entries.push((key, value));
    assert(pushed[entries.len() as int] == (key, value));
    assert forall|i: int, j: int| 0 <= i < j < pushed.len() implies (#[trigger] pushed[i]).0@
        != (#[trigger] pushed[j]).0@ by {
        assert(pushed[i] == entries[i]);
        if j < entries.len() {
            assert(pushed[j] == entries[j]);
        }
    }
}

proof fn lemma_push_location_entry(
    entries: Seq<(LocationId, WorktreeId)>,
    key: LocationId,
    value: WorktreeId,
)
    requires
        distinct_location_keys(entries),
        forall|i: int| 0 <= i < entries.len() ==> (#[trigger] entries[i]).0@ != key@,
    ensures
        distinct_location_keys(entries.push((key, value))),
        location_maps(entries.push((key, value)), key@, value),
{
    let pushed = entries.push((key, value));
    assert(pushed[entries.len() as int] == (key, value));
    assert forall|i: int, j: int| 0 <= i < j < pushed.len() implies (#[trigger] pushed[i]).0@
        != (#[trigger] pushed[j]).0@ by {
        assert(pushed[i] == entries[i]);
        if j < entries.len() {
            assert(pushed[j] == entries[j]);
        }
    }
}

/// The repository a state resolved for a common directory: by its
/// filesystem object when that is known, else by its path.
pub open spec fn repository_resolved(
    state: ReconciliationState,
    common_dir: Seq<u8>,
    object_id: Option<FilesystemObjectId>,
    repository_id: RepositoryId,
) -> bool {
    match object_id {
        Some(object) => object_maps(state.spec_repository_ids_by_object(), object, repository_id),
        None => path_maps(state.spec_repository_ids_by_path(), common_dir, repository_id),
    }
}

/// The location a state resolved for a path: by its filesystem object when
/// that is known, else by its path.
pub open spec fn location_resolved(
    state: ReconciliationState,
    path: Seq<u8>,
    object_id: Option<FilesystemObjectId>,
    location_id: LocationId,
) -> bool {
    match object_id {
        Some(object) => object_maps(state.spec_location_ids_by_object(), object, location_id),
        None => path_maps(state.spec_location_ids_by_path(), path, location_id),
    }
}

/// Which catalog entries under the root may be marked missing: none when
/// the reconciliation is partial or parts were excluded; else the whole
/// tree when discovery crossed filesystems, or the root's filesystem when
/// it is known.
pub open spec fn spec_missing_scope(
    request: DiscoveryRequest,
    coverage: CatalogReconciliationCoverage,
    root_filesystem_id: Option<u128>,
) -> CatalogMissingScope {
    if coverage != CatalogReconciliationCoverage::Complete || request.spec_exclusions().len() > 0 {
        CatalogMissingScope::Nothing
    } else {
        match request.spec_filesystem_boundary() {
            FilesystemBoundary::CrossFilesystems => CatalogMissingScope::Tree,
            FilesystemBoundary::StayOnRootFilesystem => match root_filesystem_id {
                Some(id) => CatalogMissingScope::Filesystem(id),
                None => CatalogMissingScope::Nothing,
            },
        }
    }
}

pub fn missing_scope(
    request: &DiscoveryRequest,
    coverage: CatalogReconciliationCoverage,
    root_filesystem_id: Option<u128>,
) -> (r: CatalogMissingScope)
    ensures
        r == spec_missing_scope(*request, coverage, root_filesystem_id),
{
    if coverage != CatalogReconciliationCoverage::Complete || request.exclusions().len() > 0 {
        return CatalogMissingScope::Nothing;
    }
    match request.filesystem_boundary() {
        FilesystemBoundary::CrossFilesystems => CatalogMissingScope::Tree,
        FilesystemBoundary::StayOnRootFilesystem => match root_filesystem_id {
            Some(id) => CatalogMissingScope::Filesystem(id),
            None => CatalogMissingScope::Nothing,
        },
    }
}

/// A layout whose directories and worktree are all absolute paths.
pub open spec fn layout_is_absolute(layout: GitRepositoryLayout) -> bool {
    &&& is_absolute_path(layout.spec_git_dir()@)
    &&& is_absolute_path(layout.spec_common_dir()@)
    &&& match layout.spec_worktree_path() {
        Some(path) => is_absolute_path(path@),
        None => true,
    }
}

/// Accepts a layout only when every path in it is absolute.
pub fn validate_layout(layout: &GitRepositoryLayout) -> (r: PortResult<()>)
    ensures
        r is Ok <==> layout_is_absolute(*layout),
        r matches Err(e) ==> e.spec_kind() == PortErrorKind::InvariantViolation,
{
    let worktree_is_absolute = match layout.worktree_path() {
        Some(path) => path.is_absolute(),
        None => true,
    };
    if layout.git_dir().is_absolute() && layout.common_dir().is_absolute() && worktree_is_absolute {
        Ok(())
    } else {
        Err(PortError::new(PortErrorKind::InvariantViolation))
    }
}

/// What the catalog's answer for a repository means: a catalogued
/// repository is accepted, a missing one is an invariant violation, and an
/// error of the catalog is handed back.
fn repository_presence(found: PortResult<Option<Repository>>) -> (r: PortResult<()>)
    ensures
        match found {
            Ok(Some(_)) => r is Ok,
            Ok(None) => r matches Err(e) && e.spec_kind() == PortErrorKind::InvariantViolation,
            Err(e) => r == Err::<(), PortError>(e),
        },
{
    match found {
        Ok(Some(_)) => Ok(()),
        Ok(None) => Err(PortError::new(PortErrorKind::InvariantViolation)),
        Err(error) => Err(error),
    }
}

/// What the catalog's answer for a location means: an unknown location or
/// one of the repository is accepted, one of another repository is an
/// invariant violation, and an error of the catalog is handed back.
fn location_ownership(found: PortResult<Option<Location>>, repository_id: &RepositoryId) -> (r:
    PortResult<()>)
    ensures
        match found {
            Ok(Some(location)) => if location.spec_repository_id()@ == repository_id@ {
                r is Ok
            } else {
                r matches Err(e) && e.spec_kind() == PortErrorKind::InvariantViolation
            },
            Ok(None) => r is Ok,
            Err(e) => r == Err::<(), PortError>(e),
        },
{
    match found {
        Ok(Some(location)) => {
            if location.repository_id() == repository_id {
                Ok(())
            } else {
                Err(PortError::new(PortErrorKind::InvariantViolation))
            }
        },
        Ok(None) => Ok(()),
        Err(error) => Err(error),
    }
}

/// The missing scope a reconciliation may claim for a request at a
/// coverage: what `spec_missing_scope` gives, with the root's filesystem,
/// when the scope names one, or with none otherwise.
pub open spec fn scope_fits(
    request: DiscoveryRequest,
    coverage: CatalogReconciliationCoverage,
    scope: CatalogMissingScope,
) -> bool {
    match scope {
        CatalogMissingScope::Filesystem(id) => scope == spec_missing_scope(request, coverage, Some(id)),
        _ => scope == spec_missing_scope(request, coverage, None),
    }
}

/// Every repository, location and worktree is listed at most once.
pub open spec fn listed_once(reconciliation: CatalogReconciliation) -> bool {
    &&& forall|i: int, j: int|
        0 <= i < j < reconciliation.spec_repositories().len() ==> (
        #[trigger] reconciliation.spec_repositories()[i]).spec_id()@
            != (#[trigger] reconciliation.spec_repositories()[j]).spec_id()@
    &&& forall|i: int, j: int|
        0 <= i < j < reconciliation.spec_locations().len() ==> (
        #[trigger] reconciliation.spec_locations()[i]).spec_id()@
            != (#[trigger] reconciliation.spec_locations()[j]).spec_id()@
    &&& forall|i: int, j: int|
        0 <= i < j < reconciliation.spec_worktrees().len() ==> (
        #[trigger] reconciliation.spec_worktrees()[i]).spec_id()@
            != (#[trigger] reconciliation.spec_worktrees()[j]).spec_id()@
}

/// Some repository of the list has this identifier.
pub open spec fn repository_listed(repositories: Seq<Repository>, id: Seq<char>) -> bool {
    exists|k: int| 0 <= k < repositories.len() && (#[trigger] repositories[k]).spec_id()@ == id
}

/// Some location of the list has this identifier.
pub open spec fn location_listed(locations: Seq<Location>, id: Seq<char>) -> bool {
    exists|k: int| 0 <= k < locations.len() && (#[trigger] locations[k]).spec_id()@ == id
}

/// Every location belongs to a listed repository, and every worktree to a
/// listed repository and a listed location.
pub open spec fn references_listed(
    repositories: Seq<Repository>,
    locations: Seq<Location>,
    worktrees: Seq<Worktree>,
) -> bool {
    &&& forall|i: int|
        0 <= i < locations.len() ==> repository_listed(
            repositories,
            (#[trigger] locations[i]).spec_repository_id()@,
        )
    &&& forall|i: int|
        0 <= i < worktrees.len() ==> repository_listed(
            repositories,
            (#[trigger] worktrees[i]).spec_repository_id()@,
        ) && location_listed(locations, worktrees[i].spec_location_id()@)
}

/// Whatever was listed stays listed when a list grows at its end.
proof fn lemma_listed_kept(
    repositories: Seq<Repository>,
    grown_repositories: Seq<Repository>,
    locations: Seq<Location>,
    grown_locations: Seq<Location>,
)
    requires
        grew_by_at_most_one(repositories, grown_repositories),
        grew_by_at_most_one(locations, grown_locations),
    ensures
        forall|id: Seq<char>|
            #[trigger] repository_listed(repositories, id) ==> repository_listed(grown_repositories, id),
        forall|id: Seq<char>|
            #[trigger] location_listed(locations, id) ==> location_listed(grown_locations, id),
{
    assert forall|id: Seq<char>| #[trigger] repository_listed(repositories, id) implies repository_listed(
        grown_repositories,
        id,
    ) by {
        let k = choose|k: int| 0 <= k < repositories.len() && (#[trigger] repositories[k]).spec_id()@ == id;
        if grown_repositories != repositories {
            assert(grown_repositories.drop_last()[k] == grown_repositories[k]);
        }
        assert(grown_repositories[k] == repositories[k]);
    }
    assert forall|id: Seq<char>| #[trigger] location_listed(locations, id) implies location_listed(
        grown_locations,
        id,
    ) by {
        let k = choose|k: int| 0 <= k < locations.len() && (#[trigger] locations[k]).spec_id()@ == id;
        if grown_locations != locations {
            assert(grown_locations.drop_last()[k] == grown_locations[k]);
        }
        assert(grown_locations[k] == locations[k]);
    }
}

/// Lists that grew at their end keep their references listed, when what
/// was added refers only to what is listed.
proof fn lemma_references_kept(
    repositories: Seq<Repository>,
    grown_repositories: Seq<Repository>,
    locations: Seq<Location>,
    grown_locations: Seq<Location>,
    worktrees: Seq<Worktree>,
    grown_worktrees: Seq<Worktree>,
)
    requires
        references_listed(repositories, locations, worktrees),
        grew_by_at_most_one(repositories, grown_repositories),
        grew_by_at_most_one(locations, grown_locations),
        grew_by_at_most_one(worktrees, grown_worktrees),
        grown_locations.len() > locations.len() ==> repository_listed(
            grown_repositories,
            grown_locations.last().spec_repository_id()@,
        ),
        grown_worktrees.len() > worktrees.len() ==> repository_listed(
            grown_repositories,
            grown_worktrees.last().spec_repository_id()@,
        ) && location_listed(grown_locations, grown_worktrees.last().spec_location_id()@),
    ensures
        references_listed(grown_repositories, grown_locations, grown_worktrees),
{
    lemma_listed_kept(repositories, grown_repositories, locations, grown_locations);
    assert forall|i: int| 0 <= i < grown_locations.len() implies repository_listed(
        grown_repositories,
        (#[trigger] grown_locations[i]).spec_repository_id()@,
    ) by {
        if i < locations.len() {
            if grown_locations != locations {
                assert(grown_locations.drop_last()[i] == grown_locations[i]);
            }
            assert(grown_locations[i] == locations[i]);
            assert(repository_listed(repositories, locations[i].spec_repository_id()@));
        }
    }
    assert forall|i: int| 0 <= i < grown_worktrees.len() implies repository_listed(
        grown_repositories,
        (#[trigger] grown_worktrees[i]).spec_repository_id()@,
    ) && location_listed(grown_locations, grown_worktrees[i].spec_location_id()@) by {
        if i < worktrees.len() {
            if grown_worktrees != worktrees {
                assert(grown_worktrees.drop_last()[i] == grown_worktrees[i]);
            }
            assert(grown_worktrees[i] == worktrees[i]);
            assert(repository_listed(repositories, worktrees[i].spec_repository_id()@));
            assert(location_listed(locations, worktrees[i].spec_location_id()@));
        }
    }
}

/// The reconciliation handed to the catalog for a root matches the outcome
/// reported: the same root and coverage, the missing scope the request and
/// coverage allow, the reported counts as its list lengths, no entity
/// listed twice, and no reference to an entity not listed.
pub open spec fn reconciliation_reported(
    reconciliation: CatalogReconciliation,
    outcome: DiscoverRepositoriesOutcome,
    request: DiscoveryRequest,
) -> bool {
    &&& reconciliation.spec_discovery_root()@ == outcome.spec_root()@
    &&& reconciliation.spec_coverage() == outcome.spec_coverage()
    &&& scope_fits(request, outcome.spec_coverage(), reconciliation.spec_missing_scope())
    &&& reconciliation.spec_repositories().len() == outcome.spec_repository_count()
    &&& reconciliation.spec_locations().len() == outcome.spec_location_count()
    &&& reconciliation.spec_worktrees().len() == outcome.spec_worktree_count()
    &&& listed_once(reconciliation)
    &&& references_listed(
        reconciliation.spec_repositories(),
        reconciliation.spec_locations(),
        reconciliation.spec_worktrees(),
    )
}

/// What a run handed to the catalog: at most one reconciliation, and on
/// success exactly one, which matches the outcome.
pub open spec fn handed_for_run(
    before: Seq<CatalogReconciliation>,
    after: Seq<CatalogReconciliation>,
    r: PortResult<DiscoverRepositoriesOutcome>,
    request: DiscoveryRequest,
) -> bool {
    match r {
        Ok(outcome) => {
            &&& after.len() == before.len() + 1
            &&& after.drop_last() == before
            &&& reconciliation_reported(after.last(), outcome, request)
        },
        Err(_) => after == before || (after.len() == before.len() + 1 && after.drop_last() == before),
    }
}

/// One entity list grew by at most one entry, at its end.
pub open spec fn grew_by_at_most_one<T>(before: Seq<T>, after: Seq<T>) -> bool {
    ||| after == before
    ||| (after.len() == before.len() + 1 && after.drop_last() == before)
}

/// Complete only when discovery met no issue and every candidate was identified.
pub open spec fn spec_reconciliation_coverage(
    discovery: DiscoveryOutcome,
    identification_issues: Seq<RepositoryIdentificationIssue>,
) -> CatalogReconciliationCoverage {
    if discovery.spec_issues()@.len() == 0 && identification_issues.len() == 0 {
        CatalogReconciliationCoverage::Complete
    } else {
        CatalogReconciliationCoverage::Partial
    }
}

/// How completely a root was reconciled.
pub fn reconciliation_coverage(
    discovery: &DiscoveryOutcome,
    identification_issues: &Vec<RepositoryIdentificationIssue>,
) -> (r: CatalogReconciliationCoverage)
    ensures
        r == spec_reconciliation_coverage(*discovery, identification_issues@),
{
    if discovery.completeness() == DiscoveryCompleteness::Complete && identification_issues.len() == 0 {
        CatalogReconciliationCoverage::Complete
    } else {
        CatalogReconciliationCoverage::Partial
    }
}

/// The outcome of discovering one root: the root and issues discovery
/// reported, the identification issues met, the coverage they leave and the
/// number of entities the reconciliation carries.
pub fn discovery_outcome(
    discovery: &DiscoveryOutcome,
    identification_issues: Vec<RepositoryIdentificationIssue>,
    reconciliation: &CatalogReconciliation,
) -> (outcome: DiscoverRepositoriesOutcome)
    ensures
        outcome.spec_root()@ == discovery.spec_root()@,
        outcome.spec_coverage() == spec_reconciliation_coverage(*discovery, identification_issues@),
        outcome.spec_discovery_issues().len() == discovery.spec_issues()@.len(),
        forall|k: int|
            0 <= k < outcome.spec_discovery_issues().len() ==> {
                &&& (#[trigger] outcome.spec_discovery_issues()[k]).spec_path()@
                    == discovery.spec_issues()@[k].spec_path()@
                &&& outcome.spec_discovery_issues()[k].spec_kind() == discovery.spec_issues()@[k].spec_kind()
            },
        outcome.spec_identification_issues() == identification_issues@,
        outcome.spec_repository_count() == reconciliation.spec_repositories().len(),
        outcome.spec_location_count() == reconciliation.spec_locations().len(),
        outcome.spec_worktree_count() == reconciliation.spec_worktrees().len(),
{
    let coverage = reconciliation_coverage(discovery, &identification_issues);
    let issues = discovery.issues();
    let mut discovery_issues: Vec<DiscoveryIssue> = Vec::new();
    let mut position: usize = 0;
    while position < issues.len()
        invariant
            position <= issues@.len(),
            issues@ == discovery.spec_issues()@,
            discovery_issues@.len() == position,
            forall|k: int|
                0 <= k < position ==> {
                    &&& (#[trigger] discovery_issues@[k]).spec_path()@ == issues@[k].spec_path()@
                    &&& discovery_issues@[k].spec_kind() == issues@[k].spec_kind()
                },
        decreases issues@.len() - position,
    {
        discovery_issues.push(issues[position].duplicate());
        position = position + 1;
    }
    DiscoverRepositoriesOutcome::new(
        discovery.root().duplicate(),
        coverage,
        discovery_issues,
        identification_issues,
        reconciliation.repositories().len(),
        reconciliation.locations().len(),
        reconciliation.worktrees().len(),
    )
}


/// What a failed probe of a candidate means: a cancellation ends the run
/// with the probe's error; any other failure is kept as an identification
/// issue at the candidate's path, and the run goes on.
pub fn probe_failure(candidate: &RepositoryCandidate, error: PortError) -> (r: PortResult<
    RepositoryIdentificationIssue,
>)
    ensures
        error.spec_kind() == PortErrorKind::Cancelled ==> r == Err::<
            RepositoryIdentificationIssue,
            PortError,
        >(error),
        error.spec_kind() != PortErrorKind::Cancelled ==> (r matches Ok(issue) && issue.spec_path()@
            == candidate.spec_path()@ && issue.spec_kind() == error.spec_kind()),
{
    if error.kind() == PortErrorKind::Cancelled {
        Err(error)
    } else {
        Ok(RepositoryIdentificationIssue::new(candidate.path().duplicate(), error.kind()))
    }
}

/// One call a discovery run made to its ports, with the answer it got.
pub enum DiscoveryCall {
    Discover { request: DiscoveryRequest, answer: PortResult<DiscoveryOutcome> },
    MarkOffline { root: FsPath, answer: PortResult<()> },
    Probe { candidate: RepositoryCandidate, answer: PortResult<GitRepositoryLayout> },
    /// The filesystem identity of `path`, asked on behalf of `subject`, at
    /// whose path an issue is kept when the identity cannot be read.
    Identity { subject: FsPath, path: FsPath, answer: PortResult<FilesystemIdentityEvidence> },
    RepositoryByObject { object: FilesystemObjectId, answer: PortResult<Option<RepositoryId>> },
    RepositoryByPath { common_dir: FsPath, answer: PortResult<Option<RepositoryId>> },
    RepositoryCheck { repository_id: RepositoryId, answer: PortResult<Option<Repository>> },
    NewRepositoryId { answer: PortResult<RepositoryId> },
    LocationByObject { object: FilesystemObjectId, answer: PortResult<Option<LocationId>> },
    LocationByPath { path: FsPath, answer: PortResult<Option<Location>> },
    LocationCheck {
        location_id: LocationId,
        repository_id: RepositoryId,
        answer: PortResult<Option<Location>>,
    },
    NewLocationId { answer: PortResult<LocationId> },
    WorktreesOf { repository_id: RepositoryId, answer: PortResult<Vec<Worktree>> },
    NewWorktreeId { answer: PortResult<WorktreeId> },
    Reconcile { reconciliation: CatalogReconciliation, answer: PortResult<()> },
}

/// The error a port answered with, if it answered with one.
pub open spec fn call_error(call: DiscoveryCall) -> Option<PortError> {
    match call {
        DiscoveryCall::Discover { answer: Err(e), .. } => Some(e),
        DiscoveryCall::MarkOffline { answer: Err(e), .. } => Some(e),
        DiscoveryCall::Probe { answer: Err(e), .. } => Some(e),
        DiscoveryCall::Identity { answer: Err(e), .. } => Some(e),
        DiscoveryCall::RepositoryByObject { answer: Err(e), .. } => Some(e),
        DiscoveryCall::RepositoryByPath { answer: Err(e), .. } => Some(e),
        DiscoveryCall::RepositoryCheck { answer: Err(e), .. } => Some(e),
        DiscoveryCall::NewRepositoryId { answer: Err(e) } => Some(e),
        DiscoveryCall::LocationByObject { answer: Err(e), .. } => Some(e),
        DiscoveryCall::LocationByPath { answer: Err(e), .. } => Some(e),
        DiscoveryCall::LocationCheck { answer: Err(e), .. } => Some(e),
        DiscoveryCall::NewLocationId { answer: Err(e) } => Some(e),
        DiscoveryCall::WorktreesOf { answer: Err(e), .. } => Some(e),
        DiscoveryCall::NewWorktreeId { answer: Err(e) } => Some(e),
        DiscoveryCall::Reconcile { answer: Err(e), .. } => Some(e),
        _ => None,
    }
}

/// An answer after which the run stops: any error but a probe's that is no
/// cancellation and an identity's; a layout with a relative path; a
/// catalogued repository id without its repository; and a catalogued
/// location of another repository.
pub open spec fn ends(call: DiscoveryCall) -> bool {
    match call {
        DiscoveryCall::Probe { answer, .. } => match answer {
            Ok(layout) => !layout_is_absolute(layout),
            Err(e) => e.spec_kind() == PortErrorKind::Cancelled,
        },
        DiscoveryCall::Identity { .. } => false,
        DiscoveryCall::RepositoryCheck { answer, .. } => match answer {
            Ok(Some(_)) => false,
            _ => true,
        },
        DiscoveryCall::LocationCheck { repository_id, answer, .. } => match answer {
            Ok(Some(location)) => location.spec_repository_id()@ != repository_id@,
            Ok(None) => false,
            Err(_) => true,
        },
        _ => call_error(call) is Some,
    }
}

/// The run stops at this answer with this error: the port's own error, or
/// an invariant violation where the answer itself was refused.
pub open spec fn ends_with(call: DiscoveryCall, error: PortError) -> bool {
    &&& ends(call)
    &&& match call_error(call) {
        Some(e) => error == e,
        None => error.spec_kind() == PortErrorKind::InvariantViolation,
    }
}

/// An answer after which the run goes on, and which is no reconciliation.
pub open spec fn calm(call: DiscoveryCall) -> bool {
    !ends(call) && !(call is Reconcile)
}

pub open spec fn quiet(calls: Seq<DiscoveryCall>) -> bool {
    forall|i: int| 0 <= i < calls.len() ==> calm(#[trigger] calls[i])
}

/// The identification issue an answer leaves: a probe failure other than a
/// cancellation at the candidate's path, an identity failure at the path of
/// the one it was asked for.
pub open spec fn entry_issue(call: DiscoveryCall) -> Seq<(Seq<u8>, PortErrorKind)> {
    match call {
        DiscoveryCall::Probe { candidate, answer: Err(e) } => if e.spec_kind()
            != PortErrorKind::Cancelled {
            seq![(candidate.spec_path()@, e.spec_kind())]
        } else {
            Seq::empty()
        },
        DiscoveryCall::Identity { subject, answer: Err(e), .. } => seq![(subject@, e.spec_kind())],
        _ => Seq::empty(),
    }
}

/// The identification issues the answers leave, in order.
pub open spec fn issues_of(calls: Seq<DiscoveryCall>) -> Seq<(Seq<u8>, PortErrorKind)>
    decreases calls.len(),
{
    if calls.len() == 0 {
        Seq::empty()
    } else {
        issues_of(calls.drop_last()) + entry_issue(calls.last())
    }
}

/// How many candidates were probed.
pub open spec fn probe_count(calls: Seq<DiscoveryCall>) -> nat
    decreases calls.len(),
{
    if calls.len() == 0 {
        0
    } else if calls.last() is Probe {
        probe_count(calls.drop_last()) + 1
    } else {
        probe_count(calls.drop_last())
    }
}

/// The last candidate probed, with the probe's answer.
pub open spec fn latest_probe(calls: Seq<DiscoveryCall>) -> Option<
    (RepositoryCandidate, PortResult<GitRepositoryLayout>),
>
    decreases calls.len(),
{
    if calls.len() == 0 {
        None
    } else {
        match calls.last() {
            DiscoveryCall::Probe { candidate, answer } => Some((candidate, answer)),
            _ => latest_probe(calls.drop_last()),
        }
    }
}

/// The discovery a run answered with, when its first call was answered.
pub open spec fn discovered(calls: Seq<DiscoveryCall>) -> Option<DiscoveryOutcome> {
    if calls.len() == 0 {
        None
    } else {
        match calls[0] {
            DiscoveryCall::Discover { answer: Ok(discovery), .. } => Some(discovery),
            _ => None,
        }
    }
}

/// What a call may be, after the calls before it in its run: discovery
/// first; the root marked offline only right after discovery found it
/// unavailable; the candidates probed in the order discovery gave them; an
/// identity asked for the root right after discovery, or for a path of the
/// layout just probed, on behalf of its candidate; the reconciliation only
/// once every candidate was probed.
pub open spec fn fits(before: Seq<DiscoveryCall>, call: DiscoveryCall) -> bool {
    match call {
        DiscoveryCall::Discover { .. } => before.len() == 0,
        DiscoveryCall::MarkOffline { root, .. } => {
            &&& before.len() == 1
            &&& match before[0] {
                DiscoveryCall::Discover { request, answer: Err(e) } => {
                    &&& e.spec_kind() == PortErrorKind::ResourceUnavailable
                    &&& root@ == request.spec_root()@
                },
                _ => false,
            }
        },
        DiscoveryCall::Probe { candidate, .. } => match discovered(before) {
            Some(discovery) => {
                &&& probe_count(before) < discovery.spec_candidates()@.len()
                &&& candidate == discovery.spec_candidates()@[probe_count(before) as int]
            },
            None => false,
        },
        DiscoveryCall::Identity { subject, path, .. } => match discovered(before) {
            Some(discovery) => match latest_probe(before) {
                None => {
                    &&& before.len() == 1
                    &&& subject@ == discovery.spec_root()@
                    &&& path@ == discovery.spec_root()@
                },
                Some((candidate, Ok(layout))) => {
                    &&& subject@ == candidate.spec_path()@
                    &&& (path@ == layout.spec_common_dir()@ || match layout.spec_worktree_path() {
                        Some(worktree) => path@ == worktree@,
                        None => false,
                    })
                },
                Some((_, Err(_))) => false,
            },
            None => false,
        },
        DiscoveryCall::Reconcile { .. } => match discovered(before) {
            Some(discovery) => probe_count(before) == discovery.spec_candidates()@.len(),
            None => false,
        },
        _ => discovered(before) is Some,
    }
}

pub open spec fn all_fit(calls: Seq<DiscoveryCall>) -> bool {
    forall|i: int| 0 <= i < calls.len() ==> fits(calls.take(i), #[trigger] calls[i])
}

/// The calls before stay, in place, at the start of the calls after.
pub open spec fn prefix_kept(before: Seq<DiscoveryCall>, after: Seq<DiscoveryCall>) -> bool {
    &&& before.len() <= after.len()
    &&& forall|i: int| 0 <= i < before.len() ==> #[trigger] after[i] == before[i]
}

pub open spec fn failure_of<T>(r: PortResult<T>) -> Option<PortError> {
    match r {
        Ok(_) => None,
        Err(e) => Some(e),
    }
}

/// A stretch of a run went on from `before` to `after`: the earlier calls
/// stay, every call fits, and either no answer stopped the run, or only the
/// last one did, with the error returned.
pub open spec fn carried_on(
    before: Seq<DiscoveryCall>,
    after: Seq<DiscoveryCall>,
    failure: Option<PortError>,
) -> bool {
    &&& prefix_kept(before, after)
    &&& all_fit(after)
    &&& match failure {
        None => quiet(after),
        Some(e) => {
            &&& after.len() > before.len()
            &&& quiet(after.drop_last())
            &&& ends_with(after.last(), e)
        },
    }
}

/// The stretch only looked identities up in the catalog or had them made:
/// no probe, no identity of a path, no issue.
pub open spec fn looked_up_only(before: Seq<DiscoveryCall>, after: Seq<DiscoveryCall>) -> bool {
    &&& issues_of(after) == issues_of(before)
    &&& probe_count(after) == probe_count(before)
    &&& discovered(after) == discovered(before)
}

/// The next candidate of a run's discovery is `candidate`.
pub open spec fn next_candidate(calls: Seq<DiscoveryCall>, candidate: RepositoryCandidate) -> bool {
    match discovered(calls) {
        Some(discovery) => {
            &&& probe_count(calls) < discovery.spec_candidates()@.len()
            &&& discovery.spec_candidates()@[probe_count(calls) as int] == candidate
        },
        None => false,
    }
}

/// The issues kept are, in order, at these paths and of these kinds.
pub open spec fn issues_match(
    issues: Seq<RepositoryIdentificationIssue>,
    expected: Seq<(Seq<u8>, PortErrorKind)>,
) -> bool {
    &&& issues.len() == expected.len()
    &&& forall|k: int|
        0 <= k < issues.len() ==> (#[trigger] issues[k]).spec_path()@ == expected[k].0
            && issues[k].spec_kind() == expected[k].1
}

proof fn lemma_note(calls: Seq<DiscoveryCall>, call: DiscoveryCall)
    requires
        all_fit(calls),
        fits(calls, call),
    ensures
        calls.push(call).drop_last() == calls,
        calls.push(call).last() == call,
        prefix_kept(calls, calls.push(call)),
        all_fit(calls.push(call)),
        quiet(calls) && calm(call) ==> quiet(calls.push(call)),
        issues_of(calls.push(call)) == issues_of(calls) + entry_issue(call),
        entry_issue(call).len() == 0 ==> issues_of(calls.push(call)) == issues_of(calls),
        probe_count(calls.push(call)) == probe_count(calls) + if call is Probe {
            1nat
        } else {
            0nat
        },
        !(call is Probe) ==> latest_probe(calls.push(call)) == latest_probe(calls),
        calls.len() > 0 ==> discovered(calls.push(call)) == discovered(calls),
{
    let after = calls.push(call);
    assert(after.drop_last() =~= calls);
    assert forall|i: int| 0 <= i < after.len() implies fits(after.take(i), #[trigger] after[i]) by {
        if i < calls.len() {
            assert(after.take(i) =~= calls.take(i));
        } else {
            assert(after.take(i) =~= calls);
        }
    }
    if entry_issue(call).len() == 0 {
        assert(issues_of(calls) + entry_issue(call) =~= issues_of(calls));
    }
}

proof fn lemma_issue_kept(
    issues: Seq<RepositoryIdentificationIssue>,
    expected: Seq<(Seq<u8>, PortErrorKind)>,
    issue: RepositoryIdentificationIssue,
)
    requires
        issues_match(issues, expected),
    ensures
        issues_match(
            issues.push(issue),
            expected + seq![(issue.spec_path()@, issue.spec_kind())],
        ),
{
    let grown = expected + seq![(issue.spec_path()@, issue.spec_kind())];
    assert forall|k: int| 0 <= k < issues.len() + 1 implies (#[trigger] issues.push(issue)[k]).spec_path()@
        == grown[k].0 && issues.push(issue)[k].spec_kind() == grown[k].1 by {
        if k < issues.len() {
            assert(grown[k] == expected[k]);
        }
    }
}

/// What a run whose discovery was refused did: an unavailable root is marked
/// offline and the refusal returned, or the catalog's error where marking
/// failed; any other refusal is returned as it came, and nothing else is
/// asked.
pub open spec fn discovery_refused(
    request: DiscoveryRequest,
    error: PortError,
    run: Seq<DiscoveryCall>,
    r: PortResult<DiscoverRepositoriesOutcome>,
) -> bool {
    if error.spec_kind() == PortErrorKind::ResourceUnavailable {
        &&& run.len() == 2
        &&& match run[1] {
            DiscoveryCall::MarkOffline { root, answer } => {
                &&& root@ == request.spec_root()@
                &&& r == match answer {
                    Ok(_) => Err::<DiscoverRepositoriesOutcome, PortError>(error),
                    Err(failure) => Err(failure),
                }
            },
            _ => false,
        }
    } else {
        &&& run.len() == 1
        &&& r == Err::<DiscoverRepositoriesOutcome, PortError>(error)
    }
}

/// What a run did with the discovery it got: it stops at the first answer
/// that ends it and returns that answer's error; when no answer ends it,
/// it succeeds, having probed every candidate, kept the issues its answers
/// left, and handed the catalog a reconciliation that matches the outcome.
pub open spec fn discovery_answered(
    request: DiscoveryRequest,
    discovery: DiscoveryOutcome,
    run: Seq<DiscoveryCall>,
    r: PortResult<DiscoverRepositoriesOutcome>,
) -> bool {
    &&& quiet(run.drop_last())
    &&& (forall|i: int| 0 <= i < run.len() ==> !ends(#[trigger] run[i])) ==> r is Ok
    &&& match r {
        Ok(outcome) => {
            &&& probe_count(run) == discovery.spec_candidates()@.len()
            &&& issues_match(outcome.spec_identification_issues(), issues_of(run))
            &&& outcome.spec_root()@ == discovery.spec_root()@
            &&& outcome.spec_coverage() == spec_reconciliation_coverage(
                discovery,
                outcome.spec_identification_issues(),
            )
            &&& match run.last() {
                DiscoveryCall::Reconcile { reconciliation, answer } => {
                    &&& answer is Ok
                    &&& reconciliation_reported(reconciliation, outcome, request)
                },
                _ => false,
            }
        },
        Err(e) => ends_with(run.last(), e),
    }
}

/// The calls of a run for a request, and what it returned: discovery is
/// asked first, for the request, and the rest follows from its answer.
pub open spec fn discovery_run(
    request: DiscoveryRequest,
    run: Seq<DiscoveryCall>,
    r: PortResult<DiscoverRepositoriesOutcome>,
) -> bool {
    &&& run.len() > 0
    &&& all_fit(run)
    &&& match run[0] {
        DiscoveryCall::Discover { request: asked, answer } => {
            &&& asked == request
            &&& match answer {
                Err(e) => discovery_refused(request, e, run, r),
                Ok(discovery) => discovery_answered(request, discovery, run, r),
            }
        },
        _ => false,
    }
}

/// Partial failure is isolated: a run in which no answer ends it (no
/// refused discovery, no cancelled probe, no relative layout, no catalog or
/// identity generator error, no location of another repository) succeeds,
/// however many probes and identities failed, and keeps each such failure
/// as an identification issue, in order.
pub proof fn law_identification_failures_are_isolated(
    request: DiscoveryRequest,
    run: Seq<DiscoveryCall>,
    r: PortResult<DiscoverRepositoriesOutcome>,
)
    requires
        discovery_run(request, run, r),
        forall|i: int| 0 <= i < run.len() ==> !ends(#[trigger] run[i]),
    ensures
        r matches Ok(outcome) && issues_match(outcome.spec_identification_issues(), issues_of(run)),
{
    assert(!ends(run[0]));
}

/// A reconciliation was handed to the catalog only as the run's last call.
pub open spec fn handed_last(
    before: Seq<CatalogReconciliation>,
    after: Seq<CatalogReconciliation>,
    run: Seq<DiscoveryCall>,
) -> bool {
    after.len() > before.len() ==> match run.last() {
        DiscoveryCall::Reconcile { reconciliation, .. } => reconciliation == after.last(),
        _ => false,
    }
}

/// A resolution list stayed as it was, or gained one entry at its end, for
/// this key, mapping to the result when there is one.
pub open spec fn object_entry_added<V>(
    before: Seq<(FilesystemObjectId, V)>,
    after: Seq<(FilesystemObjectId, V)>,
    key: FilesystemObjectId,
    r: PortResult<V>,
) -> bool {
    ||| after == before
    ||| {
        &&& after.len() == before.len() + 1
        &&& after.drop_last() == before
        &&& after.last().0 == key
        &&& r matches Ok(value) ==> after.last().1 == value
    }
}

pub open spec fn path_entry_added<V>(
    before: Seq<(FsPath, V)>,
    after: Seq<(FsPath, V)>,
    key: Seq<u8>,
    r: PortResult<V>,
) -> bool {
    ||| after == before
    ||| {
        &&& after.len() == before.len() + 1
        &&& after.drop_last() == before
        &&& after.last().0@ == key
        &&& r matches Ok(value) ==> after.last().1 == value
    }
}

pub open spec fn location_entry_added(
    before: Seq<(LocationId, WorktreeId)>,
    after: Seq<(LocationId, WorktreeId)>,
    key: Seq<char>,
    r: PortResult<WorktreeId>,
) -> bool {
    ||| after == before
    ||| {
        &&& after.len() == before.len() + 1
        &&& after.drop_last() == before
        &&& after.last().0@ == key
        &&& r matches Ok(value) ==> after.last().1 == value
    }
}

/// The resolutions by the key in use grew by at most the one for this key;
/// the others stayed.
pub open spec fn repository_entry_added(
    before: ReconciliationState,
    after: ReconciliationState,
    common_dir: Seq<u8>,
    object_id: Option<FilesystemObjectId>,
    r: PortResult<RepositoryId>,
) -> bool {
    &&& after.spec_location_ids_by_object() == before.spec_location_ids_by_object()
    &&& after.spec_location_ids_by_path() == before.spec_location_ids_by_path()
    &&& after.spec_worktree_ids_by_location() == before.spec_worktree_ids_by_location()
    &&& match object_id {
        Some(object) => {
            &&& after.spec_repository_ids_by_path() == before.spec_repository_ids_by_path()
            &&& object_entry_added(
                before.spec_repository_ids_by_object(),
                after.spec_repository_ids_by_object(),
                object,
                r,
            )
        },
        None => {
            &&& after.spec_repository_ids_by_object() == before.spec_repository_ids_by_object()
            &&& path_entry_added(
                before.spec_repository_ids_by_path(),
                after.spec_repository_ids_by_path(),
                common_dir,
                r,
            )
        },
    }
}

pub open spec fn location_entry_of_key_added(
    before: ReconciliationState,
    after: ReconciliationState,
    path: Seq<u8>,
    object_id: Option<FilesystemObjectId>,
    r: PortResult<LocationId>,
) -> bool {
    &&& after.spec_repository_ids_by_object() == before.spec_repository_ids_by_object()
    &&& after.spec_repository_ids_by_path() == before.spec_repository_ids_by_path()
    &&& after.spec_worktree_ids_by_location() == before.spec_worktree_ids_by_location()
    &&& match object_id {
        Some(object) => {
            &&& after.spec_location_ids_by_path() == before.spec_location_ids_by_path()
            &&& object_entry_added(
                before.spec_location_ids_by_object(),
                after.spec_location_ids_by_object(),
                object,
                r,
            )
        },
        None => {
            &&& after.spec_location_ids_by_object() == before.spec_location_ids_by_object()
            &&& path_entry_added(
                before.spec_location_ids_by_path(),
                after.spec_location_ids_by_path(),
                path,
                r,
            )
        },
    }
}

/// What a listed candidate came to: its layout, the filesystem objects of
/// its common directory and of its location when they are known, the path
/// of its location, and the repository, location and worktree it was
/// resolved to.
pub struct Listing {
    pub layout: GitRepositoryLayout,
    pub repository_object: Option<FilesystemObjectId>,
    pub repository_id: RepositoryId,
    pub location_path: FsPath,
    pub location_object: Option<FilesystemObjectId>,
    pub location_id: LocationId,
    pub worktree_id: Option<WorktreeId>,
}

/// One candidate of a run that went on past it: the calls placing it made,
/// from its probe on, and what it was listed as; none when it was kept as
/// an identification issue.
pub struct Placement {
    pub candidate: RepositoryCandidate,
    pub calls: Seq<DiscoveryCall>,
    pub listing: Option<Listing>,
}

/// The path a layout's location is at: its worktree, else its common
/// directory.
pub open spec fn location_path_of(layout: GitRepositoryLayout) -> Seq<u8> {
    match layout.spec_worktree_path() {
        Some(path) => path@,
        None => layout.spec_common_dir()@,
    }
}

/// The call at `i` is the identity of `path`, answered with evidence whose
/// filesystem object is `object`.
pub open spec fn identity_answered(
    calls: Seq<DiscoveryCall>,
    i: int,
    path: Seq<u8>,
    object: Option<FilesystemObjectId>,
) -> bool {
    &&& 0 <= i < calls.len()
    &&& match calls[i] {
        DiscoveryCall::Identity { path: asked, answer: Ok(evidence), .. } => {
            &&& asked@ == path
            &&& evidence.spec_object_id() == object
        },
        _ => false,
    }
}

/// A lookup answered with `id`, or with none and then the identity
/// generator, asked next, answered with `id`.
pub open spec fn repository_given(
    answer: PortResult<Option<RepositoryId>>,
    calls: Seq<DiscoveryCall>,
    i: int,
    id: RepositoryId,
) -> bool {
    ||| answer == Ok::<Option<RepositoryId>, PortError>(Some(id))
    ||| {
        &&& answer == Ok::<Option<RepositoryId>, PortError>(None)
        &&& i + 1 < calls.len()
        &&& calls[i + 1] == (DiscoveryCall::NewRepositoryId { answer: Ok(id) })
    }
}

/// The call at `i` looks the repository up in the catalog, by the common
/// directory's filesystem object when it is known and else by its path, and
/// the answers give `id`.
pub open spec fn repository_answer_at(
    calls: Seq<DiscoveryCall>,
    i: int,
    object: Option<FilesystemObjectId>,
    common_dir: Seq<u8>,
    id: RepositoryId,
) -> bool {
    &&& 0 <= i < calls.len()
    &&& match calls[i] {
        DiscoveryCall::RepositoryByObject { object: asked, answer } => {
            &&& object == Some(asked)
            &&& repository_given(answer, calls, i, id)
        },
        DiscoveryCall::RepositoryByPath { common_dir: asked, answer } => {
            &&& object is None
            &&& asked@ == common_dir
            &&& repository_given(answer, calls, i, id)
        },
        _ => false,
    }
}

/// The identity generator, asked right after the call at `i`, answered
/// with `id`.
pub open spec fn new_location_next(calls: Seq<DiscoveryCall>, i: int, id: LocationId) -> bool {
    &&& i + 1 < calls.len()
    &&& calls[i + 1] == (DiscoveryCall::NewLocationId { answer: Ok(id) })
}

/// The call at `i` looks the location up in the catalog, by its filesystem
/// object when it is known and else by its path, and the answers give `id`.
pub open spec fn location_answer_at(
    calls: Seq<DiscoveryCall>,
    i: int,
    object: Option<FilesystemObjectId>,
    path: Seq<u8>,
    id: LocationId,
) -> bool {
    &&& 0 <= i < calls.len()
    &&& match calls[i] {
        DiscoveryCall::LocationByObject { object: asked, answer } => {
            &&& object == Some(asked)
            &&& match answer {
                Ok(Some(found)) => found == id,
                Ok(None) => new_location_next(calls, i, id),
                Err(_) => false,
            }
        },
        DiscoveryCall::LocationByPath { path: asked, answer } => {
            &&& object is None
            &&& asked@ == path
            &&& match answer {
                Ok(Some(found)) => found.spec_id() == id,
                Ok(None) => new_location_next(calls, i, id),
                Err(_) => false,
            }
        },
        _ => false,
    }
}

/// The call at `i` asked the catalog whether the location belongs to the
/// repository, and it does not belong to another.
pub open spec fn location_checked_at(
    calls: Seq<DiscoveryCall>,
    i: int,
    location_id: LocationId,
    repository_id: RepositoryId,
) -> bool {
    &&& 0 <= i < calls.len()
    &&& !ends(calls[i])
    &&& match calls[i] {
        DiscoveryCall::LocationCheck { location_id: asked, repository_id: owner, .. } => {
            &&& asked == location_id
            &&& owner == repository_id
        },
        _ => false,
    }
}

/// The worktree at `k` is the first of the list at the location.
pub open spec fn first_worktree_at(worktrees: Seq<Worktree>, location: Seq<char>, k: int) -> bool {
    &&& 0 <= k < worktrees.len()
    &&& worktrees[k].spec_location_id()@ == location
    &&& forall|m: int| 0 <= m < k ==> (#[trigger] worktrees[m]).spec_location_id()@ != location
}

/// The call at `i` lists the repository's worktrees in the catalog, and the
/// first of them at the location is `id`; when none is there, the identity
/// generator, asked next, answered with `id`.
pub open spec fn worktree_answer_at(
    calls: Seq<DiscoveryCall>,
    i: int,
    repository_id: RepositoryId,
    location: Seq<char>,
    id: WorktreeId,
) -> bool {
    &&& 0 <= i < calls.len()
    &&& match calls[i] {
        DiscoveryCall::WorktreesOf { repository_id: asked, answer: Ok(found) } => {
            &&& asked == repository_id
            &&& {
                ||| exists|k: int| #[trigger] first_worktree_at(found@, location, k) && found@[k].spec_id() == id
                ||| {
                    &&& forall|m: int|
                        0 <= m < found@.len() ==> (#[trigger] found@[m]).spec_location_id()@ != location
                    &&& i + 1 < calls.len()
                    &&& calls[i + 1] == (DiscoveryCall::NewWorktreeId { answer: Ok(id) })
                }
            }
        },
        _ => false,
    }
}

/// How a candidate was listed, as its calls were answered: its layout is
/// absolute; both identities were read; its location is at its worktree,
/// else at its common directory; it has a worktree exactly when its layout
/// does; and the catalog was asked whether the location belongs to the
/// repository, and it does not belong to another.
#[verifier::opaque]
pub open spec fn listing_as_answered(listing: Listing, calls: Seq<DiscoveryCall>) -> bool {
    let common_dir = listing.layout.spec_common_dir()@;
    &&& layout_is_absolute(listing.layout)
    &&& listing.location_path@ == location_path_of(listing.layout)
    &&& (listing.worktree_id is Some <==> listing.layout.spec_worktree_path() is Some)
    &&& identity_answered(calls, 1, common_dir, listing.repository_object)
    &&& if listing.location_path@ == common_dir {
        listing.location_object == listing.repository_object
    } else {
        identity_answered(calls, 2, listing.location_path@, listing.location_object)
    }
    &&& exists|i: int| #[trigger] location_checked_at(calls, i, listing.location_id, listing.repository_id)
}

/// A candidate was placed as its calls were answered: its calls start with
/// its probe; it was kept as an issue when the probe failed or an identity
/// could not be read, and was listed as `listing_as_answered` says when the
/// probe gave a layout and no identity failed.
pub open spec fn placed_as_answered(placement: Placement) -> bool {
    &&& placement.calls.len() > 0
    &&& match placement.calls[0] {
        DiscoveryCall::Probe { candidate, answer } => {
            &&& candidate == placement.candidate
            &&& match placement.listing {
                None => {
                    ||| answer matches Err(e) && e.spec_kind() != PortErrorKind::Cancelled
                    ||| exists|i: int|
                        0 <= i < placement.calls.len() && #[trigger] placement.calls[i] matches DiscoveryCall::Identity {
                            answer: Err(_),
                            ..
                        }
                },
                Some(listing) => {
                    &&& answer == Ok::<GitRepositoryLayout, PortError>(listing.layout)
                    &&& listing_as_answered(listing, placement.calls)
                },
            }
        },
        _ => false,
    }
}

/// The calls of the placements, one after another.
pub open spec fn joined_calls(placements: Seq<Placement>) -> Seq<DiscoveryCall>
    decreases placements.len(),
{
    if placements.len() == 0 {
        Seq::empty()
    } else {
        joined_calls(placements.drop_last()) + placements.last().calls
    }
}

/// Some worktree of the list has this identifier.
pub open spec fn worktree_listed(worktrees: Seq<Worktree>, id: Seq<char>) -> bool {
    exists|k: int| 0 <= k < worktrees.len() && (#[trigger] worktrees[k]).spec_id()@ == id
}

/// The repository, location and worktree of every listing are listed.
pub open spec fn listings_listed(
    placements: Seq<Placement>,
    repositories: Seq<Repository>,
    locations: Seq<Location>,
    worktrees: Seq<Worktree>,
) -> bool {
    forall|j: int|
        0 <= j < placements.len() ==> match #[trigger] placements[j].listing {
            Some(listing) => {
                &&& repository_listed(repositories, listing.repository_id@)
                &&& location_listed(locations, listing.location_id@)
                &&& match listing.worktree_id {
                    Some(worktree) => worktree_listed(worktrees, worktree@),
                    None => true,
                }
            },
            None => true,
        }
}

/// The listing resolved this repository.
pub open spec fn gives_repository(listing: Option<Listing>, repository: Repository) -> bool {
    match listing {
        Some(listing) => listing.repository_id == repository.spec_id(),
        None => false,
    }
}

/// The listing resolved this location, of its repository, at its path.
pub open spec fn gives_location(listing: Option<Listing>, location: Location) -> bool {
    match listing {
        Some(listing) => {
            &&& listing.location_id == location.spec_id()
            &&& listing.repository_id == location.spec_repository_id()
            &&& listing.location_path@ == location.spec_path()@
        },
        None => false,
    }
}

/// The listing resolved this worktree, of its repository, at its location.
pub open spec fn gives_worktree(listing: Option<Listing>, worktree: Worktree) -> bool {
    match listing {
        Some(listing) => {
            &&& listing.worktree_id == Some(worktree.spec_id())
            &&& listing.repository_id == worktree.spec_repository_id()
            &&& listing.location_id == worktree.spec_location_id()
        },
        None => false,
    }
}

pub open spec fn repository_of_listing(placements: Seq<Placement>, repository: Repository) -> bool {
    exists|j: int| 0 <= j < placements.len() && #[trigger] gives_repository(placements[j].listing, repository)
}

pub open spec fn location_of_listing(placements: Seq<Placement>, location: Location) -> bool {
    exists|j: int| 0 <= j < placements.len() && #[trigger] gives_location(placements[j].listing, location)
}

pub open spec fn worktree_of_listing(placements: Seq<Placement>, worktree: Worktree) -> bool {
    exists|j: int| 0 <= j < placements.len() && #[trigger] gives_worktree(placements[j].listing, worktree)
}

/// Every repository, location and worktree listed comes from a listing.
pub open spec fn listed_from_listings(
    placements: Seq<Placement>,
    repositories: Seq<Repository>,
    locations: Seq<Location>,
    worktrees: Seq<Worktree>,
) -> bool {
    &&& forall|i: int| 0 <= i < repositories.len() ==> repository_of_listing(placements, #[trigger] repositories[i])
    &&& forall|i: int| 0 <= i < locations.len() ==> location_of_listing(placements, #[trigger] locations[i])
    &&& forall|i: int| 0 <= i < worktrees.len() ==> worktree_of_listing(placements, #[trigger] worktrees[i])
}

/// Every candidate of the run, in order, was placed as answered.
pub open spec fn all_placed(placements: Seq<Placement>, candidates: Seq<RepositoryCandidate>) -> bool {
    &&& placements.len() == candidates.len()
    &&& forall|k: int|
        0 <= k < placements.len() ==> (#[trigger] placements[k]).candidate == candidates[k]
            && placed_as_answered(placements[k])
}

/// The state's knowledge of the run's placements: their entities are
/// listed, and every listed entity comes from one of them.
#[verifier::opaque]
pub open spec fn state_of_placements(placements: Seq<Placement>, state: ReconciliationState) -> bool {
    &&& listings_listed(placements, state.spec_repositories(), state.spec_locations(), state.spec_worktrees())
    &&& listed_from_listings(
        placements,
        state.spec_repositories(),
        state.spec_locations(),
        state.spec_worktrees(),
    )
}

/// What the state's knowledge of the placements consists of.
proof fn lemma_state_parts(placements: Seq<Placement>, state: ReconciliationState)
    requires
        state_of_placements(placements, state),
    ensures
        listings_listed(placements, state.spec_repositories(), state.spec_locations(), state.spec_worktrees()),
        listed_from_listings(
            placements,
            state.spec_repositories(),
            state.spec_locations(),
            state.spec_worktrees(),
        ),
{
    reveal(state_of_placements);
}

/// The listings' entities stay listed as the lists grow, and so do those of
/// the one recorded next.
proof fn lemma_listings_listed_grown(
    placements: Seq<Placement>,
    before: ReconciliationState,
    after: ReconciliationState,
    placement: Placement,
)
    requires
        listings_listed(placements, before.spec_repositories(), before.spec_locations(), before.spec_worktrees()),
        listings_listed(seq![placement], after.spec_repositories(), after.spec_locations(), after.spec_worktrees()),
        grew_by_at_most_one(before.spec_repositories(), after.spec_repositories()),
        grew_by_at_most_one(before.spec_locations(), after.spec_locations()),
        grew_by_at_most_one(before.spec_worktrees(), after.spec_worktrees()),
    ensures
        listings_listed(
            placements.push(placement),
            after.spec_repositories(),
            after.spec_locations(),
            after.spec_worktrees(),
        ),
{
    lemma_listed_kept(
        before.spec_repositories(),
        after.spec_repositories(),
        before.spec_locations(),
        after.spec_locations(),
    );
    let more = placements.push(placement);
    assert(seq![placement][0] == placement);
    assert forall|j: int| 0 <= j < more.len() implies match #[trigger] more[j].listing {
        Some(l) => {
            &&& repository_listed(after.spec_repositories(), l.repository_id@)
            &&& location_listed(after.spec_locations(), l.location_id@)
            &&& match l.worktree_id {
                Some(w) => worktree_listed(after.spec_worktrees(), w@),
                None => true,
            }
        },
        None => true,
    } by {
        if j < placements.len() {
            assert(more[j] == placements[j]);
            match placements[j].listing {
                Some(l) => {
                    match l.worktree_id {
                        Some(w) => {
                            let k = choose|k: int|
                                0 <= k < before.spec_worktrees().len() && (
                                #[trigger] before.spec_worktrees()[k]).spec_id()@ == w@;
                            if after.spec_worktrees() != before.spec_worktrees() {
                                assert(after.spec_worktrees().drop_last()[k] == after.spec_worktrees()[k]);
                            }
                            assert(after.spec_worktrees()[k] == before.spec_worktrees()[k]);
                        },
                        None => {},
                    }
                },
                None => {},
            }
        } else {
            assert(more[j] == placement);
        }
    }
}

/// Every listed entity still comes from a listing when the lists grow by
/// entities of the placement recorded next.
proof fn lemma_listed_from_grown(
    placements: Seq<Placement>,
    before: ReconciliationState,
    after: ReconciliationState,
    placement: Placement,
)
    requires
        listed_from_listings(placements, before.spec_repositories(), before.spec_locations(), before.spec_worktrees()),
        grew_by_at_most_one(before.spec_repositories(), after.spec_repositories()),
        grew_by_at_most_one(before.spec_locations(), after.spec_locations()),
        grew_by_at_most_one(before.spec_worktrees(), after.spec_worktrees()),
        after.spec_repositories().len() > before.spec_repositories().len() ==> gives_repository(
            placement.listing,
            after.spec_repositories().last(),
        ),
        after.spec_locations().len() > before.spec_locations().len() ==> gives_location(
            placement.listing,
            after.spec_locations().last(),
        ),
        after.spec_worktrees().len() > before.spec_worktrees().len() ==> gives_worktree(
            placement.listing,
            after.spec_worktrees().last(),
        ),
    ensures
        listed_from_listings(
            placements.push(placement),
            after.spec_repositories(),
            after.spec_locations(),
            after.spec_worktrees(),
        ),
{
    let more = placements.push(placement);
    let last = placements.len() as int;
    assert(more[last] == placement);
    let (rs, ls, ws) = (after.spec_repositories(), after.spec_locations(), after.spec_worktrees());
    assert forall|i: int| 0 <= i < rs.len() implies repository_of_listing(more, #[trigger] rs[i]) by {
        if i < before.spec_repositories().len() {
            if rs != before.spec_repositories() {
                assert(rs.drop_last()[i] == rs[i]);
            }
            let j = choose|j: int|
                0 <= j < placements.len() && #[trigger] gives_repository(
                    placements[j].listing,
                    before.spec_repositories()[i],
                );
            assert(more[j] == placements[j]);
            assert(gives_repository(more[j].listing, rs[i]));
        } else {
            assert(gives_repository(more[last].listing, rs[i]));
        }
    }
    assert forall|i: int| 0 <= i < ls.len() implies location_of_listing(more, #[trigger] ls[i]) by {
        if i < before.spec_locations().len() {
            if ls != before.spec_locations() {
                assert(ls.drop_last()[i] == ls[i]);
            }
            let j = choose|j: int|
                0 <= j < placements.len() && #[trigger] gives_location(
                    placements[j].listing,
                    before.spec_locations()[i],
                );
            assert(more[j] == placements[j]);
            assert(gives_location(more[j].listing, ls[i]));
        } else {
            assert(gives_location(more[last].listing, ls[i]));
        }
    }
    assert forall|i: int| 0 <= i < ws.len() implies worktree_of_listing(more, #[trigger] ws[i]) by {
        if i < before.spec_worktrees().len() {
            if ws != before.spec_worktrees() {
                assert(ws.drop_last()[i] == ws[i]);
            }
            let j = choose|j: int|
                0 <= j < placements.len() && #[trigger] gives_worktree(
                    placements[j].listing,
                    before.spec_worktrees()[i],
                );
            assert(more[j] == placements[j]);
            assert(gives_worktree(more[j].listing, ws[i]));
        } else {
            assert(gives_worktree(more[last].listing, ws[i]));
        }
    }
}

/// A candidate listed as its calls were answered, with its entities added
/// to the state, is placed as answered, and the state knows it.
proof fn lemma_listing_recorded(
    earlier: Seq<Placement>,
    before: ReconciliationState,
    after: ReconciliationState,
    placement: Placement,
    listing: Listing,
    checked: int,
)
    requires
        state_of_placements(earlier, before),
        placement.listing == Some(listing),
        placement.calls.len() > 0,
        placement.calls[0] == (DiscoveryCall::Probe {
            candidate: placement.candidate,
            answer: Ok(listing.layout),
        }),
        layout_is_absolute(listing.layout),
        listing.location_path@ == location_path_of(listing.layout),
        listing.worktree_id is Some <==> listing.layout.spec_worktree_path() is Some,
        identity_answered(
            placement.calls,
            1,
            listing.layout.spec_common_dir()@,
            listing.repository_object,
        ),
        if listing.location_path@ == listing.layout.spec_common_dir()@ {
            listing.location_object == listing.repository_object
        } else {
            identity_answered(placement.calls, 2, listing.location_path@, listing.location_object)
        },
        location_checked_at(placement.calls, checked, listing.location_id, listing.repository_id),
        grew_by_at_most_one(before.spec_repositories(), after.spec_repositories()),
        grew_by_at_most_one(before.spec_locations(), after.spec_locations()),
        grew_by_at_most_one(before.spec_worktrees(), after.spec_worktrees()),
        after.spec_repositories().len() > before.spec_repositories().len() ==> gives_repository(
            placement.listing,
            after.spec_repositories().last(),
        ),
        after.spec_locations().len() > before.spec_locations().len() ==> gives_location(
            placement.listing,
            after.spec_locations().last(),
        ),
        after.spec_worktrees().len() > before.spec_worktrees().len() ==> gives_worktree(
            placement.listing,
            after.spec_worktrees().last(),
        ),
        repository_listed(after.spec_repositories(), listing.repository_id@),
        location_listed(after.spec_locations(), listing.location_id@),
        listing.worktree_id matches Some(worktree) ==> worktree_listed(after.spec_worktrees(), worktree@),
    ensures
        placed_as_answered(placement),
        state_of_placements(earlier.push(placement), after),
{
    assert(listing_as_answered(listing, placement.calls)) by {
        reveal(listing_as_answered);
    }
    assert(seq![placement][0] == placement);
    lemma_placement_recorded(earlier, before, after, placement);
}

/// The state's knowledge of the placements holds after one more is
/// recorded, when the state gained only the resolutions and entities the
/// new one lists.
proof fn lemma_placement_recorded(
    placements: Seq<Placement>,
    before: ReconciliationState,
    after: ReconciliationState,
    placement: Placement,
)
    requires
        state_of_placements(placements, before),
        grew_by_at_most_one(before.spec_repositories(), after.spec_repositories()),
        grew_by_at_most_one(before.spec_locations(), after.spec_locations()),
        grew_by_at_most_one(before.spec_worktrees(), after.spec_worktrees()),
        after.spec_repositories().len() > before.spec_repositories().len() ==> gives_repository(
            placement.listing,
            after.spec_repositories().last(),
        ),
        after.spec_locations().len() > before.spec_locations().len() ==> gives_location(
            placement.listing,
            after.spec_locations().last(),
        ),
        after.spec_worktrees().len() > before.spec_worktrees().len() ==> gives_worktree(
            placement.listing,
            after.spec_worktrees().last(),
        ),
        listings_listed(seq![placement], after.spec_repositories(), after.spec_locations(), after.spec_worktrees()),
    ensures
        state_of_placements(placements.push(placement), after),
{
    reveal(state_of_placements);
    lemma_listings_listed_grown(placements, before, after, placement);
    lemma_listed_from_grown(placements, before, after, placement);
}

/// One more candidate was placed as its calls were answered: its placement
/// follows those before it, and its calls are those the run made since.
pub open spec fn placement_recorded(
    placements: Seq<Placement>,
    grown: Seq<Placement>,
    calls: Seq<DiscoveryCall>,
    grown_calls: Seq<DiscoveryCall>,
    candidate: RepositoryCandidate,
) -> bool {
    &&& grown.len() == placements.len() + 1
    &&& grown.drop_last() == placements
    &&& grown.last().candidate == candidate
    &&& grown.last().calls == grown_calls.skip(calls.len() as int)
    &&& placed_as_answered(grown.last())
}

/// A successful run placed every candidate of its discovery, in order, as
/// its calls were answered; its calls are, after discovery and the root's
/// identity, those of its placements one after another, then the
/// reconciliation; and what it handed the catalog lists the repository,
/// location and worktree of every listing, and nothing that no listing
/// resolved.
pub open spec fn run_placed(
    run: Seq<DiscoveryCall>,
    placements: Seq<Placement>,
    reconciliation: CatalogReconciliation,
) -> bool {
    let head = run.len() - 1 - joined_calls(placements).len();
    &&& match discovered(run) {
        Some(discovery) => all_placed(placements, discovery.spec_candidates()@),
        None => false,
    }
    &&& 1 <= head <= 2
    &&& run.drop_last() == run.take(head) + joined_calls(placements)
    &&& listings_listed(
        placements,
        reconciliation.spec_repositories(),
        reconciliation.spec_locations(),
        reconciliation.spec_worktrees(),
    )
    &&& listed_from_listings(
        placements,
        reconciliation.spec_repositories(),
        reconciliation.spec_locations(),
        reconciliation.spec_worktrees(),
    )
}

/// Placing one more candidate, as answered after those before it, extends
/// a run's placements of its candidates.
proof fn lemma_all_placed_grows(
    placements: Seq<Placement>,
    candidates: Seq<RepositoryCandidate>,
    placement: Placement,
    candidate: RepositoryCandidate,
)
    requires
        all_placed(placements, candidates),
        placement.candidate == candidate,
        placed_as_answered(placement),
    ensures
        all_placed(placements.push(placement), candidates.push(candidate)),
{
    let more = placements.push(placement);
    assert forall|k: int| 0 <= k < more.len() implies (#[trigger] more[k]).candidate == candidates.push(
        candidate,
    )[k] && placed_as_answered(more[k]) by {
        if k < placements.len() {
            assert(more[k] == placements[k]);
        }
    }
}

/// Discovers the repositories under one root and reconciles them into the
/// catalog.
pub struct DiscoverRepositories<
    'a,
    D: RepositoryDiscoveryPort + ?Sized,
    G: GitRepositoryProbePort + ?Sized,
    F: FilesystemIdentityPort + ?Sized,
    C: RepositoryCatalogPort + ?Sized,
    I: IdentityGeneratorPort + ?Sized,
> {
    discovery: &'a D,
    git: &'a G,
    filesystem: &'a F,
    catalog: &'a mut C,
    identities: &'a mut I,
    handed: Ghost<Seq<CatalogReconciliation>>,
    calls: Ghost<Seq<DiscoveryCall>>,
    placements: Ghost<Seq<Placement>>,
}

impl<
    'a,
    D: RepositoryDiscoveryPort + ?Sized,
    G: GitRepositoryProbePort + ?Sized,
    F: FilesystemIdentityPort + ?Sized,
    C: RepositoryCatalogPort + ?Sized,
    I: IdentityGeneratorPort + ?Sized,
> DiscoverRepositories<'a, D, G, F, C, I> {
    /// The reconciliations handed to the catalog so far, in order.
    pub closed spec fn spec_handed(&self) -> Seq<CatalogReconciliation> {
        self.handed@
    }

    /// The calls the last run made to the ports, in order, with their answers.
    pub closed spec fn spec_last_run(&self) -> Seq<DiscoveryCall> {
        self.calls@
    }

    /// The candidates the last run placed, in order, with the calls placing
    /// each made and what each was listed as.
    pub closed spec fn spec_placements(&self) -> Seq<Placement> {
        self.placements@
    }

    /// Whether the run reads through exactly these ports.
    pub closed spec fn reads_through(&self, discovery: &'a D, git: &'a G, filesystem: &'a F) -> bool {
        &&& self.discovery == discovery
        &&& self.git == git
        &&& self.filesystem == filesystem
    }

    pub fn new(
        discovery: &'a D,
        git: &'a G,
        filesystem: &'a F,
        catalog: &'a mut C,
        identities: &'a mut I,
    ) -> (r: Self)
        ensures
            r.reads_through(discovery, git, filesystem),
            r.spec_handed() == Seq::<CatalogReconciliation>::empty(),
            r.spec_last_run() == Seq::<DiscoveryCall>::empty(),
            r.spec_placements() == Seq::<Placement>::empty(),
    {
        DiscoverRepositories {
            discovery,
            git,
            filesystem,
            catalog,
            identities,
            handed: Ghost(Seq::empty()),
            calls: Ghost(Seq::empty()),
            placements: Ghost(Seq::empty()),
        }
    }

    /// Looks a repository up in the catalog, by the common directory's
    /// filesystem object when it is known and else by its path: a catalogued
    /// repository must exist; with none, a new identity is made.
    #[verifier::spinoff_prover]
    #[verifier::rlimit(100)]
    fn look_up_repository(
        &mut self,
        common_dir: &FsPath,
        object_id: Option<FilesystemObjectId>,
    ) -> (r: PortResult<RepositoryId>)
        requires
            all_fit(old(self).spec_last_run()),
            quiet(old(self).spec_last_run()),
            discovered(old(self).spec_last_run()) is Some,
        ensures
            final(self).spec_handed() == old(self).spec_handed(),
            final(self).spec_placements() == old(self).spec_placements(),
            carried_on(old(self).spec_last_run(), final(self).spec_last_run(), failure_of(r)),
            looked_up_only(old(self).spec_last_run(), final(self).spec_last_run()),
            r matches Ok(id) ==> repository_answer_at(
                final(self).spec_last_run().skip(old(self).spec_last_run().len() as int),
                0,
                object_id,
                common_dir@,
                id,
            ),
    {
        let ghost start = self.calls@;
        let found = match object_id {
            Some(object) => {
                let found = self.catalog.repository_id_by_common_dir_object(object);
                let ghost asked = DiscoveryCall::RepositoryByObject { object, answer: found };
                self.calls = Ghost(self.calls@.push(asked));
                proof {
                    lemma_note(start, asked);
                }
                found
            },
            None => {
                let found = self.catalog.repository_id_by_common_dir(common_dir);
                let ghost asked = DiscoveryCall::RepositoryByPath {
                    common_dir: *common_dir,
                    answer: found,
                };
                self.calls = Ghost(self.calls@.push(asked));
                proof {
                    lemma_note(start, asked);
                }
                found
            },
        };
        let ghost looked = self.calls@;
        assert(looked.len() == start.len() + 1);
        match found {
            Ok(Some(id)) => {
                let present = self.catalog.repository(&id);
                let ghost check = DiscoveryCall::RepositoryCheck { repository_id: id, answer: present };
                self.calls = Ghost(self.calls@.push(check));
                proof {
                    lemma_note(looked, check);
                    assert(self.calls@.skip(start.len() as int) =~= seq![looked.last(), check]);
                }
                match repository_presence(present) {
                    Ok(()) => Ok(id),
                    Err(error) => Err(error),
                }
            },
            Ok(None) => {
                let made = self.identities.next_repository_id();
                let ghost fresh = DiscoveryCall::NewRepositoryId { answer: made };
                self.calls = Ghost(self.calls@.push(fresh));
                proof {
                    lemma_note(looked, fresh);
                    assert(self.calls@.skip(start.len() as int) =~= seq![looked.last(), fresh]);
                }
                match made {
                    Ok(id) => Ok(id),
                    Err(error) => Err(error),
                }
            },
            Err(error) => Err(error),
        }
    }

    /// The repository of a common directory: the one this run already
    /// resolved for it, else the catalog's (which must exist), else a new
    /// identity. Strong filesystem evidence is the key when there is some;
    /// a path alone is never matched against object keys.
    fn resolve_repository_id(
        &mut self,
        state: &mut ReconciliationState,
        common_dir: &FsPath,
        object_id: Option<FilesystemObjectId>,
    ) -> (r: PortResult<RepositoryId>)
        requires
            old(state).well_formed(),
            all_fit(old(self).spec_last_run()),
            quiet(old(self).spec_last_run()),
            discovered(old(self).spec_last_run()) is Some,
        ensures
            final(self).spec_handed() == old(self).spec_handed(),
            final(self).spec_placements() == old(self).spec_placements(),
            carried_on(old(self).spec_last_run(), final(self).spec_last_run(), failure_of(r)),
            looked_up_only(old(self).spec_last_run(), final(self).spec_last_run()),
            (exists|id: RepositoryId| repository_resolved(*old(state), common_dir@, object_id, id))
                ==> final(self).spec_last_run() == old(self).spec_last_run(),
            !(exists|id: RepositoryId| repository_resolved(*old(state), common_dir@, object_id, id))
                ==> (r matches Ok(id) ==> repository_answer_at(
                final(self).spec_last_run().skip(old(self).spec_last_run().len() as int),
                0,
                object_id,
                common_dir@,
                id,
            )),
            repository_entry_added(*old(state), *final(state), common_dir@, object_id, r),
            final(state).well_formed(),
            final(state).same_entities(old(state)),
            r matches Ok(id) ==> repository_resolved(*final(state), common_dir@, object_id, id),
            forall|id: RepositoryId|
                repository_resolved(*old(state), common_dir@, object_id, id) ==> r == Ok::<
                    RepositoryId,
                    PortError,
                >(id),
    {
        match object_id {
            Some(object) => match object_position(&state.repository_ids_by_object, object) {
                Some(found) => {
                    let id = state.repository_ids_by_object[found].1.duplicate();
                    proof {
                        assert(state.repository_ids_by_object@[found as int] == (object, id));
                        assert(repository_resolved(*old(state), common_dir@, object_id, id));
                        assert forall|other: RepositoryId|
                            repository_resolved(*old(state), common_dir@, object_id, other) implies id
                                == other by {
                            lemma_object_entry_unique(state.repository_ids_by_object@, found as int, other);
                        }
                    }
                    return Ok(id);
                },
                None => {},
            },
            None => match path_position(&state.repository_ids_by_path, common_dir) {
                Some(found) => {
                    let id = state.repository_ids_by_path[found].1.duplicate();
                    proof {
                        assert forall|other: RepositoryId|
                            repository_resolved(*old(state), common_dir@, object_id, other) implies id
                                == other by {
                            lemma_path_entry_unique(state.repository_ids_by_path@, found as int, other);
                        }
                        assert(path_maps(state.repository_ids_by_path@, common_dir@, id)) by {
                            assert(state.repository_ids_by_path@[found as int].0@ == common_dir@);
                        }
                        assert(repository_resolved(*old(state), common_dir@, object_id, id));
                    }
                    return Ok(id);
                },
                None => {},
            },
        }
        proof {
            assert(!(exists|id: RepositoryId| repository_resolved(*old(state), common_dir@, object_id, id)));
        }
        let resolved = match self.look_up_repository(common_dir, object_id) {
            Ok(id) => id,
            Err(error) => {
                return Err(error);
            },
        };
        match object_id {
            Some(object) => {
                proof {
                    lemma_push_object_entry(state.repository_ids_by_object@, object, resolved);
                }
                state.repository_ids_by_object.push((object, resolved.duplicate()));
                proof {
                    assert(state.repository_ids_by_object@.drop_last()
                        =~= old(state).spec_repository_ids_by_object());
                }
            },
            None => {
                let key = common_dir.duplicate();
                proof {
                    lemma_push_path_entry(state.repository_ids_by_path@, key, resolved);
                }
                state.repository_ids_by_path.push((key, resolved.duplicate()));
                proof {
                    assert(state.repository_ids_by_path@.drop_last()
                        =~= old(state).spec_repository_ids_by_path());
                }
            },
        }
        proof {
            assert(state.spec_repositories() == old(state).spec_repositories());
            assert(state.spec_locations() == old(state).spec_locations());
            assert(state.spec_worktrees() == old(state).spec_worktrees());
        }
        Ok(resolved)
    }

    /// The location at a path: the one this run already resolved for it,
    /// else the catalog's, else a new identity; a location the catalog
    /// files under another repository is refused.
    fn resolve_location_id(
        &mut self,
        state: &mut ReconciliationState,
        repository_id: &RepositoryId,
        path: &FsPath,
        object_id: Option<FilesystemObjectId>,
    ) -> (r: PortResult<LocationId>)
        requires
            old(state).well_formed(),
            all_fit(old(self).spec_last_run()),
            quiet(old(self).spec_last_run()),
            discovered(old(self).spec_last_run()) is Some,
        ensures
            final(self).spec_handed() == old(self).spec_handed(),
            final(self).spec_placements() == old(self).spec_placements(),
            carried_on(old(self).spec_last_run(), final(self).spec_last_run(), failure_of(r)),
            looked_up_only(old(self).spec_last_run(), final(self).spec_last_run()),
            r matches Ok(id) ==> location_checked_at(
                final(self).spec_last_run().skip(old(self).spec_last_run().len() as int),
                final(self).spec_last_run().len() - old(self).spec_last_run().len() - 1,
                id,
                *repository_id,
            ),
            (exists|id: LocationId| location_resolved(*old(state), path@, object_id, id))
                ==> final(self).spec_last_run().len() == old(self).spec_last_run().len() + 1,
            !(exists|id: LocationId| location_resolved(*old(state), path@, object_id, id))
                ==> (r matches Ok(id) ==> location_answer_at(
                final(self).spec_last_run().skip(old(self).spec_last_run().len() as int),
                0,
                object_id,
                path@,
                id,
            )),
            location_entry_of_key_added(*old(state), *final(state), path@, object_id, r),
            final(state).well_formed(),
            final(state).same_entities(old(state)),
            final(state).spec_repository_ids_by_object() == old(
                state,
            ).spec_repository_ids_by_object(),
            final(state).spec_repository_ids_by_path() == old(state).spec_repository_ids_by_path(),
            final(state).spec_worktree_ids_by_location() == old(
                state,
            ).spec_worktree_ids_by_location(),
            r matches Ok(id) ==> location_resolved(*final(state), path@, object_id, id),
            forall|id: LocationId|
                location_resolved(*old(state), path@, object_id, id) && r is Ok ==> r == Ok::<
                    LocationId,
                    PortError,
                >(id),
    {
        let ghost start = self.calls@;
        let location_id = match object_id {
            Some(object) => match object_position(&state.location_ids_by_object, object) {
                Some(found) => {
                    let id = state.location_ids_by_object[found].1.duplicate();
                    proof {
                        assert(state.location_ids_by_object@[found as int] == (object, id));
                        assert(location_resolved(*old(state), path@, object_id, id));
                        assert forall|other: LocationId|
                            location_resolved(
                                *old(state),
                                path@,
                                object_id,
                                other,
                            ) implies id == other by {
                            lemma_object_entry_unique(
                                state.location_ids_by_object@,
                                found as int,
                                other,
                            );
                        }
                    }
                    id
                },
                None => {
                    let found = self.catalog.location_id_by_filesystem_object(object);
                    let ghost asked = DiscoveryCall::LocationByObject { object, answer: found };
                    self.calls = Ghost(self.calls@.push(asked));
                    proof {
                        lemma_note(start, asked);
                    }
                    let resolved = match found {
                        Ok(Some(id)) => id,
                        Ok(None) => {
                            let ghost looked = self.calls@;
                            let made = self.identities.next_location_id();
                            let ghost fresh = DiscoveryCall::NewLocationId { answer: made };
                            self.calls = Ghost(self.calls@.push(fresh));
                            proof {
                                lemma_note(looked, fresh);
                            }
                            match made {
                                Ok(id) => id,
                                Err(error) => {
                                    return Err(error);
                                },
                            }
                        },
                        Err(error) => {
                            return Err(error);
                        },
                    };
                    proof {
                        lemma_push_object_entry(state.location_ids_by_object@, object, resolved);
                    }
                    state.location_ids_by_object.push((object, resolved.duplicate()));
                    proof {
                        assert(state.location_ids_by_object@.drop_last()
                            =~= old(state).spec_location_ids_by_object());
                        assert(state.spec_repositories() == old(state).spec_repositories());
                        assert(state.spec_locations() == old(state).spec_locations());
                        assert(state.spec_worktrees() == old(state).spec_worktrees());
                    }
                    resolved
                },
            },
            None => match path_position(&state.location_ids_by_path, path) {
                Some(found) => {
                    let id = state.location_ids_by_path[found].1.duplicate();
                    proof {
                        assert forall|other: LocationId|
                            location_resolved(
                                *old(state),
                                path@,
                                object_id,
                                other,
                            ) implies id == other by {
                            lemma_path_entry_unique(
                                state.location_ids_by_path@,
                                found as int,
                                other,
                            );
                        }
                        assert(path_maps(state.location_ids_by_path@, path@, id)) by {
                            assert(state.location_ids_by_path@[found as int].0@ == path@);
                        }
                        assert(location_resolved(*old(state), path@, object_id, id));
                    }
                    id
                },
                None => {
                    let found = self.catalog.location_by_path(path);
                    let ghost asked = DiscoveryCall::LocationByPath { path: *path, answer: found };
                    self.calls = Ghost(self.calls@.push(asked));
                    proof {
                        lemma_note(start, asked);
                    }
                    let resolved = match found {
                        Ok(Some(location)) => location.id().duplicate(),
                        Ok(None) => {
                            let ghost looked = self.calls@;
                            let made = self.identities.next_location_id();
                            let ghost fresh = DiscoveryCall::NewLocationId { answer: made };
                            self.calls = Ghost(self.calls@.push(fresh));
                            proof {
                                lemma_note(looked, fresh);
                            }
                            match made {
                                Ok(id) => id,
                                Err(error) => {
                                    return Err(error);
                                },
                            }
                        },
                        Err(error) => {
                            return Err(error);
                        },
                    };
                    let key = path.duplicate();
                    proof {
                        lemma_push_path_entry(state.location_ids_by_path@, key, resolved);
                    }
                    state.location_ids_by_path.push((key, resolved.duplicate()));
                    proof {
                        assert(state.location_ids_by_path@.drop_last()
                            =~= old(state).spec_location_ids_by_path());
                        assert(state.spec_repositories() == old(state).spec_repositories());
                        assert(state.spec_locations() == old(state).spec_locations());
                        assert(state.spec_worktrees() == old(state).spec_worktrees());
                    }
                    resolved
                },
            },
        };
        let ghost resolved_calls = self.calls@;
        let owner = self.catalog.location(&location_id);
        let ghost check = DiscoveryCall::LocationCheck {
            location_id,
            repository_id: *repository_id,
            answer: owner,
        };
        self.calls = Ghost(self.calls@.push(check));
        proof {
            lemma_note(resolved_calls, check);
            assert(self.calls@.skip(start.len() as int).last() == check);
        }
        match location_ownership(owner, repository_id) {
            Ok(()) => Ok(location_id),
            Err(error) => Err(error),
        }
    }

    /// The worktree at a location: the one this run already resolved for
    /// it, else the catalog's worktree of the repository at that location,
    /// else a new identity.
    fn resolve_worktree_id(
        &mut self,
        state: &mut ReconciliationState,
        repository_id: &RepositoryId,
        location_id: &LocationId,
    ) -> (r: PortResult<WorktreeId>)
        requires
            old(state).well_formed(),
            all_fit(old(self).spec_last_run()),
            quiet(old(self).spec_last_run()),
            discovered(old(self).spec_last_run()) is Some,
        ensures
            final(self).spec_handed() == old(self).spec_handed(),
            final(self).spec_placements() == old(self).spec_placements(),
            carried_on(old(self).spec_last_run(), final(self).spec_last_run(), failure_of(r)),
            looked_up_only(old(self).spec_last_run(), final(self).spec_last_run()),
            final(state).well_formed(),
            final(state).same_entities(old(state)),
            final(state).spec_repository_ids_by_object() == old(
                state,
            ).spec_repository_ids_by_object(),
            final(state).spec_repository_ids_by_path() == old(state).spec_repository_ids_by_path(),
            final(state).spec_location_ids_by_object() == old(state).spec_location_ids_by_object(),
            final(state).spec_location_ids_by_path() == old(state).spec_location_ids_by_path(),
            r matches Ok(id) ==> location_maps(
                final(state).spec_worktree_ids_by_location(),
                location_id@,
                id,
            ),
            forall|id: WorktreeId|
                location_maps(old(state).spec_worktree_ids_by_location(), location_id@, id)
                    ==> r == Ok::<WorktreeId, PortError>(id),
            (exists|id: WorktreeId| location_maps(old(state).spec_worktree_ids_by_location(), location_id@, id))
                ==> final(self).spec_last_run() == old(self).spec_last_run(),
            !(exists|id: WorktreeId| location_maps(old(state).spec_worktree_ids_by_location(), location_id@, id))
                ==> (r matches Ok(id) ==> worktree_answer_at(
                final(self).spec_last_run().skip(old(self).spec_last_run().len() as int),
                0,
                *repository_id,
                location_id@,
                id,
            )),
            location_entry_added(
                old(state).spec_worktree_ids_by_location(),
                final(state).spec_worktree_ids_by_location(),
                location_id@,
                r,
            ),
    {
        let ghost start = self.calls@;
        match location_position(&state.worktree_ids_by_location, location_id) {
            Some(found) => {
                let id = state.worktree_ids_by_location[found].1.duplicate();
                proof {
                    assert forall|other: WorktreeId|
                        location_maps(
                            old(state).spec_worktree_ids_by_location(),
                            location_id@,
                            other,
                        ) implies id == other by {
                        lemma_location_entry_unique(
                            state.worktree_ids_by_location@,
                            found as int,
                            other,
                        );
                    }
                    assert(location_maps(state.worktree_ids_by_location@, location_id@, id)) by {
                        assert(state.worktree_ids_by_location@[found as int].0@ == location_id@);
                    }
                }
                return Ok(id);
            },
            None => {},
        }
        let listed = self.catalog.worktrees_for_repository(repository_id);
        let ghost asked = DiscoveryCall::WorktreesOf { repository_id: *repository_id, answer: listed };
        self.calls = Ghost(self.calls@.push(asked));
        proof {
            lemma_note(start, asked);
        }
        let ghost looked = self.calls@;
        let worktrees = match listed {
            Ok(worktrees) => worktrees,
            Err(error) => {
                return Err(error);
            },
        };
        let mut existing: Option<WorktreeId> = None;
        let mut index: usize = 0;
        while index < worktrees.len()
            invariant_except_break
                existing is None,
                forall|m: int| 0 <= m < index ==> (#[trigger] worktrees@[m]).spec_location_id()@ != location_id@,
            invariant
                index <= worktrees@.len(),
                self.calls@ == looked,
                self.handed@ == old(self).handed@,
            ensures
                match existing {
                    Some(id) => first_worktree_at(worktrees@, location_id@, index as int)
                        && worktrees@[index as int].spec_id() == id,
                    None => forall|m: int|
                        0 <= m < worktrees@.len() ==> (#[trigger] worktrees@[m]).spec_location_id()@
                            != location_id@,
                },
                self.calls@ == looked,
                self.handed@ == old(self).handed@,
            decreases worktrees@.len() - index,
        {
            if worktrees[index].location_id() == location_id {
                existing = Some(worktrees[index].id().duplicate());
                break;
            }
            index = index + 1;
        }
        let resolved = match existing {
            Some(id) => id,
            None => {
                let made = self.identities.next_worktree_id();
                let ghost fresh = DiscoveryCall::NewWorktreeId { answer: made };
                self.calls = Ghost(self.calls@.push(fresh));
                proof {
                    lemma_note(looked, fresh);
                }
                match made {
                    Ok(id) => id,
                    Err(error) => {
                        return Err(error);
                    },
                }
            },
        };
        let key = location_id.duplicate();
        proof {
            lemma_push_location_entry(state.worktree_ids_by_location@, key, resolved);
        }
        state.worktree_ids_by_location.push((key, resolved.duplicate()));
        proof {
            assert(state.worktree_ids_by_location@.drop_last()
                =~= old(state).spec_worktree_ids_by_location());
            assert(state.spec_repositories() == old(state).spec_repositories());
            assert(state.spec_locations() == old(state).spec_locations());
            assert(state.spec_worktrees() == old(state).spec_worktrees());
        }
        Ok(resolved)
    }

    /// Identifies one candidate and lists what it is. A probe or identity
    /// failure is kept as an issue of the candidate, except a cancellation,
    /// which ends the run. When the run goes on, the candidate's placement is
    /// recorded.
    #[verifier::spinoff_prover]
    #[verifier::rlimit(100)]
    fn place_candidate(
        &mut self,
        state: &mut ReconciliationState,
        issues: &mut Vec<RepositoryIdentificationIssue>,
        candidate: &RepositoryCandidate,
    ) -> (r: PortResult<()>)
        requires
            old(state).well_formed(),
            all_fit(old(self).spec_last_run()),
            quiet(old(self).spec_last_run()),
            next_candidate(old(self).spec_last_run(), *candidate),
            issues_match(old(issues)@, issues_of(old(self).spec_last_run())),
            references_listed(
                old(state).spec_repositories(),
                old(state).spec_locations(),
                old(state).spec_worktrees(),
            ),
            state_of_placements(old(self).spec_placements(), *old(state)),
        ensures
            references_listed(
                final(state).spec_repositories(),
                final(state).spec_locations(),
                final(state).spec_worktrees(),
            ),
            final(self).spec_handed() == old(self).spec_handed(),
            carried_on(old(self).spec_last_run(), final(self).spec_last_run(), failure_of(r)),
            discovered(final(self).spec_last_run()) == discovered(old(self).spec_last_run()),
            probe_count(final(self).spec_last_run()) == probe_count(old(self).spec_last_run()) + 1,
            issues_match(final(issues)@, issues_of(final(self).spec_last_run())),
            final(state).well_formed(),
            r is Ok ==> placement_recorded(
                old(self).spec_placements(),
                final(self).spec_placements(),
                old(self).spec_last_run(),
                final(self).spec_last_run(),
                *candidate,
            ),
            r is Ok ==> state_of_placements(final(self).spec_placements(), *final(state)),
    {
        let ghost start = self.calls@;
        let ghost earlier = self.placements@;
        let ghost state0 = *state;
        let answer = self.git.probe(candidate);
        let ghost probe = DiscoveryCall::Probe { candidate: *candidate, answer };
        self.calls = Ghost(self.calls@.push(probe));
        proof {
            lemma_note(start, probe);
        }
        let ghost probed = self.calls@;
        let layout = match answer {
            Ok(layout) => layout,
            Err(error) => {
                let issue = match probe_failure(candidate, error) {
                    Ok(issue) => issue,
                    Err(error) => {
                        return Err(error);
                    },
                };
                proof {
                    lemma_issue_kept(issues@, issues_of(start), issue);
                }
                issues.push(issue);
                let ghost placement = Placement {
                    candidate: *candidate,
                    calls: self.calls@.skip(start.len() as int),
                    listing: None,
                };
                proof {
                    assert(placement.calls =~= seq![probe]);
                    lemma_placement_recorded(earlier, state0, state0, placement);
                }
                self.placements = Ghost(self.placements@.push(placement));
                proof {
                    assert(self.placements@.drop_last() =~= earlier);
                }
                return Ok(());
            },
        };
        match validate_layout(&layout) {
            Ok(()) => {},
            Err(error) => {
                return Err(error);
            },
        }
        let common_answer = self.filesystem.identity(layout.common_dir());
        let ghost common_asked = DiscoveryCall::Identity {
            subject: candidate.spec_path(),
            path: layout.spec_common_dir(),
            answer: common_answer,
        };
        self.calls = Ghost(self.calls@.push(common_asked));
        proof {
            lemma_note(probed, common_asked);
        }
        let common_dir_object_id = match common_answer {
            Ok(identity) => identity.object_id(),
            Err(error) => {
                let issue = RepositoryIdentificationIssue::new(candidate.path().duplicate(), error.kind());
                proof {
                    lemma_issue_kept(issues@, issues_of(probed), issue);
                }
                issues.push(issue);
                let ghost placement = Placement {
                    candidate: *candidate,
                    calls: self.calls@.skip(start.len() as int),
                    listing: None,
                };
                proof {
                    assert(placement.calls =~= seq![probe, common_asked]);
                    assert(placement.calls[1] == common_asked);
                    lemma_placement_recorded(earlier, state0, state0, placement);
                }
                self.placements = Ghost(self.placements@.push(placement));
                proof {
                    assert(self.placements@.drop_last() =~= earlier);
                }
                return Ok(());
            },
        };
        let location_path: &FsPath = match layout.worktree_path() {
            Some(path) => path,
            None => layout.common_dir(),
        };
        let ghost identified = self.calls@;
        let location_object_id = if location_path.same_as(layout.common_dir()) {
            common_dir_object_id
        } else {
            let location_answer = self.filesystem.identity(location_path);
            let ghost location_asked = DiscoveryCall::Identity {
                subject: candidate.spec_path(),
                path: *location_path,
                answer: location_answer,
            };
            self.calls = Ghost(self.calls@.push(location_asked));
            proof {
                lemma_note(identified, location_asked);
            }
            match location_answer {
                Ok(identity) => {
                    proof {
                        let part = self.calls@.skip(start.len() as int);
                        assert(part[2] == location_asked);
                        assert(identity_answered(part, 2, location_path@, identity.spec_object_id()));
                    }
                    identity.object_id()
                },
                Err(error) => {
                    let issue = RepositoryIdentificationIssue::new(
                        candidate.path().duplicate(),
                        error.kind(),
                    );
                    proof {
                        lemma_issue_kept(issues@, issues_of(identified), issue);
                    }
                    issues.push(issue);
                    let ghost placement = Placement {
                        candidate: *candidate,
                        calls: self.calls@.skip(start.len() as int),
                        listing: None,
                    };
                    proof {
                        assert(placement.calls =~= seq![probe, common_asked, location_asked]);
                        assert(placement.calls[2] == location_asked);
                        lemma_placement_recorded(earlier, state0, state0, placement);
                    }
                    self.placements = Ghost(self.placements@.push(placement));
                    proof {
                        assert(self.placements@.drop_last() =~= earlier);
                    }
                    return Ok(());
                },
            }
        };
        proof {
            let part = self.calls@.skip(start.len() as int);
            assert(part[0] == probe);
            assert(part[1] == common_asked);
            assert(self.calls@[start.len() as int] == probe);
            assert(identity_answered(part, 1, layout.spec_common_dir()@, common_dir_object_id));
        }
        self.list_candidate(
            state,
            candidate,
            &layout,
            location_path,
            common_dir_object_id,
            location_object_id,
            Ghost(start),
        )
    }

    /// Resolves the repository of a common directory and the location at a
    /// path, which the catalog is asked to confirm belongs to that
    /// repository.
    #[verifier::spinoff_prover]
    #[verifier::rlimit(100)]
    fn resolve_keys(
        &mut self,
        state: &mut ReconciliationState,
        common_dir: &FsPath,
        location_path: &FsPath,
        common_dir_object_id: Option<FilesystemObjectId>,
        location_object_id: Option<FilesystemObjectId>,
    ) -> (r: PortResult<(RepositoryId, LocationId)>)
        requires
            old(state).well_formed(),
            all_fit(old(self).spec_last_run()),
            quiet(old(self).spec_last_run()),
            discovered(old(self).spec_last_run()) is Some,
        ensures
            final(self).spec_handed() == old(self).spec_handed(),
            final(self).spec_placements() == old(self).spec_placements(),
            carried_on(old(self).spec_last_run(), final(self).spec_last_run(), failure_of(r)),
            looked_up_only(old(self).spec_last_run(), final(self).spec_last_run()),
            final(state).well_formed(),
            final(state).same_entities(old(state)),
            r matches Ok(ids) ==> final(self).spec_last_run().len() > old(self).spec_last_run().len()
                && location_checked_at(
                final(self).spec_last_run().skip(old(self).spec_last_run().len() as int),
                final(self).spec_last_run().len() - old(self).spec_last_run().len() - 1,
                ids.1,
                ids.0,
            ),
    {
        let ghost start = self.calls@;
        let repository_id = match self.resolve_repository_id(state, common_dir, common_dir_object_id) {
            Ok(id) => id,
            Err(error) => {
                return Err(error);
            },
        };
        let ghost middle = self.calls@;
        let location_id = match self.resolve_location_id(
            state,
            &repository_id,
            location_path,
            location_object_id,
        ) {
            Ok(id) => id,
            Err(error) => {
                return Err(error);
            },
        };
        proof {
            let part = self.calls@.skip(middle.len() as int);
            let whole = self.calls@.skip(start.len() as int);
            let last = part.len() - 1;
            assert(whole[middle.len() - start.len() + last] == part[last]);
        }
        Ok((repository_id, location_id))
    }

    /// Resolves the worktree at a location and lists it.
    #[verifier::spinoff_prover]
    fn list_worktree(
        &mut self,
        state: &mut ReconciliationState,
        repository_id: &RepositoryId,
        location_id: &LocationId,
    ) -> (r: PortResult<WorktreeId>)
        requires
            old(state).well_formed(),
            all_fit(old(self).spec_last_run()),
            quiet(old(self).spec_last_run()),
            discovered(old(self).spec_last_run()) is Some,
            repository_listed(old(state).spec_repositories(), repository_id@),
            location_listed(old(state).spec_locations(), location_id@),
        ensures
            final(self).spec_handed() == old(self).spec_handed(),
            final(self).spec_placements() == old(self).spec_placements(),
            carried_on(old(self).spec_last_run(), final(self).spec_last_run(), failure_of(r)),
            looked_up_only(old(self).spec_last_run(), final(self).spec_last_run()),
            final(state).well_formed(),
            final(state).spec_repositories() == old(state).spec_repositories(),
            final(state).spec_locations() == old(state).spec_locations(),
            grew_by_at_most_one(old(state).spec_worktrees(), final(state).spec_worktrees()),
            final(state).spec_worktrees().len() > old(state).spec_worktrees().len() ==> {
                &&& r is Ok
                &&& final(state).spec_worktrees().last().spec_id() == r->Ok_0
                &&& final(state).spec_worktrees().last().spec_repository_id() == *repository_id
                &&& final(state).spec_worktrees().last().spec_location_id() == *location_id
            },
            r matches Ok(id) ==> worktree_listed(final(state).spec_worktrees(), id@),
            references_listed(
                old(state).spec_repositories(),
                old(state).spec_locations(),
                old(state).spec_worktrees(),
            ) ==> references_listed(
                final(state).spec_repositories(),
                final(state).spec_locations(),
                final(state).spec_worktrees(),
            ),
    {
        let worktree_id = match self.resolve_worktree_id(state, repository_id, location_id) {
            Ok(id) => id,
            Err(error) => {
                return Err(error);
            },
        };
        let ghost resolved = *state;
        state.add_worktree(repository_id.duplicate(), location_id.duplicate(), worktree_id.duplicate());
        proof {
            if references_listed(resolved.spec_repositories(), resolved.spec_locations(), resolved.spec_worktrees()) {
                lemma_references_kept(
                    resolved.spec_repositories(),
                    state.spec_repositories(),
                    resolved.spec_locations(),
                    state.spec_locations(),
                    resolved.spec_worktrees(),
                    state.spec_worktrees(),
                );
            }
            if !resolved.lists_worktree(worktree_id@) {
                assert(state.spec_worktrees()[state.spec_worktrees().len() - 1].spec_id() == worktree_id);
            }
            assert(worktree_listed(state.spec_worktrees(), worktree_id@));
        }
        Ok(worktree_id)
    }

    /// Resolves and lists a candidate whose probe gave an absolute layout
    /// and whose identities were read, and records its placement.
    #[verifier::spinoff_prover]
    #[verifier::rlimit(100)]
    fn list_candidate(
        &mut self,
        state: &mut ReconciliationState,
        candidate: &RepositoryCandidate,
        layout: &GitRepositoryLayout,
        location_path: &FsPath,
        common_dir_object_id: Option<FilesystemObjectId>,
        location_object_id: Option<FilesystemObjectId>,
        Ghost(start): Ghost<Seq<DiscoveryCall>>,
    ) -> (r: PortResult<()>)
        requires
            old(state).well_formed(),
            all_fit(old(self).spec_last_run()),
            quiet(old(self).spec_last_run()),
            discovered(old(self).spec_last_run()) is Some,
            references_listed(
                old(state).spec_repositories(),
                old(state).spec_locations(),
                old(state).spec_worktrees(),
            ),
            state_of_placements(old(self).spec_placements(), *old(state)),
            prefix_kept(start, old(self).spec_last_run()),
            start.len() < old(self).spec_last_run().len(),
            old(self).spec_last_run()[start.len() as int] == (DiscoveryCall::Probe {
                candidate: *candidate,
                answer: Ok(*layout),
            }),
            layout_is_absolute(*layout),
            location_path@ == location_path_of(*layout),
            identity_answered(
                old(self).spec_last_run().skip(start.len() as int),
                1,
                layout.spec_common_dir()@,
                common_dir_object_id,
            ),
            if location_path@ == layout.spec_common_dir()@ {
                location_object_id == common_dir_object_id
            } else {
                identity_answered(
                    old(self).spec_last_run().skip(start.len() as int),
                    2,
                    location_path@,
                    location_object_id,
                )
            },
        ensures
            final(self).spec_handed() == old(self).spec_handed(),
            carried_on(old(self).spec_last_run(), final(self).spec_last_run(), failure_of(r)),
            looked_up_only(old(self).spec_last_run(), final(self).spec_last_run()),
            final(state).well_formed(),
            references_listed(
                final(state).spec_repositories(),
                final(state).spec_locations(),
                final(state).spec_worktrees(),
            ),
            r is Ok ==> placement_recorded(
                old(self).spec_placements(),
                final(self).spec_placements(),
                start,
                final(self).spec_last_run(),
                *candidate,
            ),
            r is Ok ==> state_of_placements(final(self).spec_placements(), *final(state)),
    {
        let ghost earlier = self.placements@;
        let ghost state0 = *state;
        let ghost before_keys = self.calls@;
        let (repository_id, location_id) = match self.resolve_keys(
            state,
            layout.common_dir(),
            location_path,
            common_dir_object_id,
            location_object_id,
        ) {
            Ok(ids) => ids,
            Err(error) => {
                return Err(error);
            },
        };
        let ghost after_keys = self.calls@;
        let ghost unlisted = *state;
        state.list_repository_location(
            &repository_id,
            &location_id,
            layout.common_dir(),
            location_path,
            common_dir_object_id,
            location_object_id,
        );
        let ghost repository_kept = repository_id;
        let ghost location_kept = location_id;
        let worktree_id: Option<WorktreeId> = if layout.worktree_path().is_some() {
            match self.list_worktree(state, &repository_id, &location_id) {
                Ok(id) => Some(id),
                Err(error) => {
                    return Err(error);
                },
            }
        } else {
            None
        };
        let ghost listing = Listing {
            layout: *layout,
            repository_object: common_dir_object_id,
            repository_id: repository_kept,
            location_path: *location_path,
            location_object: location_object_id,
            location_id: location_kept,
            worktree_id,
        };
        let ghost placement = Placement {
            candidate: *candidate,
            calls: self.calls@.skip(start.len() as int),
            listing: Some(listing),
        };
        let ghost run = self.calls@;
        let ghost state_end = *state;
        proof {
            let calls = placement.calls;
            let part = after_keys.skip(before_keys.len() as int);
            let checked = after_keys.len() - 1 - start.len();
            assert(run[after_keys.len() - 1] == after_keys[after_keys.len() - 1]);
            assert(calls[checked] == part[part.len() - 1]);
            assert(location_checked_at(calls, checked, location_kept, repository_kept));
            let entry = old(self).calls@;
            let given = entry.skip(start.len() as int);
            assert(run[start.len() + 1int] == entry[start.len() + 1int]);
            assert(calls[1] == given[1]);
            if location_path@ != layout.spec_common_dir()@ {
                assert(run[start.len() + 2int] == entry[start.len() + 2int]);
                assert(calls[2] == given[2]);
            }
            assert(calls[0] == given[0]);
            lemma_listing_recorded(earlier, state0, state_end, placement, listing, checked);
        }
        self.placements = Ghost(self.placements@.push(placement));
        proof {
            assert(self.placements@.drop_last() =~= earlier);
        }
        Ok(())
    }

    /// Discovers the root of the request and reconciles what was found.
    /// An unreachable root is marked offline before its error is returned;
    /// a probe failure other than a cancellation, and an identity that
    /// cannot be read, are kept as issues and the run goes on; any other
    /// error ends the run before anything is reconciled. The reconciliation
    /// is complete when discovery met no issue and every candidate was
    /// identified.
    #[verifier::spinoff_prover]
    #[verifier::rlimit(100)]
    pub fn execute(&mut self, request: &DiscoveryRequest) -> (r: PortResult<
        DiscoverRepositoriesOutcome,
    >)
        ensures
            discovery_run(*request, final(self).spec_last_run(), r),
            r matches Ok(outcome) ==> (outcome.spec_coverage()
                == CatalogReconciliationCoverage::Complete <==> (
            outcome.spec_discovery_issues().len() == 0
                && outcome.spec_identification_issues().len() == 0)),
            handed_for_run(old(self).spec_handed(), final(self).spec_handed(), r, *request),
            handed_last(old(self).spec_handed(), final(self).spec_handed(), final(self).spec_last_run()),
            r is Ok ==> run_placed(
                final(self).spec_last_run(),
                final(self).spec_placements(),
                final(self).spec_handed().last(),
            ),
    {
        let answer = self.discovery.discover(request);
        let ghost asked = DiscoveryCall::Discover { request: *request, answer };
        self.calls = Ghost(Seq::empty().push(asked));
        self.placements = Ghost(Seq::empty());
        proof {
            lemma_note(Seq::empty(), asked);
            assert(self.calls@ =~= seq![asked]);
        }
        let discovery = match answer {
            Ok(discovery) => discovery,
            Err(error) => {
                if error.kind() == PortErrorKind::ResourceUnavailable {
                    let marked = self.catalog.mark_discovery_root_offline(request.root());
                    let ghost mark = DiscoveryCall::MarkOffline { root: request.spec_root(), answer: marked };
                    self.calls = Ghost(self.calls@.push(mark));
                    proof {
                        lemma_note(seq![asked], mark);
                    }
                    match marked {
                        Ok(()) => {},
                        Err(failure) => {
                            return Err(failure);
                        },
                    }
                }
                return Err(error);
            },
        };
        let mut state = ReconciliationState::new();
        let mut identification_issues: Vec<RepositoryIdentificationIssue> = Vec::new();
        proof {
            assert(issues_of(seq![asked]) =~= Seq::<(Seq<u8>, PortErrorKind)>::empty()) by {
                assert(seq![asked].drop_last() =~= Seq::<DiscoveryCall>::empty());
            }
            assert(probe_count(seq![asked]) == 0) by {
                assert(seq![asked].drop_last() =~= Seq::<DiscoveryCall>::empty());
            }
        }
        let root_filesystem_id: Option<u128> = if request.exclusions().len() == 0
            && request.filesystem_boundary() == FilesystemBoundary::StayOnRootFilesystem {
            let root_answer = self.filesystem.identity(discovery.root());
            let ghost root_asked = DiscoveryCall::Identity {
                subject: discovery.spec_root(),
                path: discovery.spec_root(),
                answer: root_answer,
            };
            self.calls = Ghost(self.calls@.push(root_asked));
            proof {
                assert(latest_probe(seq![asked]) is None) by {
                    assert(seq![asked].drop_last() =~= Seq::<DiscoveryCall>::empty());
                }
                lemma_note(seq![asked], root_asked);
            }
            match root_answer {
                Ok(FilesystemIdentityEvidence::Strong(object_id)) => Some(object_id.filesystem_id()),
                Ok(FilesystemIdentityEvidence::PathOnly) => None,
                Err(error) => {
                    let issue = RepositoryIdentificationIssue::new(discovery.root().duplicate(), error.kind());
                    proof {
                        lemma_issue_kept(identification_issues@, issues_of(seq![asked]), issue);
                    }
                    identification_issues.push(issue);
                    None
                },
            }
        } else {
            None
        };
        let candidates = discovery.candidates();
        let ghost head = self.calls@;
        proof {
            assert(state_of_placements(self.placements@, state)) by {
                reveal(state_of_placements);
            }
            assert(joined_calls(self.placements@) =~= Seq::<DiscoveryCall>::empty());
            assert(head + joined_calls(self.placements@) =~= head);
            assert(candidates@.take(0) =~= Seq::<RepositoryCandidate>::empty());
        }
        let mut index: usize = 0;
        while index < candidates.len()
            invariant
                index <= candidates@.len(),
                candidates@ == discovery.spec_candidates()@,
                state.well_formed(),
                self.handed@ == old(self).handed@,
                all_fit(self.calls@),
                quiet(self.calls@),
                self.calls@.len() > 0,
                self.calls@[0] == asked,
                asked == (DiscoveryCall::Discover { request: *request, answer: Ok(discovery) }),
                probe_count(self.calls@) == index,
                issues_match(identification_issues@, issues_of(self.calls@)),
                references_listed(state.spec_repositories(), state.spec_locations(), state.spec_worktrees()),
                state_of_placements(self.placements@, state),
                all_placed(self.placements@, candidates@.take(index as int)),
                self.calls@ == head + joined_calls(self.placements@),
                1 <= head.len() <= 2,
            decreases candidates@.len() - index,
        {
            proof {
                assert(discovered(self.calls@) == Some(discovery));
            }
            let ghost placed_before = self.placements@;
            let ghost calls_before = self.calls@;
            match self.place_candidate(&mut state, &mut identification_issues, &candidates[index]) {
                Ok(()) => {},
                Err(error) => {
                    return Err(error);
                },
            }
            proof {
                let placement = self.placements@.last();
                assert(self.placements@ =~= placed_before.push(placement));
                lemma_all_placed_grows(
                    placed_before,
                    candidates@.take(index as int),
                    placement,
                    candidates@[index as int],
                );
                assert(candidates@.take(index as int).push(candidates@[index as int])
                    =~= candidates@.take(index + 1));
                assert(self.calls@ =~= calls_before + placement.calls);
                assert(self.placements@.drop_last() =~= placed_before);
                assert(joined_calls(self.placements@) == joined_calls(placed_before) + placement.calls);
                assert(self.calls@ =~= head + joined_calls(self.placements@));
            }
            index = index + 1;
        }
        let coverage = reconciliation_coverage(&discovery, &identification_issues);
        let scope = missing_scope(request, coverage, root_filesystem_id);
        let ghost listed = state;
        proof {
            lemma_state_parts(self.placements@, listed);
        }
        let reconciliation = state.finish(discovery.root().duplicate(), coverage, scope);
        let outcome = discovery_outcome(&discovery, identification_issues, &reconciliation);
        proof {
            assert(listed_once(reconciliation)) by {
                assert(listed.well_formed());
            }
            assert(scope_fits(*request, coverage, scope));
            assert(reconciliation_reported(reconciliation, outcome, *request));
        }
        self.handed = Ghost(self.handed@.push(reconciliation));
        proof {
            assert(self.handed@.drop_last() =~= old(self).handed@);
        }
        let ghost placed = self.calls@;
        let reconciled = self.catalog.reconcile(&reconciliation);
        let ghost handing = DiscoveryCall::Reconcile { reconciliation, answer: reconciled };
        self.calls = Ghost(self.calls@.push(handing));
        proof {
            assert(discovered(placed) == Some(discovery));
            lemma_note(placed, handing);
            assert(candidates@.take(candidates@.len() as int) =~= candidates@);
            let run = self.calls@;
            assert(run.drop_last() == placed);
            assert(run.take(head.len() as int) =~= head);
        }
        match reconciled {
            Ok(()) => Ok(outcome),
            Err(error) => Err(error),
        }
    }
}

/// No root of a sequence of outcomes was reconciled partially exactly when
/// the count of partially reconciled roots is zero.
proof fn lemma_no_partial_root(outcomes: Seq<DiscoverRepositoriesOutcome>)
    ensures
        sum_by(outcomes, partial_measure()) == 0 <==> forall|k: int|
            0 <= k < outcomes.len() ==> #[trigger] outcomes[k].spec_coverage()
                != CatalogReconciliationCoverage::Partial,
    decreases outcomes.len(),
{
    if outcomes.len() > 0 {
        let rest = outcomes.drop_last();
        let last = outcomes.last();
        lemma_no_partial_root(rest);
        assert(sum_by(outcomes, partial_measure()) == sum_by(rest, partial_measure())
            + partial_measure()(last));
        assert(partial_measure()(last) == 0 <==> last.spec_coverage()
            != CatalogReconciliationCoverage::Partial);
        assert forall|k: int| 0 <= k < rest.len() implies #[trigger] rest[k] == outcomes[k] by {}
        if sum_by(outcomes, partial_measure()) == 0 {
            assert forall|k: int| 0 <= k < outcomes.len() implies #[trigger] outcomes[k].spec_coverage()
                != CatalogReconciliationCoverage::Partial by {
                if k < rest.len() {
                    assert(rest[k] == outcomes[k]);
                } else {
                    assert(outcomes[k] == last);
                }
            }
        } else if sum_by(rest, partial_measure()) != 0 {
            let k = choose|k: int|
                0 <= k < rest.len() && #[trigger] rest[k].spec_coverage()
                    == CatalogReconciliationCoverage::Partial;
            assert(outcomes[k] == rest[k]);
        } else {
            assert(outcomes[outcomes.len() - 1] == last);
        }
    }
}

/// A batch of discovered roots is failed when no root completed, partial
/// when some root completed and another failed, and otherwise complete
/// when no completed root was reconciled partially and partial when one
/// was.
pub proof fn law_batch_completion(batch: DiscoveryBatchOutcome)
    ensures
        batch.spec_completed().len() == 0 ==> batch.spec_completion() == OperationCompletion::Failed,
        batch.spec_completed().len() > 0 && batch.spec_failed_roots().len() > 0
            ==> batch.spec_completion() == OperationCompletion::Partial,
        batch.spec_completed().len() > 0 && batch.spec_failed_roots().len() == 0 ==> (
        batch.spec_completion() == if forall|k: int|
            0 <= k < batch.spec_completed().len() ==> #[trigger] batch.spec_completed()[k].spec_coverage()
                != CatalogReconciliationCoverage::Partial {
            OperationCompletion::Complete
        } else {
            OperationCompletion::Partial
        }),
{
    lemma_no_partial_root(batch.spec_completed());
}

} // verus!
