use std::cell::Cell;
use std::collections::HashMap;

use bulls::observe::{execute_target, failed_attempt, settle, summarize, ObservationTarget, TargetOutcome};
use bulls::ports::{
    CancellationPort, CatalogReconciliation, ClockPort, FilesystemObjectId, GitObservationPort,
    IdentityGeneratorPort, ObservationStorePort, PortError, PortErrorKind, PortResult,
    RepositoryCatalogPort,
};
use bulls::{
    FsPath, Location, LocationAvailability, LocationId, Observation, ObservationAttempt,
    ObservationCoverage, ObservationExecutionPolicy, ObservationFailureKind, ObservationKey,
    ObservationRunId, ObserveInventory, OperationCompletion, Remote, Repository, RepositoryId,
    Timestamp, Worktree, WorktreeGitState, WorktreeId,
};

struct TestCatalog {
    repositories: Vec<Repository>,
    locations: Vec<Location>,
    worktrees: Vec<Worktree>,
}

impl RepositoryCatalogPort for TestCatalog {
    fn repositories(&self) -> PortResult<Vec<Repository>> {
        Ok(self.repositories.clone())
    }

    fn repository(&self, repository_id: &RepositoryId) -> PortResult<Option<Repository>> {
        Ok(self.repositories.iter().find(|repository| repository.id() == repository_id).cloned())
    }

    fn location(&self, location_id: &LocationId) -> PortResult<Option<Location>> {
        Ok(self.locations.iter().find(|location| location.id() == location_id).cloned())
    }

    fn location_by_path(&self, path: &FsPath) -> PortResult<Option<Location>> {
        Ok(self.locations.iter().find(|location| location.path() == path).cloned())
    }

    fn repository_id_by_common_dir(&self, _common_dir: &FsPath) -> PortResult<Option<RepositoryId>> {
        Ok(None)
    }

    fn repository_id_by_common_dir_object(&self, _object_id: FilesystemObjectId) -> PortResult<Option<RepositoryId>> {
        Ok(None)
    }

    fn location_id_by_filesystem_object(&self, _object_id: FilesystemObjectId) -> PortResult<Option<LocationId>> {
        Ok(None)
    }

    fn locations_for_repository(&self, repository_id: &RepositoryId) -> PortResult<Vec<Location>> {
        Ok(self.locations.iter().filter(|location| location.repository_id() == repository_id).cloned().collect())
    }

    fn worktrees_for_repository(&self, repository_id: &RepositoryId) -> PortResult<Vec<Worktree>> {
        Ok(self.worktrees.iter().filter(|worktree| worktree.repository_id() == repository_id).cloned().collect())
    }

    fn mark_discovery_root_offline(&mut self, _root: &FsPath) -> PortResult<()> {
        Ok(())
    }

    fn reconcile(&mut self, _reconciliation: &CatalogReconciliation) -> PortResult<()> {
        Ok(())
    }
}

struct TestGitObservation {
    worktree_results: HashMap<FsPath, PortResult<WorktreeGitState>>,
    repository_result: PortResult<Vec<Remote>>,
    calls: Cell<usize>,
    active: Cell<usize>,
    max_active: Cell<usize>,
}

impl TestGitObservation {
    fn successful() -> Self {
        Self {
            worktree_results: HashMap::new(),
            repository_result: Ok(vec![Remote::new("origin")]),
            calls: Cell::new(0),
            active: Cell::new(0),
            max_active: Cell::new(0),
        }
    }

    fn with_worktree_result(mut self, path: &str, result: PortResult<WorktreeGitState>) -> Self {
        self.worktree_results.insert(FsPath::new(path), result);
        self
    }

    fn calls(&self) -> usize {
        self.calls.get()
    }

    fn max_active(&self) -> usize {
        self.max_active.get()
    }

    fn execute<T>(&self, result: PortResult<T>) -> PortResult<T> {
        self.calls.set(self.calls.get() + 1);
        let active = self.active.get() + 1;
        self.active.set(active);
        self.max_active.set(self.max_active.get().max(active));
        self.active.set(active - 1);
        result
    }
}

impl GitObservationPort for TestGitObservation {
    fn observe_worktree(&self, worktree_path: &FsPath) -> PortResult<WorktreeGitState> {
        let result = self
            .worktree_results
            .get(worktree_path)
            .cloned()
            .unwrap_or_else(|| Ok(WorktreeGitState::detached()));
        self.execute(result)
    }

    fn observe_repository_remotes(&self, _repository_path: &FsPath) -> PortResult<Vec<Remote>> {
        self.execute(self.repository_result.clone())
    }
}

struct TestClock(Timestamp);

impl ClockPort for TestClock {
    fn now(&self) -> Timestamp {
        self.0
    }
}

struct TestCancellation(bool);

impl CancellationPort for TestCancellation {
    fn is_cancelled(&self) -> bool {
        self.0
    }
}

struct TestIdentityGenerator;

impl IdentityGeneratorPort for TestIdentityGenerator {
    fn next_repository_id(&mut self) -> PortResult<RepositoryId> {
        Ok(RepositoryId::new("unused-repository"))
    }

    fn next_location_id(&mut self) -> PortResult<LocationId> {
        Ok(LocationId::new("unused-location"))
    }

    fn next_worktree_id(&mut self) -> PortResult<WorktreeId> {
        Ok(WorktreeId::new("unused-worktree"))
    }

    fn next_observation_run_id(&mut self) -> PortResult<ObservationRunId> {
        Ok(ObservationRunId::new("observation-run-1"))
    }
}

struct TestObservationStore<T> {
    attempts: Vec<ObservationAttempt<T>>,
}

impl<T> Default for TestObservationStore<T> {
    fn default() -> Self {
        Self { attempts: Vec::new() }
    }
}

impl<T: Clone> ObservationStorePort for TestObservationStore<T> {
    type Value = T;

    fn latest_observation(&self, key: &ObservationKey) -> PortResult<Option<Observation<Self::Value>>> {
        Ok(self.attempts.iter().rev().find_map(|attempt| match attempt {
            ObservationAttempt::Succeeded(observation) if observation.metadata().key() == key => {
                Some(observation.clone())
            },
            _ => None,
        }))
    }

    fn latest_attempt(&self, key: &ObservationKey) -> PortResult<Option<ObservationAttempt<Self::Value>>> {
        Ok(self.attempts.iter().rev().find(|attempt| attempt.metadata().key() == key).cloned())
    }

    fn save_attempt(&mut self, attempt: &ObservationAttempt<Self::Value>) -> PortResult<()> {
        self.attempts.push(attempt.clone());
        Ok(())
    }
}

fn catalog(worktree_count: usize, availability: LocationAvailability) -> TestCatalog {
    let repository_id = RepositoryId::new("repository-1");
    let repository = Repository::new(repository_id.clone());
    let mut locations = Vec::new();
    let mut worktrees = Vec::new();

    for index in 0..worktree_count.max(1) {
        let location_id = LocationId::from_string(format!("location-{index:02}"));
        locations.push(Location::new(
            location_id.clone(),
            repository_id.clone(),
            FsPath::new(&format!("/workspace/worktree-{index:02}")),
            availability,
        ));
        if index < worktree_count {
            worktrees.push(Worktree::new(
                WorktreeId::from_string(format!("worktree-{index:02}")),
                repository_id.clone(),
                location_id,
            ));
        }
    }

    TestCatalog { repositories: vec![repository], locations, worktrees }
}

#[test]
fn observation_limits_parallelism_and_persists_every_success() {
    let catalog = catalog(8, LocationAvailability::Available);
    let git = TestGitObservation::successful();
    let clock = TestClock(Timestamp::from_unix_seconds(42));
    let cancellation = TestCancellation(false);
    let mut identities = TestIdentityGenerator;
    let mut worktree_store = TestObservationStore::default();
    let mut repository_store = TestObservationStore::default();
    let mut observer = ObserveInventory::new(
        &catalog,
        &git,
        &clock,
        &cancellation,
        &mut identities,
        &mut worktree_store,
        &mut repository_store,
    );

    let outcome = observer
        .execute(ObservationExecutionPolicy::new(2).expect("parallelism must be valid"))
        .expect("inventory observation must succeed");

    assert_eq!(outcome.run_id().as_str(), "observation-run-1");
    assert_eq!(outcome.coverage(), ObservationCoverage::Complete);
    assert!(!outcome.is_partial());
    assert_eq!(outcome.target_count(), 9);
    assert_eq!(outcome.succeeded_count(), 9);
    assert_eq!(outcome.failed_count(), 0);
    assert_eq!(outcome.cancelled_count(), 0);
    assert!(outcome.failures().is_empty());
    assert_eq!(outcome.completion(), OperationCompletion::Complete);
    assert!(!outcome.was_cancelled());
    assert_eq!(git.calls(), 9);
    assert!(git.max_active() <= 2);
    assert_eq!(worktree_store.attempts.len(), 8);
    assert_eq!(repository_store.attempts.len(), 1);
    assert!(worktree_store.attempts.iter().all(|attempt| {
        attempt.metadata().run_id().as_str() == "observation-run-1"
            && attempt.metadata().coverage() == ObservationCoverage::Complete
            && attempt.metadata().freshness().observed_at() == Timestamp::from_unix_seconds(42)
    }));
}

#[test]
fn target_failures_are_isolated_typed_and_persisted_with_partial_coverage() {
    let catalog = catalog(3, LocationAvailability::Available);
    let git = TestGitObservation::successful()
        .with_worktree_result("/workspace/worktree-01", Err(PortError::new(PortErrorKind::TimedOut)))
        .with_worktree_result("/workspace/worktree-02", Err(PortError::new(PortErrorKind::ResourceUnavailable)));
    let clock = TestClock(Timestamp::unix_epoch());
    let cancellation = TestCancellation(false);
    let mut identities = TestIdentityGenerator;
    let mut worktree_store = TestObservationStore::default();
    let mut repository_store = TestObservationStore::default();
    let mut observer = ObserveInventory::new(
        &catalog,
        &git,
        &clock,
        &cancellation,
        &mut identities,
        &mut worktree_store,
        &mut repository_store,
    );

    let outcome = observer
        .execute(ObservationExecutionPolicy::default())
        .expect("individual target failures must not abort the batch");

    assert_eq!(outcome.coverage(), ObservationCoverage::Partial);
    assert!(outcome.is_partial());
    assert_eq!(outcome.target_count(), 4);
    assert_eq!(outcome.succeeded_count(), 2);
    assert_eq!(outcome.failed_count(), 2);
    assert_eq!(outcome.cancelled_count(), 0);
    assert_eq!(outcome.completion(), OperationCompletion::Partial);
    assert!(!outcome.was_cancelled());
    assert_eq!(outcome.failures().len(), 2);
    assert_eq!(outcome.failures()[0].key(), &ObservationKey::worktree_git_state(WorktreeId::new("worktree-01")));
    assert_eq!(outcome.failures()[0].kind(), ObservationFailureKind::TimedOut);
    assert_eq!(outcome.failures()[1].key(), &ObservationKey::worktree_git_state(WorktreeId::new("worktree-02")));
    assert_eq!(outcome.failures()[1].kind(), ObservationFailureKind::SubjectDisappeared);
    assert_eq!(worktree_store.attempts.len(), 3);
    assert!(matches!(
        worktree_store
            .latest_attempt(&ObservationKey::worktree_git_state(WorktreeId::new("worktree-01")))
            .expect("latest attempt lookup must succeed"),
        Some(ObservationAttempt::Failed(ref failure))
            if failure.kind() == ObservationFailureKind::TimedOut
                && failure.metadata().coverage() == ObservationCoverage::Partial
    ));
    assert!(matches!(
        worktree_store
            .latest_attempt(&ObservationKey::worktree_git_state(WorktreeId::new("worktree-02")))
            .expect("latest attempt lookup must succeed"),
        Some(ObservationAttempt::Failed(ref failure))
            if failure.kind() == ObservationFailureKind::SubjectDisappeared
    ));
}

#[test]
fn unavailable_catalog_subjects_do_not_start_git_processes() {
    let catalog = catalog(1, LocationAvailability::Offline);
    let git = TestGitObservation::successful();
    let clock = TestClock(Timestamp::unix_epoch());
    let cancellation = TestCancellation(false);
    let mut identities = TestIdentityGenerator;
    let mut worktree_store = TestObservationStore::default();
    let mut repository_store = TestObservationStore::default();
    let mut observer = ObserveInventory::new(
        &catalog,
        &git,
        &clock,
        &cancellation,
        &mut identities,
        &mut worktree_store,
        &mut repository_store,
    );

    let outcome = observer
        .execute(ObservationExecutionPolicy::default())
        .expect("unavailable subjects must be recorded as observation failures");

    assert_eq!(git.calls(), 0);
    assert_eq!(outcome.target_count(), 2);
    assert_eq!(outcome.failed_count(), 2);
    assert_eq!(outcome.completion(), OperationCompletion::Failed);
    assert_eq!(outcome.failures().len(), 2);
    assert!(matches!(
        &repository_store.attempts[0],
        ObservationAttempt::Failed(failure) if failure.kind() == ObservationFailureKind::SubjectUnavailable
    ));
    assert!(matches!(
        &worktree_store.attempts[0],
        ObservationAttempt::Failed(failure) if failure.kind() == ObservationFailureKind::SubjectUnavailable
    ));
}

#[test]
fn cancellation_prevents_new_git_observations_and_is_persisted_per_target() {
    let catalog = catalog(3, LocationAvailability::Available);
    let git = TestGitObservation::successful();
    let clock = TestClock(Timestamp::unix_epoch());
    let cancellation = TestCancellation(true);
    let mut identities = TestIdentityGenerator;
    let mut worktree_store = TestObservationStore::default();
    let mut repository_store = TestObservationStore::default();
    let mut observer = ObserveInventory::new(
        &catalog,
        &git,
        &clock,
        &cancellation,
        &mut identities,
        &mut worktree_store,
        &mut repository_store,
    );

    let outcome = observer
        .execute(ObservationExecutionPolicy::new(2).expect("parallelism must be valid"))
        .expect("cancellation is an observation outcome, not a batch defect");

    assert_eq!(git.calls(), 0);
    assert_eq!(outcome.target_count(), 4);
    assert_eq!(outcome.succeeded_count(), 0);
    assert_eq!(outcome.failed_count(), 4);
    assert_eq!(outcome.cancelled_count(), 4);
    assert_eq!(outcome.completion(), OperationCompletion::Cancelled);
    assert!(outcome.was_cancelled());
    assert_eq!(outcome.failures().len(), 4);
    assert!(outcome.failures().iter().all(|failure| failure.kind() == ObservationFailureKind::Cancelled));
    assert!(worktree_store.attempts.iter().all(|attempt| matches!(
        attempt,
        ObservationAttempt::Failed(failure) if failure.kind() == ObservationFailureKind::Cancelled
    )));
    assert!(matches!(
        &repository_store.attempts[0],
        ObservationAttempt::Failed(failure) if failure.kind() == ObservationFailureKind::Cancelled
    ));
}

#[test]
fn unrecordable_git_error_ends_the_run_after_saving_the_other_attempts() {
    let catalog = catalog(2, LocationAvailability::Available);
    let git = TestGitObservation::successful()
        .with_worktree_result("/workspace/worktree-00", Err(PortError::new(PortErrorKind::StorageFailure)));
    let clock = TestClock(Timestamp::unix_epoch());
    let cancellation = TestCancellation(false);
    let mut identities = TestIdentityGenerator;
    let mut worktree_store = TestObservationStore::default();
    let mut repository_store = TestObservationStore::default();
    let mut observer = ObserveInventory::new(
        &catalog,
        &git,
        &clock,
        &cancellation,
        &mut identities,
        &mut worktree_store,
        &mut repository_store,
    );

    let error = observer.execute(ObservationExecutionPolicy::default()).expect_err("storage failure ends the run");

    assert_eq!(error.kind(), PortErrorKind::StorageFailure);
    assert_eq!(repository_store.attempts.len(), 1);
    assert_eq!(worktree_store.attempts.len(), 1);
}

#[test]
fn summary_counts_successes_keeps_failures_in_order_and_returns_the_first_fatal_error() {
    let run_id = ObservationRunId::new("observation-run-9");
    let now = Timestamp::from_unix_seconds(50);
    let remotes = ObservationKey::repository_remotes(RepositoryId::new("repository-a"));
    let worktree = ObservationKey::worktree_git_state(WorktreeId::new("worktree-a"));
    let succeeded: ObservationAttempt<Vec<Remote>> =
        settle(&run_id, remotes.clone(), now, Ok(Vec::new())).expect("a success is recorded");
    let timed_out: ObservationAttempt<WorktreeGitState> =
        failed_attempt(&run_id, worktree.clone(), now, ObservationFailureKind::TimedOut);

    let summary = summarize(
        run_id.clone(),
        &[TargetOutcome::RepositoryRemotes(succeeded), TargetOutcome::Worktree(timed_out)],
    )
    .expect("no error ends the run");
    assert_eq!(summary.succeeded_count(), 1);
    assert_eq!(summary.failures().len(), 1);
    assert_eq!(summary.failures()[0].key(), &worktree);
    assert_eq!(summary.failures()[0].kind(), ObservationFailureKind::TimedOut);

    let failed_again: ObservationAttempt<WorktreeGitState> =
        failed_attempt(&run_id, worktree, now, ObservationFailureKind::Cancelled);
    let ended = summarize(
        run_id,
        &[
            TargetOutcome::Fatal(PortError::new(PortErrorKind::StorageFailure)),
            TargetOutcome::Worktree(failed_again),
            TargetOutcome::Fatal(PortError::new(PortErrorKind::IoFailure)),
        ],
    );
    assert_eq!(ended.map(|_| ()), Err(PortError::new(PortErrorKind::StorageFailure)));
}

#[test]
fn one_target_is_observed_at_its_own_path_and_settled() {
    let run_id = ObservationRunId::new("observation-run-3");
    let git = TestGitObservation::successful()
        .with_worktree_result("/workspace/worktree-07", Err(PortError::new(PortErrorKind::TimedOut)));
    let clock = TestClock(Timestamp::from_unix_seconds(7));
    let target = ObservationTarget::Worktree {
        worktree_id: WorktreeId::new("worktree-07"),
        path: Some(FsPath::new("/workspace/worktree-07")),
    };

    let (outcome, _) = execute_target(&target, &run_id, &git, &clock, &TestCancellation(false));

    assert_eq!(git.calls(), 1);
    match outcome {
        TargetOutcome::Worktree(ObservationAttempt::Failed(failure)) => {
            assert_eq!(failure.kind(), ObservationFailureKind::TimedOut);
            assert_eq!(failure.metadata().coverage(), ObservationCoverage::Partial);
            assert_eq!(failure.metadata().freshness().observed_at(), Timestamp::from_unix_seconds(7));
        },
        other => panic!("expected a timed out worktree attempt, got {other:?}"),
    }
}

#[test]
fn a_cancelled_target_asks_git_nothing() {
    let run_id = ObservationRunId::new("observation-run-4");
    let git = TestGitObservation::successful();
    let clock = TestClock(Timestamp::from_unix_seconds(8));
    let target = ObservationTarget::RepositoryRemotes {
        repository_id: RepositoryId::new("repository-4"),
        path: Some(FsPath::new("/workspace/repository-4")),
    };

    let (outcome, _) = execute_target(&target, &run_id, &git, &clock, &TestCancellation(true));

    assert_eq!(git.calls(), 0);
    match outcome {
        TargetOutcome::RepositoryRemotes(ObservationAttempt::Failed(failure)) => {
            assert_eq!(failure.kind(), ObservationFailureKind::Cancelled);
        },
        other => panic!("expected a cancelled remotes attempt, got {other:?}"),
    }
}
