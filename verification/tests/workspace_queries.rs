use std::cell::Cell;

use bulls::ports::{
    PortError, PortErrorKind, PortResult, WorkspaceObservationState, WorkspaceReadPort,
    WorkspaceReadSnapshot,
};
use bulls::query::{overview_from, repository_from};
use bulls::{
    AdvisoryCode, Branch, Freshness, FreshnessConstraint, FsPath, Head, Knowledge, Location,
    LocationAvailability, LocationId, Observation, ObservationAttempt,
    ObservationAttemptOutcomeProjection, ObservationCoverage, ObservationFailure,
    ObservationFailureKind, ObservationKey, ObservationMetadata, ObservationRunId, QueryPage,
    Remote, Repository, RepositoryId, RepositoryListQuery, RepositoryPredicate, RepositorySelector,
    RepositorySelectorResolution, Timestamp, UpstreamState, WorkspaceQueryService,
    WorkspaceRevision, Worktree, WorktreeChanges, WorktreeGitState, WorktreeId,
};

struct StubWorkspaceReadPort {
    snapshot: WorkspaceReadSnapshot,
    reads: Cell<usize>,
}

impl StubWorkspaceReadPort {
    fn new(snapshot: WorkspaceReadSnapshot) -> Self {
        Self { snapshot, reads: Cell::new(0) }
    }
}

impl WorkspaceReadPort for StubWorkspaceReadPort {
    fn read_workspace(&self) -> PortResult<WorkspaceReadSnapshot> {
        self.reads.set(self.reads.get() + 1);
        Ok(self.snapshot.clone())
    }
}

fn metadata(key: ObservationKey, seconds: i64) -> ObservationMetadata {
    ObservationMetadata::new(
        ObservationRunId::from_string(format!("run-{seconds}")),
        key,
        Freshness::new(Timestamp::from_unix_seconds(seconds)),
        ObservationCoverage::Complete,
    )
}

fn successful_state<T: Clone>(key: ObservationKey, seconds: i64, value: T) -> WorkspaceObservationState<T> {
    let observation = Observation::new(metadata(key, seconds), value);
    WorkspaceObservationState::new(ObservationAttempt::Succeeded(observation.clone()), Some(observation))
}

fn workspace_snapshot() -> WorkspaceReadSnapshot {
    let repository_a = RepositoryId::new("repository-a");
    let repository_b = RepositoryId::new("repository-b");
    let worktree_a = WorktreeId::new("worktree-a");
    let worktree_b = WorktreeId::new("worktree-b");

    WorkspaceReadSnapshot::new(
        WorkspaceRevision::new(7),
        vec![Repository::new(repository_b.clone()), Repository::new(repository_a.clone())],
        vec![
            Location::new(
                LocationId::new("location-b"),
                repository_b.clone(),
                FsPath::new("/workspace/b"),
                LocationAvailability::Missing,
            ),
            Location::new(
                LocationId::new("location-a"),
                repository_a.clone(),
                FsPath::new("/workspace/a"),
                LocationAvailability::Available,
            ),
        ],
        vec![
            Worktree::new(worktree_b.clone(), repository_b.clone(), LocationId::new("location-b")),
            Worktree::new(worktree_a.clone(), repository_a.clone(), LocationId::new("location-a")),
        ],
        vec![successful_state(ObservationKey::repository_remotes(repository_a), 10, Vec::<Remote>::new())],
        vec![successful_state(
            ObservationKey::worktree_git_state(worktree_a),
            10,
            WorktreeGitState::branch(Branch::new("main"), UpstreamState::Unconfigured)
                .with_changes(WorktreeChanges::new(false, true, false)),
        )],
    )
}

#[test]
fn overview_preserves_unknown_state_instead_of_treating_it_as_false() {
    let read = StubWorkspaceReadPort::new(workspace_snapshot());
    let overview = WorkspaceQueryService::new(&read).overview().expect("overview query must succeed");

    assert_eq!(overview.revision(), WorkspaceRevision::new(7));
    assert_eq!(overview.repository_count(), 2);
    assert_eq!(overview.available_repository_count(), 1);
    assert_eq!(overview.worktree_count(), 2);
    assert_eq!(overview.repositories_with_local_work_count(), 1);
    assert_eq!(overview.repositories_with_unknown_local_work_count(), 1);
    assert_eq!(overview.repositories_without_remotes_count(), 1);
    assert_eq!(overview.repositories_with_unknown_remotes_count(), 1);
    assert_eq!(read.reads.get(), 1);
}

#[test]
fn repository_query_composes_predicates_freshness_ordering_and_pagination() {
    let read = StubWorkspaceReadPort::new(workspace_snapshot());
    let query = RepositoryListQuery::new(QueryPage::new(0, 1).expect("page must be valid"))
        .with_predicate(RepositoryPredicate::LocationAvailability(LocationAvailability::Available))
        .with_predicate(RepositoryPredicate::HasLocalWork(true))
        .with_freshness(FreshnessConstraint::observed_at_or_after(Timestamp::from_unix_seconds(5)));
    let projection =
        WorkspaceQueryService::new(&read).repositories(&query).expect("repository query must succeed");

    assert_eq!(projection.total_matching(), 1);
    assert_eq!(projection.items().len(), 1);
    assert_eq!(projection.items()[0].id().as_str(), "repository-a");
    assert_eq!(projection.items()[0].locations().len(), 1);
    assert_eq!(projection.items()[0].locations()[0].path(), &FsPath::new("/workspace/a"));
    assert_eq!(projection.items()[0].has_local_work(), &Knowledge::Known(true));

    let stale_query = RepositoryListQuery::default()
        .with_predicate(RepositoryPredicate::HasLocalWork(true))
        .with_freshness(FreshnessConstraint::observed_at_or_after(Timestamp::from_unix_seconds(11)));
    let stale_projection = WorkspaceQueryService::new(&read)
        .repositories(&stale_query)
        .expect("stale repository query must succeed");

    assert_eq!(stale_projection.total_matching(), 0);
}

#[test]
fn detail_keeps_last_success_when_the_latest_attempt_failed() {
    let repository_id = RepositoryId::new("repository-a");
    let successful = Observation::new(
        metadata(ObservationKey::repository_remotes(repository_id.clone()), 10),
        vec![Remote::new("origin")],
    );
    let failed_metadata = metadata(ObservationKey::repository_remotes(repository_id.clone()), 20);
    let remotes_state = WorkspaceObservationState::new(
        ObservationAttempt::Failed(ObservationFailure::new(failed_metadata, ObservationFailureKind::TimedOut)),
        Some(successful),
    );
    let snapshot = WorkspaceReadSnapshot::new(
        WorkspaceRevision::new(8),
        vec![Repository::new(repository_id.clone())],
        Vec::new(),
        Vec::new(),
        vec![remotes_state],
        Vec::new(),
    );
    let read = StubWorkspaceReadPort::new(snapshot);
    let detail = WorkspaceQueryService::new(&read)
        .repository(&repository_id)
        .expect("repository query must succeed")
        .expect("repository must exist");

    assert_eq!(detail.remotes().expect("known remotes")[0].name(), "origin");
    assert!(matches!(
        detail.remotes_observation().latest_attempt().expect("attempt must exist").outcome(),
        ObservationAttemptOutcomeProjection::Failed(ObservationFailureKind::TimedOut)
    ));
    assert_eq!(
        detail.remotes_observation().latest_success().expect("success must be retained").observed_at(),
        Timestamp::from_unix_seconds(10)
    );
}

#[test]
fn mirror_is_a_single_revision_consistent_projection_and_not_a_second_read_path() {
    let read = StubWorkspaceReadPort::new(workspace_snapshot());
    let mirror = WorkspaceQueryService::new(&read).mirror().expect("mirror query must succeed");

    assert_eq!(mirror.revision(), WorkspaceRevision::new(7));
    assert_eq!(mirror.overview().revision(), mirror.revision());
    assert_eq!(mirror.repositories().len(), 2);
    assert_eq!(mirror.repositories()[0].id().as_str(), "repository-a");
    assert_eq!(mirror.repositories()[1].id().as_str(), "repository-b");
    assert!(mirror
        .repositories()
        .iter()
        .flat_map(|repository| repository.worktrees())
        .all(|worktree| worktree.revision() == mirror.revision()));
    assert_eq!(read.reads.get(), 1);
}

#[test]
fn advisory_query_derives_from_one_workspace_read_without_a_refresh_path() {
    let read = StubWorkspaceReadPort::new(workspace_snapshot());
    let projection = WorkspaceQueryService::new(&read).advisories().expect("advisory query must succeed");

    assert!(projection
        .advisories()
        .iter()
        .any(|advisory| advisory.code() == AdvisoryCode::RepositoryWithoutRemotes));
    assert!(projection
        .advisories()
        .iter()
        .any(|advisory| advisory.code() == AdvisoryCode::WorktreeWithoutUpstream));
    assert_eq!(read.reads.get(), 1);
}

#[test]
fn combined_human_views_share_one_workspace_snapshot_and_revision() {
    let read = StubWorkspaceReadPort::new(workspace_snapshot());
    let mut service = WorkspaceQueryService::new(&read);

    let (overview, overview_advisories) =
        service.overview_with_advisories().expect("combined overview query must succeed");
    assert_eq!(overview.revision(), overview_advisories.revision());
    assert_eq!(read.reads.get(), 1);

    let repository_id = RepositoryId::new("repository-a");
    let (repository, repository_advisories) = service
        .repository_with_advisories(&repository_id)
        .expect("combined repository query must succeed")
        .expect("repository must exist");
    assert_eq!(repository.revision(), repository_advisories.revision());
    assert_eq!(read.reads.get(), 2);
}

#[test]
fn worktree_projection_exposes_known_git_state_and_location_without_refresh() {
    let read = StubWorkspaceReadPort::new(workspace_snapshot());
    let worktree_id = WorktreeId::new("worktree-a");
    let worktree = WorkspaceQueryService::new(&read)
        .worktree(&worktree_id)
        .expect("worktree query must succeed")
        .expect("worktree must exist");

    assert_eq!(worktree.location().path(), &FsPath::new("/workspace/a"));
    assert!(matches!(
        worktree.git_state().expect("state must be known").head(),
        Head::Branch(branch) if branch.name() == "main"
    ));
    assert_eq!(read.reads.get(), 1);
}

#[test]
fn repository_selector_resolves_canonical_id_before_path_interpretation() {
    let snapshot = WorkspaceReadSnapshot::new(
        WorkspaceRevision::new(8),
        vec![
            Repository::new(RepositoryId::new("repository-b")),
            Repository::new(RepositoryId::new("repository-a")),
        ],
        vec![Location::new(
            LocationId::new("location-collision"),
            RepositoryId::new("repository-b"),
            FsPath::new("/workspace/repository-a"),
            LocationAvailability::Available,
        )],
        Vec::new(),
        Vec::new(),
        Vec::new(),
    );
    let read = StubWorkspaceReadPort::new(snapshot);
    let selector = RepositorySelector::from_input(&FsPath::new("repository-a"), &FsPath::new("/workspace"));

    let resolution = WorkspaceQueryService::new(&read)
        .resolve_repository_selector(&selector)
        .expect("selector resolution must succeed");

    assert_eq!(resolution, RepositorySelectorResolution::Resolved(RepositoryId::new("repository-a")));
    assert_eq!(read.reads.get(), 1);
}

#[test]
fn repository_selector_resolves_absolute_and_relative_location_paths() {
    let read = StubWorkspaceReadPort::new(workspace_snapshot());
    let mut service = WorkspaceQueryService::new(&read);

    let absolute = RepositorySelector::from_input(&FsPath::new("/workspace/a"), &FsPath::new("/unrelated"));
    let relative = RepositorySelector::from_input(&FsPath::new("."), &FsPath::new("/workspace/a"));

    assert_eq!(
        service.resolve_repository_selector(&absolute).expect("absolute path selector must resolve"),
        RepositorySelectorResolution::Resolved(RepositoryId::new("repository-a"))
    );
    assert_eq!(
        service.resolve_repository_selector(&relative).expect("relative path selector must resolve"),
        RepositorySelectorResolution::Resolved(RepositoryId::new("repository-a"))
    );
}

#[test]
fn repository_selector_preserves_ambiguous_paths_as_explicit_candidates() {
    let snapshot = WorkspaceReadSnapshot::new(
        WorkspaceRevision::new(9),
        vec![
            Repository::new(RepositoryId::new("repository-b")),
            Repository::new(RepositoryId::new("repository-a")),
        ],
        vec![
            Location::new(
                LocationId::new("location-b"),
                RepositoryId::new("repository-b"),
                FsPath::new("/workspace/shared"),
                LocationAvailability::Missing,
            ),
            Location::new(
                LocationId::new("location-a"),
                RepositoryId::new("repository-a"),
                FsPath::new("/workspace/shared"),
                LocationAvailability::Available,
            ),
        ],
        Vec::new(),
        Vec::new(),
        Vec::new(),
    );
    let read = StubWorkspaceReadPort::new(snapshot);
    let selector = RepositorySelector::from_input(&FsPath::new("/workspace/shared"), &FsPath::new("/workspace"));

    let resolution = WorkspaceQueryService::new(&read)
        .resolve_repository_selector(&selector)
        .expect("ambiguous selector must remain a successful query result");

    assert_eq!(
        resolution,
        RepositorySelectorResolution::Ambiguous {
            candidates: vec![RepositoryId::new("repository-a"), RepositoryId::new("repository-b")],
        }
    );
    assert_eq!(
        resolution.candidates().iter().map(RepositoryId::as_str).collect::<Vec<_>>(),
        vec!["repository-a", "repository-b"]
    );
}

#[test]
fn repository_selector_reports_not_found_without_fuzzy_matching() {
    let read = StubWorkspaceReadPort::new(workspace_snapshot());
    let selector = RepositorySelector::from_input(&FsPath::new("repository"), &FsPath::new("/workspace"));

    let resolution = WorkspaceQueryService::new(&read)
        .resolve_repository_selector(&selector)
        .expect("missing selector must remain a successful query result");

    assert_eq!(resolution, RepositorySelectorResolution::NotFound);
}

#[test]
fn repository_selector_preserves_non_utf8_paths_without_lossy_identity() {
    let path = FsPath::from_bytes(vec![b'/', b'w', b'o', b'r', b'k', b's', b'p', b'a', b'c', b'e', b'/', 0xff]);
    let snapshot = WorkspaceReadSnapshot::new(
        WorkspaceRevision::new(10),
        vec![Repository::new(RepositoryId::new("repository-non-utf8"))],
        vec![Location::new(
            LocationId::new("location-non-utf8"),
            RepositoryId::new("repository-non-utf8"),
            path.clone(),
            LocationAvailability::Available,
        )],
        Vec::new(),
        Vec::new(),
        Vec::new(),
    );
    let read = StubWorkspaceReadPort::new(snapshot);
    let selector = RepositorySelector::from_input(&path, &FsPath::new("/"));

    let resolution = WorkspaceQueryService::new(&read)
        .resolve_repository_selector(&selector)
        .expect("non-UTF-8 path selector must resolve without lossy conversion");

    assert_eq!(resolution, RepositorySelectorResolution::Resolved(RepositoryId::new("repository-non-utf8")));
}

#[test]
fn a_read_error_is_answered_unchanged_and_an_inconsistent_snapshot_is_refused() {
    let refused = overview_from(Err(PortError::new(PortErrorKind::StorageFailure)));
    assert_eq!(refused.map(|_| ()), Err(PortError::new(PortErrorKind::StorageFailure)));

    let twice = WorkspaceReadSnapshot::new(
        WorkspaceRevision::new(3),
        vec![Repository::new(RepositoryId::new("repository-x")), Repository::new(RepositoryId::new("repository-x"))],
        Vec::new(),
        Vec::new(),
        Vec::new(),
        Vec::new(),
    );
    let error = overview_from(Ok(twice)).expect_err("a repository listed twice is refused");
    assert_eq!(error.kind(), PortErrorKind::InvariantViolation);

    let detail = repository_from(Ok(workspace_snapshot()), &RepositoryId::new("repository-a"))
        .expect("the snapshot is consistent")
        .expect("the repository is catalogued");
    assert_eq!(detail.id(), &RepositoryId::new("repository-a"));
    assert_eq!(detail.revision(), WorkspaceRevision::new(7));
    assert_eq!(
        repository_from(Ok(workspace_snapshot()), &RepositoryId::new("repository-z")).map(|found| found.is_none()),
        Ok(true)
    );
}
