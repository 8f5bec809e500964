use bulls::{
    AdvisoryCode, AdvisoryEvaluator, AdvisoryEvidence, AdvisoryFreshness, AdvisorySubject,
    AdvisoryUnknownReason, Branch, FsPath, LocationAvailability, LocationId, LocationProjection,
    ObservationAttemptOutcomeProjection, ObservationAttemptProjection, ObservationCoverage,
    ObservationStatusProjection, ObservationSuccessProjection, OverviewProjection, Remote,
    RepositoryDetailProjection, RepositoryId, Timestamp, Upstream, UpstreamDivergence,
    UpstreamState, WorkspaceMirror, WorkspaceRevision, WorktreeGitState, WorktreeId,
    WorktreeProjection,
};

fn status(seconds: i64, coverage: ObservationCoverage) -> ObservationStatusProjection {
    let observed_at = Timestamp::from_unix_seconds(seconds);
    ObservationStatusProjection::new(
        Some(ObservationAttemptProjection::new(
            observed_at,
            coverage,
            ObservationAttemptOutcomeProjection::Succeeded,
        )),
        Some(ObservationSuccessProjection::new(observed_at, coverage)),
    )
}

fn location(id: &str) -> LocationProjection {
    LocationProjection::new(
        LocationId::new(id),
        FsPath::new(&format!("/workspace/{id}")),
        LocationAvailability::Available,
    )
}

fn worktree(
    id: &str,
    repository_id: &RepositoryId,
    state: WorktreeGitState,
    observation: ObservationStatusProjection,
) -> WorktreeProjection {
    WorktreeProjection::new(
        WorkspaceRevision::new(9),
        WorktreeId::new(id),
        repository_id.clone(),
        location(id),
        Some(state),
        observation,
    )
}

fn repository(
    id: &str,
    remotes: Option<Vec<Remote>>,
    remotes_observation: ObservationStatusProjection,
    worktrees: Vec<WorktreeProjection>,
) -> RepositoryDetailProjection {
    RepositoryDetailProjection::new(
        WorkspaceRevision::new(9),
        RepositoryId::new(id),
        Vec::new(),
        remotes,
        remotes_observation,
        worktrees,
    )
}

fn mirror(repositories: Vec<RepositoryDetailProjection>) -> WorkspaceMirror {
    let revision = WorkspaceRevision::new(9);
    WorkspaceMirror::new(
        revision,
        OverviewProjection::new(revision, repositories.len(), 0, 0, 0, 0, 0, 0),
        repositories,
    )
}

#[test]
fn evaluator_derives_structured_advisories_with_stable_evidence_and_ordering() {
    let repository_id = RepositoryId::new("repository-a");
    let unconfigured = worktree(
        "worktree-a",
        &repository_id,
        WorktreeGitState::branch(Branch::new("main"), UpstreamState::Unconfigured),
        status(20, ObservationCoverage::Complete),
    );
    let ahead = worktree(
        "worktree-b",
        &repository_id,
        WorktreeGitState::branch(
            Branch::new("feature"),
            UpstreamState::Tracking {
                upstream: Upstream::new(Remote::new("origin"), Branch::new("feature")),
                divergence: UpstreamDivergence::new(4, 1),
            },
        ),
        status(30, ObservationCoverage::Complete),
    );
    let mirror = mirror(vec![repository(
        "repository-a",
        Some(Vec::new()),
        status(10, ObservationCoverage::Complete),
        vec![ahead, unconfigured],
    )]);

    let first = AdvisoryEvaluator::evaluate(&mirror);
    let second = AdvisoryEvaluator::evaluate(&mirror);

    assert_eq!(first, second);
    assert_eq!(first.revision(), WorkspaceRevision::new(9));
    assert_eq!(first.advisories().len(), 4);
    assert_eq!(
        first.advisories().iter().map(|advisory| advisory.code()).collect::<Vec<_>>(),
        vec![
            AdvisoryCode::RepositoryWithoutRemotes,
            AdvisoryCode::RepositoryHasMultipleWorktrees,
            AdvisoryCode::WorktreeWithoutUpstream,
            AdvisoryCode::LocalCommitsAheadOfKnownUpstream,
        ]
    );
    assert_eq!(first.advisories()[0].subject(), &AdvisorySubject::Repository(repository_id.clone()));
    assert_eq!(
        first.advisories()[0].evidence(),
        AdvisoryEvidence::RepositoryRemoteCount { remote_count: 0 }
    );
    assert_eq!(
        first.advisories()[0].freshness(),
        AdvisoryFreshness::ObservedAt(Timestamp::from_unix_seconds(10))
    );
    assert_eq!(
        first.advisories()[3].evidence(),
        AdvisoryEvidence::KnownUpstreamDivergence { ahead: 4, behind: 1 }
    );
    assert!(first.unknown_rules().is_empty());
}

#[test]
fn partial_or_missing_observations_remain_unknown_instead_of_becoming_negative_facts() {
    let repository_id = RepositoryId::new("repository-a");
    let partial_worktree = worktree(
        "worktree-a",
        &repository_id,
        WorktreeGitState::branch(Branch::new("main"), UpstreamState::Unconfigured),
        status(20, ObservationCoverage::Partial),
    );
    let mirror = mirror(vec![repository(
        "repository-a",
        Some(Vec::new()),
        status(10, ObservationCoverage::Partial),
        vec![partial_worktree],
    )]);

    let projection = AdvisoryEvaluator::evaluate(&mirror);

    assert!(projection.advisories().is_empty());
    assert_eq!(projection.unknown_rules().len(), 3);
    assert!(projection
        .unknown_rules()
        .iter()
        .all(|unknown| unknown.reason() == AdvisoryUnknownReason::PartialObservation));
    assert!(projection
        .unknown_rules()
        .iter()
        .any(|unknown| unknown.code() == AdvisoryCode::RepositoryWithoutRemotes));
    assert!(projection
        .unknown_rules()
        .iter()
        .any(|unknown| unknown.code() == AdvisoryCode::WorktreeWithoutUpstream));
    assert!(projection
        .unknown_rules()
        .iter()
        .any(|unknown| unknown.code() == AdvisoryCode::LocalCommitsAheadOfKnownUpstream));
}

#[test]
fn repository_catalog_rule_uses_workspace_revision_and_needs_no_observation() {
    let repository_id = RepositoryId::new("repository-a");
    let first = worktree(
        "worktree-a",
        &repository_id,
        WorktreeGitState::detached(),
        ObservationStatusProjection::new(None, None),
    );
    let second = worktree(
        "worktree-b",
        &repository_id,
        WorktreeGitState::detached(),
        ObservationStatusProjection::new(None, None),
    );
    let mirror = mirror(vec![repository(
        "repository-a",
        None,
        ObservationStatusProjection::new(None, None),
        vec![first, second],
    )]);

    let projection = AdvisoryEvaluator::evaluate(&mirror);
    let advisory = projection
        .advisories()
        .iter()
        .find(|advisory| advisory.code() == AdvisoryCode::RepositoryHasMultipleWorktrees)
        .expect("catalog advisory must be derived");

    assert_eq!(advisory.evidence(), AdvisoryEvidence::RepositoryWorktreeCount { worktree_count: 2 });
    assert_eq!(advisory.freshness(), AdvisoryFreshness::WorkspaceRevision(WorkspaceRevision::new(9)));
}

#[test]
fn duplicate_semantic_advisories_are_deduplicated_by_code_and_subject() {
    let repository = repository(
        "repository-a",
        Some(Vec::new()),
        status(10, ObservationCoverage::Complete),
        Vec::new(),
    );
    let mirror = mirror(vec![repository.clone(), repository]);

    let projection = AdvisoryEvaluator::evaluate(&mirror);

    assert_eq!(projection.advisories().len(), 1);
    assert_eq!(projection.advisories()[0].code(), AdvisoryCode::RepositoryWithoutRemotes);
}
