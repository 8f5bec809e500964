use bulls::age::{AgeUnit, CompactAge, RelativeAge, TimeDirection};
use bulls::presentation::{
    advisory_count_with_code, advisory_line, list_has_unknown_observation_evidence, observation_status_line, repository_advisories, repository_unknown_rule_count,
    subject_matches_repository, AdvisoryLine, ObservationStatusLine, UnknownObservationLine,
    unknown_observation_line,
};
use bulls::{
    AdvisoryCode, AdvisoryEvaluator, AdvisorySubject, Branch, FsPath, Knowledge,
    LocationAvailability, RepositoryListItemProjection,
    LocationId, LocationProjection, ObservationAttemptOutcomeProjection,
    ObservationAttemptProjection, ObservationCoverage, ObservationFailureKind,
    ObservationStatusProjection, ObservationSuccessProjection, OverviewProjection, Remote,
    RepositoryDetailProjection, RepositoryId, Timestamp, Upstream, UpstreamDivergence,
    UpstreamState, WorkspaceMirror, WorkspaceRevision, WorktreeGitState, WorktreeId,
    WorktreeProjection,
};

fn ago(amount: u128, unit: AgeUnit) -> RelativeAge {
    RelativeAge { direction: TimeDirection::Ago, age: CompactAge { amount, unit } }
}

fn observed(seconds: i64, coverage: ObservationCoverage) -> ObservationStatusProjection {
    let at = Timestamp::from_unix_seconds(seconds);
    ObservationStatusProjection::new(
        Some(ObservationAttemptProjection::new(
            at,
            coverage,
            ObservationAttemptOutcomeProjection::Succeeded,
        )),
        Some(ObservationSuccessProjection::new(at, coverage)),
    )
}

fn worktree(id: &str, repository_id: &RepositoryId, state: WorktreeGitState) -> WorktreeProjection {
    WorktreeProjection::new(
        WorkspaceRevision::new(3),
        WorktreeId::new(id),
        repository_id.clone(),
        LocationProjection::new(
            LocationId::new(id),
            FsPath::new(&format!("/workspace/{id}")),
            LocationAvailability::Available,
        ),
        Some(state),
        observed(20, ObservationCoverage::Complete),
    )
}

fn repository(
    id: &str,
    remotes: Option<Vec<Remote>>,
    remotes_observation: ObservationStatusProjection,
    worktrees: Vec<WorktreeProjection>,
) -> RepositoryDetailProjection {
    RepositoryDetailProjection::new(
        WorkspaceRevision::new(3),
        RepositoryId::new(id),
        Vec::new(),
        remotes,
        remotes_observation,
        worktrees,
    )
}

#[test]
fn observation_status_distinguishes_failed_attempt_from_last_success() {
    let status = ObservationStatusProjection::new(
        Some(ObservationAttemptProjection::new(
            Timestamp::from_unix_seconds(120),
            ObservationCoverage::Partial,
            ObservationAttemptOutcomeProjection::Failed(ObservationFailureKind::TimedOut),
        )),
        Some(ObservationSuccessProjection::new(
            Timestamp::from_unix_seconds(60),
            ObservationCoverage::Complete,
        )),
    );

    assert_eq!(
        observation_status_line(&status, Timestamp::from_unix_seconds(180)),
        ObservationStatusLine::FailedAfterSuccess {
            failure: ObservationFailureKind::TimedOut,
            attempted_age: ago(1, AgeUnit::Minutes),
            success_age: ago(2, AgeUnit::Minutes),
            success_coverage: ObservationCoverage::Complete,
        }
    );
}

#[test]
fn status_lines_cover_never_observed_observed_and_failed_without_success() {
    let now = Timestamp::from_unix_seconds(7_200);
    assert_eq!(
        observation_status_line(&ObservationStatusProjection::new(None, None), now),
        ObservationStatusLine::NeverObserved
    );
    assert_eq!(
        observation_status_line(&observed(3_600, ObservationCoverage::Partial), now),
        ObservationStatusLine::Observed {
            age: ago(1, AgeUnit::Hours),
            coverage: ObservationCoverage::Partial,
        }
    );
    let failed = ObservationStatusProjection::new(
        Some(ObservationAttemptProjection::new(
            Timestamp::from_unix_seconds(7_170),
            ObservationCoverage::Complete,
            ObservationAttemptOutcomeProjection::Failed(ObservationFailureKind::ProcessExited {
                exit_code: 128,
            }),
        )),
        None,
    );
    assert_eq!(
        observation_status_line(&failed, now),
        ObservationStatusLine::FailedWithoutSuccess {
            failure: ObservationFailureKind::ProcessExited { exit_code: 128 },
            age: ago(30, AgeUnit::Seconds),
        }
    );
    assert_eq!(
        unknown_observation_line(&failed, now),
        UnknownObservationLine::FailedWithoutSuccess {
            failure: ObservationFailureKind::ProcessExited { exit_code: 128 },
            age: ago(30, AgeUnit::Seconds),
        }
    );
}

#[test]
fn unknown_observation_explains_absence_without_collapsing_it_to_false() {
    let now = Timestamp::from_unix_seconds(180);
    assert_eq!(
        unknown_observation_line(&ObservationStatusProjection::new(None, None), now),
        UnknownObservationLine::NeverObserved
    );
    assert_eq!(
        unknown_observation_line(&observed(60, ObservationCoverage::Partial), now),
        UnknownObservationLine::Unknown
    );
}

#[test]
fn advisories_are_filtered_to_the_repository_and_its_worktrees() {
    let first_id = RepositoryId::new("repository-a");
    let second_id = RepositoryId::new("repository-b");
    let ahead = worktree(
        "worktree-a",
        &first_id,
        WorktreeGitState::branch(
            Branch::new("feature"),
            UpstreamState::Tracking {
                upstream: Upstream::new(Remote::new("origin"), Branch::new("feature")),
                divergence: UpstreamDivergence::new(4, 1),
            },
        ),
    );
    let first = repository(
        "repository-a",
        Some(vec![Remote::new("origin")]),
        observed(10, ObservationCoverage::Complete),
        vec![ahead],
    );
    let second = repository(
        "repository-b",
        Some(Vec::new()),
        observed(10, ObservationCoverage::Complete),
        Vec::new(),
    );
    let unobserved = repository(
        "repository-c",
        None,
        ObservationStatusProjection::new(None, None),
        Vec::new(),
    );
    let revision = WorkspaceRevision::new(3);
    let mirror = WorkspaceMirror::new(
        revision,
        OverviewProjection::new(revision, 3, 0, 0, 0, 0, 0, 0),
        vec![first.clone(), second.clone(), unobserved.clone()],
    );
    let advisories = AdvisoryEvaluator::evaluate(&mirror);

    let for_first = repository_advisories(advisories.advisories(), &first);
    assert_eq!(
        for_first.iter().map(|advisory| advisory.code()).collect::<Vec<_>>(),
        vec![AdvisoryCode::LocalCommitsAheadOfKnownUpstream]
    );
    assert_eq!(
        advisory_line(for_first[0]),
        AdvisoryLine::WorktreeKnownUpstreamDivergence { ahead: 4, behind: 1 }
    );

    let for_second = repository_advisories(advisories.advisories(), &second);
    assert_eq!(for_second.len(), 1);
    assert_eq!(advisory_line(for_second[0]), AdvisoryLine::RepositoryWithoutRemotes);
    assert_eq!(repository_unknown_rule_count(advisories.unknown_rules(), &second), 0);

    assert!(repository_advisories(advisories.advisories(), &unobserved).is_empty());
    assert_eq!(repository_unknown_rule_count(advisories.unknown_rules(), &unobserved), 1);

    assert!(!subject_matches_repository(&AdvisorySubject::Workspace, &first));
    assert!(subject_matches_repository(&AdvisorySubject::Repository(first_id), &first));
    assert!(!subject_matches_repository(&AdvisorySubject::Repository(second_id), &first));
    assert!(subject_matches_repository(
        &AdvisorySubject::Worktree(WorktreeId::new("worktree-a")),
        &first
    ));
    assert!(!subject_matches_repository(
        &AdvisorySubject::Worktree(WorktreeId::new("worktree-a")),
        &second
    ));
}

#[test]
fn overview_counts_advisories_per_code() {
    let repository_id = RepositoryId::new("repository-a");
    let unconfigured = worktree(
        "worktree-a",
        &repository_id,
        WorktreeGitState::branch(Branch::new("main"), UpstreamState::Unconfigured),
    );
    let other = worktree(
        "worktree-b",
        &repository_id,
        WorktreeGitState::branch(Branch::new("topic"), UpstreamState::Unconfigured),
    );
    let revision = WorkspaceRevision::new(3);
    let mirror = WorkspaceMirror::new(
        revision,
        OverviewProjection::new(revision, 1, 0, 0, 0, 0, 0, 0),
        vec![repository(
            "repository-a",
            Some(Vec::new()),
            observed(10, ObservationCoverage::Complete),
            vec![unconfigured, other],
        )],
    );
    let advisories = AdvisoryEvaluator::evaluate(&mirror);
    let all = advisories.advisories();

    assert_eq!(advisory_count_with_code(all, AdvisoryCode::RepositoryWithoutRemotes), 1);
    assert_eq!(advisory_count_with_code(all, AdvisoryCode::RepositoryHasMultipleWorktrees), 1);
    assert_eq!(advisory_count_with_code(all, AdvisoryCode::WorktreeWithoutUpstream), 2);
    assert_eq!(advisory_count_with_code(all, AdvisoryCode::LocalCommitsAheadOfKnownUpstream), 0);
}

#[test]
fn list_suggests_refresh_only_when_something_is_unknown() {
    let known = RepositoryListItemProjection::new(
        RepositoryId::new("repository-a"),
        Vec::new(),
        1,
        Knowledge::Known(true),
        Knowledge::Known(false),
    );
    let unknown_remotes = RepositoryListItemProjection::new(
        RepositoryId::new("repository-b"),
        Vec::new(),
        0,
        Knowledge::Unknown,
        Knowledge::Known(false),
    );

    assert!(!list_has_unknown_observation_evidence(&[]));
    assert!(!list_has_unknown_observation_evidence(&[known.clone()]));
    assert!(list_has_unknown_observation_evidence(&[known, unknown_remotes]));
}
