use bulls::{
    Branch, Freshness, FsPath, Head, HeadKind, Location, LocationAvailability, LocationId,
    Observation, ObservationAttempt, ObservationCoverage, ObservationFailure,
    ObservationFailureKind, ObservationKey, ObservationKind, ObservationMetadata,
    ObservationRunId, Remote, Repository, RepositoryId, Timestamp, Upstream, UpstreamDivergence,
    UpstreamRelation, UpstreamState, UpstreamStateKind, Worktree, WorktreeChanges,
    WorktreeGitState, WorktreeId,
};

#[test]
fn head_distinguishes_unborn_branch_and_detached_states() {
    let unborn = Head::Unborn(Branch::new("main"));
    let branch = Head::Branch(Branch::new("main"));
    let detached = Head::Detached;

    assert_ne!(unborn, branch);
    assert_ne!(branch, detached);
    assert_ne!(unborn, detached);
}

#[test]
fn head_kind_exposes_semantics_without_branch_payloads() {
    assert_eq!(Head::Unborn(Branch::new("main")).kind(), HeadKind::Unborn);
    assert_eq!(Head::Branch(Branch::new("feature")).kind(), HeadKind::Branch);
    assert_eq!(Head::Detached.kind(), HeadKind::Detached);
}

#[test]
fn upstream_keeps_remote_and_branch_semantically_separate() {
    let upstream = Upstream::new(Remote::new("origin"), Branch::new("main"));

    assert_eq!(upstream.remote().name(), "origin");
    assert_eq!(upstream.branch().name(), "main");
}

#[test]
fn divergence_derives_the_canonical_upstream_relation() {
    assert_eq!(UpstreamDivergence::new(0, 0).relation(), UpstreamRelation::Synchronized);
    assert_eq!(UpstreamDivergence::new(3, 0).relation(), UpstreamRelation::Ahead);
    assert_eq!(UpstreamDivergence::new(0, 2).relation(), UpstreamRelation::Behind);
    assert_eq!(UpstreamDivergence::new(3, 2).relation(), UpstreamRelation::Diverged);
}

#[test]
fn worktree_state_distinguishes_missing_upstream_from_gone_upstream() {
    let unconfigured = WorktreeGitState::branch(Branch::new("main"), UpstreamState::Unconfigured);
    let gone = WorktreeGitState::branch(
        Branch::new("main"),
        UpstreamState::Gone(Upstream::new(Remote::new("origin"), Branch::new("main"))),
    );

    assert_eq!(unconfigured.upstream(), Some(&UpstreamState::Unconfigured));
    assert!(matches!(gone.upstream(), Some(UpstreamState::Gone(_))));
}

#[test]
fn upstream_state_kind_exposes_semantics_without_tracking_payloads() {
    let upstream = Upstream::new(Remote::new("origin"), Branch::new("main"));

    assert_eq!(UpstreamState::Unconfigured.kind(), UpstreamStateKind::Unconfigured);
    assert_eq!(UpstreamState::Gone(upstream.clone()).kind(), UpstreamStateKind::Gone);
    assert_eq!(
        UpstreamState::Tracking { upstream, divergence: UpstreamDivergence::new(1, 0) }.kind(),
        UpstreamStateKind::Tracking
    );
}

#[test]
fn worktree_changes_track_presence_without_collecting_file_lists() {
    let changes = WorktreeChanges::new(true, false, true);
    let state = WorktreeGitState::detached().with_changes(changes);

    assert!(state.changes().staged());
    assert!(!state.changes().unstaged());
    assert!(state.changes().untracked());
    assert!(state.changes().has_local_work());
    assert!(!WorktreeChanges::default().has_local_work());
}

#[test]
fn detached_worktree_state_has_no_current_branch_upstream() {
    let state = WorktreeGitState::detached();

    assert_eq!(state.head(), &Head::Detached);
    assert!(state.upstream().is_none());
}

#[test]
fn identifiers_preserve_their_opaque_value() {
    let repository_id = RepositoryId::new("shared-token");
    let location_id = LocationId::new("shared-token");
    let worktree_id = WorktreeId::new("shared-token");
    let observation_run_id = ObservationRunId::new("shared-token");

    assert_eq!(repository_id.as_str(), "shared-token");
    assert_eq!(location_id.as_str(), "shared-token");
    assert_eq!(worktree_id.as_str(), "shared-token");
    assert_eq!(observation_run_id.as_str(), "shared-token");
}

#[test]
fn identifiers_have_value_semantics_within_their_own_type() {
    let repository_id = RepositoryId::new("repository-1");
    let same_repository_id = RepositoryId::from_string("repository-1".to_owned());
    let other_repository_id = RepositoryId::from_string("repository-2".to_owned());

    assert_eq!(repository_id, same_repository_id);
    assert_ne!(repository_id, other_repository_id);
    assert_eq!(repository_id.as_str(), "repository-1");
}

fn worktree_metadata(observed_at_seconds: i64) -> ObservationMetadata {
    ObservationMetadata::new(
        ObservationRunId::new("observation-run-1"),
        ObservationKey::worktree_git_state(WorktreeId::new("worktree-1")),
        Freshness::new(Timestamp::from_unix_seconds(observed_at_seconds)),
        ObservationCoverage::Complete,
    )
}

#[test]
fn observation_key_preserves_subject_ownership_and_kind() {
    let repository_id = RepositoryId::new("repository-1");
    let worktree_id = WorktreeId::new("worktree-1");
    let repository_key = ObservationKey::repository_remotes(repository_id.clone());
    let worktree_key = ObservationKey::worktree_git_state(worktree_id.clone());

    assert_eq!(repository_key.kind(), ObservationKind::RepositoryRemotes);
    assert_eq!(repository_key.repository_id(), Some(&repository_id));
    assert_eq!(repository_key.worktree_id(), None);
    assert_eq!(worktree_key.kind(), ObservationKind::WorktreeGitState);
    assert_eq!(worktree_key.repository_id(), None);
    assert_eq!(worktree_key.worktree_id(), Some(&worktree_id));
}

#[test]
fn observation_preserves_run_subject_kind_coverage_and_time() {
    let metadata = worktree_metadata(42);
    let observation = Observation::new(metadata.clone(), WorktreeGitState::detached());

    assert_eq!(observation.metadata(), &metadata);
    assert_eq!(observation.metadata().run_id(), &ObservationRunId::new("observation-run-1"));
    assert_eq!(observation.metadata().key().kind(), ObservationKind::WorktreeGitState);
    assert_eq!(observation.metadata().coverage(), ObservationCoverage::Complete);
    assert_eq!(observation.freshness().observed_at(), Timestamp::from_unix_seconds(42));
    assert_eq!(observation.value().head(), &Head::Detached);
}

#[test]
fn equal_values_from_distinct_runs_are_distinct_observations() {
    let first = Observation::new(worktree_metadata(42), "state");
    let second = Observation::new(
        ObservationMetadata::new(
            ObservationRunId::new("observation-run-2"),
            ObservationKey::worktree_git_state(WorktreeId::new("worktree-1")),
            Freshness::new(Timestamp::from_unix_seconds(42)),
            ObservationCoverage::Complete,
        ),
        "state",
    );

    assert_ne!(first, second);
}

#[test]
fn partial_success_remains_distinct_from_complete_success() {
    let partial_metadata = ObservationMetadata::new(
        ObservationRunId::new("observation-run-1"),
        ObservationKey::worktree_git_state(WorktreeId::new("worktree-1")),
        Freshness::new(Timestamp::unix_epoch()),
        ObservationCoverage::Partial,
    );
    let complete_metadata = ObservationMetadata::new(
        ObservationRunId::new("observation-run-1"),
        ObservationKey::worktree_git_state(WorktreeId::new("worktree-1")),
        Freshness::new(Timestamp::unix_epoch()),
        ObservationCoverage::Complete,
    );

    assert_ne!(Observation::new(partial_metadata, 7_u64), Observation::new(complete_metadata, 7_u64));
}

#[test]
fn failed_attempt_preserves_typed_failure_without_a_value() {
    let metadata = worktree_metadata(42);
    let attempt: ObservationAttempt<WorktreeGitState> = ObservationAttempt::Failed(
        ObservationFailure::new(metadata.clone(), ObservationFailureKind::TimedOut),
    );

    assert!(!attempt.is_success());
    assert_eq!(attempt.metadata(), &metadata);
    assert!(matches!(
        attempt,
        ObservationAttempt::Failed(ref failure)
            if failure.kind() == ObservationFailureKind::TimedOut
    ));
}

#[test]
fn observation_releases_metadata_together_with_value() {
    let metadata = worktree_metadata(42);
    let observation = Observation::new(metadata.clone(), 7_u64);

    assert_eq!(observation.into_parts(), (metadata, 7));
}

#[test]
fn repository_identity_is_independent_from_location_path_and_availability() {
    let repository = Repository::new(RepositoryId::new("repository-1"));
    let location = Location::new(
        LocationId::new("location-1"),
        repository.id().clone(),
        FsPath::new("/workspace/repository"),
        LocationAvailability::Missing,
    );

    assert_eq!(location.repository_id(), repository.id());
    assert_eq!(location.path(), &FsPath::new("/workspace/repository"));
    assert_eq!(location.availability(), LocationAvailability::Missing);
}

#[test]
fn distinct_location_ids_can_preserve_distinct_paths_for_one_repository() {
    let repository = Repository::new(RepositoryId::new("repository-1"));
    let first = Location::new(
        LocationId::new("location-1"),
        repository.id().clone(),
        FsPath::new("/workspace/main"),
        LocationAvailability::Available,
    );
    let second = Location::new(
        LocationId::new("location-2"),
        repository.id().clone(),
        FsPath::new("/workspace/linked"),
        LocationAvailability::Offline,
    );

    assert_eq!(first.repository_id(), second.repository_id());
    assert_ne!(first.id(), second.id());
    assert_ne!(first.path(), second.path());
}

#[test]
fn repository_can_have_multiple_distinct_worktrees() {
    let repository = Repository::new(RepositoryId::new("repository-1"));
    let first_worktree = Worktree::new(
        WorktreeId::new("worktree-1"),
        repository.id().clone(),
        LocationId::new("location-1"),
    );
    let second_worktree = Worktree::new(
        WorktreeId::new("worktree-2"),
        repository.id().clone(),
        LocationId::new("location-2"),
    );

    assert_eq!(first_worktree.repository_id(), repository.id());
    assert_eq!(second_worktree.repository_id(), repository.id());
    assert_ne!(first_worktree.id(), second_worktree.id());
    assert_ne!(first_worktree.location_id(), second_worktree.location_id());
}

#[test]
fn repository_can_exist_without_a_worktree() {
    let repository = Repository::new(RepositoryId::new("bare-repository"));
    let location = Location::new(
        LocationId::new("bare-location"),
        repository.id().clone(),
        FsPath::new("/srv/git/repository.git"),
        LocationAvailability::Available,
    );

    assert_eq!(location.repository_id(), repository.id());
    assert_eq!(location.path(), &FsPath::new("/srv/git/repository.git"));
}
