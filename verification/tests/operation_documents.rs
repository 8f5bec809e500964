use bulls::ports::{CatalogReconciliationCoverage, DiscoveryIssue, DiscoveryIssueKind, PortErrorKind};
use bulls::{
    DiscoverRepositoriesOutcome, DiscoveryBatchOutcome, DiscoveryRootFailure, FsPath,
    ObservationExecutionPolicy, ObservationFailureKind, ObservationKey, ObservationRunId,
    ObservationTargetFailure, ObserveInventoryOutcome, OperationCompletion,
    ProtocolDiscoveryIssueStage, ProtocolDiscoveryOutcome, ProtocolObservationFailureKind,
    ProtocolObservationTarget, ProtocolOperationDocument, ProtocolOperationFailureCause,
    ProtocolOperationStatus, ProtocolPath, ProtocolRefreshOutcome, RepositoryId,
    RepositoryIdentificationIssue, WorkspaceOperationOutcome, WorkspaceRevision, WorktreeId,
    OPERATION_PROTOCOL_SCHEMA_VERSION,
};

#[test]
fn discovery_protocol_preserves_partial_diagnostics_and_counts() {
    let completed = DiscoverRepositoriesOutcome::new(
        FsPath::new("/workspace"),
        CatalogReconciliationCoverage::Partial,
        vec![DiscoveryIssue::new(FsPath::new("/workspace/private"), DiscoveryIssueKind::PermissionDenied)],
        vec![RepositoryIdentificationIssue::new(
            FsPath::new("/workspace/broken"),
            PortErrorKind::ProcessExited { exit_code: 128 },
        )],
        3,
        4,
        2,
    );
    let outcome = DiscoveryBatchOutcome::new(
        vec![completed],
        vec![DiscoveryRootFailure::new(FsPath::new("/offline"), PortErrorKind::ResourceUnavailable)],
    );

    let operation = WorkspaceOperationOutcome::new(WorkspaceRevision::new(12), outcome);
    let document = ProtocolOperationDocument::<ProtocolDiscoveryOutcome>::try_from(&operation)
        .expect("discovery protocol must build");

    assert_eq!(document.schema_version, OPERATION_PROTOCOL_SCHEMA_VERSION);
    assert_eq!(document.workspace_revision, 12);
    assert_eq!(document.status, ProtocolOperationStatus::Partial);
    assert_eq!(document.payload.requested_root_count, 2);
    assert_eq!(document.payload.completed_root_count, 1);
    assert_eq!(document.payload.partial_root_count, 1);
    assert_eq!(document.payload.failed_root_count, 1);
    assert_eq!(document.payload.discovery_issue_count, 1);
    assert_eq!(document.payload.identification_issue_count, 1);
    assert_eq!(document.payload.repository_count, 3);
    assert_eq!(document.payload.location_count, 4);
    assert_eq!(document.payload.worktree_count, 2);
    assert_eq!(document.payload.roots[0].issues.len(), 2);
    assert_eq!(document.payload.roots[0].issues[0].stage, ProtocolDiscoveryIssueStage::Filesystem);
    assert_eq!(document.payload.roots[0].issues[0].cause, ProtocolOperationFailureCause::PermissionDenied);
    assert_eq!(
        document.payload.roots[0].issues[1].stage,
        ProtocolDiscoveryIssueStage::RepositoryIdentification
    );
    assert_eq!(
        document.payload.roots[0].issues[1].cause,
        ProtocolOperationFailureCause::ProcessExited { exit_code: 128 }
    );
    assert_eq!(document.payload.failed_roots[0].root, ProtocolPath::Utf8("/offline".to_owned()));
}

#[test]
fn discovery_protocol_distinguishes_total_failure_from_partial_success() {
    let outcome = DiscoveryBatchOutcome::new(
        Vec::new(),
        vec![DiscoveryRootFailure::new(FsPath::new("/offline"), PortErrorKind::ResourceUnavailable)],
    );

    let operation = WorkspaceOperationOutcome::new(WorkspaceRevision::initial(), outcome);
    let document = ProtocolOperationDocument::<ProtocolDiscoveryOutcome>::try_from(&operation)
        .expect("failed discovery protocol must build");

    assert_eq!(document.status, ProtocolOperationStatus::Failed);
    assert_eq!(document.payload.requested_root_count, 1);
    assert_eq!(document.payload.failed_root_count, 1);
}

#[test]
fn refresh_protocol_preserves_failed_target_identity_and_cause() {
    let outcome = ObserveInventoryOutcome::new(
        ObservationRunId::new("observation-run-7"),
        1,
        vec![ObservationTargetFailure::new(
            ObservationKey::worktree_git_state(WorktreeId::new("worktree-9")),
            ObservationFailureKind::TimedOut,
        )],
    );

    let operation = WorkspaceOperationOutcome::new(WorkspaceRevision::new(13), outcome);
    let document = ProtocolOperationDocument::<ProtocolRefreshOutcome>::try_from(&operation)
        .expect("refresh protocol must build");

    assert_eq!(document.workspace_revision, 13);
    assert_eq!(document.status, ProtocolOperationStatus::Partial);
    assert_eq!(document.payload.run_id, "observation-run-7");
    assert_eq!(document.payload.target_count, 2);
    assert_eq!(document.payload.succeeded_count, 1);
    assert_eq!(document.payload.failed_count, 1);
    assert_eq!(document.payload.cancelled_count, 0);
    assert_eq!(
        document.payload.failures[0].target,
        ProtocolObservationTarget::WorktreeGitState { worktree_id: "worktree-9".to_owned() }
    );
    assert_eq!(document.payload.failures[0].failure, ProtocolObservationFailureKind::TimedOut);
}

#[test]
fn refresh_protocol_distinguishes_cancelled_and_failed_completion() {
    let cancelled = ObserveInventoryOutcome::new(
        ObservationRunId::new("observation-run-cancelled"),
        1,
        vec![ObservationTargetFailure::new(
            ObservationKey::repository_remotes(RepositoryId::new("repository-1")),
            ObservationFailureKind::Cancelled,
        )],
    );
    let failed = ObserveInventoryOutcome::new(
        ObservationRunId::new("observation-run-failed"),
        0,
        vec![ObservationTargetFailure::new(
            ObservationKey::repository_remotes(RepositoryId::new("repository-2")),
            ObservationFailureKind::SubjectUnavailable,
        )],
    );

    let cancelled_operation = WorkspaceOperationOutcome::new(WorkspaceRevision::new(14), cancelled);
    let failed_operation = WorkspaceOperationOutcome::new(WorkspaceRevision::new(15), failed);
    let cancelled_document = ProtocolOperationDocument::<ProtocolRefreshOutcome>::try_from(&cancelled_operation)
        .expect("cancelled refresh protocol must build");
    let failed_document = ProtocolOperationDocument::<ProtocolRefreshOutcome>::try_from(&failed_operation)
        .expect("failed refresh protocol must build");

    assert_eq!(cancelled_document.status, ProtocolOperationStatus::Cancelled);
    assert_eq!(cancelled_document.payload.cancelled_count, 1);
    assert_eq!(failed_document.status, ProtocolOperationStatus::Failed);
    assert_eq!(failed_document.payload.failed_count, 1);
}

#[test]
fn observation_policy_rejects_zero_parallelism() {
    assert!(ObservationExecutionPolicy::new(0).is_none());
    assert_eq!(
        ObservationExecutionPolicy::new(3).expect("positive parallelism must be accepted").max_parallelism(),
        3
    );
}

#[test]
fn complete_run_has_complete_coverage_and_status() {
    let outcome = ObserveInventoryOutcome::new(ObservationRunId::new("run"), 2, Vec::new());

    assert_eq!(outcome.completion(), OperationCompletion::Complete);
    assert!(!outcome.is_partial());
    assert!(!outcome.was_cancelled());
    assert_eq!(outcome.target_count(), 2);
}
