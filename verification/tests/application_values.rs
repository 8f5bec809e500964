use bulls::ports::{
    BareRepositoryDiscovery, FilesystemBoundary, PortResult, SymlinkTraversal, WorkspaceResetPort,
};
use bulls::{
    ApplicationError, ApplicationErrorCode, BullSaddleConfiguration, ConfigurationProjection,
    ConfigurationSource, DiscoveryConfiguration,
    FailureCause, FailureClass, FailureCode, FsPath, GitProcessTimeout, LocalePreference,
    LocationId, ObservationAttemptOutcomeProjection, ObservationAttemptProjection,
    ObservationCoverage, ObservationEvidenceState, ObservationExecutionPolicy,
    ObservationFailureKind, ObservationStatusProjection, ObservationSuccessProjection,
    PublicFailureDescriptor, PublicFailureDetails, PublicFailureReport, RepositoryId,
    ResetWorkspace, Timestamp, WorkspaceRevision, WorktreeId, APPLICATION_VERSION,
    PUBLIC_FAILURE_REPORT_SCHEMA_VERSION,
};

#[test]
fn default_configuration_uses_conservative_runtime_policies() {
    let configuration = BullSaddleConfiguration::default();

    assert_eq!(configuration.locale().explicit_value(), None);
    assert!(configuration.discovery().roots().is_empty());
    assert!(configuration.discovery().exclusions().is_empty());
    assert_eq!(configuration.discovery().bare_repositories(), BareRepositoryDiscovery::Disabled);
    assert_eq!(configuration.discovery().symlink_traversal(), SymlinkTraversal::DoNotFollow);
    assert_eq!(
        configuration.discovery().filesystem_boundary(),
        FilesystemBoundary::StayOnRootFilesystem
    );
    assert_eq!(configuration.observation_policy().max_parallelism(), 4);
    assert_eq!(configuration.git_process_timeout().milliseconds(), 10_000);
}

#[test]
fn explicit_runtime_policies_remain_semantic_application_data() {
    let root = FsPath::new("/tmp/bulls-discovery-root");
    let discovery = DiscoveryConfiguration::new(
        vec![root.clone()],
        vec![FsPath::new("vendor")],
        BareRepositoryDiscovery::Enabled,
        SymlinkTraversal::FollowWithinRoot,
        FilesystemBoundary::CrossFilesystems,
    )
    .expect("valid discovery configuration must be accepted");
    let observation =
        ObservationExecutionPolicy::new(8).expect("positive observation parallelism must be accepted");
    let timeout = GitProcessTimeout::new(15_000).expect("positive process timeout must be accepted");
    let locale = LocalePreference::explicit("pt-BR".to_owned())
        .expect("well-formed explicit locale must be accepted");

    let configuration = BullSaddleConfiguration::new(locale)
        .with_discovery(discovery)
        .with_observation_policy(observation)
        .with_git_process_timeout(timeout);

    assert_eq!(configuration.locale().explicit_value(), Some("pt-BR"));
    assert_eq!(configuration.discovery().roots(), &[root]);
    assert_eq!(configuration.discovery().exclusions(), &[FsPath::new("vendor")]);
    assert_eq!(configuration.observation_policy().max_parallelism(), 8);
    assert_eq!(configuration.git_process_timeout().milliseconds(), 15_000);
    assert_eq!(configuration.git_process_timeout().duration(), std::time::Duration::from_millis(15_000));
}

#[test]
fn invalid_persisted_policy_values_are_rejected_by_semantic_types() {
    assert!(DiscoveryConfiguration::new(
        vec![FsPath::new("relative/root")],
        Vec::new(),
        BareRepositoryDiscovery::Disabled,
        SymlinkTraversal::DoNotFollow,
        FilesystemBoundary::StayOnRootFilesystem,
    )
    .is_none());
    assert!(DiscoveryConfiguration::new(
        Vec::new(),
        vec![FsPath::empty()],
        BareRepositoryDiscovery::Disabled,
        SymlinkTraversal::DoNotFollow,
        FilesystemBoundary::StayOnRootFilesystem,
    )
    .is_none());
    assert!(ObservationExecutionPolicy::new(0).is_none());
    assert!(GitProcessTimeout::new(0).is_none());
}

#[test]
fn reserved_or_ambiguous_locale_values_are_rejected() {
    assert!(LocalePreference::explicit("".to_owned()).is_none());
    assert!(LocalePreference::explicit("auto".to_owned()).is_none());
    assert!(LocalePreference::explicit("AUTO".to_owned()).is_none());
    assert!(LocalePreference::explicit(" pt-BR".to_owned()).is_none());
}

#[test]
fn failure_classes_have_stable_machine_names() {
    assert_eq!(FailureClass::Expected.as_str(), "expected");
    assert_eq!(FailureClass::Operational.as_str(), "operational");
    assert_eq!(FailureClass::Defect.as_str(), "defect");
}

#[test]
fn failure_codes_derive_their_class_without_external_pairing() {
    let cases = [
        (
            FailureCode::Application(ApplicationErrorCode::RepositoryNotFound),
            FailureClass::Expected,
            "repository_not_found",
        ),
        (FailureCode::OperationCancelled, FailureClass::Expected, "operation_cancelled"),
        (FailureCode::OperationFailed, FailureClass::Operational, "operation_failed"),
        (FailureCode::OperationTimedOut, FailureClass::Operational, "operation_timed_out"),
        (FailureCode::InvariantViolation, FailureClass::Defect, "invariant_violation"),
        (FailureCode::UnexpectedFailure, FailureClass::Defect, "unexpected_failure"),
    ];

    for (code, expected_class, expected_name) in cases {
        assert_eq!(code.class(), expected_class);
        assert_eq!(code.as_str(), expected_name);
    }
}

#[test]
fn failure_causes_have_stable_machine_names() {
    let cases = [
        (FailureCause::PermissionDenied, "permission_denied"),
        (FailureCause::ResourceUnavailable, "resource_unavailable"),
        (FailureCause::ProcessExited { exit_code: 128 }, "process_exited"),
        (FailureCause::IoFailure, "io_failure"),
        (FailureCause::StorageFailure, "storage_failure"),
        (FailureCause::InvalidData, "invalid_data"),
        (FailureCause::OutputLimitExceeded, "output_limit_exceeded"),
        (FailureCause::TimedOut, "timed_out"),
        (FailureCause::Cancelled, "cancelled"),
        (FailureCause::InvariantViolation, "invariant_violation"),
        (FailureCause::Unexpected, "unexpected"),
    ];

    for (cause, expected) in cases {
        assert_eq!(cause.as_str(), expected);
    }
}

#[test]
fn public_failure_descriptor_preserves_only_typed_safe_causality() {
    let descriptor = PublicFailureDescriptor::with_causes(
        FailureCode::OperationFailed,
        vec![FailureCause::ProcessExited { exit_code: 128 }, FailureCause::PermissionDenied],
    );

    assert_eq!(descriptor.class(), FailureClass::Operational);
    assert_eq!(descriptor.error_code(), FailureCode::OperationFailed);
    assert_eq!(
        descriptor.causes(),
        &[FailureCause::ProcessExited { exit_code: 128 }, FailureCause::PermissionDenied]
    );
}

#[test]
fn public_failure_report_adds_only_controlled_product_metadata() {
    let failure =
        PublicFailureDescriptor::with_causes(FailureCode::OperationTimedOut, vec![FailureCause::TimedOut]);
    let report = PublicFailureReport::new(failure.clone());

    assert_eq!(report.schema_version(), PUBLIC_FAILURE_REPORT_SCHEMA_VERSION);
    assert_eq!(report.application_version(), APPLICATION_VERSION);
    assert_eq!(report.failure(), &failure);
    assert_eq!(report.failure().class(), FailureClass::Operational);
}

#[test]
fn application_errors_expose_stable_semantic_codes() {
    let cases = [
        (
            ApplicationError::repository_not_found(RepositoryId::new("repository-1")),
            ApplicationErrorCode::RepositoryNotFound,
        ),
        (
            ApplicationError::repository_selector_ambiguous(vec![RepositoryId::new("repository-2")]),
            ApplicationErrorCode::RepositorySelectorAmbiguous,
        ),
        (
            ApplicationError::location_not_found(LocationId::new("location-1")),
            ApplicationErrorCode::LocationNotFound,
        ),
        (
            ApplicationError::worktree_not_found(WorktreeId::new("worktree-1")),
            ApplicationErrorCode::WorktreeNotFound,
        ),
    ];

    for (error, expected) in cases {
        assert_eq!(error.code(), expected);
    }
}

#[test]
fn application_error_codes_have_stable_machine_names() {
    assert_eq!(ApplicationErrorCode::RepositoryNotFound.as_str(), "repository_not_found");
    assert_eq!(
        ApplicationErrorCode::RepositorySelectorAmbiguous.as_str(),
        "repository_selector_ambiguous"
    );
    assert_eq!(ApplicationErrorCode::LocationNotFound.as_str(), "location_not_found");
    assert_eq!(ApplicationErrorCode::WorktreeNotFound.as_str(), "worktree_not_found");
}

#[test]
fn application_errors_expose_privacy_safe_public_failures() {
    let error = ApplicationError::repository_not_found(RepositoryId::new("private-id"));
    let public_failure = error.public_failure();
    let public_report = error.public_report();

    assert_eq!(public_failure.class(), FailureClass::Expected);
    assert_eq!(
        public_failure.error_code(),
        FailureCode::Application(ApplicationErrorCode::RepositoryNotFound)
    );
    assert!(public_failure.causes().is_empty());
    assert_eq!(public_report.failure(), &public_failure);
}

#[test]
fn ambiguous_selector_failure_exposes_only_safe_repository_candidates() {
    let error = ApplicationError::repository_selector_ambiguous(vec![
        RepositoryId::new("repository-b"),
        RepositoryId::new("repository-a"),
    ]);
    let failure = error.public_failure();

    assert_eq!(
        failure.error_code(),
        FailureCode::Application(ApplicationErrorCode::RepositorySelectorAmbiguous)
    );
    assert!(failure.causes().is_empty());
    assert_eq!(
        failure.details(),
        Some(&PublicFailureDetails::RepositorySelectorAmbiguous {
            candidates: vec!["repository-b".to_owned(), "repository-a".to_owned()],
        })
    );
}

#[test]
fn application_errors_preserve_typed_context() {
    let repository_id = RepositoryId::new("repository-1");
    let candidates = vec![RepositoryId::new("repository-2")];
    let location_id = LocationId::new("location-1");
    let worktree_id = WorktreeId::new("worktree-1");

    assert_eq!(
        ApplicationError::repository_not_found(repository_id.clone()),
        ApplicationError::RepositoryNotFound { repository_id }
    );
    assert_eq!(
        ApplicationError::repository_selector_ambiguous(candidates.clone()),
        ApplicationError::RepositorySelectorAmbiguous { candidates }
    );
    assert_eq!(
        ApplicationError::location_not_found(location_id.clone()),
        ApplicationError::LocationNotFound { location_id }
    );
    assert_eq!(
        ApplicationError::worktree_not_found(worktree_id.clone()),
        ApplicationError::WorktreeNotFound { worktree_id }
    );
}

struct ResetStub {
    revision: WorkspaceRevision,
    calls: usize,
}

impl WorkspaceResetPort for ResetStub {
    fn reset_workspace_knowledge(&mut self) -> PortResult<WorkspaceRevision> {
        self.calls += 1;
        Ok(self.revision)
    }
}

#[test]
fn reset_workspace_returns_the_revision_created_by_the_storage_boundary() {
    let mut port = ResetStub { revision: WorkspaceRevision::new(9), calls: 0 };

    let outcome = ResetWorkspace::new(&mut port).execute().expect("workspace reset must succeed");

    assert_eq!(outcome.revision(), WorkspaceRevision::new(9));
    assert_eq!(port.calls, 1);
}

#[test]
fn observation_evidence_distinguishes_never_observed_state() {
    let status = ObservationStatusProjection::new(None, None);

    assert_eq!(status.evidence_state(), ObservationEvidenceState::NeverObserved);
}

#[test]
fn observation_evidence_preserves_success_coverage_and_time() {
    let observed_at = Timestamp::from_unix_seconds(10);
    let status = ObservationStatusProjection::new(
        Some(ObservationAttemptProjection::new(
            observed_at,
            ObservationCoverage::Partial,
            ObservationAttemptOutcomeProjection::Succeeded,
        )),
        Some(ObservationSuccessProjection::new(observed_at, ObservationCoverage::Partial)),
    );

    assert_eq!(
        status.evidence_state(),
        ObservationEvidenceState::Observed { observed_at, coverage: ObservationCoverage::Partial }
    );
}

#[test]
fn observation_evidence_keeps_failed_attempt_separate_from_last_success() {
    let succeeded_at = Timestamp::from_unix_seconds(10);
    let failed_at = Timestamp::from_unix_seconds(20);
    let success = ObservationSuccessProjection::new(succeeded_at, ObservationCoverage::Complete);
    let status = ObservationStatusProjection::new(
        Some(ObservationAttemptProjection::new(
            failed_at,
            ObservationCoverage::Partial,
            ObservationAttemptOutcomeProjection::Failed(ObservationFailureKind::TimedOut),
        )),
        Some(success),
    );

    assert_eq!(
        status.evidence_state(),
        ObservationEvidenceState::LatestAttemptFailed {
            attempted_at: failed_at,
            failure: ObservationFailureKind::TimedOut,
            latest_success: Some(success),
        }
    );
}

#[test]
fn configuration_projection_preserves_source_and_requires_absolute_file_path() {
    let configuration = BullSaddleConfiguration::default();
    let file_path = FsPath::new("/tmp/bulls/config.toml");
    let projection = ConfigurationProjection::new(
        file_path.clone(),
        ConfigurationSource::Defaults,
        configuration.clone(),
    )
    .expect("absolute configuration path must be accepted");

    assert_eq!(projection.file_path(), &file_path);
    assert_eq!(projection.source(), ConfigurationSource::Defaults);
    assert_eq!(projection.configuration(), &configuration);
    assert!(ConfigurationProjection::new(
        FsPath::new("relative/config.toml"),
        ConfigurationSource::File,
        configuration,
    )
    .is_none());
}
