use bulls::ports::{
    BareRepositoryDiscovery, DiscoveryRequest, FilesystemBoundary, FilesystemIdentityEvidence,
    FilesystemObjectId, PortError, PortErrorKind, PortResult, SymlinkTraversal,
};
use bulls::{
    ApplicationError, ApplicationErrorCode, FailureCause, FailureClass, FailureCode, FsPath,
    LocationId, RepositoryId, WorkspaceRevision, WorktreeId, APPLICATION_VERSION,
    PUBLIC_FAILURE_REPORT_SCHEMA_VERSION,
};

#[test]
fn discovery_request_defaults_are_conservative() {
    let request = DiscoveryRequest::new(FsPath::new("/workspace"));

    assert_eq!(request.root(), &FsPath::new("/workspace"));
    assert!(request.exclusions().is_empty());
    assert_eq!(request.bare_repositories(), BareRepositoryDiscovery::Disabled);
    assert_eq!(request.symlink_traversal(), SymlinkTraversal::DoNotFollow);
    assert_eq!(request.filesystem_boundary(), FilesystemBoundary::StayOnRootFilesystem);
}

#[test]
fn discovery_request_preserves_explicit_traversal_policy() {
    let request = DiscoveryRequest::new(FsPath::new("/workspace"))
        .with_exclusion(FsPath::new("vendor"))
        .with_bare_repositories(BareRepositoryDiscovery::Enabled)
        .with_symlink_traversal(SymlinkTraversal::FollowWithinRoot)
        .with_filesystem_boundary(FilesystemBoundary::CrossFilesystems);

    assert_eq!(request.exclusions(), &[FsPath::new("vendor")]);
    assert_eq!(request.bare_repositories(), BareRepositoryDiscovery::Enabled);
    assert_eq!(request.symlink_traversal(), SymlinkTraversal::FollowWithinRoot);
    assert_eq!(request.filesystem_boundary(), FilesystemBoundary::CrossFilesystems);
}

#[test]
fn port_errors_map_to_the_existing_failure_contract() {
    let cases = [
        (
            PortErrorKind::PermissionDenied,
            FailureCode::OperationFailed,
            FailureCause::PermissionDenied,
            FailureClass::Operational,
        ),
        (
            PortErrorKind::ResourceUnavailable,
            FailureCode::OperationFailed,
            FailureCause::ResourceUnavailable,
            FailureClass::Operational,
        ),
        (
            PortErrorKind::ProcessExited { exit_code: 128 },
            FailureCode::OperationFailed,
            FailureCause::ProcessExited { exit_code: 128 },
            FailureClass::Operational,
        ),
        (
            PortErrorKind::IoFailure,
            FailureCode::OperationFailed,
            FailureCause::IoFailure,
            FailureClass::Operational,
        ),
        (
            PortErrorKind::StorageFailure,
            FailureCode::OperationFailed,
            FailureCause::StorageFailure,
            FailureClass::Operational,
        ),
        (
            PortErrorKind::InvalidData,
            FailureCode::OperationFailed,
            FailureCause::InvalidData,
            FailureClass::Operational,
        ),
        (
            PortErrorKind::OutputLimitExceeded,
            FailureCode::OperationFailed,
            FailureCause::OutputLimitExceeded,
            FailureClass::Operational,
        ),
        (
            PortErrorKind::TimedOut,
            FailureCode::OperationTimedOut,
            FailureCause::TimedOut,
            FailureClass::Operational,
        ),
        (
            PortErrorKind::Cancelled,
            FailureCode::OperationCancelled,
            FailureCause::Cancelled,
            FailureClass::Expected,
        ),
        (
            PortErrorKind::InvariantViolation,
            FailureCode::InvariantViolation,
            FailureCause::InvariantViolation,
            FailureClass::Defect,
        ),
        (
            PortErrorKind::Unexpected,
            FailureCode::UnexpectedFailure,
            FailureCause::Unexpected,
            FailureClass::Defect,
        ),
    ];

    for (kind, expected_code, expected_cause, expected_class) in cases {
        let error = PortError::new(kind);
        let failure = error.public_failure();

        assert_eq!(error.kind(), kind);
        assert_eq!(failure.error_code(), expected_code);
        assert_eq!(failure.causes(), &[expected_cause]);
        assert_eq!(failure.class(), expected_class);
    }
}

#[test]
fn port_failure_reports_expose_only_controlled_diagnostics() {
    let error = PortError::new(PortErrorKind::ProcessExited { exit_code: 128 });
    let report = error.public_report();

    assert_eq!(report.schema_version(), PUBLIC_FAILURE_REPORT_SCHEMA_VERSION);
    assert_eq!(report.application_version(), APPLICATION_VERSION);
    assert_eq!(report.failure(), &error.public_failure());
    assert_eq!(report.failure().causes(), &[FailureCause::ProcessExited { exit_code: 128 }]);
}

#[test]
fn port_result_uses_the_boundary_error_type() {
    let result: PortResult<()> = Err(PortError::new(PortErrorKind::TimedOut));

    assert_eq!(result, Err(PortError::new(PortErrorKind::TimedOut)));
}

#[test]
fn filesystem_identity_distinguishes_strong_from_path_only_evidence() {
    let object_id = FilesystemObjectId::new(7, 11);
    let strong = FilesystemIdentityEvidence::strong(object_id);

    assert!(strong.is_strong());
    assert_eq!(strong.object_id(), Some(object_id));
    assert!(!FilesystemIdentityEvidence::PathOnly.is_strong());
    assert_eq!(FilesystemIdentityEvidence::PathOnly.object_id(), None);
}

#[test]
fn public_error_codes_are_independent_from_typed_context() {
    let repository_a = ApplicationError::repository_not_found(RepositoryId::new("repository-a"));
    let repository_b = ApplicationError::repository_not_found(RepositoryId::new("repository-b"));
    let ambiguity =
        ApplicationError::repository_selector_ambiguous(vec![RepositoryId::new("repository-c")]);
    let location = ApplicationError::location_not_found(LocationId::new("location-1"));
    let worktree = ApplicationError::worktree_not_found(WorktreeId::new("worktree-1"));

    assert_ne!(repository_a, repository_b);
    assert_eq!(repository_a.code(), ApplicationErrorCode::RepositoryNotFound);
    assert_eq!(repository_b.code(), ApplicationErrorCode::RepositoryNotFound);
    assert_eq!(ambiguity.code(), ApplicationErrorCode::RepositorySelectorAmbiguous);
    assert_eq!(location.code(), ApplicationErrorCode::LocationNotFound);
    assert_eq!(worktree.code(), ApplicationErrorCode::WorktreeNotFound);
}

#[test]
fn public_errors_preserve_typed_context_for_presentation_consumers() {
    let repository_id = RepositoryId::new("repository-1");
    let candidates = vec![RepositoryId::new("repository-2"), RepositoryId::new("repository-3")];
    let location_id = LocationId::new("location-1");
    let worktree_id = WorktreeId::new("worktree-1");

    assert!(matches!(
        ApplicationError::repository_not_found(repository_id.clone()),
        ApplicationError::RepositoryNotFound { repository_id: actual } if actual == repository_id
    ));
    assert!(matches!(
        ApplicationError::repository_selector_ambiguous(candidates.clone()),
        ApplicationError::RepositorySelectorAmbiguous { candidates: actual } if actual == candidates
    ));
    assert!(matches!(
        ApplicationError::location_not_found(location_id.clone()),
        ApplicationError::LocationNotFound { location_id: actual } if actual == location_id
    ));
    assert!(matches!(
        ApplicationError::worktree_not_found(worktree_id.clone()),
        ApplicationError::WorktreeNotFound { worktree_id: actual } if actual == worktree_id
    ));
}

#[test]
fn public_failure_descriptors_are_independent_from_private_context() {
    let first =
        ApplicationError::repository_not_found(RepositoryId::new("/home/alice/projects/customer-secret"));
    let second =
        ApplicationError::repository_not_found(RepositoryId::new("/mnt/private/bob/internal-repository"));

    assert_ne!(first, second);
    assert_eq!(first.public_failure(), second.public_failure());
    assert_eq!(first.public_failure().class(), FailureClass::Expected);
    assert_eq!(
        first.public_failure().error_code(),
        FailureCode::Application(ApplicationErrorCode::RepositoryNotFound)
    );
    assert!(first.public_failure().causes().is_empty());
}

#[test]
fn public_failure_reports_cannot_correlate_equivalent_private_contexts() {
    let cases = [
        (
            ApplicationError::repository_not_found(RepositoryId::new(
                "/home/alice/projects/customer-secret",
            )),
            ApplicationError::repository_not_found(RepositoryId::new(
                "/mnt/private/bob/internal-repository",
            )),
        ),
        (
            ApplicationError::location_not_found(LocationId::new("/home/alice/projects/customer-secret")),
            ApplicationError::location_not_found(LocationId::new("/mnt/private/bob/internal-repository")),
        ),
        (
            ApplicationError::worktree_not_found(WorktreeId::new("/home/alice/projects/customer-secret")),
            ApplicationError::worktree_not_found(WorktreeId::new("/mnt/private/bob/internal-repository")),
        ),
    ];

    for (first, second) in cases {
        let first_report = first.public_report();
        let second_report = second.public_report();

        assert_eq!(first_report, second_report);
        assert_eq!(first_report.schema_version(), PUBLIC_FAILURE_REPORT_SCHEMA_VERSION);
        assert_eq!(first_report.application_version(), APPLICATION_VERSION);
        assert_eq!(first_report.failure(), &first.public_failure());

        let rendered = format!("{first_report:?}");
        assert!(!rendered.contains("alice"));
        assert!(!rendered.contains("customer-secret"));
        assert!(!rendered.contains("bob"));
        assert!(!rendered.contains("internal-repository"));
    }
}

#[test]
fn workspace_revision_has_monotonic_value_semantics() {
    let initial = WorkspaceRevision::initial();
    let next = WorkspaceRevision::new(1);

    assert_eq!(initial.value(), 0);
    assert_eq!(next.value(), 1);
    assert!(next > initial);
}
