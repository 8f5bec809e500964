use bulls::exit_status::{
    discovery_exit_code, operation_exit_code, CliError, CliExitCode, OutputFailure,
};
use bulls::ports::{PortError, PortErrorKind};
use bulls::{
    ApplicationError, DiscoveryBatchOutcome, DiscoveryRootFailure, FailureCause, FsPath,
    OperationCompletion, RepositoryId,
};

#[test]
fn runtime_failure_classes_map_to_stable_exit_categories() {
    let expected = CliError::Runtime(PortError::new(PortErrorKind::Cancelled));
    let operational = CliError::Runtime(PortError::new(PortErrorKind::TimedOut));
    let defect = CliError::Runtime(PortError::new(PortErrorKind::InvariantViolation));

    assert_eq!(expected.exit_code(), CliExitCode::Interrupted);
    assert_eq!(operational.exit_code(), CliExitCode::OperationalFailure);
    assert_eq!(defect.exit_code(), CliExitCode::InternalFailure);
}

#[test]
fn ambiguous_selector_errors_preserve_candidates_and_expected_failure_semantics() {
    let error = CliError::Application(ApplicationError::repository_selector_ambiguous(vec![
        RepositoryId::new("repository-a"),
        RepositoryId::new("repository-b"),
    ]));

    assert_eq!(error.exit_code(), CliExitCode::ExpectedFailure);
    let report = error.public_report().expect("ambiguity report must exist");
    assert_eq!(report.failure().error_code().as_str(), "repository_selector_ambiguous");
    assert!(report.failure().details().is_some());
}

#[test]
fn working_directory_failure_is_operational_and_typed() {
    let error = CliError::WorkingDirectory;
    let report = error.public_report().expect("working directory report must exist");

    assert_eq!(error.exit_code(), CliExitCode::OperationalFailure);
    assert_eq!(report.failure().error_code().as_str(), "operation_failed");
    assert_eq!(report.failure().causes(), &[FailureCause::IoFailure]);
}

#[test]
fn public_reports_cover_runtime_and_expected_failures_without_private_context() {
    let runtime = CliError::Runtime(PortError::new(PortErrorKind::StorageFailure));
    let runtime_report = runtime.public_report().expect("runtime report must exist");
    assert_eq!(runtime_report.failure().error_code().as_str(), "operation_failed");

    let missing = CliError::RepositoryNotFound;
    let missing_report = missing.public_report().expect("missing report must exist");
    assert_eq!(missing_report.failure().error_code().as_str(), "repository_not_found");
    assert!(missing_report.failure().causes().is_empty());
}

#[test]
fn signal_handler_failure_is_operational_and_privacy_safe() {
    let error = CliError::SignalHandler;
    let report = error.public_report().expect("signal failure report must exist");

    assert_eq!(error.exit_code(), CliExitCode::OperationalFailure);
    assert_eq!(report.failure().error_code().as_str(), "operation_failed");
    assert_eq!(report.failure().causes().len(), 1);
    assert_eq!(report.failure().causes()[0].as_str(), "resource_unavailable");
}

#[test]
fn broken_pipe_is_explicitly_classified() {
    let error = CliError::Output(OutputFailure::BrokenPipe);

    assert!(error.is_broken_pipe());
    assert_eq!(error.exit_code(), CliExitCode::OperationalFailure);
    assert!(error.public_report().is_none());
    assert!(!CliError::Output(OutputFailure::Other).is_broken_pipe());
}

#[test]
fn exit_categories_have_stable_process_statuses() {
    assert_eq!(CliExitCode::Success.value(), 0);
    assert_eq!(CliExitCode::Usage.value(), 2);
    assert_eq!(CliExitCode::ExpectedFailure.value(), 3);
    assert_eq!(CliExitCode::OperationalFailure.value(), 4);
    assert_eq!(CliExitCode::InternalFailure.value(), 70);
    assert_eq!(CliExitCode::Interrupted.value(), 130);
    assert_eq!(CliError::JsonSerialization.exit_code(), CliExitCode::InternalFailure);
    assert_eq!(
        CliError::JsonSerialization.public_report().expect("report must exist").failure().error_code().as_str(),
        "unexpected_failure"
    );
}

#[test]
fn operations_exit_by_how_far_they_got() {
    assert_eq!(operation_exit_code(OperationCompletion::Complete), CliExitCode::Success);
    assert_eq!(operation_exit_code(OperationCompletion::Partial), CliExitCode::ExpectedFailure);
    assert_eq!(operation_exit_code(OperationCompletion::Failed), CliExitCode::OperationalFailure);
    assert_eq!(operation_exit_code(OperationCompletion::Cancelled), CliExitCode::Interrupted);
    assert_eq!(discovery_exit_code(&DiscoveryBatchOutcome::default()), CliExitCode::ExpectedFailure);
    let failed = DiscoveryBatchOutcome::new(
        Vec::new(),
        vec![DiscoveryRootFailure::new(FsPath::new("/offline"), PortErrorKind::ResourceUnavailable)],
    );
    assert_eq!(discovery_exit_code(&failed), CliExitCode::OperationalFailure);
}

#[test]
fn ordinary_batches_have_counts_that_fit() {
    assert!(DiscoveryBatchOutcome::default().counts_fit());
    let failed = DiscoveryBatchOutcome::new(
        Vec::new(),
        vec![DiscoveryRootFailure::new(FsPath::new("/offline"), PortErrorKind::ResourceUnavailable)],
    );
    assert!(failed.counts_fit());
}
