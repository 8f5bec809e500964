use vstd::prelude::*;

use crate::cli::ParseError;
use crate::discovery::DiscoveryBatchOutcome;
use crate::operation::OperationCompletion;
use crate::diagnostics::{
    FailureCause, FailureClass, FailureCode, PublicFailureDescriptor, PublicFailureReport,
};
use crate::error::{ApplicationError, ApplicationErrorCode};
use crate::ports::{PortError, PortErrorKind};
use crate::protocol::ProtocolBuildError;

verus! {

/// The exit status categories of the command line.
#[derive(Clone, Copy, Debug, PartialEq, Eq, Structural)]
pub enum CliExitCode {
    Success,
    Usage,
    ExpectedFailure,
    OperationalFailure,
    InternalFailure,
    Interrupted,
}

pub open spec fn exit_value(code: CliExitCode) -> u8 {
    match code {
        CliExitCode::Success => 0,
        CliExitCode::Usage => 2,
        CliExitCode::ExpectedFailure => 3,
        CliExitCode::OperationalFailure => 4,
        CliExitCode::InternalFailure => 70,
        CliExitCode::Interrupted => 130,
    }
}

impl CliExitCode {
    /// The process exit status of the category.
    pub fn value(self) -> (r: u8)
        ensures
            r == exit_value(self),
    {
        match self {
            CliExitCode::Success => 0,
            CliExitCode::Usage => 2,
            CliExitCode::ExpectedFailure => 3,
            CliExitCode::OperationalFailure => 4,
            CliExitCode::InternalFailure => 70,
            CliExitCode::Interrupted => 130,
        }
    }
}

/// How writing the output failed: the reader went away, or otherwise.
#[derive(Clone, Copy, Debug, PartialEq, Eq, Structural)]
pub enum OutputFailure {
    BrokenPipe,
    Other,
}

/// Why the command line could not finish.
#[derive(Debug)]
pub enum CliError {
    Usage(ParseError),
    Runtime(PortError),
    Application(ApplicationError),
    RepositoryNotFound,
    Protocol(ProtocolBuildError),
    JsonSerialization,
    SignalHandler,
    WorkingDirectory,
    Output(OutputFailure),
}

/// The exit category of a failure class.
pub open spec fn class_exit(class: FailureClass) -> CliExitCode {
    match class {
        FailureClass::Expected => CliExitCode::ExpectedFailure,
        FailureClass::Operational => CliExitCode::OperationalFailure,
        FailureClass::Defect => CliExitCode::InternalFailure,
    }
}

pub fn exit_code_for_failure_class(class: FailureClass) -> (r: CliExitCode)
    ensures
        r == class_exit(class),
{
    match class {
        FailureClass::Expected => CliExitCode::ExpectedFailure,
        FailureClass::Operational => CliExitCode::OperationalFailure,
        FailureClass::Defect => CliExitCode::InternalFailure,
    }
}

/// The exit category of an error: usage errors and interruptions have their
/// own; runtime and application errors go by the class of their public
/// code; a missing repository is expected; a document that could not be
/// built is a defect; the rest are operational.
pub open spec fn error_exit(error: CliError) -> CliExitCode {
    match error {
        CliError::Usage(_) => CliExitCode::Usage,
        CliError::Runtime(port) => if port.spec_kind() == PortErrorKind::Cancelled {
            CliExitCode::Interrupted
        } else {
            class_exit(port.spec_kind().spec_failure_code().spec_class())
        },
        CliError::Application(application) => class_exit(
            FailureCode::Application(application.spec_code()).spec_class(),
        ),
        CliError::RepositoryNotFound => CliExitCode::ExpectedFailure,
        CliError::Protocol(_) => CliExitCode::InternalFailure,
        CliError::JsonSerialization => CliExitCode::InternalFailure,
        CliError::SignalHandler => CliExitCode::OperationalFailure,
        CliError::WorkingDirectory => CliExitCode::OperationalFailure,
        CliError::Output(_) => CliExitCode::OperationalFailure,
    }
}

/// The public code and causes an error reports, or none for usage and
/// output errors.
pub open spec fn reported_failure(error: CliError) -> Option<(FailureCode, Seq<FailureCause>)> {
    match error {
        CliError::Usage(_) => None,
        CliError::Output(_) => None,
        CliError::Runtime(port) => Some(
            (port.spec_kind().spec_failure_code(), seq![port.spec_kind().spec_failure_cause()]),
        ),
        CliError::Application(application) => Some(
            (FailureCode::Application(application.spec_code()), Seq::empty()),
        ),
        CliError::RepositoryNotFound => Some(
            (FailureCode::Application(ApplicationErrorCode::RepositoryNotFound), Seq::empty()),
        ),
        CliError::Protocol(_) => Some((FailureCode::InvariantViolation, Seq::empty())),
        CliError::JsonSerialization => Some((FailureCode::UnexpectedFailure, Seq::empty())),
        CliError::SignalHandler => Some(
            (FailureCode::OperationFailed, seq![FailureCause::ResourceUnavailable]),
        ),
        CliError::WorkingDirectory => Some(
            (FailureCode::OperationFailed, seq![FailureCause::IoFailure]),
        ),
    }
}

impl CliError {
    pub fn exit_code(&self) -> (r: CliExitCode)
        ensures
            r == error_exit(*self),
    {
        match self {
            CliError::Usage(_) => CliExitCode::Usage,
            CliError::Runtime(error) => {
                if error.kind() == PortErrorKind::Cancelled {
                    CliExitCode::Interrupted
                } else {
                    exit_code_for_failure_class(error.public_failure().class())
                }
            },
            CliError::Application(error) => exit_code_for_failure_class(
                error.public_failure().class(),
            ),
            CliError::RepositoryNotFound => CliExitCode::ExpectedFailure,
            CliError::Protocol(_) => CliExitCode::InternalFailure,
            CliError::JsonSerialization => CliExitCode::InternalFailure,
            CliError::SignalHandler => CliExitCode::OperationalFailure,
            CliError::WorkingDirectory => CliExitCode::OperationalFailure,
            CliError::Output(_) => CliExitCode::OperationalFailure,
        }
    }

    /// The public failure report of the error: its code and causes, and
    /// nothing of its private context.
    pub fn public_report(&self) -> (r: Option<PublicFailureReport>)
        ensures
            match reported_failure(*self) {
                None => r is None,
                Some((code, causes)) => r matches Some(report) && report.spec_failure().spec_error_code()
                    == code && report.spec_failure().spec_causes() == causes,
            },
    {
        match self {
            CliError::Usage(_) => None,
            CliError::Output(_) => None,
            CliError::Runtime(error) => Some(error.public_report()),
            CliError::Application(error) => Some(error.public_report()),
            CliError::RepositoryNotFound => Some(
                PublicFailureReport::new(
                    PublicFailureDescriptor::new(
                        FailureCode::Application(ApplicationErrorCode::RepositoryNotFound),
                    ),
                ),
            ),
            CliError::Protocol(_) => Some(
                PublicFailureReport::new(PublicFailureDescriptor::new(FailureCode::InvariantViolation)),
            ),
            CliError::JsonSerialization => Some(
                PublicFailureReport::new(PublicFailureDescriptor::new(FailureCode::UnexpectedFailure)),
            ),
            CliError::SignalHandler => {
                let causes = vec![FailureCause::ResourceUnavailable];
                proof {
                    assert(causes@ =~= seq![FailureCause::ResourceUnavailable]);
                }
                Some(
                    PublicFailureReport::new(
                        PublicFailureDescriptor::with_causes(FailureCode::OperationFailed, causes),
                    ),
                )
            },
            CliError::WorkingDirectory => {
                let causes = vec![FailureCause::IoFailure];
                proof {
                    assert(causes@ =~= seq![FailureCause::IoFailure]);
                }
                Some(
                    PublicFailureReport::new(
                        PublicFailureDescriptor::with_causes(FailureCode::OperationFailed, causes),
                    ),
                )
            },
        }
    }

    pub fn is_broken_pipe(&self) -> (r: bool)
        ensures
            r == (*self == CliError::Output(OutputFailure::BrokenPipe)),
    {
        match self {
            CliError::Output(OutputFailure::BrokenPipe) => true,
            _ => false,
        }
    }
}

/// The exit category of an operation by how far it got.
pub open spec fn completion_exit(completion: OperationCompletion) -> CliExitCode {
    match completion {
        OperationCompletion::Complete => CliExitCode::Success,
        OperationCompletion::Partial => CliExitCode::ExpectedFailure,
        OperationCompletion::Failed => CliExitCode::OperationalFailure,
        OperationCompletion::Cancelled => CliExitCode::Interrupted,
    }
}

pub fn operation_exit_code(completion: OperationCompletion) -> (r: CliExitCode)
    ensures
        r == completion_exit(completion),
{
    match completion {
        OperationCompletion::Complete => CliExitCode::Success,
        OperationCompletion::Partial => CliExitCode::ExpectedFailure,
        OperationCompletion::Failed => CliExitCode::OperationalFailure,
        OperationCompletion::Cancelled => CliExitCode::Interrupted,
    }
}

/// A discovery of no root at all is an expected failure; otherwise the
/// batch exits by how far it got.
pub fn discovery_exit_code(outcome: &DiscoveryBatchOutcome) -> (r: CliExitCode)
    ensures
        r == if outcome.spec_completed().len() + outcome.spec_failed_roots().len() == 0 {
            CliExitCode::ExpectedFailure
        } else {
            completion_exit(outcome.spec_completion())
        },
{
    if outcome.completed_root_count() == 0 && outcome.failed_root_count() == 0 {
        CliExitCode::ExpectedFailure
    } else {
        operation_exit_code(outcome.completion())
    }
}

/// Every error with a public report exits as its code's class says, but
/// for an interruption.
pub proof fn law_reported_errors_exit_by_class(error: CliError)
    requires
        reported_failure(error) matches Some((code, _)),
        !(error matches CliError::Runtime(port) && port.spec_kind() == PortErrorKind::Cancelled),
    ensures
        match reported_failure(error) {
            Some((code, _)) => error_exit(error) == class_exit(code.spec_class()),
            None => true,
        },
{
}

} // verus!
