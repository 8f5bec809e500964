use vstd::prelude::*;

use crate::diagnostics::{
    FailureCause, FailureCode, PublicFailureDescriptor, PublicFailureReport, APPLICATION_VERSION,
    PUBLIC_FAILURE_REPORT_SCHEMA_VERSION,
};

verus! {

/// Why a port operation failed.
#[derive(Clone, Copy, Debug, PartialEq, Eq, Hash, Structural)]
pub enum PortErrorKind {
    PermissionDenied,
    ResourceUnavailable,
    ProcessExited { exit_code: i32 },
    IoFailure,
    StorageFailure,
    InvalidData,
    OutputLimitExceeded,
    TimedOut,
    Cancelled,
    InvariantViolation,
    Unexpected,
}

impl PortErrorKind {
    pub open spec fn spec_failure_code(self) -> FailureCode {
        match self {
            PortErrorKind::TimedOut => FailureCode::OperationTimedOut,
            PortErrorKind::Cancelled => FailureCode::OperationCancelled,
            PortErrorKind::InvariantViolation => FailureCode::InvariantViolation,
            PortErrorKind::Unexpected => FailureCode::UnexpectedFailure,
            _ => FailureCode::OperationFailed,
        }
    }

    /// The public failure code of this kind.
    pub fn failure_code(self) -> (r: FailureCode)
        ensures
            r == self.spec_failure_code(),
    {
        match self {
            PortErrorKind::TimedOut => FailureCode::OperationTimedOut,
            PortErrorKind::Cancelled => FailureCode::OperationCancelled,
            PortErrorKind::InvariantViolation => FailureCode::InvariantViolation,
            PortErrorKind::Unexpected => FailureCode::UnexpectedFailure,
            PortErrorKind::PermissionDenied
            | PortErrorKind::ResourceUnavailable
            | PortErrorKind::ProcessExited { .. }
            | PortErrorKind::IoFailure
            | PortErrorKind::StorageFailure
            | PortErrorKind::InvalidData
            | PortErrorKind::OutputLimitExceeded => FailureCode::OperationFailed,
        }
    }

    pub open spec fn spec_failure_cause(self) -> FailureCause {
        match self {
            PortErrorKind::PermissionDenied => FailureCause::PermissionDenied,
            PortErrorKind::ResourceUnavailable => FailureCause::ResourceUnavailable,
            PortErrorKind::ProcessExited { exit_code } => FailureCause::ProcessExited { exit_code },
            PortErrorKind::IoFailure => FailureCause::IoFailure,
            PortErrorKind::StorageFailure => FailureCause::StorageFailure,
            PortErrorKind::InvalidData => FailureCause::InvalidData,
            PortErrorKind::OutputLimitExceeded => FailureCause::OutputLimitExceeded,
            PortErrorKind::TimedOut => FailureCause::TimedOut,
            PortErrorKind::Cancelled => FailureCause::Cancelled,
            PortErrorKind::InvariantViolation => FailureCause::InvariantViolation,
            PortErrorKind::Unexpected => FailureCause::Unexpected,
        }
    }

    /// The public failure cause of this kind.
    pub fn failure_cause(self) -> (r: FailureCause)
        ensures
            r == self.spec_failure_cause(),
    {
        match self {
            PortErrorKind::PermissionDenied => FailureCause::PermissionDenied,
            PortErrorKind::ResourceUnavailable => FailureCause::ResourceUnavailable,
            PortErrorKind::ProcessExited { exit_code } => FailureCause::ProcessExited { exit_code },
            PortErrorKind::IoFailure => FailureCause::IoFailure,
            PortErrorKind::StorageFailure => FailureCause::StorageFailure,
            PortErrorKind::InvalidData => FailureCause::InvalidData,
            PortErrorKind::OutputLimitExceeded => FailureCause::OutputLimitExceeded,
            PortErrorKind::TimedOut => FailureCause::TimedOut,
            PortErrorKind::Cancelled => FailureCause::Cancelled,
            PortErrorKind::InvariantViolation => FailureCause::InvariantViolation,
            PortErrorKind::Unexpected => FailureCause::Unexpected,
        }
    }
}

/// The error type of every port boundary.
#[derive(Clone, Copy, Debug, PartialEq, Eq, Hash, Structural)]
pub struct PortError {
    kind: PortErrorKind,
}

/// The result type of every port boundary.
pub type PortResult<T> = Result<T, PortError>;

impl PortError {
    pub closed spec fn spec_kind(self) -> PortErrorKind {
        self.kind
    }

    pub fn new(kind: PortErrorKind) -> (r: Self)
        ensures
            r.spec_kind() == kind,
    {
        PortError { kind }
    }

    pub fn kind(&self) -> (r: PortErrorKind)
        ensures
            r == self.spec_kind(),
    {
        self.kind
    }

    /// The public failure: the code of the kind and the kind as only cause.
    pub fn public_failure(&self) -> (r: PublicFailureDescriptor)
        ensures
            r.spec_error_code() == self.spec_kind().spec_failure_code(),
            r.spec_causes() == seq![self.spec_kind().spec_failure_cause()],
            r.spec_details() is None,
    {
        let causes = vec![self.kind.failure_cause()];
        proof {
            assert(causes@ =~= seq![self.spec_kind().spec_failure_cause()]);
        }
        PublicFailureDescriptor::with_causes(self.kind.failure_code(), causes)
    }

    pub fn public_report(&self) -> (r: PublicFailureReport)
        ensures
            r.spec_schema_version() == PUBLIC_FAILURE_REPORT_SCHEMA_VERSION,
            r.spec_application_version() == APPLICATION_VERSION@,
            r.spec_failure().spec_error_code() == self.spec_kind().spec_failure_code(),
            r.spec_failure().spec_causes() == seq![self.spec_kind().spec_failure_cause()],
            r.spec_failure().spec_details() is None,
    {
        PublicFailureReport::new(self.public_failure())
    }
}

} // verus!
