use vstd::prelude::*;

use crate::error::ApplicationErrorCode;

verus! {

/// Version of the public failure report layout.
pub const PUBLIC_FAILURE_REPORT_SCHEMA_VERSION: u16 = 2;

/// Version of this application, as reported in failure reports.
pub const APPLICATION_VERSION: &'static str = "0.2.0";

/// Who is expected to act on a failure.
#[derive(Clone, Copy, Debug, PartialEq, Eq, Hash, Structural)]
pub enum FailureClass {
    Expected,
    Operational,
    Defect,
}

impl FailureClass {
    pub open spec fn spec_as_str(self) -> Seq<char> {
        match self {
            FailureClass::Expected => "expected"@,
            FailureClass::Operational => "operational"@,
            FailureClass::Defect => "defect"@,
        }
    }

    /// The stable machine name of the class.
    pub fn as_str(self) -> (r: &'static str)
        ensures
            r@ == self.spec_as_str(),
    {
        match self {
            FailureClass::Expected => "expected",
            FailureClass::Operational => "operational",
            FailureClass::Defect => "defect",
        }
    }
}

/// The stable public code of a failure.
#[derive(Clone, Copy, Debug, PartialEq, Eq, Hash, Structural)]
pub enum FailureCode {
    Application(ApplicationErrorCode),
    OperationFailed,
    OperationTimedOut,
    OperationCancelled,
    InvariantViolation,
    UnexpectedFailure,
}

impl FailureCode {
    pub open spec fn spec_class(self) -> FailureClass {
        match self {
            FailureCode::Application(_) | FailureCode::OperationCancelled => FailureClass::Expected,
            FailureCode::OperationFailed | FailureCode::OperationTimedOut => FailureClass::Operational,
            FailureCode::InvariantViolation | FailureCode::UnexpectedFailure => FailureClass::Defect,
        }
    }

    /// The class a code belongs to, derived from the code alone.
    pub fn class(self) -> (r: FailureClass)
        ensures
            r == self.spec_class(),
    {
        match self {
            FailureCode::Application(_) | FailureCode::OperationCancelled => FailureClass::Expected,
            FailureCode::OperationFailed | FailureCode::OperationTimedOut => FailureClass::Operational,
            FailureCode::InvariantViolation | FailureCode::UnexpectedFailure => FailureClass::Defect,
        }
    }

    pub open spec fn spec_as_str(self) -> Seq<char> {
        match self {
            FailureCode::Application(code) => code.spec_as_str(),
            FailureCode::OperationFailed => "operation_failed"@,
            FailureCode::OperationTimedOut => "operation_timed_out"@,
            FailureCode::OperationCancelled => "operation_cancelled"@,
            FailureCode::InvariantViolation => "invariant_violation"@,
            FailureCode::UnexpectedFailure => "unexpected_failure"@,
        }
    }

    /// The stable machine name of the code.
    pub fn as_str(self) -> (r: &'static str)
        ensures
            r@ == self.spec_as_str(),
    {
        match self {
            FailureCode::Application(code) => code.as_str(),
            FailureCode::OperationFailed => "operation_failed",
            FailureCode::OperationTimedOut => "operation_timed_out",
            FailureCode::OperationCancelled => "operation_cancelled",
            FailureCode::InvariantViolation => "invariant_violation",
            FailureCode::UnexpectedFailure => "unexpected_failure",
        }
    }
}

/// A typed, privacy-safe cause of a failure.
#[derive(Clone, Copy, Debug, PartialEq, Eq, Hash, Structural)]
pub enum FailureCause {
    PermissionDenied,
    ResourceUnavailable,
    ProcessExited { exit_code: i32 },
    IoFailure,
    StorageFailure,
    InvalidData,
    OutputLimitExceeded,
    TimedOut,
    Cancelled,
    InvariantViolation,
    Unexpected,
}

impl FailureCause {
    pub open spec fn spec_as_str(self) -> Seq<char> {
        match self {
            FailureCause::PermissionDenied => "permission_denied"@,
            FailureCause::ResourceUnavailable => "resource_unavailable"@,
            FailureCause::ProcessExited { .. } => "process_exited"@,
            FailureCause::IoFailure => "io_failure"@,
            FailureCause::StorageFailure => "storage_failure"@,
            FailureCause::InvalidData => "invalid_data"@,
            FailureCause::OutputLimitExceeded => "output_limit_exceeded"@,
            FailureCause::TimedOut => "timed_out"@,
            FailureCause::Cancelled => "cancelled"@,
            FailureCause::InvariantViolation => "invariant_violation"@,
            FailureCause::Unexpected => "unexpected"@,
        }
    }

    /// The stable machine name of the cause.
    pub fn as_str(self) -> (r: &'static str)
        ensures
            r@ == self.spec_as_str(),
    {
        match self {
            FailureCause::PermissionDenied => "permission_denied",
            FailureCause::ResourceUnavailable => "resource_unavailable",
            FailureCause::ProcessExited { .. } => "process_exited",
            FailureCause::IoFailure => "io_failure",
            FailureCause::StorageFailure => "storage_failure",
            FailureCause::InvalidData => "invalid_data",
            FailureCause::OutputLimitExceeded => "output_limit_exceeded",
            FailureCause::TimedOut => "timed_out",
            FailureCause::Cancelled => "cancelled",
            FailureCause::InvariantViolation => "invariant_violation",
            FailureCause::Unexpected => "unexpected",
        }
    }
}

/// Structured, privacy-safe details of a failure.
#[derive(Clone, Debug, PartialEq, Eq)]
pub enum PublicFailureDetails {
    RepositorySelectorAmbiguous { candidates: Vec<String> },
}

/// The public description of a failure: a code, its causes and details.
#[derive(Clone, Debug, PartialEq, Eq)]
pub struct PublicFailureDescriptor {
    error_code: FailureCode,
    causes: Vec<FailureCause>,
    details: Option<PublicFailureDetails>,
}

impl PublicFailureDescriptor {
    pub closed spec fn spec_error_code(&self) -> FailureCode {
        self.error_code
    }

    pub closed spec fn spec_causes(&self) -> Seq<FailureCause> {
        self.causes@
    }

    pub closed spec fn spec_details(&self) -> Option<PublicFailureDetails> {
        self.details
    }

    pub fn new(error_code: FailureCode) -> (r: Self)
        ensures
            r.spec_error_code() == error_code,
            r.spec_causes() == Seq::<FailureCause>::empty(),
            r.spec_details() == None::<PublicFailureDetails>,
    {
        PublicFailureDescriptor { error_code, causes: Vec::new(), details: None }
    }

    pub fn with_causes(error_code: FailureCode, causes: Vec<FailureCause>) -> (r: Self)
        ensures
            r.spec_error_code() == error_code,
            r.spec_causes() == causes@,
            r.spec_details() == None::<PublicFailureDetails>,
    {
        PublicFailureDescriptor { error_code, causes, details: None }
    }

    pub fn with_details(error_code: FailureCode, details: PublicFailureDetails) -> (r: Self)
        ensures
            r.spec_error_code() == error_code,
            r.spec_causes() == Seq::<FailureCause>::empty(),
            r.spec_details() == Some(details),
    {
        PublicFailureDescriptor { error_code, causes: Vec::new(), details: Some(details) }
    }

    /// The class, derived from the code.
    pub fn class(&self) -> (r: FailureClass)
        ensures
            r == self.spec_error_code().spec_class(),
    {
        self.error_code.class()
    }

    pub fn error_code(&self) -> (r: FailureCode)
        ensures
            r == self.spec_error_code(),
    {
        self.error_code
    }

    pub fn causes(&self) -> (r: &[FailureCause])
        ensures
            r@ == self.spec_causes(),
    {
        self.causes.as_slice()
    }

    pub fn details(&self) -> (r: Option<&PublicFailureDetails>)
        ensures
            r == match self.spec_details() {
                Some(d) => Some(&d),
                None => None,
            },
    {
        match &self.details {
            Some(details) => Some(details),
            None => None,
        }
    }
}

/// A versioned public failure report.
#[derive(Clone, Debug, PartialEq, Eq)]
pub struct PublicFailureReport {
    schema_version: u16,
    application_version: &'static str,
    failure: PublicFailureDescriptor,
}

/// What a report says: its schema, the application version, the code, the
/// causes and the details of the failure.
pub open spec fn report_content(report: PublicFailureReport) -> (
    u16,
    Seq<char>,
    FailureCode,
    Seq<FailureCause>,
    Option<PublicFailureDetails>,
) {
    (
        report.spec_schema_version(),
        report.spec_application_version(),
        report.spec_failure().spec_error_code(),
        report.spec_failure().spec_causes(),
        report.spec_failure().spec_details(),
    )
}

impl PublicFailureReport {
    pub closed spec fn spec_schema_version(&self) -> u16 {
        self.schema_version
    }

    pub closed spec fn spec_application_version(&self) -> Seq<char> {
        self.application_version@
    }

    pub closed spec fn spec_failure(&self) -> PublicFailureDescriptor {
        self.failure
    }

    /// Adds the report schema and application version to a failure.
    pub fn new(failure: PublicFailureDescriptor) -> (r: Self)
        ensures
            r.spec_schema_version() == PUBLIC_FAILURE_REPORT_SCHEMA_VERSION,
            r.spec_application_version() == APPLICATION_VERSION@,
            r.spec_failure() == failure,
    {
        PublicFailureReport {
            schema_version: PUBLIC_FAILURE_REPORT_SCHEMA_VERSION,
            application_version: APPLICATION_VERSION,
            failure,
        }
    }

    pub fn schema_version(&self) -> (r: u16)
        ensures
            r == self.spec_schema_version(),
    {
        self.schema_version
    }

    pub fn application_version(&self) -> (r: &'static str)
        ensures
            r@ == self.spec_application_version(),
    {
        self.application_version
    }

    pub fn failure(&self) -> (r: &PublicFailureDescriptor)
        ensures
            *r == self.spec_failure(),
    {
        &self.failure
    }
}

} // verus!
