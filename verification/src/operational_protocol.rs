use vstd::prelude::*;

use crate::diagnostics::FailureCause;
use crate::discovery::{
    discovery_issue_measure, identification_issue_measure, location_measure, partial_measure,
    repository_measure, sum_by, worktree_measure, DiscoverRepositoriesOutcome,
    DiscoveryBatchOutcome, DiscoveryRootFailure,
};
use crate::observation::ObservationKey;
use crate::observe::{ObservationTargetFailure, ObserveInventoryOutcome};
use crate::operation::{OperationCompletion, WorkspaceOperationOutcome};
use crate::ports::CatalogReconciliationCoverage;
use crate::protocol::{
    protocol_coverage, protocol_failure, protocol_observation_coverage,
    protocol_observation_failure, protocol_path_of, ProtocolBuildError,
    ProtocolObservationCoverage, ProtocolObservationFailureKind, ProtocolPath,
};
use crate::workspace::WorkspaceRevision;

verus! {

/// The schema version of operation documents.
pub const OPERATION_PROTOCOL_SCHEMA_VERSION: u16 = 1;

/// How far an operation got, as published.
#[derive(Clone, Copy, Debug, PartialEq, Eq, Structural)]
pub enum ProtocolOperationStatus {
    Complete,
    Partial,
    Failed,
    Cancelled,
}

/// A versioned operation document: the schema version, the workspace
/// revision the operation produced, its status and its payload.
#[derive(Clone, Debug, PartialEq, Eq)]
pub struct ProtocolOperationDocument<T> {
    pub schema_version: u16,
    pub workspace_revision: u64,
    pub status: ProtocolOperationStatus,
    pub payload: T,
}

#[derive(Clone, Copy, Debug, PartialEq, Eq, Structural)]
pub enum ProtocolDiscoveryCoverage {
    Complete,
    Partial,
}

/// Where a discovery issue arose: walking the filesystem or identifying a
/// repository.
#[derive(Clone, Copy, Debug, PartialEq, Eq, Structural)]
pub enum ProtocolDiscoveryIssueStage {
    Filesystem,
    RepositoryIdentification,
}

#[derive(Clone, Copy, Debug, PartialEq, Eq, Structural)]
pub enum ProtocolOperationFailureCause {
    PermissionDenied,
    ResourceUnavailable,
    ProcessExited { exit_code: i32 },
    IoFailure,
    StorageFailure,
    InvalidData,
    OutputLimitExceeded,
    TimedOut,
    Cancelled,
    InvariantViolation,
    Unexpected,
}

#[derive(Clone, Debug, PartialEq, Eq)]
pub struct ProtocolDiscoveryIssue {
    pub stage: ProtocolDiscoveryIssueStage,
    pub path: ProtocolPath,
    pub cause: ProtocolOperationFailureCause,
}

#[derive(Clone, Debug, PartialEq, Eq)]
pub struct ProtocolDiscoveryRoot {
    pub root: ProtocolPath,
    pub coverage: ProtocolDiscoveryCoverage,
    pub issues: Vec<ProtocolDiscoveryIssue>,
    pub repository_count: u64,
    pub location_count: u64,
    pub worktree_count: u64,
}

#[derive(Clone, Debug, PartialEq, Eq)]
pub struct ProtocolDiscoveryRootFailure {
    pub root: ProtocolPath,
    pub cause: ProtocolOperationFailureCause,
}

#[derive(Clone, Debug, PartialEq, Eq)]
pub struct ProtocolDiscoveryOutcome {
    pub requested_root_count: u64,
    pub completed_root_count: u64,
    pub partial_root_count: u64,
    pub failed_root_count: u64,
    pub discovery_issue_count: u64,
    pub identification_issue_count: u64,
    pub repository_count: u64,
    pub location_count: u64,
    pub worktree_count: u64,
    pub roots: Vec<ProtocolDiscoveryRoot>,
    pub failed_roots: Vec<ProtocolDiscoveryRootFailure>,
}

#[derive(Clone, Debug, PartialEq, Eq)]
pub enum ProtocolObservationTarget {
    RepositoryRemotes { repository_id: String },
    WorktreeGitState { worktree_id: String },
}

#[derive(Clone, Debug, PartialEq, Eq)]
pub struct ProtocolObservationTargetFailure {
    pub target: ProtocolObservationTarget,
    pub failure: ProtocolObservationFailureKind,
}

#[derive(Clone, Debug, PartialEq, Eq)]
pub struct ProtocolRefreshOutcome {
    pub run_id: String,
    pub coverage: ProtocolObservationCoverage,
    pub target_count: u64,
    pub succeeded_count: u64,
    pub failed_count: u64,
    pub cancelled_count: u64,
    pub failures: Vec<ProtocolObservationTargetFailure>,
}

pub open spec fn operation_status(value: OperationCompletion) -> ProtocolOperationStatus {
    match value {
        OperationCompletion::Complete => ProtocolOperationStatus::Complete,
        OperationCompletion::Partial => ProtocolOperationStatus::Partial,
        OperationCompletion::Failed => ProtocolOperationStatus::Failed,
        OperationCompletion::Cancelled => ProtocolOperationStatus::Cancelled,
    }
}

pub fn protocol_operation_status(value: OperationCompletion) -> (r: ProtocolOperationStatus)
    ensures
        r == operation_status(value),
{
    match value {
        OperationCompletion::Complete => ProtocolOperationStatus::Complete,
        OperationCompletion::Partial => ProtocolOperationStatus::Partial,
        OperationCompletion::Failed => ProtocolOperationStatus::Failed,
        OperationCompletion::Cancelled => ProtocolOperationStatus::Cancelled,
    }
}

pub open spec fn discovery_coverage(value: CatalogReconciliationCoverage) -> ProtocolDiscoveryCoverage {
    match value {
        CatalogReconciliationCoverage::Complete => ProtocolDiscoveryCoverage::Complete,
        CatalogReconciliationCoverage::Partial => ProtocolDiscoveryCoverage::Partial,
    }
}

pub fn protocol_discovery_coverage(value: CatalogReconciliationCoverage) -> (r:
    ProtocolDiscoveryCoverage)
    ensures
        r == discovery_coverage(value),
{
    match value {
        CatalogReconciliationCoverage::Complete => ProtocolDiscoveryCoverage::Complete,
        CatalogReconciliationCoverage::Partial => ProtocolDiscoveryCoverage::Partial,
    }
}

pub open spec fn operation_failure_cause(value: FailureCause) -> ProtocolOperationFailureCause {
    match value {
        FailureCause::PermissionDenied => ProtocolOperationFailureCause::PermissionDenied,
        FailureCause::ResourceUnavailable => ProtocolOperationFailureCause::ResourceUnavailable,
        FailureCause::ProcessExited { exit_code } => ProtocolOperationFailureCause::ProcessExited {
            exit_code,
        },
        FailureCause::IoFailure => ProtocolOperationFailureCause::IoFailure,
        FailureCause::StorageFailure => ProtocolOperationFailureCause::StorageFailure,
        FailureCause::InvalidData => ProtocolOperationFailureCause::InvalidData,
        FailureCause::OutputLimitExceeded => ProtocolOperationFailureCause::OutputLimitExceeded,
        FailureCause::TimedOut => ProtocolOperationFailureCause::TimedOut,
        FailureCause::Cancelled => ProtocolOperationFailureCause::Cancelled,
        FailureCause::InvariantViolation => ProtocolOperationFailureCause::InvariantViolation,
        FailureCause::Unexpected => ProtocolOperationFailureCause::Unexpected,
    }
}

pub fn protocol_failure_cause(value: FailureCause) -> (r: ProtocolOperationFailureCause)
    ensures
        r == operation_failure_cause(value),
{
    match value {
        FailureCause::PermissionDenied => ProtocolOperationFailureCause::PermissionDenied,
        FailureCause::ResourceUnavailable => ProtocolOperationFailureCause::ResourceUnavailable,
        FailureCause::ProcessExited { exit_code } => ProtocolOperationFailureCause::ProcessExited {
            exit_code,
        },
        FailureCause::IoFailure => ProtocolOperationFailureCause::IoFailure,
        FailureCause::StorageFailure => ProtocolOperationFailureCause::StorageFailure,
        FailureCause::InvalidData => ProtocolOperationFailureCause::InvalidData,
        FailureCause::OutputLimitExceeded => ProtocolOperationFailureCause::OutputLimitExceeded,
        FailureCause::TimedOut => ProtocolOperationFailureCause::TimedOut,
        FailureCause::Cancelled => ProtocolOperationFailureCause::Cancelled,
        FailureCause::InvariantViolation => ProtocolOperationFailureCause::InvariantViolation,
        FailureCause::Unexpected => ProtocolOperationFailureCause::Unexpected,
    }
}

/// The published target names the subject of the key by its identifier.
pub open spec fn target_of(target: ProtocolObservationTarget, key: ObservationKey) -> bool {
    match key {
        ObservationKey::RepositoryRemotes(id) => target matches ProtocolObservationTarget::RepositoryRemotes {
            repository_id,
        } && repository_id@ == id@,
        ObservationKey::WorktreeGitState(id) => target matches ProtocolObservationTarget::WorktreeGitState {
            worktree_id,
        } && worktree_id@ == id@,
    }
}

pub fn protocol_observation_target(value: &ObservationKey) -> (r: ProtocolObservationTarget)
    ensures
        target_of(r, *value),
{
    match value {
        ObservationKey::RepositoryRemotes(repository_id) => ProtocolObservationTarget::RepositoryRemotes {
            repository_id: repository_id.as_str().to_owned(),
        },
        ObservationKey::WorktreeGitState(worktree_id) => ProtocolObservationTarget::WorktreeGitState {
            worktree_id: worktree_id.as_str().to_owned(),
        },
    }
}

/// A published root: its path, coverage and counts, and its issues, the
/// filesystem ones first and then those of repository identification.
pub open spec fn root_published(root: ProtocolDiscoveryRoot, outcome: DiscoverRepositoriesOutcome) -> bool {
    let walked = outcome.spec_discovery_issues();
    let identified = outcome.spec_identification_issues();
    &&& protocol_path_of(root.root, outcome.spec_root()@)
    &&& root.coverage == discovery_coverage(outcome.spec_coverage())
    &&& root.repository_count == outcome.spec_repository_count()
    &&& root.location_count == outcome.spec_location_count()
    &&& root.worktree_count == outcome.spec_worktree_count()
    &&& root.issues@.len() == walked.len() + identified.len()
    &&& forall|k: int|
        0 <= k < walked.len() ==> {
            &&& (#[trigger] root.issues@[k]).stage == ProtocolDiscoveryIssueStage::Filesystem
            &&& protocol_path_of(root.issues@[k].path, walked[k].spec_path()@)
            &&& root.issues@[k].cause == operation_failure_cause(
                walked[k].spec_kind().spec_failure_cause(),
            )
        }
    &&& forall|k: int|
        0 <= k < identified.len() ==> {
            &&& (#[trigger] root.issues@[walked.len() + k]).stage
                == ProtocolDiscoveryIssueStage::RepositoryIdentification
            &&& protocol_path_of(root.issues@[walked.len() + k].path, identified[k].spec_path()@)
            &&& root.issues@[walked.len() + k].cause == operation_failure_cause(
                identified[k].spec_kind().spec_failure_cause(),
            )
        }
}

/// A published root failure: its path and cause.
pub open spec fn root_failure_published(
    failure: ProtocolDiscoveryRootFailure,
    value: DiscoveryRootFailure,
) -> bool {
    &&& protocol_path_of(failure.root, value.spec_root()@)
    &&& failure.cause == operation_failure_cause(value.spec_kind().spec_failure_cause())
}

/// A published failed target: its subject and failure kind.
pub open spec fn target_failure_published(
    failure: ProtocolObservationTargetFailure,
    value: ObservationTargetFailure,
) -> bool {
    &&& target_of(failure.target, value.spec_key())
    &&& failure.failure == protocol_failure(value.spec_kind())
}

/// The batch's totals fit a machine count.
pub open spec fn batch_counts_fit(value: DiscoveryBatchOutcome) -> bool {
    &&& value.spec_completed().len() + value.spec_failed_roots().len() <= usize::MAX
    &&& sum_by(value.spec_completed(), discovery_issue_measure()) <= usize::MAX
    &&& sum_by(value.spec_completed(), identification_issue_measure()) <= usize::MAX
    &&& sum_by(value.spec_completed(), repository_measure()) <= usize::MAX
    &&& sum_by(value.spec_completed(), location_measure()) <= usize::MAX
    &&& sum_by(value.spec_completed(), worktree_measure()) <= usize::MAX
}

fn protocol_discovery_root(outcome: &DiscoverRepositoriesOutcome) -> (r: ProtocolDiscoveryRoot)
    ensures
        root_published(r, *outcome),
{
    let walked = outcome.discovery_issues();
    let identified = outcome.identification_issues();
    let mut issues: Vec<ProtocolDiscoveryIssue> = Vec::new();
    let mut index: usize = 0;
    while index < walked.len()
        invariant
            index <= walked@.len(),
            walked@ == outcome.spec_discovery_issues(),
            issues@.len() == index,
            forall|k: int|
                0 <= k < index ==> {
                    &&& (#[trigger] issues@[k]).stage == ProtocolDiscoveryIssueStage::Filesystem
                    &&& protocol_path_of(issues@[k].path, walked@[k].spec_path()@)
                    &&& issues@[k].cause == operation_failure_cause(
                        walked@[k].spec_kind().spec_failure_cause(),
                    )
                },
        decreases walked@.len() - index,
    {
        let issue = &walked[index];
        issues.push(
            ProtocolDiscoveryIssue {
                stage: ProtocolDiscoveryIssueStage::Filesystem,
                path: ProtocolPath::from_path(issue.path()),
                cause: protocol_failure_cause(issue.kind().failure_cause()),
            },
        );
        index = index + 1;
    }
    let mut position: usize = 0;
    while position < identified.len()
        invariant
            position <= identified@.len(),
            walked@ == outcome.spec_discovery_issues(),
            identified@ == outcome.spec_identification_issues(),
            issues@.len() == walked@.len() + position,
            forall|k: int|
                0 <= k < walked@.len() ==> {
                    &&& (#[trigger] issues@[k]).stage == ProtocolDiscoveryIssueStage::Filesystem
                    &&& protocol_path_of(issues@[k].path, walked@[k].spec_path()@)
                    &&& issues@[k].cause == operation_failure_cause(
                        walked@[k].spec_kind().spec_failure_cause(),
                    )
                },
            forall|k: int|
                0 <= k < position ==> {
                    &&& (#[trigger] issues@[walked@.len() + k]).stage
                        == ProtocolDiscoveryIssueStage::RepositoryIdentification
                    &&& protocol_path_of(
                        issues@[walked@.len() + k].path,
                        identified@[k].spec_path()@,
                    )
                    &&& issues@[walked@.len() + k].cause == operation_failure_cause(
                        identified@[k].spec_kind().spec_failure_cause(),
                    )
                },
        decreases identified@.len() - position,
    {
        let issue = &identified[position];
        issues.push(
            ProtocolDiscoveryIssue {
                stage: ProtocolDiscoveryIssueStage::RepositoryIdentification,
                path: ProtocolPath::from_path(issue.path()),
                cause: protocol_failure_cause(issue.kind().failure_cause()),
            },
        );
        position = position + 1;
    }
    ProtocolDiscoveryRoot {
        root: ProtocolPath::from_path(outcome.root()),
        coverage: protocol_discovery_coverage(outcome.coverage()),
        issues,
        repository_count: outcome.repository_count() as u64,
        location_count: outcome.location_count() as u64,
        worktree_count: outcome.worktree_count() as u64,
    }
}

impl ProtocolOperationDocument<ProtocolDiscoveryOutcome> {
    /// The document of a discovery batch: every total, each root with its
    /// issues, each failed root, and the batch's status.
    pub fn try_from(operation: &WorkspaceOperationOutcome<DiscoveryBatchOutcome>) -> (r: Result<
        Self,
        ProtocolBuildError,
    >)
        requires
            batch_counts_fit(operation.spec_outcome()),
        ensures
            r matches Ok(document) && {
                let value = operation.spec_outcome();
                &&& document.schema_version == OPERATION_PROTOCOL_SCHEMA_VERSION
                &&& document.workspace_revision == operation.spec_revision().spec_value()
                &&& document.status == operation_status(value.spec_completion())
                &&& document.payload.requested_root_count == value.spec_completed().len()
                    + value.spec_failed_roots().len()
                &&& document.payload.completed_root_count == value.spec_completed().len()
                &&& document.payload.partial_root_count == value.spec_partial_root_count()
                &&& document.payload.failed_root_count == value.spec_failed_roots().len()
                &&& document.payload.discovery_issue_count == sum_by(
                    value.spec_completed(),
                    discovery_issue_measure(),
                )
                &&& document.payload.identification_issue_count == sum_by(
                    value.spec_completed(),
                    identification_issue_measure(),
                )
                &&& document.payload.repository_count == sum_by(
                    value.spec_completed(),
                    repository_measure(),
                )
                &&& document.payload.location_count == sum_by(
                    value.spec_completed(),
                    location_measure(),
                )
                &&& document.payload.worktree_count == sum_by(
                    value.spec_completed(),
                    worktree_measure(),
                )
                &&& document.payload.roots@.len() == value.spec_completed().len()
                &&& forall|k: int|
                    0 <= k < value.spec_completed().len() ==> root_published(
                        #[trigger] document.payload.roots@[k],
                        value.spec_completed()[k],
                    )
                &&& document.payload.failed_roots@.len() == value.spec_failed_roots().len()
                &&& forall|k: int|
                    0 <= k < value.spec_failed_roots().len() ==> root_failure_published(
                        #[trigger] document.payload.failed_roots@[k],
                        value.spec_failed_roots()[k],
                    )
            },
    {
        let value = operation.outcome();
        let completed = value.completed();
        let mut roots: Vec<ProtocolDiscoveryRoot> = Vec::new();
        let mut index: usize = 0;
        while index < completed.len()
            invariant
                index <= completed@.len(),
                completed@ == value.spec_completed(),
                roots@.len() == index,
                forall|k: int|
                    0 <= k < index ==> root_published(#[trigger] roots@[k], completed@[k]),
            decreases completed@.len() - index,
        {
            roots.push(protocol_discovery_root(&completed[index]));
            index = index + 1;
        }
        let failures = value.failed_roots();
        let mut failed_roots: Vec<ProtocolDiscoveryRootFailure> = Vec::new();
        let mut position: usize = 0;
        while position < failures.len()
            invariant
                position <= failures@.len(),
                failures@ == value.spec_failed_roots(),
                failed_roots@.len() == position,
                forall|k: int|
                    0 <= k < position ==> root_failure_published(
                        #[trigger] failed_roots@[k],
                        failures@[k],
                    ),
            decreases failures@.len() - position,
        {
            let failure = &failures[position];
            failed_roots.push(
                ProtocolDiscoveryRootFailure {
                    root: ProtocolPath::from_path(failure.root()),
                    cause: protocol_failure_cause(failure.kind().failure_cause()),
                },
            );
            position = position + 1;
        }
        let payload = ProtocolDiscoveryOutcome {
            requested_root_count: value.requested_root_count() as u64,
            completed_root_count: value.completed_root_count() as u64,
            partial_root_count: value.partial_root_count() as u64,
            failed_root_count: value.failed_root_count() as u64,
            discovery_issue_count: value.discovery_issue_count() as u64,
            identification_issue_count: value.identification_issue_count() as u64,
            repository_count: value.repository_count() as u64,
            location_count: value.location_count() as u64,
            worktree_count: value.worktree_count() as u64,
            roots,
            failed_roots,
        };
        Ok(
            ProtocolOperationDocument {
                schema_version: OPERATION_PROTOCOL_SCHEMA_VERSION,
                workspace_revision: operation.revision().value(),
                status: protocol_operation_status(value.completion()),
                payload,
            },
        )
    }
}

impl ProtocolOperationDocument<ProtocolRefreshOutcome> {
    /// The document of an observation run: its run, coverage, counts, each
    /// failed target and the run's status.
    pub fn try_from(operation: &WorkspaceOperationOutcome<ObserveInventoryOutcome>) -> (r: Result<
        Self,
        ProtocolBuildError,
    >)
        requires
            operation.spec_outcome().spec_succeeded_count()
                + operation.spec_outcome().spec_failures().len() <= usize::MAX,
        ensures
            r matches Ok(document) && {
                let value = operation.spec_outcome();
                &&& document.schema_version == OPERATION_PROTOCOL_SCHEMA_VERSION
                &&& document.workspace_revision == operation.spec_revision().spec_value()
                &&& document.status == operation_status(value.spec_completion())
                &&& document.payload.run_id@ == value.spec_run_id()@
                &&& document.payload.coverage == protocol_coverage(value.spec_coverage())
                &&& document.payload.target_count == value.spec_succeeded_count()
                    + value.spec_failures().len()
                &&& document.payload.succeeded_count == value.spec_succeeded_count()
                &&& document.payload.failed_count == value.spec_failures().len()
                &&& document.payload.cancelled_count == value.spec_cancelled_count()
                &&& document.payload.failures@.len() == value.spec_failures().len()
                &&& forall|k: int|
                    0 <= k < value.spec_failures().len() ==> target_failure_published(
                        #[trigger] document.payload.failures@[k],
                        value.spec_failures()[k],
                    )
            },
    {
        let value = operation.outcome();
        let source = value.failures();
        let mut failures: Vec<ProtocolObservationTargetFailure> = Vec::new();
        let mut index: usize = 0;
        while index < source.len()
            invariant
                index <= source@.len(),
                source@ == value.spec_failures(),
                failures@.len() == index,
                forall|k: int|
                    0 <= k < index ==> target_failure_published(
                        #[trigger] failures@[k],
                        source@[k],
                    ),
            decreases source@.len() - index,
        {
            let failure = &source[index];
            failures.push(
                ProtocolObservationTargetFailure {
                    target: protocol_observation_target(failure.key()),
                    failure: protocol_observation_failure(failure.kind()),
                },
            );
            index = index + 1;
        }
        let payload = ProtocolRefreshOutcome {
            run_id: value.run_id().as_str().to_owned(),
            coverage: protocol_observation_coverage(value.coverage()),
            target_count: value.target_count() as u64,
            succeeded_count: value.succeeded_count() as u64,
            failed_count: value.failed_count() as u64,
            cancelled_count: value.cancelled_count() as u64,
            failures,
        };
        Ok(
            ProtocolOperationDocument {
                schema_version: OPERATION_PROTOCOL_SCHEMA_VERSION,
                workspace_revision: operation.revision().value(),
                status: protocol_operation_status(value.completion()),
                payload,
            },
        )
    }
}

} // verus!
