//! Workspace domain model, read models and use cases for a local Git
//! repository inventory.

pub mod identity;
pub mod workspace;

pub use identity::{LocationId, ObservationRunId, RepositoryId, WorktreeId};
pub use workspace::WorkspaceRevision;
pub mod path;
pub mod time;
pub use path::FsPath;
pub use time::Timestamp;
pub mod git;
pub use git::{
    Branch, Head, HeadKind, Remote, Upstream, UpstreamDivergence, UpstreamRelation, UpstreamState,
    UpstreamStateKind, WorktreeChanges, WorktreeGitState,
};
pub mod observation;
pub mod topology;
pub use observation::{
    Freshness, Observation, ObservationAttempt, ObservationCoverage, ObservationFailure,
    ObservationFailureKind, ObservationKey, ObservationKind, ObservationMetadata,
};
pub use topology::{Location, LocationAvailability, Repository, Worktree};
pub mod diagnostics;
pub mod error;
pub use diagnostics::{
    FailureCause, FailureClass, FailureCode, PublicFailureDescriptor, PublicFailureDetails,
    PublicFailureReport, APPLICATION_VERSION, PUBLIC_FAILURE_REPORT_SCHEMA_VERSION,
};
pub use error::{ApplicationError, ApplicationErrorCode};
pub mod ports;
pub mod text;
pub mod collation;
pub mod sorting;
pub mod projection;
pub mod query;
pub mod protocol;
pub mod operational_protocol;
pub use operational_protocol::{
    ProtocolDiscoveryCoverage, ProtocolDiscoveryIssue, ProtocolDiscoveryIssueStage,
    ProtocolDiscoveryOutcome, ProtocolDiscoveryRoot, ProtocolDiscoveryRootFailure,
    ProtocolObservationTarget, ProtocolObservationTargetFailure, ProtocolOperationDocument,
    ProtocolOperationFailureCause, ProtocolOperationStatus, ProtocolRefreshOutcome,
    OPERATION_PROTOCOL_SCHEMA_VERSION,
};
pub mod advisory;
pub mod age;
pub mod presentation;
pub mod observe;
pub mod discovery;
pub use discovery::{
    DiscoverRepositories, DiscoverRepositoriesOutcome, DiscoveryBatchOutcome, DiscoveryRootFailure,
    ReconciliationState, RepositoryIdentificationIssue,
};
pub mod operation;
pub mod reset;
pub use observe::{
    ObservationExecutionPolicy, ObservationTargetFailure, ObserveInventory, ObserveInventoryOutcome,
};
pub use operation::{OperationCompletion, WorkspaceOperationOutcome};
pub use reset::{ResetWorkspace, ResetWorkspaceOutcome};
pub mod cli;
pub mod configuration;
pub mod locale;
pub mod exit_status;
pub use configuration::{
    BullSaddleConfiguration, ConfigurationProjection, ConfigurationSource, DiscoveryConfiguration,
    GitProcessTimeout, LocalePreference,
};
pub mod read_models;
pub use read_models::{
    Knowledge, LocationProjection, ObservationAttemptOutcomeProjection,
    ObservationAttemptProjection, ObservationEvidenceState, ObservationStatusProjection,
    ObservationSuccessProjection, OverviewProjection, RepositoryDetailProjection,
    RepositoryListItemProjection, RepositoryListProjection, WorkspaceMirror, WorktreeProjection,
};
pub use advisory::{
    Advisory, AdvisoryCode, AdvisoryEvaluator, AdvisoryEvidence, AdvisoryFreshness,
    AdvisoryProjection, AdvisoryRuleUnknown, AdvisorySubject, AdvisoryUnknownReason,
};
pub use projection::ProjectionContext;
pub use query::{
    FreshnessConstraint, QueryPage, RepositoryListQuery, RepositoryPredicate, RepositorySelector,
    RepositorySelectorResolution, WorkspaceQueryService, DEFAULT_QUERY_PAGE_SIZE,
    MAX_QUERY_PAGE_SIZE,
};
pub use protocol::{
    ProtocolAdvisory, ProtocolAdvisoryCode, ProtocolAdvisoryEvidence, ProtocolAdvisoryFreshness,
    ProtocolAdvisoryProjection, ProtocolAdvisoryRuleUnknown, ProtocolAdvisorySubject,
    ProtocolAdvisoryUnknownReason, ProtocolBuildError, ProtocolDocument, ProtocolHead,
    ProtocolKnowledgeBool, ProtocolLocation, ProtocolLocationAvailability,
    ProtocolObservationAttempt, ProtocolObservationAttemptOutcome, ProtocolObservationCoverage,
    ProtocolObservationFailureKind, ProtocolObservationStatus, ProtocolObservationSuccess,
    ProtocolOverview, ProtocolOverviewView, ProtocolPath, ProtocolRemote, ProtocolRepositoryDetail,
    ProtocolRepositoryDetailView, ProtocolRepositoryList, ProtocolRepositoryListItem,
    ProtocolResultCompleteness, ProtocolResultMetadata, ProtocolTimestamp,
    ProtocolUpstreamRelation, ProtocolUpstreamState, ProtocolWorkspaceMirror,
    ProtocolWorktree, ProtocolWorktreeChanges, ProtocolWorktreeGitState,
    READ_PROTOCOL_SCHEMA_VERSION,
};
