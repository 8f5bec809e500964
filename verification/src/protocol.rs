use vstd::prelude::*;
use vstd::utf8::{decode_utf8, decode_utf8_encode_utf8, encode_utf8, valid_utf8};

use crate::advisory::{
    Advisory, AdvisoryCode, AdvisoryEvidence, AdvisoryFreshness, AdvisoryRuleUnknown,
    AdvisorySubject, AdvisoryUnknownReason,
};
use crate::git::{relation_of, Head, UpstreamRelation, UpstreamState, WorktreeGitState};
use crate::read_models::{
    available_count, Knowledge, LocationProjection, ObservationAttemptOutcomeProjection,
    ObservationAttemptProjection, ObservationStatusProjection, ObservationSuccessProjection,
    OverviewProjection, RepositoryDetailProjection, RepositoryListItemProjection,
    WorktreeProjection,
};
use crate::observation::{ObservationCoverage, ObservationFailureKind};
use crate::path::{utf8_text, FsPath};
use crate::advisory::AdvisoryProjection;
use crate::projection::lemma_filter_take_step;
use crate::read_models::{RepositoryListProjection, WorkspaceMirror};
use crate::time::Timestamp;
use crate::workspace::WorkspaceRevision;
use crate::topology::LocationAvailability;

verus! {

/// The version of the read protocol documents.
pub const READ_PROTOCOL_SCHEMA_VERSION: u16 = 1;

/// Why a protocol document could not be built.
#[derive(Clone, Copy, Debug, PartialEq, Eq, Structural)]
pub enum ProtocolBuildError {
    CountOutOfRange,
    TimestampOutOfRange,
    InconsistentWorkspaceRevision,
}

impl ProtocolBuildError {
    pub open spec fn spec_message(&self) -> Seq<char> {
        match self {
            ProtocolBuildError::CountOutOfRange => "protocol count is outside the supported range"@,
            ProtocolBuildError::TimestampOutOfRange => "protocol timestamp is outside the supported range"@,
            ProtocolBuildError::InconsistentWorkspaceRevision => "protocol source contains inconsistent workspace revisions"@,
        }
    }

    /// The message that describes the error to a person.
    pub fn message(&self) -> (text: &'static str)
        ensures
            text@ == self.spec_message(),
    {
        match self {
            ProtocolBuildError::CountOutOfRange => "protocol count is outside the supported range",
            ProtocolBuildError::TimestampOutOfRange => "protocol timestamp is outside the supported range",
            ProtocolBuildError::InconsistentWorkspaceRevision => "protocol source contains inconsistent workspace revisions",
        }
    }
}

/// A versioned document: the schema version, the workspace revision it was
/// read at, how complete its evidence is, and its payload.
#[derive(Clone, Debug, PartialEq, Eq)]
pub struct ProtocolDocument<T> {
    pub schema_version: u16,
    pub workspace_revision: u64,
    pub result: ProtocolResultMetadata,
    pub payload: T,
}

#[derive(Clone, Copy, Debug, PartialEq, Eq, Structural)]
pub enum ProtocolResultCompleteness {
    Complete,
    Partial,
}

/// How much unknown evidence a document carries; with none it is complete.
#[derive(Clone, Copy, Debug, PartialEq, Eq, Structural)]
pub struct ProtocolResultMetadata {
    pub completeness: ProtocolResultCompleteness,
    pub unknown_evidence_count: u64,
}

pub open spec fn result_metadata(unknown_evidence_count: u64) -> ProtocolResultMetadata {
    ProtocolResultMetadata {
        completeness: if unknown_evidence_count == 0 {
            ProtocolResultCompleteness::Complete
        } else {
            ProtocolResultCompleteness::Partial
        },
        unknown_evidence_count,
    }
}

impl ProtocolResultMetadata {
    fn from_unknown_evidence_count(unknown_evidence_count: u64) -> (metadata: Self)
        ensures
            metadata == result_metadata(unknown_evidence_count),
    {
        let completeness = if unknown_evidence_count == 0 {
            ProtocolResultCompleteness::Complete
        } else {
            ProtocolResultCompleteness::Partial
        };
        ProtocolResultMetadata { completeness, unknown_evidence_count }
    }
}

/// A point in time as whole seconds from the Unix epoch (rounded down) and
/// the nanoseconds past them.
#[derive(Clone, Copy, Debug, PartialEq, Eq, Structural)]
pub struct ProtocolTimestamp {
    pub unix_seconds: i64,
    pub nanoseconds: u32,
}

/// The protocol form of a time, when its whole seconds fit; the most
/// negative `i64` is left out, as a time before the epoch is measured by
/// its distance from it.
pub open spec fn protocol_timestamp(time: Timestamp) -> Option<ProtocolTimestamp> {
    let seconds = time.spec_unix_nanos() / 1_000_000_000;
    if -0x7fff_ffff_ffff_ffff <= seconds <= 0x7fff_ffff_ffff_ffff {
        Some(
            ProtocolTimestamp {
                unix_seconds: seconds as i64,
                nanoseconds: (time.spec_unix_nanos() % 1_000_000_000) as u32,
            },
        )
    } else {
        None
    }
}

impl ProtocolTimestamp {
    pub fn try_from(value: Timestamp) -> (r: Result<Self, ProtocolBuildError>)
        ensures
            r == match protocol_timestamp(value) {
                Some(timestamp) => Ok(timestamp),
                None => Err(ProtocolBuildError::TimestampOutOfRange),
            },
    {
        let nanos = value.unix_nanos();
        let (seconds, rest) = if nanos >= 0 {
            let seconds = nanos / 1_000_000_000;
            let rest = nanos % 1_000_000_000;
            proof {
                assert(nanos == seconds * 1_000_000_000 + rest) by (nonlinear_arith)
                    requires
                        seconds == nanos / 1_000_000_000,
                        rest == nanos % 1_000_000_000,
                        nanos >= 0,
                ;
            }
            (seconds, rest)
        } else {
            let distance = -(nanos + 1);
            let whole = distance / 1_000_000_000;
            let part = distance % 1_000_000_000;
            proof {
                assert(distance == whole * 1_000_000_000 + part) by (nonlinear_arith)
                    requires
                        whole == distance / 1_000_000_000,
                        part == distance % 1_000_000_000,
                        distance >= 0,
                ;
            }
            (-whole - 1, 999_999_999 - part)
        };
        proof {
            assert(nanos == seconds * 1_000_000_000 + rest);
            assert(0 <= rest < 1_000_000_000);
            vstd::arithmetic::div_mod::lemma_fundamental_div_mod_converse(
                nanos as int,
                1_000_000_000,
                seconds as int,
                rest as int,
            );
        }
        if seconds < -0x7fff_ffff_ffff_ffff || seconds > 0x7fff_ffff_ffff_ffff {
            return Err(ProtocolBuildError::TimestampOutOfRange);
        }
        Ok(ProtocolTimestamp { unix_seconds: seconds as i64, nanoseconds: rest as u32 })
    }
}

/// A filesystem path: its text when its bytes are UTF-8, its raw bytes
/// otherwise.
#[derive(Clone, Debug, PartialEq, Eq)]
pub enum ProtocolPath {
    Utf8(String),
    UnixBytes(Vec<u8>),
    WindowsWide(Vec<u16>),
    Lossy(String),
}

/// Whether the protocol path carries the path without loss.
pub open spec fn protocol_path_of(protocol: ProtocolPath, path: Seq<u8>) -> bool {
    match protocol {
        ProtocolPath::Utf8(text) => valid_utf8(path) && text@ == decode_utf8(path),
        ProtocolPath::UnixBytes(bytes) => !valid_utf8(path) && bytes@ == path,
        _ => false,
    }
}

impl ProtocolPath {
    pub fn from_path(path: &FsPath) -> (protocol: Self)
        ensures
            protocol_path_of(protocol, path@),
    {
        match utf8_text(path.as_bytes()) {
            Some(text) => ProtocolPath::Utf8(text.to_owned()),
            None => ProtocolPath::UnixBytes(vstd::slice::slice_to_vec(path.as_bytes())),
        }
    }
}

#[derive(Clone, Copy, Debug, PartialEq, Eq, Structural)]
pub enum ProtocolLocationAvailability {
    Available,
    Missing,
    Offline,
}

pub open spec fn protocol_availability(value: LocationAvailability) -> ProtocolLocationAvailability {
    match value {
        LocationAvailability::Available => ProtocolLocationAvailability::Available,
        LocationAvailability::Missing => ProtocolLocationAvailability::Missing,
        LocationAvailability::Offline => ProtocolLocationAvailability::Offline,
    }
}

fn protocol_availability_of(value: LocationAvailability) -> (r: ProtocolLocationAvailability)
    ensures
        r == protocol_availability(value),
{
    match value {
        LocationAvailability::Available => ProtocolLocationAvailability::Available,
        LocationAvailability::Missing => ProtocolLocationAvailability::Missing,
        LocationAvailability::Offline => ProtocolLocationAvailability::Offline,
    }
}

#[derive(Clone, Debug, PartialEq, Eq)]
pub struct ProtocolLocation {
    pub id: String,
    pub path: ProtocolPath,
    pub availability: ProtocolLocationAvailability,
}

#[derive(Clone, Debug, PartialEq, Eq)]
pub struct ProtocolRemote {
    pub name: String,
}

#[derive(Clone, Copy, Debug, PartialEq, Eq, Structural)]
pub enum ProtocolObservationCoverage {
    Complete,
    Partial,
}

pub open spec fn protocol_coverage(value: ObservationCoverage) -> ProtocolObservationCoverage {
    match value {
        ObservationCoverage::Complete => ProtocolObservationCoverage::Complete,
        ObservationCoverage::Partial => ProtocolObservationCoverage::Partial,
    }
}

pub fn protocol_observation_coverage(value: ObservationCoverage) -> (r: ProtocolObservationCoverage)
    ensures
        r == protocol_coverage(value),
{
    match value {
        ObservationCoverage::Complete => ProtocolObservationCoverage::Complete,
        ObservationCoverage::Partial => ProtocolObservationCoverage::Partial,
    }
}

#[derive(Clone, Copy, Debug, PartialEq, Eq, Structural)]
pub enum ProtocolObservationFailureKind {
    SubjectUnavailable,
    ProcessExited { exit_code: i32 },
    TimedOut,
    Cancelled,
    OutputLimitExceeded,
    InvalidMachineOutput,
    SubjectDisappeared,
}

pub open spec fn protocol_failure(value: ObservationFailureKind) -> ProtocolObservationFailureKind {
    match value {
        ObservationFailureKind::SubjectUnavailable => ProtocolObservationFailureKind::SubjectUnavailable,
        ObservationFailureKind::ProcessExited { exit_code } => ProtocolObservationFailureKind::ProcessExited {
            exit_code,
        },
        ObservationFailureKind::TimedOut => ProtocolObservationFailureKind::TimedOut,
        ObservationFailureKind::Cancelled => ProtocolObservationFailureKind::Cancelled,
        ObservationFailureKind::OutputLimitExceeded => ProtocolObservationFailureKind::OutputLimitExceeded,
        ObservationFailureKind::InvalidMachineOutput => ProtocolObservationFailureKind::InvalidMachineOutput,
        ObservationFailureKind::SubjectDisappeared => ProtocolObservationFailureKind::SubjectDisappeared,
    }
}

pub fn protocol_observation_failure(value: ObservationFailureKind) -> (r: ProtocolObservationFailureKind)
    ensures
        r == protocol_failure(value),
{
    match value {
        ObservationFailureKind::SubjectUnavailable => ProtocolObservationFailureKind::SubjectUnavailable,
        ObservationFailureKind::ProcessExited { exit_code } => ProtocolObservationFailureKind::ProcessExited {
            exit_code,
        },
        ObservationFailureKind::TimedOut => ProtocolObservationFailureKind::TimedOut,
        ObservationFailureKind::Cancelled => ProtocolObservationFailureKind::Cancelled,
        ObservationFailureKind::OutputLimitExceeded => ProtocolObservationFailureKind::OutputLimitExceeded,
        ObservationFailureKind::InvalidMachineOutput => ProtocolObservationFailureKind::InvalidMachineOutput,
        ObservationFailureKind::SubjectDisappeared => ProtocolObservationFailureKind::SubjectDisappeared,
    }
}

#[derive(Clone, Copy, Debug, PartialEq, Eq, Structural)]
pub enum ProtocolObservationAttemptOutcome {
    Succeeded,
    Failed { failure: ProtocolObservationFailureKind },
}

#[derive(Clone, Copy, Debug, PartialEq, Eq, Structural)]
pub struct ProtocolObservationAttempt {
    pub observed_at: ProtocolTimestamp,
    pub coverage: ProtocolObservationCoverage,
    pub outcome: ProtocolObservationAttemptOutcome,
}

#[derive(Clone, Copy, Debug, PartialEq, Eq, Structural)]
pub struct ProtocolObservationSuccess {
    pub observed_at: ProtocolTimestamp,
    pub coverage: ProtocolObservationCoverage,
}

#[derive(Clone, Copy, Debug, PartialEq, Eq, Structural)]
pub struct ProtocolObservationStatus {
    pub latest_attempt: Option<ProtocolObservationAttempt>,
    pub latest_success: Option<ProtocolObservationSuccess>,
}

#[derive(Clone, Debug, PartialEq, Eq)]
pub enum ProtocolHead {
    Unborn { branch: String },
    Branch { branch: String },
    Detached,
}

#[derive(Clone, Copy, Debug, PartialEq, Eq, Structural)]
pub enum ProtocolUpstreamRelation {
    Synchronized,
    Ahead,
    Behind,
    Diverged,
}

pub open spec fn protocol_relation(value: UpstreamRelation) -> ProtocolUpstreamRelation {
    match value {
        UpstreamRelation::Synchronized => ProtocolUpstreamRelation::Synchronized,
        UpstreamRelation::Ahead => ProtocolUpstreamRelation::Ahead,
        UpstreamRelation::Behind => ProtocolUpstreamRelation::Behind,
        UpstreamRelation::Diverged => ProtocolUpstreamRelation::Diverged,
    }
}

fn protocol_upstream_relation(value: UpstreamRelation) -> (r: ProtocolUpstreamRelation)
    ensures
        r == protocol_relation(value),
{
    match value {
        UpstreamRelation::Synchronized => ProtocolUpstreamRelation::Synchronized,
        UpstreamRelation::Ahead => ProtocolUpstreamRelation::Ahead,
        UpstreamRelation::Behind => ProtocolUpstreamRelation::Behind,
        UpstreamRelation::Diverged => ProtocolUpstreamRelation::Diverged,
    }
}

#[derive(Clone, Debug, PartialEq, Eq)]
pub enum ProtocolUpstreamState {
    Unconfigured,
    Gone { remote: String, branch: String },
    Tracking {
        remote: String,
        branch: String,
        ahead: u64,
        behind: u64,
        relation: ProtocolUpstreamRelation,
    },
}

#[derive(Clone, Copy, Debug, PartialEq, Eq, Structural)]
pub struct ProtocolWorktreeChanges {
    pub staged: bool,
    pub unstaged: bool,
    pub untracked: bool,
}

#[derive(Clone, Debug, PartialEq, Eq)]
pub struct ProtocolWorktreeGitState {
    pub head: ProtocolHead,
    pub upstream: Option<ProtocolUpstreamState>,
    pub changes: ProtocolWorktreeChanges,
}

#[derive(Clone, Debug, PartialEq, Eq)]
pub struct ProtocolWorktree {
    pub id: String,
    pub repository_id: String,
    pub location: ProtocolLocation,
    pub git_state: Option<ProtocolWorktreeGitState>,
    pub observation: ProtocolObservationStatus,
}

#[derive(Clone, Copy, Debug, PartialEq, Eq, Structural)]
pub enum ProtocolKnowledgeBool {
    Known(bool),
    Unknown,
}

#[derive(Clone, Debug, PartialEq, Eq)]
pub struct ProtocolRepositoryListItem {
    pub id: String,
    pub locations: Vec<ProtocolLocation>,
    pub location_count: u64,
    pub available_location_count: u64,
    pub worktree_count: u64,
    pub has_remotes: ProtocolKnowledgeBool,
    pub has_local_work: ProtocolKnowledgeBool,
}

#[derive(Clone, Debug, PartialEq, Eq)]
pub struct ProtocolRepositoryList {
    pub total_matching: u64,
    pub offset: u64,
    pub items: Vec<ProtocolRepositoryListItem>,
}

#[derive(Clone, Debug, PartialEq, Eq)]
pub struct ProtocolRepositoryDetail {
    pub id: String,
    pub locations: Vec<ProtocolLocation>,
    pub remotes: Option<Vec<ProtocolRemote>>,
    pub remotes_observation: ProtocolObservationStatus,
    pub worktrees: Vec<ProtocolWorktree>,
}

#[derive(Clone, Copy, Debug, PartialEq, Eq, Structural)]
pub struct ProtocolOverview {
    pub repository_count: u64,
    pub available_repository_count: u64,
    pub worktree_count: u64,
    pub repositories_with_local_work_count: u64,
    pub repositories_with_unknown_local_work_count: u64,
    pub repositories_without_remotes_count: u64,
    pub repositories_with_unknown_remotes_count: u64,
}

#[derive(Clone, Debug, PartialEq, Eq)]
pub struct ProtocolOverviewView {
    pub overview: ProtocolOverview,
    pub advisories: ProtocolAdvisoryProjection,
}

#[derive(Clone, Debug, PartialEq, Eq)]
pub struct ProtocolRepositoryDetailView {
    pub repository: ProtocolRepositoryDetail,
    pub advisories: ProtocolAdvisoryProjection,
}

#[derive(Clone, Debug, PartialEq, Eq)]
pub struct ProtocolWorkspaceMirror {
    pub overview: ProtocolOverview,
    pub repositories: Vec<ProtocolRepositoryDetail>,
}

#[derive(Clone, Copy, Debug, PartialEq, Eq, Structural)]
pub enum ProtocolAdvisoryCode {
    RepositoryWithoutRemotes,
    RepositoryHasMultipleWorktrees,
    WorktreeWithoutUpstream,
    LocalCommitsAheadOfKnownUpstream,
}

#[derive(Clone, Debug, PartialEq, Eq)]
pub enum ProtocolAdvisorySubject {
    Workspace,
    Repository { repository_id: String },
    Worktree { worktree_id: String },
}

#[derive(Clone, Copy, Debug, PartialEq, Eq, Structural)]
pub enum ProtocolAdvisoryFreshness {
    WorkspaceRevision { workspace_revision: u64 },
    ObservedAt { observed_at: ProtocolTimestamp },
}

#[derive(Clone, Copy, Debug, PartialEq, Eq, Structural)]
pub enum ProtocolAdvisoryEvidence {
    RepositoryRemoteCount { remote_count: u64 },
    RepositoryWorktreeCount { worktree_count: u64 },
    WorktreeUpstreamUnconfigured,
    KnownUpstreamDivergence { ahead: u64, behind: u64 },
}

#[derive(Clone, Debug, PartialEq, Eq)]
pub struct ProtocolAdvisory {
    pub code: ProtocolAdvisoryCode,
    pub subject: ProtocolAdvisorySubject,
    pub evidence: ProtocolAdvisoryEvidence,
    pub freshness: ProtocolAdvisoryFreshness,
}

#[derive(Clone, Copy, Debug, PartialEq, Eq, Structural)]
pub enum ProtocolAdvisoryUnknownReason {
    MissingObservation,
    PartialObservation,
    MissingEvidence,
}

#[derive(Clone, Debug, PartialEq, Eq)]
pub struct ProtocolAdvisoryRuleUnknown {
    pub code: ProtocolAdvisoryCode,
    pub subject: ProtocolAdvisorySubject,
    pub reason: ProtocolAdvisoryUnknownReason,
}

#[derive(Clone, Debug, PartialEq, Eq)]
pub struct ProtocolAdvisoryProjection {
    pub advisories: Vec<ProtocolAdvisory>,
    pub unknown_rules: Vec<ProtocolAdvisoryRuleUnknown>,
}

pub open spec fn protocol_outcome(outcome: ObservationAttemptOutcomeProjection) -> ProtocolObservationAttemptOutcome {
    match outcome {
        ObservationAttemptOutcomeProjection::Succeeded => ProtocolObservationAttemptOutcome::Succeeded,
        ObservationAttemptOutcomeProjection::Failed(failure) => ProtocolObservationAttemptOutcome::Failed {
            failure: protocol_failure(failure),
        },
    }
}

pub open spec fn protocol_attempt(attempt: ObservationAttemptProjection) -> Option<ProtocolObservationAttempt> {
    match protocol_timestamp(attempt.spec_observed_at()) {
        None => None,
        Some(observed_at) => Some(
            ProtocolObservationAttempt {
                observed_at,
                coverage: protocol_coverage(attempt.spec_coverage()),
                outcome: protocol_outcome(attempt.spec_outcome()),
            },
        ),
    }
}

pub open spec fn protocol_success(success: ObservationSuccessProjection) -> Option<ProtocolObservationSuccess> {
    match protocol_timestamp(success.spec_observed_at()) {
        None => None,
        Some(observed_at) => Some(
            ProtocolObservationSuccess {
                observed_at,
                coverage: protocol_coverage(success.spec_coverage()),
            },
        ),
    }
}

/// The protocol form of an observation status; nothing when one of its
/// times is out of range.
pub open spec fn protocol_status(status: ObservationStatusProjection) -> Option<ProtocolObservationStatus> {
    let attempt = match status.spec_latest_attempt() {
        None => Some(None),
        Some(attempt) => match protocol_attempt(attempt) {
            Some(converted) => Some(Some(converted)),
            None => None,
        },
    };
    let success = match status.spec_latest_success() {
        None => Some(None),
        Some(success) => match protocol_success(success) {
            Some(converted) => Some(Some(converted)),
            None => None,
        },
    };
    match (attempt, success) {
        (Some(latest_attempt), Some(latest_success)) => Some(
            ProtocolObservationStatus { latest_attempt, latest_success },
        ),
        _ => None,
    }
}

fn protocol_observation_status(value: &ObservationStatusProjection) -> (r: Result<
    ProtocolObservationStatus,
    ProtocolBuildError,
>)
    ensures
        r == match protocol_status(*value) {
            Some(status) => Ok(status),
            None => Err(ProtocolBuildError::TimestampOutOfRange),
        },
{
    let latest_attempt = match value.latest_attempt() {
        None => None,
        Some(attempt) => {
            let outcome = match attempt.outcome() {
                ObservationAttemptOutcomeProjection::Succeeded => ProtocolObservationAttemptOutcome::Succeeded,
                ObservationAttemptOutcomeProjection::Failed(failure) => ProtocolObservationAttemptOutcome::Failed {
                    failure: protocol_observation_failure(failure),
                },
            };
            let observed_at = ProtocolTimestamp::try_from(attempt.observed_at())?;
            Some(
                ProtocolObservationAttempt {
                    observed_at,
                    coverage: protocol_observation_coverage(attempt.coverage()),
                    outcome,
                },
            )
        },
    };
    let latest_success = match value.latest_success() {
        None => None,
        Some(success) => {
            let observed_at = ProtocolTimestamp::try_from(success.observed_at())?;
            Some(
                ProtocolObservationSuccess {
                    observed_at,
                    coverage: protocol_observation_coverage(success.coverage()),
                },
            )
        },
    };
    Ok(ProtocolObservationStatus { latest_attempt, latest_success })
}

pub open spec fn protocol_head_of(protocol: ProtocolHead, head: Head) -> bool {
    match (protocol, head) {
        (ProtocolHead::Unborn { branch }, Head::Unborn(name)) => branch@ == name.spec_name(),
        (ProtocolHead::Branch { branch }, Head::Branch(name)) => branch@ == name.spec_name(),
        (ProtocolHead::Detached, Head::Detached) => true,
        _ => false,
    }
}

pub open spec fn protocol_upstream_of(protocol: ProtocolUpstreamState, upstream: UpstreamState) -> bool {
    match (protocol, upstream) {
        (ProtocolUpstreamState::Unconfigured, UpstreamState::Unconfigured) => true,
        (ProtocolUpstreamState::Gone { remote, branch }, UpstreamState::Gone(known)) => remote@
            == known.spec_remote().spec_name() && branch@ == known.spec_branch().spec_name(),
        (
            ProtocolUpstreamState::Tracking { remote, branch, ahead, behind, relation },
            UpstreamState::Tracking { upstream, divergence },
        ) => {
            &&& remote@ == upstream.spec_remote().spec_name()
            &&& branch@ == upstream.spec_branch().spec_name()
            &&& ahead == divergence.spec_ahead()
            &&& behind == divergence.spec_behind()
            &&& relation == protocol_relation(
                relation_of(divergence.spec_ahead(), divergence.spec_behind()),
            )
        },
        _ => false,
    }
}

pub open spec fn protocol_git_state_of(protocol: ProtocolWorktreeGitState, state: WorktreeGitState) -> bool {
    &&& protocol_head_of(protocol.head, state.spec_head())
    &&& match (protocol.upstream, state.spec_upstream()) {
        (Some(a), Some(b)) => protocol_upstream_of(a, b),
        (None, None) => true,
        _ => false,
    }
    &&& protocol.changes == ProtocolWorktreeChanges {
        staged: state.spec_changes().spec_staged(),
        unstaged: state.spec_changes().spec_unstaged(),
        untracked: state.spec_changes().spec_untracked(),
    }
}

fn protocol_git_state(value: &WorktreeGitState) -> (protocol: ProtocolWorktreeGitState)
    ensures
        protocol_git_state_of(protocol, *value),
{
    let head = match value.head() {
        Head::Unborn(branch) => ProtocolHead::Unborn { branch: branch.name().to_owned() },
        Head::Branch(branch) => ProtocolHead::Branch { branch: branch.name().to_owned() },
        Head::Detached => ProtocolHead::Detached,
    };
    let upstream = match value.upstream() {
        None => None,
        Some(upstream) => Some(
            match upstream {
                UpstreamState::Unconfigured => ProtocolUpstreamState::Unconfigured,
                UpstreamState::Gone(upstream) => ProtocolUpstreamState::Gone {
                    remote: upstream.remote().name().to_owned(),
                    branch: upstream.branch().name().to_owned(),
                },
                UpstreamState::Tracking { upstream, divergence } => ProtocolUpstreamState::Tracking {
                    remote: upstream.remote().name().to_owned(),
                    branch: upstream.branch().name().to_owned(),
                    ahead: divergence.ahead(),
                    behind: divergence.behind(),
                    relation: protocol_upstream_relation(divergence.relation()),
                },
            },
        ),
    };
    let changes = value.changes();
    ProtocolWorktreeGitState {
        head,
        upstream,
        changes: ProtocolWorktreeChanges {
            staged: changes.staged(),
            unstaged: changes.unstaged(),
            untracked: changes.untracked(),
        },
    }
}

pub open spec fn protocol_location_of(protocol: ProtocolLocation, location: LocationProjection) -> bool {
    &&& protocol.id@ == location.spec_id()@
    &&& protocol_path_of(protocol.path, location.spec_path()@)
    &&& protocol.availability == protocol_availability(location.spec_availability())
}

fn protocol_location(value: &LocationProjection) -> (protocol: ProtocolLocation)
    ensures
        protocol_location_of(protocol, *value),
{
    ProtocolLocation {
        id: value.id().as_str().to_owned(),
        path: ProtocolPath::from_path(value.path()),
        availability: protocol_availability_of(value.availability()),
    }
}

pub open spec fn protocol_locations_of(protocol: Seq<ProtocolLocation>, locations: Seq<LocationProjection>) -> bool {
    protocol.len() == locations.len() && forall|i: int|
        0 <= i < protocol.len() ==> protocol_location_of(#[trigger] protocol[i], locations[i])
}

fn protocol_locations(values: &[LocationProjection]) -> (protocol: Vec<ProtocolLocation>)
    ensures
        protocol_locations_of(protocol@, values@),
{
    let mut protocol: Vec<ProtocolLocation> = Vec::new();
    let mut i: usize = 0;
    while i < values.len()
        invariant
            i <= values@.len(),
            protocol@.len() == i,
            forall|k: int| 0 <= k < i ==> protocol_location_of(#[trigger] protocol@[k], values@[k]),
        decreases values@.len() - i,
    {
        protocol.push(protocol_location(&values[i]));
        i = i + 1;
    }
    protocol
}

pub open spec fn protocol_worktree_of(protocol: ProtocolWorktree, worktree: WorktreeProjection) -> bool {
    &&& protocol.id@ == worktree.spec_id()@
    &&& protocol.repository_id@ == worktree.spec_repository_id()@
    &&& protocol_location_of(protocol.location, worktree.spec_location())
    &&& match (protocol.git_state, worktree.spec_git_state()) {
        (Some(a), Some(b)) => protocol_git_state_of(a, b),
        (None, None) => true,
        _ => false,
    }
    &&& protocol_status(worktree.spec_observation()) == Some(protocol.observation)
}

fn protocol_worktree(value: &WorktreeProjection) -> (r: Result<ProtocolWorktree, ProtocolBuildError>)
    ensures
        r is Ok <==> protocol_status(value.spec_observation()) is Some,
        r matches Ok(protocol) ==> protocol_worktree_of(protocol, *value),
        r matches Err(error) ==> error == ProtocolBuildError::TimestampOutOfRange,
{
    let git_state = match value.git_state() {
        Some(state) => Some(protocol_git_state(state)),
        None => None,
    };
    let observation = protocol_observation_status(value.observation())?;
    Ok(
        ProtocolWorktree {
            id: value.id().as_str().to_owned(),
            repository_id: value.repository_id().as_str().to_owned(),
            location: protocol_location(value.location()),
            git_state,
            observation,
        },
    )
}

/// Whether every time in the repository detail can be written.
pub open spec fn detail_times_in_range(detail: RepositoryDetailProjection) -> bool {
    &&& protocol_status(detail.spec_remotes_observation()) is Some
    &&& forall|i: int|
        0 <= i < detail.spec_worktrees()@.len() ==> protocol_status(
            (#[trigger] detail.spec_worktrees()@[i]).spec_observation(),
        ) is Some
}

pub open spec fn protocol_detail_of(protocol: ProtocolRepositoryDetail, detail: RepositoryDetailProjection) -> bool {
    &&& protocol.id@ == detail.spec_id()@
    &&& protocol_locations_of(protocol.locations@, detail.spec_locations()@)
    &&& match (protocol.remotes, detail.spec_remotes()) {
        (Some(names), Some(remotes)) => names@.len() == remotes@.len() && forall|i: int|
            0 <= i < names@.len() ==> (#[trigger] names@[i]).name@ == remotes@[i].spec_name(),
        (None, None) => true,
        _ => false,
    }
    &&& protocol_status(detail.spec_remotes_observation()) == Some(protocol.remotes_observation)
    &&& protocol.worktrees@.len() == detail.spec_worktrees()@.len()
    &&& forall|i: int|
        0 <= i < protocol.worktrees@.len() ==> protocol_worktree_of(
            #[trigger] protocol.worktrees@[i],
            detail.spec_worktrees()@[i],
        )
}

fn protocol_repository_detail(value: &RepositoryDetailProjection) -> (r: Result<
    ProtocolRepositoryDetail,
    ProtocolBuildError,
>)
    ensures
        r is Ok <==> detail_times_in_range(*value),
        r matches Ok(protocol) ==> protocol_detail_of(protocol, *value),
        r matches Err(error) ==> error == ProtocolBuildError::TimestampOutOfRange,
{
    let locations = protocol_locations(value.locations());
    let remotes = match value.remotes() {
        None => None,
        Some(remotes) => {
            let mut names: Vec<ProtocolRemote> = Vec::new();
            let mut i: usize = 0;
            while i < remotes.len()
                invariant
                    i <= remotes@.len(),
                    names@.len() == i,
                    forall|k: int| 0 <= k < i ==> (#[trigger] names@[k]).name@ == remotes@[k].spec_name(),
                decreases remotes@.len() - i,
            {
                names.push(ProtocolRemote { name: remotes[i].name().to_owned() });
                i = i + 1;
            }
            Some(names)
        },
    };
    let remotes_observation = protocol_observation_status(value.remotes_observation())?;
    let worktrees = value.worktrees();
    let mut converted: Vec<ProtocolWorktree> = Vec::new();
    let mut i: usize = 0;
    while i < worktrees.len()
        invariant
            i <= worktrees@.len(),
            worktrees@ == value.spec_worktrees()@,
            converted@.len() == i,
            forall|k: int|
                0 <= k < i ==> protocol_worktree_of(#[trigger] converted@[k], worktrees@[k]),
            forall|k: int|
                0 <= k < i ==> protocol_status((#[trigger] worktrees@[k]).spec_observation()) is Some,
        decreases worktrees@.len() - i,
    {
        let worktree = protocol_worktree(&worktrees[i])?;
        converted.push(worktree);
        i = i + 1;
    }
    Ok(
        ProtocolRepositoryDetail {
            id: value.id().as_str().to_owned(),
            locations,
            remotes,
            remotes_observation,
            worktrees: converted,
        },
    )
}

pub open spec fn protocol_knowledge(value: Knowledge<bool>) -> ProtocolKnowledgeBool {
    match value {
        Knowledge::Known(known) => ProtocolKnowledgeBool::Known(known),
        Knowledge::Unknown => ProtocolKnowledgeBool::Unknown,
    }
}

fn protocol_knowledge_bool(value: &Knowledge<bool>) -> (r: ProtocolKnowledgeBool)
    ensures
        r == protocol_knowledge(*value),
{
    match value {
        Knowledge::Known(known) => ProtocolKnowledgeBool::Known(*known),
        Knowledge::Unknown => ProtocolKnowledgeBool::Unknown,
    }
}

pub open spec fn protocol_list_item_of(protocol: ProtocolRepositoryListItem, item: RepositoryListItemProjection) -> bool {
    &&& protocol.id@ == item.spec_id()@
    &&& protocol_locations_of(protocol.locations@, item.spec_locations()@)
    &&& protocol.location_count == item.spec_locations()@.len()
    &&& protocol.available_location_count == available_count(item.spec_locations()@)
    &&& protocol.worktree_count == item.spec_worktree_count()
    &&& protocol.has_remotes == protocol_knowledge(item.spec_has_remotes())
    &&& protocol.has_local_work == protocol_knowledge(item.spec_has_local_work())
}

fn protocol_repository_list_item(value: &RepositoryListItemProjection) -> (protocol: ProtocolRepositoryListItem)
    ensures
        protocol_list_item_of(protocol, *value),
{
    ProtocolRepositoryListItem {
        id: value.id().as_str().to_owned(),
        locations: protocol_locations(value.locations()),
        location_count: value.location_count() as u64,
        available_location_count: value.available_location_count() as u64,
        worktree_count: value.worktree_count() as u64,
        has_remotes: protocol_knowledge_bool(value.has_remotes()),
        has_local_work: protocol_knowledge_bool(value.has_local_work()),
    }
}

pub open spec fn protocol_overview_of(overview: OverviewProjection) -> ProtocolOverview {
    ProtocolOverview {
        repository_count: overview.spec_repository_count() as u64,
        available_repository_count: overview.spec_available_repository_count() as u64,
        worktree_count: overview.spec_worktree_count() as u64,
        repositories_with_local_work_count: overview.spec_repositories_with_local_work_count() as u64,
        repositories_with_unknown_local_work_count: overview.spec_repositories_with_unknown_local_work_count() as u64,
        repositories_without_remotes_count: overview.spec_repositories_without_remotes_count() as u64,
        repositories_with_unknown_remotes_count: overview.spec_repositories_with_unknown_remotes_count() as u64,
    }
}

fn protocol_overview(value: &OverviewProjection) -> (protocol: ProtocolOverview)
    ensures
        protocol == protocol_overview_of(*value),
{
    ProtocolOverview {
        repository_count: value.repository_count() as u64,
        available_repository_count: value.available_repository_count() as u64,
        worktree_count: value.worktree_count() as u64,
        repositories_with_local_work_count: value.repositories_with_local_work_count() as u64,
        repositories_with_unknown_local_work_count: value.repositories_with_unknown_local_work_count() as u64,
        repositories_without_remotes_count: value.repositories_without_remotes_count() as u64,
        repositories_with_unknown_remotes_count: value.repositories_with_unknown_remotes_count() as u64,
    }
}

pub open spec fn protocol_code(code: AdvisoryCode) -> ProtocolAdvisoryCode {
    match code {
        AdvisoryCode::RepositoryWithoutRemotes => ProtocolAdvisoryCode::RepositoryWithoutRemotes,
        AdvisoryCode::RepositoryHasMultipleWorktrees => ProtocolAdvisoryCode::RepositoryHasMultipleWorktrees,
        AdvisoryCode::WorktreeWithoutUpstream => ProtocolAdvisoryCode::WorktreeWithoutUpstream,
        AdvisoryCode::LocalCommitsAheadOfKnownUpstream => ProtocolAdvisoryCode::LocalCommitsAheadOfKnownUpstream,
    }
}

fn protocol_advisory_code(code: AdvisoryCode) -> (r: ProtocolAdvisoryCode)
    ensures
        r == protocol_code(code),
{
    match code {
        AdvisoryCode::RepositoryWithoutRemotes => ProtocolAdvisoryCode::RepositoryWithoutRemotes,
        AdvisoryCode::RepositoryHasMultipleWorktrees => ProtocolAdvisoryCode::RepositoryHasMultipleWorktrees,
        AdvisoryCode::WorktreeWithoutUpstream => ProtocolAdvisoryCode::WorktreeWithoutUpstream,
        AdvisoryCode::LocalCommitsAheadOfKnownUpstream => ProtocolAdvisoryCode::LocalCommitsAheadOfKnownUpstream,
    }
}

pub open spec fn protocol_subject_of(protocol: ProtocolAdvisorySubject, subject: AdvisorySubject) -> bool {
    match (protocol, subject) {
        (ProtocolAdvisorySubject::Workspace, AdvisorySubject::Workspace) => true,
        (ProtocolAdvisorySubject::Repository { repository_id }, AdvisorySubject::Repository(id)) => repository_id@ == id@,
        (ProtocolAdvisorySubject::Worktree { worktree_id }, AdvisorySubject::Worktree(id)) => worktree_id@ == id@,
        _ => false,
    }
}

fn protocol_advisory_subject(value: &AdvisorySubject) -> (protocol: ProtocolAdvisorySubject)
    ensures
        protocol_subject_of(protocol, *value),
{
    match value {
        AdvisorySubject::Workspace => ProtocolAdvisorySubject::Workspace,
        AdvisorySubject::Repository(id) => ProtocolAdvisorySubject::Repository {
            repository_id: id.as_str().to_owned(),
        },
        AdvisorySubject::Worktree(id) => ProtocolAdvisorySubject::Worktree {
            worktree_id: id.as_str().to_owned(),
        },
    }
}

pub open spec fn protocol_evidence(evidence: AdvisoryEvidence) -> ProtocolAdvisoryEvidence {
    match evidence {
        AdvisoryEvidence::RepositoryRemoteCount { remote_count } => ProtocolAdvisoryEvidence::RepositoryRemoteCount {
            remote_count: remote_count as u64,
        },
        AdvisoryEvidence::RepositoryWorktreeCount { worktree_count } => ProtocolAdvisoryEvidence::RepositoryWorktreeCount {
            worktree_count: worktree_count as u64,
        },
        AdvisoryEvidence::WorktreeUpstreamUnconfigured => ProtocolAdvisoryEvidence::WorktreeUpstreamUnconfigured,
        AdvisoryEvidence::KnownUpstreamDivergence { ahead, behind } => ProtocolAdvisoryEvidence::KnownUpstreamDivergence {
            ahead,
            behind,
        },
    }
}

fn protocol_advisory_evidence(value: AdvisoryEvidence) -> (r: ProtocolAdvisoryEvidence)
    ensures
        r == protocol_evidence(value),
{
    match value {
        AdvisoryEvidence::RepositoryRemoteCount { remote_count } => ProtocolAdvisoryEvidence::RepositoryRemoteCount {
            remote_count: remote_count as u64,
        },
        AdvisoryEvidence::RepositoryWorktreeCount { worktree_count } => ProtocolAdvisoryEvidence::RepositoryWorktreeCount {
            worktree_count: worktree_count as u64,
        },
        AdvisoryEvidence::WorktreeUpstreamUnconfigured => ProtocolAdvisoryEvidence::WorktreeUpstreamUnconfigured,
        AdvisoryEvidence::KnownUpstreamDivergence { ahead, behind } => ProtocolAdvisoryEvidence::KnownUpstreamDivergence {
            ahead,
            behind,
        },
    }
}

/// The protocol form of an advisory's freshness; nothing when its time is
/// out of range.
pub open spec fn protocol_freshness(freshness: AdvisoryFreshness) -> Option<ProtocolAdvisoryFreshness> {
    match freshness {
        AdvisoryFreshness::WorkspaceRevision(revision) => Some(
            ProtocolAdvisoryFreshness::WorkspaceRevision { workspace_revision: revision.spec_value() },
        ),
        AdvisoryFreshness::ObservedAt(observed_at) => match protocol_timestamp(observed_at) {
            Some(timestamp) => Some(ProtocolAdvisoryFreshness::ObservedAt { observed_at: timestamp }),
            None => None,
        },
    }
}

fn protocol_advisory_freshness(value: AdvisoryFreshness) -> (r: Result<ProtocolAdvisoryFreshness, ProtocolBuildError>)
    ensures
        r == match protocol_freshness(value) {
            Some(freshness) => Ok(freshness),
            None => Err(ProtocolBuildError::TimestampOutOfRange),
        },
{
    match value {
        AdvisoryFreshness::WorkspaceRevision(revision) => Ok(
            ProtocolAdvisoryFreshness::WorkspaceRevision { workspace_revision: revision.value() },
        ),
        AdvisoryFreshness::ObservedAt(observed_at) => {
            let timestamp = ProtocolTimestamp::try_from(observed_at)?;
            Ok(ProtocolAdvisoryFreshness::ObservedAt { observed_at: timestamp })
        },
    }
}

pub open spec fn protocol_advisory_of(protocol: ProtocolAdvisory, advisory: Advisory) -> bool {
    &&& protocol.code == protocol_code(advisory.spec_code())
    &&& protocol_subject_of(protocol.subject, advisory.spec_subject())
    &&& protocol.evidence == protocol_evidence(advisory.spec_evidence())
    &&& protocol_freshness(advisory.spec_freshness()) == Some(protocol.freshness)
}

fn protocol_advisory(value: &Advisory) -> (r: Result<ProtocolAdvisory, ProtocolBuildError>)
    ensures
        r is Ok <==> protocol_freshness(value.spec_freshness()) is Some,
        r matches Ok(protocol) ==> protocol_advisory_of(protocol, *value),
        r matches Err(error) ==> error == ProtocolBuildError::TimestampOutOfRange,
{
    let evidence = protocol_advisory_evidence(value.evidence());
    let freshness = protocol_advisory_freshness(value.freshness())?;
    Ok(
        ProtocolAdvisory {
            code: protocol_advisory_code(value.code()),
            subject: protocol_advisory_subject(value.subject()),
            evidence,
            freshness,
        },
    )
}

pub open spec fn protocol_reason(reason: AdvisoryUnknownReason) -> ProtocolAdvisoryUnknownReason {
    match reason {
        AdvisoryUnknownReason::MissingObservation => ProtocolAdvisoryUnknownReason::MissingObservation,
        AdvisoryUnknownReason::PartialObservation => ProtocolAdvisoryUnknownReason::PartialObservation,
        AdvisoryUnknownReason::MissingEvidence => ProtocolAdvisoryUnknownReason::MissingEvidence,
    }
}

pub open spec fn protocol_unknown_of(protocol: ProtocolAdvisoryRuleUnknown, unknown: AdvisoryRuleUnknown) -> bool {
    &&& protocol.code == protocol_code(unknown.spec_code())
    &&& protocol_subject_of(protocol.subject, unknown.spec_subject())
    &&& protocol.reason == protocol_reason(unknown.spec_reason())
}

fn protocol_advisory_unknown(value: &AdvisoryRuleUnknown) -> (protocol: ProtocolAdvisoryRuleUnknown)
    ensures
        protocol_unknown_of(protocol, *value),
{
    ProtocolAdvisoryRuleUnknown {
        code: protocol_advisory_code(value.code()),
        subject: protocol_advisory_subject(value.subject()),
        reason: match value.reason() {
            AdvisoryUnknownReason::MissingObservation => ProtocolAdvisoryUnknownReason::MissingObservation,
            AdvisoryUnknownReason::PartialObservation => ProtocolAdvisoryUnknownReason::PartialObservation,
            AdvisoryUnknownReason::MissingEvidence => ProtocolAdvisoryUnknownReason::MissingEvidence,
        },
    }
}

/// An observation status counts as one piece of unknown evidence unless its
/// latest success covered everything.
pub open spec fn observation_unknown(status: ObservationStatusProjection) -> nat {
    if status.spec_latest_success() matches Some(success) && success.spec_coverage()
        == ObservationCoverage::Complete {
        0
    } else {
        1
    }
}

fn observation_unknown_count(value: &ObservationStatusProjection) -> (count: u64)
    ensures
        count == observation_unknown(*value),
{
    match value.latest_success() {
        Some(success) => {
            if success.coverage() == ObservationCoverage::Complete {
                0
            } else {
                1
            }
        },
        None => 1,
    }
}

pub open spec fn worktrees_unknown(worktrees: Seq<WorktreeProjection>) -> nat
    decreases worktrees.len(),
{
    if worktrees.len() == 0 {
        0
    } else {
        observation_unknown(worktrees[0].spec_observation()) + worktrees_unknown(
            worktrees.drop_first(),
        )
    }
}

/// The unknown evidence of a repository: its remotes and each worktree.
pub open spec fn repository_unknown(detail: RepositoryDetailProjection) -> nat {
    observation_unknown(detail.spec_remotes_observation()) + worktrees_unknown(
        detail.spec_worktrees()@,
    )
}

fn repository_unknown_evidence_count(value: &RepositoryDetailProjection) -> (r: Result<
    u64,
    ProtocolBuildError,
>)
    ensures
        r is Ok <==> repository_unknown(*value) <= u64::MAX,
        r matches Ok(count) ==> count == repository_unknown(*value),
        r matches Err(error) ==> error == ProtocolBuildError::CountOutOfRange,
{
    let worktrees = value.worktrees();
    let mut count = observation_unknown_count(value.remotes_observation());
    let mut i: usize = 0;
    proof {
        assert(worktrees@.skip(0) =~= worktrees@);
    }
    while i < worktrees.len()
        invariant
            i <= worktrees@.len(),
            worktrees@ == value.spec_worktrees()@,
            count + worktrees_unknown(worktrees@.skip(i as int)) == repository_unknown(*value),
        decreases worktrees@.len() - i,
    {
        proof {
            assert(worktrees@.skip(i as int)[0] == worktrees@[i as int]);
            assert(worktrees@.skip(i as int).drop_first() =~= worktrees@.skip(i + 1));
        }
        let next = observation_unknown_count(worktrees[i].observation());
        count = match count.checked_add(next) {
            Some(sum) => sum,
            None => {
                return Err(ProtocolBuildError::CountOutOfRange);
            },
        };
        i = i + 1;
    }
    proof {
        assert(worktrees@.skip(i as int) =~= Seq::<WorktreeProjection>::empty());
    }
    Ok(count)
}

pub open spec fn knowledge_unknown(value: Knowledge<bool>) -> nat {
    match value {
        Knowledge::Known(_) => 0,
        Knowledge::Unknown => 1,
    }
}

fn knowledge_unknown_count(value: &Knowledge<bool>) -> (count: u64)
    ensures
        count == knowledge_unknown(*value),
{
    match value {
        Knowledge::Known(_) => 0,
        Knowledge::Unknown => 1,
    }
}

/// The unknown evidence of listed repositories: whether each has remotes
/// and whether each has local work.
pub open spec fn items_unknown(items: Seq<RepositoryListItemProjection>) -> nat
    decreases items.len(),
{
    if items.len() == 0 {
        0
    } else {
        knowledge_unknown(items[0].spec_has_remotes()) + knowledge_unknown(
            items[0].spec_has_local_work(),
        ) + items_unknown(items.drop_first())
    }
}

/// The unknown evidence of the overview: repositories whose local work or
/// remotes are unknown.
pub open spec fn overview_unknown(overview: OverviewProjection) -> nat {
    (overview.spec_repositories_with_unknown_local_work_count()
        + overview.spec_repositories_with_unknown_remotes_count()) as nat
}

pub open spec fn repositories_unknown(repositories: Seq<RepositoryDetailProjection>) -> nat
    decreases repositories.len(),
{
    if repositories.len() == 0 {
        0
    } else {
        repository_unknown(repositories[0]) + repositories_unknown(repositories.drop_first())
    }
}

/// Whether the repository and each of its worktrees are at the revision.
pub open spec fn detail_at_revision(detail: RepositoryDetailProjection, revision: WorkspaceRevision) -> bool {
    &&& detail.spec_revision() == revision
    &&& forall|i: int|
        0 <= i < detail.spec_worktrees()@.len() ==> (#[trigger] detail.spec_worktrees()@[i]).spec_revision()
            == revision
}

fn validate_repository_revision(value: &RepositoryDetailProjection, expected: WorkspaceRevision) -> (r: Result<
    (),
    ProtocolBuildError,
>)
    ensures
        r is Ok <==> detail_at_revision(*value, expected),
        r matches Err(error) ==> error == ProtocolBuildError::InconsistentWorkspaceRevision,
{
    if value.revision() != expected {
        return Err(ProtocolBuildError::InconsistentWorkspaceRevision);
    }
    let worktrees = value.worktrees();
    let mut i: usize = 0;
    while i < worktrees.len()
        invariant
            i <= worktrees@.len(),
            worktrees@ == value.spec_worktrees()@,
            forall|k: int| 0 <= k < i ==> (#[trigger] worktrees@[k]).spec_revision() == expected,
        decreases worktrees@.len() - i,
    {
        if worktrees[i].revision() != expected {
            return Err(ProtocolBuildError::InconsistentWorkspaceRevision);
        }
        i = i + 1;
    }
    Ok(())
}

/// The document header: schema version, revision and result metadata.
pub open spec fn document_header<T>(
    document: ProtocolDocument<T>,
    revision: WorkspaceRevision,
    unknown: nat,
) -> bool {
    &&& document.schema_version == READ_PROTOCOL_SCHEMA_VERSION
    &&& document.workspace_revision == revision.spec_value()
    &&& document.result == result_metadata(unknown as u64)
}

impl<T> ProtocolDocument<T> {
    fn new(revision: WorkspaceRevision, result: ProtocolResultMetadata, payload: T) -> (document: Self)
        ensures
            document.schema_version == READ_PROTOCOL_SCHEMA_VERSION,
            document.workspace_revision == revision.spec_value(),
            document.result == result,
            document.payload == payload,
    {
        ProtocolDocument {
            schema_version: READ_PROTOCOL_SCHEMA_VERSION,
            workspace_revision: revision.value(),
            result,
            payload,
        }
    }
}

impl ProtocolDocument<ProtocolOverview> {
    /// The overview document; its unknown evidence is the repositories
    /// with unknown local work or unknown remotes.
    pub fn try_from(value: &OverviewProjection) -> (r: Result<Self, ProtocolBuildError>)
        ensures
            r is Ok <==> overview_unknown(*value) <= usize::MAX,
            r matches Ok(document) ==> document_header(
                document,
                value.spec_revision(),
                overview_unknown(*value),
            ) && document.payload == protocol_overview_of(*value),
            r matches Err(error) ==> error == ProtocolBuildError::CountOutOfRange,
    {
        let unknown = match value.repositories_with_unknown_local_work_count().checked_add(
            value.repositories_with_unknown_remotes_count(),
        ) {
            Some(unknown) => unknown,
            None => {
                return Err(ProtocolBuildError::CountOutOfRange);
            },
        };
        Ok(
            ProtocolDocument::new(
                value.revision(),
                ProtocolResultMetadata::from_unknown_evidence_count(unknown as u64),
                protocol_overview(value),
            ),
        )
    }
}

impl ProtocolDocument<ProtocolRepositoryList> {
    /// The listing document; its unknown evidence is every unknown
    /// remotes or local-work answer among the listed repositories.
    pub fn try_from(value: &RepositoryListProjection) -> (r: Result<Self, ProtocolBuildError>)
        ensures
            r is Ok <==> items_unknown(value.spec_items()@) <= u64::MAX,
            r matches Ok(document) ==> {
                &&& document_header(document, value.spec_revision(), items_unknown(value.spec_items()@))
                &&& document.payload.total_matching == value.spec_total_matching()
                &&& document.payload.offset == value.spec_offset()
                &&& document.payload.items@.len() == value.spec_items()@.len()
                &&& forall|i: int|
                    0 <= i < document.payload.items@.len() ==> protocol_list_item_of(
                        #[trigger] document.payload.items@[i],
                        value.spec_items()@[i],
                    )
            },
            r matches Err(error) ==> error == ProtocolBuildError::CountOutOfRange,
    {
        let values = value.items();
        let mut unknown: u64 = 0;
        let mut items: Vec<ProtocolRepositoryListItem> = Vec::new();
        let mut i: usize = 0;
        proof {
            assert(values@.skip(0) =~= values@);
        }
        while i < values.len()
            invariant
                i <= values@.len(),
                values@ == value.spec_items()@,
                unknown + items_unknown(values@.skip(i as int)) == items_unknown(values@),
                items@.len() == i,
                forall|k: int| 0 <= k < i ==> protocol_list_item_of(#[trigger] items@[k], values@[k]),
            decreases values@.len() - i,
        {
            proof {
                assert(values@.skip(i as int)[0] == values@[i as int]);
                assert(values@.skip(i as int).drop_first() =~= values@.skip(i + 1));
            }
            let item = &values[i];
            let step = knowledge_unknown_count(item.has_remotes()) + knowledge_unknown_count(
                item.has_local_work(),
            );
            unknown = match unknown.checked_add(step) {
                Some(sum) => sum,
                None => {
                    return Err(ProtocolBuildError::CountOutOfRange);
                },
            };
            items.push(protocol_repository_list_item(item));
            i = i + 1;
        }
        proof {
            assert(values@.skip(i as int) =~= Seq::<RepositoryListItemProjection>::empty());
        }
        Ok(
            ProtocolDocument::new(
                value.revision(),
                ProtocolResultMetadata::from_unknown_evidence_count(unknown),
                ProtocolRepositoryList {
                    total_matching: value.total_matching() as u64,
                    offset: value.offset() as u64,
                    items,
                },
            ),
        )
    }
}

/// The first reason a repository detail document cannot be built: mixed
/// revisions, then too much unknown evidence, then a time out of range.
pub open spec fn detail_document_failure(detail: RepositoryDetailProjection) -> Option<ProtocolBuildError> {
    if !detail_at_revision(detail, detail.spec_revision()) {
        Some(ProtocolBuildError::InconsistentWorkspaceRevision)
    } else if repository_unknown(detail) > u64::MAX {
        Some(ProtocolBuildError::CountOutOfRange)
    } else if !detail_times_in_range(detail) {
        Some(ProtocolBuildError::TimestampOutOfRange)
    } else {
        None
    }
}

impl ProtocolDocument<ProtocolRepositoryDetail> {
    pub fn try_from(value: &RepositoryDetailProjection) -> (r: Result<Self, ProtocolBuildError>)
        ensures
            r is Ok <==> detail_document_failure(*value) is None,
            r matches Err(error) ==> detail_document_failure(*value) == Some(error),
            r matches Ok(document) ==> document_header(
                document,
                value.spec_revision(),
                repository_unknown(*value),
            ) && protocol_detail_of(document.payload, *value),
    {
        validate_repository_revision(value, value.revision())?;
        let unknown = repository_unknown_evidence_count(value)?;
        let payload = protocol_repository_detail(value)?;
        Ok(
            ProtocolDocument::new(
                value.revision(),
                ProtocolResultMetadata::from_unknown_evidence_count(unknown),
                payload,
            ),
        )
    }
}

impl ProtocolDocument<ProtocolWorktree> {
    pub fn try_from(value: &WorktreeProjection) -> (r: Result<Self, ProtocolBuildError>)
        ensures
            r is Ok <==> protocol_status(value.spec_observation()) is Some,
            r matches Ok(document) ==> document_header(
                document,
                value.spec_revision(),
                observation_unknown(value.spec_observation()),
            ) && protocol_worktree_of(document.payload, *value),
            r matches Err(error) ==> error == ProtocolBuildError::TimestampOutOfRange,
    {
        let unknown = observation_unknown_count(value.observation());
        let payload = protocol_worktree(value)?;
        Ok(
            ProtocolDocument::new(
                value.revision(),
                ProtocolResultMetadata::from_unknown_evidence_count(unknown),
                payload,
            ),
        )
    }
}

/// The first reason the repositories of a mirror cannot be written, going
/// through them in order with the unknown evidence counted so far.
pub open spec fn repositories_failure(
    repositories: Seq<RepositoryDetailProjection>,
    revision: WorkspaceRevision,
    counted: nat,
) -> Option<ProtocolBuildError>
    decreases repositories.len(),
{
    if repositories.len() == 0 {
        None
    } else {
        let detail = repositories[0];
        if !detail_at_revision(detail, revision) {
            Some(ProtocolBuildError::InconsistentWorkspaceRevision)
        } else if counted + repository_unknown(detail) > u64::MAX {
            Some(ProtocolBuildError::CountOutOfRange)
        } else if !detail_times_in_range(detail) {
            Some(ProtocolBuildError::TimestampOutOfRange)
        } else {
            repositories_failure(
                repositories.drop_first(),
                revision,
                counted + repository_unknown(detail),
            )
        }
    }
}

/// The first reason a mirror document cannot be built.
pub open spec fn mirror_document_failure(mirror: WorkspaceMirror) -> Option<ProtocolBuildError> {
    if mirror.spec_overview().spec_revision() != mirror.spec_revision() {
        Some(ProtocolBuildError::InconsistentWorkspaceRevision)
    } else {
        repositories_failure(mirror.spec_repositories()@, mirror.spec_revision(), 0)
    }
}

impl ProtocolDocument<ProtocolWorkspaceMirror> {
    /// The mirror document: every part must be at the mirror's revision.
    pub fn try_from(value: &WorkspaceMirror) -> (r: Result<Self, ProtocolBuildError>)
        ensures
            r is Ok <==> mirror_document_failure(*value) is None,
            r matches Err(error) ==> mirror_document_failure(*value) == Some(error),
            r matches Ok(document) ==> {
                &&& document_header(
                    document,
                    value.spec_revision(),
                    repositories_unknown(value.spec_repositories()@),
                )
                &&& document.payload.overview == protocol_overview_of(value.spec_overview())
                &&& document.payload.repositories@.len() == value.spec_repositories()@.len()
                &&& forall|i: int|
                    0 <= i < document.payload.repositories@.len() ==> protocol_detail_of(
                        #[trigger] document.payload.repositories@[i],
                        value.spec_repositories()@[i],
                    )
            },
    {
        let revision = value.revision();
        if value.overview().revision() != revision {
            return Err(ProtocolBuildError::InconsistentWorkspaceRevision);
        }
        let details = value.repositories();
        let mut unknown: u64 = 0;
        let mut repositories: Vec<ProtocolRepositoryDetail> = Vec::new();
        let mut i: usize = 0;
        proof {
            assert(details@.skip(0) =~= details@);
        }
        while i < details.len()
            invariant
                i <= details@.len(),
                details@ == value.spec_repositories()@,
                revision == value.spec_revision(),
                mirror_document_failure(*value) == repositories_failure(
                    details@.skip(i as int),
                    revision,
                    unknown as nat,
                ),
                unknown + repositories_unknown(details@.skip(i as int)) == repositories_unknown(
                    details@,
                ),
                repositories@.len() == i,
                forall|k: int|
                    0 <= k < i ==> protocol_detail_of(#[trigger] repositories@[k], details@[k]),
            decreases details@.len() - i,
        {
            proof {
                assert(details@.skip(i as int)[0] == details@[i as int]);
                assert(details@.skip(i as int).drop_first() =~= details@.skip(i + 1));
            }
            let detail = &details[i];
            validate_repository_revision(detail, revision)?;
            let count = match repository_unknown_evidence_count(detail) {
                Ok(count) => count,
                Err(error) => {
                    return Err(error);
                },
            };
            unknown = match unknown.checked_add(count) {
                Some(sum) => sum,
                None => {
                    return Err(ProtocolBuildError::CountOutOfRange);
                },
            };
            let converted = protocol_repository_detail(detail)?;
            repositories.push(converted);
            i = i + 1;
        }
        proof {
            assert(details@.skip(i as int) =~= Seq::<RepositoryDetailProjection>::empty());
        }
        Ok(
            ProtocolDocument::new(
                revision,
                ProtocolResultMetadata::from_unknown_evidence_count(unknown),
                ProtocolWorkspaceMirror { overview: protocol_overview(value.overview()), repositories },
            ),
        )
    }
}

/// Whether every advisory's time can be written.
pub open spec fn advisories_in_range(advisories: Seq<Advisory>) -> bool {
    forall|i: int|
        0 <= i < advisories.len() ==> protocol_freshness((#[trigger] advisories[i]).spec_freshness())
            is Some
}

pub open spec fn protocol_advice_of(
    protocol: ProtocolAdvisoryProjection,
    advisories: Seq<Advisory>,
    unknowns: Seq<AdvisoryRuleUnknown>,
) -> bool {
    &&& protocol.advisories@.len() == advisories.len()
    &&& forall|i: int|
        0 <= i < advisories.len() ==> protocol_advisory_of(
            #[trigger] protocol.advisories@[i],
            advisories[i],
        )
    &&& protocol.unknown_rules@.len() == unknowns.len()
    &&& forall|i: int|
        0 <= i < unknowns.len() ==> protocol_unknown_of(#[trigger] protocol.unknown_rules@[i], unknowns[i])
}

fn protocol_advice(advisories: &[Advisory], unknowns: &[AdvisoryRuleUnknown]) -> (r: Result<
    ProtocolAdvisoryProjection,
    ProtocolBuildError,
>)
    ensures
        r is Ok <==> advisories_in_range(advisories@),
        r matches Ok(protocol) ==> protocol_advice_of(protocol, advisories@, unknowns@),
        r matches Err(error) ==> error == ProtocolBuildError::TimestampOutOfRange,
{
    let mut converted: Vec<ProtocolAdvisory> = Vec::new();
    let mut i: usize = 0;
    while i < advisories.len()
        invariant
            i <= advisories@.len(),
            converted@.len() == i,
            forall|k: int| 0 <= k < i ==> protocol_advisory_of(#[trigger] converted@[k], advisories@[k]),
            forall|k: int|
                0 <= k < i ==> protocol_freshness((#[trigger] advisories@[k]).spec_freshness()) is Some,
        decreases advisories@.len() - i,
    {
        let advisory = protocol_advisory(&advisories[i])?;
        converted.push(advisory);
        i = i + 1;
    }
    let mut unknown_rules: Vec<ProtocolAdvisoryRuleUnknown> = Vec::new();
    let mut j: usize = 0;
    while j < unknowns.len()
        invariant
            j <= unknowns@.len(),
            unknown_rules@.len() == j,
            forall|k: int| 0 <= k < j ==> protocol_unknown_of(#[trigger] unknown_rules@[k], unknowns@[k]),
        decreases unknowns@.len() - j,
    {
        unknown_rules.push(protocol_advisory_unknown(&unknowns[j]));
        j = j + 1;
    }
    Ok(ProtocolAdvisoryProjection { advisories: converted, unknown_rules })
}

impl ProtocolDocument<ProtocolAdvisoryProjection> {
    /// The advice document; its unknown evidence is the undecided rules.
    pub fn try_from(value: &AdvisoryProjection) -> (r: Result<Self, ProtocolBuildError>)
        ensures
            r is Ok <==> advisories_in_range(value.spec_advisories()),
            r matches Ok(document) ==> document_header(
                document,
                value.spec_revision(),
                value.spec_unknown_rules().len(),
            ) && protocol_advice_of(
                document.payload,
                value.spec_advisories(),
                value.spec_unknown_rules(),
            ),
            r matches Err(error) ==> error == ProtocolBuildError::TimestampOutOfRange,
    {
        let payload = protocol_advice(value.advisories(), value.unknown_rules())?;
        let unknown = payload.unknown_rules.len() as u64;
        Ok(
            ProtocolDocument::new(
                value.revision(),
                ProtocolResultMetadata::from_unknown_evidence_count(unknown),
                payload,
            ),
        )
    }
}

/// The first reason the combined overview document cannot be built.
pub open spec fn overview_view_failure(
    overview: OverviewProjection,
    advice: AdvisoryProjection,
) -> Option<ProtocolBuildError> {
    if overview.spec_revision() != advice.spec_revision() {
        Some(ProtocolBuildError::InconsistentWorkspaceRevision)
    } else if !advisories_in_range(advice.spec_advisories()) {
        Some(ProtocolBuildError::TimestampOutOfRange)
    } else if overview_unknown(overview) > usize::MAX || overview_unknown(overview)
        + advice.spec_unknown_rules().len() > u64::MAX {
        Some(ProtocolBuildError::CountOutOfRange)
    } else {
        None
    }
}

impl ProtocolDocument<ProtocolOverviewView> {
    /// The overview and the advice in one document; both must be at the
    /// same revision.
    pub fn try_from(value: (&OverviewProjection, &AdvisoryProjection)) -> (r: Result<
        Self,
        ProtocolBuildError,
    >)
        ensures
            r is Ok <==> overview_view_failure(*value.0, *value.1) is None,
            r matches Err(error) ==> overview_view_failure(*value.0, *value.1) == Some(error),
            r matches Ok(document) ==> document_header(
                document,
                value.0.spec_revision(),
                overview_unknown(*value.0) + value.1.spec_unknown_rules().len(),
            ) && document.payload.overview == protocol_overview_of(*value.0) && protocol_advice_of(
                document.payload.advisories,
                value.1.spec_advisories(),
                value.1.spec_unknown_rules(),
            ),
    {
        let (overview, advice) = value;
        if overview.revision() != advice.revision() {
            return Err(ProtocolBuildError::InconsistentWorkspaceRevision);
        }
        let payload = protocol_advice(advice.advisories(), advice.unknown_rules())?;
        let overview_count = match overview.repositories_with_unknown_local_work_count().checked_add(
            overview.repositories_with_unknown_remotes_count(),
        ) {
            Some(count) => count as u64,
            None => {
                return Err(ProtocolBuildError::CountOutOfRange);
            },
        };
        let unknown = match overview_count.checked_add(payload.unknown_rules.len() as u64) {
            Some(count) => count,
            None => {
                return Err(ProtocolBuildError::CountOutOfRange);
            },
        };
        Ok(
            ProtocolDocument::new(
                overview.revision(),
                ProtocolResultMetadata::from_unknown_evidence_count(unknown),
                ProtocolOverviewView { overview: protocol_overview(overview), advisories: payload },
            ),
        )
    }
}

/// Whether an advisory subject is the repository or one of its worktrees.
pub open spec fn subject_concerns(subject: AdvisorySubject, detail: RepositoryDetailProjection) -> bool {
    match subject {
        AdvisorySubject::Workspace => false,
        AdvisorySubject::Repository(id) => id@ == detail.spec_id()@,
        AdvisorySubject::Worktree(id) => exists|i: int|
            0 <= i < detail.spec_worktrees()@.len() && (
            #[trigger] detail.spec_worktrees()@[i]).spec_id()@ == id@,
    }
}

fn advisory_subject_matches_repository(subject: &AdvisorySubject, repository: &RepositoryDetailProjection) -> (concerns: bool)
    ensures
        concerns == subject_concerns(*subject, *repository),
{
    match subject {
        AdvisorySubject::Workspace => false,
        AdvisorySubject::Repository(id) => id == repository.id(),
        AdvisorySubject::Worktree(id) => {
            let worktrees = repository.worktrees();
            let mut i: usize = 0;
            while i < worktrees.len()
                invariant
                    i <= worktrees@.len(),
                    worktrees@ == repository.spec_worktrees()@,
                    *subject == AdvisorySubject::Worktree(*id),
                    forall|k: int| 0 <= k < i ==> (#[trigger] worktrees@[k]).spec_id()@ != id@,
                decreases worktrees@.len() - i,
            {
                if worktrees[i].id() == id {
                    proof {
                        assert(repository.spec_worktrees()@[i as int].spec_id()@ == id@);
                    }
                    return true;
                }
                i = i + 1;
            }
            false
        },
    }
}

/// The advisories about the repository or its worktrees.
pub open spec fn repository_advisories(advice: AdvisoryProjection, detail: RepositoryDetailProjection) -> Seq<Advisory> {
    advice.spec_advisories().filter(|advisory: Advisory| subject_concerns(advisory.spec_subject(), detail))
}

/// The undecided rules about the repository or its worktrees.
pub open spec fn repository_unknown_rules(advice: AdvisoryProjection, detail: RepositoryDetailProjection) -> Seq<
    AdvisoryRuleUnknown,
> {
    advice.spec_unknown_rules().filter(
        |unknown: AdvisoryRuleUnknown| subject_concerns(unknown.spec_subject(), detail),
    )
}

fn repository_advice(repository: &RepositoryDetailProjection, advice: &AdvisoryProjection) -> (r: Result<
    ProtocolAdvisoryProjection,
    ProtocolBuildError,
>)
    ensures
        r is Ok <==> advisories_in_range(repository_advisories(*advice, *repository)),
        r matches Ok(protocol) ==> protocol_advice_of(
            protocol,
            repository_advisories(*advice, *repository),
            repository_unknown_rules(*advice, *repository),
        ),
        r matches Err(error) ==> error == ProtocolBuildError::TimestampOutOfRange,
{
    let ghost advisory_pred = |advisory: Advisory| subject_concerns(advisory.spec_subject(), *repository);
    let ghost unknown_pred = |unknown: AdvisoryRuleUnknown| subject_concerns(unknown.spec_subject(), *repository);
    let advisories = advice.advisories();
    let mut converted: Vec<ProtocolAdvisory> = Vec::new();
    let mut i: usize = 0;
    proof {
        reveal(Seq::filter);
        assert(advisories@.take(0) =~= Seq::<Advisory>::empty());
    }
    while i < advisories.len()
        invariant
            i <= advisories@.len(),
            advisories@ == advice.spec_advisories(),
            advisory_pred == (|advisory: Advisory| subject_concerns(advisory.spec_subject(), *repository)),
            converted@.len() == advisories@.take(i as int).filter(advisory_pred).len(),
            forall|k: int|
                0 <= k < converted@.len() ==> protocol_advisory_of(
                    #[trigger] converted@[k],
                    advisories@.take(i as int).filter(advisory_pred)[k],
                ),
            advisories_in_range(advisories@.take(i as int).filter(advisory_pred)),
        decreases advisories@.len() - i,
    {
        proof {
            lemma_filter_take_step(advisories@, i as int, advisory_pred);
        }
        if advisory_subject_matches_repository(advisories[i].subject(), repository) {
            match protocol_advisory(&advisories[i]) {
                Ok(advisory) => {
                    converted.push(advisory);
                },
                Err(error) => {
                    proof {
                        advisories@.lemma_filter_contains(advisory_pred, i as int);
                        let all = advisories@.filter(advisory_pred);
                        let m = choose|m: int| 0 <= m < all.len() && all[m] == advisories@[i as int];
                        assert(protocol_freshness(all[m].spec_freshness()) is None);
                    }
                    return Err(error);
                },
            }
        }
        i = i + 1;
    }
    proof {
        assert(advisories@.take(i as int) =~= advisories@);
    }
    let unknowns = advice.unknown_rules();
    let mut unknown_rules: Vec<ProtocolAdvisoryRuleUnknown> = Vec::new();
    let mut j: usize = 0;
    proof {
        assert(unknowns@.take(0) =~= Seq::<AdvisoryRuleUnknown>::empty());
    }
    while j < unknowns.len()
        invariant
            j <= unknowns@.len(),
            unknowns@ == advice.spec_unknown_rules(),
            unknown_pred == (|unknown: AdvisoryRuleUnknown| subject_concerns(unknown.spec_subject(), *repository)),
            unknown_rules@.len() == unknowns@.take(j as int).filter(unknown_pred).len(),
            forall|k: int|
                0 <= k < unknown_rules@.len() ==> protocol_unknown_of(
                    #[trigger] unknown_rules@[k],
                    unknowns@.take(j as int).filter(unknown_pred)[k],
                ),
        decreases unknowns@.len() - j,
    {
        proof {
            lemma_filter_take_step(unknowns@, j as int, unknown_pred);
        }
        if advisory_subject_matches_repository(unknowns[j].subject(), repository) {
            unknown_rules.push(protocol_advisory_unknown(&unknowns[j]));
        }
        j = j + 1;
    }
    proof {
        assert(unknowns@.take(j as int) =~= unknowns@);
    }
    Ok(ProtocolAdvisoryProjection { advisories: converted, unknown_rules })
}

/// The first reason the combined repository document cannot be built.
pub open spec fn repository_view_failure(
    detail: RepositoryDetailProjection,
    advice: AdvisoryProjection,
) -> Option<ProtocolBuildError> {
    if !detail_at_revision(detail, detail.spec_revision()) || detail.spec_revision()
        != advice.spec_revision() {
        Some(ProtocolBuildError::InconsistentWorkspaceRevision)
    } else if !advisories_in_range(repository_advisories(advice, detail)) {
        Some(ProtocolBuildError::TimestampOutOfRange)
    } else if repository_unknown(detail) + repository_unknown_rules(advice, detail).len()
        > u64::MAX {
        Some(ProtocolBuildError::CountOutOfRange)
    } else if !detail_times_in_range(detail) {
        Some(ProtocolBuildError::TimestampOutOfRange)
    } else {
        None
    }
}

impl ProtocolDocument<ProtocolRepositoryDetailView> {
    /// One repository and the advice about it or its worktrees, in one
    /// document; both must be at the same revision.
    pub fn try_from(value: (&RepositoryDetailProjection, &AdvisoryProjection)) -> (r: Result<
        Self,
        ProtocolBuildError,
    >)
        ensures
            r is Ok <==> repository_view_failure(*value.0, *value.1) is None,
            r matches Err(error) ==> repository_view_failure(*value.0, *value.1) == Some(error),
            r matches Ok(document) ==> document_header(
                document,
                value.0.spec_revision(),
                repository_unknown(*value.0) + repository_unknown_rules(*value.1, *value.0).len(),
            ) && protocol_detail_of(document.payload.repository, *value.0) && protocol_advice_of(
                document.payload.advisories,
                repository_advisories(*value.1, *value.0),
                repository_unknown_rules(*value.1, *value.0),
            ),
    {
        let (repository, advice) = value;
        validate_repository_revision(repository, repository.revision())?;
        if repository.revision() != advice.revision() {
            return Err(ProtocolBuildError::InconsistentWorkspaceRevision);
        }
        let payload = repository_advice(repository, advice)?;
        let repository_count = match repository_unknown_evidence_count(repository) {
            Ok(count) => count,
            Err(error) => {
                return Err(error);
            },
        };
        let unknown = match repository_count.checked_add(payload.unknown_rules.len() as u64) {
            Some(count) => count,
            None => {
                return Err(ProtocolBuildError::CountOutOfRange);
            },
        };
        let detail = protocol_repository_detail(repository)?;
        Ok(
            ProtocolDocument::new(
                repository.revision(),
                ProtocolResultMetadata::from_unknown_evidence_count(unknown),
                ProtocolRepositoryDetailView { repository: detail, advisories: payload },
            ),
        )
    }
}

/// A document is complete exactly when it carries no unknown evidence.
pub proof fn law_complete_iff_no_unknown_evidence(unknown_evidence_count: u64)
    ensures
        (result_metadata(unknown_evidence_count).completeness
            == ProtocolResultCompleteness::Complete) <==> unknown_evidence_count == 0,
        result_metadata(unknown_evidence_count).unknown_evidence_count == unknown_evidence_count,
{
}

/// A written time is the same instant: its seconds and nanoseconds add up
/// to the time, and the nanoseconds stay below one second, also before the
/// epoch.
pub proof fn law_timestamp_is_exact(time: Timestamp)
    ensures
        protocol_timestamp(time) matches Some(written) ==> written.unix_seconds * 1_000_000_000
            + written.nanoseconds == time.spec_unix_nanos() && written.nanoseconds
            < 1_000_000_000,
{
    if protocol_timestamp(time) is Some {
        vstd::arithmetic::div_mod::lemma_fundamental_div_mod(time.spec_unix_nanos(), 1_000_000_000);
    }
}

/// A written path loses nothing: the bytes of its text, or its raw bytes,
/// are the path.
pub proof fn law_path_is_lossless(protocol: ProtocolPath, path: Seq<u8>)
    requires
        protocol_path_of(protocol, path),
    ensures
        match protocol {
            ProtocolPath::Utf8(text) => encode_utf8(text@) == path,
            ProtocolPath::UnixBytes(bytes) => bytes@ == path,
            _ => false,
        },
{
    if protocol is Utf8 {
        decode_utf8_encode_utf8(path);
    }
}

} // verus!
