use vstd::prelude::*;

use crate::advisory::{
    Advisory, AdvisoryCode, AdvisoryEvidence, AdvisoryRuleUnknown, AdvisorySubject,
};
use crate::age::{relative_age, spec_relative_age, RelativeAge};
use crate::observation::{ObservationCoverage, ObservationFailureKind};
use crate::read_models::{
    Knowledge, ObservationEvidenceState, ObservationStatusProjection, RepositoryDetailProjection,
    RepositoryListItemProjection, WorktreeProjection,
};
use crate::time::Timestamp;

verus! {

/// Whether `age` is how an observation made at `observed_at` reads at `now`.
pub open spec fn reads_as(age: RelativeAge, observed_at: Timestamp, now: Timestamp) -> bool {
    (age.direction, age.age.amount as int, age.age.unit) == spec_relative_age(observed_at, now)
}

/// What a reader is told about the observation of one subject.
#[derive(Clone, Copy, Debug, PartialEq, Eq, Structural)]
pub enum ObservationStatusLine {
    NeverObserved,
    Observed { age: RelativeAge, coverage: ObservationCoverage },
    FailedWithoutSuccess { failure: ObservationFailureKind, age: RelativeAge },
    FailedAfterSuccess {
        failure: ObservationFailureKind,
        attempted_age: RelativeAge,
        success_age: RelativeAge,
        success_coverage: ObservationCoverage,
    },
}

/// The status line owed for `status` read at `now`: a failed latest attempt
/// is told apart from the last success, which keeps its own age and coverage.
pub open spec fn describes_status(
    line: ObservationStatusLine,
    status: ObservationStatusProjection,
    now: Timestamp,
) -> bool {
    match status.spec_evidence_state() {
        ObservationEvidenceState::NeverObserved => line is NeverObserved,
        ObservationEvidenceState::Observed { observed_at, coverage } => {
            &&& line matches ObservationStatusLine::Observed { age, coverage: shown }
            &&& shown == coverage
            &&& reads_as(age, observed_at, now)
        },
        ObservationEvidenceState::LatestAttemptFailed { attempted_at, failure, latest_success } => {
            match latest_success {
                None => {
                    &&& line matches ObservationStatusLine::FailedWithoutSuccess { failure: shown, age }
                    &&& shown == failure
                    &&& reads_as(age, attempted_at, now)
                },
                Some(success) => {
                    &&& line matches ObservationStatusLine::FailedAfterSuccess {
                        failure: shown,
                        attempted_age,
                        success_age,
                        success_coverage,
                    }
                    &&& shown == failure
                    &&& reads_as(attempted_age, attempted_at, now)
                    &&& reads_as(success_age, success.spec_observed_at(), now)
                    &&& success_coverage == success.spec_coverage()
                },
            }
        },
    }
}

/// The observation status line for `status` as read at `now`.
pub fn observation_status_line(status: &ObservationStatusProjection, now: Timestamp) -> (line:
    ObservationStatusLine)
    ensures
        describes_status(line, *status, now),
{
    match status.evidence_state() {
        ObservationEvidenceState::NeverObserved => ObservationStatusLine::NeverObserved,
        ObservationEvidenceState::Observed { observed_at, coverage } => {
            ObservationStatusLine::Observed { age: relative_age(observed_at, now), coverage }
        },
        ObservationEvidenceState::LatestAttemptFailed { attempted_at, failure, latest_success } => {
            let attempted_age = relative_age(attempted_at, now);
            match latest_success {
                None => ObservationStatusLine::FailedWithoutSuccess { failure, age: attempted_age },
                Some(success) => ObservationStatusLine::FailedAfterSuccess {
                    failure,
                    attempted_age,
                    success_age: relative_age(success.observed_at(), now),
                    success_coverage: success.coverage(),
                },
            }
        },
    }
}

/// Why a fact that depends on an observation is unknown.
#[derive(Clone, Copy, Debug, PartialEq, Eq, Structural)]
pub enum UnknownObservationLine {
    NeverObserved,
    FailedWithoutSuccess { failure: ObservationFailureKind, age: RelativeAge },
    Unknown,
}

/// The reason owed for an unknown fact: never observed, or a failed attempt
/// with no success before it; otherwise it is only unknown.
pub open spec fn describes_unknown(
    line: UnknownObservationLine,
    status: ObservationStatusProjection,
    now: Timestamp,
) -> bool {
    match status.spec_evidence_state() {
        ObservationEvidenceState::NeverObserved => line is NeverObserved,
        ObservationEvidenceState::LatestAttemptFailed {
            attempted_at,
            failure,
            latest_success: None,
        } => {
            &&& line matches UnknownObservationLine::FailedWithoutSuccess { failure: shown, age }
            &&& shown == failure
            &&& reads_as(age, attempted_at, now)
        },
        _ => line is Unknown,
    }
}

/// The reason shown for a fact left unknown by `status`, read at `now`.
pub fn unknown_observation_line(status: &ObservationStatusProjection, now: Timestamp) -> (line:
    UnknownObservationLine)
    ensures
        describes_unknown(line, *status, now),
{
    match status.evidence_state() {
        ObservationEvidenceState::NeverObserved => UnknownObservationLine::NeverObserved,
        ObservationEvidenceState::LatestAttemptFailed {
            attempted_at,
            failure,
            latest_success: None,
        } => UnknownObservationLine::FailedWithoutSuccess {
            failure,
            age: relative_age(attempted_at, now),
        },
        _ => UnknownObservationLine::Unknown,
    }
}

/// The identities of a repository's worktrees, in order.
pub open spec fn worktree_identities(worktrees: Seq<WorktreeProjection>) -> Seq<Seq<char>> {
    worktrees.map_values(|worktree: WorktreeProjection| worktree.spec_id()@)
}

/// Whether a subject concerns a repository: the repository itself or one
/// of its worktrees, never the workspace as a whole.
pub open spec fn concerns_repository(subject: AdvisorySubject, repository: RepositoryDetailProjection) -> bool {
    match subject {
        AdvisorySubject::Workspace => false,
        AdvisorySubject::Repository(id) => id@ == repository.spec_id()@,
        AdvisorySubject::Worktree(id) => worktree_identities(
            repository.spec_worktrees()@,
        ).contains(id@),
    }
}

/// Whether `subject` concerns `repository`.
pub fn subject_matches_repository(
    subject: &AdvisorySubject,
    repository: &RepositoryDetailProjection,
) -> (r: bool)
    ensures
        r == concerns_repository(*subject, *repository),
{
    match subject {
        AdvisorySubject::Workspace => false,
        AdvisorySubject::Repository(id) => *id == *repository.id(),
        AdvisorySubject::Worktree(id) => {
            let worktrees = repository.worktrees();
            let ghost identities = worktree_identities(worktrees@);
            let mut index: usize = 0;
            while index < worktrees.len()
                invariant
                    index <= worktrees@.len(),
                    identities == worktree_identities(worktrees@),
                    worktrees@ == repository.spec_worktrees()@,
                    *subject == AdvisorySubject::Worktree(*id),
                    forall|k: int| 0 <= k < index ==> identities[k] != id@,
                decreases worktrees.len() - index,
            {
                if *worktrees[index].id() == *id {
                    assert(identities[index as int] == id@);
                    return true;
                }
                index = index + 1;
            }
            proof {
                if identities.contains(id@) {
                    let k = choose|k: int| 0 <= k < identities.len() && identities[k] == id@;
                    assert(identities[k] != id@);
                }
            }
            false
        },
    }
}

/// The advisories among `advisories` that concern `repository`, in order.
pub open spec fn advisories_for(advisories: Seq<Advisory>, repository: RepositoryDetailProjection) -> Seq<Advisory> {
    advisories.filter(|advisory: Advisory| concerns_repository(advisory.spec_subject(), repository))
}

/// The undecided rules among `unknown` that concern `repository`.
pub open spec fn unknown_rules_for(
    unknown: Seq<AdvisoryRuleUnknown>,
    repository: RepositoryDetailProjection,
) -> Seq<AdvisoryRuleUnknown> {
    unknown.filter(|rule: AdvisoryRuleUnknown| concerns_repository(rule.spec_subject(), repository))
}

/// The advisories that concern `repository`, kept in their order.
pub fn repository_advisories<'a>(
    advisories: &'a [Advisory],
    repository: &RepositoryDetailProjection,
) -> (relevant: Vec<&'a Advisory>)
    ensures
        relevant@.len() == advisories_for(advisories@, *repository).len(),
        forall|k: int|
            0 <= k < relevant@.len() ==> *relevant@[k] == advisories_for(advisories@, *repository)[k],
{
    let ghost pred = |advisory: Advisory| concerns_repository(advisory.spec_subject(), *repository);
    let mut relevant: Vec<&'a Advisory> = Vec::new();
    let mut index: usize = 0;
    proof {
        reveal(Seq::filter);
        assert(advisories@.take(0).filter(pred) =~= Seq::<Advisory>::empty());
    }
    while index < advisories.len()
        invariant
            index <= advisories@.len(),
            pred == (|advisory: Advisory| concerns_repository(advisory.spec_subject(), *repository)),
            relevant@.len() == advisories@.take(index as int).filter(pred).len(),
            forall|k: int|
                0 <= k < relevant@.len() ==> *relevant@[k] == advisories@.take(index as int).filter(
                    pred,
                )[k],
        decreases advisories.len() - index,
    {
        let advisory = &advisories[index];
        let ghost before = advisories@.take(index as int);
        let ghost after = advisories@.take(index + 1);
        proof {
            reveal(Seq::filter);
            assert(after.drop_last() =~= before);
            assert(after.last() == advisories@[index as int]);
        }
        if subject_matches_repository(advisory.subject(), repository) {
            relevant.push(advisory);
        }
        index = index + 1;
    }
    assert(advisories@.take(advisories@.len() as int) =~= advisories@);
    relevant
}

/// How many undecided rules concern `repository`.
pub fn repository_unknown_rule_count(
    unknown: &[AdvisoryRuleUnknown],
    repository: &RepositoryDetailProjection,
) -> (count: usize)
    ensures
        count == unknown_rules_for(unknown@, *repository).len(),
{
    let ghost pred = |rule: AdvisoryRuleUnknown| concerns_repository(rule.spec_subject(), *repository);
    let mut count: usize = 0;
    let mut index: usize = 0;
    proof {
        reveal(Seq::filter);
        assert(unknown@.take(0).filter(pred) =~= Seq::<AdvisoryRuleUnknown>::empty());
    }
    while index < unknown.len()
        invariant
            index <= unknown@.len(),
            pred == (|rule: AdvisoryRuleUnknown| concerns_repository(rule.spec_subject(), *repository)),
            count == unknown@.take(index as int).filter(pred).len(),
            count <= index,
        decreases unknown.len() - index,
    {
        let ghost before = unknown@.take(index as int);
        let ghost after = unknown@.take(index + 1);
        proof {
            reveal(Seq::filter);
            assert(after.drop_last() =~= before);
            assert(after.last() == unknown@[index as int]);
        }
        if subject_matches_repository(unknown[index].subject(), repository) {
            count = count + 1;
        }
        index = index + 1;
    }
    assert(unknown@.take(unknown@.len() as int) =~= unknown@);
    count
}

/// What one advisory line says about its subject.
#[derive(Clone, Copy, Debug, PartialEq, Eq, Structural)]
pub enum AdvisoryLine {
    RepositoryWithoutRemotes,
    RepositoryRemoteCount { count: usize },
    RepositoryWorktreeCount { count: usize },
    WorktreeUpstreamUnconfigured,
    WorktreeKnownUpstreamDivergence { ahead: u64, behind: u64 },
    InconsistentSubject,
}

/// The line owed for an advisory: the evidence as its subject allows it,
/// and a subject that does not fit its evidence reported as such.
pub open spec fn advisory_line_for(subject: AdvisorySubject, evidence: AdvisoryEvidence) -> AdvisoryLine {
    match (subject, evidence) {
        (AdvisorySubject::Repository(_), AdvisoryEvidence::RepositoryRemoteCount { remote_count }) => {
            if remote_count == 0 {
                AdvisoryLine::RepositoryWithoutRemotes
            } else {
                AdvisoryLine::RepositoryRemoteCount { count: remote_count }
            }
        },
        (
            AdvisorySubject::Repository(_),
            AdvisoryEvidence::RepositoryWorktreeCount { worktree_count },
        ) => AdvisoryLine::RepositoryWorktreeCount { count: worktree_count },
        (AdvisorySubject::Worktree(_), AdvisoryEvidence::WorktreeUpstreamUnconfigured) => {
            AdvisoryLine::WorktreeUpstreamUnconfigured
        },
        (AdvisorySubject::Worktree(_), AdvisoryEvidence::KnownUpstreamDivergence { ahead, behind }) => {
            AdvisoryLine::WorktreeKnownUpstreamDivergence { ahead, behind }
        },
        _ => AdvisoryLine::InconsistentSubject,
    }
}

/// The line shown for `advisory`.
pub fn advisory_line(advisory: &Advisory) -> (line: AdvisoryLine)
    ensures
        line == advisory_line_for(advisory.spec_subject(), advisory.spec_evidence()),
{
    match (advisory.subject(), advisory.evidence()) {
        (AdvisorySubject::Repository(_), AdvisoryEvidence::RepositoryRemoteCount { remote_count }) => {
            if remote_count == 0 {
                AdvisoryLine::RepositoryWithoutRemotes
            } else {
                AdvisoryLine::RepositoryRemoteCount { count: remote_count }
            }
        },
        (
            AdvisorySubject::Repository(_),
            AdvisoryEvidence::RepositoryWorktreeCount { worktree_count },
        ) => AdvisoryLine::RepositoryWorktreeCount { count: worktree_count },
        (AdvisorySubject::Worktree(_), AdvisoryEvidence::WorktreeUpstreamUnconfigured) => {
            AdvisoryLine::WorktreeUpstreamUnconfigured
        },
        (AdvisorySubject::Worktree(_), AdvisoryEvidence::KnownUpstreamDivergence { ahead, behind }) => {
            AdvisoryLine::WorktreeKnownUpstreamDivergence { ahead, behind }
        },
        _ => AdvisoryLine::InconsistentSubject,
    }
}

/// Whether a listed repository leaves local work or remotes unknown.
pub open spec fn item_leaves_unknown(item: RepositoryListItemProjection) -> bool {
    item.spec_has_local_work() is Unknown || item.spec_has_remotes() is Unknown
}

/// Whether some listed repository leaves local work or remotes unknown,
/// which is when a list suggests refreshing.
pub fn list_has_unknown_observation_evidence(items: &[RepositoryListItemProjection]) -> (r: bool)
    ensures
        r == exists|k: int| 0 <= k < items@.len() && item_leaves_unknown(#[trigger] items@[k]),
{
    let mut index: usize = 0;
    while index < items.len()
        invariant
            index <= items@.len(),
            forall|k: int| 0 <= k < index ==> !item_leaves_unknown(#[trigger] items@[k]),
        decreases items.len() - index,
    {
        let item = &items[index];
        let local_unknown = match item.has_local_work() {
            Knowledge::Unknown => true,
            Knowledge::Known(_) => false,
        };
        let remotes_unknown = match item.has_remotes() {
            Knowledge::Unknown => true,
            Knowledge::Known(_) => false,
        };
        if local_unknown || remotes_unknown {
            assert(item_leaves_unknown(items@[index as int]));
            return true;
        }
        index = index + 1;
    }
    false
}

/// The advisories among `advisories` that carry `code`.
pub open spec fn advisories_with_code(advisories: Seq<Advisory>, code: AdvisoryCode) -> Seq<Advisory> {
    advisories.filter(|advisory: Advisory| advisory.spec_code() == code)
}

/// How many advisories carry `code`, as the overview sums them up.
pub fn advisory_count_with_code(advisories: &[Advisory], code: AdvisoryCode) -> (count: usize)
    ensures
        count == advisories_with_code(advisories@, code).len(),
{
    let ghost pred = |advisory: Advisory| advisory.spec_code() == code;
    let mut count: usize = 0;
    let mut index: usize = 0;
    proof {
        reveal(Seq::filter);
        assert(advisories@.take(0).filter(pred) =~= Seq::<Advisory>::empty());
    }
    while index < advisories.len()
        invariant
            index <= advisories@.len(),
            pred == (|advisory: Advisory| advisory.spec_code() == code),
            count == advisories@.take(index as int).filter(pred).len(),
            count <= index,
        decreases advisories.len() - index,
    {
        let ghost before = advisories@.take(index as int);
        let ghost after = advisories@.take(index + 1);
        proof {
            reveal(Seq::filter);
            assert(after.drop_last() =~= before);
            assert(after.last() == advisories@[index as int]);
        }
        if advisories[index].code() == code {
            count = count + 1;
        }
        index = index + 1;
    }
    assert(advisories@.take(advisories@.len() as int) =~= advisories@);
    count
}

} // verus!
