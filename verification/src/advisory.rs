use vstd::prelude::*;

use crate::collation::{
    compare_text, lemma_text_precedes_irreflexive, lemma_text_precedes_total,
    lemma_text_precedes_transitive, text_precedes, Precedence,
};
use crate::git::{Head, Upstream, UpstreamDivergence, UpstreamState, WorktreeGitState};
use crate::identity::{RepositoryId, WorktreeId};
use crate::observation::ObservationCoverage;
use crate::read_models::{
    ObservationStatusProjection, RepositoryDetailProjection, WorkspaceMirror, WorktreeProjection,
};
use crate::time::Timestamp;
use crate::workspace::WorkspaceRevision;

verus! {

/// The kinds of advice derived from the workspace mirror.
#[derive(Clone, Copy, Debug, PartialEq, Eq, Hash, Structural)]
pub enum AdvisoryCode {
    RepositoryWithoutRemotes,
    RepositoryHasMultipleWorktrees,
    WorktreeWithoutUpstream,
    LocalCommitsAheadOfKnownUpstream,
}

/// What an advisory is about.
#[derive(Clone, Debug, Eq, Hash)]
pub enum AdvisorySubject {
    Workspace,
    Repository(RepositoryId),
    Worktree(WorktreeId),
}

/// How fresh the evidence behind an advisory is.
#[derive(Clone, Copy, Debug, PartialEq, Eq, Structural)]
pub enum AdvisoryFreshness {
    WorkspaceRevision(WorkspaceRevision),
    ObservedAt(Timestamp),
}

/// The fact that made a rule match.
#[derive(Clone, Copy, Debug, PartialEq, Eq, Structural)]
pub enum AdvisoryEvidence {
    RepositoryRemoteCount { remote_count: usize },
    RepositoryWorktreeCount { worktree_count: usize },
    WorktreeUpstreamUnconfigured,
    KnownUpstreamDivergence { ahead: u64, behind: u64 },
}

/// Why a rule could not be decided.
#[derive(Clone, Copy, Debug, PartialEq, Eq, Structural)]
pub enum AdvisoryUnknownReason {
    MissingObservation,
    PartialObservation,
    MissingEvidence,
}

/// The identity of a rule on a subject, as it is ordered: the kind of
/// subject (workspace, repository, worktree), its identifier, and the
/// rank of the rule.
pub type AdvisoryKey = (int, Seq<char>, int);

pub open spec fn subject_rank(subject: AdvisorySubject) -> int {
    match subject {
        AdvisorySubject::Workspace => 0,
        AdvisorySubject::Repository(_) => 1,
        AdvisorySubject::Worktree(_) => 2,
    }
}

pub open spec fn subject_text(subject: AdvisorySubject) -> Seq<char> {
    match subject {
        AdvisorySubject::Workspace => Seq::empty(),
        AdvisorySubject::Repository(id) => id@,
        AdvisorySubject::Worktree(id) => id@,
    }
}

pub open spec fn code_rank(code: AdvisoryCode) -> int {
    match code {
        AdvisoryCode::RepositoryWithoutRemotes => 0,
        AdvisoryCode::RepositoryHasMultipleWorktrees => 1,
        AdvisoryCode::WorktreeWithoutUpstream => 2,
        AdvisoryCode::LocalCommitsAheadOfKnownUpstream => 3,
    }
}

pub open spec fn advisory_key(code: AdvisoryCode, subject: AdvisorySubject) -> AdvisoryKey {
    (subject_rank(subject), subject_text(subject), code_rank(code))
}

/// Subjects first (workspace, then repositories, then worktrees, each kind
/// by identifier), then rules by rank.
pub open spec fn key_precedes(a: AdvisoryKey, b: AdvisoryKey) -> bool {
    ||| a.0 < b.0
    ||| (a.0 == b.0 && text_precedes(a.1, b.1))
    ||| (a.0 == b.0 && a.1 == b.1 && a.2 < b.2)
}

pub proof fn lemma_key_precedes_irreflexive(a: AdvisoryKey)
    ensures
        !key_precedes(a, a),
{
    lemma_text_precedes_irreflexive(a.1);
}

pub proof fn lemma_key_precedes_transitive(a: AdvisoryKey, b: AdvisoryKey, c: AdvisoryKey)
    requires
        key_precedes(a, b),
        key_precedes(b, c),
    ensures
        key_precedes(a, c),
{
    if a.0 == b.0 && b.0 == c.0 && text_precedes(a.1, b.1) && text_precedes(b.1, c.1) {
        lemma_text_precedes_transitive(a.1, b.1, c.1);
    }
}

pub proof fn lemma_key_precedes_total(a: AdvisoryKey, b: AdvisoryKey)
    requires
        a != b,
    ensures
        key_precedes(a, b) || key_precedes(b, a),
{
    if a.0 == b.0 && a.1 != b.1 {
        lemma_text_precedes_total(a.1, b.1);
    }
}

impl AdvisorySubject {
    /// A copy of this subject.
    pub fn duplicate(&self) -> (subject: Self)
        ensures
            subject == *self,
    {
        match self {
            AdvisorySubject::Workspace => AdvisorySubject::Workspace,
            AdvisorySubject::Repository(id) => AdvisorySubject::Repository(id.duplicate()),
            AdvisorySubject::Worktree(id) => AdvisorySubject::Worktree(id.duplicate()),
        }
    }
}

impl PartialEq for AdvisorySubject {
    fn eq(&self, other: &Self) -> (equal: bool) {
        match (self, other) {
            (AdvisorySubject::Workspace, AdvisorySubject::Workspace) => true,
            (AdvisorySubject::Repository(a), AdvisorySubject::Repository(b)) => a == b,
            (AdvisorySubject::Worktree(a), AdvisorySubject::Worktree(b)) => a == b,
            _ => false,
        }
    }
}

impl vstd::std_specs::cmp::PartialEqSpecImpl for AdvisorySubject {
    open spec fn obeys_eq_spec() -> bool {
        true
    }

    open spec fn eq_spec(&self, other: &Self) -> bool {
        subject_rank(*self) == subject_rank(*other) && subject_text(*self) == subject_text(*other)
    }
}

fn subject_rank_of(subject: &AdvisorySubject) -> (rank: u8)
    ensures
        rank == subject_rank(*subject),
{
    match subject {
        AdvisorySubject::Workspace => 0,
        AdvisorySubject::Repository(_) => 1,
        AdvisorySubject::Worktree(_) => 2,
    }
}

fn code_rank_of(code: AdvisoryCode) -> (rank: u8)
    ensures
        rank == code_rank(code),
{
    match code {
        AdvisoryCode::RepositoryWithoutRemotes => 0,
        AdvisoryCode::RepositoryHasMultipleWorktrees => 1,
        AdvisoryCode::WorktreeWithoutUpstream => 2,
        AdvisoryCode::LocalCommitsAheadOfKnownUpstream => 3,
    }
}

/// Compares the keys of two rule outcomes in the order of [`key_precedes`].
fn compare_keys(
    code_a: AdvisoryCode,
    subject_a: &AdvisorySubject,
    code_b: AdvisoryCode,
    subject_b: &AdvisorySubject,
) -> (p: Precedence)
    ensures
        (p == Precedence::Before) == key_precedes(
            advisory_key(code_a, *subject_a),
            advisory_key(code_b, *subject_b),
        ),
        (p == Precedence::Same) == (advisory_key(code_a, *subject_a) == advisory_key(code_b, *subject_b)),
        (p == Precedence::After) == key_precedes(
            advisory_key(code_b, *subject_b),
            advisory_key(code_a, *subject_a),
        ),
{
    let ghost ka = advisory_key(code_a, *subject_a);
    let ghost kb = advisory_key(code_b, *subject_b);
    proof {
        lemma_key_precedes_irreflexive(ka);
        lemma_key_precedes_irreflexive(kb);
        lemma_text_precedes_irreflexive(ka.1);
        if key_precedes(ka, kb) && key_precedes(kb, ka) {
            lemma_key_precedes_transitive(ka, kb, ka);
        }
    }
    let rank_a = subject_rank_of(subject_a);
    let rank_b = subject_rank_of(subject_b);
    if rank_a < rank_b {
        return Precedence::Before;
    }
    if rank_a > rank_b {
        return Precedence::After;
    }
    let text_order = match (subject_a, subject_b) {
        (AdvisorySubject::Repository(a), AdvisorySubject::Repository(b)) => compare_text(
            a.as_str(),
            b.as_str(),
        ),
        (AdvisorySubject::Worktree(a), AdvisorySubject::Worktree(b)) => compare_text(
            a.as_str(),
            b.as_str(),
        ),
        _ => Precedence::Same,
    };
    match text_order {
        Precedence::Before => Precedence::Before,
        Precedence::After => Precedence::After,
        Precedence::Same => {
            let code_order_a = code_rank_of(code_a);
            let code_order_b = code_rank_of(code_b);
            if code_order_a < code_order_b {
                Precedence::Before
            } else if code_order_a > code_order_b {
                Precedence::After
            } else {
                Precedence::Same
            }
        },
    }
}

/// One piece of advice about a subject, with the evidence behind it.
#[derive(Clone, Debug, PartialEq, Eq)]
pub struct Advisory {
    code: AdvisoryCode,
    subject: AdvisorySubject,
    evidence: AdvisoryEvidence,
    freshness: AdvisoryFreshness,
}

impl Advisory {
    pub closed spec fn spec_code(&self) -> AdvisoryCode {
        self.code
    }

    pub closed spec fn spec_subject(&self) -> AdvisorySubject {
        self.subject
    }

    pub closed spec fn spec_evidence(&self) -> AdvisoryEvidence {
        self.evidence
    }

    pub closed spec fn spec_freshness(&self) -> AdvisoryFreshness {
        self.freshness
    }

    pub open spec fn spec_key(&self) -> AdvisoryKey {
        advisory_key(self.spec_code(), self.spec_subject())
    }

    /// Whether this advisory carries exactly what a matched rule found.
    pub open spec fn is_described_by(&self, evaluation: RuleEvaluation) -> bool {
        match evaluation {
            RuleEvaluation::Matched { code, subject, evidence, freshness } => {
                &&& self.spec_code() == code
                &&& self.spec_subject() == subject
                &&& self.spec_evidence() == evidence
                &&& self.spec_freshness() == freshness
            },
            _ => false,
        }
    }

    fn new(
        code: AdvisoryCode,
        subject: AdvisorySubject,
        evidence: AdvisoryEvidence,
        freshness: AdvisoryFreshness,
    ) -> (r: Self)
        ensures
            r.spec_code() == code,
            r.spec_subject() == subject,
            r.spec_evidence() == evidence,
            r.spec_freshness() == freshness,
    {
        Advisory { code, subject, evidence, freshness }
    }

    pub fn code(&self) -> (r: AdvisoryCode)
        ensures
            r == self.spec_code(),
    {
        self.code
    }

    pub fn subject(&self) -> (r: &AdvisorySubject)
        ensures
            *r == self.spec_subject(),
    {
        &self.subject
    }

    pub fn evidence(&self) -> (r: AdvisoryEvidence)
        ensures
            r == self.spec_evidence(),
    {
        self.evidence
    }

    pub fn freshness(&self) -> (r: AdvisoryFreshness)
        ensures
            r == self.spec_freshness(),
    {
        self.freshness
    }
}

/// A rule that could not be decided for a subject, and why.
#[derive(Clone, Debug, PartialEq, Eq)]
pub struct AdvisoryRuleUnknown {
    code: AdvisoryCode,
    subject: AdvisorySubject,
    reason: AdvisoryUnknownReason,
}

impl AdvisoryRuleUnknown {
    pub closed spec fn spec_code(&self) -> AdvisoryCode {
        self.code
    }

    pub closed spec fn spec_subject(&self) -> AdvisorySubject {
        self.subject
    }

    pub closed spec fn spec_reason(&self) -> AdvisoryUnknownReason {
        self.reason
    }

    pub open spec fn spec_key(&self) -> AdvisoryKey {
        advisory_key(self.spec_code(), self.spec_subject())
    }

    /// Whether this entry carries exactly what an undecided rule reported.
    pub open spec fn is_described_by(&self, evaluation: RuleEvaluation) -> bool {
        match evaluation {
            RuleEvaluation::Unknown { code, subject, reason } => {
                &&& self.spec_code() == code
                &&& self.spec_subject() == subject
                &&& self.spec_reason() == reason
            },
            _ => false,
        }
    }

    fn new(code: AdvisoryCode, subject: AdvisorySubject, reason: AdvisoryUnknownReason) -> (r: Self)
        ensures
            r.spec_code() == code,
            r.spec_subject() == subject,
            r.spec_reason() == reason,
    {
        AdvisoryRuleUnknown { code, subject, reason }
    }

    pub fn code(&self) -> (r: AdvisoryCode)
        ensures
            r == self.spec_code(),
    {
        self.code
    }

    pub fn subject(&self) -> (r: &AdvisorySubject)
        ensures
            *r == self.spec_subject(),
    {
        &self.subject
    }

    pub fn reason(&self) -> (r: AdvisoryUnknownReason)
        ensures
            r == self.spec_reason(),
    {
        self.reason
    }
}

/// The advice derived from one revision of the workspace mirror.
#[derive(Clone, Debug, PartialEq, Eq)]
pub struct AdvisoryProjection {
    revision: WorkspaceRevision,
    advisories: Vec<Advisory>,
    unknown_rules: Vec<AdvisoryRuleUnknown>,
}

impl AdvisoryProjection {
    pub closed spec fn spec_revision(&self) -> WorkspaceRevision {
        self.revision
    }

    pub closed spec fn spec_advisories(&self) -> Seq<Advisory> {
        self.advisories@
    }

    pub closed spec fn spec_unknown_rules(&self) -> Seq<AdvisoryRuleUnknown> {
        self.unknown_rules@
    }

    pub fn revision(&self) -> (r: WorkspaceRevision)
        ensures
            r == self.spec_revision(),
    {
        self.revision
    }

    pub fn advisories(&self) -> (r: &[Advisory])
        ensures
            r@ == self.spec_advisories(),
    {
        self.advisories.as_slice()
    }

    pub fn unknown_rules(&self) -> (r: &[AdvisoryRuleUnknown])
        ensures
            r@ == self.spec_unknown_rules(),
    {
        self.unknown_rules.as_slice()
    }
}

/// The outcome of one rule on one subject.
pub enum RuleEvaluation {
    Matched {
        code: AdvisoryCode,
        subject: AdvisorySubject,
        evidence: AdvisoryEvidence,
        freshness: AdvisoryFreshness,
    },
    NotMatched,
    Unknown { code: AdvisoryCode, subject: AdvisorySubject, reason: AdvisoryUnknownReason },
}

/// When the latest successful observation ran, provided it covered
/// everything; otherwise why the rule cannot be decided.
pub open spec fn observation_time(status: ObservationStatusProjection) -> Result<
    Timestamp,
    AdvisoryUnknownReason,
> {
    match status.spec_latest_success() {
        None => Err(AdvisoryUnknownReason::MissingObservation),
        Some(success) => if success.spec_coverage() == ObservationCoverage::Complete {
            Ok(success.spec_observed_at())
        } else {
            Err(AdvisoryUnknownReason::PartialObservation)
        },
    }
}

/// A repository whose remotes were observed completely and found empty.
pub open spec fn rule_repository_without_remotes(
    repository: RepositoryDetailProjection,
) -> RuleEvaluation {
    let code = AdvisoryCode::RepositoryWithoutRemotes;
    let subject = AdvisorySubject::Repository(repository.spec_id());
    match observation_time(repository.spec_remotes_observation()) {
        Err(reason) => RuleEvaluation::Unknown { code, subject, reason },
        Ok(observed_at) => match repository.spec_remotes() {
            None => RuleEvaluation::Unknown {
                code,
                subject,
                reason: AdvisoryUnknownReason::MissingEvidence,
            },
            Some(remotes) => if remotes@.len() == 0 {
                RuleEvaluation::Matched {
                    code,
                    subject,
                    evidence: AdvisoryEvidence::RepositoryRemoteCount { remote_count: 0 },
                    freshness: AdvisoryFreshness::ObservedAt(observed_at),
                }
            } else {
                RuleEvaluation::NotMatched
            },
        },
    }
}

/// A repository with more than one worktree in the catalog; this needs
/// no observation and is as fresh as the workspace revision.
pub open spec fn rule_repository_has_multiple_worktrees(
    repository: RepositoryDetailProjection,
) -> RuleEvaluation {
    let worktree_count = repository.spec_worktrees()@.len();
    if worktree_count <= 1 {
        RuleEvaluation::NotMatched
    } else {
        RuleEvaluation::Matched {
            code: AdvisoryCode::RepositoryHasMultipleWorktrees,
            subject: AdvisorySubject::Repository(repository.spec_id()),
            evidence: AdvisoryEvidence::RepositoryWorktreeCount {
                worktree_count: worktree_count as usize,
            },
            freshness: AdvisoryFreshness::WorkspaceRevision(repository.spec_revision()),
        }
    }
}

/// A worktree on a branch (born or unborn) whose upstream is not configured.
pub open spec fn rule_worktree_without_upstream(worktree: WorktreeProjection) -> RuleEvaluation {
    let code = AdvisoryCode::WorktreeWithoutUpstream;
    let subject = AdvisorySubject::Worktree(worktree.spec_id());
    let missing = RuleEvaluation::Unknown {
        code,
        subject,
        reason: AdvisoryUnknownReason::MissingEvidence,
    };
    match observation_time(worktree.spec_observation()) {
        Err(reason) => RuleEvaluation::Unknown { code, subject, reason },
        Ok(observed_at) => match worktree.spec_git_state() {
            None => missing,
            Some(state) => match state.spec_head() {
                Head::Detached => RuleEvaluation::NotMatched,
                _ => match state.spec_upstream() {
                    Some(UpstreamState::Unconfigured) => RuleEvaluation::Matched {
                        code,
                        subject,
                        evidence: AdvisoryEvidence::WorktreeUpstreamUnconfigured,
                        freshness: AdvisoryFreshness::ObservedAt(observed_at),
                    },
                    Some(_) => RuleEvaluation::NotMatched,
                    None => missing,
                },
            },
        },
    }
}

/// A worktree tracking an upstream that it is known to be ahead of.
pub open spec fn rule_local_commits_ahead_of_known_upstream(
    worktree: WorktreeProjection,
) -> RuleEvaluation {
    let code = AdvisoryCode::LocalCommitsAheadOfKnownUpstream;
    let subject = AdvisorySubject::Worktree(worktree.spec_id());
    let missing = RuleEvaluation::Unknown {
        code,
        subject,
        reason: AdvisoryUnknownReason::MissingEvidence,
    };
    match observation_time(worktree.spec_observation()) {
        Err(reason) => RuleEvaluation::Unknown { code, subject, reason },
        Ok(observed_at) => match worktree.spec_git_state() {
            None => missing,
            Some(state) => match state.spec_upstream() {
                None => match state.spec_head() {
                    Head::Detached => RuleEvaluation::NotMatched,
                    _ => missing,
                },
                Some(UpstreamState::Tracking { upstream, divergence }) => if divergence.spec_ahead()
                    == 0 {
                    RuleEvaluation::NotMatched
                } else {
                    RuleEvaluation::Matched {
                        code,
                        subject,
                        evidence: AdvisoryEvidence::KnownUpstreamDivergence {
                            ahead: divergence.spec_ahead(),
                            behind: divergence.spec_behind(),
                        },
                        freshness: AdvisoryFreshness::ObservedAt(observed_at),
                    }
                },
                Some(_) => RuleEvaluation::NotMatched,
            },
        },
    }
}

/// The outcomes of the worktree rules, worktree by worktree.
pub open spec fn worktree_evaluations(worktrees: Seq<WorktreeProjection>) -> Seq<RuleEvaluation>
    decreases worktrees.len(),
{
    if worktrees.len() == 0 {
        Seq::empty()
    } else {
        worktree_evaluations(worktrees.drop_last()) + seq![
            rule_worktree_without_upstream(worktrees.last()),
            rule_local_commits_ahead_of_known_upstream(worktrees.last()),
        ]
    }
}

/// The outcomes of the rules on one repository and then on its worktrees.
pub open spec fn repository_evaluations(repository: RepositoryDetailProjection) -> Seq<
    RuleEvaluation,
> {
    seq![
        rule_repository_without_remotes(repository),
        rule_repository_has_multiple_worktrees(repository),
    ] + worktree_evaluations(repository.spec_worktrees()@)
}

/// The outcomes of all rules, in the order of the mirror's repositories.
pub open spec fn mirror_evaluations(repositories: Seq<RepositoryDetailProjection>) -> Seq<
    RuleEvaluation,
>
    decreases repositories.len(),
{
    if repositories.len() == 0 {
        Seq::empty()
    } else {
        mirror_evaluations(repositories.drop_last()) + repository_evaluations(repositories.last())
    }
}

pub open spec fn matched_under(evaluation: RuleEvaluation, key: AdvisoryKey) -> bool {
    evaluation matches RuleEvaluation::Matched { code, subject, .. } && advisory_key(code, subject)
        == key
}

pub open spec fn unknown_under(evaluation: RuleEvaluation, key: AdvisoryKey) -> bool {
    evaluation matches RuleEvaluation::Unknown { code, subject, .. } && advisory_key(code, subject)
        == key
}

/// The earliest outcome that matched under the key.
pub open spec fn first_match(evaluations: Seq<RuleEvaluation>, key: AdvisoryKey) -> Option<
    RuleEvaluation,
>
    decreases evaluations.len(),
{
    if evaluations.len() == 0 {
        None
    } else {
        match first_match(evaluations.drop_last(), key) {
            Some(found) => Some(found),
            None => if matched_under(evaluations.last(), key) {
                Some(evaluations.last())
            } else {
                None
            },
        }
    }
}

/// The earliest outcome that was undecided under the key.
pub open spec fn first_unknown(evaluations: Seq<RuleEvaluation>, key: AdvisoryKey) -> Option<
    RuleEvaluation,
>
    decreases evaluations.len(),
{
    if evaluations.len() == 0 {
        None
    } else {
        match first_unknown(evaluations.drop_last(), key) {
            Some(found) => Some(found),
            None => if unknown_under(evaluations.last(), key) {
                Some(evaluations.last())
            } else {
                None
            },
        }
    }
}

pub open spec fn advisories_in_order(advisories: Seq<Advisory>) -> bool {
    forall|i: int, j: int|
        0 <= i < j < advisories.len() ==> key_precedes(
            #[trigger] advisories[i].spec_key(),
            #[trigger] advisories[j].spec_key(),
        )
}

pub open spec fn unknowns_in_order(unknowns: Seq<AdvisoryRuleUnknown>) -> bool {
    forall|i: int, j: int|
        0 <= i < j < unknowns.len() ==> key_precedes(
            #[trigger] unknowns[i].spec_key(),
            #[trigger] unknowns[j].spec_key(),
        )
}

/// The advisories of a sequence of outcomes: one per key that some outcome
/// matched, carrying the earliest match, in key order.
pub open spec fn advisories_accumulated(
    evaluations: Seq<RuleEvaluation>,
    advisories: Seq<Advisory>,
) -> bool {
    &&& advisories_in_order(advisories)
    &&& forall|i: int|
        0 <= i < advisories.len() ==> match first_match(
            evaluations,
            #[trigger] advisories[i].spec_key(),
        ) {
            Some(found) => advisories[i].is_described_by(found),
            None => false,
        }
    &&& forall|key: AdvisoryKey| #[trigger]
        first_match(evaluations, key) is Some ==> exists|i: int|
            0 <= i < advisories.len() && #[trigger] advisories[i].spec_key() == key
}

/// The undecided rules of a sequence of outcomes: one per key that no
/// outcome matched and some outcome left undecided, carrying the earliest
/// such outcome, in key order.
pub open spec fn unknowns_accumulated(
    evaluations: Seq<RuleEvaluation>,
    unknowns: Seq<AdvisoryRuleUnknown>,
) -> bool {
    &&& unknowns_in_order(unknowns)
    &&& forall|i: int|
        0 <= i < unknowns.len() ==> first_match(evaluations, #[trigger] unknowns[i].spec_key())
            is None && match first_unknown(evaluations, unknowns[i].spec_key()) {
            Some(found) => unknowns[i].is_described_by(found),
            None => false,
        }
    &&& forall|key: AdvisoryKey|
        first_match(evaluations, key) is None && #[trigger] first_unknown(evaluations, key) is Some
            ==> exists|i: int| 0 <= i < unknowns.len() && #[trigger] unknowns[i].spec_key() == key
}

proof fn lemma_first_match_push(evaluations: Seq<RuleEvaluation>, e: RuleEvaluation, key: AdvisoryKey)
    ensures
        first_match(evaluations.push(e), key) == match first_match(evaluations, key) {
            Some(found) => Some(found),
            None => if matched_under(e, key) {
                Some(e)
            } else {
                None
            },
        },
        first_unknown(evaluations.push(e), key) == match first_unknown(evaluations, key) {
            Some(found) => Some(found),
            None => if unknown_under(e, key) {
                Some(e)
            } else {
                None
            },
        },
{
    assert(evaluations.push(e).drop_last() =~= evaluations);
}

/// Outcomes that add no new key leave the accumulated advice as it was.
proof fn lemma_accumulated_unchanged(
    evaluations: Seq<RuleEvaluation>,
    e: RuleEvaluation,
    advisories: Seq<Advisory>,
    unknowns: Seq<AdvisoryRuleUnknown>,
)
    requires
        advisories_accumulated(evaluations, advisories),
        unknowns_accumulated(evaluations, unknowns),
        forall|key: AdvisoryKey|
            #[trigger] first_match(evaluations.push(e), key) == first_match(evaluations, key),
        forall|key: AdvisoryKey|
            first_match(evaluations, key) is None ==> #[trigger] first_unknown(
                evaluations.push(e),
                key,
            ) == first_unknown(evaluations, key),
    ensures
        advisories_accumulated(evaluations.push(e), advisories),
        unknowns_accumulated(evaluations.push(e), unknowns),
{
    let next = evaluations.push(e);
    assert forall|i: int| 0 <= i < advisories.len() implies match first_match(
        next,
        #[trigger] advisories[i].spec_key(),
    ) {
        Some(found) => advisories[i].is_described_by(found),
        None => false,
    } by {
        assert(first_match(next, advisories[i].spec_key()) == first_match(
            evaluations,
            advisories[i].spec_key(),
        ));
    }
    assert forall|key: AdvisoryKey| #[trigger] first_match(next, key) is Some implies exists|i: int|
        0 <= i < advisories.len() && #[trigger] advisories[i].spec_key() == key by {
        assert(first_match(evaluations, key) is Some);
    }
    assert forall|i: int| 0 <= i < unknowns.len() implies first_match(
        next,
        #[trigger] unknowns[i].spec_key(),
    ) is None && match first_unknown(next, unknowns[i].spec_key()) {
        Some(found) => unknowns[i].is_described_by(found),
        None => false,
    } by {
        let key = unknowns[i].spec_key();
        assert(first_match(next, key) == first_match(evaluations, key));
        assert(first_unknown(next, key) == first_unknown(evaluations, key));
    }
    assert forall|key: AdvisoryKey|
        first_match(next, key) is None && #[trigger] first_unknown(next, key)
            is Some implies exists|i: int|
        0 <= i < unknowns.len() && #[trigger] unknowns[i].spec_key() == key by {
        assert(first_match(next, key) == first_match(evaluations, key));
        assert(first_unknown(next, key) == first_unknown(evaluations, key));
    }
}

/// A match under a new key adds its advisory at its place in key order.
proof fn lemma_advisory_added(
    evaluations: Seq<RuleEvaluation>,
    e: RuleEvaluation,
    advisories: Seq<Advisory>,
    position: int,
    advisory: Advisory,
)
    requires
        advisories_accumulated(evaluations, advisories),
        advisory.is_described_by(e),
        first_match(evaluations, advisory.spec_key()) is None,
        0 <= position <= advisories.len(),
        forall|i: int|
            0 <= i < position ==> key_precedes(
                #[trigger] advisories[i].spec_key(),
                advisory.spec_key(),
            ),
        forall|i: int|
            position <= i < advisories.len() ==> key_precedes(
                advisory.spec_key(),
                #[trigger] advisories[i].spec_key(),
            ),
    ensures
        advisories_accumulated(evaluations.push(e), advisories.insert(position, advisory)),
{
    let next = evaluations.push(e);
    let added = advisories.insert(position, advisory);
    let k = advisory.spec_key();
    assert(matched_under(e, k));
    assert forall|i: int, j: int| 0 <= i < j < added.len() implies key_precedes(
        #[trigger] added[i].spec_key(),
        #[trigger] added[j].spec_key(),
    ) by {
        if j < position {
        } else if j == position {
        } else if i < position {
            assert(added[j] == advisories[j - 1]);
            assert(key_precedes(advisories[i].spec_key(), advisories[j - 1].spec_key()));
        } else if i == position {
            assert(added[j] == advisories[j - 1]);
        } else {
            assert(added[i] == advisories[i - 1]);
            assert(added[j] == advisories[j - 1]);
            assert(key_precedes(advisories[i - 1].spec_key(), advisories[j - 1].spec_key()));
        }
    }
    assert forall|i: int| 0 <= i < added.len() implies match first_match(
        next,
        #[trigger] added[i].spec_key(),
    ) {
        Some(found) => added[i].is_described_by(found),
        None => false,
    } by {
        let key = added[i].spec_key();
        lemma_first_match_push(evaluations, e, key);
        if i == position {
        } else {
            let m = if i < position {
                i
            } else {
                i - 1
            };
            assert(added[i] == advisories[m]);
            assert(match first_match(evaluations, advisories[m].spec_key()) {
                Some(found) => advisories[m].is_described_by(found),
                None => false,
            });
        }
    }
    assert forall|key: AdvisoryKey| #[trigger] first_match(next, key) is Some implies exists|i: int|
        0 <= i < added.len() && #[trigger] added[i].spec_key() == key by {
        lemma_first_match_push(evaluations, e, key);
        if first_match(evaluations, key) is Some {
            let m = choose|m: int| 0 <= m < advisories.len() && #[trigger] advisories[m].spec_key() == key;
            if m < position {
                assert(added[m] == advisories[m]);
            } else {
                assert(added[m + 1] == advisories[m]);
            }
        } else {
            assert(added[position] == advisory);
        }
    }
}

/// A match under a new key drops the undecided entry under that key.
proof fn lemma_unknown_superseded(
    evaluations: Seq<RuleEvaluation>,
    e: RuleEvaluation,
    unknowns: Seq<AdvisoryRuleUnknown>,
    remaining: Seq<AdvisoryRuleUnknown>,
    k: AdvisoryKey,
    position: int,
    found: bool,
)
    requires
        unknowns_accumulated(evaluations, unknowns),
        matched_under(e, k),
        found ==> 0 <= position < unknowns.len() && unknowns[position].spec_key() == k
            && remaining == unknowns.remove(position),
        !found ==> remaining == unknowns && forall|i: int|
            0 <= i < unknowns.len() ==> #[trigger] unknowns[i].spec_key() != k,
    ensures
        unknowns_accumulated(evaluations.push(e), remaining),
{
    let next = evaluations.push(e);
    assert forall|i: int| 0 <= i < remaining.len() implies #[trigger] remaining[i].spec_key() != k
        && (found ==> remaining[i] == unknowns[if i < position {
        i
    } else {
        i + 1
    }]) by {
        if found {
            let m = if i < position {
                i
            } else {
                i + 1
            };
            assert(remaining[i] == unknowns[m]);
            if m < position {
                assert(key_precedes(unknowns[m].spec_key(), unknowns[position].spec_key()));
            } else {
                assert(key_precedes(unknowns[position].spec_key(), unknowns[m].spec_key()));
            }
            lemma_key_precedes_irreflexive(k);
        }
    }
    assert forall|i: int, j: int| 0 <= i < j < remaining.len() implies key_precedes(
        #[trigger] remaining[i].spec_key(),
        #[trigger] remaining[j].spec_key(),
    ) by {
        if found {
            let mi = if i < position {
                i
            } else {
                i + 1
            };
            let mj = if j < position {
                j
            } else {
                j + 1
            };
            assert(key_precedes(unknowns[mi].spec_key(), unknowns[mj].spec_key()));
        }
    }
    assert forall|i: int| 0 <= i < remaining.len() implies first_match(
        next,
        #[trigger] remaining[i].spec_key(),
    ) is None && match first_unknown(next, remaining[i].spec_key()) {
        Some(found) => remaining[i].is_described_by(found),
        None => false,
    } by {
        let key = remaining[i].spec_key();
        lemma_first_match_push(evaluations, e, key);
        let m = if found && i >= position {
            i + 1
        } else {
            i
        };
        assert(remaining[i] == unknowns[m]);
        assert(first_match(evaluations, unknowns[m].spec_key()) is None);
    }
    assert forall|key: AdvisoryKey|
        first_match(next, key) is None && #[trigger] first_unknown(next, key)
            is Some implies exists|i: int|
        0 <= i < remaining.len() && #[trigger] remaining[i].spec_key() == key by {
        lemma_first_match_push(evaluations, e, key);
        assert(key != k);
        assert(first_unknown(evaluations, key) is Some);
        let m = choose|m: int| 0 <= m < unknowns.len() && #[trigger] unknowns[m].spec_key() == key;
        if found {
            if m < position {
                assert(remaining[m] == unknowns[m]);
            } else {
                assert(m != position);
                assert(remaining[m - 1] == unknowns[m]);
            }
        } else {
            assert(remaining[m] == unknowns[m]);
        }
    }
}

/// An undecided outcome under a key that is neither matched nor already
/// undecided adds its entry at its place in key order.
proof fn lemma_unknown_added(
    evaluations: Seq<RuleEvaluation>,
    e: RuleEvaluation,
    unknowns: Seq<AdvisoryRuleUnknown>,
    position: int,
    unknown: AdvisoryRuleUnknown,
)
    requires
        unknowns_accumulated(evaluations, unknowns),
        unknown.is_described_by(e),
        first_match(evaluations, unknown.spec_key()) is None,
        first_unknown(evaluations, unknown.spec_key()) is None,
        0 <= position <= unknowns.len(),
        forall|i: int|
            0 <= i < position ==> key_precedes(#[trigger] unknowns[i].spec_key(), unknown.spec_key()),
        forall|i: int|
            position <= i < unknowns.len() ==> key_precedes(
                unknown.spec_key(),
                #[trigger] unknowns[i].spec_key(),
            ),
    ensures
        unknowns_accumulated(evaluations.push(e), unknowns.insert(position, unknown)),
{
    let next = evaluations.push(e);
    let added = unknowns.insert(position, unknown);
    let k = unknown.spec_key();
    assert(unknown_under(e, k));
    assert forall|i: int, j: int| 0 <= i < j < added.len() implies key_precedes(
        #[trigger] added[i].spec_key(),
        #[trigger] added[j].spec_key(),
    ) by {
        if j < position {
        } else if j == position {
        } else if i < position {
            assert(added[j] == unknowns[j - 1]);
            assert(key_precedes(unknowns[i].spec_key(), unknowns[j - 1].spec_key()));
        } else if i == position {
            assert(added[j] == unknowns[j - 1]);
        } else {
            assert(added[i] == unknowns[i - 1]);
            assert(added[j] == unknowns[j - 1]);
            assert(key_precedes(unknowns[i - 1].spec_key(), unknowns[j - 1].spec_key()));
        }
    }
    assert forall|i: int| 0 <= i < added.len() implies first_match(
        next,
        #[trigger] added[i].spec_key(),
    ) is None && match first_unknown(next, added[i].spec_key()) {
        Some(found) => added[i].is_described_by(found),
        None => false,
    } by {
        let key = added[i].spec_key();
        lemma_first_match_push(evaluations, e, key);
        if i != position {
            let m = if i < position {
                i
            } else {
                i - 1
            };
            assert(added[i] == unknowns[m]);
            assert(first_match(evaluations, unknowns[m].spec_key()) is None);
        }
    }
    assert forall|key: AdvisoryKey|
        first_match(next, key) is None && #[trigger] first_unknown(next, key)
            is Some implies exists|i: int|
        0 <= i < added.len() && #[trigger] added[i].spec_key() == key by {
        lemma_first_match_push(evaluations, e, key);
        if first_unknown(evaluations, key) is Some {
            let m = choose|m: int| 0 <= m < unknowns.len() && #[trigger] unknowns[m].spec_key() == key;
            if m < position {
                assert(added[m] == unknowns[m]);
            } else {
                assert(added[m + 1] == unknowns[m]);
            }
        } else {
            assert(added[position] == unknown);
        }
    }
}

/// An undecided outcome never changes which keys matched.
proof fn lemma_advisories_kept(
    evaluations: Seq<RuleEvaluation>,
    e: RuleEvaluation,
    advisories: Seq<Advisory>,
)
    requires
        advisories_accumulated(evaluations, advisories),
        !(e is Matched),
    ensures
        advisories_accumulated(evaluations.push(e), advisories),
{
    let next = evaluations.push(e);
    assert forall|i: int| 0 <= i < advisories.len() implies match first_match(
        next,
        #[trigger] advisories[i].spec_key(),
    ) {
        Some(found) => advisories[i].is_described_by(found),
        None => false,
    } by {
        lemma_first_match_push(evaluations, e, advisories[i].spec_key());
    }
    assert forall|key: AdvisoryKey| #[trigger] first_match(next, key) is Some implies exists|i: int|
        0 <= i < advisories.len() && #[trigger] advisories[i].spec_key() == key by {
        lemma_first_match_push(evaluations, e, key);
    }
}

fn complete_observation_time(status: &ObservationStatusProjection) -> (r: Result<
    Timestamp,
    AdvisoryUnknownReason,
>)
    ensures
        r == observation_time(*status),
{
    match status.latest_success() {
        None => Err(AdvisoryUnknownReason::MissingObservation),
        Some(success) => {
            if success.coverage() != ObservationCoverage::Complete {
                Err(AdvisoryUnknownReason::PartialObservation)
            } else {
                Ok(success.observed_at())
            }
        },
    }
}

fn repository_without_remotes(repository: &RepositoryDetailProjection) -> (r: RuleEvaluation)
    ensures
        r == rule_repository_without_remotes(*repository),
{
    let code = AdvisoryCode::RepositoryWithoutRemotes;
    let subject = AdvisorySubject::Repository(repository.id().duplicate());
    let observed_at = match complete_observation_time(repository.remotes_observation()) {
        Ok(observed_at) => observed_at,
        Err(reason) => {
            return RuleEvaluation::Unknown { code, subject, reason };
        },
    };
    match repository.remotes() {
        None => RuleEvaluation::Unknown {
            code,
            subject,
            reason: AdvisoryUnknownReason::MissingEvidence,
        },
        Some(remotes) => {
            if remotes.len() == 0 {
                RuleEvaluation::Matched {
                    code,
                    subject,
                    evidence: AdvisoryEvidence::RepositoryRemoteCount { remote_count: 0 },
                    freshness: AdvisoryFreshness::ObservedAt(observed_at),
                }
            } else {
                RuleEvaluation::NotMatched
            }
        },
    }
}

fn repository_has_multiple_worktrees(repository: &RepositoryDetailProjection) -> (r: RuleEvaluation)
    ensures
        r == rule_repository_has_multiple_worktrees(*repository),
{
    let worktree_count = repository.worktrees().len();
    if worktree_count <= 1 {
        return RuleEvaluation::NotMatched;
    }
    RuleEvaluation::Matched {
        code: AdvisoryCode::RepositoryHasMultipleWorktrees,
        subject: AdvisorySubject::Repository(repository.id().duplicate()),
        evidence: AdvisoryEvidence::RepositoryWorktreeCount { worktree_count },
        freshness: AdvisoryFreshness::WorkspaceRevision(repository.revision()),
    }
}

fn worktree_without_upstream(worktree: &WorktreeProjection) -> (r: RuleEvaluation)
    ensures
        r == rule_worktree_without_upstream(*worktree),
{
    let code = AdvisoryCode::WorktreeWithoutUpstream;
    let subject = AdvisorySubject::Worktree(worktree.id().duplicate());
    let observed_at = match complete_observation_time(worktree.observation()) {
        Ok(observed_at) => observed_at,
        Err(reason) => {
            return RuleEvaluation::Unknown { code, subject, reason };
        },
    };
    let state = match worktree.git_state() {
        Some(state) => state,
        None => {
            return RuleEvaluation::Unknown {
                code,
                subject,
                reason: AdvisoryUnknownReason::MissingEvidence,
            };
        },
    };
    match state.head() {
        Head::Detached => RuleEvaluation::NotMatched,
        Head::Unborn(_) | Head::Branch(_) => match state.upstream() {
            Some(UpstreamState::Unconfigured) => RuleEvaluation::Matched {
                code,
                subject,
                evidence: AdvisoryEvidence::WorktreeUpstreamUnconfigured,
                freshness: AdvisoryFreshness::ObservedAt(observed_at),
            },
            Some(UpstreamState::Gone(_)) | Some(UpstreamState::Tracking { .. }) => {
                RuleEvaluation::NotMatched
            },
            None => RuleEvaluation::Unknown {
                code,
                subject,
                reason: AdvisoryUnknownReason::MissingEvidence,
            },
        },
    }
}

fn local_commits_ahead_of_known_upstream(worktree: &WorktreeProjection) -> (r: RuleEvaluation)
    ensures
        r == rule_local_commits_ahead_of_known_upstream(*worktree),
{
    let code = AdvisoryCode::LocalCommitsAheadOfKnownUpstream;
    let subject = AdvisorySubject::Worktree(worktree.id().duplicate());
    let observed_at = match complete_observation_time(worktree.observation()) {
        Ok(observed_at) => observed_at,
        Err(reason) => {
            return RuleEvaluation::Unknown { code, subject, reason };
        },
    };
    let state = match worktree.git_state() {
        Some(state) => state,
        None => {
            return RuleEvaluation::Unknown {
                code,
                subject,
                reason: AdvisoryUnknownReason::MissingEvidence,
            };
        },
    };
    let upstream = match state.upstream() {
        Some(upstream) => upstream,
        None => {
            return match state.head() {
                Head::Detached => RuleEvaluation::NotMatched,
                Head::Unborn(_) | Head::Branch(_) => RuleEvaluation::Unknown {
                    code,
                    subject,
                    reason: AdvisoryUnknownReason::MissingEvidence,
                },
            };
        },
    };
    match upstream {
        UpstreamState::Tracking { divergence, .. } => {
            if divergence.ahead() == 0 {
                RuleEvaluation::NotMatched
            } else {
                RuleEvaluation::Matched {
                    code,
                    subject,
                    evidence: AdvisoryEvidence::KnownUpstreamDivergence {
                        ahead: divergence.ahead(),
                        behind: divergence.behind(),
                    },
                    freshness: AdvisoryFreshness::ObservedAt(observed_at),
                }
            }
        },
        _ => RuleEvaluation::NotMatched,
    }
}

/// Where the key falls among advisories in key order: at an entry with the
/// same key, or at the place where such an entry would go.
fn locate_advisory(advisories: &Vec<Advisory>, code: AdvisoryCode, subject: &AdvisorySubject) -> (r: (
    usize,
    bool,
))
    requires
        advisories_in_order(advisories@),
    ensures
        r.0 <= advisories@.len(),
        r.1 ==> r.0 < advisories@.len() && advisories@[r.0 as int].spec_key() == advisory_key(
            code,
            *subject,
        ),
        !r.1 ==> forall|i: int|
            0 <= i < r.0 ==> key_precedes(
                #[trigger] advisories@[i].spec_key(),
                advisory_key(code, *subject),
            ),
        !r.1 ==> forall|i: int|
            r.0 <= i < advisories@.len() ==> key_precedes(
                advisory_key(code, *subject),
                #[trigger] advisories@[i].spec_key(),
            ),
{
    let ghost key = advisory_key(code, *subject);
    let mut i: usize = 0;
    while i < advisories.len()
        invariant
            i <= advisories@.len(),
            advisories_in_order(advisories@),
            key == advisory_key(code, *subject),
            forall|j: int| 0 <= j < i ==> key_precedes(#[trigger] advisories@[j].spec_key(), key),
        decreases advisories@.len() - i,
    {
        let entry = &advisories[i];
        match compare_keys(entry.code(), entry.subject(), code, subject) {
            Precedence::Before => {
                i = i + 1;
            },
            Precedence::Same => {
                return (i, true);
            },
            Precedence::After => {
                proof {
                    assert forall|j: int| i <= j < advisories@.len() implies key_precedes(
                        key,
                        #[trigger] advisories@[j].spec_key(),
                    ) by {
                        if j > i {
                            lemma_key_precedes_transitive(
                                key,
                                advisories@[i as int].spec_key(),
                                advisories@[j].spec_key(),
                            );
                        }
                    }
                }
                return (i, false);
            },
        }
    }
    (i, false)
}

/// Where the key falls among undecided rules in key order.
fn locate_unknown(
    unknowns: &Vec<AdvisoryRuleUnknown>,
    code: AdvisoryCode,
    subject: &AdvisorySubject,
) -> (r: (usize, bool))
    requires
        unknowns_in_order(unknowns@),
    ensures
        r.0 <= unknowns@.len(),
        r.1 ==> r.0 < unknowns@.len() && unknowns@[r.0 as int].spec_key() == advisory_key(
            code,
            *subject,
        ),
        !r.1 ==> forall|i: int|
            0 <= i < r.0 ==> key_precedes(
                #[trigger] unknowns@[i].spec_key(),
                advisory_key(code, *subject),
            ),
        !r.1 ==> forall|i: int|
            r.0 <= i < unknowns@.len() ==> key_precedes(
                advisory_key(code, *subject),
                #[trigger] unknowns@[i].spec_key(),
            ),
{
    let ghost key = advisory_key(code, *subject);
    let mut i: usize = 0;
    while i < unknowns.len()
        invariant
            i <= unknowns@.len(),
            unknowns_in_order(unknowns@),
            key == advisory_key(code, *subject),
            forall|j: int| 0 <= j < i ==> key_precedes(#[trigger] unknowns@[j].spec_key(), key),
        decreases unknowns@.len() - i,
    {
        let entry = &unknowns[i];
        match compare_keys(entry.code(), entry.subject(), code, subject) {
            Precedence::Before => {
                i = i + 1;
            },
            Precedence::Same => {
                return (i, true);
            },
            Precedence::After => {
                proof {
                    assert forall|j: int| i <= j < unknowns@.len() implies key_precedes(
                        key,
                        #[trigger] unknowns@[j].spec_key(),
                    ) by {
                        if j > i {
                            lemma_key_precedes_transitive(
                                key,
                                unknowns@[i as int].spec_key(),
                                unknowns@[j].spec_key(),
                            );
                        }
                    }
                }
                return (i, false);
            },
        }
    }
    (i, false)
}

/// The advice gathered so far, one entry per key, kept in key order.
struct AdvisoryAccumulator {
    advisories: Vec<Advisory>,
    unknown_rules: Vec<AdvisoryRuleUnknown>,
}

impl AdvisoryAccumulator {
    /// Adds one rule outcome: a match under a new key becomes an advisory
    /// and settles any undecided entry under that key; an undecided outcome
    /// is kept only under a key that has neither.
    fn record(&mut self, evaluation: RuleEvaluation, Ghost(evaluations): Ghost<Seq<RuleEvaluation>>)
        requires
            advisories_accumulated(evaluations, old(self).advisories@),
            unknowns_accumulated(evaluations, old(self).unknown_rules@),
        ensures
            advisories_accumulated(evaluations.push(evaluation), final(self).advisories@),
            unknowns_accumulated(evaluations.push(evaluation), final(self).unknown_rules@),
    {
        let ghost e = evaluation;
        match evaluation {
            RuleEvaluation::Matched { code, subject, evidence, freshness } => {
                let ghost k = advisory_key(code, subject);
                let (position, found) = locate_advisory(&self.advisories, code, &subject);
                if found {
                    proof {
                        let key_at = self.advisories@[position as int].spec_key();
                        assert(first_match(evaluations, key_at) is Some);
                        assert forall|key: AdvisoryKey| #[trigger]
                            first_match(evaluations.push(e), key) == first_match(evaluations, key)
                            by {
                            lemma_first_match_push(evaluations, e, key);
                        }
                        assert forall|key: AdvisoryKey|
                            first_match(evaluations, key) is None implies #[trigger] first_unknown(
                            evaluations.push(e),
                            key,
                        ) == first_unknown(evaluations, key) by {
                            lemma_first_match_push(evaluations, e, key);
                        }
                        lemma_accumulated_unchanged(
                            evaluations,
                            e,
                            self.advisories@,
                            self.unknown_rules@,
                        );
                    }
                } else {
                    proof {
                        lemma_key_precedes_irreflexive(k);
                        if first_match(evaluations, k) is Some {
                            let m = choose|m: int|
                                0 <= m < self.advisories@.len()
                                    && #[trigger] self.advisories@[m].spec_key() == k;
                            if m < position {
                                assert(key_precedes(self.advisories@[m].spec_key(), k));
                            } else {
                                assert(key_precedes(k, self.advisories@[m].spec_key()));
                            }
                        }
                    }
                    let ghost old_unknowns = self.unknown_rules@;
                    let (u_position, u_found) = locate_unknown(&self.unknown_rules, code, &subject);
                    if u_found {
                        self.unknown_rules.remove(u_position);
                    }
                    proof {
                        if !u_found {
                            assert forall|i: int| 0 <= i < old_unknowns.len() implies #[trigger]
                                old_unknowns[i].spec_key() != k by {
                                if i < u_position {
                                    assert(key_precedes(old_unknowns[i].spec_key(), k));
                                } else {
                                    assert(key_precedes(k, old_unknowns[i].spec_key()));
                                }
                            }
                        }
                        lemma_unknown_superseded(
                            evaluations,
                            e,
                            old_unknowns,
                            self.unknown_rules@,
                            k,
                            u_position as int,
                            u_found,
                        );
                    }
                    let ghost old_advisories = self.advisories@;
                    let advisory = Advisory::new(code, subject, evidence, freshness);
                    proof {
                        lemma_advisory_added(
                            evaluations,
                            e,
                            old_advisories,
                            position as int,
                            advisory,
                        );
                    }
                    self.advisories.insert(position, advisory);
                }
            },
            RuleEvaluation::NotMatched => {
                proof {
                    assert forall|key: AdvisoryKey| #[trigger]
                        first_match(evaluations.push(e), key) == first_match(evaluations, key) by {
                        lemma_first_match_push(evaluations, e, key);
                    }
                    assert forall|key: AdvisoryKey|
                        first_match(evaluations, key) is None implies #[trigger] first_unknown(
                        evaluations.push(e),
                        key,
                    ) == first_unknown(evaluations, key) by {
                        lemma_first_match_push(evaluations, e, key);
                    }
                    lemma_accumulated_unchanged(
                        evaluations,
                        e,
                        self.advisories@,
                        self.unknown_rules@,
                    );
                }
            },
            RuleEvaluation::Unknown { code, subject, reason } => {
                let ghost k = advisory_key(code, subject);
                proof {
                    lemma_advisories_kept(evaluations, e, self.advisories@);
                    lemma_key_precedes_irreflexive(k);
                }
                let (position, found) = locate_advisory(&self.advisories, code, &subject);
                if found {
                    proof {
                        let key_at = self.advisories@[position as int].spec_key();
                        assert(first_match(evaluations, key_at) is Some);
                        assert forall|key: AdvisoryKey| #[trigger]
                            first_match(evaluations.push(e), key) == first_match(evaluations, key)
                            by {
                            lemma_first_match_push(evaluations, e, key);
                        }
                        assert forall|key: AdvisoryKey|
                            first_match(evaluations, key) is None implies #[trigger] first_unknown(
                            evaluations.push(e),
                            key,
                        ) == first_unknown(evaluations, key) by {
                            lemma_first_match_push(evaluations, e, key);
                        }
                        lemma_accumulated_unchanged(
                            evaluations,
                            e,
                            self.advisories@,
                            self.unknown_rules@,
                        );
                    }
                } else {
                    proof {
                        if first_match(evaluations, k) is Some {
                            let m = choose|m: int|
                                0 <= m < self.advisories@.len()
                                    && #[trigger] self.advisories@[m].spec_key() == k;
                            if m < position {
                                assert(key_precedes(self.advisories@[m].spec_key(), k));
                            } else {
                                assert(key_precedes(k, self.advisories@[m].spec_key()));
                            }
                        }
                    }
                    let (u_position, u_found) = locate_unknown(&self.unknown_rules, code, &subject);
                    if u_found {
                        proof {
                            let key_at = self.unknown_rules@[u_position as int].spec_key();
                            assert(first_unknown(evaluations, key_at) is Some);
                            assert forall|key: AdvisoryKey| #[trigger]
                                first_match(evaluations.push(e), key) == first_match(
                                    evaluations,
                                    key,
                                ) by {
                                lemma_first_match_push(evaluations, e, key);
                            }
                            assert forall|key: AdvisoryKey|
                                first_match(evaluations, key) is None implies #[trigger]
                                first_unknown(evaluations.push(e), key) == first_unknown(
                                evaluations,
                                key,
                            ) by {
                                lemma_first_match_push(evaluations, e, key);
                            }
                            lemma_accumulated_unchanged(
                                evaluations,
                                e,
                                self.advisories@,
                                self.unknown_rules@,
                            );
                        }
                    } else {
                        proof {
                            if first_unknown(evaluations, k) is Some {
                                let m = choose|m: int|
                                    0 <= m < self.unknown_rules@.len()
                                        && #[trigger] self.unknown_rules@[m].spec_key() == k;
                                if m < u_position {
                                    assert(key_precedes(self.unknown_rules@[m].spec_key(), k));
                                } else {
                                    assert(key_precedes(k, self.unknown_rules@[m].spec_key()));
                                }
                            }
                        }
                        let ghost old_unknowns = self.unknown_rules@;
                        let unknown = AdvisoryRuleUnknown::new(code, subject, reason);
                        proof {
                            lemma_unknown_added(
                                evaluations,
                                e,
                                old_unknowns,
                                u_position as int,
                                unknown,
                            );
                        }
                        self.unknown_rules.insert(u_position, unknown);
                    }
                }
            },
        }
    }
}

/// The advice of a mirror: its revision, and the advisories and undecided
/// rules that its rule outcomes accumulate to.
pub open spec fn advice_for(projection: AdvisoryProjection, mirror: WorkspaceMirror) -> bool {
    &&& projection.spec_revision() == mirror.spec_revision()
    &&& advisories_accumulated(
        mirror_evaluations(mirror.spec_repositories()@),
        projection.spec_advisories(),
    )
    &&& unknowns_accumulated(
        mirror_evaluations(mirror.spec_repositories()@),
        projection.spec_unknown_rules(),
    )
}

/// Derives advisories from the workspace mirror.
pub struct AdvisoryEvaluator;

impl AdvisoryEvaluator {
    /// Runs every rule on every repository and worktree of the mirror.
    /// Each (rule, subject) pair yields at most one entry: the earliest
    /// match becomes an advisory; a pair that never matched but was left
    /// undecided becomes an undecided rule. Both lists come in key order.
    pub fn evaluate(mirror: &WorkspaceMirror) -> (projection: AdvisoryProjection)
        ensures
            advice_for(projection, *mirror),
    {
        let mut accumulator = AdvisoryAccumulator {
            advisories: Vec::new(),
            unknown_rules: Vec::new(),
        };
        let repositories = mirror.repositories();
        let ghost mut evaluations: Seq<RuleEvaluation> = Seq::empty();
        proof {
            assert(repositories@.take(0) =~= Seq::<RepositoryDetailProjection>::empty());
        }
        let mut i: usize = 0;
        while i < repositories.len()
            invariant
                i <= repositories@.len(),
                repositories@ == mirror.spec_repositories()@,
                evaluations == mirror_evaluations(repositories@.take(i as int)),
                advisories_accumulated(evaluations, accumulator.advisories@),
                unknowns_accumulated(evaluations, accumulator.unknown_rules@),
            decreases repositories@.len() - i,
        {
            let repository = &repositories[i];
            let ghost before = evaluations;
            let first = repository_without_remotes(repository);
            let ghost first_spec = first;
            accumulator.record(first, Ghost(evaluations));
            proof {
                evaluations = evaluations.push(first_spec);
            }
            let second = repository_has_multiple_worktrees(repository);
            let ghost second_spec = second;
            accumulator.record(second, Ghost(evaluations));
            proof {
                evaluations = evaluations.push(second_spec);
            }
            let ghost head = before + seq![first_spec, second_spec];
            let worktrees = repository.worktrees();
            proof {
                assert(evaluations =~= head);
                assert(worktrees@.take(0) =~= Seq::<WorktreeProjection>::empty());
                assert(head + worktree_evaluations(worktrees@.take(0)) =~= head);
            }
            let mut j: usize = 0;
            while j < worktrees.len()
                invariant
                    j <= worktrees@.len(),
                    worktrees@ == repository.spec_worktrees()@,
                    evaluations == head + worktree_evaluations(worktrees@.take(j as int)),
                    advisories_accumulated(evaluations, accumulator.advisories@),
                    unknowns_accumulated(evaluations, accumulator.unknown_rules@),
                decreases worktrees@.len() - j,
            {
                let worktree = &worktrees[j];
                let third = worktree_without_upstream(worktree);
                let ghost third_spec = third;
                accumulator.record(third, Ghost(evaluations));
                proof {
                    evaluations = evaluations.push(third_spec);
                }
                let fourth = local_commits_ahead_of_known_upstream(worktree);
                let ghost fourth_spec = fourth;
                accumulator.record(fourth, Ghost(evaluations));
                proof {
                    evaluations = evaluations.push(fourth_spec);
                    let taken = worktrees@.take(j + 1);
                    assert(taken.drop_last() =~= worktrees@.take(j as int));
                    assert(taken.last() == worktrees@[j as int]);
                    assert(evaluations =~= head + worktree_evaluations(taken));
                }
                j = j + 1;
            }
            proof {
                assert(worktrees@.take(j as int) =~= worktrees@);
                let taken = repositories@.take(i + 1);
                assert(taken.drop_last() =~= repositories@.take(i as int));
                assert(taken.last() == repositories@[i as int]);
                assert(evaluations =~= mirror_evaluations(taken));
            }
            i = i + 1;
        }
        proof {
            assert(repositories@.take(i as int) =~= repositories@);
        }
        AdvisoryProjection {
            revision: mirror.revision(),
            advisories: accumulator.advisories,
            unknown_rules: accumulator.unknown_rules,
        }
    }
}

pub open spec fn keys_in_order(keys: Seq<AdvisoryKey>) -> bool {
    forall|i: int, j: int| 0 <= i < j < keys.len() ==> key_precedes(#[trigger] keys[i], #[trigger] keys[j])
}

/// Two key sequences in strict key order that hold the same keys are equal.
proof fn lemma_ordered_keys_unique(a: Seq<AdvisoryKey>, b: Seq<AdvisoryKey>)
    requires
        keys_in_order(a),
        keys_in_order(b),
        forall|i: int| 0 <= i < a.len() ==> b.contains(#[trigger] a[i]),
        forall|i: int| 0 <= i < b.len() ==> a.contains(#[trigger] b[i]),
    ensures
        a == b,
    decreases a.len(),
{
    if a.len() == 0 {
        if b.len() > 0 {
            assert(a.contains(b[0]));
        }
        assert(a =~= b);
    } else {
        assert(b.contains(a[0]));
        assert(b.len() > 0);
        assert(a.contains(b[0]));
        let ia = choose|i: int| 0 <= i < a.len() && a[i] == b[0];
        let ib = choose|i: int| 0 <= i < b.len() && b[i] == a[0];
        lemma_key_precedes_irreflexive(a[0]);
        if ia > 0 {
            assert(key_precedes(a[0], a[ia]));
            if ib > 0 {
                assert(key_precedes(b[0], b[ib]));
                lemma_key_precedes_transitive(a[0], b[0], a[0]);
            }
        }
        assert(a[0] == b[0]);
        let ra = a.drop_first();
        let rb = b.drop_first();
        assert forall|i: int| 0 <= i < ra.len() implies rb.contains(#[trigger] ra[i]) by {
            assert(ra[i] == a[i + 1]);
            assert(key_precedes(a[0], a[i + 1]));
            assert(b.contains(a[i + 1]));
            let n = choose|n: int| 0 <= n < b.len() && b[n] == a[i + 1];
            assert(n != 0);
            assert(rb[n - 1] == b[n]);
        }
        assert forall|i: int| 0 <= i < rb.len() implies ra.contains(#[trigger] rb[i]) by {
            assert(rb[i] == b[i + 1]);
            assert(key_precedes(b[0], b[i + 1]));
            assert(a.contains(b[i + 1]));
            let n = choose|n: int| 0 <= n < a.len() && a[n] == b[i + 1];
            assert(n != 0);
            assert(ra[n - 1] == a[n]);
        }
        lemma_ordered_keys_unique(ra, rb);
        assert(a =~= b) by {
            assert forall|i: int| 0 <= i < a.len() implies a[i] == b[i] by {
                if i > 0 {
                    assert(a[i] == ra[i - 1]);
                    assert(b[i] == rb[i - 1]);
                }
            }
        }
    }
}

pub open spec fn advisory_keys(advisories: Seq<Advisory>) -> Seq<AdvisoryKey> {
    advisories.map_values(|advisory: Advisory| advisory.spec_key())
}

pub open spec fn unknown_keys(unknowns: Seq<AdvisoryRuleUnknown>) -> Seq<AdvisoryKey> {
    unknowns.map_values(|unknown: AdvisoryRuleUnknown| unknown.spec_key())
}

/// The advice of a sequence of rule outcomes is fully determined by it:
/// any two lists that meet the description are the same list.
pub proof fn law_advice_is_determined(
    evaluations: Seq<RuleEvaluation>,
    first: Seq<Advisory>,
    second: Seq<Advisory>,
)
    requires
        advisories_accumulated(evaluations, first),
        advisories_accumulated(evaluations, second),
    ensures
        first == second,
{
    let ka = advisory_keys(first);
    let kb = advisory_keys(second);
    assert forall|i: int| 0 <= i < ka.len() implies kb.contains(#[trigger] ka[i]) by {
        assert(first_match(evaluations, first[i].spec_key()) is Some);
        let m = choose|m: int| 0 <= m < second.len() && #[trigger] second[m].spec_key() == first[i].spec_key();
        assert(kb[m] == ka[i]);
    }
    assert forall|i: int| 0 <= i < kb.len() implies ka.contains(#[trigger] kb[i]) by {
        assert(first_match(evaluations, second[i].spec_key()) is Some);
        let m = choose|m: int| 0 <= m < first.len() && #[trigger] first[m].spec_key() == second[i].spec_key();
        assert(ka[m] == kb[i]);
    }
    assert(keys_in_order(ka)) by {
        assert forall|i: int, j: int| 0 <= i < j < ka.len() implies key_precedes(#[trigger] ka[i], #[trigger] ka[j]) by {
            assert(key_precedes(first[i].spec_key(), first[j].spec_key()));
        }
    }
    assert(keys_in_order(kb)) by {
        assert forall|i: int, j: int| 0 <= i < j < kb.len() implies key_precedes(#[trigger] kb[i], #[trigger] kb[j]) by {
            assert(key_precedes(second[i].spec_key(), second[j].spec_key()));
        }
    }
    lemma_ordered_keys_unique(ka, kb);
    assert forall|i: int| 0 <= i < first.len() implies first[i] == second[i] by {
        assert(ka[i] == kb[i]);
        let key = first[i].spec_key();
        assert(second[i].spec_key() == key);
        assert(match first_match(evaluations, key) {
            Some(found) => first[i].is_described_by(found),
            None => false,
        });
        assert(match first_match(evaluations, key) {
            Some(found) => second[i].is_described_by(found),
            None => false,
        });
    }
    assert(first =~= second);
}

/// The undecided rules of a sequence of rule outcomes are fully determined
/// by it.
pub proof fn law_undecided_rules_are_determined(
    evaluations: Seq<RuleEvaluation>,
    first: Seq<AdvisoryRuleUnknown>,
    second: Seq<AdvisoryRuleUnknown>,
)
    requires
        unknowns_accumulated(evaluations, first),
        unknowns_accumulated(evaluations, second),
    ensures
        first == second,
{
    let ka = unknown_keys(first);
    let kb = unknown_keys(second);
    assert forall|i: int| 0 <= i < ka.len() implies kb.contains(#[trigger] ka[i]) by {
        let key = first[i].spec_key();
        assert(first_match(evaluations, key) is None && first_unknown(evaluations, key) is Some);
        let m = choose|m: int| 0 <= m < second.len() && #[trigger] second[m].spec_key() == key;
        assert(kb[m] == ka[i]);
    }
    assert forall|i: int| 0 <= i < kb.len() implies ka.contains(#[trigger] kb[i]) by {
        let key = second[i].spec_key();
        assert(first_match(evaluations, key) is None && first_unknown(evaluations, key) is Some);
        let m = choose|m: int| 0 <= m < first.len() && #[trigger] first[m].spec_key() == key;
        assert(ka[m] == kb[i]);
    }
    assert(keys_in_order(ka)) by {
        assert forall|i: int, j: int| 0 <= i < j < ka.len() implies key_precedes(#[trigger] ka[i], #[trigger] ka[j]) by {
            assert(key_precedes(first[i].spec_key(), first[j].spec_key()));
        }
    }
    assert(keys_in_order(kb)) by {
        assert forall|i: int, j: int| 0 <= i < j < kb.len() implies key_precedes(#[trigger] kb[i], #[trigger] kb[j]) by {
            assert(key_precedes(second[i].spec_key(), second[j].spec_key()));
        }
    }
    lemma_ordered_keys_unique(ka, kb);
    assert forall|i: int| 0 <= i < first.len() implies first[i] == second[i] by {
        assert(ka[i] == kb[i]);
        let key = first[i].spec_key();
        assert(second[i].spec_key() == key);
        assert(match first_unknown(evaluations, key) {
            Some(found) => first[i].is_described_by(found),
            None => false,
        });
        assert(match first_unknown(evaluations, key) {
            Some(found) => second[i].is_described_by(found),
            None => false,
        });
    }
    assert(first =~= second);
}

/// Advice is deduplicated: no two advisories share a rule and a subject,
/// and no two undecided rules do.
pub proof fn law_one_entry_per_rule_and_subject(
    evaluations: Seq<RuleEvaluation>,
    advisories: Seq<Advisory>,
    unknowns: Seq<AdvisoryRuleUnknown>,
)
    requires
        advisories_accumulated(evaluations, advisories),
        unknowns_accumulated(evaluations, unknowns),
    ensures
        forall|i: int, j: int|
            0 <= i < advisories.len() && 0 <= j < advisories.len() && i != j
                ==> #[trigger] advisories[i].spec_key() != #[trigger] advisories[j].spec_key(),
        forall|i: int, j: int|
            0 <= i < unknowns.len() && 0 <= j < unknowns.len() && i != j
                ==> #[trigger] unknowns[i].spec_key() != #[trigger] unknowns[j].spec_key(),
{
    assert forall|i: int, j: int|
        0 <= i < advisories.len() && 0 <= j < advisories.len() && i != j
            implies #[trigger] advisories[i].spec_key() != #[trigger] advisories[j].spec_key() by {
        lemma_key_precedes_irreflexive(advisories[i].spec_key());
        if i < j {
            assert(key_precedes(advisories[i].spec_key(), advisories[j].spec_key()));
        } else {
            assert(key_precedes(advisories[j].spec_key(), advisories[i].spec_key()));
        }
    }
    assert forall|i: int, j: int|
        0 <= i < unknowns.len() && 0 <= j < unknowns.len() && i != j
            implies #[trigger] unknowns[i].spec_key() != #[trigger] unknowns[j].spec_key() by {
        lemma_key_precedes_irreflexive(unknowns[i].spec_key());
        if i < j {
            assert(key_precedes(unknowns[i].spec_key(), unknowns[j].spec_key()));
        } else {
            assert(key_precedes(unknowns[j].spec_key(), unknowns[i].spec_key()));
        }
    }
}

/// A rule on a subject is never both advised and undecided: an undecided
/// rule is one that no outcome matched.
pub proof fn law_advised_rules_are_not_undecided(
    evaluations: Seq<RuleEvaluation>,
    advisories: Seq<Advisory>,
    unknowns: Seq<AdvisoryRuleUnknown>,
)
    requires
        advisories_accumulated(evaluations, advisories),
        unknowns_accumulated(evaluations, unknowns),
    ensures
        forall|i: int, j: int|
            0 <= i < advisories.len() && 0 <= j < unknowns.len()
                ==> #[trigger] advisories[i].spec_key() != #[trigger] unknowns[j].spec_key(),
{
    assert forall|i: int, j: int|
        0 <= i < advisories.len() && 0 <= j < unknowns.len()
            implies #[trigger] advisories[i].spec_key() != #[trigger] unknowns[j].spec_key() by {
        assert(first_match(evaluations, advisories[i].spec_key()) is Some);
        assert(first_match(evaluations, unknowns[j].spec_key()) is None);
    }
}

/// A missing or partial observation never turns into a negative answer:
/// every rule that reads the observation stays undecided, with the reason.
pub proof fn law_incomplete_observation_leaves_rules_undecided(
    repository: RepositoryDetailProjection,
    worktree: WorktreeProjection,
)
    ensures
        observation_time(repository.spec_remotes_observation()) matches Err(reason)
            ==> rule_repository_without_remotes(repository) == (RuleEvaluation::Unknown {
            code: AdvisoryCode::RepositoryWithoutRemotes,
            subject: AdvisorySubject::Repository(repository.spec_id()),
            reason,
        }),
        observation_time(worktree.spec_observation()) matches Err(reason)
            ==> rule_worktree_without_upstream(worktree) == (RuleEvaluation::Unknown {
            code: AdvisoryCode::WorktreeWithoutUpstream,
            subject: AdvisorySubject::Worktree(worktree.spec_id()),
            reason,
        }) && rule_local_commits_ahead_of_known_upstream(worktree) == (RuleEvaluation::Unknown {
            code: AdvisoryCode::LocalCommitsAheadOfKnownUpstream,
            subject: AdvisorySubject::Worktree(worktree.spec_id()),
            reason,
        }),
{
}

/// The worktree-count rule reads only the catalog: it is decided whatever
/// the observations, and is as fresh as the workspace revision.
pub proof fn law_catalog_rule_needs_no_observation(repository: RepositoryDetailProjection)
    ensures
        !(rule_repository_has_multiple_worktrees(repository) is Unknown),
        repository.spec_worktrees()@.len() > 1 ==> rule_repository_has_multiple_worktrees(
            repository,
        ) == (RuleEvaluation::Matched {
            code: AdvisoryCode::RepositoryHasMultipleWorktrees,
            subject: AdvisorySubject::Repository(repository.spec_id()),
            evidence: AdvisoryEvidence::RepositoryWorktreeCount {
                worktree_count: repository.spec_worktrees()@.len() as usize,
            },
            freshness: AdvisoryFreshness::WorkspaceRevision(repository.spec_revision()),
        }),
{
}

/// On a completely observed worktree that tracks an upstream, the
/// local-commits-ahead rule matches exactly when the branch has commits
/// that the upstream lacks; its evidence then carries both counts of the
/// divergence, and a branch that is only behind gets no advisory.
pub proof fn law_local_commits_ahead_needs_commits_ahead(
    worktree: WorktreeProjection,
    state: WorktreeGitState,
    upstream: Upstream,
    divergence: UpstreamDivergence,
)
    requires
        observation_time(worktree.spec_observation()) is Ok,
        worktree.spec_git_state() == Some(state),
        state.spec_upstream() == Some(UpstreamState::Tracking { upstream, divergence }),
    ensures
        rule_local_commits_ahead_of_known_upstream(worktree) is Matched <==> divergence.spec_ahead()
            > 0,
        divergence.spec_ahead() == 0 ==> rule_local_commits_ahead_of_known_upstream(worktree)
            == RuleEvaluation::NotMatched,
        divergence.spec_ahead() > 0 ==> rule_local_commits_ahead_of_known_upstream(worktree) == (
        RuleEvaluation::Matched {
            code: AdvisoryCode::LocalCommitsAheadOfKnownUpstream,
            subject: AdvisorySubject::Worktree(worktree.spec_id()),
            evidence: AdvisoryEvidence::KnownUpstreamDivergence {
                ahead: divergence.spec_ahead(),
                behind: divergence.spec_behind(),
            },
            freshness: AdvisoryFreshness::ObservedAt(
                observation_time(worktree.spec_observation())->Ok_0,
            ),
        }),
{
}

} // verus!
