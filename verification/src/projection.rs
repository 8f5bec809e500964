use vstd::prelude::*;

use crate::git::{Remote, WorktreeGitState};
use crate::identity::{LocationId, RepositoryId, WorktreeId};
use crate::observation::ObservationKey;
use crate::ports::workspace_read::{WorkspaceObservationState, WorkspaceReadSnapshot};
use crate::observation::{ObservationAttempt, ObservationCoverage};
use crate::ports::error::{PortError, PortErrorKind, PortResult};
use crate::collation::{
    compare_text, lemma_text_precedes_irreflexive, lemma_text_precedes_transitive, text_precedes,
    Precedence,
};
use crate::query::{
    meets_minimum, FreshnessConstraint, RepositoryListQuery, RepositoryPredicate,
    RepositorySelector, RepositorySelectorResolution,
};
use crate::read_models::{OverviewProjection, RepositoryListProjection, WorkspaceMirror};
use crate::topology::LocationAvailability;
use crate::read_models::{
    Knowledge, LocationProjection, ObservationAttemptOutcomeProjection,
    ObservationAttemptProjection, ObservationStatusProjection, ObservationSuccessProjection,
    RepositoryDetailProjection, RepositoryListItemProjection, WorktreeProjection,
};
use crate::sorting::{
    keys_ascending, lemma_sort_by_key_ascending, lemma_sort_by_key_corresponds, sort_by_key,
    sort_by_text_key, TextKeyed,
};
use crate::time::Timestamp;
use crate::topology::{Location, Repository, Worktree};

verus! {

impl TextKeyed for RepositoryId {
    open spec fn text_key(&self) -> Seq<char> {
        self@
    }

    fn key_text(&self) -> (text: &str) {
        self.as_str()
    }
}

impl TextKeyed for Location {
    open spec fn text_key(&self) -> Seq<char> {
        self.spec_id()@
    }

    fn key_text(&self) -> (text: &str) {
        self.id().as_str()
    }
}

impl TextKeyed for Worktree {
    open spec fn text_key(&self) -> Seq<char> {
        self.spec_id()@
    }

    fn key_text(&self) -> (text: &str) {
        self.id().as_str()
    }
}

impl TextKeyed for Remote {
    open spec fn text_key(&self) -> Seq<char> {
        self.spec_name()
    }

    fn key_text(&self) -> (text: &str) {
        self.name()
    }
}

impl TextKeyed for LocationProjection {
    open spec fn text_key(&self) -> Seq<char> {
        self.spec_id()@
    }

    fn key_text(&self) -> (text: &str) {
        self.id().as_str()
    }
}

impl TextKeyed for WorktreeProjection {
    open spec fn text_key(&self) -> Seq<char> {
        self.spec_id()@
    }

    fn key_text(&self) -> (text: &str) {
        self.id().as_str()
    }
}

/// The repository whose remotes a state records, read from the key of its
/// latest attempt.
pub open spec fn remotes_subject(state: WorkspaceObservationState<Vec<Remote>>) -> Option<
    RepositoryId,
> {
    match state.spec_latest_attempt().spec_metadata().spec_key() {
        ObservationKey::RepositoryRemotes(id) => Some(id),
        ObservationKey::WorktreeGitState(_) => None,
    }
}

/// The worktree whose Git state a state records, read from the key of its
/// latest attempt.
pub open spec fn git_state_subject(state: WorkspaceObservationState<WorktreeGitState>) -> Option<
    WorktreeId,
> {
    match state.spec_latest_attempt().spec_metadata().spec_key() {
        ObservationKey::WorktreeGitState(id) => Some(id),
        ObservationKey::RepositoryRemotes(_) => None,
    }
}

pub open spec fn remotes_subject_text(state: WorkspaceObservationState<Vec<Remote>>) -> Option<
    Seq<char>,
> {
    match remotes_subject(state) {
        Some(id) => Some(id@),
        None => None,
    }
}

pub open spec fn git_state_subject_text(
    state: WorkspaceObservationState<WorktreeGitState>,
) -> Option<Seq<char>> {
    match git_state_subject(state) {
        Some(id) => Some(id@),
        None => None,
    }
}

/// The first location with the identifier.
pub open spec fn find_location(locations: Seq<Location>, id: Seq<char>) -> Option<Location>
    decreases locations.len(),
{
    if locations.len() == 0 {
        None
    } else if locations[0].spec_id()@ == id {
        Some(locations[0])
    } else {
        find_location(locations.drop_first(), id)
    }
}

/// The first worktree with the identifier.
pub open spec fn find_worktree(worktrees: Seq<Worktree>, id: Seq<char>) -> Option<Worktree>
    decreases worktrees.len(),
{
    if worktrees.len() == 0 {
        None
    } else if worktrees[0].spec_id()@ == id {
        Some(worktrees[0])
    } else {
        find_worktree(worktrees.drop_first(), id)
    }
}

/// The first remotes state recorded for the repository.
pub open spec fn find_remotes_state(
    states: Seq<WorkspaceObservationState<Vec<Remote>>>,
    id: Seq<char>,
) -> Option<WorkspaceObservationState<Vec<Remote>>>
    decreases states.len(),
{
    if states.len() == 0 {
        None
    } else if remotes_subject(states[0]) matches Some(subject) && subject@ == id {
        Some(states[0])
    } else {
        find_remotes_state(states.drop_first(), id)
    }
}

/// The first Git state recorded for the worktree.
pub open spec fn find_git_state(
    states: Seq<WorkspaceObservationState<WorktreeGitState>>,
    id: Seq<char>,
) -> Option<WorkspaceObservationState<WorktreeGitState>>
    decreases states.len(),
{
    if states.len() == 0 {
        None
    } else if git_state_subject(states[0]) matches Some(subject) && subject@ == id {
        Some(states[0])
    } else {
        find_git_state(states.drop_first(), id)
    }
}

pub open spec fn has_repository(snapshot: WorkspaceReadSnapshot, id: Seq<char>) -> bool {
    exists|i: int|
        0 <= i < snapshot.spec_repositories().len() && (
        #[trigger] snapshot.spec_repositories()[i]).spec_id()@ == id
}

pub open spec fn has_worktree(snapshot: WorkspaceReadSnapshot, id: Seq<char>) -> bool {
    exists|i: int|
        0 <= i < snapshot.spec_worktrees().len() && (
        #[trigger] snapshot.spec_worktrees()[i]).spec_id()@ == id
}

/// The latest success of a remotes state, if any, is about the same
/// repository as its latest attempt.
pub open spec fn remotes_state_coherent(
    state: WorkspaceObservationState<Vec<Remote>>,
    id: Seq<char>,
) -> bool {
    state.spec_latest_observation() matches Some(observation) ==> (
    observation.spec_metadata().spec_key() matches ObservationKey::RepositoryRemotes(subject)
        && subject@ == id)
}

pub open spec fn git_state_coherent(
    state: WorkspaceObservationState<WorktreeGitState>,
    id: Seq<char>,
) -> bool {
    state.spec_latest_observation() matches Some(observation) ==> (
    observation.spec_metadata().spec_key() matches ObservationKey::WorktreeGitState(subject)
        && subject@ == id)
}

pub open spec fn keys_distinct<T: TextKeyed>(items: Seq<T>) -> bool {
    forall|i: int, j: int|
        0 <= i < j < items.len() ==> (#[trigger] items[i]).text_key() != (
        #[trigger] items[j]).text_key()
}

/// Every location belongs to a catalogued repository.
pub open spec fn locations_catalogued(snapshot: WorkspaceReadSnapshot) -> bool {
    forall|i: int|
        0 <= i < snapshot.spec_locations().len() ==> has_repository(
            snapshot,
            (#[trigger] snapshot.spec_locations()[i]).spec_repository_id()@,
        )
}

/// Every worktree sits at a known location of its own, catalogued,
/// repository.
pub open spec fn worktree_placed(snapshot: WorkspaceReadSnapshot, worktree: Worktree) -> bool {
    &&& find_location(snapshot.spec_locations(), worktree.spec_location_id()@) matches Some(
        location,
    ) && location.spec_repository_id()@ == worktree.spec_repository_id()@
    &&& has_repository(snapshot, worktree.spec_repository_id()@)
}

pub open spec fn worktrees_placed(snapshot: WorkspaceReadSnapshot) -> bool {
    forall|i: int|
        0 <= i < snapshot.spec_worktrees().len() ==> worktree_placed(
            snapshot,
            #[trigger] snapshot.spec_worktrees()[i],
        )
}

/// Every remotes state is keyed by a catalogued repository, and its latest
/// success is about that repository.
pub open spec fn remotes_state_keyed(
    snapshot: WorkspaceReadSnapshot,
    state: WorkspaceObservationState<Vec<Remote>>,
) -> bool {
    remotes_subject(state) matches Some(id) && has_repository(snapshot, id@)
        && remotes_state_coherent(state, id@)
}

pub open spec fn remotes_states_keyed(snapshot: WorkspaceReadSnapshot) -> bool {
    forall|i: int|
        0 <= i < snapshot.spec_repository_remotes().len() ==> remotes_state_keyed(
            snapshot,
            #[trigger] snapshot.spec_repository_remotes()[i],
        )
}

pub open spec fn remotes_states_distinct(snapshot: WorkspaceReadSnapshot) -> bool {
    forall|i: int, j: int|
        0 <= i < j < snapshot.spec_repository_remotes().len() ==> remotes_subject_text(
            #[trigger] snapshot.spec_repository_remotes()[i],
        ) != remotes_subject_text(#[trigger] snapshot.spec_repository_remotes()[j])
}

/// Every Git state is keyed by a known worktree, and its latest success is
/// about that worktree.
pub open spec fn git_state_keyed(
    snapshot: WorkspaceReadSnapshot,
    state: WorkspaceObservationState<WorktreeGitState>,
) -> bool {
    git_state_subject(state) matches Some(id) && has_worktree(snapshot, id@) && git_state_coherent(
        state,
        id@,
    )
}

pub open spec fn git_states_keyed(snapshot: WorkspaceReadSnapshot) -> bool {
    forall|i: int|
        0 <= i < snapshot.spec_worktree_git_states().len() ==> git_state_keyed(
            snapshot,
            #[trigger] snapshot.spec_worktree_git_states()[i],
        )
}

pub open spec fn git_states_distinct(snapshot: WorkspaceReadSnapshot) -> bool {
    forall|i: int, j: int|
        0 <= i < j < snapshot.spec_worktree_git_states().len() ==> git_state_subject_text(
            #[trigger] snapshot.spec_worktree_git_states()[i],
        ) != git_state_subject_text(#[trigger] snapshot.spec_worktree_git_states()[j])
}

/// The catalog facts a snapshot must hold before it is projected:
/// identifiers are unique, every location and worktree belongs to a
/// catalogued repository, a worktree sits at a location of its own
/// repository, and every observation state is keyed by a catalogued
/// subject, once, with its latest success about that same subject.
pub open spec fn snapshot_consistent(snapshot: WorkspaceReadSnapshot) -> bool {
    &&& keys_distinct(snapshot.spec_repositories())
    &&& locations_catalogued(snapshot)
    &&& keys_distinct(snapshot.spec_locations())
    &&& worktrees_placed(snapshot)
    &&& keys_distinct(snapshot.spec_worktrees())
    &&& remotes_states_keyed(snapshot)
    &&& remotes_states_distinct(snapshot)
    &&& git_states_keyed(snapshot)
    &&& git_states_distinct(snapshot)
}

impl TextKeyed for Repository {
    open spec fn text_key(&self) -> Seq<char> {
        self.spec_id()@
    }

    fn key_text(&self) -> (text: &str) {
        self.id().as_str()
    }
}

/// Whether no two items share a key.
fn keys_are_distinct<T: TextKeyed>(items: &[T]) -> (distinct: bool)
    ensures
        distinct == keys_distinct(items@),
{
    let mut i: usize = 0;
    while i < items.len()
        invariant
            i <= items@.len(),
            forall|a: int, b: int|
                0 <= a < i && a < b < items@.len() ==> (#[trigger] items@[a]).text_key() != (
                #[trigger] items@[b]).text_key(),
        decreases items@.len() - i,
    {
        let mut j: usize = i + 1;
        while j < items.len()
            invariant
                i < items@.len(),
                i < j <= items@.len(),
                forall|a: int, b: int|
                    0 <= a < i && a < b < items@.len() ==> (#[trigger] items@[a]).text_key() != (
                    #[trigger] items@[b]).text_key(),
                forall|b: int| i < b < j ==> items@[i as int].text_key() != (
                #[trigger] items@[b]).text_key(),
            decreases items@.len() - j,
        {
            let same = crate::collation::compare_text(items[i].key_text(), items[j].key_text());
            if same == crate::collation::Precedence::Same {
                return false;
            }
            j = j + 1;
        }
        i = i + 1;
    }
    true
}

/// Finds the first location with the identifier.
pub(crate) fn locate_location(locations: &[Location], id: &LocationId) -> (found: Option<usize>)
    ensures
        match found {
            Some(i) => i < locations@.len() && find_location(locations@, id@) == Some(
                locations@[i as int],
            ),
            None => find_location(locations@, id@) is None,
        },
{
    let mut i: usize = 0;
    proof {
        assert(locations@.skip(0) =~= locations@);
    }
    while i < locations.len()
        invariant
            i <= locations@.len(),
            find_location(locations@, id@) == find_location(locations@.skip(i as int), id@),
        decreases locations@.len() - i,
    {
        proof {
            assert(locations@.skip(i as int)[0] == locations@[i as int]);
            assert(locations@.skip(i as int).drop_first() =~= locations@.skip(i + 1));
        }
        if locations[i].id() == id {
            return Some(i);
        }
        i = i + 1;
    }
    None
}

/// Finds the first worktree with the identifier.
fn locate_worktree(worktrees: &[Worktree], id: &WorktreeId) -> (found: Option<usize>)
    ensures
        match found {
            Some(i) => i < worktrees@.len() && find_worktree(worktrees@, id@) == Some(
                worktrees@[i as int],
            ),
            None => find_worktree(worktrees@, id@) is None,
        },
{
    let mut i: usize = 0;
    proof {
        assert(worktrees@.skip(0) =~= worktrees@);
    }
    while i < worktrees.len()
        invariant
            i <= worktrees@.len(),
            find_worktree(worktrees@, id@) == find_worktree(worktrees@.skip(i as int), id@),
        decreases worktrees@.len() - i,
    {
        proof {
            assert(worktrees@.skip(i as int)[0] == worktrees@[i as int]);
            assert(worktrees@.skip(i as int).drop_first() =~= worktrees@.skip(i + 1));
        }
        if worktrees[i].id() == id {
            return Some(i);
        }
        i = i + 1;
    }
    None
}

fn remotes_state_subject(state: &WorkspaceObservationState<Vec<Remote>>) -> (id: Option<
    &RepositoryId,
>)
    ensures
        id == match remotes_subject(*state) {
            Some(subject) => Some(&subject),
            None => None,
        },
{
    state.latest_attempt().metadata().key().repository_id()
}

fn git_state_state_subject(state: &WorkspaceObservationState<WorktreeGitState>) -> (id: Option<
    &WorktreeId,
>)
    ensures
        id == match git_state_subject(*state) {
            Some(subject) => Some(&subject),
            None => None,
        },
{
    state.latest_attempt().metadata().key().worktree_id()
}

/// Finds the first remotes state recorded for the repository.
fn locate_remotes_state(
    states: &[WorkspaceObservationState<Vec<Remote>>],
    id: &RepositoryId,
) -> (found: Option<usize>)
    ensures
        match found {
            Some(i) => i < states@.len() && find_remotes_state(states@, id@) == Some(
                states@[i as int],
            ),
            None => find_remotes_state(states@, id@) is None,
        },
{
    let mut i: usize = 0;
    proof {
        assert(states@.skip(0) =~= states@);
    }
    while i < states.len()
        invariant
            i <= states@.len(),
            find_remotes_state(states@, id@) == find_remotes_state(states@.skip(i as int), id@),
        decreases states@.len() - i,
    {
        proof {
            assert(states@.skip(i as int)[0] == states@[i as int]);
            assert(states@.skip(i as int).drop_first() =~= states@.skip(i + 1));
        }
        match remotes_state_subject(&states[i]) {
            Some(subject) => {
                if subject == id {
                    return Some(i);
                }
            },
            None => {},
        }
        i = i + 1;
    }
    None
}

/// Finds the first Git state recorded for the worktree.
fn locate_git_state(
    states: &[WorkspaceObservationState<WorktreeGitState>],
    id: &WorktreeId,
) -> (found: Option<usize>)
    ensures
        match found {
            Some(i) => i < states@.len() && find_git_state(states@, id@) == Some(
                states@[i as int],
            ),
            None => find_git_state(states@, id@) is None,
        },
{
    let mut i: usize = 0;
    proof {
        assert(states@.skip(0) =~= states@);
    }
    while i < states.len()
        invariant
            i <= states@.len(),
            find_git_state(states@, id@) == find_git_state(states@.skip(i as int), id@),
        decreases states@.len() - i,
    {
        proof {
            assert(states@.skip(i as int)[0] == states@[i as int]);
            assert(states@.skip(i as int).drop_first() =~= states@.skip(i + 1));
        }
        match git_state_state_subject(&states[i]) {
            Some(subject) => {
                if subject == id {
                    return Some(i);
                }
            },
            None => {},
        }
        i = i + 1;
    }
    None
}

fn contains_repository(snapshot: &WorkspaceReadSnapshot, id: &RepositoryId) -> (found: bool)
    ensures
        found == has_repository(*snapshot, id@),
{
    let repositories = snapshot.repositories();
    let mut i: usize = 0;
    while i < repositories.len()
        invariant
            i <= repositories@.len(),
            repositories@ == snapshot.spec_repositories(),
            forall|j: int| 0 <= j < i ==> (#[trigger] repositories@[j]).spec_id()@ != id@,
        decreases repositories@.len() - i,
    {
        if repositories[i].id() == id {
            return true;
        }
        i = i + 1;
    }
    false
}

fn contains_worktree(snapshot: &WorkspaceReadSnapshot, id: &WorktreeId) -> (found: bool)
    ensures
        found == has_worktree(*snapshot, id@),
{
    let worktrees = snapshot.worktrees();
    let mut i: usize = 0;
    while i < worktrees.len()
        invariant
            i <= worktrees@.len(),
            worktrees@ == snapshot.spec_worktrees(),
            forall|j: int| 0 <= j < i ==> (#[trigger] worktrees@[j]).spec_id()@ != id@,
        decreases worktrees@.len() - i,
    {
        if worktrees[i].id() == id {
            return true;
        }
        i = i + 1;
    }
    false
}

fn remotes_state_is_keyed(
    snapshot: &WorkspaceReadSnapshot,
    state: &WorkspaceObservationState<Vec<Remote>>,
) -> (keyed: bool)
    ensures
        keyed == remotes_state_keyed(*snapshot, *state),
{
    let id = match remotes_state_subject(state) {
        Some(id) => id,
        None => {
            return false;
        },
    };
    if !contains_repository(snapshot, id) {
        return false;
    }
    match state.latest_observation() {
        None => true,
        Some(observation) => match observation.metadata().key().repository_id() {
            Some(subject) => subject == id,
            None => false,
        },
    }
}

fn git_state_is_keyed(
    snapshot: &WorkspaceReadSnapshot,
    state: &WorkspaceObservationState<WorktreeGitState>,
) -> (keyed: bool)
    ensures
        keyed == git_state_keyed(*snapshot, *state),
{
    let id = match git_state_state_subject(state) {
        Some(id) => id,
        None => {
            return false;
        },
    };
    if !contains_worktree(snapshot, id) {
        return false;
    }
    match state.latest_observation() {
        None => true,
        Some(observation) => match observation.metadata().key().worktree_id() {
            Some(subject) => subject == id,
            None => false,
        },
    }
}

fn same_remotes_subject(
    a: &WorkspaceObservationState<Vec<Remote>>,
    b: &WorkspaceObservationState<Vec<Remote>>,
) -> (same: bool)
    ensures
        same == (remotes_subject_text(*a) == remotes_subject_text(*b)),
{
    match (remotes_state_subject(a), remotes_state_subject(b)) {
        (Some(x), Some(y)) => x == y,
        (None, None) => true,
        _ => false,
    }
}

fn same_git_state_subject(
    a: &WorkspaceObservationState<WorktreeGitState>,
    b: &WorkspaceObservationState<WorktreeGitState>,
) -> (same: bool)
    ensures
        same == (git_state_subject_text(*a) == git_state_subject_text(*b)),
{
    match (git_state_state_subject(a), git_state_state_subject(b)) {
        (Some(x), Some(y)) => x == y,
        (None, None) => true,
        _ => false,
    }
}

fn worktree_is_placed(snapshot: &WorkspaceReadSnapshot, worktree: &Worktree) -> (placed: bool)
    ensures
        placed == worktree_placed(*snapshot, *worktree),
{
    let locations = snapshot.locations();
    match locate_location(locations, worktree.location_id()) {
        None => false,
        Some(index) => {
            locations[index].repository_id() == worktree.repository_id() && contains_repository(
                snapshot,
                worktree.repository_id(),
            )
        },
    }
}

/// Whether the snapshot holds every catalog fact that projection relies on.
pub fn is_consistent(snapshot: &WorkspaceReadSnapshot) -> (consistent: bool)
    ensures
        consistent == snapshot_consistent(*snapshot),
{
    if !keys_are_distinct(snapshot.repositories()) {
        return false;
    }
    let locations = snapshot.locations();
    let mut i: usize = 0;
    while i < locations.len()
        invariant
            i <= locations@.len(),
            locations@ == snapshot.spec_locations(),
            forall|j: int|
                0 <= j < i ==> has_repository(
                    *snapshot,
                    (#[trigger] locations@[j]).spec_repository_id()@,
                ),
        decreases locations@.len() - i,
    {
        if !contains_repository(snapshot, locations[i].repository_id()) {
            return false;
        }
        i = i + 1;
    }
    if !keys_are_distinct(locations) {
        return false;
    }
    let worktrees = snapshot.worktrees();
    let mut i: usize = 0;
    while i < worktrees.len()
        invariant
            i <= worktrees@.len(),
            worktrees@ == snapshot.spec_worktrees(),
            forall|j: int| 0 <= j < i ==> worktree_placed(*snapshot, #[trigger] worktrees@[j]),
        decreases worktrees@.len() - i,
    {
        if !worktree_is_placed(snapshot, &worktrees[i]) {
            return false;
        }
        i = i + 1;
    }
    if !keys_are_distinct(worktrees) {
        return false;
    }
    let remotes = snapshot.repository_remotes();
    let mut i: usize = 0;
    while i < remotes.len()
        invariant
            i <= remotes@.len(),
            remotes@ == snapshot.spec_repository_remotes(),
            forall|j: int| 0 <= j < i ==> remotes_state_keyed(*snapshot, #[trigger] remotes@[j]),
        decreases remotes@.len() - i,
    {
        if !remotes_state_is_keyed(snapshot, &remotes[i]) {
            return false;
        }
        i = i + 1;
    }
    let mut i: usize = 0;
    while i < remotes.len()
        invariant
            i <= remotes@.len(),
            remotes@ == snapshot.spec_repository_remotes(),
            forall|a: int, b: int|
                0 <= a < i && a < b < remotes@.len() ==> remotes_subject_text(
                    #[trigger] remotes@[a],
                ) != remotes_subject_text(#[trigger] remotes@[b]),
        decreases remotes@.len() - i,
    {
        let mut j: usize = i + 1;
        while j < remotes.len()
            invariant
                i < remotes@.len(),
                i < j <= remotes@.len(),
                remotes@ == snapshot.spec_repository_remotes(),
                forall|a: int, b: int|
                    0 <= a < i && a < b < remotes@.len() ==> remotes_subject_text(
                        #[trigger] remotes@[a],
                    ) != remotes_subject_text(#[trigger] remotes@[b]),
                forall|b: int|
                    i < b < j ==> remotes_subject_text(remotes@[i as int]) != remotes_subject_text(
                        #[trigger] remotes@[b],
                    ),
            decreases remotes@.len() - j,
        {
            if same_remotes_subject(&remotes[i], &remotes[j]) {
                return false;
            }
            j = j + 1;
        }
        i = i + 1;
    }
    let git_states = snapshot.worktree_git_states();
    let mut i: usize = 0;
    while i < git_states.len()
        invariant
            i <= git_states@.len(),
            git_states@ == snapshot.spec_worktree_git_states(),
            forall|j: int| 0 <= j < i ==> git_state_keyed(*snapshot, #[trigger] git_states@[j]),
        decreases git_states@.len() - i,
    {
        if !git_state_is_keyed(snapshot, &git_states[i]) {
            return false;
        }
        i = i + 1;
    }
    let mut i: usize = 0;
    while i < git_states.len()
        invariant
            i <= git_states@.len(),
            git_states@ == snapshot.spec_worktree_git_states(),
            forall|a: int, b: int|
                0 <= a < i && a < b < git_states@.len() ==> git_state_subject_text(
                    #[trigger] git_states@[a],
                ) != git_state_subject_text(#[trigger] git_states@[b]),
        decreases git_states@.len() - i,
    {
        let mut j: usize = i + 1;
        while j < git_states.len()
            invariant
                i < git_states@.len(),
                i < j <= git_states@.len(),
                git_states@ == snapshot.spec_worktree_git_states(),
                forall|a: int, b: int|
                    0 <= a < i && a < b < git_states@.len() ==> git_state_subject_text(
                        #[trigger] git_states@[a],
                    ) != git_state_subject_text(#[trigger] git_states@[b]),
                forall|b: int|
                    i < b < j ==> git_state_subject_text(git_states@[i as int])
                        != git_state_subject_text(#[trigger] git_states@[b]),
            decreases git_states@.len() - j,
        {
            if same_git_state_subject(&git_states[i], &git_states[j]) {
                return false;
            }
            j = j + 1;
        }
        i = i + 1;
    }
    true
}

pub proof fn lemma_filter_take_step<A>(items: Seq<A>, i: int, pred: spec_fn(A) -> bool)
    requires
        0 <= i < items.len(),
    ensures
        items.take(i + 1).filter(pred) == if pred(items[i]) {
            items.take(i).filter(pred).push(items[i])
        } else {
            items.take(i).filter(pred)
        },
{
    reveal(Seq::filter);
    assert(items.take(i + 1).drop_last() =~= items.take(i));
}

/// The locations of a repository, in snapshot order.
pub open spec fn repository_locations(snapshot: WorkspaceReadSnapshot, id: Seq<char>) -> Seq<
    Location,
> {
    snapshot.spec_locations().filter(|location: Location| location.spec_repository_id()@ == id)
}

/// The worktrees of a repository, in snapshot order.
pub open spec fn repository_worktrees(snapshot: WorkspaceReadSnapshot, id: Seq<char>) -> Seq<
    Worktree,
> {
    snapshot.spec_worktrees().filter(|worktree: Worktree| worktree.spec_repository_id()@ == id)
}

/// Whether a repository has remotes, as far as an observation new enough
/// shows; without one, unknown.
pub open spec fn remotes_knowledge(
    snapshot: WorkspaceReadSnapshot,
    id: Seq<char>,
    minimum: Option<Timestamp>,
) -> Knowledge<bool> {
    match find_remotes_state(snapshot.spec_repository_remotes(), id) {
        None => Knowledge::Unknown,
        Some(state) => match state.spec_latest_observation() {
            None => Knowledge::Unknown,
            Some(observation) => if meets_minimum(
                minimum,
                observation.spec_metadata().spec_freshness().spec_observed_at(),
            ) {
                Knowledge::Known(observation.spec_value()@.len() > 0)
            } else {
                Knowledge::Unknown
            },
        },
    }
}

/// Whether a worktree has local work, as far as an observation new enough
/// shows; without one, unknown.
pub open spec fn worktree_work_knowledge(
    snapshot: WorkspaceReadSnapshot,
    id: Seq<char>,
    minimum: Option<Timestamp>,
) -> Knowledge<bool> {
    match find_git_state(snapshot.spec_worktree_git_states(), id) {
        None => Knowledge::Unknown,
        Some(state) => match state.spec_latest_observation() {
            None => Knowledge::Unknown,
            Some(observation) => if meets_minimum(
                minimum,
                observation.spec_metadata().spec_freshness().spec_observed_at(),
            ) {
                Knowledge::Known(observation.spec_value().spec_changes().spec_has_local_work())
            } else {
                Knowledge::Unknown
            },
        },
    }
}

/// Whether a repository has local work: known yes if some worktree is known
/// to have some; otherwise unknown if some worktree is unknown; otherwise
/// known no (so also for a repository without worktrees).
pub open spec fn local_work_knowledge(
    snapshot: WorkspaceReadSnapshot,
    id: Seq<char>,
    minimum: Option<Timestamp>,
) -> Knowledge<bool> {
    let worktrees = snapshot.spec_worktrees();
    if exists|i: int|
        0 <= i < worktrees.len() && (#[trigger] worktrees[i]).spec_repository_id()@ == id
            && worktree_work_knowledge(snapshot, worktrees[i].spec_id()@, minimum)
            == Knowledge::Known(true) {
        Knowledge::Known(true)
    } else if exists|i: int|
        0 <= i < worktrees.len() && (#[trigger] worktrees[i]).spec_repository_id()@ == id
            && worktree_work_knowledge(snapshot, worktrees[i].spec_id()@, minimum) is Unknown {
        Knowledge::Unknown
    } else {
        Knowledge::Known(false)
    }
}

fn remotes_knowledge_of(
    snapshot: &WorkspaceReadSnapshot,
    id: &RepositoryId,
    freshness: FreshnessConstraint,
) -> (knowledge: Knowledge<bool>)
    ensures
        knowledge == remotes_knowledge(*snapshot, id@, freshness.spec_minimum_observed_at()),
{
    let states = snapshot.repository_remotes();
    match locate_remotes_state(states, id) {
        None => Knowledge::Unknown,
        Some(index) => match states[index].latest_observation() {
            None => Knowledge::Unknown,
            Some(observation) => {
                if !freshness.accepts(observation.freshness().observed_at()) {
                    Knowledge::Unknown
                } else {
                    Knowledge::Known(observation.value().len() > 0)
                }
            },
        },
    }
}

fn worktree_work_knowledge_of(
    snapshot: &WorkspaceReadSnapshot,
    id: &WorktreeId,
    freshness: FreshnessConstraint,
) -> (knowledge: Knowledge<bool>)
    ensures
        knowledge == worktree_work_knowledge(*snapshot, id@, freshness.spec_minimum_observed_at()),
{
    let states = snapshot.worktree_git_states();
    match locate_git_state(states, id) {
        None => Knowledge::Unknown,
        Some(index) => match states[index].latest_observation() {
            None => Knowledge::Unknown,
            Some(observation) => {
                if !freshness.accepts(observation.freshness().observed_at()) {
                    Knowledge::Unknown
                } else {
                    Knowledge::Known(observation.value().changes().has_local_work())
                }
            },
        },
    }
}

fn local_work_knowledge_of(
    snapshot: &WorkspaceReadSnapshot,
    id: &RepositoryId,
    freshness: FreshnessConstraint,
) -> (knowledge: Knowledge<bool>)
    ensures
        knowledge == local_work_knowledge(*snapshot, id@, freshness.spec_minimum_observed_at()),
{
    let ghost minimum = freshness.spec_minimum_observed_at();
    let worktrees = snapshot.worktrees();
    let mut unknown = false;
    let mut i: usize = 0;
    while i < worktrees.len()
        invariant
            i <= worktrees@.len(),
            worktrees@ == snapshot.spec_worktrees(),
            minimum == freshness.spec_minimum_observed_at(),
            forall|j: int|
                0 <= j < i && (#[trigger] worktrees@[j]).spec_repository_id()@ == id@
                    ==> worktree_work_knowledge(*snapshot, worktrees@[j].spec_id()@, minimum)
                    != Knowledge::Known(true),
            unknown == exists|j: int|
                0 <= j < i && (#[trigger] worktrees@[j]).spec_repository_id()@ == id@
                    && worktree_work_knowledge(*snapshot, worktrees@[j].spec_id()@, minimum)
                    is Unknown,
        decreases worktrees@.len() - i,
    {
        if worktrees[i].repository_id() == id {
            match worktree_work_knowledge_of(snapshot, worktrees[i].id(), freshness) {
                Knowledge::Known(true) => {
                    return Knowledge::Known(true);
                },
                Knowledge::Known(false) => {},
                Knowledge::Unknown => {
                    unknown = true;
                },
            }
        }
        i = i + 1;
    }
    if unknown {
        Knowledge::Unknown
    } else {
        Knowledge::Known(false)
    }
}

/// A location projection carries the location's identity, path and
/// availability.
pub open spec fn location_projected(projection: LocationProjection, location: Location) -> bool {
    &&& projection.spec_id() == location.spec_id()
    &&& projection.spec_path()@ == location.spec_path()@
    &&& projection.spec_availability() == location.spec_availability()
}

fn project_location(location: &Location) -> (projection: LocationProjection)
    ensures
        location_projected(projection, *location),
{
    LocationProjection::new(
        location.id().duplicate(),
        location.path().duplicate(),
        location.availability(),
    )
}

pub open spec fn attempt_outcome<T>(attempt: ObservationAttempt<T>) -> ObservationAttemptOutcomeProjection {
    match attempt {
        ObservationAttempt::Succeeded(_) => ObservationAttemptOutcomeProjection::Succeeded,
        ObservationAttempt::Failed(failure) => ObservationAttemptOutcomeProjection::Failed(
            failure.spec_kind(),
        ),
    }
}

/// The status of a subject's observations: nothing without a state;
/// otherwise when, how completely and how the latest attempt went, and
/// when and how completely the latest success ran.
pub open spec fn status_projected<T>(
    status: ObservationStatusProjection,
    state: Option<WorkspaceObservationState<T>>,
) -> bool {
    match state {
        None => status.spec_latest_attempt() is None && status.spec_latest_success() is None,
        Some(state) => {
            let metadata = state.spec_latest_attempt().spec_metadata();
            &&& status.spec_latest_attempt() matches Some(attempt) && attempt.spec_observed_at()
                == metadata.spec_freshness().spec_observed_at() && attempt.spec_coverage()
                == metadata.spec_coverage() && attempt.spec_outcome() == attempt_outcome(
                state.spec_latest_attempt(),
            )
            &&& match state.spec_latest_observation() {
                None => status.spec_latest_success() is None,
                Some(observation) => status.spec_latest_success() matches Some(success)
                    && success.spec_observed_at()
                    == observation.spec_metadata().spec_freshness().spec_observed_at()
                    && success.spec_coverage() == observation.spec_metadata().spec_coverage(),
            }
        },
    }
}

fn project_status<T>(state: Option<&WorkspaceObservationState<T>>) -> (status:
    ObservationStatusProjection)
    ensures
        status_projected(
            status,
            match state {
                Some(state) => Some(*state),
                None => None,
            },
        ),
{
    let state = match state {
        None => {
            return ObservationStatusProjection::new(None, None);
        },
        Some(state) => state,
    };
    let attempt = state.latest_attempt();
    let metadata = attempt.metadata();
    let outcome = match attempt {
        ObservationAttempt::Succeeded(_) => ObservationAttemptOutcomeProjection::Succeeded,
        ObservationAttempt::Failed(failure) => ObservationAttemptOutcomeProjection::Failed(
            failure.kind(),
        ),
    };
    let latest_attempt = ObservationAttemptProjection::new(
        metadata.freshness().observed_at(),
        metadata.coverage(),
        outcome,
    );
    let latest_success = match state.latest_observation() {
        None => None,
        Some(observation) => Some(
            ObservationSuccessProjection::new(
                observation.freshness().observed_at(),
                observation.metadata().coverage(),
            ),
        ),
    };
    ObservationStatusProjection::new(Some(latest_attempt), latest_success)
}

/// The latest observed Git state of a worktree, if any.
pub open spec fn observed_git_state(snapshot: WorkspaceReadSnapshot, id: Seq<char>) -> Option<
    WorktreeGitState,
> {
    match find_git_state(snapshot.spec_worktree_git_states(), id) {
        Some(state) => match state.spec_latest_observation() {
            Some(observation) => Some(observation.spec_value()),
            None => None,
        },
        None => None,
    }
}

/// A worktree projection carries the snapshot's revision, the worktree's
/// identity, its location, its latest observed Git state and the status of
/// its observations.
pub open spec fn worktree_projected(
    projection: WorktreeProjection,
    snapshot: WorkspaceReadSnapshot,
    worktree: Worktree,
) -> bool {
    &&& projection.spec_revision() == snapshot.spec_revision()
    &&& projection.spec_id() == worktree.spec_id()
    &&& projection.spec_repository_id() == worktree.spec_repository_id()
    &&& find_location(snapshot.spec_locations(), worktree.spec_location_id()@) matches Some(
        location,
    ) && location_projected(projection.spec_location(), location)
    &&& projection.spec_git_state() == observed_git_state(snapshot, worktree.spec_id()@)
    &&& status_projected(
        projection.spec_observation(),
        find_git_state(snapshot.spec_worktree_git_states(), worktree.spec_id()@),
    )
}

pub open spec fn is_invariant_violation(error: PortError) -> bool {
    error.spec_kind() == PortErrorKind::InvariantViolation
}

fn invariant_violation() -> (error: PortError)
    ensures
        is_invariant_violation(error),
{
    PortError::new(PortErrorKind::InvariantViolation)
}

fn project_worktree(snapshot: &WorkspaceReadSnapshot, worktree: &Worktree) -> (r: PortResult<
    WorktreeProjection,
>)
    ensures
        r is Ok <==> find_location(snapshot.spec_locations(), worktree.spec_location_id()@) is Some,
        r matches Ok(projection) ==> worktree_projected(projection, *snapshot, *worktree),
        r matches Err(error) ==> is_invariant_violation(error),
{
    let locations = snapshot.locations();
    let location = match locate_location(locations, worktree.location_id()) {
        Some(index) => &locations[index],
        None => {
            return Err(invariant_violation());
        },
    };
    let states = snapshot.worktree_git_states();
    let state = match locate_git_state(states, worktree.id()) {
        Some(index) => Some(&states[index]),
        None => None,
    };
    let git_state = match state {
        Some(state) => match state.latest_observation() {
            Some(observation) => Some(observation.value().duplicate()),
            None => None,
        },
        None => None,
    };
    Ok(
        WorktreeProjection::new(
            snapshot.revision(),
            worktree.id().duplicate(),
            worktree.repository_id().duplicate(),
            project_location(location),
            git_state,
            project_status(state),
        ),
    )
}

/// Projections of a repository's locations, ordered by location identifier.
pub open spec fn locations_projected(
    projections: Seq<LocationProjection>,
    snapshot: WorkspaceReadSnapshot,
    id: Seq<char>,
) -> bool {
    let sorted = sort_by_key(repository_locations(snapshot, id));
    &&& projections.len() == sorted.len()
    &&& forall|i: int|
        0 <= i < projections.len() ==> location_projected(#[trigger] projections[i], sorted[i])
}

/// Projections of a repository's worktrees, ordered by worktree identifier.
pub open spec fn worktrees_projected(
    projections: Seq<WorktreeProjection>,
    snapshot: WorkspaceReadSnapshot,
    id: Seq<char>,
) -> bool {
    let sorted = sort_by_key(repository_worktrees(snapshot, id));
    &&& projections.len() == sorted.len()
    &&& forall|i: int|
        0 <= i < projections.len() ==> worktree_projected(
            #[trigger] projections[i],
            snapshot,
            sorted[i],
        )
}

fn project_locations(snapshot: &WorkspaceReadSnapshot, id: &RepositoryId) -> (projections: Vec<
    LocationProjection,
>)
    ensures
        locations_projected(projections@, *snapshot, id@),
{
    let ghost pred = |location: Location| location.spec_repository_id()@ == id@;
    let locations = snapshot.locations();
    let mut unsorted: Vec<LocationProjection> = Vec::new();
    let mut i: usize = 0;
    proof {
        reveal(Seq::filter);
        assert(locations@.take(0) =~= Seq::<Location>::empty());
    }
    while i < locations.len()
        invariant
            i <= locations@.len(),
            locations@ == snapshot.spec_locations(),
            pred == (|location: Location| location.spec_repository_id()@ == id@),
            unsorted@.len() == locations@.take(i as int).filter(pred).len(),
            forall|k: int|
                0 <= k < unsorted@.len() ==> (#[trigger] unsorted@[k]).text_key()
                    == locations@.take(i as int).filter(pred)[k].text_key() && location_projected(
                    unsorted@[k],
                    locations@.take(i as int).filter(pred)[k],
                ),
        decreases locations@.len() - i,
    {
        proof {
            lemma_filter_take_step(locations@, i as int, pred);
        }
        if locations[i].repository_id() == id {
            unsorted.push(project_location(&locations[i]));
        }
        i = i + 1;
    }
    proof {
        assert(locations@.take(i as int) =~= locations@);
        lemma_sort_by_key_corresponds(
            unsorted@,
            repository_locations(*snapshot, id@),
            |projection: LocationProjection, location: Location|
                location_projected(projection, location),
        );
    }
    sort_by_text_key(unsorted)
}

fn project_worktrees(snapshot: &WorkspaceReadSnapshot, id: &RepositoryId) -> (r: PortResult<
    Vec<WorktreeProjection>,
>)
    ensures
        worktrees_placed(*snapshot) ==> r is Ok,
        r matches Ok(projections) ==> worktrees_projected(projections@, *snapshot, id@),
        r matches Err(error) ==> is_invariant_violation(error),
{
    let ghost pred = |worktree: Worktree| worktree.spec_repository_id()@ == id@;
    let worktrees = snapshot.worktrees();
    let mut unsorted: Vec<WorktreeProjection> = Vec::new();
    let mut i: usize = 0;
    proof {
        reveal(Seq::filter);
        assert(worktrees@.take(0) =~= Seq::<Worktree>::empty());
    }
    while i < worktrees.len()
        invariant
            i <= worktrees@.len(),
            worktrees@ == snapshot.spec_worktrees(),
            pred == (|worktree: Worktree| worktree.spec_repository_id()@ == id@),
            unsorted@.len() == worktrees@.take(i as int).filter(pred).len(),
            forall|k: int|
                0 <= k < unsorted@.len() ==> (#[trigger] unsorted@[k]).text_key()
                    == worktrees@.take(i as int).filter(pred)[k].text_key() && worktree_projected(
                    unsorted@[k],
                    *snapshot,
                    worktrees@.take(i as int).filter(pred)[k],
                ),
        decreases worktrees@.len() - i,
    {
        proof {
            lemma_filter_take_step(worktrees@, i as int, pred);
        }
        if worktrees[i].repository_id() == id {
            match project_worktree(snapshot, &worktrees[i]) {
                Ok(projection) => {
                    unsorted.push(projection);
                },
                Err(error) => {
                    proof {
                        assert(!worktree_placed(*snapshot, worktrees@[i as int]));
                    }
                    return Err(error);
                },
            }
        }
        i = i + 1;
    }
    proof {
        assert(worktrees@.take(i as int) =~= worktrees@);
        lemma_sort_by_key_corresponds(
            unsorted@,
            repository_worktrees(*snapshot, id@),
            |projection: WorktreeProjection, worktree: Worktree|
                worktree_projected(projection, *snapshot, worktree),
        );
    }
    Ok(sort_by_text_key(unsorted))
}

fn duplicate_remotes(remotes: &[Remote]) -> (copies: Vec<Remote>)
    ensures
        copies@ == remotes@,
{
    let mut copies: Vec<Remote> = Vec::new();
    let mut i: usize = 0;
    while i < remotes.len()
        invariant
            i <= remotes@.len(),
            copies@ == remotes@.take(i as int),
        decreases remotes@.len() - i,
    {
        copies.push(remotes[i].duplicate());
        proof {
            assert(remotes@.take(i + 1) =~= remotes@.take(i as int).push(remotes@[i as int]));
        }
        i = i + 1;
    }
    proof {
        assert(remotes@.take(i as int) =~= remotes@);
    }
    copies
}

/// The remotes of the latest observation of a repository, ordered by name.
pub open spec fn observed_remotes(snapshot: WorkspaceReadSnapshot, id: Seq<char>) -> Option<
    Seq<Remote>,
> {
    match find_remotes_state(snapshot.spec_repository_remotes(), id) {
        Some(state) => match state.spec_latest_observation() {
            Some(observation) => Some(sort_by_key(observation.spec_value()@)),
            None => None,
        },
        None => None,
    }
}

/// A repository detail carries the snapshot's revision, the identity, the
/// locations and worktrees in identifier order, the remotes of the latest
/// success in name order, and the status of the remotes observations.
pub open spec fn detail_projected(
    detail: RepositoryDetailProjection,
    snapshot: WorkspaceReadSnapshot,
    id: RepositoryId,
) -> bool {
    &&& detail.spec_revision() == snapshot.spec_revision()
    &&& detail.spec_id() == id
    &&& locations_projected(detail.spec_locations()@, snapshot, id@)
    &&& match (detail.spec_remotes(), observed_remotes(snapshot, id@)) {
        (Some(remotes), Some(observed)) => remotes@ == observed,
        (None, None) => true,
        _ => false,
    }
    &&& status_projected(
        detail.spec_remotes_observation(),
        find_remotes_state(snapshot.spec_repository_remotes(), id@),
    )
    &&& worktrees_projected(detail.spec_worktrees()@, snapshot, id@)
}

fn repository_detail(snapshot: &WorkspaceReadSnapshot, id: &RepositoryId) -> (r: PortResult<
    RepositoryDetailProjection,
>)
    ensures
        worktrees_placed(*snapshot) ==> r is Ok,
        r matches Ok(detail) ==> detail_projected(detail, *snapshot, *id),
        r matches Err(error) ==> is_invariant_violation(error),
{
    let locations = project_locations(snapshot, id);
    let states = snapshot.repository_remotes();
    let state = match locate_remotes_state(states, id) {
        Some(index) => Some(&states[index]),
        None => None,
    };
    let remotes = match state {
        Some(state) => match state.latest_observation() {
            Some(observation) => Some(sort_by_text_key(duplicate_remotes(observation.value().as_slice()))),
            None => None,
        },
        None => None,
    };
    let worktrees = match project_worktrees(snapshot, id) {
        Ok(worktrees) => worktrees,
        Err(error) => {
            return Err(error);
        },
    };
    Ok(
        RepositoryDetailProjection::new(
            snapshot.revision(),
            id.duplicate(),
            locations,
            remotes,
            project_status(state),
            worktrees,
        ),
    )
}

/// A list item carries the repository's identity, its locations in
/// identifier order, its worktree count, and what is known of its remotes
/// and local work whatever their age.
pub open spec fn list_item_projected(
    item: RepositoryListItemProjection,
    snapshot: WorkspaceReadSnapshot,
    id: RepositoryId,
) -> bool {
    &&& item.spec_id() == id
    &&& locations_projected(item.spec_locations()@, snapshot, id@)
    &&& item.spec_worktree_count() == repository_worktrees(snapshot, id@).len()
    &&& item.spec_has_remotes() == remotes_knowledge(snapshot, id@, None)
    &&& item.spec_has_local_work() == local_work_knowledge(snapshot, id@, None)
}

fn count_worktrees(snapshot: &WorkspaceReadSnapshot, id: &RepositoryId) -> (count: usize)
    ensures
        count == repository_worktrees(*snapshot, id@).len(),
{
    let ghost pred = |worktree: Worktree| worktree.spec_repository_id()@ == id@;
    let worktrees = snapshot.worktrees();
    let mut count: usize = 0;
    let mut i: usize = 0;
    proof {
        reveal(Seq::filter);
        assert(worktrees@.take(0) =~= Seq::<Worktree>::empty());
    }
    while i < worktrees.len()
        invariant
            i <= worktrees@.len(),
            worktrees@ == snapshot.spec_worktrees(),
            pred == (|worktree: Worktree| worktree.spec_repository_id()@ == id@),
            count == worktrees@.take(i as int).filter(pred).len(),
            count <= i,
        decreases worktrees@.len() - i,
    {
        proof {
            lemma_filter_take_step(worktrees@, i as int, pred);
        }
        if worktrees[i].repository_id() == id {
            count = count + 1;
        }
        i = i + 1;
    }
    proof {
        assert(worktrees@.take(i as int) =~= worktrees@);
    }
    count
}

fn repository_list_item(snapshot: &WorkspaceReadSnapshot, id: &RepositoryId) -> (item:
    RepositoryListItemProjection)
    ensures
        list_item_projected(item, *snapshot, *id),
{
    RepositoryListItemProjection::new(
        id.duplicate(),
        project_locations(snapshot, id),
        count_worktrees(snapshot, id),
        remotes_knowledge_of(snapshot, id, FreshnessConstraint::any()),
        local_work_knowledge_of(snapshot, id, FreshnessConstraint::any()),
    )
}

/// Whether some location of the repository has the availability.
pub open spec fn has_location_with(
    snapshot: WorkspaceReadSnapshot,
    id: Seq<char>,
    availability: LocationAvailability,
) -> bool {
    exists|i: int|
        0 <= i < snapshot.spec_locations().len() && (
        #[trigger] snapshot.spec_locations()[i]).spec_repository_id()@ == id
            && snapshot.spec_locations()[i].spec_availability() == availability
}

fn location_with(
    snapshot: &WorkspaceReadSnapshot,
    id: &RepositoryId,
    availability: LocationAvailability,
) -> (found: bool)
    ensures
        found == has_location_with(*snapshot, id@, availability),
{
    let locations = snapshot.locations();
    let mut i: usize = 0;
    while i < locations.len()
        invariant
            i <= locations@.len(),
            locations@ == snapshot.spec_locations(),
            forall|j: int|
                0 <= j < i ==> !((#[trigger] locations@[j]).spec_repository_id()@ == id@
                    && locations@[j].spec_availability() == availability),
        decreases locations@.len() - i,
    {
        if locations[i].repository_id() == id && locations[i].availability() == availability {
            return true;
        }
        i = i + 1;
    }
    false
}

pub open spec fn is_available_repository(snapshot: WorkspaceReadSnapshot, repository: Repository) -> bool {
    has_location_with(snapshot, repository.spec_id()@, LocationAvailability::Available)
}

pub open spec fn has_known_local_work(snapshot: WorkspaceReadSnapshot, repository: Repository) -> bool {
    local_work_knowledge(snapshot, repository.spec_id()@, None) == Knowledge::Known(true)
}

pub open spec fn has_unknown_local_work(snapshot: WorkspaceReadSnapshot, repository: Repository) -> bool {
    local_work_knowledge(snapshot, repository.spec_id()@, None) is Unknown
}

pub open spec fn is_known_without_remotes(snapshot: WorkspaceReadSnapshot, repository: Repository) -> bool {
    remotes_knowledge(snapshot, repository.spec_id()@, None) == Knowledge::Known(false)
}

pub open spec fn has_unknown_remotes(snapshot: WorkspaceReadSnapshot, repository: Repository) -> bool {
    remotes_knowledge(snapshot, repository.spec_id()@, None) is Unknown
}

/// The overview counts repositories by what is known of them, keeping an
/// unknown answer apart from a negative one.
pub open spec fn overview_projected(overview: OverviewProjection, snapshot: WorkspaceReadSnapshot) -> bool {
    let repositories = snapshot.spec_repositories();
    &&& overview.spec_revision() == snapshot.spec_revision()
    &&& overview.spec_repository_count() == repositories.len()
    &&& overview.spec_available_repository_count() == repositories.filter(
        |repository: Repository| is_available_repository(snapshot, repository),
    ).len()
    &&& overview.spec_worktree_count() == snapshot.spec_worktrees().len()
    &&& overview.spec_repositories_with_local_work_count() == repositories.filter(
        |repository: Repository| has_known_local_work(snapshot, repository),
    ).len()
    &&& overview.spec_repositories_with_unknown_local_work_count() == repositories.filter(
        |repository: Repository| has_unknown_local_work(snapshot, repository),
    ).len()
    &&& overview.spec_repositories_without_remotes_count() == repositories.filter(
        |repository: Repository| is_known_without_remotes(snapshot, repository),
    ).len()
    &&& overview.spec_repositories_with_unknown_remotes_count() == repositories.filter(
        |repository: Repository| has_unknown_remotes(snapshot, repository),
    ).len()
}

proof fn lemma_filter_len_bound<A>(items: Seq<A>, pred: spec_fn(A) -> bool)
    ensures
        items.filter(pred).len() <= items.len(),
    decreases items.len(),
{
    reveal(Seq::filter);
    if items.len() > 0 {
        lemma_filter_len_bound(items.drop_last(), pred);
    }
}

/// Two filters that no item passes both of keep no more items together than
/// the sequence has.
proof fn lemma_disjoint_filters_len<A>(items: Seq<A>, first: spec_fn(A) -> bool, second: spec_fn(A) -> bool)
    requires
        forall|item: A| !(#[trigger] first(item) && second(item)),
    ensures
        items.filter(first).len() + items.filter(second).len() <= items.len(),
    decreases items.len(),
{
    reveal(Seq::filter);
    if items.len() > 0 {
        lemma_disjoint_filters_len(items.drop_last(), first, second);
    }
}

/// The overview's counts stay within the repositories: known and unknown
/// local work are counted apart, as are known absence and unknown remotes.
pub proof fn law_overview_counts_are_bounded(overview: OverviewProjection, snapshot: WorkspaceReadSnapshot)
    requires
        overview_projected(overview, snapshot),
    ensures
        overview.spec_available_repository_count() <= overview.spec_repository_count(),
        overview.spec_repositories_with_local_work_count()
            + overview.spec_repositories_with_unknown_local_work_count()
            <= overview.spec_repository_count(),
        overview.spec_repositories_without_remotes_count()
            + overview.spec_repositories_with_unknown_remotes_count()
            <= overview.spec_repository_count(),
{
    let repositories = snapshot.spec_repositories();
    lemma_filter_len_bound(repositories, |repository: Repository| is_available_repository(snapshot, repository));
    lemma_disjoint_filters_len(
        repositories,
        |repository: Repository| has_known_local_work(snapshot, repository),
        |repository: Repository| has_unknown_local_work(snapshot, repository),
    );
    lemma_disjoint_filters_len(
        repositories,
        |repository: Repository| is_known_without_remotes(snapshot, repository),
        |repository: Repository| has_unknown_remotes(snapshot, repository),
    );
}

fn overview_of(snapshot: &WorkspaceReadSnapshot) -> (overview: OverviewProjection)
    ensures
        overview_projected(overview, *snapshot),
{
    let ghost available = |repository: Repository| is_available_repository(*snapshot, repository);
    let ghost local_work = |repository: Repository| has_known_local_work(*snapshot, repository);
    let ghost unknown_work = |repository: Repository| has_unknown_local_work(*snapshot, repository);
    let ghost no_remotes = |repository: Repository| is_known_without_remotes(*snapshot, repository);
    let ghost unknown_remotes = |repository: Repository| has_unknown_remotes(*snapshot, repository);
    let repositories = snapshot.repositories();
    let mut available_count: usize = 0;
    let mut local_work_count: usize = 0;
    let mut unknown_work_count: usize = 0;
    let mut no_remotes_count: usize = 0;
    let mut unknown_remotes_count: usize = 0;
    let mut i: usize = 0;
    proof {
        reveal(Seq::filter);
        assert(repositories@.take(0) =~= Seq::<Repository>::empty());
    }
    while i < repositories.len()
        invariant
            i <= repositories@.len(),
            repositories@ == snapshot.spec_repositories(),
            available == (|repository: Repository| is_available_repository(*snapshot, repository)),
            local_work == (|repository: Repository| has_known_local_work(*snapshot, repository)),
            unknown_work == (|repository: Repository| has_unknown_local_work(*snapshot, repository)),
            no_remotes == (|repository: Repository| is_known_without_remotes(*snapshot, repository)),
            unknown_remotes == (|repository: Repository| has_unknown_remotes(*snapshot, repository)),
            available_count == repositories@.take(i as int).filter(available).len(),
            local_work_count == repositories@.take(i as int).filter(local_work).len(),
            unknown_work_count == repositories@.take(i as int).filter(unknown_work).len(),
            no_remotes_count == repositories@.take(i as int).filter(no_remotes).len(),
            unknown_remotes_count == repositories@.take(i as int).filter(unknown_remotes).len(),
            available_count <= i,
            local_work_count <= i,
            unknown_work_count <= i,
            no_remotes_count <= i,
            unknown_remotes_count <= i,
        decreases repositories@.len() - i,
    {
        proof {
            lemma_filter_take_step(repositories@, i as int, available);
            lemma_filter_take_step(repositories@, i as int, local_work);
            lemma_filter_take_step(repositories@, i as int, unknown_work);
            lemma_filter_take_step(repositories@, i as int, no_remotes);
            lemma_filter_take_step(repositories@, i as int, unknown_remotes);
        }
        let id = repositories[i].id();
        if location_with(snapshot, id, LocationAvailability::Available) {
            available_count = available_count + 1;
        }
        match local_work_knowledge_of(snapshot, id, FreshnessConstraint::any()) {
            Knowledge::Known(true) => {
                local_work_count = local_work_count + 1;
            },
            Knowledge::Known(false) => {},
            Knowledge::Unknown => {
                unknown_work_count = unknown_work_count + 1;
            },
        }
        match remotes_knowledge_of(snapshot, id, FreshnessConstraint::any()) {
            Knowledge::Known(true) => {},
            Knowledge::Known(false) => {
                no_remotes_count = no_remotes_count + 1;
            },
            Knowledge::Unknown => {
                unknown_remotes_count = unknown_remotes_count + 1;
            },
        }
        i = i + 1;
    }
    proof {
        assert(repositories@.take(i as int) =~= repositories@);
    }
    OverviewProjection::new(
        snapshot.revision(),
        repositories.len(),
        available_count,
        snapshot.worktrees().len(),
        local_work_count,
        unknown_work_count,
        no_remotes_count,
        unknown_remotes_count,
    )
}

/// The identifiers of the catalogued repositories, in identifier order.
pub open spec fn ordered_repository_ids(snapshot: WorkspaceReadSnapshot) -> Seq<RepositoryId> {
    sort_by_key(snapshot.spec_repositories().map_values(|repository: Repository| repository.spec_id()))
}

fn repository_ids_in_order(snapshot: &WorkspaceReadSnapshot) -> (ids: Vec<RepositoryId>)
    ensures
        ids@ == ordered_repository_ids(*snapshot),
{
    let repositories = snapshot.repositories();
    let mut ids: Vec<RepositoryId> = Vec::new();
    let mut i: usize = 0;
    while i < repositories.len()
        invariant
            i <= repositories@.len(),
            repositories@ == snapshot.spec_repositories(),
            ids@ == repositories@.take(i as int).map_values(
                |repository: Repository| repository.spec_id(),
            ),
        decreases repositories@.len() - i,
    {
        ids.push(repositories[i].id().duplicate());
        proof {
            assert(repositories@.take(i + 1).map_values(
                |repository: Repository| repository.spec_id(),
            ) =~= repositories@.take(i as int).map_values(
                |repository: Repository| repository.spec_id(),
            ).push(repositories@[i as int].spec_id()));
        }
        i = i + 1;
    }
    proof {
        assert(repositories@.take(i as int) =~= repositories@);
    }
    sort_by_text_key(ids)
}

/// Whether one predicate holds of a repository, judged by observations no
/// older than the minimum; an unknown answer never satisfies a predicate.
pub open spec fn predicate_holds(
    snapshot: WorkspaceReadSnapshot,
    id: Seq<char>,
    predicate: RepositoryPredicate,
    minimum: Option<Timestamp>,
) -> bool {
    match predicate {
        RepositoryPredicate::LocationAvailability(availability) => has_location_with(
            snapshot,
            id,
            availability,
        ),
        RepositoryPredicate::HasRemotes(expected) => remotes_knowledge(snapshot, id, minimum)
            == Knowledge::Known(expected),
        RepositoryPredicate::HasLocalWork(expected) => local_work_knowledge(snapshot, id, minimum)
            == Knowledge::Known(expected),
    }
}

/// Whether every predicate of the query holds of the repository.
pub open spec fn query_matches(
    snapshot: WorkspaceReadSnapshot,
    id: Seq<char>,
    query: RepositoryListQuery,
) -> bool {
    forall|k: int|
        0 <= k < query.spec_predicates().len() ==> predicate_holds(
            snapshot,
            id,
            #[trigger] query.spec_predicates()[k],
            query.spec_freshness().spec_minimum_observed_at(),
        )
}

fn repository_matches(
    snapshot: &WorkspaceReadSnapshot,
    id: &RepositoryId,
    query: &RepositoryListQuery,
) -> (matches: bool)
    ensures
        matches == query_matches(*snapshot, id@, *query),
{
    let predicates = query.predicates();
    let freshness = query.freshness();
    let mut k: usize = 0;
    while k < predicates.len()
        invariant
            k <= predicates@.len(),
            predicates@ == query.spec_predicates(),
            freshness == query.spec_freshness(),
            forall|j: int|
                0 <= j < k ==> predicate_holds(
                    *snapshot,
                    id@,
                    #[trigger] predicates@[j],
                    freshness.spec_minimum_observed_at(),
                ),
        decreases predicates@.len() - k,
    {
        let holds = match predicates[k] {
            RepositoryPredicate::LocationAvailability(availability) => location_with(
                snapshot,
                id,
                availability,
            ),
            RepositoryPredicate::HasRemotes(expected) => match remotes_knowledge_of(
                snapshot,
                id,
                freshness,
            ) {
                Knowledge::Known(actual) => actual == expected,
                Knowledge::Unknown => false,
            },
            RepositoryPredicate::HasLocalWork(expected) => match local_work_knowledge_of(
                snapshot,
                id,
                freshness,
            ) {
                Knowledge::Known(actual) => actual == expected,
                Knowledge::Unknown => false,
            },
        };
        if !holds {
            return false;
        }
        k = k + 1;
    }
    true
}

/// The repositories a query selects, in identifier order.
pub open spec fn matching_repository_ids(
    snapshot: WorkspaceReadSnapshot,
    query: RepositoryListQuery,
) -> Seq<RepositoryId> {
    ordered_repository_ids(snapshot).filter(|id: RepositoryId| query_matches(snapshot, id@, query))
}

/// Where a page starts in a result of `total` items.
pub open spec fn page_start(total: int, offset: int) -> int {
    if offset < total {
        offset
    } else {
        total
    }
}

/// Where a page ends in a result of `total` items.
pub open spec fn page_end(total: int, offset: int, limit: int) -> int {
    if page_start(total, offset) + limit < total {
        page_start(total, offset) + limit
    } else {
        total
    }
}

/// A listing counts every selected repository and carries the selected
/// repositories of the page, in identifier order.
pub open spec fn listing_projected(
    listing: RepositoryListProjection,
    snapshot: WorkspaceReadSnapshot,
    query: RepositoryListQuery,
) -> bool {
    let selected = matching_repository_ids(snapshot, query);
    let offset = query.spec_page().spec_offset() as int;
    let start = page_start(selected.len() as int, offset);
    let end = page_end(selected.len() as int, offset, query.spec_page().spec_limit() as int);
    &&& listing.spec_revision() == snapshot.spec_revision()
    &&& listing.spec_total_matching() == selected.len()
    &&& listing.spec_offset() == query.spec_page().spec_offset()
    &&& listing.spec_items()@.len() == end - start
    &&& forall|i: int|
        0 <= i < listing.spec_items()@.len() ==> list_item_projected(
            #[trigger] listing.spec_items()@[i],
            snapshot,
            selected[start + i],
        )
}

fn listing_of(snapshot: &WorkspaceReadSnapshot, query: &RepositoryListQuery) -> (listing:
    RepositoryListProjection)
    ensures
        listing_projected(listing, *snapshot, *query),
{
    let ids = repository_ids_in_order(snapshot);
    let ghost pred = |id: RepositoryId| query_matches(*snapshot, id@, *query);
    let mut selected: Vec<RepositoryId> = Vec::new();
    let mut i: usize = 0;
    proof {
        reveal(Seq::filter);
        assert(ids@.take(0) =~= Seq::<RepositoryId>::empty());
    }
    while i < ids.len()
        invariant
            i <= ids@.len(),
            ids@ == ordered_repository_ids(*snapshot),
            pred == (|id: RepositoryId| query_matches(*snapshot, id@, *query)),
            selected@ == ids@.take(i as int).filter(pred),
        decreases ids@.len() - i,
    {
        proof {
            lemma_filter_take_step(ids@, i as int, pred);
        }
        if repository_matches(snapshot, &ids[i], query) {
            selected.push(ids[i].duplicate());
        }
        i = i + 1;
    }
    proof {
        assert(ids@.take(i as int) =~= ids@);
    }
    let page = query.page();
    let offset = page.offset();
    let start = if offset < selected.len() {
        offset
    } else {
        selected.len()
    };
    let end = if page.limit() < selected.len() - start {
        start + page.limit()
    } else {
        selected.len()
    };
    let mut items: Vec<RepositoryListItemProjection> = Vec::new();
    let mut j: usize = start;
    while j < end
        invariant
            start <= j <= end <= selected@.len(),
            items@.len() == j - start,
            forall|k: int|
                0 <= k < items@.len() ==> list_item_projected(
                    #[trigger] items@[k],
                    *snapshot,
                    selected@[start + k],
                ),
        decreases end - j,
    {
        items.push(repository_list_item(snapshot, &selected[j]));
        j = j + 1;
    }
    RepositoryListProjection::new(snapshot.revision(), selected.len(), offset, items)
}

/// The mirror holds the overview and the detail of every repository in
/// identifier order, all at the snapshot's revision.
pub open spec fn mirror_projected(mirror: WorkspaceMirror, snapshot: WorkspaceReadSnapshot) -> bool {
    let ids = ordered_repository_ids(snapshot);
    &&& mirror.spec_revision() == snapshot.spec_revision()
    &&& overview_projected(mirror.spec_overview(), snapshot)
    &&& mirror.spec_repositories()@.len() == ids.len()
    &&& forall|i: int|
        0 <= i < ids.len() ==> detail_projected(
            #[trigger] mirror.spec_repositories()@[i],
            snapshot,
            ids[i],
        )
}

fn mirror_of(snapshot: &WorkspaceReadSnapshot) -> (r: PortResult<WorkspaceMirror>)
    ensures
        worktrees_placed(*snapshot) ==> r is Ok,
        r matches Ok(mirror) ==> mirror_projected(mirror, *snapshot),
        r matches Err(error) ==> is_invariant_violation(error),
{
    let overview = overview_of(snapshot);
    let ids = repository_ids_in_order(snapshot);
    let mut details: Vec<RepositoryDetailProjection> = Vec::new();
    let mut i: usize = 0;
    while i < ids.len()
        invariant
            i <= ids@.len(),
            ids@ == ordered_repository_ids(*snapshot),
            details@.len() == i,
            forall|k: int| 0 <= k < i ==> detail_projected(#[trigger] details@[k], *snapshot, ids@[k]),
        decreases ids@.len() - i,
    {
        match repository_detail(snapshot, &ids[i]) {
            Ok(detail) => {
                details.push(detail);
            },
            Err(error) => {
                return Err(error);
            },
        }
        i = i + 1;
    }
    Ok(WorkspaceMirror::new(snapshot.revision(), overview, details))
}

/// Whether some location of the repository is at the path.
pub open spec fn located_at(snapshot: WorkspaceReadSnapshot, path: Seq<u8>, id: Seq<char>) -> bool {
    exists|i: int|
        0 <= i < snapshot.spec_locations().len() && (
        #[trigger] snapshot.spec_locations()[i]).spec_path()@ == path
            && snapshot.spec_locations()[i].spec_repository_id()@ == id
}

pub open spec fn ids_strictly_ordered(ids: Seq<RepositoryId>) -> bool {
    forall|i: int, j: int| 0 <= i < j < ids.len() ==> text_precedes(#[trigger] ids[i]@, #[trigger] ids[j]@)
}

/// The repositories located at the path, each once, in identifier order.
pub open spec fn path_candidates(
    candidates: Seq<RepositoryId>,
    snapshot: WorkspaceReadSnapshot,
    path: Seq<u8>,
) -> bool {
    &&& ids_strictly_ordered(candidates)
    &&& forall|i: int| 0 <= i < candidates.len() ==> located_at(snapshot, path, #[trigger] candidates[i]@)
    &&& forall|id: Seq<char>| #[trigger] located_at(snapshot, path, id) ==> exists|i: int|
        0 <= i < candidates.len() && #[trigger] candidates[i]@ == id
}

/// A selector names the repository with its identifier if there is one;
/// otherwise the repositories located at its path: none, one, or several
/// candidates in identifier order.
pub open spec fn resolution_projected(
    resolution: RepositorySelectorResolution,
    snapshot: WorkspaceReadSnapshot,
    selector: RepositorySelector,
) -> bool {
    let path = selector.spec_path_candidate()@;
    if selector.spec_repository_id_candidate() matches Some(id) && has_repository(snapshot, id@) {
        resolution == RepositorySelectorResolution::Resolved(
            selector.spec_repository_id_candidate().unwrap(),
        )
    } else {
        match resolution {
            RepositorySelectorResolution::NotFound => forall|id: Seq<char>|
                !#[trigger] located_at(snapshot, path, id),
            RepositorySelectorResolution::Resolved(found) => located_at(snapshot, path, found@)
                && forall|id: Seq<char>| #[trigger] located_at(snapshot, path, id) ==> id == found@,
            RepositorySelectorResolution::Ambiguous { candidates } => candidates@.len() >= 2
                && path_candidates(candidates@, snapshot, path),
        }
    }
}

/// Whether some identifier in the list has the text.
pub open spec fn id_listed(ids: Seq<RepositoryId>, text: Seq<char>) -> bool {
    exists|k: int| 0 <= k < ids.len() && #[trigger] ids[k]@ == text
}

proof fn lemma_insert_ordered(before: Seq<RepositoryId>, position: int, id: RepositoryId)
    requires
        ids_strictly_ordered(before),
        0 <= position <= before.len(),
        forall|k: int| 0 <= k < position ==> text_precedes(#[trigger] before[k]@, id@),
        forall|k: int| position <= k < before.len() ==> text_precedes(id@, #[trigger] before[k]@),
    ensures
        ids_strictly_ordered(before.insert(position, id)),
        forall|text: Seq<char>|
            #[trigger] id_listed(before.insert(position, id), text) <==> (id_listed(before, text)
                || text == id@),
{
    let after = before.insert(position, id);
    assert forall|i: int, j: int| 0 <= i < j < after.len() implies text_precedes(
        #[trigger] after[i]@,
        #[trigger] after[j]@,
    ) by {
        if j < position {
        } else if j == position {
        } else if i < position {
            assert(after[j] == before[j - 1]);
            assert(text_precedes(before[i]@, before[j - 1]@));
            lemma_text_precedes_transitive(before[i]@, id@, before[j - 1]@);
        } else if i == position {
            assert(after[j] == before[j - 1]);
        } else {
            assert(after[i] == before[i - 1]);
            assert(after[j] == before[j - 1]);
            assert(text_precedes(before[i - 1]@, before[j - 1]@));
        }
    }
    assert forall|text: Seq<char>|
        #[trigger] id_listed(after, text) <==> (id_listed(before, text) || text == id@) by {
        if id_listed(after, text) {
            let k = choose|k: int| 0 <= k < after.len() && #[trigger] after[k]@ == text;
            if k < position {
                assert(after[k] == before[k]);
                assert(before[k]@ == text);
            } else if k > position {
                assert(after[k] == before[k - 1]);
                assert(before[k - 1]@ == text);
            }
        }
        if id_listed(before, text) {
            let m = choose|m: int| 0 <= m < before.len() && #[trigger] before[m]@ == text;
            if m < position {
                assert(after[m] == before[m]);
                assert(after[m]@ == text);
            } else {
                assert(after[m + 1] == before[m]);
                assert(after[m + 1]@ == text);
            }
        }
        if text == id@ {
            assert(after[position]@ == text);
        }
    }
}

/// Adds the identifier to an ordered list of distinct identifiers, unless
/// it is there already.
fn insert_distinct(ids: &mut Vec<RepositoryId>, id: &RepositoryId)
    requires
        ids_strictly_ordered(old(ids)@),
    ensures
        ids_strictly_ordered(final(ids)@),
        forall|text: Seq<char>|
            #[trigger] id_listed(final(ids)@, text) <==> (id_listed(old(ids)@, text) || text
                == id@),
{
    let ghost before = ids@;
    let mut position: usize = 0;
    let mut found = false;
    while !found && position < ids.len()
        invariant
            ids@ == before,
            position <= ids@.len(),
            ids_strictly_ordered(before),
            forall|k: int| 0 <= k < position ==> text_precedes(#[trigger] ids@[k]@, id@),
            found ==> position < ids@.len() && !text_precedes(ids@[position as int]@, id@),
        decreases ids@.len() - position + (if found {
            0int
        } else {
            1int
        }),
    {
        if compare_text(ids[position].as_str(), id.as_str()) == Precedence::Before {
            position = position + 1;
        } else {
            found = true;
        }
    }
    if found && compare_text(ids[position].as_str(), id.as_str()) == Precedence::Same {
        proof {
            assert(ids@[position as int]@ == id@);
            assert forall|text: Seq<char>|
                #[trigger] id_listed(before, text) <==> (id_listed(before, text) || text == id@) by {
                if text == id@ {
                    assert(before[position as int]@ == text);
                }
            }
        }
        return;
    }
    proof {
        assert forall|k: int| position <= k < before.len() implies text_precedes(
            id@,
            #[trigger] before[k]@,
        ) by {
            if k > position {
                lemma_text_precedes_transitive(id@, before[position as int]@, before[k]@);
            }
        }
    }
    let copy = id.duplicate();
    proof {
        lemma_insert_ordered(before, position as int, copy);
    }
    ids.insert(position, copy);
}

fn resolve_selector(snapshot: &WorkspaceReadSnapshot, selector: &RepositorySelector) -> (resolution:
    RepositorySelectorResolution)
    ensures
        resolution_projected(resolution, *snapshot, *selector),
{
    match selector.repository_id_candidate() {
        Some(id) => {
            if contains_repository(snapshot, id) {
                return RepositorySelectorResolution::Resolved(id.duplicate());
            }
        },
        None => {},
    }
    let path = selector.path_candidate();
    let locations = snapshot.locations();
    let mut candidates: Vec<RepositoryId> = Vec::new();
    let mut i: usize = 0;
    while i < locations.len()
        invariant
            i <= locations@.len(),
            locations@ == snapshot.spec_locations(),
            ids_strictly_ordered(candidates@),
            forall|k: int|
                0 <= k < candidates@.len() ==> located_at(
                    *snapshot,
                    path@,
                    #[trigger] candidates@[k]@,
                ),
            forall|j: int|
                0 <= j < i && (#[trigger] locations@[j]).spec_path()@ == path@ ==> id_listed(
                    candidates@,
                    locations@[j].spec_repository_id()@,
                ),
        decreases locations@.len() - i,
    {
        if locations[i].path().same_as(path) {
            let ghost before = candidates@;
            insert_distinct(&mut candidates, locations[i].repository_id());
            proof {
                assert forall|k: int| 0 <= k < candidates@.len() implies located_at(
                    *snapshot,
                    path@,
                    #[trigger] candidates@[k]@,
                ) by {
                    assert(id_listed(candidates@, candidates@[k]@));
                    if candidates@[k]@ != locations@[i as int].spec_repository_id()@ {
                        assert(id_listed(before, candidates@[k]@));
                        let m = choose|m: int|
                            0 <= m < before.len() && #[trigger] before[m]@ == candidates@[k]@;
                        assert(located_at(*snapshot, path@, before[m]@));
                    }
                }
                assert forall|j: int|
                    0 <= j < i + 1 && (#[trigger] locations@[j]).spec_path()@ == path@ implies id_listed(
                    candidates@,
                    locations@[j].spec_repository_id()@,
                ) by {
                    if j < i {
                        assert(id_listed(before, locations@[j].spec_repository_id()@));
                    }
                }
            }
        }
        i = i + 1;
    }
    proof {
        assert forall|id: Seq<char>| #[trigger] located_at(*snapshot, path@, id) implies exists|k: int|
            0 <= k < candidates@.len() && #[trigger] candidates@[k]@ == id by {
            let j = choose|j: int|
                0 <= j < locations@.len() && (#[trigger] locations@[j]).spec_path()@ == path@
                    && locations@[j].spec_repository_id()@ == id;
            assert(id_listed(candidates@, id));
        }
    }
    if candidates.len() == 0 {
        RepositorySelectorResolution::NotFound
    } else if candidates.len() == 1 {
        proof {
            assert forall|id: Seq<char>| #[trigger] located_at(*snapshot, path@, id) implies id
                == candidates@[0]@ by {
                let k = choose|k: int| 0 <= k < candidates@.len() && #[trigger] candidates@[k]@ == id;
            }
        }
        RepositorySelectorResolution::Resolved(candidates[0].duplicate())
    } else {
        RepositorySelectorResolution::Ambiguous { candidates }
    }
}

/// A snapshot that has been checked to hold the catalog facts, ready to be
/// projected.
pub struct ProjectionContext<'a> {
    snapshot: &'a WorkspaceReadSnapshot,
}

impl<'a> ProjectionContext<'a> {
    #[verifier::type_invariant]
    spec fn consistent(self) -> bool {
        snapshot_consistent(*self.snapshot)
    }

    pub closed spec fn spec_snapshot(self) -> WorkspaceReadSnapshot {
        *self.snapshot
    }

    /// Accepts a snapshot exactly when it holds the catalog facts; any other
    /// snapshot is an invariant violation.
    pub fn new(snapshot: &'a WorkspaceReadSnapshot) -> (r: PortResult<Self>)
        ensures
            r is Ok <==> snapshot_consistent(*snapshot),
            r matches Ok(context) ==> context.spec_snapshot() == *snapshot,
            r matches Err(error) ==> is_invariant_violation(error),
    {
        if is_consistent(snapshot) {
            Ok(ProjectionContext { snapshot })
        } else {
            Err(invariant_violation())
        }
    }

    pub fn overview(&self) -> (overview: OverviewProjection)
        ensures
            snapshot_consistent(self.spec_snapshot()),
            overview_projected(overview, self.spec_snapshot()),
    {
        proof {
            use_type_invariant(self);
        }
        overview_of(self.snapshot)
    }

    pub fn repositories(&self, query: &RepositoryListQuery) -> (listing: RepositoryListProjection)
        ensures
            snapshot_consistent(self.spec_snapshot()),
            listing_projected(listing, self.spec_snapshot(), *query),
    {
        proof {
            use_type_invariant(self);
        }
        listing_of(self.snapshot, query)
    }

    /// The detail of the repository with the identifier, if it is
    /// catalogued.
    pub fn repository(&self, repository_id: &RepositoryId) -> (r: PortResult<
        Option<RepositoryDetailProjection>,
    >)
        ensures
            snapshot_consistent(self.spec_snapshot()),
            r matches Ok(found) && (found is Some <==> has_repository(
                self.spec_snapshot(),
                repository_id@,
            )) && (found matches Some(detail) ==> detail_projected(
                detail,
                self.spec_snapshot(),
                *repository_id,
            )),
    {
        proof {
            use_type_invariant(self);
        }
        if !contains_repository(self.snapshot, repository_id) {
            return Ok(None);
        }
        match repository_detail(self.snapshot, repository_id) {
            Ok(detail) => Ok(Some(detail)),
            Err(error) => Err(error),
        }
    }

    pub fn resolve_repository_selector(&self, selector: &RepositorySelector) -> (resolution:
        RepositorySelectorResolution)
        ensures
            snapshot_consistent(self.spec_snapshot()),
            resolution_projected(resolution, self.spec_snapshot(), *selector),
    {
        proof {
            use_type_invariant(self);
        }
        resolve_selector(self.snapshot, selector)
    }

    /// The projection of the worktree with the identifier, if it is known.
    pub fn worktree(&self, worktree_id: &WorktreeId) -> (r: PortResult<Option<WorktreeProjection>>)
        ensures
            snapshot_consistent(self.spec_snapshot()),
            r matches Ok(found) && match (
                found,
                find_worktree(self.spec_snapshot().spec_worktrees(), worktree_id@),
            ) {
                (Some(projection), Some(worktree)) => worktree_projected(
                    projection,
                    self.spec_snapshot(),
                    worktree,
                ),
                (None, None) => true,
                _ => false,
            },
    {
        proof {
            use_type_invariant(self);
        }
        let worktrees = self.snapshot.worktrees();
        match locate_worktree(worktrees, worktree_id) {
            None => Ok(None),
            Some(index) => {
                proof {
                    assert(worktree_placed(*self.snapshot, worktrees@[index as int]));
                }
                match project_worktree(self.snapshot, &worktrees[index]) {
                    Ok(projection) => Ok(Some(projection)),
                    Err(error) => Err(error),
                }
            },
        }
    }

    pub fn mirror(&self) -> (r: PortResult<WorkspaceMirror>)
        ensures
            snapshot_consistent(self.spec_snapshot()),
            r matches Ok(mirror) && mirror_projected(mirror, self.spec_snapshot()),
    {
        proof {
            use_type_invariant(self);
        }
        mirror_of(self.snapshot)
    }
}

/// Without an observation, or with one older than the minimum, nothing is
/// known: an unknown answer is never reported as a negative one. A
/// repository is reported without remotes only from an accepted
/// observation, and without local work only when every one of its
/// worktrees is known to have none.
pub proof fn law_unknown_is_never_negative(
    snapshot: WorkspaceReadSnapshot,
    id: Seq<char>,
    minimum: Option<Timestamp>,
)
    ensures
        find_remotes_state(snapshot.spec_repository_remotes(), id) is None ==> remotes_knowledge(
            snapshot,
            id,
            minimum,
        ) is Unknown,
        remotes_knowledge(snapshot, id, minimum) == Knowledge::Known(false) ==> (find_remotes_state(
            snapshot.spec_repository_remotes(),
            id,
        ) matches Some(state) && state.spec_latest_observation() matches Some(observation)
            && meets_minimum(minimum, observation.spec_metadata().spec_freshness().spec_observed_at())
            && observation.spec_value()@.len() == 0),
        local_work_knowledge(snapshot, id, minimum) == Knowledge::Known(false) ==> forall|i: int|
            0 <= i < snapshot.spec_worktrees().len() && (#[trigger] snapshot.spec_worktrees()[i]).spec_repository_id()@ == id
                ==> worktree_work_knowledge(snapshot, snapshot.spec_worktrees()[i].spec_id()@, minimum)
                == Knowledge::Known(false),
{
    if local_work_knowledge(snapshot, id, minimum) == Knowledge::Known(false) {
        assert forall|i: int|
            0 <= i < snapshot.spec_worktrees().len() && (#[trigger] snapshot.spec_worktrees()[i]).spec_repository_id()@ == id
                implies worktree_work_knowledge(snapshot, snapshot.spec_worktrees()[i].spec_id()@, minimum)
                == Knowledge::Known(false) by {
            match worktree_work_knowledge(snapshot, snapshot.spec_worktrees()[i].spec_id()@, minimum) {
                Knowledge::Known(b) => {
                    if b {
                        assert(local_work_knowledge(snapshot, id, minimum) == Knowledge::Known(true));
                    }
                },
                Knowledge::Unknown => {
                    assert(local_work_knowledge(snapshot, id, minimum) is Unknown || local_work_knowledge(snapshot, id, minimum) == Knowledge::Known(true));
                },
            }
        }
    }
}

/// A mirror is read at one revision: its overview, every repository and
/// every worktree carry the revision of the mirror.
pub proof fn law_mirror_is_single_revision(mirror: WorkspaceMirror, snapshot: WorkspaceReadSnapshot)
    requires
        mirror_projected(mirror, snapshot),
    ensures
        mirror.spec_overview().spec_revision() == mirror.spec_revision(),
        forall|i: int|
            0 <= i < mirror.spec_repositories()@.len() ==> (#[trigger] mirror.spec_repositories()@[i]).spec_revision()
                == mirror.spec_revision(),
        forall|i: int, j: int|
            0 <= i < mirror.spec_repositories()@.len() && 0 <= j < mirror.spec_repositories()@[i].spec_worktrees()@.len()
                ==> (#[trigger] mirror.spec_repositories()@[i].spec_worktrees()@[j]).spec_revision()
                == mirror.spec_revision(),
{
    let ids = ordered_repository_ids(snapshot);
    assert forall|i: int, j: int|
        0 <= i < mirror.spec_repositories()@.len() && 0 <= j < mirror.spec_repositories()@[i].spec_worktrees()@.len()
            implies (#[trigger] mirror.spec_repositories()@[i].spec_worktrees()@[j]).spec_revision()
            == mirror.spec_revision() by {
        assert(detail_projected(mirror.spec_repositories()@[i], snapshot, ids[i]));
    }
}

/// The repositories of a mirror come in identifier order.
pub proof fn law_mirror_in_identifier_order(mirror: WorkspaceMirror, snapshot: WorkspaceReadSnapshot)
    requires
        mirror_projected(mirror, snapshot),
    ensures
        forall|i: int, j: int|
            0 <= i < j < mirror.spec_repositories()@.len() ==> !text_precedes(
                (#[trigger] mirror.spec_repositories()@[j]).spec_id()@,
                (#[trigger] mirror.spec_repositories()@[i]).spec_id()@,
            ),
{
    let ids = ordered_repository_ids(snapshot);
    lemma_sort_by_key_ascending(
        snapshot.spec_repositories().map_values(|repository: Repository| repository.spec_id()),
    );
    assert forall|i: int, j: int| 0 <= i < j < mirror.spec_repositories()@.len() implies !text_precedes(
        (#[trigger] mirror.spec_repositories()@[j]).spec_id()@,
        (#[trigger] mirror.spec_repositories()@[i]).spec_id()@,
    ) by {
        assert(detail_projected(mirror.spec_repositories()@[i], snapshot, ids[i]));
        assert(detail_projected(mirror.spec_repositories()@[j], snapshot, ids[j]));
        assert(!text_precedes(ids[j].text_key(), ids[i].text_key()));
    }
}

/// A page of a listing starts at the query's offset: below the number of
/// selected repositories, its i-th item is the (offset + i)-th selected
/// repository in identifier order, and it holds as many items as the limit
/// allows and the selection has left; at or past the end it is empty.
pub proof fn law_listing_pages_from_offset(
    listing: RepositoryListProjection,
    snapshot: WorkspaceReadSnapshot,
    query: RepositoryListQuery,
)
    requires
        listing_projected(listing, snapshot, query),
    ensures
        ({
            let selected = matching_repository_ids(snapshot, query);
            let offset = query.spec_page().spec_offset() as int;
            let limit = query.spec_page().spec_limit() as int;
            &&& offset < selected.len() ==> forall|i: int|
                0 <= i < listing.spec_items()@.len() ==> list_item_projected(
                    #[trigger] listing.spec_items()@[i],
                    snapshot,
                    selected[offset + i],
                )
            &&& offset < selected.len() ==> listing.spec_items()@.len() == if limit
                < selected.len() - offset {
                limit
            } else {
                selected.len() - offset
            }
            &&& offset >= selected.len() ==> listing.spec_items()@.len() == 0
        }),
{
}

} // verus!
