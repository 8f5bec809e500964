use vstd::prelude::*;

use vstd::utf8::{decode_utf8, valid_utf8};

use crate::advisory::{advice_for, AdvisoryEvaluator, AdvisoryProjection};
use crate::identity::{RepositoryId, WorktreeId};
use crate::ports::error::{PortError, PortResult};
use crate::ports::workspace_read::{WorkspaceReadPort, WorkspaceReadSnapshot};
use crate::projection::{
    detail_projected, find_worktree, has_repository, is_invariant_violation, listing_projected,
    mirror_projected,
    overview_projected, resolution_projected, snapshot_consistent, worktree_projected,
    ProjectionContext,
};
use crate::read_models::{
    OverviewProjection, RepositoryDetailProjection, RepositoryListProjection, WorkspaceMirror,
    WorktreeProjection,
};
use crate::path::{
    join_path, join_paths, normalize_lexical, normalize_lexical_path, utf8_text, FsPath,
};
use crate::time::Timestamp;
use crate::topology::LocationAvailability;

verus! {

/// The page size used when a query names none.
pub const DEFAULT_QUERY_PAGE_SIZE: usize = 100;

/// The largest page a query may ask for.
pub const MAX_QUERY_PAGE_SIZE: usize = 256;

/// A window into an ordered result: skip `offset` items, return at most
/// `limit`.
#[derive(Clone, Copy, Debug, PartialEq, Eq, Structural)]
pub struct QueryPage {
    offset: usize,
    limit: usize,
}

impl QueryPage {
    pub closed spec fn spec_offset(self) -> usize {
        self.offset
    }

    pub closed spec fn spec_limit(self) -> usize {
        self.limit
    }

    /// A page exists only for a limit between one and the maximum page size.
    pub fn new(offset: usize, limit: usize) -> (page: Option<Self>)
        ensures
            page is Some <==> 0 < limit <= MAX_QUERY_PAGE_SIZE,
            page matches Some(p) ==> p.spec_offset() == offset && p.spec_limit() == limit,
    {
        if limit == 0 || limit > MAX_QUERY_PAGE_SIZE {
            return None;
        }
        Some(QueryPage { offset, limit })
    }

    pub fn offset(self) -> (offset: usize)
        ensures
            offset == self.spec_offset(),
    {
        self.offset
    }

    pub fn limit(self) -> (limit: usize)
        ensures
            limit == self.spec_limit(),
    {
        self.limit
    }
}

impl Default for QueryPage {
    fn default() -> (page: Self)
        ensures
            page.spec_offset() == 0,
            page.spec_limit() == DEFAULT_QUERY_PAGE_SIZE,
    {
        QueryPage { offset: 0, limit: DEFAULT_QUERY_PAGE_SIZE }
    }
}

/// How recent an observation must be for a query to use it.
#[derive(Clone, Copy, Debug, PartialEq, Eq, Structural)]
pub struct FreshnessConstraint {
    observed_at_or_after: Option<Timestamp>,
}

/// Whether an observation made at `observed_at` is no older than the
/// minimum, if there is one.
pub open spec fn meets_minimum(minimum: Option<Timestamp>, observed_at: Timestamp) -> bool {
    match minimum {
        None => true,
        Some(minimum) => observed_at.spec_unix_nanos() >= minimum.spec_unix_nanos(),
    }
}

/// Whether an observation made at `observed_at` meets the constraint.
pub open spec fn freshness_accepts(constraint: FreshnessConstraint, observed_at: Timestamp) -> bool {
    meets_minimum(constraint.spec_minimum_observed_at(), observed_at)
}

impl FreshnessConstraint {
    pub closed spec fn spec_minimum_observed_at(self) -> Option<Timestamp> {
        self.observed_at_or_after
    }

    /// Accepts every observation.
    pub fn any() -> (constraint: Self)
        ensures
            constraint.spec_minimum_observed_at() is None,
    {
        FreshnessConstraint { observed_at_or_after: None }
    }

    /// Accepts observations made at `value` or later.
    pub fn observed_at_or_after(value: Timestamp) -> (constraint: Self)
        ensures
            constraint.spec_minimum_observed_at() == Some(value),
    {
        FreshnessConstraint { observed_at_or_after: Some(value) }
    }

    pub fn minimum_observed_at(self) -> (minimum: Option<Timestamp>)
        ensures
            minimum == self.spec_minimum_observed_at(),
    {
        self.observed_at_or_after
    }

    pub fn accepts(self, observed_at: Timestamp) -> (accepted: bool)
        ensures
            accepted == freshness_accepts(self, observed_at),
    {
        match self.observed_at_or_after {
            None => true,
            Some(minimum) => observed_at.is_at_or_after(minimum),
        }
    }
}

impl Default for FreshnessConstraint {
    fn default() -> (constraint: Self)
        ensures
            constraint.spec_minimum_observed_at() is None,
    {
        FreshnessConstraint { observed_at_or_after: None }
    }
}

/// A condition a repository must meet to be listed.
#[derive(Clone, Copy, Debug, PartialEq, Eq, Structural)]
pub enum RepositoryPredicate {
    LocationAvailability(LocationAvailability),
    HasRemotes(bool),
    HasLocalWork(bool),
}

/// A repository listing: a page, a freshness constraint, and predicates
/// that must all hold.
#[derive(Clone, Debug, PartialEq, Eq)]
pub struct RepositoryListQuery {
    page: QueryPage,
    freshness: FreshnessConstraint,
    predicates: Vec<RepositoryPredicate>,
}

impl RepositoryListQuery {
    pub closed spec fn spec_page(&self) -> QueryPage {
        self.page
    }

    pub closed spec fn spec_freshness(&self) -> FreshnessConstraint {
        self.freshness
    }

    pub closed spec fn spec_predicates(&self) -> Seq<RepositoryPredicate> {
        self.predicates@
    }

    /// A query for the page, accepting any freshness, with no predicate.
    pub fn new(page: QueryPage) -> (query: Self)
        ensures
            query.spec_page() == page,
            query.spec_freshness().spec_minimum_observed_at() is None,
            query.spec_predicates() == Seq::<RepositoryPredicate>::empty(),
    {
        RepositoryListQuery {
            page,
            freshness: FreshnessConstraint::any(),
            predicates: Vec::new(),
        }
    }

    pub fn with_freshness(self, freshness: FreshnessConstraint) -> (query: Self)
        ensures
            query.spec_page() == self.spec_page(),
            query.spec_freshness() == freshness,
            query.spec_predicates() == self.spec_predicates(),
    {
        let mut query = self;
        query.freshness = freshness;
        query
    }

    /// Adds a predicate after those already given.
    pub fn with_predicate(self, predicate: RepositoryPredicate) -> (query: Self)
        ensures
            query.spec_page() == self.spec_page(),
            query.spec_freshness() == self.spec_freshness(),
            query.spec_predicates() == self.spec_predicates().push(predicate),
    {
        let mut query = self;
        query.predicates.push(predicate);
        query
    }

    pub fn page(&self) -> (page: QueryPage)
        ensures
            page == self.spec_page(),
    {
        self.page
    }

    pub fn freshness(&self) -> (freshness: FreshnessConstraint)
        ensures
            freshness == self.spec_freshness(),
    {
        self.freshness
    }

    pub fn predicates(&self) -> (predicates: &[RepositoryPredicate])
        ensures
            predicates@ == self.spec_predicates(),
    {
        self.predicates.as_slice()
    }
}

impl Default for RepositoryListQuery {
    fn default() -> (query: Self)
        ensures
            query.spec_page().spec_offset() == 0,
            query.spec_page().spec_limit() == DEFAULT_QUERY_PAGE_SIZE,
            query.spec_freshness().spec_minimum_observed_at() is None,
            query.spec_predicates() == Seq::<RepositoryPredicate>::empty(),
    {
        RepositoryListQuery::new(QueryPage::default())
    }
}

/// What a user named a repository by: an identifier, if the input is text,
/// and a path, taken relative to the working directory and normalized.
#[derive(Clone, Debug, PartialEq, Eq)]
pub struct RepositorySelector {
    repository_id_candidate: Option<RepositoryId>,
    path_candidate: FsPath,
}

impl RepositorySelector {
    pub closed spec fn spec_repository_id_candidate(&self) -> Option<RepositoryId> {
        self.repository_id_candidate
    }

    pub closed spec fn spec_path_candidate(&self) -> FsPath {
        self.path_candidate
    }

    pub fn from_input(value: &FsPath, working_directory: &FsPath) -> (selector: Self)
        ensures
            selector.spec_path_candidate()@ == normalize_lexical(
                join_path(working_directory@, value@),
            ),
            selector.spec_repository_id_candidate() is Some <==> valid_utf8(value@),
            selector.spec_repository_id_candidate() matches Some(id) ==> id@ == decode_utf8(
                value@,
            ),
    {
        let joined = join_paths(working_directory.as_bytes(), value.as_bytes());
        let path_candidate = FsPath::from_bytes(normalize_lexical_path(joined.as_slice()));
        let repository_id_candidate = match utf8_text(value.as_bytes()) {
            Some(text) => Some(RepositoryId::new(text)),
            None => None,
        };
        RepositorySelector { repository_id_candidate, path_candidate }
    }

    pub fn repository_id_candidate(&self) -> (id: Option<&RepositoryId>)
        ensures
            id == match self.spec_repository_id_candidate() {
                Some(id) => Some(&id),
                None => None,
            },
    {
        match &self.repository_id_candidate {
            Some(id) => Some(id),
            None => None,
        }
    }

    pub fn path_candidate(&self) -> (path: &FsPath)
        ensures
            *path == self.spec_path_candidate(),
    {
        &self.path_candidate
    }
}

/// What a selector names: one repository, none, or several candidates.
#[derive(Clone, Debug, PartialEq, Eq)]
pub enum RepositorySelectorResolution {
    Resolved(RepositoryId),
    NotFound,
    Ambiguous { candidates: Vec<RepositoryId> },
}

impl RepositorySelectorResolution {
    /// The candidates of an ambiguous resolution; none otherwise.
    pub fn candidates(&self) -> (candidates: &[RepositoryId])
        ensures
            candidates@ == match self {
                RepositorySelectorResolution::Ambiguous { candidates } => candidates@,
                _ => Seq::<RepositoryId>::empty(),
            },
    {
        match self {
            RepositorySelectorResolution::Ambiguous { candidates } => candidates.as_slice(),
            _ => &[],
        }
    }
}

/// How a query answers what the read gave: a read error unchanged, an
/// inconsistent snapshot as an invariant violation, and a consistent one as
/// `answered` says.
pub open spec fn answered_from<T>(
    read: PortResult<WorkspaceReadSnapshot>,
    r: PortResult<T>,
    answered: spec_fn(T, WorkspaceReadSnapshot) -> bool,
) -> bool {
    match read {
        Err(error) => r == Err::<T, PortError>(error),
        Ok(snapshot) => if snapshot_consistent(snapshot) {
            r matches Ok(value) && answered(value, snapshot)
        } else {
            r matches Err(error) && is_invariant_violation(error)
        },
    }
}

/// The overview of the snapshot a read gave.
pub fn overview_from(read: PortResult<WorkspaceReadSnapshot>) -> (r: PortResult<OverviewProjection>)
    ensures
        answered_from(
            read,
            r,
            |overview: OverviewProjection, snapshot: WorkspaceReadSnapshot|
                overview_projected(overview, snapshot),
        ),
{
    let snapshot = match read {
        Ok(snapshot) => snapshot,
        Err(error) => {
            return Err(error);
        },
    };
    let context = match ProjectionContext::new(&snapshot) {
        Ok(context) => context,
        Err(error) => {
            return Err(error);
        },
    };
    Ok(context.overview())
}

/// One page of the repositories the query selects, from the snapshot a
/// read gave.
pub fn repositories_from(
    read: PortResult<WorkspaceReadSnapshot>,
    query: &RepositoryListQuery,
) -> (r: PortResult<RepositoryListProjection>)
    ensures
        answered_from(
            read,
            r,
            |listing: RepositoryListProjection, snapshot: WorkspaceReadSnapshot|
                listing_projected(listing, snapshot, *query),
        ),
{
    let snapshot = match read {
        Ok(snapshot) => snapshot,
        Err(error) => {
            return Err(error);
        },
    };
    let context = match ProjectionContext::new(&snapshot) {
        Ok(context) => context,
        Err(error) => {
            return Err(error);
        },
    };
    Ok(context.repositories(query))
}

/// The detail of one repository, if the snapshot a read gave catalogues it.
pub fn repository_from(
    read: PortResult<WorkspaceReadSnapshot>,
    repository_id: &RepositoryId,
) -> (r: PortResult<Option<RepositoryDetailProjection>>)
    ensures
        answered_from(
            read,
            r,
            |found: Option<RepositoryDetailProjection>, snapshot: WorkspaceReadSnapshot|
                (found is Some <==> has_repository(snapshot, repository_id@)) && (found matches Some(
                    detail,
                ) ==> detail_projected(detail, snapshot, *repository_id)),
        ),
{
    let snapshot = match read {
        Ok(snapshot) => snapshot,
        Err(error) => {
            return Err(error);
        },
    };
    let context = match ProjectionContext::new(&snapshot) {
        Ok(context) => context,
        Err(error) => {
            return Err(error);
        },
    };
    context.repository(repository_id)
}

/// What the selector names in the snapshot a read gave.
pub fn selector_resolution_from(
    read: PortResult<WorkspaceReadSnapshot>,
    selector: &RepositorySelector,
) -> (r: PortResult<RepositorySelectorResolution>)
    ensures
        answered_from(
            read,
            r,
            |resolution: RepositorySelectorResolution, snapshot: WorkspaceReadSnapshot|
                resolution_projected(resolution, snapshot, *selector),
        ),
{
    let snapshot = match read {
        Ok(snapshot) => snapshot,
        Err(error) => {
            return Err(error);
        },
    };
    let context = match ProjectionContext::new(&snapshot) {
        Ok(context) => context,
        Err(error) => {
            return Err(error);
        },
    };
    Ok(context.resolve_repository_selector(selector))
}

/// The projection of one worktree, if the snapshot a read gave knows it.
pub fn worktree_from(read: PortResult<WorkspaceReadSnapshot>, worktree_id: &WorktreeId) -> (r:
    PortResult<Option<WorktreeProjection>>)
    ensures
        answered_from(
            read,
            r,
            |found: Option<WorktreeProjection>, snapshot: WorkspaceReadSnapshot|
                match (found, find_worktree(snapshot.spec_worktrees(), worktree_id@)) {
                    (Some(projection), Some(worktree)) => worktree_projected(
                        projection,
                        snapshot,
                        worktree,
                    ),
                    (None, None) => true,
                    _ => false,
                },
        ),
{
    let snapshot = match read {
        Ok(snapshot) => snapshot,
        Err(error) => {
            return Err(error);
        },
    };
    let context = match ProjectionContext::new(&snapshot) {
        Ok(context) => context,
        Err(error) => {
            return Err(error);
        },
    };
    context.worktree(worktree_id)
}

/// The mirror of the snapshot a read gave.
pub fn mirror_from(read: PortResult<WorkspaceReadSnapshot>) -> (r: PortResult<WorkspaceMirror>)
    ensures
        answered_from(
            read,
            r,
            |mirror: WorkspaceMirror, snapshot: WorkspaceReadSnapshot|
                mirror_projected(mirror, snapshot),
        ),
{
    let snapshot = match read {
        Ok(snapshot) => snapshot,
        Err(error) => {
            return Err(error);
        },
    };
    let context = match ProjectionContext::new(&snapshot) {
        Ok(context) => context,
        Err(error) => {
            return Err(error);
        },
    };
    context.mirror()
}

/// One repository's detail and the advice of the whole mirror, both from
/// the snapshot a read gave; nothing if it does not catalogue the
/// repository.
pub fn repository_with_advisories_from(
    read: PortResult<WorkspaceReadSnapshot>,
    repository_id: &RepositoryId,
) -> (r: PortResult<Option<(RepositoryDetailProjection, AdvisoryProjection)>>)
    ensures
        answered_from(
            read,
            r,
            |found: Option<(RepositoryDetailProjection, AdvisoryProjection)>, snapshot: WorkspaceReadSnapshot|
                exists|mirror: WorkspaceMirror|
                    #[trigger] mirror_projected(mirror, snapshot) && (found is Some <==> has_repository(
                        snapshot,
                        repository_id@,
                    )) && (found matches Some((detail, advice)) ==> detail_projected(
                        detail,
                        snapshot,
                        *repository_id,
                    ) && advice_for(advice, mirror)),
        ),
{
    let snapshot = match read {
        Ok(snapshot) => snapshot,
        Err(error) => {
            return Err(error);
        },
    };
    let context = match ProjectionContext::new(&snapshot) {
        Ok(context) => context,
        Err(error) => {
            return Err(error);
        },
    };
    let mirror = match context.mirror() {
        Ok(mirror) => mirror,
        Err(error) => {
            return Err(error);
        },
    };
    let found = match context.repository(repository_id) {
        Ok(found) => found,
        Err(error) => {
            return Err(error);
        },
    };
    match found {
        Some(repository) => {
            let advice = AdvisoryEvaluator::evaluate(&mirror);
            proof {
                assert(mirror_projected(mirror, snapshot));
            }
            Ok(Some((repository, advice)))
        },
        None => {
            proof {
                assert(mirror_projected(mirror, snapshot));
            }
            Ok(None)
        },
    }
}

/// Answers read queries, each from one snapshot read through the port.
pub struct WorkspaceQueryService<'a, P: WorkspaceReadPort + ?Sized> {
    read: &'a P,
    reads: Ghost<Seq<PortResult<WorkspaceReadSnapshot>>>,
}

/// The service read the port once more, and answered from what it read.
pub open spec fn read_once_more<T>(
    before: Seq<PortResult<WorkspaceReadSnapshot>>,
    after: Seq<PortResult<WorkspaceReadSnapshot>>,
    r: PortResult<T>,
    answered: spec_fn(T, WorkspaceReadSnapshot) -> bool,
) -> bool {
    &&& after.len() == before.len() + 1
    &&& after.drop_last() == before
    &&& answered_from(after.last(), r, answered)
}

impl<'a, P: WorkspaceReadPort + ?Sized> WorkspaceQueryService<'a, P> {
    /// Whether the service reads through exactly this port.
    pub closed spec fn reads_through(&self, read: &'a P) -> bool {
        self.read == read
    }

    /// What the port answered to each read, in order.
    pub closed spec fn spec_reads(&self) -> Seq<PortResult<WorkspaceReadSnapshot>> {
        self.reads@
    }

    pub fn new(read: &'a P) -> (service: Self)
        ensures
            service.reads_through(read),
            service.spec_reads() == Seq::<PortResult<WorkspaceReadSnapshot>>::empty(),
    {
        WorkspaceQueryService { read, reads: Ghost(Seq::empty()) }
    }

    /// Reads the port once, and records what it answered.
    fn read_snapshot(&mut self) -> (r: PortResult<WorkspaceReadSnapshot>)
        ensures
            final(self).spec_reads() == old(self).spec_reads().push(r),
            final(self).reads_through(old(self).read),
    {
        let answer = self.read.read_workspace();
        self.reads = Ghost(self.reads@.push(answer));
        answer
    }

    /// The overview of the snapshot read.
    pub fn overview(&mut self) -> (r: PortResult<OverviewProjection>)
        ensures
            read_once_more(
                old(self).spec_reads(),
                final(self).spec_reads(),
                r,
                |overview: OverviewProjection, snapshot: WorkspaceReadSnapshot|
                    overview_projected(overview, snapshot),
            ),
    {
        let read = self.read_snapshot();
        proof {
            assert(self.reads@.drop_last() =~= old(self).reads@);
        }
        overview_from(read)
    }

    /// One page of the repositories the query selects, from the snapshot
    /// read.
    pub fn repositories(&mut self, query: &RepositoryListQuery) -> (r: PortResult<
        RepositoryListProjection,
    >)
        ensures
            read_once_more(
                old(self).spec_reads(),
                final(self).spec_reads(),
                r,
                |listing: RepositoryListProjection, snapshot: WorkspaceReadSnapshot|
                    listing_projected(listing, snapshot, *query),
            ),
    {
        let read = self.read_snapshot();
        proof {
            assert(self.reads@.drop_last() =~= old(self).reads@);
        }
        repositories_from(read, query)
    }

    /// The detail of one repository, if the snapshot read catalogues it.
    pub fn repository(&mut self, repository_id: &RepositoryId) -> (r: PortResult<
        Option<RepositoryDetailProjection>,
    >)
        ensures
            read_once_more(
                old(self).spec_reads(),
                final(self).spec_reads(),
                r,
                |found: Option<RepositoryDetailProjection>, snapshot: WorkspaceReadSnapshot|
                    (found is Some <==> has_repository(snapshot, repository_id@)) && (found matches Some(
                        detail,
                    ) ==> detail_projected(detail, snapshot, *repository_id)),
            ),
    {
        let read = self.read_snapshot();
        proof {
            assert(self.reads@.drop_last() =~= old(self).reads@);
        }
        repository_from(read, repository_id)
    }

    /// What the selector names in the snapshot read.
    pub fn resolve_repository_selector(&mut self, selector: &RepositorySelector) -> (r: PortResult<
        RepositorySelectorResolution,
    >)
        ensures
            read_once_more(
                old(self).spec_reads(),
                final(self).spec_reads(),
                r,
                |resolution: RepositorySelectorResolution, snapshot: WorkspaceReadSnapshot|
                    resolution_projected(resolution, snapshot, *selector),
            ),
    {
        let read = self.read_snapshot();
        proof {
            assert(self.reads@.drop_last() =~= old(self).reads@);
        }
        selector_resolution_from(read, selector)
    }

    /// The projection of one worktree, if the snapshot read knows it.
    pub fn worktree(&mut self, worktree_id: &WorktreeId) -> (r: PortResult<Option<WorktreeProjection>>)
        ensures
            read_once_more(
                old(self).spec_reads(),
                final(self).spec_reads(),
                r,
                |found: Option<WorktreeProjection>, snapshot: WorkspaceReadSnapshot|
                    match (found, find_worktree(snapshot.spec_worktrees(), worktree_id@)) {
                        (Some(projection), Some(worktree)) => worktree_projected(
                            projection,
                            snapshot,
                            worktree,
                        ),
                        (None, None) => true,
                        _ => false,
                    },
            ),
    {
        let read = self.read_snapshot();
        proof {
            assert(self.reads@.drop_last() =~= old(self).reads@);
        }
        worktree_from(read, worktree_id)
    }

    /// The mirror of the snapshot read: overview and every repository at
    /// one revision.
    pub fn mirror(&mut self) -> (r: PortResult<WorkspaceMirror>)
        ensures
            read_once_more(
                old(self).spec_reads(),
                final(self).spec_reads(),
                r,
                |mirror: WorkspaceMirror, snapshot: WorkspaceReadSnapshot|
                    mirror_projected(mirror, snapshot),
            ),
    {
        let read = self.read_snapshot();
        proof {
            assert(self.reads@.drop_last() =~= old(self).reads@);
        }
        mirror_from(read)
    }

    /// The advice derived from the mirror of the snapshot read.
    pub fn advisories(&mut self) -> (r: PortResult<AdvisoryProjection>)
        ensures
            read_once_more(
                old(self).spec_reads(),
                final(self).spec_reads(),
                r,
                |advice: AdvisoryProjection, snapshot: WorkspaceReadSnapshot|
                    exists|mirror: WorkspaceMirror|
                        #[trigger] mirror_projected(mirror, snapshot) && advice_for(advice, mirror),
            ),
    {
        let mirror = match self.mirror() {
            Ok(mirror) => mirror,
            Err(error) => {
                return Err(error);
            },
        };
        let advice = AdvisoryEvaluator::evaluate(&mirror);
        proof {
            let snapshot = self.reads@.last()->Ok_0;
            assert(mirror_projected(mirror, snapshot));
        }
        Ok(advice)
    }

    /// The overview and the advice, both from the mirror of the snapshot
    /// read.
    pub fn overview_with_advisories(&mut self) -> (r: PortResult<(OverviewProjection, AdvisoryProjection)>)
        ensures
            read_once_more(
                old(self).spec_reads(),
                final(self).spec_reads(),
                r,
                |answer: (OverviewProjection, AdvisoryProjection), snapshot: WorkspaceReadSnapshot|
                    exists|mirror: WorkspaceMirror|
                        #[trigger] mirror_projected(mirror, snapshot) && answer.0 == mirror.spec_overview()
                            && advice_for(answer.1, mirror),
            ),
    {
        let mirror = match self.mirror() {
            Ok(mirror) => mirror,
            Err(error) => {
                return Err(error);
            },
        };
        let overview = *mirror.overview();
        let advice = AdvisoryEvaluator::evaluate(&mirror);
        proof {
            let snapshot = self.reads@.last()->Ok_0;
            assert(mirror_projected(mirror, snapshot));
        }
        Ok((overview, advice))
    }

    /// One repository's detail and the advice of the whole mirror, both from
    /// the snapshot read; nothing if the repository is not catalogued.
    pub fn repository_with_advisories(&mut self, repository_id: &RepositoryId) -> (r: PortResult<
        Option<(RepositoryDetailProjection, AdvisoryProjection)>,
    >)
        ensures
            read_once_more(
                old(self).spec_reads(),
                final(self).spec_reads(),
                r,
                |found: Option<(RepositoryDetailProjection, AdvisoryProjection)>, snapshot: WorkspaceReadSnapshot|
                    exists|mirror: WorkspaceMirror|
                        #[trigger] mirror_projected(mirror, snapshot) && (found is Some <==> has_repository(
                            snapshot,
                            repository_id@,
                        )) && (found matches Some((detail, advice)) ==> detail_projected(
                            detail,
                            snapshot,
                            *repository_id,
                        ) && advice_for(advice, mirror)),
            ),
    {
        let read = self.read_snapshot();
        proof {
            assert(self.reads@.drop_last() =~= old(self).reads@);
        }
        repository_with_advisories_from(read, repository_id)
    }
}

} // verus!
