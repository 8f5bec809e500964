use vstd::prelude::*;

use crate::identity::{LocationId, RepositoryId};
use crate::path::FsPath;
use crate::topology::{Location, Repository, Worktree};

use super::error::PortResult;
use super::filesystem::FilesystemObjectId;

verus! {

/// Whether a reconciliation covers everything under its root.
#[derive(Clone, Copy, Debug, PartialEq, Eq, Hash, Structural)]
pub enum CatalogReconciliationCoverage {
    Complete,
    Partial,
}

/// Which catalog entries under a root may be marked missing when they were
/// not seen: none, the whole tree, or the tree on one filesystem.
#[derive(Clone, Copy, Debug, PartialEq, Eq, Hash, Structural)]
pub enum CatalogMissingScope {
    Nothing,
    Tree,
    Filesystem(u128),
}

/// The evidence a repository identity was resolved from.
#[derive(Clone, Debug, PartialEq, Eq)]
pub struct RepositoryIdentityEvidence {
    repository_id: RepositoryId,
    common_dir: FsPath,
    common_dir_object_id: Option<FilesystemObjectId>,
}

impl RepositoryIdentityEvidence {
    pub closed spec fn spec_repository_id(&self) -> RepositoryId {
        self.repository_id
    }

    pub closed spec fn spec_common_dir(&self) -> FsPath {
        self.common_dir
    }

    pub closed spec fn spec_common_dir_object_id(&self) -> Option<FilesystemObjectId> {
        self.common_dir_object_id
    }

    pub fn new(repository_id: RepositoryId, common_dir: FsPath, common_dir_object_id: Option<FilesystemObjectId>) -> (r: Self)
        ensures
            r.spec_repository_id() == repository_id,
            r.spec_common_dir() == common_dir,
            r.spec_common_dir_object_id() == common_dir_object_id,
    {
        RepositoryIdentityEvidence { repository_id, common_dir, common_dir_object_id }
    }

    pub fn repository_id(&self) -> (r: &RepositoryId)
        ensures
            *r == self.spec_repository_id(),
    {
        &self.repository_id
    }

    pub fn common_dir(&self) -> (r: &FsPath)
        ensures
            *r == self.spec_common_dir(),
    {
        &self.common_dir
    }

    pub fn common_dir_object_id(&self) -> (r: Option<FilesystemObjectId>)
        ensures
            r == self.spec_common_dir_object_id(),
    {
        self.common_dir_object_id
    }

}

/// The evidence a location identity was resolved from.
#[derive(Clone, Debug, PartialEq, Eq)]
pub struct LocationIdentityEvidence {
    location_id: LocationId,
    object_id: Option<FilesystemObjectId>,
}

impl LocationIdentityEvidence {
    pub closed spec fn spec_location_id(&self) -> LocationId {
        self.location_id
    }

    pub closed spec fn spec_object_id(&self) -> Option<FilesystemObjectId> {
        self.object_id
    }

    pub fn new(location_id: LocationId, object_id: Option<FilesystemObjectId>) -> (r: Self)
        ensures
            r.spec_location_id() == location_id,
            r.spec_object_id() == object_id,
    {
        LocationIdentityEvidence { location_id, object_id }
    }

    pub fn location_id(&self) -> (r: &LocationId)
        ensures
            *r == self.spec_location_id(),
    {
        &self.location_id
    }

    pub fn object_id(&self) -> (r: Option<FilesystemObjectId>)
        ensures
            r == self.spec_object_id(),
    {
        self.object_id
    }

}

/// Everything discovery found under one root, to be applied atomically.
#[derive(Clone, Debug, PartialEq, Eq)]
pub struct CatalogReconciliation {
    discovery_root: FsPath,
    coverage: CatalogReconciliationCoverage,
    missing_scope: CatalogMissingScope,
    repositories: Vec<Repository>,
    locations: Vec<Location>,
    worktrees: Vec<Worktree>,
    repository_identities: Vec<RepositoryIdentityEvidence>,
    location_identities: Vec<LocationIdentityEvidence>,
}

impl CatalogReconciliation {
    pub closed spec fn spec_discovery_root(&self) -> FsPath {
        self.discovery_root
    }

    pub closed spec fn spec_coverage(&self) -> CatalogReconciliationCoverage {
        self.coverage
    }

    pub closed spec fn spec_missing_scope(&self) -> CatalogMissingScope {
        self.missing_scope
    }

    pub closed spec fn spec_repositories(&self) -> Seq<Repository> {
        self.repositories@
    }

    pub closed spec fn spec_locations(&self) -> Seq<Location> {
        self.locations@
    }

    pub closed spec fn spec_worktrees(&self) -> Seq<Worktree> {
        self.worktrees@
    }

    pub closed spec fn spec_repository_identities(&self) -> Seq<RepositoryIdentityEvidence> {
        self.repository_identities@
    }

    pub closed spec fn spec_location_identities(&self) -> Seq<LocationIdentityEvidence> {
        self.location_identities@
    }

    /// An empty reconciliation of a root.
    pub fn new(
        discovery_root: FsPath,
        coverage: CatalogReconciliationCoverage,
        missing_scope: CatalogMissingScope,
    ) -> (r: Self)
        ensures
            r.spec_discovery_root() == discovery_root,
            r.spec_coverage() == coverage,
            r.spec_missing_scope() == missing_scope,
            r.spec_repositories().len() == 0,
            r.spec_locations().len() == 0,
            r.spec_worktrees().len() == 0,
            r.spec_repository_identities().len() == 0,
            r.spec_location_identities().len() == 0,
    {
        CatalogReconciliation {
            discovery_root,
            coverage,
            missing_scope,
            repositories: Vec::new(),
            locations: Vec::new(),
            worktrees: Vec::new(),
            repository_identities: Vec::new(),
            location_identities: Vec::new(),
        }
    }

    pub fn with_entities(
        self,
        repositories: Vec<Repository>,
        locations: Vec<Location>,
        worktrees: Vec<Worktree>,
    ) -> (r: Self)
        ensures
            r.spec_discovery_root() == self.spec_discovery_root(),
            r.spec_coverage() == self.spec_coverage(),
            r.spec_missing_scope() == self.spec_missing_scope(),
            r.spec_repositories() == repositories@,
            r.spec_locations() == locations@,
            r.spec_worktrees() == worktrees@,
            r.spec_repository_identities() == self.spec_repository_identities(),
            r.spec_location_identities() == self.spec_location_identities(),
    {
        CatalogReconciliation { repositories, locations, worktrees, ..self }
    }

    pub fn with_identity_evidence(
        self,
        repository_identities: Vec<RepositoryIdentityEvidence>,
        location_identities: Vec<LocationIdentityEvidence>,
    ) -> (r: Self)
        ensures
            r.spec_discovery_root() == self.spec_discovery_root(),
            r.spec_coverage() == self.spec_coverage(),
            r.spec_missing_scope() == self.spec_missing_scope(),
            r.spec_repositories() == self.spec_repositories(),
            r.spec_locations() == self.spec_locations(),
            r.spec_worktrees() == self.spec_worktrees(),
            r.spec_repository_identities() == repository_identities@,
            r.spec_location_identities() == location_identities@,
    {
        CatalogReconciliation { repository_identities, location_identities, ..self }
    }

    pub fn discovery_root(&self) -> (r: &FsPath)
        ensures
            *r == self.spec_discovery_root(),
    {
        &self.discovery_root
    }

    pub fn coverage(&self) -> (r: CatalogReconciliationCoverage)
        ensures
            r == self.spec_coverage(),
    {
        self.coverage
    }

    pub fn missing_scope(&self) -> (r: CatalogMissingScope)
        ensures
            r == self.spec_missing_scope(),
    {
        self.missing_scope
    }

    pub fn repositories(&self) -> (r: &[Repository])
        ensures
            r@ == self.spec_repositories(),
    {
        self.repositories.as_slice()
    }

    pub fn locations(&self) -> (r: &[Location])
        ensures
            r@ == self.spec_locations(),
    {
        self.locations.as_slice()
    }

    pub fn worktrees(&self) -> (r: &[Worktree])
        ensures
            r@ == self.spec_worktrees(),
    {
        self.worktrees.as_slice()
    }

    pub fn repository_identities(&self) -> (r: &[RepositoryIdentityEvidence])
        ensures
            r@ == self.spec_repository_identities(),
    {
        self.repository_identities.as_slice()
    }

    pub fn location_identities(&self) -> (r: &[LocationIdentityEvidence])
        ensures
            r@ == self.spec_location_identities(),
    {
        self.location_identities.as_slice()
    }
}

/// The persisted catalog of repositories, locations and working trees.
pub trait RepositoryCatalogPort {
    fn repositories(&self) -> PortResult<Vec<Repository>>;

    fn repository(&self, repository_id: &RepositoryId) -> PortResult<Option<Repository>>;

    fn location(&self, location_id: &LocationId) -> PortResult<Option<Location>>;

    fn location_by_path(&self, path: &FsPath) -> PortResult<Option<Location>>;

    fn repository_id_by_common_dir(&self, common_dir: &FsPath) -> PortResult<Option<RepositoryId>>;

    fn repository_id_by_common_dir_object(
        &self,
        object_id: FilesystemObjectId,
    ) -> PortResult<Option<RepositoryId>>;

    fn location_id_by_filesystem_object(
        &self,
        object_id: FilesystemObjectId,
    ) -> PortResult<Option<LocationId>>;

    fn locations_for_repository(&self, repository_id: &RepositoryId) -> PortResult<Vec<Location>>;

    fn worktrees_for_repository(&self, repository_id: &RepositoryId) -> PortResult<Vec<Worktree>>;

    fn mark_discovery_root_offline(&mut self, root: &FsPath) -> PortResult<()>;

    fn reconcile(&mut self, reconciliation: &CatalogReconciliation) -> PortResult<()>;
}

} // verus!
