use vstd::prelude::*;

use crate::identity::{LocationId, RepositoryId, WorktreeId};
use crate::path::FsPath;

verus! {

/// A repository known to the workspace, identified independently of where it lives.
#[derive(Clone, Debug, PartialEq, Eq)]
pub struct Repository {
    id: RepositoryId,
}

impl Repository {
    pub closed spec fn spec_id(&self) -> RepositoryId {
        self.id
    }

    pub fn new(id: RepositoryId) -> (r: Self)
        ensures
            r.spec_id() == id,
    {
        Repository { id }
    }

    pub fn id(&self) -> (r: &RepositoryId)
        ensures
            *r == self.spec_id(),
    {
        &self.id
    }

}

/// Whether a location can currently be reached.
#[derive(Clone, Copy, Debug, PartialEq, Eq, Hash, Structural)]
pub enum LocationAvailability {
    Available,
    Missing,
    Offline,
}

/// A filesystem location of a repository.
#[derive(Clone, Debug, PartialEq, Eq)]
pub struct Location {
    id: LocationId,
    repository_id: RepositoryId,
    path: FsPath,
    availability: LocationAvailability,
}

impl Location {
    pub closed spec fn spec_id(&self) -> LocationId {
        self.id
    }

    pub closed spec fn spec_repository_id(&self) -> RepositoryId {
        self.repository_id
    }

    pub closed spec fn spec_path(&self) -> FsPath {
        self.path
    }

    pub closed spec fn spec_availability(&self) -> LocationAvailability {
        self.availability
    }

    pub fn new(id: LocationId, repository_id: RepositoryId, path: FsPath, availability: LocationAvailability) -> (r: Self)
        ensures
            r.spec_id() == id,
            r.spec_repository_id() == repository_id,
            r.spec_path() == path,
            r.spec_availability() == availability,
    {
        Location { id, repository_id, path, availability }
    }

    pub fn id(&self) -> (r: &LocationId)
        ensures
            *r == self.spec_id(),
    {
        &self.id
    }

    pub fn repository_id(&self) -> (r: &RepositoryId)
        ensures
            *r == self.spec_repository_id(),
    {
        &self.repository_id
    }

    pub fn path(&self) -> (r: &FsPath)
        ensures
            *r == self.spec_path(),
    {
        &self.path
    }

    pub fn availability(&self) -> (r: LocationAvailability)
        ensures
            r == self.spec_availability(),
    {
        self.availability
    }

}

/// A working tree of a repository, at one of its locations.
#[derive(Clone, Debug, PartialEq, Eq)]
pub struct Worktree {
    id: WorktreeId,
    repository_id: RepositoryId,
    location_id: LocationId,
}

impl Worktree {
    pub closed spec fn spec_id(&self) -> WorktreeId {
        self.id
    }

    pub closed spec fn spec_repository_id(&self) -> RepositoryId {
        self.repository_id
    }

    pub closed spec fn spec_location_id(&self) -> LocationId {
        self.location_id
    }

    pub fn new(id: WorktreeId, repository_id: RepositoryId, location_id: LocationId) -> (r: Self)
        ensures
            r.spec_id() == id,
            r.spec_repository_id() == repository_id,
            r.spec_location_id() == location_id,
    {
        Worktree { id, repository_id, location_id }
    }

    pub fn id(&self) -> (r: &WorktreeId)
        ensures
            *r == self.spec_id(),
    {
        &self.id
    }

    pub fn repository_id(&self) -> (r: &RepositoryId)
        ensures
            *r == self.spec_repository_id(),
    {
        &self.repository_id
    }

    pub fn location_id(&self) -> (r: &LocationId)
        ensures
            *r == self.spec_location_id(),
    {
        &self.location_id
    }

}

} // verus!
