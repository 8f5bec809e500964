use vstd::prelude::*;

use crate::path::FsPath;

use super::error::PortResult;

verus! {

/// Identity of a filesystem object: the filesystem and the object on it.
#[derive(Clone, Copy, Debug, PartialEq, Eq, Hash, Structural)]
pub struct FilesystemObjectId {
    filesystem_id: u128,
    object_id: u128,
}

impl FilesystemObjectId {
    pub closed spec fn spec_filesystem_id(&self) -> u128 {
        self.filesystem_id
    }

    pub closed spec fn spec_object_id(&self) -> u128 {
        self.object_id
    }

    pub fn new(filesystem_id: u128, object_id: u128) -> (r: Self)
        ensures
            r.spec_filesystem_id() == filesystem_id,
            r.spec_object_id() == object_id,
    {
        FilesystemObjectId { filesystem_id, object_id }
    }

    pub fn filesystem_id(&self) -> (r: u128)
        ensures
            r == self.spec_filesystem_id(),
    {
        self.filesystem_id
    }

    pub fn object_id(&self) -> (r: u128)
        ensures
            r == self.spec_object_id(),
    {
        self.object_id
    }

}

/// What is known of the identity of a filesystem object.
#[derive(Clone, Copy, Debug, PartialEq, Eq, Hash, Structural)]
pub enum FilesystemIdentityEvidence {
    Strong(FilesystemObjectId),
    PathOnly,
}

impl FilesystemIdentityEvidence {
    pub fn strong(object_id: FilesystemObjectId) -> (r: Self)
        ensures
            r == FilesystemIdentityEvidence::Strong(object_id),
    {
        FilesystemIdentityEvidence::Strong(object_id)
    }

    pub open spec fn spec_object_id(self) -> Option<FilesystemObjectId> {
        match self {
            FilesystemIdentityEvidence::Strong(object_id) => Some(object_id),
            FilesystemIdentityEvidence::PathOnly => None,
        }
    }

    pub fn object_id(self) -> (r: Option<FilesystemObjectId>)
        ensures
            r == self.spec_object_id(),
    {
        match self {
            FilesystemIdentityEvidence::Strong(object_id) => Some(object_id),
            FilesystemIdentityEvidence::PathOnly => None,
        }
    }

    pub fn is_strong(self) -> (r: bool)
        ensures
            r == (self is Strong),
    {
        match self {
            FilesystemIdentityEvidence::Strong(_) => true,
            FilesystemIdentityEvidence::PathOnly => false,
        }
    }
}

/// Reads the identity of filesystem objects.
pub trait FilesystemIdentityPort {
    fn identity(&self, path: &FsPath) -> PortResult<FilesystemIdentityEvidence>;
}

} // verus!
