use vstd::prelude::*;

use crate::path::FsPath;

use super::discovery::RepositoryCandidate;
use super::error::PortResult;

verus! {

/// Where a repository's working tree, Git directory and common directory are.
#[derive(Clone, Debug, PartialEq, Eq, Hash)]
pub struct GitRepositoryLayout {
    worktree_path: Option<FsPath>,
    git_dir: FsPath,
    common_dir: FsPath,
}

impl GitRepositoryLayout {
    pub closed spec fn spec_worktree_path(&self) -> Option<FsPath> {
        self.worktree_path
    }

    pub closed spec fn spec_git_dir(&self) -> FsPath {
        self.git_dir
    }

    pub closed spec fn spec_common_dir(&self) -> FsPath {
        self.common_dir
    }

    /// The layout of a repository with a working tree.
    pub fn worktree(worktree_path: FsPath, git_dir: FsPath, common_dir: FsPath) -> (r: Self)
        ensures
            r.spec_worktree_path() == Some(worktree_path),
            r.spec_git_dir() == git_dir,
            r.spec_common_dir() == common_dir,
    {
        GitRepositoryLayout { worktree_path: Some(worktree_path), git_dir, common_dir }
    }

    /// The layout of a bare repository.
    pub fn bare(git_dir: FsPath, common_dir: FsPath) -> (r: Self)
        ensures
            r.spec_worktree_path() == None::<FsPath>,
            r.spec_git_dir() == git_dir,
            r.spec_common_dir() == common_dir,
    {
        GitRepositoryLayout { worktree_path: None, git_dir, common_dir }
    }

    pub fn worktree_path(&self) -> (r: Option<&FsPath>)
        ensures
            r == match self.spec_worktree_path() {
                Some(p) => Some(&p),
                None => None,
            },
    {
        match &self.worktree_path {
            Some(path) => Some(path),
            None => None,
        }
    }

    pub fn git_dir(&self) -> (r: &FsPath)
        ensures
            *r == self.spec_git_dir(),
    {
        &self.git_dir
    }

    pub fn common_dir(&self) -> (r: &FsPath)
        ensures
            *r == self.spec_common_dir(),
    {
        &self.common_dir
    }

    /// Bare exactly when there is no working tree.
    pub fn is_bare(&self) -> (r: bool)
        ensures
            r == (self.spec_worktree_path() is None),
    {
        self.worktree_path.is_none()
    }
}

/// Reads the layout of a candidate repository.
pub trait GitRepositoryProbePort {
    fn probe(&self, candidate: &RepositoryCandidate) -> PortResult<GitRepositoryLayout>;
}

} // verus!
