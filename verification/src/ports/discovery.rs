use vstd::prelude::*;

use crate::diagnostics::FailureCause;
use crate::path::FsPath;

use super::error::PortResult;

verus! {

/// Whether bare repositories are discovered.
#[derive(Clone, Copy, Debug, PartialEq, Eq, Hash, Structural)]
pub enum BareRepositoryDiscovery {
    Disabled,
    Enabled,
}

impl Default for BareRepositoryDiscovery {
    fn default() -> (r: Self)
        ensures
            r == BareRepositoryDiscovery::Disabled,
    {
        BareRepositoryDiscovery::Disabled
    }
}

/// Whether symbolic links are followed during discovery.
#[derive(Clone, Copy, Debug, PartialEq, Eq, Hash, Structural)]
pub enum SymlinkTraversal {
    DoNotFollow,
    FollowWithinRoot,
}

impl Default for SymlinkTraversal {
    fn default() -> (r: Self)
        ensures
            r == SymlinkTraversal::DoNotFollow,
    {
        SymlinkTraversal::DoNotFollow
    }
}

/// Whether discovery may leave the filesystem of its root.
#[derive(Clone, Copy, Debug, PartialEq, Eq, Hash, Structural)]
pub enum FilesystemBoundary {
    StayOnRootFilesystem,
    CrossFilesystems,
}

impl Default for FilesystemBoundary {
    fn default() -> (r: Self)
        ensures
            r == FilesystemBoundary::StayOnRootFilesystem,
    {
        FilesystemBoundary::StayOnRootFilesystem
    }
}

/// A request to discover repositories under one root.
#[derive(Clone, Debug, PartialEq, Eq, Hash)]
pub struct DiscoveryRequest {
    root: FsPath,
    exclusions: Vec<FsPath>,
    bare_repositories: BareRepositoryDiscovery,
    symlink_traversal: SymlinkTraversal,
    filesystem_boundary: FilesystemBoundary,
}

impl DiscoveryRequest {
    pub closed spec fn spec_root(&self) -> FsPath {
        self.root
    }

    pub closed spec fn spec_exclusions(&self) -> Seq<FsPath> {
        self.exclusions@
    }

    pub closed spec fn spec_bare_repositories(&self) -> BareRepositoryDiscovery {
        self.bare_repositories
    }

    pub closed spec fn spec_symlink_traversal(&self) -> SymlinkTraversal {
        self.symlink_traversal
    }

    pub closed spec fn spec_filesystem_boundary(&self) -> FilesystemBoundary {
        self.filesystem_boundary
    }

    /// A request with conservative defaults: no exclusions, no bare
    /// repositories, no symbolic links, one filesystem.
    pub fn new(root: FsPath) -> (r: Self)
        ensures
            r.spec_root() == root,
            r.spec_exclusions().len() == 0,
            r.spec_bare_repositories() == BareRepositoryDiscovery::Disabled,
            r.spec_symlink_traversal() == SymlinkTraversal::DoNotFollow,
            r.spec_filesystem_boundary() == FilesystemBoundary::StayOnRootFilesystem,
    {
        DiscoveryRequest {
            root,
            exclusions: Vec::new(),
            bare_repositories: BareRepositoryDiscovery::Disabled,
            symlink_traversal: SymlinkTraversal::DoNotFollow,
            filesystem_boundary: FilesystemBoundary::StayOnRootFilesystem,
        }
    }

    pub fn with_exclusion(self, path: FsPath) -> (r: Self)
        ensures
            r.spec_root() == self.spec_root(),
            r.spec_exclusions() == self.spec_exclusions().push(path),
            r.spec_bare_repositories() == self.spec_bare_repositories(),
            r.spec_symlink_traversal() == self.spec_symlink_traversal(),
            r.spec_filesystem_boundary() == self.spec_filesystem_boundary(),
    {
        let mut exclusions = self.exclusions;
        exclusions.push(path);
        DiscoveryRequest { exclusions, ..self }
    }

    pub fn with_bare_repositories(self, value: BareRepositoryDiscovery) -> (r: Self)
        ensures
            r.spec_root() == self.spec_root(),
            r.spec_exclusions() == self.spec_exclusions(),
            r.spec_bare_repositories() == value,
            r.spec_symlink_traversal() == self.spec_symlink_traversal(),
            r.spec_filesystem_boundary() == self.spec_filesystem_boundary(),
    {
        DiscoveryRequest { bare_repositories: value, ..self }
    }

    pub fn with_symlink_traversal(self, value: SymlinkTraversal) -> (r: Self)
        ensures
            r.spec_root() == self.spec_root(),
            r.spec_exclusions() == self.spec_exclusions(),
            r.spec_bare_repositories() == self.spec_bare_repositories(),
            r.spec_symlink_traversal() == value,
            r.spec_filesystem_boundary() == self.spec_filesystem_boundary(),
    {
        DiscoveryRequest { symlink_traversal: value, ..self }
    }

    pub fn with_filesystem_boundary(self, value: FilesystemBoundary) -> (r: Self)
        ensures
            r.spec_root() == self.spec_root(),
            r.spec_exclusions() == self.spec_exclusions(),
            r.spec_bare_repositories() == self.spec_bare_repositories(),
            r.spec_symlink_traversal() == self.spec_symlink_traversal(),
            r.spec_filesystem_boundary() == value,
    {
        DiscoveryRequest { filesystem_boundary: value, ..self }
    }

    pub fn root(&self) -> (r: &FsPath)
        ensures
            *r == self.spec_root(),
    {
        &self.root
    }

    pub fn exclusions(&self) -> (r: &[FsPath])
        ensures
            r@ == self.spec_exclusions(),
    {
        self.exclusions.as_slice()
    }

    pub fn bare_repositories(&self) -> (r: BareRepositoryDiscovery)
        ensures
            r == self.spec_bare_repositories(),
    {
        self.bare_repositories
    }

    pub fn symlink_traversal(&self) -> (r: SymlinkTraversal)
        ensures
            r == self.spec_symlink_traversal(),
    {
        self.symlink_traversal
    }

    pub fn filesystem_boundary(&self) -> (r: FilesystemBoundary)
        ensures
            r == self.spec_filesystem_boundary(),
    {
        self.filesystem_boundary
    }
}

/// A path that may hold a repository.
#[derive(Clone, Debug, PartialEq, Eq, Hash)]
pub struct RepositoryCandidate {
    path: FsPath,
}

impl RepositoryCandidate {
    pub closed spec fn spec_path(&self) -> FsPath {
        self.path
    }

    pub fn new(path: FsPath) -> (r: Self)
        ensures
            r.spec_path() == path,
    {
        RepositoryCandidate { path }
    }

    pub fn path(&self) -> (r: &FsPath)
        ensures
            *r == self.spec_path(),
    {
        &self.path
    }

}

/// Whether discovery traversed everything under its root.
#[derive(Clone, Copy, Debug, PartialEq, Eq, Hash, Structural)]
pub enum DiscoveryCompleteness {
    Complete,
    Partial,
}

/// Why part of the tree could not be traversed.
#[derive(Clone, Copy, Debug, PartialEq, Eq, Hash, Structural)]
pub enum DiscoveryIssueKind {
    PermissionDenied,
    ResourceUnavailable,
    IoFailure,
}

impl DiscoveryIssueKind {
    pub open spec fn spec_failure_cause(self) -> FailureCause {
        match self {
            DiscoveryIssueKind::PermissionDenied => FailureCause::PermissionDenied,
            DiscoveryIssueKind::ResourceUnavailable => FailureCause::ResourceUnavailable,
            DiscoveryIssueKind::IoFailure => FailureCause::IoFailure,
        }
    }

    pub fn failure_cause(self) -> (r: FailureCause)
        ensures
            r == self.spec_failure_cause(),
    {
        match self {
            DiscoveryIssueKind::PermissionDenied => FailureCause::PermissionDenied,
            DiscoveryIssueKind::ResourceUnavailable => FailureCause::ResourceUnavailable,
            DiscoveryIssueKind::IoFailure => FailureCause::IoFailure,
        }
    }
}

/// A part of the tree that discovery could not traverse.
#[derive(Clone, Debug, PartialEq, Eq, Hash)]
pub struct DiscoveryIssue {
    path: FsPath,
    kind: DiscoveryIssueKind,
}

impl DiscoveryIssue {
    pub closed spec fn spec_path(&self) -> FsPath {
        self.path
    }

    pub closed spec fn spec_kind(&self) -> DiscoveryIssueKind {
        self.kind
    }

    pub fn new(path: FsPath, kind: DiscoveryIssueKind) -> (r: Self)
        ensures
            r.spec_path() == path,
            r.spec_kind() == kind,
    {
        DiscoveryIssue { path, kind }
    }

    pub fn path(&self) -> (r: &FsPath)
        ensures
            *r == self.spec_path(),
    {
        &self.path
    }

    pub fn kind(&self) -> (r: DiscoveryIssueKind)
        ensures
            r == self.spec_kind(),
    {
        self.kind
    }

    /// A copy of the issue: the same path and kind.
    pub fn duplicate(&self) -> (r: Self)
        ensures
            r.spec_path()@ == self.spec_path()@,
            r.spec_kind() == self.spec_kind(),
    {
        DiscoveryIssue { path: self.path.duplicate(), kind: self.kind }
    }

}
/// The candidates and issues found under one root.
#[derive(Clone, Debug, PartialEq, Eq)]
pub struct DiscoveryOutcome {
    root: FsPath,
    candidates: Vec<RepositoryCandidate>,
    issues: Vec<DiscoveryIssue>,
}

impl DiscoveryOutcome {
    pub closed spec fn spec_root(&self) -> FsPath {
        self.root
    }

    pub closed spec fn spec_candidates(&self) -> Vec<RepositoryCandidate> {
        self.candidates
    }

    pub closed spec fn spec_issues(&self) -> Vec<DiscoveryIssue> {
        self.issues
    }

    pub fn new(root: FsPath, candidates: Vec<RepositoryCandidate>, issues: Vec<DiscoveryIssue>) -> (r: Self)
        ensures
            r.spec_root() == root,
            r.spec_candidates() == candidates,
            r.spec_issues() == issues,
    {
        DiscoveryOutcome { root, candidates, issues }
    }

    pub fn root(&self) -> (r: &FsPath)
        ensures
            *r == self.spec_root(),
    {
        &self.root
    }

    pub fn candidates(&self) -> (r: &[RepositoryCandidate])
        ensures
            r@ == self.spec_candidates()@,
    {
        self.candidates.as_slice()
    }

    pub fn issues(&self) -> (r: &[DiscoveryIssue])
        ensures
            r@ == self.spec_issues()@,
    {
        self.issues.as_slice()
    }

    /// An outcome without issues.
    pub fn complete(root: FsPath, candidates: Vec<RepositoryCandidate>) -> (r: Self)
        ensures
            r.spec_root() == root,
            r.spec_candidates() == candidates,
            r.spec_issues()@.len() == 0,
    {
        DiscoveryOutcome { root, candidates, issues: Vec::new() }
    }

    pub open spec fn spec_completeness(&self) -> DiscoveryCompleteness {
        if self.spec_issues()@.len() == 0 {
            DiscoveryCompleteness::Complete
        } else {
            DiscoveryCompleteness::Partial
        }
    }

    /// Complete exactly when no issue was met.
    pub fn completeness(&self) -> (r: DiscoveryCompleteness)
        ensures
            r == self.spec_completeness(),
    {
        if self.issues.len() == 0 {
            DiscoveryCompleteness::Complete
        } else {
            DiscoveryCompleteness::Partial
        }
    }
}

/// Finds repository candidates under a root.
pub trait RepositoryDiscoveryPort {
    fn discover(&self, request: &DiscoveryRequest) -> PortResult<DiscoveryOutcome>;
}

} // verus!
