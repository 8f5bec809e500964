use vstd::prelude::*;

verus! {

/// A named Git remote.
#[derive(Clone, Debug, Eq, Hash)]
pub struct Remote {
    name: String,
}

impl Remote {
    pub closed spec fn spec_name(&self) -> Seq<char> {
        self.name@
    }

    pub fn new(name: &str) -> (r: Self)
        ensures
            r.spec_name() == name@,
    {
        Remote { name: name.to_owned() }
    }

    pub fn from_string(name: String) -> (r: Self)
        ensures
            r.spec_name() == name@,
    {
        Remote { name }
    }

    pub fn name(&self) -> (r: &str)
        ensures
            r@ == self.spec_name(),
    {
        self.name.as_str()
    }

    pub fn duplicate(&self) -> (r: Self)
        ensures
            r.spec_name() == self.spec_name(),
            r == *self,
    {
        Remote { name: self.name.clone() }
    }
}

impl PartialEq for Remote {
    fn eq(&self, other: &Self) -> (equal: bool) {
        self.name == other.name
    }
}

impl vstd::std_specs::cmp::PartialEqSpecImpl for Remote {
    open spec fn obeys_eq_spec() -> bool {
        true
    }

    open spec fn eq_spec(&self, other: &Self) -> bool {
        self.spec_name() == other.spec_name()
    }
}

/// A named Git branch.
#[derive(Clone, Debug, Eq, Hash)]
pub struct Branch {
    name: String,
}

impl Branch {
    pub closed spec fn spec_name(&self) -> Seq<char> {
        self.name@
    }

    pub fn new(name: &str) -> (r: Self)
        ensures
            r.spec_name() == name@,
    {
        Branch { name: name.to_owned() }
    }

    pub fn from_string(name: String) -> (r: Self)
        ensures
            r.spec_name() == name@,
    {
        Branch { name }
    }

    pub fn name(&self) -> (r: &str)
        ensures
            r@ == self.spec_name(),
    {
        self.name.as_str()
    }

    pub fn duplicate(&self) -> (r: Self)
        ensures
            r.spec_name() == self.spec_name(),
            r == *self,
    {
        Branch { name: self.name.clone() }
    }
}

impl PartialEq for Branch {
    fn eq(&self, other: &Self) -> (equal: bool) {
        self.name == other.name
    }
}

impl vstd::std_specs::cmp::PartialEqSpecImpl for Branch {
    open spec fn obeys_eq_spec() -> bool {
        true
    }

    open spec fn eq_spec(&self, other: &Self) -> bool {
        self.spec_name() == other.spec_name()
    }
}

/// The semantic kind of a HEAD state.
#[derive(Clone, Copy, Debug, PartialEq, Eq, Hash, Structural)]
pub enum HeadKind {
    Unborn,
    Branch,
    Detached,
}

/// What HEAD points at in a working tree.
#[derive(Clone, Debug, PartialEq, Eq)]
pub enum Head {
    Unborn(Branch),
    Branch(Branch),
    Detached,
}

impl Head {
    pub open spec fn spec_kind(&self) -> HeadKind {
        match self {
            Head::Unborn(_) => HeadKind::Unborn,
            Head::Branch(_) => HeadKind::Branch,
            Head::Detached => HeadKind::Detached,
        }
    }

    pub fn kind(&self) -> (kind: HeadKind)
        ensures
            kind == self.spec_kind(),
    {
        match self {
            Head::Unborn(_) => HeadKind::Unborn,
            Head::Branch(_) => HeadKind::Branch,
            Head::Detached => HeadKind::Detached,
        }
    }

    /// A copy of this head.
    pub fn duplicate(&self) -> (r: Self)
        ensures
            r == *self,
    {
        match self {
            Head::Unborn(branch) => Head::Unborn(branch.duplicate()),
            Head::Branch(branch) => Head::Branch(branch.duplicate()),
            Head::Detached => Head::Detached,
        }
    }
}

/// The configured upstream of a branch: a remote and a branch on it.
#[derive(Clone, Debug, PartialEq, Eq, Hash)]
pub struct Upstream {
    remote: Remote,
    branch: Branch,
}

impl Upstream {
    pub closed spec fn spec_remote(&self) -> Remote {
        self.remote
    }

    pub closed spec fn spec_branch(&self) -> Branch {
        self.branch
    }

    pub fn new(remote: Remote, branch: Branch) -> (r: Self)
        ensures
            r.spec_remote() == remote,
            r.spec_branch() == branch,
    {
        Upstream { remote, branch }
    }

    pub fn remote(&self) -> (r: &Remote)
        ensures
            *r == self.spec_remote(),
    {
        &self.remote
    }

    pub fn branch(&self) -> (r: &Branch)
        ensures
            *r == self.spec_branch(),
    {
        &self.branch
    }

    /// A copy of this upstream.
    pub fn duplicate(&self) -> (r: Self)
        ensures
            r == *self,
    {
        Upstream { remote: self.remote.duplicate(), branch: self.branch.duplicate() }
    }

}

/// How a local branch relates to its upstream.
#[derive(Clone, Copy, Debug, PartialEq, Eq, Hash, Structural)]
pub enum UpstreamRelation {
    Synchronized,
    Ahead,
    Behind,
    Diverged,
}

/// The relation determined by the commit counts on each side.
pub open spec fn relation_of(ahead: u64, behind: u64) -> UpstreamRelation {
    if ahead == 0 && behind == 0 {
        UpstreamRelation::Synchronized
    } else if behind == 0 {
        UpstreamRelation::Ahead
    } else if ahead == 0 {
        UpstreamRelation::Behind
    } else {
        UpstreamRelation::Diverged
    }
}

/// Commit counts ahead of and behind the upstream.
#[derive(Clone, Copy, Debug, PartialEq, Eq, Hash, Structural)]
pub struct UpstreamDivergence {
    ahead: u64,
    behind: u64,
}

impl UpstreamDivergence {
    pub closed spec fn spec_ahead(&self) -> u64 {
        self.ahead
    }

    pub closed spec fn spec_behind(&self) -> u64 {
        self.behind
    }

    pub fn new(ahead: u64, behind: u64) -> (r: Self)
        ensures
            r.spec_ahead() == ahead,
            r.spec_behind() == behind,
    {
        UpstreamDivergence { ahead, behind }
    }

    pub fn ahead(&self) -> (r: u64)
        ensures
            r == self.spec_ahead(),
    {
        self.ahead
    }

    pub fn behind(&self) -> (r: u64)
        ensures
            r == self.spec_behind(),
    {
        self.behind
    }

    pub fn relation(&self) -> (relation: UpstreamRelation)
        ensures
            relation == relation_of(self.spec_ahead(), self.spec_behind()),
    {
        if self.ahead == 0 && self.behind == 0 {
            UpstreamRelation::Synchronized
        } else if self.behind == 0 {
            UpstreamRelation::Ahead
        } else if self.ahead == 0 {
            UpstreamRelation::Behind
        } else {
            UpstreamRelation::Diverged
        }
    }
}

/// The semantic kind of an upstream state.
#[derive(Clone, Copy, Debug, PartialEq, Eq, Hash, Structural)]
pub enum UpstreamStateKind {
    Unconfigured,
    Gone,
    Tracking,
}

/// The upstream situation of the current branch.
#[derive(Clone, Debug, PartialEq, Eq)]
pub enum UpstreamState {
    Unconfigured,
    Gone(Upstream),
    Tracking { upstream: Upstream, divergence: UpstreamDivergence },
}

impl UpstreamState {
    pub open spec fn spec_kind(&self) -> UpstreamStateKind {
        match self {
            UpstreamState::Unconfigured => UpstreamStateKind::Unconfigured,
            UpstreamState::Gone(_) => UpstreamStateKind::Gone,
            UpstreamState::Tracking { .. } => UpstreamStateKind::Tracking,
        }
    }

    pub fn kind(&self) -> (kind: UpstreamStateKind)
        ensures
            kind == self.spec_kind(),
    {
        match self {
            UpstreamState::Unconfigured => UpstreamStateKind::Unconfigured,
            UpstreamState::Gone(_) => UpstreamStateKind::Gone,
            UpstreamState::Tracking { .. } => UpstreamStateKind::Tracking,
        }
    }

    /// A copy of this upstream state.
    pub fn duplicate(&self) -> (r: Self)
        ensures
            r == *self,
    {
        match self {
            UpstreamState::Unconfigured => UpstreamState::Unconfigured,
            UpstreamState::Gone(upstream) => UpstreamState::Gone(upstream.duplicate()),
            UpstreamState::Tracking { upstream, divergence } => UpstreamState::Tracking {
                upstream: upstream.duplicate(),
                divergence: *divergence,
            },
        }
    }
}

/// Whether a working tree has staged, unstaged or untracked changes.
#[derive(Clone, Copy, Debug, PartialEq, Eq, Hash, Structural)]
pub struct WorktreeChanges {
    staged: bool,
    unstaged: bool,
    untracked: bool,
}

impl WorktreeChanges {
    pub closed spec fn spec_staged(&self) -> bool {
        self.staged
    }

    pub closed spec fn spec_unstaged(&self) -> bool {
        self.unstaged
    }

    pub closed spec fn spec_untracked(&self) -> bool {
        self.untracked
    }

    pub fn new(staged: bool, unstaged: bool, untracked: bool) -> (r: Self)
        ensures
            r.spec_staged() == staged,
            r.spec_unstaged() == unstaged,
            r.spec_untracked() == untracked,
    {
        WorktreeChanges { staged, unstaged, untracked }
    }

    pub fn staged(&self) -> (r: bool)
        ensures
            r == self.spec_staged(),
    {
        self.staged
    }

    pub fn unstaged(&self) -> (r: bool)
        ensures
            r == self.spec_unstaged(),
    {
        self.unstaged
    }

    pub fn untracked(&self) -> (r: bool)
        ensures
            r == self.spec_untracked(),
    {
        self.untracked
    }

    pub open spec fn spec_has_local_work(&self) -> bool {
        self.spec_staged() || self.spec_unstaged() || self.spec_untracked()
    }

    /// Whether any kind of local change is present.
    pub fn has_local_work(&self) -> (work: bool)
        ensures
            work == self.spec_has_local_work(),
            work <==> (self.spec_staged() || self.spec_unstaged() || self.spec_untracked()),
    {
        self.staged || self.unstaged || self.untracked
    }
}

impl Default for WorktreeChanges {
    fn default() -> (r: Self)
        ensures
            !r.spec_staged() && !r.spec_unstaged() && !r.spec_untracked(),
    {
        WorktreeChanges { staged: false, unstaged: false, untracked: false }
    }
}

/// The observed Git state of one working tree.
#[derive(Clone, Debug, PartialEq, Eq)]
pub struct WorktreeGitState {
    head: Head,
    upstream: Option<UpstreamState>,
    changes: WorktreeChanges,
}

impl WorktreeGitState {
    pub closed spec fn spec_head(&self) -> Head {
        self.head
    }

    pub closed spec fn spec_upstream(&self) -> Option<UpstreamState> {
        self.upstream
    }

    pub closed spec fn spec_changes(&self) -> WorktreeChanges {
        self.changes
    }

    /// A branch without commits yet, with no local changes.
    pub fn unborn(branch: Branch, upstream: UpstreamState) -> (r: Self)
        ensures
            r.spec_head() == Head::Unborn(branch),
            r.spec_upstream() == Some(upstream),
            !r.spec_changes().spec_has_local_work(),
    {
        WorktreeGitState {
            head: Head::Unborn(branch),
            upstream: Some(upstream),
            changes: WorktreeChanges::new(false, false, false),
        }
    }

    /// A checked-out branch, with no local changes.
    pub fn branch(branch: Branch, upstream: UpstreamState) -> (r: Self)
        ensures
            r.spec_head() == Head::Branch(branch),
            r.spec_upstream() == Some(upstream),
            !r.spec_changes().spec_has_local_work(),
    {
        WorktreeGitState {
            head: Head::Branch(branch),
            upstream: Some(upstream),
            changes: WorktreeChanges::new(false, false, false),
        }
    }

    /// A detached HEAD: there is no current branch and so no upstream.
    pub fn detached() -> (r: Self)
        ensures
            r.spec_head() == Head::Detached,
            r.spec_upstream() == None::<UpstreamState>,
            !r.spec_changes().spec_has_local_work(),
    {
        WorktreeGitState {
            head: Head::Detached,
            upstream: None,
            changes: WorktreeChanges::new(false, false, false),
        }
    }

    pub fn head(&self) -> (r: &Head)
        ensures
            *r == self.spec_head(),
    {
        &self.head
    }

    pub fn upstream(&self) -> (r: Option<&UpstreamState>)
        ensures
            r == match self.spec_upstream() {
                Some(u) => Some(&u),
                None => None,
            },
    {
        match &self.upstream {
            Some(upstream) => Some(upstream),
            None => None,
        }
    }

    pub fn changes(&self) -> (r: WorktreeChanges)
        ensures
            r == self.spec_changes(),
    {
        self.changes
    }

    /// The same state with the given local changes.
    pub fn with_changes(self, changes: WorktreeChanges) -> (r: Self)
        ensures
            r.spec_head() == self.spec_head(),
            r.spec_upstream() == self.spec_upstream(),
            r.spec_changes() == changes,
    {
        WorktreeGitState { head: self.head, upstream: self.upstream, changes }
    }

    /// A copy of this state.
    pub fn duplicate(&self) -> (r: Self)
        ensures
            r == *self,
    {
        let upstream = match &self.upstream {
            Some(upstream) => Some(upstream.duplicate()),
            None => None,
        };
        WorktreeGitState { head: self.head.duplicate(), upstream, changes: self.changes }
    }
}

/// A working tree has local work if and only if it has staged, unstaged or
/// untracked changes: any one of them alone is local work, and a tree
/// with none of them has none.
pub proof fn law_local_work_is_any_change(changes: WorktreeChanges)
    ensures
        changes.spec_has_local_work() <==> (changes.spec_staged() || changes.spec_unstaged()
            || changes.spec_untracked()),
        changes.spec_staged() ==> changes.spec_has_local_work(),
        changes.spec_unstaged() ==> changes.spec_has_local_work(),
        changes.spec_untracked() ==> changes.spec_has_local_work(),
        !changes.spec_staged() && !changes.spec_unstaged() && !changes.spec_untracked()
            ==> !changes.spec_has_local_work(),
{
}

} // verus!
