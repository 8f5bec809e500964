use vstd::prelude::*;

verus! {

/// A monotonically numbered version of the persisted workspace.
#[derive(Clone, Copy, Debug, PartialEq, Eq, PartialOrd, Ord, Hash, Structural)]
pub struct WorkspaceRevision {
    value: u64,
}

impl WorkspaceRevision {
    /// The revision of an empty, never written workspace.
    pub fn initial() -> (revision: Self)
        ensures
            revision.spec_value() == 0,
    {
        WorkspaceRevision { value: 0 }
    }

    pub closed spec fn spec_value(self) -> u64 {
        self.value
    }

    pub fn new(value: u64) -> (revision: Self)
        ensures
            revision.spec_value() == value,
    {
        WorkspaceRevision { value }
    }

    pub fn value(self) -> (value: u64)
        ensures
            value == self.spec_value(),
    {
        self.value
    }
}

} // verus!
