use vstd::prelude::*;

use crate::workspace::WorkspaceRevision;

verus! {

/// How far an operation got.
#[derive(Clone, Copy, Debug, PartialEq, Eq, Hash, Structural)]
pub enum OperationCompletion {
    Complete,
    Partial,
    Failed,
    Cancelled,
}

/// The outcome of an operation together with the revision it produced.
#[derive(Clone, Debug, PartialEq, Eq)]
pub struct WorkspaceOperationOutcome<T> {
    revision: WorkspaceRevision,
    outcome: T,
}

impl<T> WorkspaceOperationOutcome<T> {
    pub closed spec fn spec_revision(&self) -> WorkspaceRevision {
        self.revision
    }

    pub closed spec fn spec_outcome(&self) -> T {
        self.outcome
    }

    pub fn new(revision: WorkspaceRevision, outcome: T) -> (r: Self)
        ensures
            r.spec_revision() == revision,
            r.spec_outcome() == outcome,
    {
        WorkspaceOperationOutcome { revision, outcome }
    }

    pub fn revision(&self) -> (r: WorkspaceRevision)
        ensures
            r == self.spec_revision(),
    {
        self.revision
    }

    pub fn outcome(&self) -> (r: &T)
        ensures
            *r == self.spec_outcome(),
    {
        &self.outcome
    }

    pub fn into_outcome(self) -> (r: T)
        ensures
            r == self.spec_outcome(),
    {
        self.outcome
    }
}

} // verus!
