use vstd::prelude::*;

use crate::workspace::WorkspaceRevision;

use super::error::PortResult;

verus! {

/// Discards the persisted workspace knowledge.
pub trait WorkspaceResetPort {
    fn reset_workspace_knowledge(&mut self) -> PortResult<WorkspaceRevision>;
}

} // verus!
