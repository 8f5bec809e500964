use vstd::prelude::*;

use crate::workspace::WorkspaceRevision;

use super::error::PortResult;

verus! {

/// Reads the current workspace revision.
pub trait WorkspaceRevisionPort {
    fn workspace_revision(&self) -> PortResult<WorkspaceRevision>;
}

} // verus!
