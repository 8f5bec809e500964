use vstd::prelude::*;

use crate::identity::{LocationId, ObservationRunId, RepositoryId, WorktreeId};

use super::error::PortResult;

verus! {

/// Generates fresh identities.
pub trait IdentityGeneratorPort {
    fn next_repository_id(&mut self) -> PortResult<RepositoryId>;

    fn next_location_id(&mut self) -> PortResult<LocationId>;

    fn next_worktree_id(&mut self) -> PortResult<WorktreeId>;

    fn next_observation_run_id(&mut self) -> PortResult<ObservationRunId>;
}

} // verus!
