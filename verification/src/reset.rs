use vstd::prelude::*;

use crate::operation::WorkspaceOperationOutcome;
use crate::ports::{PortError, PortResult, WorkspaceResetPort};
use crate::workspace::WorkspaceRevision;

verus! {

/// The outcome of discarding the workspace knowledge.
#[derive(Clone, Copy, Debug, PartialEq, Eq, Structural)]
pub struct ResetWorkspaceOutcome;

impl Default for ResetWorkspaceOutcome {
    fn default() -> (r: Self) {
        ResetWorkspaceOutcome
    }
}

/// What a reset reports for the storage boundary's answer: the revision it
/// created, or its error unchanged.
pub open spec fn reset_reported(
    answer: PortResult<WorkspaceRevision>,
    r: PortResult<WorkspaceOperationOutcome<ResetWorkspaceOutcome>>,
) -> bool {
    match answer {
        Ok(revision) => r matches Ok(outcome) && outcome.spec_revision() == revision
            && outcome.spec_outcome() == ResetWorkspaceOutcome,
        Err(error) => r == Err::<WorkspaceOperationOutcome<ResetWorkspaceOutcome>, PortError>(error),
    }
}

/// Discards the persisted workspace knowledge through the storage boundary.
pub struct ResetWorkspace<'a, W: WorkspaceResetPort + ?Sized> {
    workspace: &'a mut W,
    answers: Ghost<Seq<PortResult<WorkspaceRevision>>>,
}

impl<'a, W: WorkspaceResetPort + ?Sized> ResetWorkspace<'a, W> {
    /// What the storage boundary answered to each reset asked, in order.
    pub closed spec fn spec_answers(&self) -> Seq<PortResult<WorkspaceRevision>> {
        self.answers@
    }

    pub fn new(workspace: &'a mut W) -> (r: Self)
        ensures
            r.spec_answers() == Seq::<PortResult<WorkspaceRevision>>::empty(),
    {
        ResetWorkspace { workspace, answers: Ghost(Seq::empty()) }
    }

    /// Resets the workspace once and reports the revision the storage
    /// boundary created, or its error.
    pub fn execute(&mut self) -> (r: PortResult<WorkspaceOperationOutcome<ResetWorkspaceOutcome>>)
        ensures
            final(self).spec_answers().len() == old(self).spec_answers().len() + 1,
            final(self).spec_answers().drop_last() == old(self).spec_answers(),
            reset_reported(final(self).spec_answers().last(), r),
    {
        let answer = self.workspace.reset_workspace_knowledge();
        self.answers = Ghost(self.answers@.push(answer));
        proof {
            assert(self.answers@.drop_last() =~= old(self).answers@);
        }
        match answer {
            Ok(revision) => Ok(WorkspaceOperationOutcome::new(revision, ResetWorkspaceOutcome)),
            Err(error) => Err(error),
        }
    }
}

} // verus!
