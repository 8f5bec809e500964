use vstd::prelude::*;

use crate::diagnostics::{
    report_content, FailureCause, FailureCode, PublicFailureDescriptor, PublicFailureDetails,
    PublicFailureReport, APPLICATION_VERSION, PUBLIC_FAILURE_REPORT_SCHEMA_VERSION,
};
use crate::identity::{LocationId, RepositoryId, WorktreeId};

verus! {

/// The stable code of an application error.
#[derive(Clone, Copy, Debug, PartialEq, Eq, Hash, Structural)]
pub enum ApplicationErrorCode {
    RepositoryNotFound,
    RepositorySelectorAmbiguous,
    LocationNotFound,
    WorktreeNotFound,
}

impl ApplicationErrorCode {
    pub open spec fn spec_as_str(self) -> Seq<char> {
        match self {
            ApplicationErrorCode::RepositoryNotFound => "repository_not_found"@,
            ApplicationErrorCode::RepositorySelectorAmbiguous => "repository_selector_ambiguous"@,
            ApplicationErrorCode::LocationNotFound => "location_not_found"@,
            ApplicationErrorCode::WorktreeNotFound => "worktree_not_found"@,
        }
    }

    /// The stable machine name of the code.
    pub fn as_str(self) -> (r: &'static str)
        ensures
            r@ == self.spec_as_str(),
    {
        match self {
            ApplicationErrorCode::RepositoryNotFound => "repository_not_found",
            ApplicationErrorCode::RepositorySelectorAmbiguous => "repository_selector_ambiguous",
            ApplicationErrorCode::LocationNotFound => "location_not_found",
            ApplicationErrorCode::WorktreeNotFound => "worktree_not_found",
        }
    }
}

/// An expected application failure, with its typed context.
#[derive(Clone, Debug, PartialEq, Eq)]
pub enum ApplicationError {
    RepositoryNotFound { repository_id: RepositoryId },
    RepositorySelectorAmbiguous { candidates: Vec<RepositoryId> },
    LocationNotFound { location_id: LocationId },
    WorktreeNotFound { worktree_id: WorktreeId },
}

/// The public names of the given identities, in order.
pub open spec fn id_texts(ids: Seq<RepositoryId>) -> Seq<Seq<char>> {
    ids.map_values(|id: RepositoryId| id@)
}

impl ApplicationError {
    pub fn repository_not_found(repository_id: RepositoryId) -> (r: Self)
        ensures
            r == (ApplicationError::RepositoryNotFound { repository_id }),
    {
        ApplicationError::RepositoryNotFound { repository_id }
    }

    pub fn repository_selector_ambiguous(candidates: Vec<RepositoryId>) -> (r: Self)
        ensures
            r == (ApplicationError::RepositorySelectorAmbiguous { candidates }),
    {
        ApplicationError::RepositorySelectorAmbiguous { candidates }
    }

    pub fn location_not_found(location_id: LocationId) -> (r: Self)
        ensures
            r == (ApplicationError::LocationNotFound { location_id }),
    {
        ApplicationError::LocationNotFound { location_id }
    }

    pub fn worktree_not_found(worktree_id: WorktreeId) -> (r: Self)
        ensures
            r == (ApplicationError::WorktreeNotFound { worktree_id }),
    {
        ApplicationError::WorktreeNotFound { worktree_id }
    }

    pub open spec fn spec_code(&self) -> ApplicationErrorCode {
        match self {
            ApplicationError::RepositoryNotFound { .. } => ApplicationErrorCode::RepositoryNotFound,
            ApplicationError::RepositorySelectorAmbiguous { .. } => ApplicationErrorCode::RepositorySelectorAmbiguous,
            ApplicationError::LocationNotFound { .. } => ApplicationErrorCode::LocationNotFound,
            ApplicationError::WorktreeNotFound { .. } => ApplicationErrorCode::WorktreeNotFound,
        }
    }

    /// The stable code, independent of the typed context.
    pub fn code(&self) -> (r: ApplicationErrorCode)
        ensures
            r == self.spec_code(),
    {
        match self {
            ApplicationError::RepositoryNotFound { .. } => ApplicationErrorCode::RepositoryNotFound,
            ApplicationError::RepositorySelectorAmbiguous { .. } => ApplicationErrorCode::RepositorySelectorAmbiguous,
            ApplicationError::LocationNotFound { .. } => ApplicationErrorCode::LocationNotFound,
            ApplicationError::WorktreeNotFound { .. } => ApplicationErrorCode::WorktreeNotFound,
        }
    }

    /// The public failure: only the code, and for an ambiguous selector the
    /// candidate repository identities.
    pub fn public_failure(&self) -> (r: PublicFailureDescriptor)
        ensures
            r.spec_error_code() == FailureCode::Application(self.spec_code()),
            r.spec_causes().len() == 0,
            match self {
                ApplicationError::RepositorySelectorAmbiguous { candidates } => {
                    &&& r.spec_details() matches Some(PublicFailureDetails::RepositorySelectorAmbiguous { candidates: texts })
                    &&& texts@.map_values(|t: String| t@) == id_texts(candidates@)
                },
                _ => r.spec_details() is None,
            },
    {
        match self {
            ApplicationError::RepositorySelectorAmbiguous { candidates } => {
                let mut texts: Vec<String> = Vec::new();
                let mut index: usize = 0;
                while index < candidates.len()
                    invariant
                        index <= candidates@.len(),
                        texts@.map_values(|t: String| t@) == id_texts(candidates@.take(index as int)),
                    decreases candidates@.len() - index,
                {
                    let text = candidates[index].as_str().to_owned();
                    let ghost before = texts@;
                    texts.push(text);
                    proof {
                        assert(candidates@.take(index + 1) == candidates@.take(index as int).push(candidates@[index as int]));
                        assert(texts@.map_values(|t: String| t@) =~= before.map_values(|t: String| t@).push(text@));
                        assert(texts@.map_values(|t: String| t@) =~= id_texts(candidates@.take(index + 1)));
                    }
                    index = index + 1;
                }
                proof {
                    assert(candidates@.take(candidates@.len() as int) == candidates@);
                }
                PublicFailureDescriptor::with_details(
                    FailureCode::Application(self.code()),
                    PublicFailureDetails::RepositorySelectorAmbiguous { candidates: texts },
                )
            },
            _ => PublicFailureDescriptor::new(FailureCode::Application(self.code())),
        }
    }

    /// The versioned report of the public failure; only an ambiguous
    /// selector carries anything besides the code.
    pub fn public_report(&self) -> (r: PublicFailureReport)
        ensures
            r.spec_schema_version() == PUBLIC_FAILURE_REPORT_SCHEMA_VERSION,
            r.spec_application_version() == APPLICATION_VERSION@,
            r.spec_failure().spec_error_code() == FailureCode::Application(self.spec_code()),
            r.spec_failure().spec_causes().len() == 0,
            match self {
                ApplicationError::RepositorySelectorAmbiguous { candidates } => {
                    &&& r.spec_failure().spec_details() matches Some(
                        PublicFailureDetails::RepositorySelectorAmbiguous { candidates: texts },
                    )
                    &&& texts@.map_values(|t: String| t@) == id_texts(candidates@)
                },
                _ => report_content(r) == reported_without_context(self.spec_code()),
            },
    {
        let failure = self.public_failure();
        proof {
            assert(failure.spec_causes() =~= Seq::<FailureCause>::empty());
        }
        PublicFailureReport::new(failure)
    }
}

/// The report of an error that carries no public context: the schema, the
/// version and the code, with no cause and no details.
pub open spec fn reported_without_context(code: ApplicationErrorCode) -> (
    u16,
    Seq<char>,
    FailureCode,
    Seq<FailureCause>,
    Option<PublicFailureDetails>,
) {
    (
        PUBLIC_FAILURE_REPORT_SCHEMA_VERSION,
        APPLICATION_VERSION@,
        FailureCode::Application(code),
        Seq::empty(),
        None,
    )
}

/// Two errors of the same kind without public context give the same
/// report, whatever identities they were raised for: the identity never
/// reaches the report.
pub proof fn law_reports_carry_no_private_context(
    first: ApplicationError,
    second: ApplicationError,
    first_report: PublicFailureReport,
    second_report: PublicFailureReport,
)
    requires
        first.spec_code() == second.spec_code(),
        !(first is RepositorySelectorAmbiguous),
        report_content(first_report) == reported_without_context(first.spec_code()),
        report_content(second_report) == reported_without_context(second.spec_code()),
    ensures
        report_content(first_report) == report_content(second_report),
{
}

} // verus!
