//! The boundaries through which the use cases reach storage, the
//! filesystem, Git and the environment.

pub mod cancellation;
pub mod catalog;
pub mod clock;
pub mod configuration;
pub mod discovery;
pub mod error;
pub mod filesystem;
pub mod git_observation;
pub mod git_topology;
pub mod identity;
pub mod observation_store;
pub mod platform_paths;
pub mod workspace_read;
pub mod workspace_reset;
pub mod workspace_revision;

pub use cancellation::CancellationPort;
pub use catalog::{
    CatalogMissingScope, CatalogReconciliation, CatalogReconciliationCoverage,
    LocationIdentityEvidence, RepositoryCatalogPort, RepositoryIdentityEvidence,
};
pub use clock::ClockPort;
pub use configuration::ConfigurationPort;
pub use discovery::{
    BareRepositoryDiscovery, DiscoveryCompleteness, DiscoveryIssue, DiscoveryIssueKind,
    DiscoveryOutcome, DiscoveryRequest, FilesystemBoundary, RepositoryCandidate,
    RepositoryDiscoveryPort, SymlinkTraversal,
};
pub use error::{PortError, PortErrorKind, PortResult};
pub use filesystem::{FilesystemIdentityEvidence, FilesystemIdentityPort, FilesystemObjectId};
pub use git_observation::GitObservationPort;
pub use git_topology::{GitRepositoryLayout, GitRepositoryProbePort};
pub use identity::IdentityGeneratorPort;
pub use observation_store::ObservationStorePort;
pub use platform_paths::{PlatformPaths, PlatformPathsPort};
pub use workspace_read::{WorkspaceObservationState, WorkspaceReadPort, WorkspaceReadSnapshot};
pub use workspace_reset::WorkspaceResetPort;
pub use workspace_revision::WorkspaceRevisionPort;
