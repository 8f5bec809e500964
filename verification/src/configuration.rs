use vstd::prelude::*;

use crate::observe::ObservationExecutionPolicy;
use crate::path::{is_absolute_path, FsPath};
use crate::ports::{BareRepositoryDiscovery, FilesystemBoundary, SymlinkTraversal};
use crate::text::{eq_ignoring_ascii_case, is_trimmed, text_eq_ignore_ascii_case, text_is_trimmed};

verus! {

/// The default bound on the run time of one Git process.
pub const DEFAULT_GIT_PROCESS_TIMEOUT_MS: u64 = 10_000;

/// A locale tag that may be chosen explicitly: not empty, not the reserved
/// word `auto` in any ASCII case, and without surrounding white space.
pub open spec fn is_explicit_locale(locale: Seq<char>) -> bool {
    locale.len() > 0 && !eq_ignoring_ascii_case(locale, "auto"@) && is_trimmed(locale)
}

/// The user's locale choice: automatic, or one explicit tag.
#[derive(Clone, Debug, PartialEq, Eq)]
pub struct LocalePreference {
    explicit: Option<String>,
}

impl LocalePreference {
    pub closed spec fn spec_explicit(&self) -> Option<Seq<char>> {
        match self.explicit {
            Some(s) => Some(s@),
            None => None,
        }
    }

    /// Locale chosen from the environment.
    pub fn auto() -> (r: Self)
        ensures
            r.spec_explicit() is None,
    {
        LocalePreference { explicit: None }
    }

    /// An explicit locale; reserved or ambiguous values are refused.
    pub fn explicit(locale: String) -> (r: Option<Self>)
        ensures
            r is Some <==> is_explicit_locale(locale@),
            r matches Some(p) ==> p.spec_explicit() == Some(locale@),
    {
        proof {
            reveal_strlit("auto");
        }
        let text = locale.as_str();
        if text.unicode_len() == 0 || text_eq_ignore_ascii_case(text, "auto") || !text_is_trimmed(
            text,
        ) {
            return None;
        }
        Some(LocalePreference { explicit: Some(locale) })
    }

    pub fn explicit_value(&self) -> (r: Option<&str>)
        ensures
            r matches Some(s) ==> self.spec_explicit() == Some(s@),
            r is None ==> self.spec_explicit() is None,
    {
        match &self.explicit {
            Some(value) => Some(value.as_str()),
            None => None,
        }
    }
}

impl Default for LocalePreference {
    fn default() -> (r: Self)
        ensures
            r.spec_explicit() is None,
    {
        LocalePreference::auto()
    }
}

/// Whether every root is absolute and no exclusion is empty.
pub open spec fn valid_discovery_paths(roots: Seq<FsPath>, exclusions: Seq<FsPath>) -> bool {
    &&& forall|i: int| 0 <= i < roots.len() ==> is_absolute_path(#[trigger] roots[i]@)
    &&& forall|i: int| 0 <= i < exclusions.len() ==> #[trigger] exclusions[i]@.len() > 0
}

/// Where and how discovery looks for repositories.
#[derive(Clone, Debug, PartialEq, Eq)]
pub struct DiscoveryConfiguration {
    roots: Vec<FsPath>,
    exclusions: Vec<FsPath>,
    bare_repositories: BareRepositoryDiscovery,
    symlink_traversal: SymlinkTraversal,
    filesystem_boundary: FilesystemBoundary,
}

impl DiscoveryConfiguration {
    pub closed spec fn spec_roots(&self) -> Seq<FsPath> {
        self.roots@
    }

    pub closed spec fn spec_exclusions(&self) -> Seq<FsPath> {
        self.exclusions@
    }

    pub closed spec fn spec_bare_repositories(&self) -> BareRepositoryDiscovery {
        self.bare_repositories
    }

    pub closed spec fn spec_symlink_traversal(&self) -> SymlinkTraversal {
        self.symlink_traversal
    }

    pub closed spec fn spec_filesystem_boundary(&self) -> FilesystemBoundary {
        self.filesystem_boundary
    }

    /// A configuration; relative roots or empty exclusions are refused.
    pub fn new(
        roots: Vec<FsPath>,
        exclusions: Vec<FsPath>,
        bare_repositories: BareRepositoryDiscovery,
        symlink_traversal: SymlinkTraversal,
        filesystem_boundary: FilesystemBoundary,
    ) -> (r: Option<Self>)
        ensures
            r is Some <==> valid_discovery_paths(roots@, exclusions@),
            r matches Some(c) ==> {
                &&& c.spec_roots() == roots@
                &&& c.spec_exclusions() == exclusions@
                &&& c.spec_bare_repositories() == bare_repositories
                &&& c.spec_symlink_traversal() == symlink_traversal
                &&& c.spec_filesystem_boundary() == filesystem_boundary
            },
    {
        let mut i: usize = 0;
        while i < roots.len()
            invariant
                i <= roots@.len(),
                forall|j: int| 0 <= j < i ==> is_absolute_path(#[trigger] roots@[j]@),
            decreases roots@.len() - i,
        {
            if !roots[i].is_absolute() {
                return None;
            }
            i = i + 1;
        }
        let mut k: usize = 0;
        while k < exclusions.len()
            invariant
                k <= exclusions@.len(),
                forall|j: int| 0 <= j < k ==> #[trigger] exclusions@[j]@.len() > 0,
            decreases exclusions@.len() - k,
        {
            if exclusions[k].is_empty() {
                return None;
            }
            k = k + 1;
        }
        Some(
            DiscoveryConfiguration {
                roots,
                exclusions,
                bare_repositories,
                symlink_traversal,
                filesystem_boundary,
            },
        )
    }

    pub fn roots(&self) -> (r: &[FsPath])
        ensures
            r@ == self.spec_roots(),
    {
        self.roots.as_slice()
    }

    pub fn exclusions(&self) -> (r: &[FsPath])
        ensures
            r@ == self.spec_exclusions(),
    {
        self.exclusions.as_slice()
    }

    pub fn bare_repositories(&self) -> (r: BareRepositoryDiscovery)
        ensures
            r == self.spec_bare_repositories(),
    {
        self.bare_repositories
    }

    pub fn symlink_traversal(&self) -> (r: SymlinkTraversal)
        ensures
            r == self.spec_symlink_traversal(),
    {
        self.symlink_traversal
    }

    pub fn filesystem_boundary(&self) -> (r: FilesystemBoundary)
        ensures
            r == self.spec_filesystem_boundary(),
    {
        self.filesystem_boundary
    }
}

impl Default for DiscoveryConfiguration {
    fn default() -> (r: Self)
        ensures
            r.spec_roots().len() == 0,
            r.spec_exclusions().len() == 0,
            r.spec_bare_repositories() == BareRepositoryDiscovery::Disabled,
            r.spec_symlink_traversal() == SymlinkTraversal::DoNotFollow,
            r.spec_filesystem_boundary() == FilesystemBoundary::StayOnRootFilesystem,
    {
        DiscoveryConfiguration {
            roots: Vec::new(),
            exclusions: Vec::new(),
            bare_repositories: BareRepositoryDiscovery::Disabled,
            symlink_traversal: SymlinkTraversal::DoNotFollow,
            filesystem_boundary: FilesystemBoundary::StayOnRootFilesystem,
        }
    }
}

/// The bound on the run time of one Git process, in milliseconds.
#[derive(Clone, Copy, Debug, PartialEq, Eq, Structural)]
pub struct GitProcessTimeout {
    milliseconds: u64,
}

impl GitProcessTimeout {
    pub closed spec fn spec_milliseconds(self) -> u64 {
        self.milliseconds
    }

    /// A timeout; it must be positive.
    pub fn new(milliseconds: u64) -> (r: Option<Self>)
        ensures
            r is Some <==> milliseconds > 0,
            r matches Some(t) ==> t.spec_milliseconds() == milliseconds,
    {
        if milliseconds > 0 {
            Some(GitProcessTimeout { milliseconds })
        } else {
            None
        }
    }

    pub fn milliseconds(self) -> (r: u64)
        ensures
            r == self.spec_milliseconds(),
    {
        self.milliseconds
    }

    /// The timeout as a standard duration.
    ///
    /// Calls `std::time::Duration::from_millis`. Nothing is promised of the
    /// duration it returns: a `Duration` has no model among the library's
    /// specifications, so its length in milliseconds is left unsaid.
    #[verifier::external_body]
    pub fn duration(self) -> std::time::Duration {
        std::time::Duration::from_millis(self.milliseconds)
    }
}

impl Default for GitProcessTimeout {
    fn default() -> (r: Self)
        ensures
            r.spec_milliseconds() == DEFAULT_GIT_PROCESS_TIMEOUT_MS,
    {
        GitProcessTimeout { milliseconds: DEFAULT_GIT_PROCESS_TIMEOUT_MS }
    }
}

/// The complete runtime configuration.
#[derive(Clone, Debug, PartialEq, Eq)]
pub struct BullSaddleConfiguration {
    locale: LocalePreference,
    discovery: DiscoveryConfiguration,
    observation_policy: ObservationExecutionPolicy,
    git_process_timeout: GitProcessTimeout,
}

impl BullSaddleConfiguration {
    pub closed spec fn spec_locale(&self) -> LocalePreference {
        self.locale
    }

    pub closed spec fn spec_discovery(&self) -> DiscoveryConfiguration {
        self.discovery
    }

    pub closed spec fn spec_observation_policy(&self) -> ObservationExecutionPolicy {
        self.observation_policy
    }

    pub closed spec fn spec_git_process_timeout(&self) -> GitProcessTimeout {
        self.git_process_timeout
    }

    /// A configuration with the given locale and the default policies.
    pub fn new(locale: LocalePreference) -> (r: Self)
        ensures
            r.spec_locale() == locale,
            r.spec_discovery().spec_roots().len() == 0,
            r.spec_discovery().spec_exclusions().len() == 0,
            r.spec_discovery().spec_bare_repositories() == BareRepositoryDiscovery::Disabled,
            r.spec_discovery().spec_symlink_traversal() == SymlinkTraversal::DoNotFollow,
            r.spec_discovery().spec_filesystem_boundary() == FilesystemBoundary::StayOnRootFilesystem,
            r.spec_observation_policy().spec_max_parallelism() == 4,
            r.spec_git_process_timeout().spec_milliseconds() == DEFAULT_GIT_PROCESS_TIMEOUT_MS,
    {
        BullSaddleConfiguration {
            locale,
            discovery: DiscoveryConfiguration::default(),
            observation_policy: ObservationExecutionPolicy::default(),
            git_process_timeout: GitProcessTimeout::default(),
        }
    }

    pub fn with_discovery(self, discovery: DiscoveryConfiguration) -> (r: Self)
        ensures
            r.spec_locale() == self.spec_locale(),
            r.spec_discovery() == discovery,
            r.spec_observation_policy() == self.spec_observation_policy(),
            r.spec_git_process_timeout() == self.spec_git_process_timeout(),
    {
        BullSaddleConfiguration { discovery, ..self }
    }

    pub fn with_observation_policy(self, observation_policy: ObservationExecutionPolicy) -> (r: Self)
        ensures
            r.spec_locale() == self.spec_locale(),
            r.spec_discovery() == self.spec_discovery(),
            r.spec_observation_policy() == observation_policy,
            r.spec_git_process_timeout() == self.spec_git_process_timeout(),
    {
        BullSaddleConfiguration { observation_policy, ..self }
    }

    pub fn with_git_process_timeout(self, git_process_timeout: GitProcessTimeout) -> (r: Self)
        ensures
            r.spec_locale() == self.spec_locale(),
            r.spec_discovery() == self.spec_discovery(),
            r.spec_observation_policy() == self.spec_observation_policy(),
            r.spec_git_process_timeout() == git_process_timeout,
    {
        BullSaddleConfiguration { git_process_timeout, ..self }
    }

    pub fn locale(&self) -> (r: &LocalePreference)
        ensures
            *r == self.spec_locale(),
    {
        &self.locale
    }

    pub fn discovery(&self) -> (r: &DiscoveryConfiguration)
        ensures
            *r == self.spec_discovery(),
    {
        &self.discovery
    }

    pub fn observation_policy(&self) -> (r: ObservationExecutionPolicy)
        ensures
            r == self.spec_observation_policy(),
    {
        self.observation_policy
    }

    pub fn git_process_timeout(&self) -> (r: GitProcessTimeout)
        ensures
            r == self.spec_git_process_timeout(),
    {
        self.git_process_timeout
    }
}

impl Default for BullSaddleConfiguration {
    fn default() -> (r: Self)
        ensures
            r.spec_locale().spec_explicit() is None,
            r.spec_discovery().spec_roots().len() == 0,
            r.spec_discovery().spec_exclusions().len() == 0,
            r.spec_discovery().spec_bare_repositories() == BareRepositoryDiscovery::Disabled,
            r.spec_discovery().spec_symlink_traversal() == SymlinkTraversal::DoNotFollow,
            r.spec_discovery().spec_filesystem_boundary() == FilesystemBoundary::StayOnRootFilesystem,
            r.spec_observation_policy().spec_max_parallelism() == 4,
            r.spec_git_process_timeout().spec_milliseconds() == DEFAULT_GIT_PROCESS_TIMEOUT_MS,
    {
        BullSaddleConfiguration::new(LocalePreference::default())
    }
}

/// Where the effective configuration came from.
#[derive(Clone, Copy, Debug, PartialEq, Eq, Structural)]
pub enum ConfigurationSource {
    Defaults,
    File,
}

/// The effective configuration, its file and its source.
#[derive(Clone, Debug, PartialEq, Eq)]
pub struct ConfigurationProjection {
    file_path: FsPath,
    source: ConfigurationSource,
    configuration: BullSaddleConfiguration,
}

impl ConfigurationProjection {
    pub closed spec fn spec_file_path(&self) -> FsPath {
        self.file_path
    }

    pub closed spec fn spec_source(&self) -> ConfigurationSource {
        self.source
    }

    pub closed spec fn spec_configuration(&self) -> BullSaddleConfiguration {
        self.configuration
    }

    /// A projection; the file path must be absolute.
    pub fn new(
        file_path: FsPath,
        source: ConfigurationSource,
        configuration: BullSaddleConfiguration,
    ) -> (r: Option<Self>)
        ensures
            r is Some <==> is_absolute_path(file_path@),
            r matches Some(p) ==> {
                &&& p.spec_file_path() == file_path
                &&& p.spec_source() == source
                &&& p.spec_configuration() == configuration
            },
    {
        if file_path.is_absolute() {
            Some(ConfigurationProjection { file_path, source, configuration })
        } else {
            None
        }
    }

    pub fn file_path(&self) -> (r: &FsPath)
        ensures
            *r == self.spec_file_path(),
    {
        &self.file_path
    }

    pub fn source(&self) -> (r: ConfigurationSource)
        ensures
            r == self.spec_source(),
    {
        self.source
    }

    pub fn configuration(&self) -> (r: &BullSaddleConfiguration)
        ensures
            *r == self.spec_configuration(),
    {
        &self.configuration
    }
}

} // verus!
