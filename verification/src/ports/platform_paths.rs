use vstd::prelude::*;

use crate::path::FsPath;

use super::error::PortResult;

verus! {

/// The per-user directories of the platform.
#[derive(Clone, Debug, PartialEq, Eq)]
pub struct PlatformPaths {
    config_dir: FsPath,
    data_dir: FsPath,
    state_dir: FsPath,
    cache_dir: FsPath,
}

impl PlatformPaths {
    pub closed spec fn spec_config_dir(&self) -> FsPath {
        self.config_dir
    }

    pub closed spec fn spec_data_dir(&self) -> FsPath {
        self.data_dir
    }

    pub closed spec fn spec_state_dir(&self) -> FsPath {
        self.state_dir
    }

    pub closed spec fn spec_cache_dir(&self) -> FsPath {
        self.cache_dir
    }

    pub fn new(config_dir: FsPath, data_dir: FsPath, state_dir: FsPath, cache_dir: FsPath) -> (r: Self)
        ensures
            r.spec_config_dir() == config_dir,
            r.spec_data_dir() == data_dir,
            r.spec_state_dir() == state_dir,
            r.spec_cache_dir() == cache_dir,
    {
        PlatformPaths { config_dir, data_dir, state_dir, cache_dir }
    }

    pub fn config_dir(&self) -> (r: &FsPath)
        ensures
            *r == self.spec_config_dir(),
    {
        &self.config_dir
    }

    pub fn data_dir(&self) -> (r: &FsPath)
        ensures
            *r == self.spec_data_dir(),
    {
        &self.data_dir
    }

    pub fn state_dir(&self) -> (r: &FsPath)
        ensures
            *r == self.spec_state_dir(),
    {
        &self.state_dir
    }

    pub fn cache_dir(&self) -> (r: &FsPath)
        ensures
            *r == self.spec_cache_dir(),
    {
        &self.cache_dir
    }

}

/// Resolves the per-user directories.
pub trait PlatformPathsPort {
    fn user_paths(&self) -> PortResult<PlatformPaths>;
}

} // verus!
