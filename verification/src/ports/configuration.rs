use vstd::prelude::*;

use super::error::PortResult;

verus! {

/// Loads and saves the persisted configuration.
pub trait ConfigurationPort {
    type Configuration;

    fn load(&self) -> PortResult<Option<Self::Configuration>>;

    fn save(&mut self, configuration: &Self::Configuration) -> PortResult<()>;
}

} // verus!
