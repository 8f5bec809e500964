use vstd::prelude::*;

use crate::observation::{Observation, ObservationAttempt, ObservationKey};

use super::error::PortResult;

verus! {

/// Persists observation attempts and serves the latest ones.
pub trait ObservationStorePort {
    type Value;

    fn latest_observation(&self, key: &ObservationKey) -> PortResult<Option<Observation<Self::Value>>>;

    fn latest_attempt(&self, key: &ObservationKey) -> PortResult<Option<ObservationAttempt<Self::Value>>>;

    fn save_attempt(&mut self, attempt: &ObservationAttempt<Self::Value>) -> PortResult<()>;
}

} // verus!
