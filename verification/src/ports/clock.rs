use vstd::prelude::*;

use crate::time::Timestamp;

verus! {

/// The current time.
pub trait ClockPort {
    fn now(&self) -> Timestamp;
}

} // verus!
