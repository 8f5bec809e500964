use vstd::prelude::*;

verus! {

/// Whether the running operation has been asked to stop.
pub trait CancellationPort {
    fn is_cancelled(&self) -> bool;
}

} // verus!
