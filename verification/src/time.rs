use vstd::prelude::*;

verus! {

/// Nanoseconds in one second.
pub open spec fn nanos_per_second() -> int {
    1_000_000_000
}

/// A point in time, counted in nanoseconds from the Unix epoch
/// (negative before it).
#[derive(Clone, Copy, Debug, PartialEq, Eq, PartialOrd, Ord, Hash, Structural)]
pub struct Timestamp {
    unix_nanos: i128,
}

impl Timestamp {
    pub closed spec fn spec_unix_nanos(self) -> int {
        self.unix_nanos as int
    }

    pub fn from_unix_nanos(unix_nanos: i128) -> (time: Self)
        ensures
            time.spec_unix_nanos() == unix_nanos,
    {
        Timestamp { unix_nanos }
    }

    /// The time `seconds` whole seconds after the epoch.
    pub fn from_unix_seconds(seconds: i64) -> (time: Self)
        ensures
            time.spec_unix_nanos() == seconds * nanos_per_second(),
    {
        let nanos: i128 = seconds as i128;
        assert(-0x8000_0000_0000_0000 <= nanos <= 0x7fff_ffff_ffff_ffff);
        assert(nanos * 1_000_000_000 <= 0x7fff_ffff_ffff_ffff * 1_000_000_000) by (nonlinear_arith)
            requires
                nanos <= 0x7fff_ffff_ffff_ffff,
        ;
        assert(nanos * 1_000_000_000 >= -0x8000_0000_0000_0000 * 1_000_000_000) by (nonlinear_arith)
            requires
                nanos >= -0x8000_0000_0000_0000,
        ;
        Timestamp { unix_nanos: nanos * 1_000_000_000 }
    }

    pub fn unix_epoch() -> (time: Self)
        ensures
            time.spec_unix_nanos() == 0,
    {
        Timestamp { unix_nanos: 0 }
    }

    pub fn unix_nanos(self) -> (nanos: i128)
        ensures
            nanos == self.spec_unix_nanos(),
    {
        self.unix_nanos
    }

    /// Whether this time is not earlier than `other`.
    pub fn is_at_or_after(self, other: Timestamp) -> (later: bool)
        ensures
            later == (self.spec_unix_nanos() >= other.spec_unix_nanos()),
    {
        self.unix_nanos >= other.unix_nanos
    }
}

} // verus!
