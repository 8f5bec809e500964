use vstd::prelude::*;

use crate::time::{nanos_per_second, Timestamp};

verus! {

/// Whether a time lies before or after the moment of reading.
#[derive(Clone, Copy, Debug, PartialEq, Eq, Structural)]
pub enum TimeDirection {
    Ago,
    In,
}

/// The unit of a compact age.
#[derive(Clone, Copy, Debug, PartialEq, Eq, Structural)]
pub enum AgeUnit {
    Seconds,
    Minutes,
    Hours,
    Days,
}

/// An age in whole units of the largest unit that keeps it at least one.
#[derive(Clone, Copy, Debug, PartialEq, Eq, Structural)]
pub struct CompactAge {
    pub amount: u128,
    pub unit: AgeUnit,
}

/// How long ago, or in how long, a time lies from now, compactly.
#[derive(Clone, Copy, Debug, PartialEq, Eq, Structural)]
pub struct RelativeAge {
    pub direction: TimeDirection,
    pub age: CompactAge,
}

/// Whole seconds as a compact age: seconds under a minute, minutes under
/// an hour, hours under a day, days otherwise, each rounded down.
pub open spec fn compact(seconds: int) -> (int, AgeUnit) {
    if seconds < 60 {
        (seconds, AgeUnit::Seconds)
    } else if seconds < 60 * 60 {
        (seconds / 60int, AgeUnit::Minutes)
    } else if seconds < 24 * 60 * 60 {
        (seconds / 3600int, AgeUnit::Hours)
    } else {
        (seconds / 86400int, AgeUnit::Days)
    }
}

pub fn compact_age(seconds: u128) -> (r: CompactAge)
    ensures
        (r.amount as int, r.unit) == compact(seconds as int),
{
    if seconds < 60 {
        CompactAge { amount: seconds, unit: AgeUnit::Seconds }
    } else if seconds < 60 * 60 {
        CompactAge { amount: seconds / 60, unit: AgeUnit::Minutes }
    } else if seconds < 24 * 60 * 60 {
        CompactAge { amount: seconds / (60 * 60), unit: AgeUnit::Hours }
    } else {
        CompactAge { amount: seconds / (24 * 60 * 60), unit: AgeUnit::Days }
    }
}

/// The distance between two times in nanoseconds.
fn nanos_between(earlier: i128, later: i128) -> (r: u128)
    requires
        earlier <= later,
    ensures
        r == later - earlier,
{
    if earlier >= 0 || later < 0 {
        (later - earlier) as u128
    } else {
        let before_zero: i128 = -(earlier + 1);
        later as u128 + before_zero as u128 + 1
    }
}

/// The age of an observation read at `now`: ago when it is not later than
/// now, else in the future, in whole seconds made compact.
pub open spec fn spec_relative_age(observed_at: Timestamp, now: Timestamp) -> (TimeDirection, int, AgeUnit) {
    let distance = now.spec_unix_nanos() - observed_at.spec_unix_nanos();
    let direction = if distance >= 0 { TimeDirection::Ago } else { TimeDirection::In };
    let nanos = if distance >= 0 { distance } else { -distance };
    let age = compact(nanos / nanos_per_second());
    (direction, age.0, age.1)
}

pub fn relative_age(observed_at: Timestamp, now: Timestamp) -> (r: RelativeAge)
    ensures
        (r.direction, r.age.amount as int, r.age.unit) == spec_relative_age(observed_at, now),
{
    let observed = observed_at.unix_nanos();
    let current = now.unix_nanos();
    if current >= observed {
        let nanos = nanos_between(observed, current);
        RelativeAge { direction: TimeDirection::Ago, age: compact_age(nanos / 1_000_000_000) }
    } else {
        let nanos = nanos_between(current, observed);
        RelativeAge { direction: TimeDirection::In, age: compact_age(nanos / 1_000_000_000) }
    }
}

} // verus!
