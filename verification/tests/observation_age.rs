use bulls::age::{compact_age, relative_age, AgeUnit, CompactAge, RelativeAge, TimeDirection};
use bulls::Timestamp;

#[test]
fn relative_age_uses_compact_locale_aware_units() {
    let now = Timestamp::from_unix_seconds(3 * 60 * 60);

    assert_eq!(
        relative_age(Timestamp::from_unix_seconds(3 * 60 * 60 - 90), now),
        RelativeAge { direction: TimeDirection::Ago, age: CompactAge { amount: 1, unit: AgeUnit::Minutes } }
    );
    assert_eq!(
        relative_age(Timestamp::from_unix_seconds(60 * 60), now),
        RelativeAge { direction: TimeDirection::Ago, age: CompactAge { amount: 2, unit: AgeUnit::Hours } }
    );
    assert_eq!(
        relative_age(Timestamp::from_unix_seconds(3 * 60 * 60 + 30), now),
        RelativeAge { direction: TimeDirection::In, age: CompactAge { amount: 30, unit: AgeUnit::Seconds } }
    );
}

#[test]
fn compact_age_rounds_down_within_each_unit() {
    assert_eq!(compact_age(59), CompactAge { amount: 59, unit: AgeUnit::Seconds });
    assert_eq!(compact_age(60), CompactAge { amount: 1, unit: AgeUnit::Minutes });
    assert_eq!(compact_age(3599), CompactAge { amount: 59, unit: AgeUnit::Minutes });
    assert_eq!(compact_age(86_399), CompactAge { amount: 23, unit: AgeUnit::Hours });
    assert_eq!(compact_age(86_400 * 3 + 5), CompactAge { amount: 3, unit: AgeUnit::Days });
}

#[test]
fn extreme_times_keep_their_distance() {
    let earliest = Timestamp::from_unix_nanos(i128::MIN);
    let latest = Timestamp::from_unix_nanos(i128::MAX);
    let age = relative_age(earliest, latest);

    assert_eq!(age.direction, TimeDirection::Ago);
    assert_eq!(age.age.unit, AgeUnit::Days);
    assert_eq!(age.age.amount, u128::MAX / 1_000_000_000 / 86_400);
    assert_eq!(relative_age(latest, earliest).direction, TimeDirection::In);
}
