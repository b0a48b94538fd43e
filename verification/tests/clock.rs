use lemmy_federate::time::{is_day_past, nanos_since, signed_nanos_between, MAX_SECS, MIN_SECS};
use lemmy_federate::Timestamp;

fn at(secs: i64, nanos: u32) -> Timestamp {
    Timestamp::new(secs, nanos).unwrap()
}

#[test]
fn calendar_has_the_bounds_of_chrono() {
    let min = chrono::DateTime::<chrono::Utc>::MIN_UTC;
    let max = chrono::DateTime::<chrono::Utc>::MAX_UTC;
    assert_eq!(MIN_SECS, min.timestamp());
    assert_eq!(MAX_SECS, max.timestamp());
    for (secs, nanos) in [
        (MIN_SECS, 0),
        (MIN_SECS - 1, 999_999_999),
        (MAX_SECS, 999_999_999),
        (MAX_SECS, 1_000_000_000),
        (MAX_SECS + 1, 0),
        (0, 1_000_000_000),
        (59, 1_999_999_999),
        (59, 2_000_000_000),
        (58, 1_000_000_000),
        (-1, 1_500_000_000),
        (-2, 1_500_000_000),
        (-60, 1_500_000_000),
        (-61, 1_500_000_000),
    ] {
        assert_eq!(
            chrono::DateTime::from_timestamp(secs, nanos).is_some(),
            Timestamp::new(secs, nanos).is_some()
        );
    }
}

#[test]
fn timestamp_keeps_its_parts() {
    let t = at(-61, 1_000_000_007);
    assert_eq!((-61, 1_000_000_007), (t.secs(), t.nanos()));
    assert_eq!((0, 0), (Timestamp::epoch().secs(), Timestamp::epoch().nanos()));
}

#[test]
fn before_looks_at_the_nanoseconds_last() {
    assert!(at(1, 999).before(&at(2, 0)));
    assert!(at(2, 0).before(&at(2, 1)));
    assert!(!at(2, 1).before(&at(2, 1)));
    assert!(!at(2, 0).before(&at(1, 999)));
}

#[test]
fn nanoseconds_between_have_a_sign() {
    assert_eq!(1_500_000_000, signed_nanos_between(at(10, 250_000_000), at(8, 750_000_000)));
    assert_eq!(-1_500_000_000, signed_nanos_between(at(8, 750_000_000), at(10, 250_000_000)));
    assert_eq!(0, signed_nanos_between(at(8, 7), at(8, 7)));
    assert_eq!(
        16_544_868_105_599_999_999_999,
        signed_nanos_between(at(MAX_SECS, 999_999_999), at(MIN_SECS, 0))
    );
}

#[test]
fn leap_seconds_count_only_by_themselves() {
    // from within a leap second to later in the day
    assert_eq!(500_000_000, signed_nanos_between(at(60, 0), at(59, 500_000_000)));
    assert_eq!(500_000_000, signed_nanos_between(at(60, 0), at(59, 1_500_000_000)));
    assert_eq!(-500_000_000, signed_nanos_between(at(59, 1_500_000_000), at(60, 0)));
    // the next day at an earlier time of day
    assert_eq!(
        86_340_500_000_000 - 1_000_000_000,
        signed_nanos_between(at(86_400, 0), at(59, 1_500_000_000))
    );
}

#[test]
fn no_time_has_passed_since_the_future() {
    assert_eq!(None, nanos_since(at(5, 0), at(5, 1)));
    assert_eq!(Some(0), nanos_since(at(5, 1), at(5, 1)));
    assert_eq!(Some(1), nanos_since(at(5, 2), at(5, 1)));
}

#[test]
fn day_is_past_only_after_it() {
    assert!(!is_day_past(at(100, 5), at(100 + 86_400, 5)));
    assert!(is_day_past(at(100, 5), at(100 + 86_400, 6)));
    assert!(!is_day_past(at(100, 5), at(101, 5)));
    assert!(is_day_past(at(59, 1_500_000_000), at(86_459, 1_500_000_001)));
    assert!(!is_day_past(at(59, 1_500_000_000), at(86_459, 1_500_000_000)));
}

#[test]
fn day_later_fits_until_the_last_day() {
    assert!(at(MAX_SECS - 86_400, 999_999_999).day_later_fits());
    assert!(!at(MAX_SECS - 86_400, 1_000_000_000).day_later_fits());
    assert!(!at(MAX_SECS - 86_399, 0).day_later_fits());
    assert!(!is_day_past(at(MAX_SECS - 86_400, 999_999_999), at(MAX_SECS, 999_999_999)));
}
