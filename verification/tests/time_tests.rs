use litekv::time::{Timestamp, MAX_SECS, MIN_SECS};

#[test]
fn new_keeps_seconds_and_nanoseconds() {
    let t = Timestamp::new(1_600_000_000, 123_456_789).unwrap();
    assert_eq!(t.secs(), 1_600_000_000);
    assert_eq!(t.nanos(), 123_456_789);
}

#[test]
fn range_ends_where_chrono_ends() {
    assert!(Timestamp::new(MIN_SECS, 0).is_some());
    assert!(chrono::DateTime::from_timestamp(MIN_SECS, 0).is_some());
    assert!(Timestamp::new(MIN_SECS - 1, 0).is_none());
    assert!(chrono::DateTime::from_timestamp(MIN_SECS - 1, 0).is_none());
    assert!(Timestamp::new(MIN_SECS - 1, 999_999_999).is_none());
    assert!(chrono::DateTime::from_timestamp(MIN_SECS - 1, 999_999_999).is_none());
    assert!(Timestamp::new(MAX_SECS, 999_999_999).is_some());
    assert!(chrono::DateTime::from_timestamp(MAX_SECS, 999_999_999).is_some());
    assert!(Timestamp::new(MAX_SECS + 1, 0).is_none());
    assert!(chrono::DateTime::from_timestamp(MAX_SECS + 1, 0).is_none());
    assert!(Timestamp::new(i64::MIN, 0).is_none());
    assert!(Timestamp::new(i64::MAX, 0).is_none());
}

#[test]
fn range_bounds_are_the_first_and_last_second_chrono_knows() {
    assert_eq!(chrono::DateTime::<chrono::Utc>::MIN_UTC.timestamp(), MIN_SECS);
    assert_eq!(chrono::DateTime::<chrono::Utc>::MAX_UTC.timestamp(), MAX_SECS);
}

#[test]
fn leap_second_needs_the_last_second_of_a_minute() {
    let cases: [(i64, u32); 12] = [
        (59, 1_000_000_000),
        (59, 1_999_999_999),
        (59, 2_000_000_000),
        (60, 1_000_000_000),
        (58, 1_500_000_000),
        (0, 999_999_999),
        (0, 1_000_000_000),
        (-1, 1_000_000_000),
        (-2, 1_000_000_000),
        (-61, 1_999_999_999),
        (MAX_SECS, 1_999_999_999),
        (MIN_SECS + 59, 1_000_000_000),
    ];
    for (secs, nanos) in cases {
        assert_eq!(
            Timestamp::new(secs, nanos).is_some(),
            chrono::DateTime::from_timestamp(secs, nanos).is_some(),
            "secs {} nanos {}",
            secs,
            nanos
        );
    }
    assert!(Timestamp::new(59, 1_999_999_999).is_some());
    assert!(Timestamp::new(60, 1_000_000_000).is_none());
    assert!(Timestamp::new(0, 2_000_000_000).is_none());
    assert!(Timestamp::new(0, u32::MAX).is_none());
}

#[test]
fn is_before_orders_by_seconds_then_nanoseconds() {
    let a = Timestamp::new(10, 5).unwrap();
    let b = Timestamp::new(10, 6).unwrap();
    let c = Timestamp::new(11, 0).unwrap();
    let d = Timestamp::new(-3, 999_999_999).unwrap();
    assert!(a.is_before(&b));
    assert!(!b.is_before(&a));
    assert!(b.is_before(&c));
    assert!(a.is_before(&c));
    assert!(!c.is_before(&a));
    assert!(d.is_before(&a));
    assert!(!a.is_before(&a));
}

#[test]
fn is_before_agrees_with_chrono_on_a_leap_second() {
    let leap = Timestamp::new(59, 1_500_000_000).unwrap();
    let next = Timestamp::new(60, 200_000_000).unwrap();
    let leap_chrono = chrono::DateTime::from_timestamp(59, 1_500_000_000).unwrap();
    let next_chrono = chrono::DateTime::from_timestamp(60, 200_000_000).unwrap();
    assert!(leap_chrono < next_chrono);
    assert!(leap.is_before(&next));
    assert!(!next.is_before(&leap));
}

#[test]
fn equal_timestamps_compare_equal() {
    assert_eq!(Timestamp::new(7, 8).unwrap(), Timestamp::new(7, 8).unwrap());
    assert_ne!(Timestamp::new(7, 8).unwrap(), Timestamp::new(7, 9).unwrap());
}
