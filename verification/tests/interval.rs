use translate_bot::interval::{Interval, MAX_NANOS};

#[test]
fn intervals_convert() {
    assert_eq!(Interval::from_secs(2).nanos, 2_000_000_000);
    assert_eq!(Interval::from_millis(1500).as_secs(), 1);
    assert_eq!(Interval::from_millis(1500).as_millis(), 1500);
    assert!(Interval::from_secs(0).is_zero());
    assert!(!Interval::from_millis(1).is_zero());
}

#[test]
fn doubling_saturates() {
    assert_eq!(Interval::from_secs(3).doubled(), Interval::from_secs(6));
    let longest = Interval { nanos: MAX_NANOS };
    assert_eq!(longest.doubled(), longest);
    assert_eq!(longest.as_secs(), u64::MAX);
    assert_eq!(longest.at_most(Interval::from_secs(1)), Interval::from_secs(1));
}
