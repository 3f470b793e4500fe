use avrtos::duration::Duration;

#[test]
fn conversions_between_units() {
    assert_eq!(Duration::from_millis(1500).as_millis(), 1500);
    assert_eq!(Duration::from_micros(2999).as_millis(), 2);
    assert_eq!(Duration::from_micros(999).as_millis(), 0);
    assert_eq!(Duration::from_secs(3).as_millis(), 3000);
    assert_eq!(Duration::from_secs(0).as_millis(), 0);
    assert_eq!(Duration::from_secs(4_294_967).as_millis(), 4_294_967_000);
}

#[test]
fn special_durations() {
    assert_eq!(Duration::no_delay().as_millis(), 0);
    assert!(!Duration::no_delay().is_forever());
    assert_eq!(Duration::forever_wait().as_millis(), u32::MAX);
    assert!(Duration::forever_wait().is_forever());
    assert!(Duration::from_millis(u32::MAX).is_forever());
    assert!(!Duration::from_millis(u32::MAX - 1).is_forever());
    assert_eq!(Duration::from_millis(0), Duration::no_delay());
}

#[test]
fn ticks_round_down() {
    assert_eq!(Duration::from_millis(25).as_ticks(1000), 25);
    assert_eq!(Duration::from_millis(25).as_ticks(10_000), 2);
    assert_eq!(Duration::from_millis(9).as_ticks(10_000), 0);
    assert_eq!(Duration::from_millis(10).as_ticks(10_000), 1);
    assert_eq!(Duration::from_millis(1).as_ticks(1), 1000);
    assert_eq!(Duration::from_millis(1).as_ticks(3), 333);
    assert_eq!(Duration::from_millis(u32::MAX - 1).as_ticks(1), 4_294_967_294_000);
    assert_eq!(Duration::from_secs(1).as_ticks(1000), 1000);
}
