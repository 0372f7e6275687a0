use proc_daemon::time::Delay;

#[test]
fn delay_units_convert_exactly() {
    assert_eq!(Delay::from_millis(1500).as_nanos(), 1_500_000_000);
    assert_eq!(Delay::from_secs(2).as_nanos(), 2_000_000_000);
    assert_eq!(Delay::from_nanos(7).as_nanos(), 7);
    let d = Delay::new(3, 250);
    assert_eq!((d.as_secs(), d.subsec_nanos()), (3, 250));
    assert!(Delay::zero().is_zero());
    assert_eq!(Delay::from_secs(1).min(Delay::from_millis(10)), Delay::from_millis(10));
    assert_eq!(Delay::from_millis(5).mul(4), Delay::from_millis(20));
}

#[test]
fn delay_covers_the_duration_range() {
    let max = Delay::new(u64::MAX, 999_999_999);
    assert_eq!(max.as_secs(), u64::MAX);
    assert_eq!(max.subsec_nanos(), 999_999_999);
    assert_eq!(max.as_nanos(), proc_daemon::time::MAX_DELAY_NANOS);
}
