//! Frame clock: interval handling and VBlank prediction.
use ewm::frame_clock::FrameClock;
use ewm::time::Duration;

fn get_monotonic_time() -> Duration {
    let since = std::time::SystemTime::now()
        .duration_since(std::time::UNIX_EPOCH)
        .unwrap();
    Duration::from_nanos(since.as_nanos() as u64)
}

#[test]
fn test_frame_clock_no_interval() {
    let clock = FrameClock::new(None);
    // Without interval, returns approximately now
    let t = clock.next_presentation_time(get_monotonic_time());
    assert!(!t.is_zero());
}

#[test]
fn test_frame_clock_no_presentation() {
    let clock = FrameClock::new(Some(Duration::from_micros(16_667)));
    // Without presentation time, returns approximately now
    let t = clock.next_presentation_time(get_monotonic_time());
    assert!(!t.is_zero());
}

#[test]
fn test_frame_clock_predicts_next() {
    let mut clock = FrameClock::new(Some(Duration::from_millis(16)));
    let now = get_monotonic_time();
    // Simulate a recent presentation
    clock.presented(now.minus(&Duration::from_millis(5)));
    let next = clock.next_presentation_time(now);
    // Next should be after now
    assert!(!next.less(&now));
    // And within one refresh interval from now
    assert!(!now.plus(&Duration::from_millis(16)).less(&next));
}

#[test]
fn test_refresh_interval() {
    let clock = FrameClock::new(Some(Duration::from_micros(16_667)));
    let interval = clock.refresh_interval().unwrap();
    assert_eq!(interval.as_micros(), 16_667);

    let clock = FrameClock::new(None);
    assert!(clock.refresh_interval().is_none());
}

#[test]
fn prediction_is_exact() {
    let mut clock = FrameClock::new(Some(Duration::from_nanos(1_000)));
    clock.presented(Duration::from_nanos(10_000));
    // 10_000 + (2_500 / 1_000 + 1) * 1_000
    let next = clock.next_presentation_time(Duration::from_nanos(12_500));
    assert_eq!(next.as_nanos(), 13_000);
    // On the grid already: the next slot is one interval later.
    let next = clock.next_presentation_time(Duration::from_nanos(12_000));
    assert_eq!(next.as_nanos(), 13_000);
    // A slightly early VBlank counts one interval on.
    let next = clock.next_presentation_time(Duration::from_nanos(9_500));
    assert_eq!(next.as_nanos(), 11_000);
    // A VBlank more than one interval early falls back to the slot after the next.
    let next = clock.next_presentation_time(Duration::from_nanos(5_000));
    assert_eq!(next.as_nanos(), 12_000);
}

#[test]
fn zero_times_are_no_record() {
    let mut clock = FrameClock::new(Some(Duration::zero()));
    assert!(clock.refresh_interval().is_none());
    clock = FrameClock::new(Some(Duration::from_nanos(1_000)));
    clock.presented(Duration::zero());
    let next = clock.next_presentation_time(Duration::from_nanos(777));
    assert_eq!(next.as_nanos(), 777);
}

#[test]
fn without_an_interval_every_time_is_now() {
    let mut clock = FrameClock::new(None);
    clock.presented(Duration::from_secs(9));
    let late = Duration::from_secs(u64::MAX);
    assert_eq!(clock.next_presentation_time(late), late);
    let mut zero = FrameClock::new(Some(Duration::zero()));
    assert_eq!(zero.refresh_interval(), None);
    zero.presented(Duration::from_secs(9));
    assert_eq!(zero.next_presentation_time(Duration::from_secs(1)), Duration::from_secs(1));
}

#[test]
fn prediction_works_up_to_the_largest_time() {
    let mut clock = FrameClock::new(Some(Duration::from_nanos(10)));
    let end = Duration::from_secs(u64::MAX);
    clock.presented(end);
    let next = clock.next_presentation_time(end);
    assert_eq!(next.as_nanos(), end.as_nanos() + 20);
    clock.presented(Duration::from_nanos(5));
    let late = Duration::from_nanos(u64::MAX - 100);
    assert_eq!(clock.next_presentation_time(late).as_nanos(), u128::from(u64::MAX) - 90);
}
