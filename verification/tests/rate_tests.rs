use pnw_launcher::rate::{Sample, SlidingRateTracker, MILLIS_PER_SECOND, MIN_SPAN_MILLIS, WINDOW_MILLIS};

fn window(t: &SlidingRateTracker) -> Vec<Sample> {
    let mut out = Vec::new();
    let mut i = 0;
    while let Some(s) = t.sample(i) {
        out.push(s);
        i += 1;
    }
    assert_eq!(out.len(), t.len());
    out
}

#[test]
fn constants_are_three_seconds_and_one_millisecond() {
    assert_eq!(WINDOW_MILLIS, 3000);
    assert_eq!(MIN_SPAN_MILLIS, 1);
    assert_eq!(MILLIS_PER_SECOND, 1000);
}

#[test]
fn new_tracker_is_empty() {
    let t = SlidingRateTracker::new();
    assert_eq!(t.len(), 0);
    assert_eq!(t.sample(0), None);
    assert_eq!(t.rate(), 0);
    assert_eq!(t.eta(10), None);
}

#[test]
fn rate_is_zero_with_fewer_than_two_samples() {
    let mut t = SlidingRateTracker::new();
    assert_eq!(t.rate(), 0);
    t.record(0, 100);
    assert_eq!(t.rate(), 0);
    assert_eq!(t.eta(1000), None);
}

#[test]
fn rate_is_bytes_over_seconds() {
    let mut t = SlidingRateTracker::new();
    t.record(0, 0);
    t.record(1000, 500_000);
    assert_eq!(t.rate(), 500_000);
    t.record(2000, 1_500_000);
    assert_eq!(t.rate(), 750_000);
    assert_eq!(t.sample(0), Some(Sample { at_millis: 0, bytes: 0 }));
}

#[test]
fn rate_uses_oldest_and_newest_sample_only() {
    let mut t = SlidingRateTracker::new();
    t.record(100, 1000);
    t.record(200, 900_000);
    t.record(2100, 5000);
    // (5000 - 1000) bytes in 2000 ms
    assert_eq!(t.rate(), 2000);
}

#[test]
fn rate_rounds_down() {
    let mut t = SlidingRateTracker::new();
    t.record(0, 0);
    t.record(3, 10);
    // 10 bytes in 3 ms is 3333.33 bytes per second
    assert_eq!(t.rate(), 3333);
}

#[test]
fn span_is_clamped_to_one_millisecond() {
    let mut t = SlidingRateTracker::new();
    t.record(50, 0);
    t.record(50, 7);
    assert_eq!(t.rate(), 7000);
}

#[test]
fn rate_is_zero_when_bytes_go_down() {
    let mut t = SlidingRateTracker::new();
    t.record(0, 500);
    t.record(1000, 100);
    assert_eq!(t.rate(), 0);
    assert_eq!(t.eta(5), None);
}

#[test]
fn rate_is_capped_at_the_largest_value() {
    let mut t = SlidingRateTracker::new();
    t.record(0, 0);
    t.record(1, u64::MAX);
    assert_eq!(t.rate(), u64::MAX);
}

#[test]
fn a_clock_that_went_backwards_counts_as_no_time() {
    let mut t = SlidingRateTracker::new();
    t.record(1000, 0);
    t.record(400, 20);
    assert_eq!(t.len(), 2);
    assert_eq!(t.rate(), 20_000);
}

#[test]
fn samples_older_than_the_window_are_evicted() {
    let mut t = SlidingRateTracker::new();
    t.record(0, 0);
    t.record(1000, 10);
    t.record(2000, 20);
    t.record(3000, 30);
    // 3000 ms old is not older than the window
    assert_eq!(t.len(), 4);
    t.record(3001, 40);
    assert_eq!(
        window(&t),
        vec![
            Sample { at_millis: 1000, bytes: 10 },
            Sample { at_millis: 2000, bytes: 20 },
            Sample { at_millis: 3000, bytes: 30 },
            Sample { at_millis: 3001, bytes: 40 },
        ]
    );
    t.record(10_000, 50);
    assert_eq!(window(&t), vec![Sample { at_millis: 10_000, bytes: 50 }]);
    assert_eq!(t.rate(), 0);
}

#[test]
fn eviction_stops_at_the_first_recent_sample() {
    let mut t = SlidingRateTracker::new();
    t.record(5000, 1);
    t.record(0, 2);
    t.record(5000, 3);
    // the front is recent, so the stale sample behind it stays
    assert_eq!(t.len(), 3);
}

#[test]
fn every_retained_sample_is_within_the_window_of_the_newest() {
    let mut t = SlidingRateTracker::new();
    let mut now = 0u64;
    let mut bytes = 0u64;
    for step in 0..200u64 {
        now += (step * 37) % 900;
        bytes += 1000 + step;
        t.record(now, bytes);
        let w = window(&t);
        assert_eq!(*w.last().unwrap(), Sample { at_millis: now, bytes });
        for s in &w {
            assert!(now - s.at_millis <= WINDOW_MILLIS);
        }
        for pair in w.windows(2) {
            assert!(pair[0].at_millis <= pair[1].at_millis);
        }
    }
}

#[test]
fn samples_within_one_window_are_all_retained() {
    let mut t = SlidingRateTracker::new();
    let given = vec![(10u64, 100u64), (500, 2_000), (1500, 40_000), (3010, 90_100)];
    for (at, bytes) in &given {
        t.record(*at, *bytes);
    }
    assert_eq!(t.len(), 4);
    // (90_100 - 100) bytes in 3000 ms
    assert_eq!(t.rate(), 30_000);
}

#[test]
fn eta_is_remaining_over_rate() {
    let mut t = SlidingRateTracker::new();
    t.record(0, 0);
    t.record(2000, 2_000_000);
    assert_eq!(t.rate(), 1_000_000);
    assert_eq!(t.eta(5_000_000), Some(5));
    assert_eq!(t.eta(5_999_999), Some(5));
    assert_eq!(t.eta(0), Some(0));
    assert_eq!(t.eta(u64::MAX), Some(u64::MAX / 1_000_000));
}

#[test]
fn eta_is_unknown_while_the_rate_is_zero() {
    let mut t = SlidingRateTracker::new();
    t.record(0, 100);
    t.record(1000, 100);
    assert_eq!(t.rate(), 0);
    assert_eq!(t.eta(100), None);
}

#[test]
fn clear_forgets_every_sample() {
    let mut t = SlidingRateTracker::new();
    t.record(0, 0);
    t.record(10, 10);
    t.clear();
    assert_eq!(t.len(), 0);
    assert_eq!(t.rate(), 0);
}
