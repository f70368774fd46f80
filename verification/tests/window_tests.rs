use rust_eze_racing::window::{RateReport, ThroughputWindow, WINDOW_NANOS};

#[test]
fn window_opens_empty() {
    let window = ThroughputWindow::new(17);
    assert_eq!(window, ThroughputWindow { count: 0, window_start: 17 });
    assert_eq!(WINDOW_NANOS, 1_000_000_000);
}

#[test]
fn nothing_is_reported_inside_the_window() {
    let mut window = ThroughputWindow::new(1_000);
    window.record_success();
    assert_eq!(window.observe(1_000), None);
    assert_eq!(window.observe(1_000 + 999_999_999), None);
    assert_eq!(window, ThroughputWindow { count: 1, window_start: 1_000 });
}

#[test]
fn rate_is_count_over_elapsed_seconds() {
    let mut window = ThroughputWindow::new(5_000);
    for _ in 0..1500 {
        window.record_success();
    }
    let report = window.observe(5_000 + 1_500_000_000).unwrap();
    assert_eq!(report, RateReport { count: 1500, elapsed_nanos: 1_500_000_000 });
    assert_eq!(report.per_second(), 1000);
    assert_eq!(report.count as f64 / (report.elapsed_nanos as f64 / 1e9), 1000.0);
    assert_eq!(window, ThroughputWindow { count: 0, window_start: 5_000 + 1_500_000_000 });
}

#[test]
fn report_comes_at_exactly_one_second() {
    let mut window = ThroughputWindow::new(0);
    window.record_successes(42);
    let report = window.observe(1_000_000_000).unwrap();
    assert_eq!(report, RateReport { count: 42, elapsed_nanos: 1_000_000_000 });
    assert_eq!(report.per_second(), 42);
}

#[test]
fn rate_is_rounded_down() {
    assert_eq!(RateReport { count: 10, elapsed_nanos: 3_000_000_000 }.per_second(), 3);
    assert_eq!(RateReport { count: 0, elapsed_nanos: 1_000_000_000 }.per_second(), 0);
    assert_eq!(RateReport { count: 1, elapsed_nanos: 1_000_000_001 }.per_second(), 0);
    assert_eq!(RateReport { count: u64::MAX, elapsed_nanos: 1_000_000_000 }.per_second(), u64::MAX);
    assert_eq!(RateReport { count: u64::MAX, elapsed_nanos: u64::MAX }.per_second(), 1_000_000_000);
}

#[test]
fn failed_writes_count_nothing() {
    let mut window = ThroughputWindow::new(0);
    window.record_successes(3);
    window.record_successes(0);
    assert_eq!(window.count, 3);
}

#[test]
fn count_stops_at_the_top() {
    let mut window = ThroughputWindow { count: u64::MAX - 1, window_start: 0 };
    window.record_success();
    assert_eq!(window.count, u64::MAX);
    window.record_success();
    assert_eq!(window.count, u64::MAX);
    window.record_successes(u64::MAX);
    assert_eq!(window.count, u64::MAX);
}

#[test]
fn clock_that_reads_earlier_reports_nothing() {
    let mut window = ThroughputWindow { count: 9, window_start: 5_000_000_000 };
    assert_eq!(window.observe(1), None);
    assert_eq!(window, ThroughputWindow { count: 9, window_start: 5_000_000_000 });
}

#[test]
fn windows_follow_one_another() {
    let mut window = ThroughputWindow::new(0);
    window.record_successes(10);
    assert_eq!(window.observe(2_000_000_000).unwrap().per_second(), 5);
    window.record_successes(7);
    assert_eq!(window.observe(2_500_000_000), None);
    let report = window.observe(3_000_000_000).unwrap();
    assert_eq!(report, RateReport { count: 7, elapsed_nanos: 1_000_000_000 });
}
