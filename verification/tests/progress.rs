use megamaid::progress::{AdvancedProgress, ScanProgress};

#[test]
fn test_progress_tracking() {
    let mut progress = ScanProgress::new();

    progress.increment_file(100);
    progress.increment_file(200);
    progress.increment_directory();

    let report = progress.report();
    assert_eq!(report.files, 2);
    assert_eq!(report.bytes, 300);
    assert_eq!(report.dirs, 1);
}

#[test]
fn test_reset() {
    let mut progress = ScanProgress::new();

    progress.increment_file(1000);
    progress.increment_directory();

    progress.reset();

    let report = progress.report();
    assert_eq!(report.files, 0);
    assert_eq!(report.bytes, 0);
    assert_eq!(report.dirs, 0);
}

#[test]
fn progress_test_default_values() {
    let progress = ScanProgress::default();
    let report = progress.report();

    assert_eq!(report.files, 0);
    assert_eq!(report.bytes, 0);
    assert_eq!(report.dirs, 0);
}

#[test]
fn test_advanced_progress_tracking() {
    let mut progress = AdvancedProgress::new(0);
    progress.set_total(100);

    let mut now: u64 = 0;
    for _ in 0..50 {
        now += 10;
        progress.increment(now);
    }

    assert_eq!(progress.get_processed(), 50);
    assert_eq!(progress.get_processed() * 100 / progress.get_total(), 50);
}

#[test]
fn test_advanced_progress_increment_by() {
    let mut progress = AdvancedProgress::new(0);
    progress.set_total(1000);

    progress.increment_by(50, 100);
    assert_eq!(progress.get_processed(), 50);

    progress.increment_by(25, 400);
    assert_eq!(progress.get_processed(), 75);
}

#[test]
fn test_advanced_progress_format_eta() {
    let mut progress = AdvancedProgress::new(0);
    progress.set_total(1000);

    // Before any processing, ETA should show "calculating..."
    assert_eq!(progress.format_eta(), "calculating...");

    // After some processing, with samples spread over time
    let mut now: u64 = 0;
    for _ in 0..200 {
        now += 5;
        progress.increment(now);
    }

    let eta = progress.format_eta();
    // Should return a formatted string
    assert!(!eta.is_empty());
}

#[test]
fn test_advanced_progress_zero_total() {
    let progress = AdvancedProgress::new(0);

    assert_eq!(progress.estimate_eta(), None);
}

#[test]
fn eta_reflects_recorded_throughput() {
    // The window spans 1000 ms and covers 100 items; 800 items remain,
    // so the estimate is 800 * 1000 / 100 / 1000 = 8 seconds.
    let mut progress = AdvancedProgress::new(0);
    progress.set_total(1000);

    progress.increment_by(100, 0);
    progress.increment_by(100, 1000);

    assert_eq!(progress.estimate_eta(), Some(8));
    assert_eq!(progress.format_eta(), "8s");
}

#[test]
fn elapsed_counts_from_start() {
    let progress = AdvancedProgress::new(500);

    assert_eq!(progress.elapsed(1500), 1000);
    assert_eq!(progress.elapsed(400), 0);
}

#[test]
fn stale_samples_are_evicted_from_the_window() {
    // The first sample falls outside the 10-second retention window once
    // the third is recorded, so the estimate uses the recent 500 ms that
    // covered 100 items: 700 remaining * 500 / 100 / 1000 = 3 seconds.
    let mut progress = AdvancedProgress::new(0);
    progress.set_total(1000);

    progress.increment_by(100, 0);
    progress.increment_by(100, 20000);
    progress.increment_by(100, 20500);

    assert_eq!(progress.estimate_eta(), Some(3));
}
