use securenotify_sdk::metrics::{MetricSample, MetricStats, MetricsCollector, MetricsContext};

#[test]
fn stats_for_known_samples_are_exact() {
    let mut c = MetricsCollector::new(100);
    c.record("api/send", 300, true);
    c.record("api/send", 100, true);
    c.record("api/send", 200, false);
    let s = c.get_stats("api/send").unwrap();
    assert_eq!(s.count, 3);
    assert_eq!(s.success_count, 2);
    assert_eq!(s.failure_count, 1);
    assert_eq!(s.min_duration_ms, 100);
    assert_eq!(s.max_duration_ms, 300);
    assert_eq!(s.avg_duration_ms, 200);
    // nearest rank over sorted [100, 200, 300]
    assert_eq!(s.p50_duration_ms, 200);
    assert_eq!(s.p95_duration_ms, 300);
    assert_eq!(s.p99_duration_ms, 300);
}

#[test]
fn percentiles_of_single_sample() {
    let mut c = MetricsCollector::new(100);
    c.record("one", 42, true);
    let s = c.get_stats("one").unwrap();
    assert_eq!(s.p50_duration_ms, 42);
    assert_eq!(s.p95_duration_ms, 42);
    assert_eq!(s.p99_duration_ms, 42);
}

#[test]
fn unknown_endpoint_has_no_stats() {
    let c = MetricsCollector::default();
    assert!(c.get_stats("nothing").is_none());
}

#[test]
fn fifo_trim_keeps_newest_samples() {
    let mut c = MetricsCollector::new(2);
    c.record("e", 10, true);
    c.record("e", 20, true);
    c.record("e", 30, true);
    let s = c.get_stats("e").unwrap();
    assert_eq!(s.count, 2);
    assert_eq!(s.min_duration_ms, 20);
    assert_eq!(s.max_duration_ms, 30);
}

#[test]
fn all_stats_cover_every_endpoint() {
    let mut c = MetricsCollector::default();
    c.record("a", 10, true);
    c.record("b", 20, false);
    let all = c.get_all_stats();
    assert_eq!(all.len(), 2);
    assert_eq!(all[0].0, "a");
    assert_eq!(all[0].1.count, 1);
    assert_eq!(all[1].0, "b");
    assert_eq!(all[1].1.failure_count, 1);
}

#[test]
fn summary_totals_across_endpoints() {
    let mut c = MetricsCollector::default();
    c.record("a", 10, true);
    c.record("a", 20, false);
    c.record("b", 30, true);
    let s = c.get_summary();
    assert_eq!(s.total_requests, 3);
    assert_eq!(s.total_success, 2);
    assert_eq!(s.total_failures, 1);
    assert_eq!(s.endpoint_count, 2);
}

#[test]
fn reset_drops_everything() {
    let mut c = MetricsCollector::default();
    c.record("a", 10, true);
    c.reset();
    assert!(c.get_stats("a").is_none());
    assert_eq!(c.get_summary().total_requests, 0);
}

#[test]
fn add_sample_folds_counters_and_running_mean() {
    let mut s = MetricStats::new();
    s.add_sample(&MetricSample { endpoint: "e".to_string(), duration_ms: 100, success: true });
    assert_eq!(s.count, 1);
    assert_eq!(s.avg_duration_ms, 100);
    assert_eq!(s.min_duration_ms, 100);
    assert_eq!(s.max_duration_ms, 100);
    s.add_sample(&MetricSample { endpoint: "e".to_string(), duration_ms: 51, success: false });
    assert_eq!(s.count, 2);
    assert_eq!(s.success_count, 1);
    assert_eq!(s.failure_count, 1);
    // (100 * 1 + 51) / 2, floored
    assert_eq!(s.avg_duration_ms, 75);
    assert_eq!(s.min_duration_ms, 51);
}

#[test]
fn calculate_percentiles_reads_the_sorted_copy() {
    let mut s = MetricStats::new();
    let mk = |d: u64| MetricSample { endpoint: "e".to_string(), duration_ms: d, success: true };
    let samples = vec![mk(5), mk(1), mk(3)];
    s.calculate_percentiles(&samples);
    assert_eq!(s.p50_duration_ms, 3);
    assert_eq!(s.p95_duration_ms, 5);
    assert_eq!(s.p99_duration_ms, 5);
    // the counters are untouched
    assert_eq!(s.count, 0);
    // an empty list changes nothing
    let before = s;
    let mut s2 = s;
    s2.calculate_percentiles(&Vec::new());
    assert_eq!(s2, before);
}

#[test]
fn context_records_elapsed_time() {
    let mut c = MetricsCollector::default();
    let mut ctx = MetricsContext::new("op".to_string(), 1000);
    ctx.mark_success();
    ctx.record(&mut c, 1250);
    let s = c.get_stats("op").unwrap();
    assert_eq!(s.count, 1);
    assert_eq!(s.success_count, 1);
    assert_eq!(s.max_duration_ms, 250);
}
