use app_benchmarks::metrics::{Metrics, LATENCY_HIGH_US};
use app_benchmarks::runner::{record_batch_response, record_response, record_successes, ResponseOutcome, SnapshotLog};

fn measuring() -> Metrics {
    let mut m = Metrics::new();
    m.set_warming(false);
    m
}

#[test]
fn new_metrics_are_warming_and_empty() {
    let mut m = Metrics::new();
    assert!(m.is_warming());
    let s = m.summary_counts();
    assert_eq!((s.total, s.errors, s.total_bytes), (0, 0, 0));
    assert_eq!(s.latencies.inner.len(), 0);
    let mut d = Metrics::default();
    assert!(d.is_warming());
    assert_eq!(d.summary_counts().total, 0);
}

#[test]
fn recording_while_warming_changes_nothing() {
    let mut m = Metrics::new();
    m.record_success(1200, 500);
    m.record_batch_success(10, 100, 5);
    m.record_error();
    assert_eq!(m.total_requests, 0);
    assert_eq!(m.total_records, 0);
    assert_eq!(m.total_errors, 0);
    assert_eq!(m.total_bytes, 0);
    let snap = m.take_interval_snapshot(1);
    assert_eq!((snap.requests, snap.errors), (0, 0));
    assert_eq!(snap.latencies.inner.len(), 0);
}

#[test]
fn success_counts_request_record_bytes_and_latency() {
    let mut m = measuring();
    m.record_success(1500, 200);
    m.record_success(2500, 300);
    assert_eq!(m.total_requests, 2);
    assert_eq!(m.total_records, 2);
    assert_eq!(m.total_bytes, 500);
    let s = m.summary_counts();
    assert_eq!(s.total, 2);
    assert_eq!(s.total_bytes, 500);
    assert_eq!(s.latencies.inner.len(), 2);
    assert_eq!(s.latencies.inner.max(), s.latencies.inner.highest_equivalent(2500));
    // the summary leaves the metrics as they were
    let again = m.summary_counts();
    assert_eq!(again.latencies.inner.len(), 2);
}

#[test]
fn batch_success_counts_one_response_many_records() {
    let mut m = measuring();
    m.record_batch_success(40, 1000, 100);
    assert_eq!(m.total_requests, 1);
    assert_eq!(m.total_records, 100);
    assert_eq!(m.total_bytes, 1000);
    let snap = m.take_interval_snapshot(1);
    assert_eq!(snap.requests, 1);
    assert_eq!(snap.latencies.inner.len(), 1);
    let s = m.summary_counts();
    assert_eq!(s.total, 100);
}

#[test]
fn errors_count_but_add_no_latency() {
    let mut m = measuring();
    m.record_error();
    m.record_error();
    assert_eq!(m.total_requests, 2);
    assert_eq!(m.total_records, 2);
    assert_eq!(m.total_errors, 2);
    let s = m.summary_counts();
    assert_eq!(s.total, 2);
    assert_eq!(s.errors, 2);
    assert_eq!(s.latencies.inner.len(), 0);
}

#[test]
fn snapshot_drains_interval_but_keeps_totals() {
    let mut m = measuring();
    m.set_active_vus(7);
    assert_eq!(m.active_vus(), 7);
    for i in 0..40u64 {
        m.record_success(100 + i, 1);
    }
    m.record_error();
    let first = m.take_interval_snapshot(3);
    assert_eq!(first.second, 3);
    assert_eq!(first.requests, 40);
    assert_eq!(first.errors, 1);
    assert_eq!(first.active_vus, 7);
    assert_eq!(first.latencies.inner.len(), 40);
    let second = m.take_interval_snapshot(4);
    assert_eq!((second.requests, second.errors), (0, 0));
    assert_eq!(second.latencies.inner.len(), 0);
    let s = m.summary_counts();
    assert_eq!(s.latencies.inner.len(), 40);
    assert_eq!(s.total, 41);
    assert_eq!(s.errors, 1);
}

#[test]
fn latency_within_range_is_kept_exactly_below_two_thousand() {
    let mut m = measuring();
    m.record_success(1999, 0);
    m.record_success(LATENCY_HIGH_US, 0);
    let s = m.summary_counts();
    assert_eq!(s.latencies.inner.len(), 2);
    assert_eq!(s.latencies.inner.min(), 1999);
}

#[test]
fn record_response_by_status() {
    let mut m = measuring();
    record_response(&mut m, ResponseOutcome::Received { success: true, bytes: 10, latency_us: 300 });
    record_response(&mut m, ResponseOutcome::Received { success: false, bytes: 10, latency_us: 300 });
    record_response(&mut m, ResponseOutcome::Failed);
    assert_eq!(m.total_requests, 3);
    assert_eq!(m.total_records, 3);
    assert_eq!(m.total_errors, 2);
    assert_eq!(m.total_bytes, 10);
}

#[test]
fn batch_response_counts_each_record() {
    let mut m = measuring();
    record_batch_response(&mut m, ResponseOutcome::Received { success: true, bytes: 1003, latency_us: 4002 }, 4);
    assert_eq!(m.total_requests, 4);
    assert_eq!(m.total_records, 4);
    assert_eq!(m.total_bytes, 4 * 250);
    let s = m.summary_counts();
    assert_eq!(s.latencies.inner.len(), 4);
    assert_eq!(s.latencies.inner.max(), 1000);
    record_batch_response(&mut m, ResponseOutcome::Received { success: false, bytes: 0, latency_us: 1 }, 4);
    record_batch_response(&mut m, ResponseOutcome::Failed, 0);
    assert_eq!(m.total_errors, 2);
    assert_eq!(m.total_requests, 6);
}

#[test]
fn repeated_successes() {
    let mut m = measuring();
    record_successes(&mut m, 3, 50, 7);
    assert_eq!(m.total_requests, 3);
    assert_eq!(m.total_bytes, 21);
}

#[test]
fn snapshot_log_collects_one_sample_per_second() {
    let mut m = measuring();
    let mut log = SnapshotLog::new();
    m.record_success(10, 1);
    log.collect(&mut m);
    m.record_success(10, 1);
    m.record_success(10, 1);
    log.collect(&mut m);
    log.collect(&mut m);
    assert_eq!(log.second, 3);
    let reqs: Vec<u64> = log.samples.iter().map(|s| s.requests).collect();
    let secs: Vec<u32> = log.samples.iter().map(|s| s.second).collect();
    assert_eq!(reqs, vec![1, 2, 0]);
    assert_eq!(secs, vec![1, 2, 3]);
}

#[test]
fn snapshots_and_current_interval_hold_every_sample() {
    let mut m = measuring();
    let mut log = SnapshotLog::new();
    m.record_success(100, 1);
    m.record_success(2_000_000, 1);
    m.record_error();
    log.collect(&mut m);
    m.record_success(300, 1);
    log.collect(&mut m);
    m.record_success(200_000_000, 1);
    m.record_success(5, 1);
    // Merge what the snapshots took with what the current interval holds.
    let pending = m.take_interval_snapshot(99);
    let mut all = pending.latencies.inner.clone();
    for s in &log.samples {
        all.add(&s.latencies.inner).unwrap();
    }
    let cumulative = m.summary_counts().latencies.inner;
    assert_eq!(all.len(), cumulative.len());
    assert_eq!(cumulative.len(), 4);
    for v in [5u64, 100, 300, 2_000_000] {
        assert_eq!(all.count_at(v), cumulative.count_at(v));
        assert_eq!(cumulative.count_at(v), 1);
    }
}

#[test]
fn without_batches_records_equal_requests() {
    let mut m = measuring();
    m.record_success(100, 10);
    m.record_error();
    m.record_success(200, 10);
    assert_eq!(m.total_requests(), 3);
    assert_eq!(m.total_records(), m.total_requests());
    assert_eq!(m.total_errors(), 1);
    assert_eq!(m.total_bytes(), 20);
    let s = m.summary_counts();
    assert_eq!((s.total, s.errors), (3, 1));
}
