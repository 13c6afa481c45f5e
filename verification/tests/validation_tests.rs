use app_benchmarks::bin_load_graphql::graphql_workload;
use app_benchmarks::bin_load_rest::{rest_workload, WorkloadKind};
use app_benchmarks::common::{check_error_rate, ErrorRateCheck};
use app_benchmarks::reporter::error_rate_is_significant;
use app_benchmarks::runner::{initial_vus, ramp_tick, RampConfig};
use std::time::Duration;

#[test]
fn error_rate_verdicts() {
    assert!(matches!(check_error_rate(0, 0), ErrorRateCheck::NoRequests));
    assert!(matches!(check_error_rate(1000, 10), ErrorRateCheck::Acceptable));
    assert!(matches!(check_error_rate(1000, 11), ErrorRateCheck::TooHigh));
    assert!(matches!(check_error_rate(100, 0), ErrorRateCheck::Acceptable));
    assert!(matches!(check_error_rate(u64::MAX, u64::MAX), ErrorRateCheck::TooHigh));
}

#[test]
fn significant_error_rate_is_above_one_per_mille() {
    assert!(!error_rate_is_significant(0, 0));
    assert!(!error_rate_is_significant(1000, 1));
    assert!(error_rate_is_significant(1000, 2));
    assert!(error_rate_is_significant(10, 1));
}

fn ramp(start: u64, step: u64, max: u64) -> RampConfig {
    RampConfig { start_vus: start, step_vus: step, step_interval: Duration::from_secs(5), max_vus: max }
}

#[test]
fn ramp_starts_capped_and_grows_by_steps() {
    assert_eq!(initial_vus(&ramp(10, 10, 200)), 10);
    assert_eq!(initial_vus(&ramp(300, 10, 200)), 200);
    let r = ramp(10, 30, 100);
    let mut current = initial_vus(&r);
    let mut seen = vec![current];
    for _ in 0..5 {
        current += ramp_tick(&r, current, true);
        seen.push(current);
    }
    assert_eq!(seen, vec![10, 40, 70, 100, 100, 100]);
    assert_eq!(ramp_tick(&r, 40, false), 0);
}

#[test]
fn rest_and_graphql_workloads() {
    let w = rest_workload("rest-read-ramp").unwrap();
    assert!(matches!(w.kind, WorkloadKind::Read));
    assert_eq!((w.book_table, w.author_table), ("ReadBook", Some("ReadAuthor")));
    let b = rest_workload("rest-batch-write").unwrap();
    assert!(matches!(b.kind, WorkloadKind::BatchWrite));
    assert_eq!((b.book_table, b.author_table), ("BatchWriteBook", None));
    assert_eq!(rest_workload("rest-update").unwrap().book_table, "UpdateBook");
    assert_eq!(rest_workload("rest-join").unwrap().author_table, Some("JoinAuthor"));
    assert_eq!(rest_workload("rest-write-sustained").unwrap().book_table, "WriteBook");
    assert!(rest_workload("rest-delete").is_none());
    let g = graphql_workload("graphql-mutation").unwrap();
    assert!(matches!(g.kind, WorkloadKind::Write));
    assert_eq!(g.book_table, "GqlWriteBook");
    assert_eq!(graphql_workload("graphql-update").unwrap().author_table, None);
    assert!(graphql_workload("rest-read").is_none());
}
