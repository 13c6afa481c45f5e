use app_benchmarks::benchmark_runner::{
    binary_candidates, find_test, parse_file_phase, spawn_args, status_label, test_catalog, FilePhase, RunnerState,
    RunnerStatus, StartError,
};
use app_benchmarks::best_results::{dashboard_catalog, DEFAULT_VUS};
use app_benchmarks::history::history_runs;
use app_benchmarks::runner_resource::{
    build_start_request, check_idle, new_active_run, phase_label, process_args, run_finished,
    ActiveRun, ProcessPhase, RunRecord, StartRejection,
};

const SEC: u64 = 1_000_000;

#[test]
fn catalog_lookup() {
    assert_eq!(test_catalog().len(), 17);
    let ws = find_test("ws").unwrap();
    assert_eq!((ws.name, ws.binary, ws.vus, ws.duration, ws.category), ("WS Fan-Out", "load-realtime", 15_000, 30, "throughput"));
    assert_eq!(find_test("vector-embed").unwrap().vus, 10);
    assert!(find_test("unknown").is_none());
}

#[test]
fn catalog_ids_are_distinct() {
    let ids: Vec<&str> = test_catalog().iter().map(|t| t.id).collect();
    let mut unique = ids.clone();
    unique.sort();
    unique.dedup();
    assert_eq!(unique.len(), ids.len());
    for id in ids {
        assert_eq!(find_test(id).unwrap().id, id);
    }
}

#[test]
fn file_phases_are_trimmed() {
    assert!(matches!(parse_file_phase("warming\n"), Some(FilePhase::Warming)));
    assert!(matches!(parse_file_phase("  seeding "), Some(FilePhase::Seeding)));
    assert!(matches!(parse_file_phase("cleaning"), Some(FilePhase::Cleaning)));
    assert!(parse_file_phase("running").is_none());
    assert!(parse_file_phase("").is_none());
}

#[test]
fn timeout_rule() {
    let mut s = RunnerState::default();
    assert!(!s.timed_out(u64::MAX));
    s.begin_run("ws".to_string(), 1_000 * SEC, 30, 20_000, 42, "/tmp/s".to_string());
    // 10 s ramp estimate + 5 s warmup + 30 s + 60 s grace = 105 s
    assert!(!s.timed_out(1_105 * SEC));
    assert!(s.timed_out(1_105 * SEC + 1));
    assert!(!s.timed_out(0));
}

#[test]
fn phase_transitions_and_report() {
    let mut s = RunnerState::default();
    assert_eq!(status_label(&s.status), "idle");
    assert!(!s.report(5).suppress_telemetry);
    s.begin_run("rest-read".to_string(), 100 * SEC, 30, 100, 7, "/tmp/f".to_string());
    assert_eq!(status_label(&s.status), "seeding");
    assert!(s.report(100 * SEC).suppress_telemetry);
    s.apply_phase(Some(FilePhase::Warming), 110 * SEC);
    assert_eq!(status_label(&s.status), "warming");
    assert_eq!(s.report(112 * SEC).warmup_micros, (2 * SEC) as i128);
    s.apply_phase(Some(FilePhase::Warming), 114 * SEC);
    assert_eq!(status_label(&s.status), "warming");
    assert_eq!(s.warming_started_at, Some(110 * SEC));
    s.apply_phase(Some(FilePhase::Warming), 115 * SEC);
    assert_eq!(status_label(&s.status), "running");
    let r = s.report(125 * SEC);
    assert_eq!(r.elapsed_micros, (10 * SEC) as i128);
    assert_eq!(r.warmup_micros, 0);
    // capped at the configured duration
    assert_eq!(s.report(500 * SEC).elapsed_micros, (30 * SEC) as i128);
    s.apply_phase(None, 130 * SEC);
    assert_eq!(status_label(&s.status), "running");
    s.apply_phase(Some(FilePhase::Cleaning), 140 * SEC);
    assert_eq!(status_label(&s.status), "cleaning");
}

#[test]
fn settling_shows_cleaning_once_then_idles() {
    let mut s = RunnerState::default();
    s.begin_run("rest-read".to_string(), 0, 30, 100, 7, "/tmp/f".to_string());
    let removed = s.settle(Some(FilePhase::Cleaning));
    assert!(removed.is_none());
    assert!(matches!(s.status, RunnerStatus::Cleaning));
    assert_eq!(s.child_pid, None);
    let removed = s.settle(Some(FilePhase::Cleaning));
    assert_eq!(removed, Some("/tmp/f".to_string()));
    assert!(matches!(s.status, RunnerStatus::Idle));
    assert_eq!(s.status_file, None);
    let mut t = RunnerState::default();
    t.begin_run("ws".to_string(), 0, 30, 100, 7, "/tmp/g".to_string());
    assert_eq!(t.settle(None), Some("/tmp/g".to_string()));
    assert!(matches!(t.status, RunnerStatus::Idle));
    t.set_error("Benchmark timed out".to_string());
    assert_eq!(t.last_error.as_deref(), Some("Benchmark timed out"));
    t.fail_start("Failed to start process 0: x".to_string());
    assert!(matches!(t.status, RunnerStatus::Idle));
}

#[test]
fn start_plans() {
    let idle = RunnerState::default();
    let p = idle.plan_start("ws", None, None, "https://a, ,https://b ").ok().unwrap();
    assert_eq!(p.total_vus, 15_000);
    assert_eq!(p.processes, 3);
    assert_eq!(p.vus_per_process, 5_000);
    assert_eq!(p.duration, 30);
    assert_eq!(p.targets, vec!["https://a", "https://b"]);
    let q = idle.plan_start("rest-read", Some(5_001), None, "https://x").ok().unwrap();
    assert_eq!((q.processes, q.vus_per_process), (2, 2_500));
    let z = idle.plan_start("rest-read", Some(0), None, "https://x").ok().unwrap();
    assert_eq!((z.processes, z.vus_per_process), (1, 0));
    let e = idle.plan_start("rest-read", Some(10), Some(3), "").ok().unwrap();
    assert_eq!((e.processes, e.vus_per_process), (3, 3));
    assert!(e.targets.is_empty());
    assert!(matches!(idle.plan_start("nope", None, None, "x"), Err(StartError::UnknownTest)));
    let mut busy = RunnerState::default();
    busy.begin_run("ws".to_string(), 0, 30, 1, 1, "f".to_string());
    assert!(matches!(busy.plan_start("ws", None, None, "x"), Err(StartError::AlreadyRunning)));
    assert!(matches!(busy.plan_start("nope", None, None, "x"), Err(StartError::UnknownTest)));
}

#[test]
fn spawn_arguments() {
    let a = spawn_args("ws", "https://t", 30, 15000, "admin:admin123", "ws-99", Some("/tmp/s"));
    assert_eq!(
        a,
        vec![
            "--test", "ws", "--base-url", "https://t", "--report-url", "https://localhost", "--duration", "30",
            "--vus", "15000", "--warmup", "5", "--auth", "admin:admin123", "--run-group", "ws-99",
            "--status-file", "/tmp/s",
        ]
    );
    let b = spawn_args("ws", "https://u", 30, 1, "a:b", "g", None);
    assert_eq!(b.len(), 16);
}

#[test]
fn process_phase_labels() {
    assert_eq!(phase_label(ProcessPhase::Pending), "seeding");
    assert_eq!(phase_label(ProcessPhase::Seeding), "seeding");
    assert_eq!(phase_label(ProcessPhase::Warming), "warming");
    assert_eq!(phase_label(ProcessPhase::Running), "running");
    assert_eq!(phase_label(ProcessPhase::Cleaning), "cleaning");
    assert_eq!(phase_label(ProcessPhase::Exited), "idle");
    assert_eq!(phase_label(ProcessPhase::Crashed), "crashed");
}

fn run(name: &str, phase: &str) -> ActiveRun {
    ActiveRun { test_name: name.to_string(), pid: 1, phase: phase.to_string(), started_at_ms: 1_774_785_600_000 }
}

#[test]
fn one_run_at_a_time() {
    assert!(check_idle(&None).is_ok());
    assert!(check_idle(&Some(run("rest-read", "idle"))).is_ok());
    match check_idle(&Some(run("rest-read", "seeding"))) {
        Err(StartRejection::AlreadyRunning(name)) => assert_eq!(name, "rest-read"),
        _ => panic!("expected a refusal"),
    }
}

#[test]
fn start_requests() {
    assert!(matches!(build_start_request(None, Some("b".into()), None, None, None), Err(StartRejection::MissingTest)));
    assert!(matches!(build_start_request(Some("t".into()), None, None, None, None), Err(StartRejection::MissingBinary)));
    let req = build_start_request(Some("rest-read".into()), Some("load-rest".into()), None, None, None).ok().unwrap();
    assert_eq!((req.duration, req.total_vus, req.target_url.as_str()), (30, 100, "https://localhost"));
    assert_eq!(
        process_args(&req),
        vec!["--test", "rest-read", "--duration", "30", "--vus", "100", "--base-url", "https://localhost", "--report-url", "https://localhost", "--warmup", "5"]
    );
    let r = new_active_run(&req, 9, 123);
    assert_eq!((r.test_name.as_str(), r.pid, r.phase.as_str(), r.started_at_ms), ("rest-read", 9, "seeding", 123));
}

fn record(name: Option<&str>, ts: Option<&str>) -> RunRecord {
    RunRecord { test_name: name.map(String::from), timestamp: ts.map(String::from) }
}

#[test]
fn finished_runs_are_detected_from_results() {
    let r = run("rest-read", "seeding");
    let rows = vec![
        record(Some("rest-read"), Some("2026-03-29T11:59:59Z")),
        record(Some("ws"), Some("2026-03-29T12:00:05Z")),
        record(Some("rest-read"), Some("not a time")),
        record(None, Some("2026-03-29T12:00:05Z")),
    ];
    assert!(!run_finished(&rows, &r));
    let mut done = rows;
    done.push(record(Some("rest-read"), Some("2026-03-29T12:00:00Z")));
    assert!(run_finished(&done, &r));
    let offset = vec![record(Some("rest-read"), Some("2026-03-29T14:00:00+02:00"))];
    assert!(run_finished(&offset, &r));
}

#[test]
fn history_is_newest_first_and_stable() {
    let rows = vec![
        record(Some("rest-read"), Some("2026-03-29T10:00:00Z")),
        record(Some("ws"), Some("2026-03-29T11:00:00Z")),
        record(Some("rest-read"), Some("2026-03-29T12:00:00Z")),
        record(Some("rest-read"), None),
        record(Some("rest-read"), Some("2026-03-29T12:00:00Z")),
        record(None, Some("2026-03-30T00:00:00Z")),
    ];
    assert_eq!(history_runs(&rows, "rest-read"), vec![2, 4, 0, 3]);
    assert_eq!(history_runs(&rows, "ws"), vec![1]);
    assert!(history_runs(&rows, "sse").is_empty());
}

#[test]
fn dashboard_catalog_overrides() {
    let c = dashboard_catalog();
    assert_eq!(c.len(), 17);
    assert_eq!(DEFAULT_VUS, 100);
    let overridden: Vec<&str> = c.iter().filter(|e| e.vus_override.is_some()).map(|e| e.id).collect();
    assert_eq!(overridden, vec!["ws", "sse", "mqtt"]);
    assert!(c.iter().enumerate().all(|(i, e)| e.order == i && e.duration == 30));
    assert_eq!(c[10].id, "vector-embed");
    assert_eq!(c[10].vus_override, None);
}

#[test]
fn documented_start_responses() {
    let idle = RunnerState::default();
    let p = idle.plan_start("rest-read", None, None, "https://localhost").ok().unwrap();
    assert_eq!((p.processes, p.vus_per_process, p.total_vus), (1, 100, 100));
    assert_eq!(p.test.binary, "load-rest");
    let w = idle.plan_start("ws", Some(30_000), None, "https://localhost").ok().unwrap();
    assert_eq!((w.processes, w.vus_per_process, w.total_vus), (6, 5_000, 30_000));
    let c = idle
        .plan_start("rest-read", None, None, "https://node1:9996,https://node2:9996,https://node3:9996")
        .ok()
        .unwrap();
    assert_eq!(c.targets, vec!["https://node1:9996", "https://node2:9996", "https://node3:9996"]);
}

#[test]
fn binaries_are_looked_for_in_build_order() {
    assert_eq!(
        binary_candidates("/srv/yeti", "/srv/apps", "load-rest"),
        vec![
            "/srv/yeti/cache/builds/target/release/load-rest".to_string(),
            "/srv/yeti/cache/builds/target/debug/load-rest".to_string(),
            "/srv/apps/app-benchmarks/target/release/load-rest".to_string(),
            "/srv/apps/app-benchmarks/target/debug/load-rest".to_string(),
        ]
    );
}
