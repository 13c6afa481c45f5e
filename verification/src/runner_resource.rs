//! The single-run runner resource: at most one load test at a time, its phase labels,
//! the validation of a start request, and detection of a finished run from the
//! stored test results.

use vstd::prelude::*;
use crate::text::{decimal, str_eq, u64_to_decimal, views};

verus! {

/// A recorded test run as the results table holds it: its test name and its RFC 3339
/// timestamp, each absent when the field is missing or not a string.
pub struct RunRecord {
    pub test_name: Option<String>,
    pub timestamp: Option<String>,
}

/// The phases a spawned load-test process goes through.
pub enum ProcessPhase {
    Pending,
    Seeding,
    Warming,
    Running,
    Cleaning,
    Exited,
    Crashed,
}

/// The status label reported for a process phase.
pub open spec fn phase_label_spec(p: ProcessPhase) -> Seq<char> {
    match p {
        ProcessPhase::Pending => "seeding"@,
        ProcessPhase::Seeding => "seeding"@,
        ProcessPhase::Warming => "warming"@,
        ProcessPhase::Running => "running"@,
        ProcessPhase::Cleaning => "cleaning"@,
        ProcessPhase::Exited => "idle"@,
        ProcessPhase::Crashed => "crashed"@,
    }
}

/// The label of `p`: a pending process counts as seeding, an exited one as idle.
pub fn phase_label(p: ProcessPhase) -> (r: &'static str)
    ensures
        r@ == phase_label_spec(p),
{
    match p {
        ProcessPhase::Pending => "seeding",
        ProcessPhase::Seeding => "seeding",
        ProcessPhase::Warming => "warming",
        ProcessPhase::Running => "running",
        ProcessPhase::Cleaning => "cleaning",
        ProcessPhase::Exited => "idle",
        ProcessPhase::Crashed => "crashed",
    }
}

/// The run that is active.
pub struct ActiveRun {
    pub test_name: String,
    pub pid: u32,
    pub phase: String,
    pub started_at_ms: u64,
}

/// Why a start request is refused.
pub enum StartRejection {
    /// The named test is still active.
    AlreadyRunning(String),
    /// The body names no test.
    MissingTest,
    /// The body names no binary.
    MissingBinary,
}

/// Refuses a start while the active run is in any phase but idle.
pub fn check_idle(active: &Option<ActiveRun>) -> (r: Result<(), StartRejection>)
    ensures
        match active {
            Some(a) => if a.phase@ == "idle"@ {
                r is Ok
            } else {
                r matches Err(StartRejection::AlreadyRunning(name)) && name@ == a.test_name@
            },
            None => r is Ok,
        },
{
    match active {
        Some(a) => {
            if str_eq(a.phase.as_str(), "idle") {
                Ok(())
            } else {
                Err(StartRejection::AlreadyRunning(a.test_name.clone()))
            }
        },
        None => Ok(()),
    }
}

/// A validated start request.
pub struct StartRequest {
    pub test: String,
    pub binary: String,
    pub duration: u64,
    pub total_vus: u64,
    pub target_url: String,
}

/// Seconds a test runs when the request names no duration.
pub const DEFAULT_DURATION_SECS: u64 = 30;

/// Virtual users when the request names none.
pub const DEFAULT_VUS: u64 = 100;

/// Validates the fields of a start request: the test and the binary are required;
/// duration, users and target fall back to 30 s, 100 users and the local server.
pub fn build_start_request(
    test: Option<String>,
    binary: Option<String>,
    duration: Option<u64>,
    vus: Option<u64>,
    target_url: Option<String>,
) -> (r: Result<StartRequest, StartRejection>)
    ensures
        test is None ==> r matches Err(StartRejection::MissingTest),
        test is Some && binary is None ==> r matches Err(StartRejection::MissingBinary),
        test is Some && binary is Some ==> (r matches Ok(q) && {
            &&& q.test == test->0
            &&& q.binary == binary->0
            &&& q.duration == match duration {
                Some(d) => d,
                None => DEFAULT_DURATION_SECS,
            }
            &&& q.total_vus == match vus {
                Some(v) => v,
                None => DEFAULT_VUS,
            }
            &&& q.target_url@ == match target_url {
                Some(t) => t@,
                None => "https://localhost"@,
            }
        }),
{
    let test = match test {
        Some(t) => t,
        None => {
            return Err(StartRejection::MissingTest);
        },
    };
    let binary = match binary {
        Some(b) => b,
        None => {
            return Err(StartRejection::MissingBinary);
        },
    };
    let duration = match duration {
        Some(d) => d,
        None => DEFAULT_DURATION_SECS,
    };
    let total_vus = match vus {
        Some(v) => v,
        None => DEFAULT_VUS,
    };
    let target_url = match target_url {
        Some(t) => t,
        None => String::from_str("https://localhost"),
    };
    Ok(StartRequest { test, binary, duration, total_vus, target_url })
}

/// The arguments a start request launches its process with.
pub open spec fn process_args_spec(test: Seq<char>, duration: u64, vus: u64, target: Seq<char>) -> Seq<
    Seq<char>,
> {
    seq![
        "--test"@, test, "--duration"@, decimal(duration as nat), "--vus"@, decimal(vus as nat),
        "--base-url"@, target, "--report-url"@, "https://localhost"@, "--warmup"@, "5"@,
    ]
}

/// The process arguments of a validated start request.
pub fn process_args(req: &StartRequest) -> (args: Vec<String>)
    ensures
        views(args@) == process_args_spec(req.test@, req.duration, req.total_vus, req.target_url@),
{
    let mut args: Vec<String> = Vec::new();
    args.push(String::from_str("--test"));
    args.push(req.test.clone());
    args.push(String::from_str("--duration"));
    args.push(u64_to_decimal(req.duration));
    args.push(String::from_str("--vus"));
    args.push(u64_to_decimal(req.total_vus));
    args.push(String::from_str("--base-url"));
    args.push(req.target_url.clone());
    args.push(String::from_str("--report-url"));
    args.push(String::from_str("https://localhost"));
    args.push(String::from_str("--warmup"));
    args.push(String::from_str("5"));
    proof {
        assert(views(args@) =~= process_args_spec(req.test@, req.duration, req.total_vus, req.target_url@));
    }
    args
}

/// The run that a start request begins, in its first phase.
pub fn new_active_run(req: &StartRequest, pid: u32, now_ms: u64) -> (a: ActiveRun)
    ensures
        a.test_name == req.test,
        a.pid == pid,
        a.phase@ == "seeding"@,
        a.started_at_ms == now_ms,
{
    ActiveRun { test_name: req.test.clone(), pid, phase: String::from_str("seeding"), started_at_ms: now_ms }
}

/// The milliseconds since the Unix epoch of an RFC 3339 timestamp, as chrono's
/// `DateTime::parse_from_rfc3339` followed by `timestamp_millis` gives them; `None`
/// when the text does not parse.
pub uninterp spec fn rfc3339_millis(text: Seq<char>) -> Option<i64>;

/// chrono's `DateTime::parse_from_rfc3339(text)` and, when it parses,
/// `timestamp_millis()` of the result. Claimed: the result is `rfc3339_millis` of the
/// text; it depends on the text alone.
#[verifier::external_body]
fn parse_rfc3339_millis(text: &str) -> (r: Option<i64>)
    ensures
        r == rfc3339_millis(text@),
{
    match chrono::DateTime::parse_from_rfc3339(text) {
        Ok(dt) => Some(dt.timestamp_millis()),
        Err(_) => None,
    }
}

/// Whether a stored result with this test name and parsed timestamp finishes the
/// active run: same test, written at or after the run started.
pub open spec fn marks_finish_spec(name: Option<Seq<char>>, millis: Option<i64>, run_test: Seq<char>, started_ms: u64) -> bool {
    &&& name == Some(run_test)
    &&& millis matches Some(ms) && (ms as u64) >= started_ms
}

/// Whether one stored result finishes the active run, given its parsed timestamp.
pub fn marks_finish(name: &Option<String>, millis: Option<i64>, run: &ActiveRun) -> (r: bool)
    ensures
        r == marks_finish_spec(
            match name {
                Some(n) => Some(n@),
                None => None,
            },
            millis,
            run.test_name@,
            run.started_at_ms,
        ),
{
    let same = match name {
        Some(n) => str_eq(n.as_str(), run.test_name.as_str()),
        None => false,
    };
    if !same {
        return false;
    }
    match millis {
        Some(ms) => (ms as u64) >= run.started_at_ms,
        None => false,
    }
}

/// The timestamp text of a record, parsed.
pub open spec fn record_millis(r: RunRecord) -> Option<i64> {
    match r.timestamp {
        Some(t) => rfc3339_millis(t@),
        None => None,
    }
}

/// Record `r` finishes the active run.
pub open spec fn record_finishes(r: RunRecord, run: ActiveRun) -> bool {
    marks_finish_spec(
        match r.test_name {
            Some(n) => Some(n@),
            None => None,
        },
        record_millis(r),
        run.test_name@,
        run.started_at_ms,
    )
}

/// Whether any stored result finishes the active run.
pub fn run_finished(rows: &Vec<RunRecord>, run: &ActiveRun) -> (r: bool)
    ensures
        r == exists|i: int| 0 <= i < rows@.len() && record_finishes(#[trigger] rows@[i], *run),
{
    for i in 0..rows.len()
        invariant
            forall|j: int| 0 <= j < i ==> !record_finishes(#[trigger] rows@[j], *run),
    {
        let row = &rows[i];
        let millis = match &row.timestamp {
            Some(t) => parse_rfc3339_millis(t.as_str()),
            None => None,
        };
        if marks_finish(&row.test_name, millis, run) {
            assert(record_finishes(rows@[i as int], *run));
            return true;
        }
    }
    false
}

} // verus!
