//! The benchmark runner resource: the test catalog, the runner's state and its phase
//! transitions, the timeout rule, and the plan for starting a test.
//!
//! Times are microseconds since the Unix epoch.

use vstd::prelude::*;
use crate::text::{
    chars_of, push_str, split_fields, split_list, str_eq, trim, trim_bounds, trimmed_nonempty,
    u64_to_decimal, decimal, views,
};

verus! {

/// A benchmark test of the catalog.
pub struct TestDef {
    pub id: &'static str,
    pub name: &'static str,
    pub binary: &'static str,
    pub duration: u64,
    pub vus: u64,
    pub category: &'static str,
}

/// Measurement seconds of every catalog test.
pub const TEST_DURATION_SECS: u64 = 30;

/// A throughput test of `TEST_DURATION_SECS` seconds.
pub fn quick(id: &'static str, name: &'static str, binary: &'static str, vus: u64) -> (t: TestDef)
    ensures
        t.id == id,
        t.name == name,
        t.binary == binary,
        t.vus == vus,
        t.duration == TEST_DURATION_SECS,
        t.category@ == "throughput"@,
{
    TestDef { id, name, binary, duration: TEST_DURATION_SECS, vus, category: "throughput" }
}

/// Test IDs of the catalog, in order.
pub open spec fn catalog_ids() -> Seq<Seq<char>> {
    seq![
        "rest-read"@, "rest-write"@, "rest-batch-write"@, "rest-update"@, "rest-join"@,
        "graphql-read"@, "graphql-mutation"@, "graphql-batch-write"@, "graphql-update"@,
        "graphql-join"@, "vector-embed"@, "vector-search"@, "blob-retrieval"@, "ws"@,
        "ws-publish"@, "sse"@, "mqtt"@,
    ]
}

/// Display names of the catalog, in order.
pub open spec fn catalog_names() -> Seq<Seq<char>> {
    seq![
        "REST Read"@, "REST Write"@, "REST Batch Write"@, "REST Update"@, "REST Join"@,
        "GraphQL Read"@, "GraphQL Write"@, "GraphQL Batch Write"@, "GraphQL Update"@,
        "GraphQL Join"@, "Vector Embed"@, "Vector Search"@, "150k Blob Retrieval"@,
        "WS Fan-Out"@, "WS Fan-In"@, "SSE Fan-Out"@, "MQTT Fan-Out"@,
    ]
}

/// Load generator binaries of the catalog, in order.
pub open spec fn catalog_binaries() -> Seq<Seq<char>> {
    seq![
        "load-rest"@, "load-rest"@, "load-rest"@, "load-rest"@, "load-rest"@, "load-graphql"@,
        "load-graphql"@, "load-graphql"@, "load-graphql"@, "load-graphql"@, "load-vector"@,
        "load-vector"@, "load-blob"@, "load-realtime"@, "load-realtime"@, "load-realtime"@,
        "load-realtime"@,
    ]
}

/// Default virtual users of the catalog, in order.
pub open spec fn catalog_vus() -> Seq<u64> {
    seq![100, 100, 100, 100, 100, 100, 100, 100, 100, 100, 10, 100, 100, 15_000, 100, 15_000, 15_000]
}

/// Entry `i` of `v` is catalog entry `i`.
pub open spec fn is_catalog_entry(t: TestDef, i: int) -> bool {
    &&& t.id@ == catalog_ids()[i]
    &&& t.name@ == catalog_names()[i]
    &&& t.binary@ == catalog_binaries()[i]
    &&& t.vus == catalog_vus()[i]
    &&& t.duration == TEST_DURATION_SECS
    &&& t.category@ == "throughput"@
}

/// The catalog of benchmark tests.
pub fn test_catalog() -> (v: Vec<TestDef>)
    ensures
        v@.len() == catalog_ids().len(),
        forall|i: int| 0 <= i < v@.len() ==> is_catalog_entry(#[trigger] v@[i], i),
{
    let mut v: Vec<TestDef> = Vec::new();
    v.push(quick("rest-read", "REST Read", "load-rest", 100));
    v.push(quick("rest-write", "REST Write", "load-rest", 100));
    v.push(quick("rest-batch-write", "REST Batch Write", "load-rest", 100));
    v.push(quick("rest-update", "REST Update", "load-rest", 100));
    v.push(quick("rest-join", "REST Join", "load-rest", 100));
    v.push(quick("graphql-read", "GraphQL Read", "load-graphql", 100));
    v.push(quick("graphql-mutation", "GraphQL Write", "load-graphql", 100));
    v.push(quick("graphql-batch-write", "GraphQL Batch Write", "load-graphql", 100));
    v.push(quick("graphql-update", "GraphQL Update", "load-graphql", 100));
    v.push(quick("graphql-join", "GraphQL Join", "load-graphql", 100));
    v.push(quick("vector-embed", "Vector Embed", "load-vector", 10));
    v.push(quick("vector-search", "Vector Search", "load-vector", 100));
    v.push(quick("blob-retrieval", "150k Blob Retrieval", "load-blob", 100));
    v.push(quick("ws", "WS Fan-Out", "load-realtime", 15_000));
    v.push(quick("ws-publish", "WS Fan-In", "load-realtime", 100));
    v.push(quick("sse", "SSE Fan-Out", "load-realtime", 15_000));
    v.push(quick("mqtt", "MQTT Fan-Out", "load-realtime", 15_000));
    v
}

/// Every test of the catalog has its own ID, so the catalog is keyed by ID without loss.
pub proof fn lemma_catalog_ids_distinct()
    ensures
        forall|i: int, j: int|
            0 <= i < catalog_ids().len() && 0 <= j < catalog_ids().len() && i != j ==> catalog_ids()[i]
                != catalog_ids()[j],
{
    reveal_strlit("rest-read");
    reveal_strlit("rest-write");
    reveal_strlit("rest-batch-write");
    reveal_strlit("rest-update");
    reveal_strlit("rest-join");
    reveal_strlit("graphql-read");
    reveal_strlit("graphql-mutation");
    reveal_strlit("graphql-batch-write");
    reveal_strlit("graphql-update");
    reveal_strlit("graphql-join");
    reveal_strlit("vector-embed");
    reveal_strlit("vector-search");
    reveal_strlit("blob-retrieval");
    reveal_strlit("ws");
    reveal_strlit("ws-publish");
    reveal_strlit("sse");
    reveal_strlit("mqtt");
    assert forall|i: int, j: int|
        0 <= i < catalog_ids().len() && 0 <= j < catalog_ids().len() && i != j implies catalog_ids()[i]
            != catalog_ids()[j] by {
        let a = catalog_ids()[i];
        let b = catalog_ids()[j];
        if a.len() == b.len() {
            // IDs of equal length differ in their first, sixth or ninth character.
            assert(a[0] != b[0] || a[5] != b[5] || a[8] != b[8]);
        }
    }
}

/// The index of the first catalog test with ID `id`.
pub open spec fn catalog_index(id: Seq<char>) -> Option<int> {
    if exists|i: int| 0 <= i < catalog_ids().len() && catalog_ids()[i] == id {
        Some(choose|i: int| 0 <= i < catalog_ids().len() && catalog_ids()[i] == id)
    } else {
        None
    }
}

/// The catalog test with ID `id`.
pub fn find_test(id: &str) -> (r: Option<TestDef>)
    ensures
        r is Some ==> exists|i: int|
            {
                &&& 0 <= i < catalog_ids().len()
                &&& catalog_ids()[i] == id@
                &&& forall|j: int| 0 <= j < i ==> catalog_ids()[j] != id@
                &&& #[trigger] is_catalog_entry(r->0, i)
            },
        r is None ==> forall|i: int| 0 <= i < catalog_ids().len() ==> catalog_ids()[i] != id@,
{
    let mut catalog = test_catalog();
    let n = catalog.len();
    let mut i: usize = 0;
    while i < n
        invariant
            n == catalog@.len() == catalog_ids().len(),
            i <= n,
            forall|j: int| 0 <= j < catalog@.len() ==> is_catalog_entry(#[trigger] catalog@[j], j),
            forall|j: int| 0 <= j < i ==> catalog_ids()[j] != id@,
        decreases n - i,
    {
        if str_eq(catalog[i].id, id) {
            let ghost k = i as int;
            proof {
                assert(is_catalog_entry(catalog@[k], k));
            }
            let t = catalog.swap_remove(i);
            let r = Some(t);
            assert(is_catalog_entry(r->0, k));
            return r;
        }
        i = i + 1;
    }
    None
}

/// The runner's status.
pub enum RunnerStatus {
    Idle,
    Seeding,
    Warming,
    Running,
    Cleaning,
}

/// The name a status is reported under.
pub open spec fn status_label_spec(s: RunnerStatus) -> Seq<char> {
    match s {
        RunnerStatus::Idle => "idle"@,
        RunnerStatus::Seeding => "seeding"@,
        RunnerStatus::Warming => "warming"@,
        RunnerStatus::Running => "running"@,
        RunnerStatus::Cleaning => "cleaning"@,
    }
}

/// The name of `s`: idle, seeding, warming, running or cleaning.
pub fn status_label(s: &RunnerStatus) -> (r: &'static str)
    ensures
        r@ == status_label_spec(*s),
{
    match s {
        RunnerStatus::Idle => "idle",
        RunnerStatus::Seeding => "seeding",
        RunnerStatus::Warming => "warming",
        RunnerStatus::Running => "running",
        RunnerStatus::Cleaning => "cleaning",
    }
}

/// A phase the load generator writes to its status file.
pub enum FilePhase {
    Seeding,
    Warming,
    Cleaning,
}

/// The phase a status file's content names, once trimmed of white space.
pub open spec fn file_phase_spec(content: Seq<char>) -> Option<FilePhase> {
    let t = trim(content);
    if t == "seeding"@ {
        Some(FilePhase::Seeding)
    } else if t == "warming"@ {
        Some(FilePhase::Warming)
    } else if t == "cleaning"@ {
        Some(FilePhase::Cleaning)
    } else {
        None
    }
}

/// Reads the phase from a status file's content; other content names no phase.
pub fn parse_file_phase(content: &str) -> (r: Option<FilePhase>)
    ensures
        r == file_phase_spec(content@),
{
    let v = chars_of(content);
    let (a, b) = trim_bounds(&v);
    let t = content.substring_char(a, b);
    if str_eq(t, "seeding") {
        Some(FilePhase::Seeding)
    } else if str_eq(t, "warming") {
        Some(FilePhase::Warming)
    } else if str_eq(t, "cleaning") {
        Some(FilePhase::Cleaning)
    } else {
        None
    }
}

/// Microseconds per second.
pub const MICROS_PER_SEC: u64 = 1_000_000;

/// Extra seconds a run may take beyond its expected length.
pub const GRACE_SECS: u64 = 60;

/// Warmup seconds every load generator is started with.
pub const WARMUP_SECS: u64 = 5;

/// The longest a run may take, in microseconds: the ramp estimate of one second per
/// 2000 users, plus warmup, measurement and grace.
pub open spec fn max_run_micros(vus: u64, warmup: u64, duration: u64) -> int {
    vus * 500 + (warmup + duration + GRACE_SECS) * MICROS_PER_SEC
}

/// The state of the runner between requests.
pub struct RunnerState {
    pub status: RunnerStatus,
    pub test_name: Option<String>,
    pub started_at: Option<u64>,
    pub warming_started_at: Option<u64>,
    pub configured_duration: Option<u64>,
    pub configured_vus: Option<u64>,
    pub warmup_duration: u64,
    pub last_error: Option<String>,
    pub child_pid: Option<u32>,
    pub status_file: Option<String>,
}

/// What the status endpoint reports.
pub struct StatusReport {
    /// Microseconds spent warming so far (when warming).
    pub warmup_micros: i128,
    /// Microseconds measured so far (when running), capped at the configured duration.
    pub elapsed_micros: i128,
    /// Whether the host should suppress telemetry: a test is active.
    pub suppress_telemetry: bool,
}

/// The measured time of a running test at `now`.
pub open spec fn elapsed_spec(s: RunnerState, now: u64) -> int {
    if s.status is Running {
        let start = match s.warming_started_at {
            Some(w) => w + s.warmup_duration * MICROS_PER_SEC,
            None => now as int,
        };
        let raw = if now - start > 0 {
            now - start
        } else {
            0
        };
        match s.configured_duration {
            Some(d) => if d > 0 && raw > d * MICROS_PER_SEC {
                d * MICROS_PER_SEC
            } else {
                raw
            },
            None => raw,
        }
    } else {
        0
    }
}

/// The warmup time of a warming test at `now`.
pub open spec fn warmup_spec(s: RunnerState, now: u64) -> int {
    if s.status is Warming {
        match s.warming_started_at {
            Some(w) => now - w,
            None => 0,
        }
    } else {
        0
    }
}

/// The runner shows cleaning once more when the load generator's last phase was
/// cleaning and that is not shown yet.
pub open spec fn shows_cleaning(s: RunnerState, file_phase: Option<FilePhase>) -> bool {
    file_phase matches Some(FilePhase::Cleaning) && !(s.status is Cleaning)
}

/// `after` is `before` once all processes are gone, given the phase in the status
/// file; `removed` is the status file to delete.
pub open spec fn settles(
    before: RunnerState,
    after: RunnerState,
    file_phase: Option<FilePhase>,
    removed: Option<String>,
) -> bool {
    &&& shows_cleaning(before, file_phase) ==> {
        &&& after.status is Cleaning
        &&& after.child_pid is None
        &&& after.warming_started_at == before.warming_started_at
        &&& after.status_file == before.status_file
        &&& removed is None
    }
    &&& !shows_cleaning(before, file_phase) ==> {
        &&& after.status is Idle
        &&& after.child_pid is None
        &&& after.warming_started_at is None
        &&& after.status_file is None
        &&& removed == before.status_file
    }
    &&& after.test_name == before.test_name
    &&& after.started_at == before.started_at
    &&& after.configured_duration == before.configured_duration
    &&& after.configured_vus == before.configured_vus
    &&& after.warmup_duration == before.warmup_duration
    &&& after.last_error == before.last_error
}

/// The moment warming started, as recorded or, on first sight, `now`.
pub open spec fn warm_start(s: RunnerState, now: u64) -> u64 {
    match s.warming_started_at {
        Some(w) => w,
        None => now,
    }
}

/// `after` is `before` once the phase read from the status file at `now` is applied.
pub open spec fn applies_phase(before: RunnerState, after: RunnerState, phase: Option<FilePhase>, now: u64) -> bool {
    &&& match phase {
        Some(FilePhase::Seeding) => {
            &&& after.status is Seeding
            &&& after.warming_started_at == before.warming_started_at
        },
        Some(FilePhase::Warming) => {
            let w = warm_start(before, now);
            &&& after.warming_started_at == Some(w)
            &&& (now - w >= before.warmup_duration * MICROS_PER_SEC ==> after.status is Running)
            &&& (now - w < before.warmup_duration * MICROS_PER_SEC ==> after.status is Warming)
        },
        Some(FilePhase::Cleaning) => {
            &&& after.status is Cleaning
            &&& after.warming_started_at == before.warming_started_at
        },
        None => {
            &&& after.status == before.status
            &&& after.warming_started_at == before.warming_started_at
        },
    }
    &&& after.test_name == before.test_name
    &&& after.started_at == before.started_at
    &&& after.configured_duration == before.configured_duration
    &&& after.configured_vus == before.configured_vus
    &&& after.warmup_duration == before.warmup_duration
    &&& after.last_error == before.last_error
    &&& after.child_pid == before.child_pid
    &&& after.status_file == before.status_file
}

/// Once the processes are gone, a final cleaning phase is shown for one poll only:
/// the poll after it makes the runner idle.
pub proof fn lemma_cleaning_shown_once(
    s0: RunnerState,
    s1: RunnerState,
    s2: RunnerState,
    p1: Option<FilePhase>,
    p2: Option<FilePhase>,
    r1: Option<String>,
    r2: Option<String>,
)
    requires
        settles(s0, s1, p1, r1),
        s1.status is Cleaning,
        settles(s1, s2, p2, r2),
    ensures
        s2.status is Idle,
        s2.status_file is None,
        s2.child_pid is None,
{
}

/// The warmup clock starts at the first warming poll and is never restarted; once the
/// warmup has passed, later warming polls keep reporting running.
pub proof fn lemma_warmup_clock(s0: RunnerState, s1: RunnerState, s2: RunnerState, t1: u64, t2: u64)
    requires
        applies_phase(s0, s1, Some(FilePhase::Warming), t1),
        applies_phase(s1, s2, Some(FilePhase::Warming), t2),
        t1 <= t2,
    ensures
        s2.warming_started_at == s1.warming_started_at,
        s0.warming_started_at is None ==> s2.warming_started_at == Some(t1),
        s1.status is Running ==> s2.status is Running,
{
}

/// The reported measurement time is never negative and, with a configured duration,
/// never exceeds it.
pub proof fn lemma_elapsed_bounded(s: RunnerState, now: u64)
    ensures
        elapsed_spec(s, now) >= 0,
        s.configured_duration is Some && s.configured_duration->0 > 0 ==> elapsed_spec(s, now)
            <= s.configured_duration->0 * MICROS_PER_SEC,
{
}

impl Default for RunnerState {
    /// The idle state of a fresh runner.
    fn default() -> (s: Self)
        ensures
            s.status is Idle,
            s.test_name is None,
            s.started_at is None,
            s.warming_started_at is None,
            s.configured_duration is None,
            s.configured_vus is None,
            s.warmup_duration == WARMUP_SECS,
            s.last_error is None,
            s.child_pid is None,
            s.status_file is None,
    {
        RunnerState {
            status: RunnerStatus::Idle,
            test_name: None,
            started_at: None,
            warming_started_at: None,
            configured_duration: None,
            configured_vus: None,
            warmup_duration: WARMUP_SECS,
            last_error: None,
            child_pid: None,
            status_file: None,
        }
    }
}

impl RunnerState {
    /// Whether a run has outlived its longest allowed time at `now`. Without a start
    /// time or a configured duration it never times out.
    pub fn timed_out(&self, now: u64) -> (r: bool)
        ensures
            r == match (self.started_at, self.configured_duration) {
                (Some(started), Some(d)) => now - started > max_run_micros(
                    match self.configured_vus {
                        Some(v) => v,
                        None => 0,
                    },
                    self.warmup_duration,
                    d,
                ),
                _ => false,
            },
    {
        match (self.started_at, self.configured_duration) {
            (Some(started), Some(d)) => {
                let vus: u64 = match self.configured_vus {
                    Some(v) => v,
                    None => 0,
                };
                let limit: i128 = (vus as i128) * 500 + ((self.warmup_duration as i128) + (d as i128)
                    + 60) * 1_000_000;
                (now as i128) - (started as i128) > limit
            },
            _ => false,
        }
    }

    /// Records why the run ended badly.
    pub fn set_error(&mut self, message: String)
        ensures
            final(self).last_error == Some(message),
            final(self).status == old(self).status,
            final(self).status_file == old(self).status_file,
            final(self).warming_started_at == old(self).warming_started_at,
            final(self).started_at == old(self).started_at,
            final(self).configured_duration == old(self).configured_duration,
            final(self).configured_vus == old(self).configured_vus,
            final(self).warmup_duration == old(self).warmup_duration,
            final(self).child_pid == old(self).child_pid,
            final(self).test_name == old(self).test_name,
    {
        self.last_error = Some(message);
    }

    /// All processes of the run are gone. If the load generator's last phase was
    /// cleaning (and not yet shown), the runner shows cleaning once more; otherwise it
    /// becomes idle and returns the status file to remove.
    pub fn settle(&mut self, file_phase: Option<FilePhase>) -> (remove: Option<String>)
        ensures
            settles(*old(self), *final(self), file_phase, remove),
    {
        let show_cleaning = match file_phase {
            Some(FilePhase::Cleaning) => match self.status {
                RunnerStatus::Cleaning => false,
                _ => true,
            },
            _ => false,
        };
        if show_cleaning {
            self.status = RunnerStatus::Cleaning;
            self.child_pid = None;
            None
        } else {
            self.status = RunnerStatus::Idle;
            self.child_pid = None;
            self.warming_started_at = None;
            self.status_file.take()
        }
    }

    /// Follows the phase the load generator wrote. A warming phase starts the warmup
    /// clock on first sight and turns into running once `warmup_duration` seconds passed.
    pub fn apply_phase(&mut self, phase: Option<FilePhase>, now: u64)
        ensures
            applies_phase(*old(self), *final(self), phase, now),
    {
        match phase {
            Some(FilePhase::Seeding) => {
                self.status = RunnerStatus::Seeding;
            },
            Some(FilePhase::Warming) => {
                let w = match self.warming_started_at {
                    Some(w) => w,
                    None => now,
                };
                self.warming_started_at = Some(w);
                let warmed: i128 = (now as i128) - (w as i128);
                if warmed >= (self.warmup_duration as i128) * 1_000_000 {
                    self.status = RunnerStatus::Running;
                } else {
                    self.status = RunnerStatus::Warming;
                }
            },
            Some(FilePhase::Cleaning) => {
                self.status = RunnerStatus::Cleaning;
            },
            None => {},
        }
    }

    /// What the status endpoint reports at `now`.
    pub fn report(&self, now: u64) -> (r: StatusReport)
        ensures
            r.elapsed_micros == elapsed_spec(*self, now),
            r.warmup_micros == warmup_spec(*self, now),
            r.suppress_telemetry == !(self.status is Idle),
    {
        let elapsed: i128 = match self.status {
            RunnerStatus::Running => {
                let start: i128 = match self.warming_started_at {
                    Some(w) => (w as i128) + (self.warmup_duration as i128) * 1_000_000,
                    None => now as i128,
                };
                let raw: i128 = if (now as i128) - start > 0 {
                    (now as i128) - start
                } else {
                    0
                };
                match self.configured_duration {
                    Some(d) => {
                        let cap = (d as i128) * 1_000_000;
                        if d > 0 && raw > cap {
                            cap
                        } else {
                            raw
                        }
                    },
                    None => raw,
                }
            },
            _ => 0,
        };
        let warmup: i128 = match self.status {
            RunnerStatus::Warming => match self.warming_started_at {
                Some(w) => (now as i128) - (w as i128),
                None => 0,
            },
            _ => 0,
        };
        let suppress = match self.status {
            RunnerStatus::Idle => false,
            _ => true,
        };
        StatusReport { warmup_micros: warmup, elapsed_micros: elapsed, suppress_telemetry: suppress }
    }

    /// A run was started: the runner is seeding the given test.
    pub fn begin_run(
        &mut self,
        test_name: String,
        now: u64,
        duration: u64,
        vus: u64,
        pid: u32,
        status_file: String,
    )
        ensures
            final(self).status is Seeding,
            final(self).test_name == Some(test_name),
            final(self).started_at == Some(now),
            final(self).configured_duration == Some(duration),
            final(self).configured_vus == Some(vus),
            final(self).warmup_duration == WARMUP_SECS,
            final(self).last_error is None,
            final(self).child_pid == Some(pid),
            final(self).status_file == Some(status_file),
            final(self).warming_started_at == old(self).warming_started_at,
    {
        self.status = RunnerStatus::Seeding;
        self.test_name = Some(test_name);
        self.started_at = Some(now);
        self.configured_duration = Some(duration);
        self.configured_vus = Some(vus);
        self.warmup_duration = WARMUP_SECS;
        self.last_error = None;
        self.child_pid = Some(pid);
        self.status_file = Some(status_file);
    }

    /// Starting a process failed: the runner is idle and keeps the reason.
    pub fn fail_start(&mut self, message: String)
        ensures
            final(self).status is Idle,
            final(self).last_error == Some(message),
            final(self).test_name == old(self).test_name,
            final(self).started_at == old(self).started_at,
            final(self).status_file == old(self).status_file,
            final(self).warming_started_at == old(self).warming_started_at,
            final(self).child_pid == old(self).child_pid,
            final(self).configured_duration == old(self).configured_duration,
            final(self).configured_vus == old(self).configured_vus,
            final(self).warmup_duration == old(self).warmup_duration,
    {
        self.status = RunnerStatus::Idle;
        self.last_error = Some(message);
    }
}

/// Most virtual users one load-generator process drives.
pub const MAX_VUS_PER_PROCESS: u64 = 5_000;

/// Why a start request is refused.
pub enum StartError {
    /// No catalog test has the requested ID.
    UnknownTest,
    /// A test is already running.
    AlreadyRunning,
}

/// How a requested test is started.
pub struct StartPlan {
    pub test: TestDef,
    pub duration: u64,
    pub total_vus: u64,
    pub processes: u64,
    pub vus_per_process: u64,
    /// One load-generator process per target URL.
    pub targets: Vec<String>,
}

/// The default process count: one per `MAX_VUS_PER_PROCESS` users, at least one.
pub open spec fn default_processes(total_vus: u64) -> int {
    let p = (total_vus + MAX_VUS_PER_PROCESS - 1) / (MAX_VUS_PER_PROCESS as int);
    if p >= 1 {
        p
    } else {
        1
    }
}

/// The default process count is the fewest processes that keep every process within
/// `MAX_VUS_PER_PROCESS` users, and at least one.
pub proof fn lemma_default_processes(total_vus: u64)
    ensures
        default_processes(total_vus) >= 1,
        default_processes(total_vus) * MAX_VUS_PER_PROCESS >= total_vus,
        total_vus > 0 ==> (default_processes(total_vus) - 1) * MAX_VUS_PER_PROCESS < total_vus,
{
    let p = (total_vus + 4999) / 5000;
    assert(5000 * p <= total_vus + 4999 < 5000 * p + 5000) by (nonlinear_arith)
        requires
            p == (total_vus + 4999) / 5000,
    ;
}

impl RunnerState {
    /// Plans the start of test `test_id` with the optional user and process counts
    /// and the comma-separated target URLs. Refused for an unknown test, then while
    /// a test is active.
    #[verifier::rlimit(30)]
    pub fn plan_start(
        &self,
        test_id: &str,
        vus: Option<u64>,
        processes: Option<u64>,
        targets: &str,
    ) -> (r: Result<StartPlan, StartError>)
        requires
            processes != Some(0u64),
            processes is None && vus is Some ==> vus->0 <= u64::MAX - (MAX_VUS_PER_PROCESS - 1),
        ensures
            (forall|i: int| 0 <= i < catalog_ids().len() ==> catalog_ids()[i] != test_id@) <==> r
                == Err::<StartPlan, StartError>(StartError::UnknownTest),
            r matches Err(StartError::AlreadyRunning) ==> !(self.status is Idle),
            r is Ok ==> self.status is Idle,
            (exists|i: int| 0 <= i < catalog_ids().len() && catalog_ids()[i] == test_id@)
                && self.status is Idle ==> r is Ok,
            r matches Ok(p) ==> {
                &&& p.test.id@ == test_id@
                &&& exists|i: int| 0 <= i < catalog_ids().len() && is_catalog_entry(p.test, i)
                &&& p.duration == p.test.duration
                &&& p.total_vus == match vus {
                    Some(v) => v,
                    None => p.test.vus,
                }
                &&& p.processes == match processes {
                    Some(n) => n as int,
                    None => default_processes(p.total_vus),
                }
                &&& p.vus_per_process == p.total_vus / p.processes
                &&& views(p.targets@) == trimmed_nonempty(split_fields(targets@, ','))
            },
    {
        let found = find_test(test_id);
        let test = match found {
            Some(t) => t,
            None => {
                return Err(StartError::UnknownTest);
            },
        };
        proof {
            let i = choose|i: int|
                {
                    &&& 0 <= i < catalog_ids().len()
                    &&& catalog_ids()[i] == test_id@
                    &&& forall|j: int| 0 <= j < i ==> catalog_ids()[j] != test_id@
                    &&& #[trigger] is_catalog_entry(found->0, i)
                };
            assert(is_catalog_entry(test, i));
            assert(test.id@ == test_id@);
        }
        match self.status {
            RunnerStatus::Idle => {},
            _ => {
                return Err(StartError::AlreadyRunning);
            },
        }
        let duration = test.duration;
        let total_vus = match vus {
            Some(v) => v,
            None => test.vus,
        };
        let n = match processes {
            Some(n) => n,
            None => {
                let p = (total_vus + 4999) / 5000;
                assert(p == (total_vus + MAX_VUS_PER_PROCESS - 1) / (MAX_VUS_PER_PROCESS as int));
                if p >= 1 {
                    p
                } else {
                    1
                }
            },
        };
        let vus_per_process = total_vus / n;
        let target_list = split_list(targets);
        Ok(StartPlan { test, duration, total_vus, processes: n, vus_per_process, targets: target_list })
    }
}

/// The arguments a load-generator process is started with.
pub open spec fn spawn_args_spec(
    test_id: Seq<char>,
    target: Seq<char>,
    duration: u64,
    vus: u64,
    auth: Seq<char>,
    run_group: Seq<char>,
    status_file: Option<Seq<char>>,
) -> Seq<Seq<char>> {
    seq![
        "--test"@, test_id, "--base-url"@, target, "--report-url"@, "https://localhost"@,
        "--duration"@, decimal(duration as nat), "--vus"@, decimal(vus as nat), "--warmup"@, "5"@,
        "--auth"@, auth, "--run-group"@, run_group,
    ] + match status_file {
        Some(f) => seq!["--status-file"@, f],
        None => Seq::empty(),
    }
}

fn push_arg(args: &mut Vec<String>, a: &str)
    ensures
        views(final(args)@) == views(old(args)@).push(a@),
{
    args.push(String::from_str(a));
    proof {
        assert(views(args@) =~= views(old(args)@).push(a@));
    }
}

/// The arguments of a load-generator process for `target`; only the process given
/// the status file writes phase changes.
pub fn spawn_args(
    test_id: &str,
    target: &str,
    duration: u64,
    vus: u64,
    auth: &str,
    run_group: &str,
    status_file: Option<&str>,
) -> (args: Vec<String>)
    ensures
        views(args@) == spawn_args_spec(
            test_id@,
            target@,
            duration,
            vus,
            auth@,
            run_group@,
            match status_file {
                Some(f) => Some(f@),
                None => None,
            },
        ),
{
    let mut args: Vec<String> = Vec::new();
    push_arg(&mut args, "--test");
    push_arg(&mut args, test_id);
    push_arg(&mut args, "--base-url");
    push_arg(&mut args, target);
    push_arg(&mut args, "--report-url");
    push_arg(&mut args, "https://localhost");
    push_arg(&mut args, "--duration");
    let d = u64_to_decimal(duration);
    push_arg(&mut args, d.as_str());
    push_arg(&mut args, "--vus");
    let v = u64_to_decimal(vus);
    push_arg(&mut args, v.as_str());
    push_arg(&mut args, "--warmup");
    push_arg(&mut args, "5");
    push_arg(&mut args, "--auth");
    push_arg(&mut args, auth);
    push_arg(&mut args, "--run-group");
    push_arg(&mut args, run_group);
    match status_file {
        Some(f) => {
            push_arg(&mut args, "--status-file");
            push_arg(&mut args, f);
        },
        None => {},
    }
    proof {
        assert(views(args@) =~= spawn_args_spec(
            test_id@,
            target@,
            duration,
            vus,
            auth@,
            run_group@,
            match status_file {
                Some(f) => Some(f@),
                None => None,
            },
        ));
    }
    args
}

/// The group a run's results are filed under: the test ID and the start time in Unix
/// seconds, joined by a hyphen.
pub fn run_group(test_id: &str, timestamp: u64) -> (r: String)
    ensures
        r@ == test_id@ + "-"@ + decimal(timestamp as nat),
{
    let mut g = String::from_str(test_id);
    push_str(&mut g, "-");
    let t = u64_to_decimal(timestamp);
    push_str(&mut g, t.as_str());
    g
}

/// The name of the status file the first load generator writes its phase to, made
/// unique by the runner's process ID.
pub fn status_file_name(pid: u32) -> (r: String)
    ensures
        r@ == "yeti-bench-"@ + decimal(pid as nat) + ".status"@,
{
    let mut n = String::from_str("yeti-bench-");
    let p = u64_to_decimal(pid as u64);
    push_str(&mut n, p.as_str());
    push_str(&mut n, ".status");
    n
}

/// Where a load-generator binary is looked for, in order: the shared build cache under
/// the root directory (release, then debug), then the app's own target directory.
pub open spec fn binary_candidates_spec(root: Seq<char>, apps: Seq<char>, name: Seq<char>) -> Seq<Seq<char>> {
    seq![
        root + "/cache/builds/target/release/"@ + name,
        root + "/cache/builds/target/debug/"@ + name,
        apps + "/app-benchmarks/target/release/"@ + name,
        apps + "/app-benchmarks/target/debug/"@ + name,
    ]
}

fn joined(dir: &str, middle: &str, name: &str) -> (r: String)
    ensures
        r@ == dir@ + middle@ + name@,
{
    let mut p = String::from_str(dir);
    push_str(&mut p, middle);
    push_str(&mut p, name);
    p
}

/// The paths where the binary `name` is looked for, in the order they are tried.
pub fn binary_candidates(root: &str, apps: &str, name: &str) -> (r: Vec<String>)
    ensures
        views(r@) == binary_candidates_spec(root@, apps@, name@),
{
    let mut r: Vec<String> = Vec::new();
    r.push(joined(root, "/cache/builds/target/release/", name));
    r.push(joined(root, "/cache/builds/target/debug/", name));
    r.push(joined(apps, "/app-benchmarks/target/release/", name));
    r.push(joined(apps, "/app-benchmarks/target/debug/", name));
    proof {
        assert(views(r@) =~= binary_candidates_spec(root@, apps@, name@));
    }
    r
}

} // verus!
