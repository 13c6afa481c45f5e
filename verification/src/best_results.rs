//! The dashboard catalog: every test with its display data (only tests that
//! deliberately override the default user count carry one), and the choice of each
//! test's best stored run.

use vstd::prelude::*;
use crate::benchmark_runner::{catalog_binaries, catalog_ids, catalog_names, catalog_vus, TEST_DURATION_SECS};
use crate::common::{check_error_rate, ErrorRateCheck, MAX_ERROR_PERCENT};
use crate::text::str_eq;

verus! {

/// Virtual users the dashboard assumes for tests without an override.
pub const DEFAULT_VUS: u64 = 100;

/// One catalog entry as the dashboard shows it; `order` is its position.
pub struct CatalogEntry {
    pub id: &'static str,
    pub name: &'static str,
    pub binary: &'static str,
    pub duration: u64,
    pub vus_override: Option<u64>,
    pub category: &'static str,
    pub order: usize,
}

/// User-count overrides of the catalog, in order: only the realtime fan-out tests.
pub open spec fn catalog_overrides() -> Seq<Option<u64>> {
    seq![
        None, None, None, None, None, None, None, None, None, None, None, None, None,
        Some(15_000), None, Some(15_000), Some(15_000),
    ]
}

fn entry(
    order: usize,
    id: &'static str,
    name: &'static str,
    binary: &'static str,
    vus_override: Option<u64>,
) -> (e: CatalogEntry)
    ensures
        e.id == id,
        e.name == name,
        e.binary == binary,
        e.duration == TEST_DURATION_SECS,
        e.vus_override == vus_override,
        e.category@ == "throughput"@,
        e.order == order,
{
    CatalogEntry { id, name, binary, duration: TEST_DURATION_SECS, vus_override, category: "throughput", order }
}

/// The dashboard catalog, in display order.
pub fn dashboard_catalog() -> (v: Vec<CatalogEntry>)
    ensures
        v@.len() == catalog_ids().len(),
        forall|i: int|
            0 <= i < v@.len() ==> {
                &&& (#[trigger] v@[i]).id@ == catalog_ids()[i]
                &&& v@[i].name@ == catalog_names()[i]
                &&& v@[i].binary@ == catalog_binaries()[i]
                &&& v@[i].duration == TEST_DURATION_SECS
                &&& v@[i].vus_override == catalog_overrides()[i]
                &&& v@[i].category@ == "throughput"@
                &&& v@[i].order == i
            },
{
    let mut v: Vec<CatalogEntry> = Vec::new();
    v.push(entry(0, "rest-read", "REST Read", "load-rest", None));
    v.push(entry(1, "rest-write", "REST Write", "load-rest", None));
    v.push(entry(2, "rest-batch-write", "REST Batch Write", "load-rest", None));
    v.push(entry(3, "rest-update", "REST Update", "load-rest", None));
    v.push(entry(4, "rest-join", "REST Join", "load-rest", None));
    v.push(entry(5, "graphql-read", "GraphQL Read", "load-graphql", None));
    v.push(entry(6, "graphql-mutation", "GraphQL Write", "load-graphql", None));
    v.push(entry(7, "graphql-batch-write", "GraphQL Batch Write", "load-graphql", None));
    v.push(entry(8, "graphql-update", "GraphQL Update", "load-graphql", None));
    v.push(entry(9, "graphql-join", "GraphQL Join", "load-graphql", None));
    v.push(entry(10, "vector-embed", "Vector Embed", "load-vector", None));
    v.push(entry(11, "vector-search", "Vector Search", "load-vector", None));
    v.push(entry(12, "blob-retrieval", "150k Blob Retrieval", "load-blob", None));
    v.push(entry(13, "ws", "WS Fan-Out", "load-realtime", Some(15_000)));
    v.push(entry(14, "ws-publish", "WS Fan-In", "load-realtime", None));
    v.push(entry(15, "sse", "SSE Fan-Out", "load-realtime", Some(15_000)));
    v.push(entry(16, "mqtt", "MQTT Fan-Out", "load-realtime", Some(15_000)));
    v
}

/// A display name of a fan-out test: it ends in `Fan-Out`.
pub open spec fn is_fan_out_name(name: Seq<char>) -> bool {
    name.len() >= 7 && name.skip(name.len() - 7) == "Fan-Out"@
}

/// The dashboard and the runner agree on users: exactly the fan-out tests carry a
/// user-count override, each override is the users the runner's catalog starts that
/// test with, and all fan-out tests start with the same number of users.
pub proof fn lemma_overrides_are_fan_out_defaults()
    ensures
        catalog_overrides().len() == catalog_names().len() == catalog_vus().len(),
        forall|i: int|
            0 <= i < catalog_overrides().len() ==> (#[trigger] catalog_overrides()[i] is Some
                <==> is_fan_out_name(catalog_names()[i])),
        forall|i: int|
            0 <= i < catalog_overrides().len() && #[trigger] catalog_overrides()[i] is Some
                ==> catalog_overrides()[i] == Some(catalog_vus()[i]),
        forall|i: int, j: int|
            0 <= i < catalog_names().len() && 0 <= j < catalog_names().len() && is_fan_out_name(
                #[trigger] catalog_names()[i],
            ) && is_fan_out_name(#[trigger] catalog_names()[j]) ==> catalog_vus()[i] == catalog_vus()[j],
{
    reveal_strlit("Fan-Out");
    reveal_strlit("REST Read");
    reveal_strlit("REST Write");
    reveal_strlit("REST Batch Write");
    reveal_strlit("REST Update");
    reveal_strlit("REST Join");
    reveal_strlit("GraphQL Read");
    reveal_strlit("GraphQL Write");
    reveal_strlit("GraphQL Batch Write");
    reveal_strlit("GraphQL Update");
    reveal_strlit("GraphQL Join");
    reveal_strlit("Vector Embed");
    reveal_strlit("Vector Search");
    reveal_strlit("150k Blob Retrieval");
    reveal_strlit("WS Fan-Out");
    reveal_strlit("WS Fan-In");
    reveal_strlit("SSE Fan-Out");
    reveal_strlit("MQTT Fan-Out");
    assert forall|i: int| 0 <= i < catalog_names().len() implies (catalog_overrides()[i] is Some
        <==> is_fan_out_name(catalog_names()[i])) by {
        let n = catalog_names()[i];
        if is_fan_out_name(n) {
            // Only the fan-out names end in `t`.
            assert(n[n.len() - 1] == n.skip(n.len() - 7)[6]);
        }
        if catalog_overrides()[i] is Some {
            assert(n.skip(n.len() - 7) =~= "Fan-Out"@);
        }
    }
    assert forall|i: int, j: int|
        0 <= i < catalog_names().len() && 0 <= j < catalog_names().len() && is_fan_out_name(
            #[trigger] catalog_names()[i],
        ) && is_fan_out_name(#[trigger] catalog_names()[j]) implies catalog_vus()[i] == catalog_vus()[j] by {
        let a = catalog_names()[i];
        let b = catalog_names()[j];
        assert(a[a.len() - 1] == a.skip(a.len() - 7)[6]);
        assert(b[b.len() - 1] == b.skip(b.len() - 7)[6]);
    }
}

/// A stored run as best-result selection reads it: its test, its throughput in tenths
/// of a request per second (results store it rounded to one decimal), and its totals.
pub struct RunScore {
    pub test_name: Option<String>,
    pub throughput_tenths: u64,
    pub total: u64,
    pub errors: u64,
}

/// The run belongs to the test named `test`.
pub open spec fn is_score_of(r: RunScore, test: Seq<char>) -> bool {
    r.test_name matches Some(n) && n@ == test
}

/// A run may be a best result when its results are valid: requests completed and the
/// errors are at most `MAX_ERROR_PERCENT` percent of them.
pub open spec fn qualifies(r: RunScore) -> bool {
    r.total > 0 && r.errors * 100 <= r.total * MAX_ERROR_PERCENT
}

/// Run `i` of `runs` competes for the best result of `test`.
pub open spec fn competes(runs: Seq<RunScore>, i: int, test: Seq<char>) -> bool {
    0 <= i < runs.len() && is_score_of(runs[i], test) && qualifies(runs[i])
}

/// The best run of `test`: among its qualifying runs, the one with the highest
/// throughput, the first stored of equals; `None` when no run qualifies.
pub fn best_run(runs: &Vec<RunScore>, test: &str) -> (r: Option<usize>)
    ensures
        match r {
            None => forall|i: int| !#[trigger] competes(runs@, i, test@),
            Some(b) => {
                &&& competes(runs@, b as int, test@)
                &&& forall|j: int| #[trigger] competes(runs@, j, test@) ==> {
                    ||| runs@[j].throughput_tenths < runs@[b as int].throughput_tenths
                    ||| (runs@[j].throughput_tenths == runs@[b as int].throughput_tenths && b <= j)
                }
            },
        },
{
    let mut best: Option<usize> = None;
    for i in 0..runs.len()
        invariant
            match best {
                None => forall|j: int| j < i ==> !#[trigger] competes(runs@, j, test@),
                Some(b) => {
                    &&& b < i
                    &&& competes(runs@, b as int, test@)
                    &&& forall|j: int| j < i && #[trigger] competes(runs@, j, test@) ==> {
                        ||| runs@[j].throughput_tenths < runs@[b as int].throughput_tenths
                        ||| (runs@[j].throughput_tenths == runs@[b as int].throughput_tenths && b <= j)
                    }
                },
            },
    {
        let run = &runs[i];
        let named = match &run.test_name {
            Some(n) => str_eq(n.as_str(), test),
            None => false,
        };
        let valid = match check_error_rate(run.total, run.errors) {
            ErrorRateCheck::Acceptable => true,
            _ => false,
        };
        if named && valid {
            let better = match best {
                None => true,
                Some(b) => run.throughput_tenths > runs[b].throughput_tenths,
            };
            if better {
                best = Some(i);
            }
        }
    }
    best
}

} // verus!
