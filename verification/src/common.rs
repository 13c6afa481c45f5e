//! Validity of a finished run by its error rate, and the check of a write test
//! against what the database reports.

use vstd::prelude::*;
use crate::text::str_eq;

verus! {

/// Largest acceptable error rate, in percent of all requests.
pub const MAX_ERROR_PERCENT: u64 = 1;

/// The verdict on a finished run.
pub enum ErrorRateCheck {
    /// No request completed; the results are invalid.
    NoRequests,
    /// More than `MAX_ERROR_PERCENT` percent of the requests failed; invalid.
    TooHigh,
    /// The run is valid.
    Acceptable,
}

/// Judges a run by its totals: invalid without requests, or when the errors exceed
/// `MAX_ERROR_PERCENT` percent of the total.
pub fn check_error_rate(total: u64, errors: u64) -> (r: ErrorRateCheck)
    ensures
        r is NoRequests <==> total == 0,
        r is TooHigh <==> total > 0 && errors * 100 > total * MAX_ERROR_PERCENT,
        r is Acceptable <==> total > 0 && errors * 100 <= total * MAX_ERROR_PERCENT,
{
    let percent = MAX_ERROR_PERCENT as u128;
    let whole = total as u128;
    assert(whole * percent == total * MAX_ERROR_PERCENT) by (nonlinear_arith)
        requires
            whole == total,
            percent == MAX_ERROR_PERCENT,
            MAX_ERROR_PERCENT == 1,
    ;
    if total == 0 {
        ErrorRateCheck::NoRequests
    } else if (errors as u128) * 100 > whole * percent {
        ErrorRateCheck::TooHigh
    } else {
        ErrorRateCheck::Acceptable
    }
}

/// The writes that succeeded: all requests less the failed ones.
pub fn successful_writes(total: u64, errors: u64) -> (n: u64)
    requires
        errors <= total,
    ensures
        n == total - errors,
{
    total - errors
}

/// The outcome of checking a write test against the database.
pub struct WriteCheck {
    /// Records the database reports.
    pub record_count: u64,
    /// Successful writes of the test.
    pub expected: u64,
    /// Whether every successful write is accounted for.
    pub matched: bool,
}

/// Compares the record count the server reports (a missing count is zero) with the
/// successful writes: they match when the database holds at least that many records.
pub fn check_writes(audit_size: Option<u64>, expected: u64) -> (c: WriteCheck)
    ensures
        c.record_count == match audit_size {
            Some(n) => n,
            None => 0,
        },
        c.expected == expected,
        c.matched == (c.record_count >= expected),
{
    let record_count = match audit_size {
        Some(n) => n,
        None => 0,
    };
    WriteCheck { record_count, expected, matched: record_count >= expected }
}

/// The positions of the storage statistics passed on as server configuration: every
/// key but `wal`, in their order.
pub fn storage_config_keys(keys: &Vec<String>) -> (r: Vec<usize>)
    ensures
        forall|k: int| 0 <= k < r@.len() ==> #[trigger] r@[k] < keys@.len() && keys@[r@[k] as int]@ != "wal"@,
        forall|a: int, b: int| 0 <= a < b < r@.len() ==> r@[a] < r@[b],
        forall|j: int| 0 <= j < keys@.len() && #[trigger] keys@[j]@ != "wal"@ ==> r@.contains(j as usize),
{
    let mut r: Vec<usize> = Vec::new();
    for i in 0..keys.len()
        invariant
            forall|k: int| 0 <= k < r@.len() ==> #[trigger] r@[k] < i && keys@[r@[k] as int]@ != "wal"@,
            forall|a: int, b: int| 0 <= a < b < r@.len() ==> r@[a] < r@[b],
            forall|j: int| 0 <= j < i && #[trigger] keys@[j]@ != "wal"@ ==> r@.contains(j as usize),
    {
        if !str_eq(keys[i].as_str(), "wal") {
            let ghost r0 = r@;
            r.push(i);
            proof {
                assert forall|j: int| 0 <= j < i + 1 && #[trigger] keys@[j]@ != "wal"@ implies r@.contains(
                    j as usize,
                ) by {
                    if j < i {
                        let k = choose|k: int| 0 <= k < r0.len() && r0[k] == j as usize;
                        assert(r@[k] == j as usize);
                    } else {
                        assert(r@[r0.len() as int] == j as usize);
                    }
                }
            }
        }
    }
    r
}

} // verus!
