//! Decisions of the result reporter.

use vstd::prelude::*;

verus! {

/// Error rate, in errors per thousand requests, above which results are flagged as
/// possibly unreliable.
pub const WARN_ERRORS_PER_MILLE: u64 = 1;

/// Whether a run's error rate is high enough to warn about: more than
/// `WARN_ERRORS_PER_MILLE` errors per thousand requests.
pub fn error_rate_is_significant(total: u64, errors: u64) -> (r: bool)
    ensures
        r == (total > 0 && errors * 1000 > total * WARN_ERRORS_PER_MILLE),
{
    let per_mille = WARN_ERRORS_PER_MILLE as u128;
    let whole = total as u128;
    assert(whole * per_mille == total * WARN_ERRORS_PER_MILLE) by (nonlinear_arith)
        requires
            whole == total,
            per_mille == WARN_ERRORS_PER_MILLE,
            WARN_ERRORS_PER_MILLE == 1,
    ;
    total > 0 && (errors as u128) * 1000 > whole * per_mille
}

} // verus!
