//! hdrhistogram's `Histogram<u64>` as seen from verified code.
//!
//! A histogram keeps one count per bucket of equivalent values. Its contents are
//! modelled as the multiset holding, for every counted sample, the lowest value of
//! the sample's bucket (what `Histogram::lowest_equivalent` returns for it).

use vstd::prelude::*;
use vstd::multiset::Multiset;
use hdrhistogram::Histogram;

verus! {

/// A `Histogram<u64>` of hdrhistogram, held whole and opaque to proofs: its counts are
/// seen through `hist_counts` and `hist_config`. The field is public so that code
/// outside the library can read quantiles, which take a floating-point argument.
#[verifier::external_body]
pub struct LatencyHistogram {
    pub inner: Histogram<u64>,
}

/// The counted samples of `h`, each reduced to the lowest value of its bucket.
pub uninterp spec fn hist_counts(h: LatencyHistogram) -> Multiset<u64>;

/// The configuration `h` was made with: lowest discernible value, highest trackable
/// value, significant figures, and whether it resizes itself.
pub uninterp spec fn hist_config(h: LatencyHistogram) -> (u64, u64, u8, bool);

/// `Histogram::lowest_equivalent` of `value` for a histogram whose lowest discernible
/// value is `low` and which keeps `sigfig` significant figures. The bucket layout that
/// function reads depends on these two settings only.
pub uninterp spec fn hist_lowest_equivalent(low: u64, sigfig: u8, value: u64) -> u64;

/// `Histogram::<u64>::new_with_bounds(low, high, sigfig)`, with the error mapped to `None`.
/// Claimed: the checks in its source (`low >= 1`, `low <= u64::MAX / 2`, `high >= 2 * low`,
/// `sigfig <= 5`, and the bit budget, which a `low` below 2^45 always meets) make it succeed,
/// and a new histogram is empty, does not resize, and keeps the given bounds.
#[verifier::external_body]
pub(crate) fn hist_new_with_bounds(low: u64, high: u64, sigfig: u8) -> (res: Option<LatencyHistogram>)
    ensures
        (1 <= low && low < 0x2000_0000_0000 && 2 * low <= high && sigfig <= 5) ==> res is Some,
        res matches Some(h) ==> hist_counts(h) =~= Multiset::empty() && hist_config(h) == (
            low,
            high,
            sigfig,
            false,
        ),
{
    match Histogram::<u64>::new_with_bounds(low, high, sigfig) {
        Ok(inner) => Some(LatencyHistogram { inner }),
        Err(_) => None,
    }
}

/// Whether `value` has a bucket among the counts of a histogram made with lowest
/// discernible value `low`, highest trackable value `high` and `sigfig` significant
/// figures (what `Histogram::record` checks before counting, unless it may resize).
/// The counts' layout depends on these three settings only.
pub uninterp spec fn hist_value_fits(low: u64, high: u64, sigfig: u8, value: u64) -> bool;

/// `Histogram::record`, with the result reduced to whether it succeeded.
/// Claimed: a histogram that does not resize accepts exactly the values that have a
/// bucket among its counts, and every value up to the highest trackable value does; an
/// accepted value is counted once more in its bucket unless that bucket's count is
/// already saturated at `u64::MAX`; a refused value leaves the histogram as it was; a
/// histogram that does not resize keeps its configuration.
#[verifier::external_body]
pub(crate) fn hist_record(h: &mut LatencyHistogram, value: u64) -> (ok: bool)
    ensures
        !hist_config(*old(h)).3 ==> ok == hist_value_fits(
            hist_config(*old(h)).0,
            hist_config(*old(h)).1,
            hist_config(*old(h)).2,
            value,
        ),
        value <= hist_config(*old(h)).1 ==> ok,
        ok && hist_counts(*old(h)).count(
            hist_lowest_equivalent(hist_config(*old(h)).0, hist_config(*old(h)).2, value),
        ) < u64::MAX ==> hist_counts(*final(h)) =~= hist_counts(*old(h)).insert(
            hist_lowest_equivalent(hist_config(*old(h)).0, hist_config(*old(h)).2, value),
        ),
        !ok ==> *final(h) == *old(h),
        !hist_config(*old(h)).3 ==> hist_config(*final(h)) == hist_config(*old(h)),
{
    h.inner.record(value).is_ok()
}

/// `Histogram::add` of `src` into `dst`, with the result reduced to whether it succeeded.
/// Claimed: with equal configurations and no resizing the addition succeeds and keeps the
/// configuration; when no bucket count would pass `u64::MAX`, the counts of `dst`
/// become the sum of both.
#[verifier::external_body]
pub(crate) fn hist_add(dst: &mut LatencyHistogram, src: &LatencyHistogram) -> (ok: bool)
    ensures
        hist_config(*old(dst)) == hist_config(*src) && !hist_config(*src).3 ==> ok
            && hist_config(*final(dst)) == hist_config(*old(dst)),
        ok && hist_config(*old(dst)) == hist_config(*src) && (forall|v: u64|
            #[trigger] hist_counts(*old(dst)).count(v) + hist_counts(*src).count(v) <= u64::MAX)
            ==> hist_counts(*final(dst)) =~= hist_counts(*old(dst)).add(hist_counts(*src)),
{
    dst.inner.add(&src.inner).is_ok()
}

/// `Histogram::reset`. Claimed: the counts become empty and the configuration stays.
#[verifier::external_body]
pub(crate) fn hist_reset(h: &mut LatencyHistogram)
    ensures
        hist_counts(*final(h)) =~= Multiset::empty(),
        hist_config(*final(h)) == hist_config(*old(h)),
{
    h.inner.reset()
}

} // verus!
