//! Request counters and sharded latency histograms with warmup gating.
//!
//! While the metrics are warming, every recording call is a no-op. Each recorded
//! latency goes into one shard of the cumulative histograms and the same shard of
//! the interval histograms, chosen round-robin. Interval histograms are drained by
//! each per-second snapshot; the cumulative ones feed the final summary.

use vstd::prelude::*;
use vstd::multiset::Multiset;
use crate::histogram::{
    LatencyHistogram, hist_counts, hist_config, hist_lowest_equivalent, hist_new_with_bounds, hist_add,
    hist_record, hist_reset, hist_value_fits,
};

verus! {

broadcast use {vstd::multiset::group_multiset_axioms, vstd::multiset::group_multiset_properties};

/// Number of histogram shards; a power of two so a mask selects the shard.
pub const NUM_SHARDS: usize = 16;

/// Mask that turns the round-robin counter into a shard index.
pub const SHARD_MASK: usize = NUM_SHARDS - 1;

/// Lowest latency (microseconds) the histograms discern.
pub const LATENCY_LOW_US: u64 = 1;

/// Highest latency (microseconds) the histograms track: one minute.
pub const LATENCY_HIGH_US: u64 = 60_000_000;

/// Significant figures the histograms keep.
pub const LATENCY_SIGFIG: u8 = 3;

/// The configuration every latency histogram is made with.
pub open spec fn latency_config() -> (u64, u64, u8, bool) {
    (LATENCY_LOW_US, LATENCY_HIGH_US, LATENCY_SIGFIG, false)
}

/// The value a latency sample is counted under.
pub open spec fn latency_bucket(value: u64) -> u64 {
    hist_lowest_equivalent(LATENCY_LOW_US, LATENCY_SIGFIG, value)
}

/// The shard that a value of the round-robin counter selects.
pub open spec fn shard_of(counter: usize) -> int {
    (counter & SHARD_MASK) as int
}

/// `a + b` wrapping at 2^64, as the atomic counters add.
pub open spec fn wadd64(a: u64, b: u64) -> u64 {
    vstd::wrapping::u64_specs::wrapping_add(a, b)
}

/// `a + b` wrapping at the width of `usize`.
pub open spec fn wadd_usize(a: usize, b: usize) -> usize {
    vstd::wrapping::usize_specs::wrapping_add(a, b)
}

/// The union of a sequence of multisets.
pub open spec fn sum_counts(s: Seq<Multiset<u64>>) -> Multiset<u64>
    decreases s.len(),
{
    if s.len() == 0 {
        Multiset::empty()
    } else {
        sum_counts(s.drop_last()).add(s.last())
    }
}

/// The total number of elements in a sequence of multisets.
pub open spec fn total_len(s: Seq<Multiset<u64>>) -> nat
    decreases s.len(),
{
    if s.len() == 0 {
        0
    } else {
        total_len(s.drop_last()) + s.last().len()
    }
}

/// A sequence of `n` empty multisets.
pub open spec fn empty_shards(n: nat) -> Seq<Multiset<u64>> {
    Seq::new(n, |i: int| Multiset::empty())
}

/// The counts of each histogram in a sequence.
pub open spec fn counts_of(hs: Seq<LatencyHistogram>) -> Seq<Multiset<u64>> {
    hs.map_values(|h: LatencyHistogram| hist_counts(h))
}

/// Whether the latency histograms count `value`: every latency up to
/// `LATENCY_HIGH_US` fits, and a few above it may.
pub open spec fn latency_fits(value: u64) -> bool {
    hist_value_fits(LATENCY_LOW_US, LATENCY_HIGH_US, LATENCY_SIGFIG, value)
}

/// Shard `i` of `after` gained the bucket of `value`; every other shard is as in `before`.
pub open spec fn records_sample(
    before: Seq<Multiset<u64>>,
    after: Seq<Multiset<u64>>,
    i: int,
    value: u64,
) -> bool {
    after == before.update(i, before[i].insert(latency_bucket(value)))
}

/// The abstract state of [`Metrics`].
#[verifier::ext_equal]
pub struct MetricsView {
    pub total_requests: u64,
    pub total_records: u64,
    pub total_errors: u64,
    pub total_bytes: u64,
    pub shard_counter: usize,
    pub latency: Seq<Multiset<u64>>,
    pub interval: Seq<Multiset<u64>>,
    pub warming: bool,
    pub interval_requests: u64,
    pub interval_errors: u64,
    pub active_vus: u64,
}

impl MetricsView {
    /// Fewer samples are held than any bucket count could saturate at.
    pub open spec fn unsaturated(self) -> bool {
        total_len(self.latency) < u64::MAX && total_len(self.interval) < u64::MAX
    }

    /// The state right after construction.
    pub open spec fn initial() -> MetricsView {
        MetricsView {
            total_requests: 0,
            total_records: 0,
            total_errors: 0,
            total_bytes: 0,
            shard_counter: 0,
            latency: empty_shards(NUM_SHARDS as nat),
            interval: empty_shards(NUM_SHARDS as nat),
            warming: true,
            interval_requests: 0,
            interval_errors: 0,
            active_vus: 0,
        }
    }

    /// `after` is `self` after a successful response carrying `records` records,
    /// `bytes` bytes and a latency of `latency_us` was recorded while measuring.
    pub open spec fn success_step(
        self,
        after: MetricsView,
        latency_us: u64,
        bytes: u64,
        records: u64,
    ) -> bool {
        &&& after.total_requests == wadd64(self.total_requests, 1)
        &&& after.total_records == wadd64(self.total_records, records)
        &&& after.total_bytes == wadd64(self.total_bytes, bytes)
        &&& after.interval_requests == wadd64(self.interval_requests, 1)
        &&& after.shard_counter == wadd_usize(self.shard_counter, 1)
        &&& after.total_errors == self.total_errors
        &&& after.interval_errors == self.interval_errors
        &&& after.warming == self.warming
        &&& after.active_vus == self.active_vus
        &&& after.latency.len() == self.latency.len()
        &&& after.interval.len() == self.interval.len()
        &&& !latency_fits(latency_us) ==> after.latency == self.latency && after.interval == self.interval
        &&& latency_fits(latency_us) && self.unsaturated() ==> {
            &&& records_sample(self.latency, after.latency, shard_of(self.shard_counter), latency_us)
            &&& records_sample(
                self.interval,
                after.interval,
                shard_of(self.shard_counter),
                latency_us,
            )
        }
    }

    /// `self` after a failed response was recorded while measuring: one more request,
    /// one more record (a failed request carries one record), one more error.
    pub open spec fn after_error(self) -> MetricsView {
        MetricsView {
            total_requests: wadd64(self.total_requests, 1),
            total_records: wadd64(self.total_records, 1),
            total_errors: wadd64(self.total_errors, 1),
            interval_errors: wadd64(self.interval_errors, 1),
            ..self
        }
    }

    /// `self` after an interval snapshot: the interval counters and histograms are empty.
    pub open spec fn after_snapshot(self) -> MetricsView {
        MetricsView {
            interval_requests: 0,
            interval_errors: 0,
            interval: empty_shards(self.interval.len()),
            ..self
        }
    }

    /// The count that throughput is computed from: records when any were counted,
    /// requests otherwise.
    pub open spec fn throughput_total(self) -> u64 {
        if self.total_records > 0 {
            self.total_records
        } else {
            self.total_requests
        }
    }
}

/// Counters and sharded latency histograms for one load test.
pub struct Metrics {
    pub total_requests: u64,
    /// Individual records processed; a batch request counts each of its records.
    pub total_records: u64,
    pub total_errors: u64,
    pub total_bytes: u64,
    shard_counter: usize,
    latency_shards: Vec<LatencyHistogram>,
    interval_shards: Vec<LatencyHistogram>,
    is_warming: bool,
    interval_requests: u64,
    interval_errors: u64,
    /// Currently active virtual users.
    pub active_vus: u64,
}

impl View for Metrics {
    type V = MetricsView;

    closed spec fn view(&self) -> MetricsView {
        MetricsView {
            total_requests: self.total_requests,
            total_records: self.total_records,
            total_errors: self.total_errors,
            total_bytes: self.total_bytes,
            shard_counter: self.shard_counter,
            latency: counts_of(self.latency_shards@),
            interval: counts_of(self.interval_shards@),
            warming: self.is_warming,
            interval_requests: self.interval_requests,
            interval_errors: self.interval_errors,
            active_vus: self.active_vus,
        }
    }
}

impl Default for Metrics {
    /// The same as [`Metrics::new`].
    fn default() -> (m: Self)
        ensures
            m.wf(),
            m@ == MetricsView::initial(),
    {
        Metrics::new()
    }
}

/// Every histogram of `hs` has the latency configuration, and there are `NUM_SHARDS`.
pub open spec fn shards_wf(hs: Seq<LatencyHistogram>) -> bool {
    &&& hs.len() == NUM_SHARDS
    &&& forall|i: int| 0 <= i < hs.len() ==> #[trigger] hist_config(hs[i]) == latency_config()
}

/// The samples recorded since the last snapshot, with the counters of that interval.
pub struct IntervalSample {
    pub second: u32,
    pub requests: u64,
    pub errors: u64,
    pub active_vus: u64,
    pub latencies: LatencyHistogram,
}

/// The integer part of a test summary: the throughput count, errors, bytes and the
/// merged latency histogram.
pub struct SummaryCounts {
    pub total: u64,
    pub errors: u64,
    pub total_bytes: u64,
    pub latencies: LatencyHistogram,
}

/// The mask always selects an existing shard.
pub proof fn lemma_mask_in_range(c: usize)
    ensures
        0 <= (c & SHARD_MASK) < NUM_SHARDS,
{
    assert(c & 15usize < 16usize) by (bit_vector);
}

proof fn lemma_element_len_le_total(s: Seq<Multiset<u64>>, i: int)
    requires
        0 <= i < s.len(),
    ensures
        s[i].len() <= total_len(s),
    decreases s.len(),
{
    if i < s.len() - 1 {
        lemma_element_len_le_total(s.drop_last(), i);
    }
}

/// The union of the shards holds as many samples as the shards together.
pub proof fn lemma_sum_counts_len(s: Seq<Multiset<u64>>)
    ensures
        sum_counts(s).len() == total_len(s),
    decreases s.len(),
{
    if s.len() > 0 {
        lemma_sum_counts_len(s.drop_last());
    }
}

/// Adding one sample to shard `i` adds it to the union of the shards.
pub proof fn lemma_sum_counts_insert(s: Seq<Multiset<u64>>, i: int, x: u64)
    requires
        0 <= i < s.len(),
    ensures
        sum_counts(s.update(i, s[i].insert(x))) =~= sum_counts(s).insert(x),
        total_len(s.update(i, s[i].insert(x))) == total_len(s) + 1,
    decreases s.len(),
{
    let t = s.update(i, s[i].insert(x));
    if i == s.len() - 1 {
        assert(t.drop_last() =~= s.drop_last());
    } else {
        assert(t.drop_last() =~= s.drop_last().update(i, s.drop_last()[i].insert(x)));
        lemma_sum_counts_insert(s.drop_last(), i, x);
    }
}

proof fn lemma_total_len_prefix(s: Seq<Multiset<u64>>, i: int)
    requires
        0 <= i <= s.len(),
    ensures
        total_len(s.take(i)) <= total_len(s),
    decreases s.len() - i,
{
    if i < s.len() {
        lemma_total_len_prefix(s, i + 1);
        assert(s.take(i + 1).drop_last() =~= s.take(i));
    } else {
        assert(s.take(i) =~= s);
    }
}

proof fn lemma_empty_shards_sum(n: nat)
    ensures
        sum_counts(empty_shards(n)) =~= Multiset::empty(),
        total_len(empty_shards(n)) == 0,
    decreases n,
{
    if n > 0 {
        assert(empty_shards(n).drop_last() =~= empty_shards((n - 1) as nat));
        lemma_empty_shards_sum((n - 1) as nat);
    }
}

/// A new, empty latency histogram.
fn new_hist() -> (h: LatencyHistogram)
    ensures
        hist_counts(h) =~= Multiset::empty(),
        hist_config(h) == latency_config(),
{
    match hist_new_with_bounds(LATENCY_LOW_US, LATENCY_HIGH_US, LATENCY_SIGFIG) {
        Some(h) => h,
        None => unreached(),
    }
}

/// `NUM_SHARDS` new, empty latency histograms.
fn new_shards() -> (hs: Vec<LatencyHistogram>)
    ensures
        shards_wf(hs@),
        counts_of(hs@) =~= empty_shards(NUM_SHARDS as nat),
{
    let mut hs: Vec<LatencyHistogram> = Vec::new();
    for i in 0..NUM_SHARDS
        invariant
            hs.len() == i,
            forall|j: int| 0 <= j < i ==> #[trigger] hist_config(hs@[j]) == latency_config(),
            forall|j: int| 0 <= j < i ==> #[trigger] hist_counts(hs@[j]) =~= Multiset::empty(),
    {
        hs.push(new_hist());
    }
    hs
}

/// Merges all shards into one new histogram; with `drain`, each shard is reset after
/// its samples were taken.
fn merge_shards(shards: &mut Vec<LatencyHistogram>, drain: bool) -> (merged: LatencyHistogram)
    requires
        shards_wf(old(shards)@),
    ensures
        shards_wf(final(shards)@),
        hist_config(merged) == latency_config(),
        total_len(counts_of(old(shards)@)) <= u64::MAX ==> hist_counts(merged) =~= sum_counts(
            counts_of(old(shards)@),
        ),
        drain ==> counts_of(final(shards)@) =~= empty_shards(NUM_SHARDS as nat),
        !drain ==> final(shards)@ == old(shards)@,
{
    let ghost before = counts_of(shards@);
    let mut merged = new_hist();
    let mut i: usize = 0;
    while i < shards.len()
        invariant
            shards.len() == NUM_SHARDS,
            before.len() == NUM_SHARDS,
            before == counts_of(old(shards)@),
            0 <= i <= NUM_SHARDS,
            shards_wf(shards@),
            hist_config(merged) == latency_config(),
            total_len(before) <= u64::MAX ==> hist_counts(merged) =~= sum_counts(before.take(i as int)),
            forall|j: int| i <= j < NUM_SHARDS ==> #[trigger] shards@[j] == old(shards)@[j],
            drain ==> forall|j: int| 0 <= j < i ==> #[trigger] hist_counts(shards@[j]) =~= Multiset::empty(),
            !drain ==> shards@ == old(shards)@,
        decreases NUM_SHARDS - i,
    {
        let ghost m0 = hist_counts(merged);
        proof {
            assert(hist_counts(shards@[i as int]) == before[i as int]);
            if total_len(before) <= u64::MAX {
                lemma_sum_counts_len(before.take(i as int));
                lemma_total_len_prefix(before, i as int + 1);
                assert(before.take(i as int + 1).drop_last() =~= before.take(i as int));
                assert forall|v: u64| #[trigger] m0.count(v) + before[i as int].count(v) <= u64::MAX by {
                    assert(m0.add(before[i as int]).count(v) <= m0.add(before[i as int]).len());
                }
            }
        }
        let ok = hist_add(&mut merged, &shards[i]);
        proof {
            if total_len(before) <= u64::MAX {
                assert(before.take(i as int + 1).drop_last() =~= before.take(i as int));
                assert(before.take(i as int + 1).last() == before[i as int]);
            }
        }
        if drain {
            hist_reset(&mut shards[i]);
        }
        i = i + 1;
    }
    proof {
        assert(before.take(NUM_SHARDS as int) =~= before);
    }
    merged
}

impl Metrics {
    /// Well-formed: both shard vectors hold `NUM_SHARDS` latency histograms.
    pub closed spec fn wf(&self) -> bool {
        &&& shards_wf(self.latency_shards@)
        &&& shards_wf(self.interval_shards@)
    }

    /// A well-formed value has `NUM_SHARDS` shards of each kind.
    pub proof fn lemma_wf_shards(&self)
        requires
            self.wf(),
        ensures
            self@.latency.len() == NUM_SHARDS,
            self@.interval.len() == NUM_SHARDS,
    {
    }

    /// New metrics: all counters zero, histograms empty, warming.
    pub fn new() -> (m: Self)
        ensures
            m.wf(),
            m@ == MetricsView::initial(),
    {
        Metrics {
            total_requests: 0,
            total_records: 0,
            total_errors: 0,
            total_bytes: 0,
            shard_counter: 0,
            latency_shards: new_shards(),
            interval_shards: new_shards(),
            is_warming: true,
            interval_requests: 0,
            interval_errors: 0,
            active_vus: 0,
        }
    }

    /// Sets the warming state; while warming, recording calls change nothing.
    pub fn set_warming(&mut self, warming: bool)
        ensures
            final(self)@ == (MetricsView { warming, ..old(self)@ }),
            final(self).wf() == old(self).wf(),
    {
        self.is_warming = warming;
    }

    /// Whether recording calls are currently discarded.
    pub fn is_warming(&self) -> (w: bool)
        ensures
            w == self@.warming,
    {
        self.is_warming
    }

    /// Records `latency_us` in the next shard of both the cumulative and the interval
    /// histograms.
    fn record_latency(&mut self, latency_us: u64)
        requires
            old(self).wf(),
        ensures
            final(self).wf(),
            final(self)@ == (MetricsView {
                shard_counter: wadd_usize(old(self)@.shard_counter, 1),
                latency: final(self)@.latency,
                interval: final(self)@.interval,
                ..old(self)@
            }),
            latency_us <= LATENCY_HIGH_US ==> latency_fits(latency_us),
            !latency_fits(latency_us) ==> final(self)@.latency == old(self)@.latency
                && final(self)@.interval == old(self)@.interval,
            latency_fits(latency_us) && old(self)@.unsaturated() ==> records_sample(
                old(self)@.latency,
                final(self)@.latency,
                shard_of(old(self)@.shard_counter),
                latency_us,
            ),
            latency_fits(latency_us) && old(self)@.unsaturated() ==> records_sample(
                old(self)@.interval,
                final(self)@.interval,
                shard_of(old(self)@.shard_counter),
                latency_us,
            ),
            final(self)@.latency.len() == NUM_SHARDS,
            final(self)@.interval.len() == NUM_SHARDS,
    {
        let idx = self.shard_counter & SHARD_MASK;
        proof {
            lemma_mask_in_range(self.shard_counter);
        }
        self.shard_counter = self.shard_counter.wrapping_add(1);
        let ghost lat0 = counts_of(self.latency_shards@);
        let ghost int0 = counts_of(self.interval_shards@);
        proof {
            if old(self)@.unsaturated() {
                lemma_element_len_le_total(lat0, idx as int);
                lemma_element_len_le_total(int0, idx as int);
            }
        }
        let _ = hist_record(&mut self.latency_shards[idx], latency_us);
        let _ = hist_record(&mut self.interval_shards[idx], latency_us);
        proof {
            assert(counts_of(self.latency_shards@) =~= lat0.update(
                idx as int,
                hist_counts(self.latency_shards@[idx as int]),
            ));
            assert(counts_of(self.interval_shards@) =~= int0.update(
                idx as int,
                hist_counts(self.interval_shards@[idx as int]),
            ));
            if !latency_fits(latency_us) {
                assert(counts_of(self.latency_shards@) =~= lat0);
                assert(counts_of(self.interval_shards@) =~= int0);
            }
        }
    }

    /// Records a successful response. Does nothing while warming.
    pub fn record_success(&mut self, latency_us: u64, bytes: u64)
        requires
            old(self).wf(),
        ensures
            final(self).wf(),
            old(self)@.warming ==> final(self)@ == old(self)@,
            !old(self)@.warming ==> old(self)@.success_step(final(self)@, latency_us, bytes, 1),
            !old(self)@.warming && latency_us <= LATENCY_HIGH_US ==> latency_fits(latency_us),
    {
        if self.is_warming {
            return;
        }
        self.total_requests = self.total_requests.wrapping_add(1);
        self.total_records = self.total_records.wrapping_add(1);
        self.total_bytes = self.total_bytes.wrapping_add(bytes);
        self.interval_requests = self.interval_requests.wrapping_add(1);
        self.record_latency(latency_us);
    }

    /// Records a successful batch response: one histogram sample (the per-record
    /// latency) and one response in the interval, but `batch_size` records.
    /// Does nothing while warming.
    pub fn record_batch_success(&mut self, per_record_latency_us: u64, total_bytes: u64, batch_size: u64)
        requires
            old(self).wf(),
        ensures
            final(self).wf(),
            old(self)@.warming ==> final(self)@ == old(self)@,
            !old(self)@.warming ==> old(self)@.success_step(
                final(self)@,
                per_record_latency_us,
                total_bytes,
                batch_size,
            ),
            !old(self)@.warming && per_record_latency_us <= LATENCY_HIGH_US ==> latency_fits(
                per_record_latency_us,
            ),
    {
        if self.is_warming {
            return;
        }
        self.total_requests = self.total_requests.wrapping_add(1);
        self.total_records = self.total_records.wrapping_add(batch_size);
        self.total_bytes = self.total_bytes.wrapping_add(total_bytes);
        self.interval_requests = self.interval_requests.wrapping_add(1);
        self.record_latency(per_record_latency_us);
    }

    /// Records a failed response as one request and one record, both failed. Does
    /// nothing while warming.
    pub fn record_error(&mut self)
        requires
            old(self).wf(),
        ensures
            final(self).wf(),
            old(self)@.warming ==> final(self)@ == old(self)@,
            !old(self)@.warming ==> final(self)@ == old(self)@.after_error(),
    {
        if self.is_warming {
            return;
        }
        self.total_requests = self.total_requests.wrapping_add(1);
        self.total_records = self.total_records.wrapping_add(1);
        self.total_errors = self.total_errors.wrapping_add(1);
        self.interval_errors = self.interval_errors.wrapping_add(1);
    }

    /// Sets the number of currently active virtual users; nothing else changes.
    pub fn set_active_vus(&mut self, vus: u64)
        ensures
            final(self)@ == (MetricsView { active_vus: vus, ..old(self)@ }),
            final(self).wf() == old(self).wf(),
    {
        self.active_vus = vus;
    }

    /// Requests counted so far.
    pub fn total_requests(&self) -> (n: u64)
        ensures
            n == self@.total_requests,
    {
        self.total_requests
    }

    /// Records counted so far.
    pub fn total_records(&self) -> (n: u64)
        ensures
            n == self@.total_records,
    {
        self.total_records
    }

    /// Failed requests counted so far.
    pub fn total_errors(&self) -> (n: u64)
        ensures
            n == self@.total_errors,
    {
        self.total_errors
    }

    /// Response bytes counted so far.
    pub fn total_bytes(&self) -> (n: u64)
        ensures
            n == self@.total_bytes,
    {
        self.total_bytes
    }

    /// Currently active virtual users.
    pub fn active_vus(&self) -> (n: u64)
        ensures
            n == self@.active_vus,
    {
        self.active_vus
    }

    /// Takes the interval counters and drains the interval histograms into one.
    pub fn take_interval_snapshot(&mut self, second: u32) -> (s: IntervalSample)
        requires
            old(self).wf(),
        ensures
            final(self).wf(),
            final(self)@ == old(self)@.after_snapshot(),
            s.second == second,
            s.requests == old(self)@.interval_requests,
            s.errors == old(self)@.interval_errors,
            s.active_vus == old(self)@.active_vus,
            hist_config(s.latencies) == latency_config(),
            total_len(old(self)@.interval) <= u64::MAX ==> hist_counts(s.latencies) =~= sum_counts(
                old(self)@.interval,
            ),
    {
        let requests = self.interval_requests;
        self.interval_requests = 0;
        let errors = self.interval_errors;
        self.interval_errors = 0;
        let active_vus = self.active_vus;
        let latencies = merge_shards(&mut self.interval_shards, true);
        IntervalSample { second, requests, errors, active_vus, latencies }
    }

    /// The integer part of the summary: throughput count, errors, bytes, and the merged
    /// cumulative latencies. Leaves the metrics unchanged.
    pub fn summary_counts(&mut self) -> (s: SummaryCounts)
        requires
            old(self).wf(),
        ensures
            final(self).wf(),
            final(self)@ == old(self)@,
            s.total == old(self)@.throughput_total(),
            s.errors == old(self)@.total_errors,
            s.total_bytes == old(self)@.total_bytes,
            hist_config(s.latencies) == latency_config(),
            total_len(old(self)@.latency) <= u64::MAX ==> hist_counts(s.latencies) =~= sum_counts(
                old(self)@.latency,
            ),
    {
        let total = if self.total_records > 0 {
            self.total_records
        } else {
            self.total_requests
        };
        let latencies = merge_shards(&mut self.latency_shards, false);
        SummaryCounts { total, errors: self.total_errors, total_bytes: self.total_bytes, latencies }
    }
}

/// A successful response recorded while measuring puts one sample of its latency's
/// bucket into the cumulative samples and one into the samples of the current
/// interval (a latency the histograms count, nothing saturated).
pub proof fn lemma_success_adds_one_sample(before: MetricsView, after: MetricsView, latency_us: u64, bytes: u64, records: u64)
    requires
        before.success_step(after, latency_us, bytes, records),
        before.latency.len() == NUM_SHARDS,
        before.interval.len() == NUM_SHARDS,
        before.unsaturated(),
        latency_fits(latency_us),
    ensures
        sum_counts(after.latency) =~= sum_counts(before.latency).insert(latency_bucket(latency_us)),
        sum_counts(after.interval) =~= sum_counts(before.interval).insert(latency_bucket(latency_us)),
        total_len(after.latency) == total_len(before.latency) + 1,
{
    let k = shard_of(before.shard_counter);
    lemma_mask_in_range(before.shard_counter);
    lemma_sum_counts_insert(before.latency, k, latency_bucket(latency_us));
    lemma_sum_counts_insert(before.interval, k, latency_bucket(latency_us));
}

/// A batch response is counted as one response: it differs from a single success
/// only in the number of records it adds.
pub proof fn lemma_batch_is_one_response(
    before: MetricsView,
    single: MetricsView,
    batch: MetricsView,
    latency_us: u64,
    bytes: u64,
    batch_size: u64,
)
    requires
        before.success_step(single, latency_us, bytes, 1),
        before.success_step(batch, latency_us, bytes, batch_size),
    ensures
        batch.total_requests == single.total_requests,
        batch.interval_requests == single.interval_requests,
        batch.total_bytes == single.total_bytes,
        batch.total_records == wadd64(before.total_records, batch_size),
        single.total_records == wadd64(before.total_records, 1),
{
}

/// A snapshot right after a snapshot finds nothing: no requests, no errors, no samples,
/// and it changes nothing further.
pub proof fn lemma_second_snapshot_is_empty(v: MetricsView)
    ensures
        v.after_snapshot().interval_requests == 0,
        v.after_snapshot().interval_errors == 0,
        sum_counts(v.after_snapshot().interval) =~= Multiset::empty(),
        v.after_snapshot().after_snapshot() == v.after_snapshot(),
{
    lemma_empty_shards_sum(v.interval.len());
    assert(empty_shards(empty_shards(v.interval.len()).len()) =~= empty_shards(v.interval.len()));
    assert(v.after_snapshot().after_snapshot() =~= v.after_snapshot());
}

/// A snapshot leaves the cumulative counters and samples as they were.
pub proof fn lemma_snapshot_keeps_totals(v: MetricsView)
    ensures
        v.after_snapshot().total_requests == v.total_requests,
        v.after_snapshot().total_records == v.total_records,
        v.after_snapshot().total_errors == v.total_errors,
        v.after_snapshot().total_bytes == v.total_bytes,
        v.after_snapshot().latency == v.latency,
        v.after_snapshot().throughput_total() == v.throughput_total(),
{
}

/// An error is counted in the totals and the interval but adds no latency sample.
pub proof fn lemma_error_adds_no_sample(v: MetricsView)
    ensures
        v.after_error().latency == v.latency,
        v.after_error().interval == v.interval,
        v.after_error().total_requests == wadd64(v.total_requests, 1),
        v.after_error().total_records == wadd64(v.total_records, 1),
        v.after_error().total_errors == wadd64(v.total_errors, 1),
        v.after_error().interval_errors == wadd64(v.interval_errors, 1),
{
}

/// The per-second snapshots taken so far (`taken`) and the current interval together
/// hold exactly the cumulative samples.
pub open spec fn samples_accounted(v: MetricsView, taken: Multiset<u64>) -> bool {
    sum_counts(v.latency) == taken.add(sum_counts(v.interval))
}

/// New metrics hold no samples, so nothing is taken and nothing is pending.
pub proof fn lemma_initial_accounted()
    ensures
        samples_accounted(MetricsView::initial(), Multiset::empty()),
{
    lemma_empty_shards_sum(NUM_SHARDS as nat);
    assert(Multiset::<u64>::empty().add(Multiset::empty()) =~= Multiset::empty());
}

/// Recording keeps every cumulative sample accounted for: a success adds its sample to
/// the cumulative samples and the current interval alike (nothing saturated), and an
/// error adds none.
pub proof fn lemma_recording_keeps_accounted(
    before: MetricsView,
    after: MetricsView,
    taken: Multiset<u64>,
    latency_us: u64,
    bytes: u64,
    records: u64,
)
    requires
        samples_accounted(before, taken),
        before.latency.len() == NUM_SHARDS,
        before.interval.len() == NUM_SHARDS,
    ensures
        before.unsaturated() && before.success_step(after, latency_us, bytes, records) ==> samples_accounted(
            after,
            taken,
        ),
        samples_accounted(before.after_error(), taken),
{
    if before.unsaturated() && before.success_step(after, latency_us, bytes, records) && latency_fits(
        latency_us,
    ) {
        let b = latency_bucket(latency_us);
        let k = shard_of(before.shard_counter);
        lemma_mask_in_range(before.shard_counter);
        lemma_sum_counts_insert(before.latency, k, b);
        lemma_sum_counts_insert(before.interval, k, b);
        assert(taken.add(sum_counts(before.interval).insert(b)) =~= taken.add(sum_counts(before.interval)).insert(b));
    }
}

/// A snapshot moves the samples of the current interval to the taken ones: the
/// cumulative samples stay accounted for.
pub proof fn lemma_snapshot_moves_interval(v: MetricsView, taken: Multiset<u64>)
    requires
        samples_accounted(v, taken),
    ensures
        samples_accounted(v.after_snapshot(), taken.add(sum_counts(v.interval))),
{
    lemma_empty_shards_sum(v.interval.len());
    assert(taken.add(sum_counts(v.interval)).add(Multiset::empty()) =~= taken.add(sum_counts(v.interval)));
}

/// Without batches every request carries one record: a success of one record and an
/// error each add one request and one record, so records stay equal to requests.
pub proof fn lemma_records_follow_requests(before: MetricsView, after: MetricsView, latency_us: u64, bytes: u64)
    requires
        before.total_records == before.total_requests,
    ensures
        before.success_step(after, latency_us, bytes, 1) ==> after.total_records == after.total_requests,
        before.after_error().total_records == before.after_error().total_requests,
        before.after_snapshot().total_records == before.after_snapshot().total_requests,
        MetricsView::initial().total_records == MetricsView::initial().total_requests,
{
}

} // verus!
