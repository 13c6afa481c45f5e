//! Decisions of the load-test driver: how a ramp test grows its virtual users, how a
//! response is counted, and the per-second snapshot collection.

use vstd::prelude::*;
use vstd::multiset::Multiset;
use std::time::Duration;
use crate::histogram::{hist_config, hist_counts};
use crate::metrics::{
    Metrics, MetricsView, IntervalSample, LATENCY_HIGH_US, latency_bucket, latency_config, latency_fits,
    sum_counts, total_len, wadd64, lemma_sum_counts_len, lemma_sum_counts_insert,
};

verus! {

broadcast use {vstd::multiset::group_multiset_axioms, vstd::multiset::group_multiset_properties};

/// Ramp test parameters.
pub struct RampConfig {
    pub start_vus: u64,
    pub step_vus: u64,
    pub step_interval: Duration,
    pub max_vus: u64,
}

/// The smaller of `a` and `b`.
pub open spec fn min_u64(a: u64, b: u64) -> u64 {
    if a <= b {
        a
    } else {
        b
    }
}

/// The number of virtual users a ramp test starts with: `start_vus`, capped at `max_vus`.
pub fn initial_vus(ramp: &RampConfig) -> (n: u64)
    ensures
        n == min_u64(ramp.start_vus, ramp.max_vus),
{
    if ramp.start_vus <= ramp.max_vus {
        ramp.start_vus
    } else {
        ramp.max_vus
    }
}

/// How many users one ramp tick adds: `step_vus`, capped so the total stays within
/// `max_vus`; none once the maximum or the deadline is reached.
pub open spec fn ramp_growth(current: u64, max_vus: u64, step_vus: u64, before_deadline: bool) -> u64 {
    if current < max_vus && before_deadline {
        min_u64(step_vus, (max_vus - current) as u64)
    } else {
        0
    }
}

/// The number of virtual users to add at a ramp tick.
pub fn ramp_tick(ramp: &RampConfig, current_vus: u64, before_deadline: bool) -> (to_add: u64)
    ensures
        to_add == ramp_growth(current_vus, ramp.max_vus, ramp.step_vus, before_deadline),
{
    if current_vus < ramp.max_vus && before_deadline {
        let room = ramp.max_vus - current_vus;
        if ramp.step_vus <= room {
            ramp.step_vus
        } else {
            room
        }
    } else {
        0
    }
}

/// The users a ramp test has after `k` ticks before the deadline, starting from `initial`.
pub open spec fn ramp_users_after(initial: u64, max_vus: u64, step_vus: u64, k: nat) -> int
    decreases k,
{
    if k == 0 {
        initial as int
    } else {
        let c = ramp_users_after(initial, max_vus, step_vus, (k - 1) as nat);
        c + ramp_growth(c as u64, max_vus, step_vus, true)
    }
}

/// Starting within the maximum, a ramp test has `min(max_vus, initial + k * step_vus)`
/// users after `k` ticks before the deadline: it grows by whole steps and never passes
/// the maximum.
pub proof fn lemma_ramp_growth(initial: u64, max_vus: u64, step_vus: u64, k: nat)
    requires
        initial <= max_vus,
    ensures
        ramp_users_after(initial, max_vus, step_vus, k) == if initial + k * step_vus <= max_vus {
            initial + k * step_vus
        } else {
            max_vus as int
        },
    decreases k,
{
    if k > 0 {
        lemma_ramp_growth(initial, max_vus, step_vus, (k - 1) as nat);
        let j = (k - 1) as nat;
        assert(k * step_vus == j * step_vus + step_vus) by (nonlinear_arith)
            requires
                k == j + 1,
        ;
        assert(j * step_vus >= 0) by (nonlinear_arith);
        let c = ramp_users_after(initial, max_vus, step_vus, j);
        assert(initial <= c <= max_vus);
        assert(ramp_users_after(initial, max_vus, step_vus, k) == c + ramp_growth(c as u64, max_vus, step_vus, true));
        if c < max_vus {
            assert(c == initial + j * step_vus);
            assert(ramp_growth(c as u64, max_vus, step_vus, true) == min_u64(step_vus, (max_vus - c) as u64));
        } else {
            assert(ramp_growth(c as u64, max_vus, step_vus, true) == 0);
        }
    } else {
        assert(k * step_vus == 0) by (nonlinear_arith)
            requires
                k == 0,
        ;
    }
}

/// The target of virtual user `vu` among `count` targets: users are dealt out to the
/// targets in turn.
pub open spec fn round_robin(vu: nat, count: nat) -> nat {
    vu % count
}

/// The position, among `count` comma-separated targets, of the target virtual user
/// `vu_id` sends to.
pub fn target_index(vu_id: u64, count: usize) -> (i: usize)
    requires
        count > 0,
    ensures
        i == round_robin(vu_id as nat, count as nat),
        i < count,
{
    (vu_id % (count as u64)) as usize
}

/// Round-robin distribution: the first `count` users take the targets in order, and
/// each further `count` users take every target once more.
pub proof fn lemma_round_robin(vu: nat, count: nat)
    requires
        count > 0,
    ensures
        vu < count ==> round_robin(vu, count) == vu,
        round_robin(vu + count, count) == round_robin(vu, count),
        round_robin(vu, count) < count,
{
    vstd::arithmetic::div_mod::lemma_mod_add_multiples_vanish(vu as int, count as int);
    if vu < count {
        vstd::arithmetic::div_mod::lemma_small_mod(vu, count);
    }
}

/// What came back for one request.
pub enum ResponseOutcome {
    /// A response arrived: whether its status was 2xx, the body length, and the
    /// microseconds from sending to the end of the body.
    Received { success: bool, bytes: u64, latency_us: u64 },
    /// The request failed before a response arrived.
    Failed,
}

/// Counts one response: a 2xx response as a success with its latency and size,
/// anything else as an error.
pub fn record_response(metrics: &mut Metrics, outcome: ResponseOutcome)
    requires
        old(metrics).wf(),
    ensures
        final(metrics).wf(),
        match outcome {
            ResponseOutcome::Received { success: true, bytes, latency_us } => {
                ||| old(metrics)@.warming && final(metrics)@ == old(metrics)@
                ||| !old(metrics)@.warming && old(metrics)@.success_step(final(metrics)@, latency_us, bytes, 1)
            },
            _ => {
                ||| old(metrics)@.warming && final(metrics)@ == old(metrics)@
                ||| !old(metrics)@.warming && final(metrics)@ == old(metrics)@.after_error()
            },
        },
{
    match outcome {
        ResponseOutcome::Received { success, bytes, latency_us } => {
            if success {
                metrics.record_success(latency_us, bytes);
            } else {
                metrics.record_error();
            }
        },
        ResponseOutcome::Failed => metrics.record_error(),
    }
}

/// `n` copies of `x`.
pub open spec fn copies(x: u64, n: nat) -> Multiset<u64>
    decreases n,
{
    if n == 0 {
        Multiset::empty()
    } else {
        copies(x, (n - 1) as nat).insert(x)
    }
}

/// `after` is `before` with `n` more successful records of `latency_us` and
/// `bytes` bytes each: counters advanced `n` times, and, for a latency the histograms
/// count (while nothing saturates), `n` more samples of its bucket in both histograms;
/// any other latency adds no sample.
pub open spec fn repeated_success(before: MetricsView, after: MetricsView, n: nat, latency_us: u64, bytes: u64) -> bool {
    &&& after.total_requests == (before.total_requests + n) % 0x1_0000_0000_0000_0000
    &&& after.total_records == (before.total_records + n) % 0x1_0000_0000_0000_0000
    &&& after.interval_requests == (before.interval_requests + n) % 0x1_0000_0000_0000_0000
    &&& after.total_bytes == (before.total_bytes + n * bytes) % 0x1_0000_0000_0000_0000
    &&& after.total_errors == before.total_errors
    &&& after.interval_errors == before.interval_errors
    &&& after.warming == before.warming
    &&& after.active_vus == before.active_vus
    &&& after.latency.len() == before.latency.len()
    &&& after.interval.len() == before.interval.len()
    &&& !latency_fits(latency_us) ==> after.latency == before.latency && after.interval == before.interval
    &&& (latency_fits(latency_us) && total_len(before.latency) + n < u64::MAX
        && total_len(before.interval) + n < u64::MAX) ==> {
        &&& sum_counts(after.latency) == sum_counts(before.latency).add(
            copies(latency_bucket(latency_us), n),
        )
        &&& sum_counts(after.interval) == sum_counts(before.interval).add(
            copies(latency_bucket(latency_us), n),
        )
    }
}

/// Counts a batch response as `batch_size` records: on a 2xx response, each record
/// is a success with the latency and the bytes divided evenly over the batch;
/// otherwise the response is one error.
pub fn record_batch_response(metrics: &mut Metrics, outcome: ResponseOutcome, batch_size: u64)
    requires
        old(metrics).wf(),
        outcome matches ResponseOutcome::Received { success: true, .. } ==> batch_size > 0,
    ensures
        final(metrics).wf(),
        match outcome {
            ResponseOutcome::Received { success: true, bytes, latency_us } => {
                ||| old(metrics)@.warming && final(metrics)@ == old(metrics)@
                ||| !old(metrics)@.warming && repeated_success(
                    old(metrics)@,
                    final(metrics)@,
                    batch_size as nat,
                    latency_us / batch_size,
                    bytes / batch_size,
                )
            },
            _ => {
                ||| old(metrics)@.warming && final(metrics)@ == old(metrics)@
                ||| !old(metrics)@.warming && final(metrics)@ == old(metrics)@.after_error()
            },
        },
{
    match outcome {
        ResponseOutcome::Received { success, bytes, latency_us } => {
            if success {
                let per_record_latency = latency_us / batch_size;
                let per_record_bytes = bytes / batch_size;
                record_successes(metrics, batch_size, per_record_latency, per_record_bytes);
            } else {
                metrics.record_error();
            }
        },
        ResponseOutcome::Failed => metrics.record_error(),
    }
}

/// Records `n` successes of `latency_us` and `bytes` each, one after another.
pub fn record_successes(metrics: &mut Metrics, n: u64, latency_us: u64, bytes: u64)
    requires
        old(metrics).wf(),
    ensures
        final(metrics).wf(),
        old(metrics)@.warming ==> final(metrics)@ == old(metrics)@,
        !old(metrics)@.warming ==> repeated_success(old(metrics)@, final(metrics)@, n as nat, latency_us, bytes),
        !old(metrics)@.warming && n > 0 && latency_us <= LATENCY_HIGH_US ==> latency_fits(latency_us),
{
    if metrics.is_warming() {
        // Every recording is a no-op while warming.
        let ghost v0 = metrics@;
        for i in 0..n
            invariant
                metrics.wf(),
                metrics@ == v0,
                v0.warming,
        {
            metrics.record_success(latency_us, bytes);
        }
    } else {
        let ghost v0 = metrics@;
        proof {
            let m = 0x1_0000_0000_0000_0000int;
            vstd::arithmetic::div_mod::lemma_small_mod(v0.total_requests as nat, m as nat);
            vstd::arithmetic::div_mod::lemma_small_mod(v0.total_records as nat, m as nat);
            vstd::arithmetic::div_mod::lemma_small_mod(v0.interval_requests as nat, m as nat);
            vstd::arithmetic::div_mod::lemma_small_mod(v0.total_bytes as nat, m as nat);
            assert(sum_counts(v0.latency).add(copies(latency_bucket(latency_us), 0)) =~= sum_counts(
                v0.latency,
            ));
            assert(sum_counts(v0.interval).add(copies(latency_bucket(latency_us), 0)) =~= sum_counts(
                v0.interval,
            ));
        }
        for i in 0..n
            invariant
                metrics.wf(),
                !v0.warming,
                repeated_success(v0, metrics@, i as nat, latency_us, bytes),
                i > 0 && latency_us <= LATENCY_HIGH_US ==> latency_fits(latency_us),
        {
            let ghost before = metrics@;
            proof {
                metrics.lemma_wf_shards();
            }
            metrics.record_success(latency_us, bytes);
            proof {
                lemma_success_extends(v0, before, metrics@, i as nat, latency_us, bytes);
            }
        }
    }
}

/// One more wrapping addition of `d` after `k` of them is `k + 1` of them.
proof fn lemma_wrap_step(x: u64, k: nat, d: u64)
    ensures
        wadd64(((x + k * d) % 0x1_0000_0000_0000_0000) as u64, d) == (x + (k + 1) * d)
            % 0x1_0000_0000_0000_0000,
{
    let m = 0x1_0000_0000_0000_0000int;
    let a = (x + k * d) % m;
    assert(0 <= a < m) by {
        vstd::arithmetic::div_mod::lemma_mod_bound(x + k * d, m);
    }
    assert((k + 1) * d == k * d + d) by (nonlinear_arith);
    vstd::arithmetic::div_mod::lemma_add_mod_noop_right(d as int, x + k * d, m);
    if a + d >= m {
        vstd::arithmetic::div_mod::lemma_fundamental_div_mod_converse(a + d, m, 1, a + d - m);
    } else {
        vstd::arithmetic::div_mod::lemma_small_mod((a + d) as nat, m as nat);
    }
}

proof fn lemma_success_extends(
    v0: MetricsView,
    before: MetricsView,
    after: MetricsView,
    i: nat,
    latency_us: u64,
    bytes: u64,
)
    requires
        repeated_success(v0, before, i, latency_us, bytes),
        before.success_step(after, latency_us, bytes, 1),
        before.latency.len() == crate::metrics::NUM_SHARDS,
        before.interval.len() == crate::metrics::NUM_SHARDS,
    ensures
        repeated_success(v0, after, i + 1, latency_us, bytes),
{
    lemma_wrap_step(v0.total_requests, i, 1);
    lemma_wrap_step(v0.total_records, i, 1);
    lemma_wrap_step(v0.interval_requests, i, 1);
    lemma_wrap_step(v0.total_bytes, i, bytes);
    if latency_fits(latency_us) && total_len(v0.latency) + i + 1 < u64::MAX
        && total_len(v0.interval) + i + 1 < u64::MAX {
        let b = latency_bucket(latency_us);
        lemma_sum_counts_len(before.latency);
        lemma_sum_counts_len(before.interval);
        lemma_sum_counts_len(v0.latency);
        lemma_sum_counts_len(v0.interval);
        lemma_copies_len(b, i);
        assert(before.unsaturated());
        let k = crate::metrics::shard_of(before.shard_counter);
        assert(0 <= k < before.latency.len()) by {
            crate::metrics::lemma_mask_in_range(before.shard_counter);
        }
        assert(after.latency == before.latency.update(k, before.latency[k].insert(b)));
        assert(after.interval == before.interval.update(k, before.interval[k].insert(b)));
        lemma_sum_counts_insert(before.latency, k, b);
        lemma_sum_counts_insert(before.interval, k, b);
        assert(sum_counts(v0.latency).add(copies(b, i)).insert(b) =~= sum_counts(v0.latency).add(
            copies(b, i + 1),
        ));
        assert(sum_counts(v0.interval).add(copies(b, i)).insert(b) =~= sum_counts(v0.interval).add(
            copies(b, i + 1),
        ));
    }
}

proof fn lemma_copies_len(x: u64, n: nat)
    ensures
        copies(x, n).len() == n,
    decreases n,
{
    if n > 0 {
        lemma_copies_len(x, (n - 1) as nat);
    }
}

/// Collected per-second snapshots: the last second taken and the samples so far.
pub struct SnapshotLog {
    pub second: u32,
    pub samples: Vec<IntervalSample>,
}

impl SnapshotLog {
    /// An empty log before the first second.
    pub fn new() -> (log: Self)
        ensures
            log.second == 0,
            log.samples@.len() == 0,
    {
        SnapshotLog { second: 0, samples: Vec::new() }
    }

    /// One tick of the collector: advances the second and appends the interval
    /// snapshot taken for it.
    pub fn collect(&mut self, metrics: &mut Metrics)
        requires
            old(metrics).wf(),
            old(self).second < u32::MAX,
        ensures
            final(metrics).wf(),
            final(metrics)@ == old(metrics)@.after_snapshot(),
            final(self).second == old(self).second + 1,
            final(self).samples@.len() == old(self).samples@.len() + 1,
            final(self).samples@.take(old(self).samples@.len() as int) == old(self).samples@,
            final(self).samples@.last().second == final(self).second,
            final(self).samples@.last().requests == old(metrics)@.interval_requests,
            final(self).samples@.last().errors == old(metrics)@.interval_errors,
            final(self).samples@.last().active_vus == old(metrics)@.active_vus,
            hist_config(final(self).samples@.last().latencies) == latency_config(),
            total_len(old(metrics)@.interval) <= u64::MAX ==> hist_counts(
                final(self).samples@.last().latencies,
            ) =~= sum_counts(old(metrics)@.interval),
    {
        self.second = self.second + 1;
        let snap = metrics.take_interval_snapshot(self.second);
        self.samples.push(snap);
        proof {
            assert(self.samples@.take(old(self).samples@.len() as int) =~= old(self).samples@);
        }
    }
}

} // verus!
