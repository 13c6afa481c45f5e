//! Decisions of the realtime (WebSocket / SSE / MQTT) tests: which test a name
//! selects, connection bookkeeping, how subscribers are spawned in batches, the
//! stream URLs, and how what a subscriber or publisher sees is counted.

use vstd::prelude::*;
use crate::cli::BenchArgs;
use crate::metrics::Metrics;
use crate::runner::{min_u64, ramp_growth, repeated_success, record_successes};
use crate::text::{chars_of, push_str, str_eq, string_from_chars};

verus! {

/// Subscribers spawned per batch during the initial ramp-up.
pub const BATCH_SIZE: u64 = 1000;

/// Pause between initial batches, in milliseconds.
pub const BATCH_DELAY_MS: u64 = 100;

/// Progress is reported whenever the spawned count reaches a multiple of this.
pub const PROGRESS_EVERY: u64 = 5000;

/// The streaming protocol a realtime test uses.
pub enum Protocol {
    WebSocket,
    Sse,
    Mqtt,
}

/// A realtime test: its protocol, whether its clients publish messages (fan-in) rather
/// than subscribe to them (fan-out), and whether subscribers ramp up during measurement.
pub struct RealtimeTest {
    pub protocol: Protocol,
    pub publish: bool,
    pub is_ramp: bool,
}

/// The realtime test a test name selects, if any: WebSocket fan-out (`ws`, `ws-ramp`),
/// WebSocket fan-in (`ws-publish`), SSE fan-out (`sse`, `sse-ramp`) and MQTT fan-out
/// (`mqtt`).
pub open spec fn realtime_test_spec(test: Seq<char>) -> Option<RealtimeTest> {
    if test == "ws"@ {
        Some(RealtimeTest { protocol: Protocol::WebSocket, publish: false, is_ramp: false })
    } else if test == "ws-ramp"@ {
        Some(RealtimeTest { protocol: Protocol::WebSocket, publish: false, is_ramp: true })
    } else if test == "ws-publish"@ {
        Some(RealtimeTest { protocol: Protocol::WebSocket, publish: true, is_ramp: false })
    } else if test == "sse"@ {
        Some(RealtimeTest { protocol: Protocol::Sse, publish: false, is_ramp: false })
    } else if test == "sse-ramp"@ {
        Some(RealtimeTest { protocol: Protocol::Sse, publish: false, is_ramp: true })
    } else if test == "mqtt"@ {
        Some(RealtimeTest { protocol: Protocol::Mqtt, publish: false, is_ramp: false })
    } else {
        None
    }
}

/// The realtime test named `test`, if any.
pub fn realtime_test(test: &str) -> (r: Option<RealtimeTest>)
    ensures
        r == realtime_test_spec(test@),
{
    if str_eq(test, "ws") {
        Some(RealtimeTest { protocol: Protocol::WebSocket, publish: false, is_ramp: false })
    } else if str_eq(test, "ws-ramp") {
        Some(RealtimeTest { protocol: Protocol::WebSocket, publish: false, is_ramp: true })
    } else if str_eq(test, "ws-publish") {
        Some(RealtimeTest { protocol: Protocol::WebSocket, publish: true, is_ramp: false })
    } else if str_eq(test, "sse") {
        Some(RealtimeTest { protocol: Protocol::Sse, publish: false, is_ramp: false })
    } else if str_eq(test, "sse-ramp") {
        Some(RealtimeTest { protocol: Protocol::Sse, publish: false, is_ramp: true })
    } else if str_eq(test, "mqtt") {
        Some(RealtimeTest { protocol: Protocol::Mqtt, publish: false, is_ramp: false })
    } else {
        None
    }
}

/// The test is one a name selects: publishing only over WebSocket, ramping only for
/// WebSocket and SSE subscribers.
pub open spec fn is_offered(t: RealtimeTest) -> bool {
    &&& t.publish ==> t.protocol is WebSocket && !t.is_ramp
    &&& t.protocol is Mqtt ==> !t.is_ramp
}

/// The table whose messages a realtime test streams: each test has its own.
pub open spec fn message_table_spec(t: RealtimeTest) -> Seq<char> {
    if t.publish {
        "WsPublishMessage"@
    } else {
        match t.protocol {
            Protocol::WebSocket => "WsMessage"@,
            Protocol::Sse => "SseMessage"@,
            Protocol::Mqtt => "MqttMessage"@,
        }
    }
}

impl RealtimeTest {
    /// The name the test's results are reported under; for an offered test it names
    /// this test again.
    pub fn name(&self) -> (r: &'static str)
        ensures
            is_offered(*self) ==> realtime_test_spec(r@) == Some(*self),
    {
        proof {
            reveal_strlit("ws");
            reveal_strlit("ws-ramp");
            reveal_strlit("ws-publish");
            reveal_strlit("sse");
            reveal_strlit("sse-ramp");
            reveal_strlit("mqtt");
            assert("ws-ramp"@.len() != "ws"@.len());
            assert("ws-publish"@.len() != "ws"@.len() && "ws-publish"@[3] != "ws-ramp"@[3]);
            assert("sse"@ != "ws"@ && "sse"@ != "ws-ramp"@ && "sse"@ != "ws-publish"@);
            assert("sse-ramp"@.len() != "ws"@.len() && "sse-ramp"@[0] != "ws-ramp"@[0]);
            assert("sse-ramp"@[0] != "ws-publish"@[0]);
            assert("sse-ramp"@.len() != "sse"@.len());
            assert("mqtt"@[0] != "ws"@[0] && "mqtt"@[0] != "ws-ramp"@[0] && "mqtt"@[0] != "ws-publish"@[0]);
            assert("mqtt"@[0] != "sse"@[0] && "mqtt"@[0] != "sse-ramp"@[0]);
        }
        match self.protocol {
            Protocol::WebSocket => if self.publish {
                "ws-publish"
            } else if self.is_ramp {
                "ws-ramp"
            } else {
                "ws"
            },
            Protocol::Sse => if self.is_ramp {
                "sse-ramp"
            } else {
                "sse"
            },
            Protocol::Mqtt => "mqtt",
        }
    }

    /// The table whose messages this test streams.
    pub fn message_table(&self) -> (r: &'static str)
        ensures
            r@ == message_table_spec(*self),
    {
        if self.publish {
            "WsPublishMessage"
        } else {
            match self.protocol {
                Protocol::WebSocket => "WsMessage",
                Protocol::Sse => "SseMessage",
                Protocol::Mqtt => "MqttMessage",
            }
        }
    }
}

/// Connection lifecycle counters of a fan-out test.
pub struct ConnectionTracker {
    /// Currently open connections.
    pub connected: u64,
    /// Highest number of simultaneously open connections seen.
    pub peak: u64,
    pub failed: u64,
    pub disconnected: u64,
    pub published: u64,
}

/// One lifecycle event.
pub enum ConnectionEvent {
    Connect,
    Disconnect,
    Fail,
    Publish,
}

/// The larger of `a` and `b`.
pub open spec fn max_u64(a: u64, b: u64) -> u64 {
    if a >= b {
        a
    } else {
        b
    }
}

/// The tracker after one event.
pub open spec fn tracker_step(t: ConnectionTracker, e: ConnectionEvent) -> ConnectionTracker {
    match e {
        ConnectionEvent::Connect => ConnectionTracker {
            connected: (t.connected + 1) as u64,
            peak: max_u64(t.peak, (t.connected + 1) as u64),
            ..t
        },
        ConnectionEvent::Disconnect => ConnectionTracker {
            connected: vstd::wrapping::u64_specs::wrapping_sub(t.connected, 1),
            disconnected: crate::metrics::wadd64(t.disconnected, 1),
            ..t
        },
        ConnectionEvent::Fail => ConnectionTracker { failed: crate::metrics::wadd64(t.failed, 1), ..t },
        ConnectionEvent::Publish => ConnectionTracker {
            published: crate::metrics::wadd64(t.published, 1),
            ..t
        },
    }
}

impl ConnectionTracker {
    /// A tracker with every counter at zero.
    pub fn new() -> (t: Self)
        ensures
            t == (ConnectionTracker { connected: 0, peak: 0, failed: 0, disconnected: 0, published: 0 }),
    {
        ConnectionTracker { connected: 0, peak: 0, failed: 0, disconnected: 0, published: 0 }
    }

    /// A connection opened: one more open connection, and the peak follows it up.
    pub fn on_connect(&mut self)
        requires
            old(self).connected < u64::MAX,
        ensures
            *final(self) == tracker_step(*old(self), ConnectionEvent::Connect),
    {
        let current = self.connected + 1;
        self.connected = current;
        if current > self.peak {
            self.peak = current;
        }
    }

    /// A connection closed.
    pub fn on_disconnect(&mut self)
        ensures
            *final(self) == tracker_step(*old(self), ConnectionEvent::Disconnect),
    {
        self.connected = self.connected.wrapping_sub(1);
        self.disconnected = self.disconnected.wrapping_add(1);
    }

    /// A connection attempt failed.
    pub fn on_fail(&mut self)
        ensures
            *final(self) == tracker_step(*old(self), ConnectionEvent::Fail),
    {
        self.failed = self.failed.wrapping_add(1);
    }

    /// A message was published.
    pub fn on_publish(&mut self)
        ensures
            *final(self) == tracker_step(*old(self), ConnectionEvent::Publish),
    {
        self.published = self.published.wrapping_add(1);
    }
}

/// The tracker after a sequence of events, starting with every counter at zero.
pub open spec fn tracker_after(events: Seq<ConnectionEvent>) -> ConnectionTracker
    decreases events.len(),
{
    if events.len() == 0 {
        ConnectionTracker { connected: 0, peak: 0, failed: 0, disconnected: 0, published: 0 }
    } else {
        tracker_step(tracker_after(events.drop_last()), events.last())
    }
}

/// The number of events of one kind.
pub open spec fn count_events(events: Seq<ConnectionEvent>, kind: ConnectionEvent) -> nat
    decreases events.len(),
{
    if events.len() == 0 {
        0
    } else {
        count_events(events.drop_last(), kind) + if events.last() == kind {
            1nat
        } else {
            0nat
        }
    }
}

/// Open connections after the events: connects minus disconnects.
pub open spec fn open_after(events: Seq<ConnectionEvent>) -> int {
    count_events(events, ConnectionEvent::Connect) - count_events(events, ConnectionEvent::Disconnect)
}

/// No prefix of the events closes more connections than it opened.
pub open spec fn well_nested(events: Seq<ConnectionEvent>) -> bool {
    forall|n: int| 0 <= n <= events.len() ==> #[trigger] open_after(events.take(n)) >= 0
}

/// The most connections open at once over every prefix of the events.
pub open spec fn peak_open(events: Seq<ConnectionEvent>) -> int
    decreases events.len(),
{
    if events.len() == 0 {
        0
    } else {
        let p = peak_open(events.drop_last());
        let o = open_after(events);
        if o > p {
            o
        } else {
            p
        }
    }
}

/// Over any sequence of connection events that never closes more than it opened (and
/// fewer events than a counter holds), the tracker's `connected` is the number of open
/// connections, `peak` the most that were ever open at once, and `failed`,
/// `disconnected` and `published` count their events.
pub proof fn lemma_tracker_counts(events: Seq<ConnectionEvent>)
    requires
        well_nested(events),
        events.len() < u64::MAX,
    ensures
        tracker_after(events).connected == open_after(events),
        tracker_after(events).peak == peak_open(events),
        tracker_after(events).peak >= tracker_after(events).connected,
        tracker_after(events).failed == count_events(events, ConnectionEvent::Fail),
        tracker_after(events).disconnected == count_events(events, ConnectionEvent::Disconnect),
        tracker_after(events).published == count_events(events, ConnectionEvent::Publish),
    decreases events.len(),
{
    if events.len() > 0 {
        let prev = events.drop_last();
        assert forall|n: int| 0 <= n <= prev.len() implies #[trigger] open_after(prev.take(n)) >= 0 by {
            assert(prev.take(n) =~= events.take(n));
        }
        lemma_tracker_counts(prev);
        lemma_count_le_len(prev, ConnectionEvent::Connect);
        lemma_count_le_len(prev, ConnectionEvent::Fail);
        lemma_count_le_len(prev, ConnectionEvent::Disconnect);
        lemma_count_le_len(prev, ConnectionEvent::Publish);
        assert(events.take(events.len() as int) =~= events);
        assert(open_after(events.take(events.len() as int)) >= 0);
        lemma_peak_nonneg(prev);
    }
}

/// No event lowers the peak; a connect leaves the peak at least the open connections,
/// and every other event keeps that so, short of closing a connection that was never
/// opened.
pub proof fn lemma_peak_never_drops(t: ConnectionTracker, e: ConnectionEvent)
    requires
        e is Connect ==> t.connected < u64::MAX,
    ensures
        tracker_step(t, e).peak >= t.peak,
        e is Connect ==> tracker_step(t, e).peak >= tracker_step(t, e).connected,
        t.peak >= t.connected && (e is Disconnect ==> t.connected > 0) ==> tracker_step(t, e).peak
            >= tracker_step(t, e).connected,
{
}

proof fn lemma_count_le_len(events: Seq<ConnectionEvent>, kind: ConnectionEvent)
    ensures
        count_events(events, kind) <= events.len(),
    decreases events.len(),
{
    if events.len() > 0 {
        lemma_count_le_len(events.drop_last(), kind);
    }
}

proof fn lemma_peak_nonneg(events: Seq<ConnectionEvent>)
    ensures
        peak_open(events) >= 0,
    decreases events.len(),
{
    if events.len() > 0 {
        lemma_peak_nonneg(events.drop_last());
    }
}

/// How many subscribers a fan-out test targets and starts with.
pub struct SubscriberPlan {
    /// Subscribers the test ends up with.
    pub total_vus: u64,
    /// Subscribers spawned before measurement starts.
    pub initial_vus: u64,
    /// Subscribers added per ramp step (reported only).
    pub batch_size: u64,
}

/// The subscriber plan: a ramp test targets `max_vus`, starts with `start_vus` and adds
/// `step_vus` per step; otherwise all `vus` are spawned up front in batches.
pub fn subscriber_plan(args: &BenchArgs, is_ramp: bool) -> (p: SubscriberPlan)
    ensures
        p.total_vus == if is_ramp { args.max_vus } else { args.vus },
        p.initial_vus == if is_ramp { args.start_vus } else { p.total_vus },
        p.batch_size == if is_ramp { args.step_vus } else { BATCH_SIZE },
{
    let total_vus = if is_ramp { args.max_vus } else { args.vus };
    SubscriberPlan {
        total_vus,
        initial_vus: if is_ramp { args.start_vus } else { total_vus },
        batch_size: if is_ramp { args.step_vus } else { BATCH_SIZE },
    }
}

/// One batch of the initial spawn: it ends (exclusive) at `end`; `report` tells whether
/// progress is logged after it and `pause` whether to wait before the next batch.
pub struct InitialBatch {
    pub end: u64,
    pub report: bool,
    pub pause: bool,
}

/// The batch of the initial spawn that starts at `start`, or `None` once `initial`
/// subscribers are spawned. Batches hold `BATCH_SIZE` subscribers, the last one fewer.
pub fn next_batch(start: u64, initial: u64) -> (b: Option<InitialBatch>)
    requires
        start <= u64::MAX - BATCH_SIZE,
    ensures
        match b {
            None => start >= initial,
            Some(b) => {
                &&& start < initial
                &&& b.end == min_u64((start + BATCH_SIZE) as u64, initial)
                &&& b.report == (b.end % PROGRESS_EVERY == 0 || b.end == initial)
                &&& b.pause == (b.end < initial)
            },
        },
{
    if start >= initial {
        return None;
    }
    let candidate = start + BATCH_SIZE;
    let end = if candidate <= initial {
        candidate
    } else {
        initial
    };
    Some(InitialBatch { end, report: end % PROGRESS_EVERY == 0 || end == initial, pause: end < initial })
}

/// The number of subscribers a ramp tick adds during measurement.
pub fn subscribers_to_add(current: u64, total_vus: u64, step_vus: u64) -> (n: u64)
    ensures
        n == ramp_growth(current, total_vus, step_vus, true),
{
    if current < total_vus {
        let room = total_vus - current;
        if step_vus <= room {
            step_vus
        } else {
            room
        }
    } else {
        0
    }
}

/// `s` with every non-overlapping occurrence of `pat` replaced by `rep`, scanning from
/// the left, as `str::replace` does.
pub open spec fn replace_all(s: Seq<char>, pat: Seq<char>, rep: Seq<char>) -> Seq<char>
    recommends
        pat.len() > 0,
    decreases s.len(),
{
    if pat.len() == 0 || s.len() < pat.len() {
        s
    } else if s.take(pat.len() as int) == pat {
        rep + replace_all(s.skip(pat.len() as int), pat, rep)
    } else {
        seq![s[0]] + replace_all(s.skip(1), pat, rep)
    }
}

/// Whether `v[i..]` starts with `pat`.
fn matches_at(v: &Vec<char>, i: usize, pat: &Vec<char>) -> (r: bool)
    requires
        i <= v.len(),
    ensures
        r == (i + pat.len() <= v.len() && v@.skip(i as int).take(pat.len() as int) == pat@),
{
    if pat.len() > v.len() - i {
        return false;
    }
    for j in 0..pat.len()
        invariant
            i + pat.len() <= v.len(),
            forall|k: int| 0 <= k < j ==> v@[i + k] == pat@[k],
    {
        if v[i + j] != pat[j] {
            assert(v@.skip(i as int).take(pat.len() as int)[j as int] != pat@[j as int]);
            return false;
        }
    }
    assert(v@.skip(i as int).take(pat.len() as int) =~= pat@);
    true
}

/// `s` with every occurrence of `pat` replaced by `rep`.
pub fn replace_str(s: &str, pat: &str, rep: &str) -> (r: String)
    requires
        pat@.len() > 0,
    ensures
        r@ == replace_all(s@, pat@, rep@),
{
    let v = chars_of(s);
    let p = chars_of(pat);
    let rv = chars_of(rep);
    let mut out: Vec<char> = Vec::new();
    let mut i: usize = 0;
    proof {
        assert(v@.skip(0) =~= v@);
        assert(out@ + replace_all(v@, p@, rv@) =~= replace_all(v@, p@, rv@));
    }
    while i < v.len()
        invariant
            v@ == s@,
            p@ == pat@,
            rv@ == rep@,
            p@.len() > 0,
            i <= v.len(),
            out@ + replace_all(v@.skip(i as int), p@, rv@) == replace_all(v@, p@, rv@),
        decreases v.len() - i,
    {
        proof {
            if i == 0 {
                assert(v@.skip(0) =~= v@);
            }
        }
        let ghost rest = v@.skip(i as int);
        let ghost out0 = out@;
        if matches_at(&v, i, &p) {
            for j in 0..rv.len()
                invariant
                    out@ == out0 + rv@.take(j as int),
            {
                out.push(rv[j]);
                proof {
                    assert(rv@.take(j + 1) =~= rv@.take(j as int).push(rv@[j as int]));
                    assert(out0 + rv@.take(j + 1) =~= (out0 + rv@.take(j as int)).push(rv@[j as int]));
                }
            }
            proof {
                assert(rv@.take(rv@.len() as int) =~= rv@);
                assert(rest.skip(p@.len() as int) =~= v@.skip(i + p@.len()));
                assert(replace_all(rest, p@, rv@) == rv@ + replace_all(rest.skip(p@.len() as int), p@, rv@));
                assert((out0 + rv@) + replace_all(rest.skip(p@.len() as int), p@, rv@) =~= out0 + (rv@
                    + replace_all(rest.skip(p@.len() as int), p@, rv@)));
            }
            i = i + p.len();
        } else {
            out.push(v[i]);
            proof {
                lemma_replace_no_match(rest, p@, rv@);
                assert(rest.skip(1) =~= v@.skip(i + 1));
                assert(rest[0] == v@[i as int]);
                assert(out0.push(v@[i as int]) + replace_all(rest.skip(1), p@, rv@) =~= out0 + (seq![rest[0]]
                    + replace_all(rest.skip(1), p@, rv@)));
            }
            i = i + 1;
        }
    }
    proof {
        assert(v@.skip(i as int) =~= Seq::<char>::empty());
        assert(out@ + Seq::<char>::empty() =~= out@);
    }
    string_from_chars(&out)
}

proof fn lemma_replace_no_match(rest: Seq<char>, pat: Seq<char>, rep: Seq<char>)
    requires
        rest.len() > 0,
        pat.len() > 0,
        !(pat.len() <= rest.len() && rest.take(pat.len() as int) == pat),
    ensures
        replace_all(rest, pat, rep) == seq![rest[0]] + replace_all(rest.skip(1), pat, rep),
{
    if rest.len() < pat.len() {
        assert(seq![rest[0]] + rest.skip(1) =~= rest);
    }
}

/// `base_url` with its scheme turned from `https://` to `wss://` and from `http://` to
/// `ws://`.
pub open spec fn ws_base(base_url: Seq<char>) -> Seq<char> {
    replace_all(replace_all(base_url, "https://"@, "wss://"@), "http://"@, "ws://"@)
}

fn ws_base_of(base_url: &str) -> (r: String)
    ensures
        r@ == ws_base(base_url@),
{
    proof {
        reveal_strlit("https://");
        reveal_strlit("http://");
    }
    let secure = replace_str(base_url, "https://", "wss://");
    replace_str(secure.as_str(), "http://", "ws://")
}

/// The WebSocket stream URL of `table`: the WebSocket form of `base_url`, then the
/// table's stream path.
pub fn ws_stream_url(base_url: &str, table: &str) -> (r: String)
    ensures
        r@ == ws_base(base_url@) + "/app-benchmarks/"@ + table@ + "?stream=ws"@,
{
    let mut url = ws_base_of(base_url);
    push_str(&mut url, "/app-benchmarks/");
    push_str(&mut url, table);
    push_str(&mut url, "?stream=ws");
    url
}

/// The SSE stream URL of `table`.
pub fn sse_stream_url(base_url: &str, table: &str) -> (r: String)
    ensures
        r@ == base_url@ + "/app-benchmarks/"@ + table@ + "?stream=sse"@,
{
    let mut url = String::from_str(base_url);
    push_str(&mut url, "/app-benchmarks/");
    push_str(&mut url, table);
    push_str(&mut url, "?stream=sse");
    url
}

/// The URL messages of `table` are published to.
pub fn publish_url(base_url: &str, table: &str) -> (r: String)
    ensures
        r@ == base_url@ + "/app-benchmarks/"@ + table@,
{
    let mut url = String::from_str(base_url);
    push_str(&mut url, "/app-benchmarks/");
    push_str(&mut url, table);
    url
}

/// The MQTT endpoint, MQTT over WebSocket: the WebSocket form of `base_url` and `/mqtt`.
pub fn mqtt_url(base_url: &str) -> (r: String)
    ensures
        r@ == ws_base(base_url@) + "/mqtt"@,
{
    let mut url = ws_base_of(base_url);
    push_str(&mut url, "/mqtt");
    url
}

/// The MQTT topic the messages of `table` are published under.
pub fn mqtt_topic(table: &str) -> (r: String)
    ensures
        r@ == "app-benchmarks/"@ + table@,
{
    let mut t = String::from_str("app-benchmarks/");
    push_str(&mut t, table);
    t
}

/// What a WebSocket subscriber got when it waited for the next message.
pub enum StreamEvent {
    /// A message of this many bytes.
    Message { bytes: u64 },
    /// The connection failed.
    Failed,
    /// The connection was closed.
    Closed,
    /// Nothing arrived in time.
    Idle,
}

/// Counts what a subscriber got: a message is a success of latency 0 and its size, a
/// failure an error. Returns whether to keep reading: after a message or a quiet
/// wait, not after a failure or a close.
pub fn subscriber_step(metrics: &mut Metrics, event: StreamEvent) -> (keep: bool)
    requires
        old(metrics).wf(),
    ensures
        final(metrics).wf(),
        keep == (event is Message || event is Idle),
        match event {
            StreamEvent::Message { bytes } => {
                ||| old(metrics)@.warming && final(metrics)@ == old(metrics)@
                ||| !old(metrics)@.warming && old(metrics)@.success_step(final(metrics)@, 0, bytes, 1)
            },
            StreamEvent::Failed => {
                ||| old(metrics)@.warming && final(metrics)@ == old(metrics)@
                ||| !old(metrics)@.warming && final(metrics)@ == old(metrics)@.after_error()
            },
            _ => final(metrics)@ == old(metrics)@,
        },
{
    match event {
        StreamEvent::Message { bytes } => {
            metrics.record_success(0, bytes);
            true
        },
        StreamEvent::Failed => {
            metrics.record_error();
            false
        },
        StreamEvent::Closed => false,
        StreamEvent::Idle => true,
    }
}

/// How sending one message went for a publisher.
pub enum PublishOutcome {
    /// The message of this many bytes was sent in this many microseconds.
    Sent { bytes: u64, latency_us: u64 },
    /// Sending failed.
    Failed,
}

/// Counts one publish of a fan-in test: a sent message is a success with its send
/// latency and size and a publish in the tracker; a failure is an error. Returns
/// whether the publisher keeps sending.
pub fn publish_step(metrics: &mut Metrics, tracker: &mut ConnectionTracker, outcome: PublishOutcome) -> (keep: bool)
    requires
        old(metrics).wf(),
    ensures
        final(metrics).wf(),
        keep == (outcome is Sent),
        match outcome {
            PublishOutcome::Sent { bytes, latency_us } => {
                &&& *final(tracker) == tracker_step(*old(tracker), ConnectionEvent::Publish)
                &&& {
                    ||| old(metrics)@.warming && final(metrics)@ == old(metrics)@
                    ||| !old(metrics)@.warming && old(metrics)@.success_step(final(metrics)@, latency_us, bytes, 1)
                }
            },
            PublishOutcome::Failed => {
                &&& *final(tracker) == *old(tracker)
                &&& {
                    ||| old(metrics)@.warming && final(metrics)@ == old(metrics)@
                    ||| !old(metrics)@.warming && final(metrics)@ == old(metrics)@.after_error()
                }
            },
        },
{
    match outcome {
        PublishOutcome::Sent { bytes, latency_us } => {
            metrics.record_success(latency_us, bytes);
            tracker.on_publish();
            true
        },
        PublishOutcome::Failed => {
            metrics.record_error();
            false
        },
    }
}

/// A line of the chunk starts at `p` (the chunk's start or just after a newline) and
/// begins with `data:`.
pub open spec fn data_line_at(b: Seq<u8>, p: int) -> bool {
    &&& 0 <= p
    &&& p + 5 <= b.len()
    &&& (p == 0 || b[p - 1] == 10u8)
    &&& b[p] == 100u8
    &&& b[p + 1] == 97u8
    &&& b[p + 2] == 116u8
    &&& b[p + 3] == 97u8
    &&& b[p + 4] == 58u8
}

/// The number of `data:` lines that start before position `n`.
pub open spec fn data_lines_before(b: Seq<u8>, n: int) -> nat
    decreases n,
{
    if n <= 0 {
        0
    } else {
        data_lines_before(b, n - 1) + if data_line_at(b, n - 1) {
            1nat
        } else {
            0nat
        }
    }
}

/// The number of lines of an SSE chunk that start with `data:`. Lossy UTF-8 decoding
/// keeps every ASCII byte in place, so the count is taken on the raw bytes.
pub open spec fn sse_data_lines(b: Seq<u8>) -> nat {
    data_lines_before(b, b.len() as int)
}

/// Counts the `data:` lines of an SSE chunk.
pub fn count_data_lines(chunk: &[u8]) -> (n: usize)
    ensures
        n == sse_data_lines(chunk@),
{
    let mut n: usize = 0;
    let len = chunk.len();
    for p in 0..len
        invariant
            len == chunk@.len(),
            n == data_lines_before(chunk@, p as int),
            n <= p,
    {
        if len - p >= 5 && (p == 0 || chunk[p - 1] == 10u8) && chunk[p] == 100u8 && chunk[p + 1] == 97u8
            && chunk[p + 2] == 116u8 && chunk[p + 3] == 97u8 && chunk[p + 4] == 58u8 {
            n = n + 1;
        }
    }
    n
}

/// Counts a received SSE chunk: each of its `data:` lines (at least one) as a success
/// with latency 0 and the chunk's full length in bytes.
pub fn record_sse_chunk(metrics: &mut Metrics, chunk: &[u8])
    requires
        old(metrics).wf(),
    ensures
        final(metrics).wf(),
        old(metrics)@.warming ==> final(metrics)@ == old(metrics)@,
        !old(metrics)@.warming ==> repeated_success(
            old(metrics)@,
            final(metrics)@,
            if sse_data_lines(chunk@) > 1 { sse_data_lines(chunk@) } else { 1 },
            0,
            chunk@.len() as u64,
        ),
{
    let count = count_data_lines(chunk);
    let n: usize = if count > 1 {
        count
    } else {
        1
    };
    record_successes(metrics, n as u64, 0, chunk.len() as u64);
}

/// The deliveries a fan-out test expects: every published message once per connection
/// at the peak. Reported only when there were connections and messages.
pub fn expected_deliveries(peak: u64, published: u64) -> (r: Option<u64>)
    requires
        peak * published <= u64::MAX,
    ensures
        r == if peak > 0 && published > 0 {
            Some((peak * published) as u64)
        } else {
            None::<u64>
        },
{
    if peak > 0 && published > 0 {
        Some(peak * published)
    } else {
        None
    }
}

} // verus!
