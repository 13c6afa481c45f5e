//! MQTT 3.1.1 framing for the MQTT fan-out test: the CONNECT and SUBSCRIBE packets a
//! subscriber sends, the fixed header of the packets it receives, and how a received
//! packet is counted.

use vstd::prelude::*;
use crate::metrics::Metrics;

verus! {

/// The largest remaining length MQTT encodes (four length bytes).
pub const MAX_REMAINING: u32 = 268_435_455;

/// The PUBLISH packet type.
pub const PUBLISH: u8 = 3;

/// The remaining-length encoding: seven bits per byte, least significant group first,
/// the high bit set on every byte but the last.
pub open spec fn encode_length(n: nat) -> Seq<u8>
    decreases n,
{
    if n < 128 {
        seq![n as u8]
    } else {
        seq![(n % 128 + 128) as u8] + encode_length(n / 128)
    }
}

/// The value of length bytes, least significant group first.
pub open spec fn length_value(b: Seq<u8>) -> nat
    decreases b.len(),
{
    if b.len() == 0 {
        0
    } else {
        (b[0] % 128) as nat + 128 * length_value(b.skip(1))
    }
}

/// The number of length bytes at the start of `b`: up to and including the first byte
/// without the continuation bit, reading at most `budget` bytes; `None` when no such
/// byte is among them.
pub open spec fn length_end(b: Seq<u8>, budget: nat) -> Option<nat>
    decreases budget,
{
    if budget == 0 || b.len() == 0 {
        None
    } else if b[0] < 128 {
        Some(1)
    } else {
        match length_end(b.skip(1), (budget - 1) as nat) {
            Some(k) => Some(k + 1),
            None => None,
        }
    }
}

/// The buffer starts with a fixed header whose length runs past four bytes.
pub open spec fn is_malformed(buf: Seq<u8>) -> bool {
    &&& buf.len() >= 5
    &&& forall|i: int| 1 <= i < 5 ==> buf[i] >= 128
}

/// The length of the whole packet at the start of `buf`, once all of it has arrived.
pub open spec fn frame_len(buf: Seq<u8>) -> Option<nat> {
    if buf.len() == 0 {
        None
    } else {
        match length_end(buf.skip(1), 4) {
            Some(k) => {
                let total = 1 + k + length_value(buf.skip(1).take(k as int));
                if buf.len() >= total {
                    Some(total)
                } else {
                    None
                }
            },
            None => None,
        }
    }
}

/// Two bytes, most significant first.
pub open spec fn u16_be(n: nat) -> Seq<u8> {
    seq![(n / 256) as u8, (n % 256) as u8]
}

/// CONNECT with a clean session, a keep-alive of 60 seconds and the client ID.
pub open spec fn connect_packet_spec(client_id: Seq<u8>) -> Seq<u8> {
    seq![16u8] + encode_length(12 + client_id.len()) + seq![0u8, 4u8, 77u8, 81u8, 84u8, 84u8, 4u8, 2u8, 0u8, 60u8]
        + u16_be(client_id.len()) + client_id
}

/// SUBSCRIBE to one topic at QoS 0.
pub open spec fn subscribe_packet_spec(packet_id: u16, topic: Seq<u8>) -> Seq<u8> {
    seq![130u8] + encode_length(5 + topic.len()) + u16_be(packet_id as nat) + u16_be(topic.len()) + topic
        + seq![0u8]
}

/// `128` to the power `n`.
pub open spec fn pow128(n: nat) -> nat
    decreases n,
{
    if n == 0 {
        1
    } else {
        128 * pow128((n - 1) as nat)
    }
}

proof fn lemma_encode_len(n: nat, k: nat)
    requires
        k >= 1,
        n < pow128(k),
    ensures
        1 <= encode_length(n).len() <= k,
    decreases n,
{
    if n >= 128 {
        assert(k >= 2) by {
            if k == 1 {
                assert(pow128(0) == 1);
            }
        }
        assert(n / 128 < pow128((k - 1) as nat)) by (nonlinear_arith)
            requires
                n < pow128(k),
                pow128(k) == 128 * pow128((k - 1) as nat),
        ;
        lemma_encode_len(n / 128, (k - 1) as nat);
    }
}

/// A remaining length reads back as written: the encoding of `n` is ended within its
/// own bytes, whatever follows, and its bytes give back `n`.
pub proof fn lemma_length_reads_back(n: nat, tail: Seq<u8>, budget: nat)
    requires
        encode_length(n).len() <= budget,
    ensures
        length_end(encode_length(n) + tail, budget) == Some(encode_length(n).len()),
        length_value(encode_length(n)) == n,
    decreases n,
{
    let e = encode_length(n);
    let s = e + tail;
    if n < 128 {
        assert(s[0] == n as u8);
        assert(e.skip(1) =~= Seq::<u8>::empty());
        assert(length_value(e.skip(1)) == 0);
        assert((n as u8) % 128 == n);
    } else {
        let r = encode_length(n / 128);
        assert(e =~= seq![(n % 128 + 128) as u8] + r);
        assert(s.skip(1) =~= r + tail);
        assert(e.skip(1) =~= r);
        lemma_length_reads_back(n / 128, tail, (budget - 1) as nat);
        assert(e[0] == (n % 128 + 128) as u8);
        assert(((n % 128 + 128) as u8) % 128 == n % 128);
        assert(n == n % 128 + 128 * (n / 128)) by (nonlinear_arith);
    }
}

/// A packet built with an encoded length reads back as one whole packet of that length.
pub proof fn lemma_packet_reads_back(first: u8, n: nat, body: Seq<u8>, rest: Seq<u8>)
    requires
        n <= MAX_REMAINING,
        body.len() == n,
    ensures
        frame_len(seq![first] + encode_length(n) + body + rest) == Some(
            1 + encode_length(n).len() + n,
        ),
{
    let e = encode_length(n);
    let buf = seq![first] + e + body + rest;
    assert(pow128(4) == 268_435_456) by { reveal_with_fuel(pow128, 5); }
    lemma_encode_len(n, 4);
    assert(buf.skip(1) =~= e + (body + rest));
    lemma_length_reads_back(n, body + rest, 4);
    assert(buf.skip(1).take(e.len() as int) =~= e);
}

/// The fixed header at the start of a received buffer.
pub enum FrameHead {
    /// More bytes are needed before the packet is complete.
    Incomplete,
    /// The length field runs past four bytes.
    Malformed,
    /// A whole packet of this type and length (header included) is there.
    Frame { kind: u8, len: usize },
}

/// `length_end` finds the first byte without the continuation bit.
proof fn lemma_length_end_at(b: Seq<u8>, m: nat, i: nat)
    requires
        m <= i < 4,
        i < b.len(),
        b[i as int] < 128,
        forall|j: int| m <= j < i ==> b[j] >= 128,
    ensures
        length_end(b.skip(m as int), (4 - m) as nat) == Some((i + 1 - m) as nat),
    decreases i - m,
{
    if m < i {
        assert(b.skip(m as int).skip(1) =~= b.skip((m + 1) as int));
        lemma_length_end_at(b, m + 1, i);
    }
}

/// `length_end` finds nothing when every byte it may read has the continuation bit.
proof fn lemma_length_end_none(b: Seq<u8>, m: nat, i: nat)
    requires
        m <= i <= 4,
        m <= b.len(),
        i == 4 || i >= b.len(),
        forall|j: int| m <= j < i && j < b.len() ==> b[j] >= 128,
    ensures
        length_end(b.skip(m as int), (4 - m) as nat) is None,
    decreases i - m,
{
    let t = b.skip(m as int);
    if m < i && m < b.len() {
        assert(t.skip(1) =~= b.skip((m + 1) as int));
        assert(t[0] == b[m as int]);
        lemma_length_end_none(b, m + 1, i);
        assert((4 - m - 1) as nat == (4 - (m + 1)) as nat);
    } else if m >= b.len() {
        assert(t.len() == 0);
    }
}

/// Reads the fixed header at the start of `buf`.
pub fn parse_frame(buf: &[u8]) -> (r: FrameHead)
    ensures
        match r {
            FrameHead::Malformed => is_malformed(buf@),
            FrameHead::Incomplete => !is_malformed(buf@) && frame_len(buf@) is None,
            FrameHead::Frame { kind, len } => {
                &&& frame_len(buf@) == Some(len as nat)
                &&& kind == buf@[0] / 16
            },
        },
{
    let n = buf.len();
    if n == 0 {
        return FrameHead::Incomplete;
    }
    let ghost rest = buf@.skip(1);
    let mut i: usize = 0;
    while i < 4 && i + 1 < n && buf[i + 1] >= 128
        invariant
            i <= 4,
            n == buf@.len(),
            n >= 1,
            rest == buf@.skip(1),
            forall|j: int| 0 <= j < i ==> rest[j] >= 128,
            i <= rest.len(),
        decreases 4 - i,
    {
        i = i + 1;
    }
    if i == 4 {
        proof {
            lemma_length_end_none(rest, 0, 4);
            assert(rest.skip(0) =~= rest);
            assert forall|j: int| 1 <= j < 5 implies buf@[j] >= 128 by {
                assert(rest[j - 1] == buf@[j]);
            }
        }
        return FrameHead::Malformed;
    }
    if i + 1 >= n {
        proof {
            lemma_length_end_none(rest, 0, i as nat);
            assert(rest.skip(0) =~= rest);
        }
        return FrameHead::Incomplete;
    }
    let k = i + 1;
    proof {
        lemma_length_end_at(rest, 0, i as nat);
        assert(rest.skip(0) =~= rest);
        assert(!is_malformed(buf@)) by {
            assert(rest[i as int] == buf@[i + 1]);
        }
    }
    let mut v: u64 = 0;
    let mut j: usize = k;
    proof {
        assert(rest.subrange(k as int, k as int) =~= Seq::<u8>::empty());
        lemma_pow128_mono(0, 4);
    }
    while j > 0
        invariant
            j <= k <= 4,
            k < n,
            n == buf@.len(),
            rest == buf@.skip(1),
            v == length_value(rest.subrange(j as int, k as int)),
            v < pow128((k - j) as nat),
            pow128((k - j) as nat) <= pow128(4),
        decreases j,
    {
        let ghost old_v = v;
        j = j - 1;
        let d = buf[j + 1] % 128;
        proof {
            let s = rest.subrange(j as int, k as int);
            assert(s[0] == buf@[j + 1]);
            assert(s.skip(1) =~= rest.subrange(j + 1, k as int));
            assert(pow128((k - j) as nat) == 128 * pow128((k - j - 1) as nat));
            assert(pow128(4) == 268_435_456) by { reveal_with_fuel(pow128, 5); }
            if k - j < 4 {
                assert(pow128((k - j) as nat) <= pow128(4)) by {
                    lemma_pow128_mono((k - j) as nat, 4);
                }
            }
        }
        v = v * 128 + (d as u64);
    }
    proof {
        assert(rest.subrange(0, k as int) =~= rest.take(k as int));
        assert(pow128(4) == 268_435_456) by { reveal_with_fuel(pow128, 5); }
    }
    let total = 1 + (k as u64) + v;
    if total <= n as u64 {
        FrameHead::Frame { kind: buf[0] / 16, len: total as usize }
    } else {
        FrameHead::Incomplete
    }
}

proof fn lemma_pow128_mono(a: nat, b: nat)
    requires
        a <= b,
    ensures
        pow128(a) <= pow128(b),
    decreases b,
{
    if a < b {
        lemma_pow128_mono(a, (b - 1) as nat);
        assert(pow128((b - 1) as nat) >= 1) by {
            lemma_pow128_pos((b - 1) as nat);
        }
    }
}

proof fn lemma_pow128_pos(a: nat)
    ensures
        pow128(a) >= 1,
    decreases a,
{
    if a > 0 {
        lemma_pow128_pos((a - 1) as nat);
    }
}

fn push_bytes(out: &mut Vec<u8>, b: &[u8])
    ensures
        final(out)@ == old(out)@ + b@,
{
    let ghost start = out@;
    for i in 0..b.len()
        invariant
            out@ == start + b@.take(i as int),
    {
        out.push(b[i]);
        proof {
            assert(b@.take(i + 1) =~= b@.take(i as int).push(b@[i as int]));
        }
    }
    proof {
        assert(b@.take(b@.len() as int) =~= b@);
    }
}

/// Appends the remaining-length encoding of `n`.
fn push_length(out: &mut Vec<u8>, n: u32)
    requires
        n <= MAX_REMAINING,
    ensures
        final(out)@ == old(out)@ + encode_length(n as nat),
{
    let ghost start = out@;
    let mut x = n;
    proof {
        assert(start + encode_length(n as nat) =~= out@ + encode_length(x as nat));
    }
    while x >= 128
        invariant
            out@ + encode_length(x as nat) == start + encode_length(n as nat),
        decreases x,
    {
        let ghost before = out@;
        let byte = (x % 128 + 128) as u8;
        out.push(byte);
        proof {
            assert(encode_length(x as nat) == seq![byte] + encode_length((x / 128) as nat));
            assert(before + encode_length(x as nat) =~= out@ + encode_length((x / 128) as nat));
        }
        x = x / 128;
    }
    out.push(x as u8);
    proof {
        assert(encode_length(x as nat) == seq![x as u8]);
    }
}

fn push_u16(out: &mut Vec<u8>, n: u16)
    ensures
        final(out)@ == old(out)@ + u16_be(n as nat),
{
    out.push((n / 256) as u8);
    out.push((n % 256) as u8);
    proof {
        assert(final(out)@ =~= old(out)@ + u16_be(n as nat));
    }
}

/// The CONNECT packet of a subscriber whose client ID has these bytes.
pub fn connect_packet(client_id: &[u8]) -> (p: Vec<u8>)
    requires
        client_id@.len() <= 65535,
    ensures
        p@ == connect_packet_spec(client_id@),
{
    let len = client_id.len();
    let mut p: Vec<u8> = Vec::new();
    p.push(16u8);
    push_length(&mut p, (12 + len) as u32);
    push_bytes(&mut p, &[0u8, 4u8, 77u8, 81u8, 84u8, 84u8, 4u8, 2u8, 0u8, 60u8]);
    push_u16(&mut p, len as u16);
    push_bytes(&mut p, client_id);
    proof {
        assert(p@ =~= connect_packet_spec(client_id@));
    }
    p
}

/// The SUBSCRIBE packet for the topic with these bytes, at QoS 0.
pub fn subscribe_packet(packet_id: u16, topic: &[u8]) -> (p: Vec<u8>)
    requires
        topic@.len() <= 65535,
    ensures
        p@ == subscribe_packet_spec(packet_id, topic@),
{
    let len = topic.len();
    let mut p: Vec<u8> = Vec::new();
    p.push(130u8);
    push_length(&mut p, (5 + len) as u32);
    push_u16(&mut p, packet_id);
    push_u16(&mut p, len as u16);
    push_bytes(&mut p, topic);
    p.push(0u8);
    proof {
        assert(p@ =~= subscribe_packet_spec(packet_id, topic@));
    }
    p
}

/// What a subscriber does with the start of its receive buffer.
pub enum MqttStep {
    /// Wait for more bytes.
    Wait,
    /// The stream is broken: count an error and stop.
    Stop,
    /// Drop this many bytes, a whole packet, and go on.
    Consume(usize),
}

/// Counts the packet at the start of `buf`: a whole PUBLISH is a message of latency 0
/// and the packet's size, any other whole packet is skipped, a malformed header is an
/// error that ends the subscription.
pub fn mqtt_receive_step(metrics: &mut Metrics, buf: &[u8]) -> (step: MqttStep)
    requires
        old(metrics).wf(),
    ensures
        final(metrics).wf(),
        match step {
            MqttStep::Wait => !is_malformed(buf@) && frame_len(buf@) is None && final(metrics)@ == old(metrics)@,
            MqttStep::Stop => is_malformed(buf@) && {
                ||| old(metrics)@.warming && final(metrics)@ == old(metrics)@
                ||| !old(metrics)@.warming && final(metrics)@ == old(metrics)@.after_error()
            },
            MqttStep::Consume(n) => {
                &&& frame_len(buf@) == Some(n as nat)
                &&& buf@[0] / 16 == PUBLISH ==> {
                    ||| old(metrics)@.warming && final(metrics)@ == old(metrics)@
                    ||| !old(metrics)@.warming && old(metrics)@.success_step(final(metrics)@, 0, n as u64, 1)
                }
                &&& buf@[0] / 16 != PUBLISH ==> final(metrics)@ == old(metrics)@
            },
        },
{
    match parse_frame(buf) {
        FrameHead::Incomplete => MqttStep::Wait,
        FrameHead::Malformed => {
            metrics.record_error();
            MqttStep::Stop
        },
        FrameHead::Frame { kind, len } => {
            if kind == PUBLISH {
                metrics.record_success(0, len as u64);
            }
            MqttStep::Consume(len)
        },
    }
}

} // verus!
