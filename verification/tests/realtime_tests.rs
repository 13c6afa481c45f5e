use app_benchmarks::bin_load_realtime::{
    count_data_lines, mqtt_topic, mqtt_url, next_batch, publish_step, publish_url, realtime_test,
    record_sse_chunk, replace_str, sse_stream_url, subscriber_plan, subscriber_step, subscribers_to_add,
    ws_stream_url, ConnectionTracker, Protocol, PublishOutcome, StreamEvent, BATCH_SIZE,
};
use app_benchmarks::mqtt::{connect_packet, mqtt_receive_step, parse_frame, subscribe_packet, FrameHead, MqttStep};
use app_benchmarks::cli::BenchArgs;
use app_benchmarks::metrics::Metrics;

fn args(vus: u64, start: u64, step: u64, max: u64) -> BenchArgs {
    BenchArgs {
        test: "ws".to_string(),
        duration: 30,
        vus,
        base_url: "https://localhost".to_string(),
        auth: "admin:admin123".to_string(),
        warmup: 5,
        mode: "standard".to_string(),
        start_vus: start,
        step_vus: step,
        step_interval: 5,
        max_vus: max,
        report_url: "https://localhost".to_string(),
        status_file: None,
    }
}

#[test]
fn realtime_test_names() {
    let ws = realtime_test("ws").unwrap();
    assert!(matches!(ws.protocol, Protocol::WebSocket) && !ws.is_ramp);
    let wr = realtime_test("ws-ramp").unwrap();
    assert!(matches!(wr.protocol, Protocol::WebSocket) && wr.is_ramp);
    let sse = realtime_test("sse").unwrap();
    assert!(matches!(sse.protocol, Protocol::Sse) && !sse.is_ramp);
    let sr = realtime_test("sse-ramp").unwrap();
    assert!(matches!(sr.protocol, Protocol::Sse) && sr.is_ramp);
    let wp = realtime_test("ws-publish").unwrap();
    assert!(matches!(wp.protocol, Protocol::WebSocket) && wp.publish && !wp.is_ramp);
    let mq = realtime_test("mqtt").unwrap();
    assert!(matches!(mq.protocol, Protocol::Mqtt) && !mq.publish && !mq.is_ramp);
    assert!(realtime_test("WS").is_none());
    assert!(realtime_test("mqtt-ramp").is_none());
}

#[test]
fn each_test_streams_its_own_table() {
    let tables: Vec<&str> = ["ws", "ws-ramp", "ws-publish", "sse", "sse-ramp", "mqtt"]
        .iter()
        .map(|n| realtime_test(n).unwrap().message_table())
        .collect();
    assert_eq!(
        tables,
        vec!["WsMessage", "WsMessage", "WsPublishMessage", "SseMessage", "SseMessage", "MqttMessage"]
    );
}

#[test]
fn tracker_peak_follows_most_open_connections() {
    let mut t = ConnectionTracker::new();
    t.on_connect();
    t.on_connect();
    t.on_connect();
    t.on_disconnect();
    t.on_disconnect();
    t.on_connect();
    t.on_fail();
    t.on_publish();
    t.on_publish();
    assert_eq!(t.connected, 2);
    assert_eq!(t.peak, 3);
    assert_eq!(t.disconnected, 2);
    assert_eq!(t.failed, 1);
    assert_eq!(t.published, 2);
    assert!(t.peak >= t.connected);
}

#[test]
fn subscriber_plan_standard_and_ramp() {
    let p = subscriber_plan(&args(15_000, 10, 500, 20_000), false);
    assert_eq!((p.total_vus, p.initial_vus, p.batch_size), (15_000, 15_000, BATCH_SIZE));
    let r = subscriber_plan(&args(15_000, 10, 500, 20_000), true);
    assert_eq!((r.total_vus, r.initial_vus, r.batch_size), (20_000, 10, 500));
}

#[test]
fn initial_batches_cover_all_subscribers() {
    let initial = 5_500u64;
    let mut start = 0u64;
    let mut ends = Vec::new();
    let mut reports = Vec::new();
    let mut pauses = Vec::new();
    while let Some(b) = next_batch(start, initial) {
        assert!(b.end - start <= BATCH_SIZE);
        ends.push(b.end);
        reports.push(b.report);
        pauses.push(b.pause);
        start = b.end;
    }
    assert_eq!(ends, vec![1000, 2000, 3000, 4000, 5000, 5500]);
    assert_eq!(reports, vec![false, false, false, false, true, true]);
    assert_eq!(pauses, vec![true, true, true, true, true, false]);
    assert!(next_batch(0, 0).is_none());
}

#[test]
fn ramp_adds_step_until_total() {
    assert_eq!(subscribers_to_add(10, 100, 30), 30);
    assert_eq!(subscribers_to_add(90, 100, 30), 10);
    assert_eq!(subscribers_to_add(100, 100, 30), 0);
    assert_eq!(subscribers_to_add(150, 100, 30), 0);
}

#[test]
fn stream_urls() {
    assert_eq!(ws_stream_url("https://node1:9996", "WsMessage"), "wss://node1:9996/app-benchmarks/WsMessage?stream=ws");
    assert_eq!(ws_stream_url("http://node1", "WsMessage"), "ws://node1/app-benchmarks/WsMessage?stream=ws");
    assert_eq!(sse_stream_url("https://n", "SseMessage"), "https://n/app-benchmarks/SseMessage?stream=sse");
    assert_eq!(publish_url("https://n", "WsMessage"), "https://n/app-benchmarks/WsMessage");
    assert_eq!(mqtt_url("https://node1:9996"), "wss://node1:9996/mqtt");
    assert_eq!(mqtt_topic("MqttMessage"), "app-benchmarks/MqttMessage");
}

#[test]
fn subscriber_counts_messages_and_errors() {
    let mut m = Metrics::new();
    m.set_warming(false);
    assert!(subscriber_step(&mut m, StreamEvent::Message { bytes: 42 }));
    assert!(subscriber_step(&mut m, StreamEvent::Idle));
    assert!(!subscriber_step(&mut m, StreamEvent::Closed));
    assert_eq!((m.total_requests, m.total_bytes, m.total_errors), (1, 42, 0));
    assert!(!subscriber_step(&mut m, StreamEvent::Failed));
    assert_eq!((m.total_requests, m.total_errors, m.total_records), (2, 1, 2));
}

#[test]
fn publisher_counts_sends_and_publishes() {
    let mut m = Metrics::new();
    m.set_warming(false);
    let mut t = ConnectionTracker::new();
    assert!(publish_step(&mut m, &mut t, PublishOutcome::Sent { bytes: 90, latency_us: 1_500 }));
    assert_eq!((m.total_requests, m.total_bytes, t.published), (1, 90, 1));
    assert!(!publish_step(&mut m, &mut t, PublishOutcome::Failed));
    assert_eq!((m.total_requests, m.total_errors, t.published), (2, 1, 1));
}

#[test]
fn mqtt_packets_are_encoded() {
    assert_eq!(
        connect_packet(b"ab"),
        vec![0x10, 14, 0, 4, b'M', b'Q', b'T', b'T', 4, 2, 0, 60, 0, 2, b'a', b'b']
    );
    assert_eq!(subscribe_packet(1, b"t/x"), vec![0x82, 8, 0, 1, 0, 3, b't', b'/', b'x', 0]);
    let long = vec![b'x'; 200];
    let p = connect_packet(&long);
    assert_eq!(&p[..3], &[0x10, 212, 1][..]);
    assert_eq!(p.len(), 3 + 212);
}

#[test]
fn mqtt_frames_are_read() {
    assert!(matches!(parse_frame(&[]), FrameHead::Incomplete));
    assert!(matches!(parse_frame(&[0x30]), FrameHead::Incomplete));
    assert!(matches!(parse_frame(&[0x30, 3, 0, 1]), FrameHead::Incomplete));
    assert!(matches!(parse_frame(&[0x30, 3, 0, 1, b'a']), FrameHead::Frame { kind: 3, len: 5 }));
    assert!(matches!(parse_frame(&[0x90, 3, 0, 1, 0, 0xff]), FrameHead::Frame { kind: 9, len: 5 }));
    assert!(matches!(parse_frame(&[0x30, 0x80, 0x80, 0x80, 0x80]), FrameHead::Malformed));
    assert!(matches!(parse_frame(&[0x30, 0x80, 0x01]), FrameHead::Incomplete));
}

#[test]
fn mqtt_receive_counts_publishes() {
    let mut m = Metrics::new();
    m.set_warming(false);
    assert!(matches!(mqtt_receive_step(&mut m, &[0x30, 3, 0, 1, b'a', 0x30]), MqttStep::Consume(5)));
    assert_eq!((m.total_requests, m.total_bytes), (1, 5));
    assert!(matches!(mqtt_receive_step(&mut m, &[0x90, 3, 0, 1, 0]), MqttStep::Consume(5)));
    assert_eq!(m.total_requests, 1);
    assert!(matches!(mqtt_receive_step(&mut m, &[0x30]), MqttStep::Wait));
    assert!(matches!(mqtt_receive_step(&mut m, &[0x30, 0xff, 0xff, 0xff, 0xff]), MqttStep::Stop));
    assert_eq!((m.total_requests, m.total_errors), (2, 1));
}

#[test]
fn replace_is_left_to_right_and_non_overlapping() {
    assert_eq!(replace_str("aaaa", "aa", "b"), "bb");
    assert_eq!(replace_str("abcabc", "bc", "X"), "aXaX");
    assert_eq!(replace_str("none", "zz", "y"), "none");
    assert_eq!(replace_str("aaa", "aa", "b"), "ba");
}

#[test]
fn sse_chunks_count_data_lines() {
    assert_eq!(count_data_lines(b"data: a\ndata: b\n"), 2);
    assert_eq!(count_data_lines(b"event: x\ndata: y\r\n\r\n"), 1);
    assert_eq!(count_data_lines(b"id: 1\n  data: indented\n"), 0);
    assert_eq!(count_data_lines(b"data"), 0);
    assert_eq!(count_data_lines(b"\xffdata: x\ndata:y"), 1);
    assert_eq!(count_data_lines(b""), 0);
}

#[test]
fn sse_chunk_records_at_least_one_message() {
    let mut m = Metrics::new();
    m.set_warming(false);
    record_sse_chunk(&mut m, b"data: a\ndata: b\ndata: c\n");
    assert_eq!(m.total_requests, 3);
    assert_eq!(m.total_bytes, 3 * 24);
    record_sse_chunk(&mut m, b": keepalive\n");
    assert_eq!(m.total_requests, 4);
}
