# app-benchmarks

Load generators and result handling for benchmarking a Yeti server: REST, GraphQL,
vector, blob and realtime (WebSocket fan-out and fan-in, SSE, MQTT) workloads, HdrHistogram latency metrics
with per-second snapshots, and the resources that start a benchmark, follow its phase
and report its results.

## Layout

- `src/` is the library, verified with Verus:
  - `metrics`, `histogram`: request counters and sharded latency histograms with warmup
    gating; hdrhistogram is reached through a few trusted wrappers.
  - `runner`: how a response is counted, ramp-up decisions, per-second snapshot log,
    round-robin assignment of virtual users to comma-separated targets.
  - `cli`, `text`: the load-test settings and the string handling they need.
  - `bin_load_*`: per-workload decisions, request addresses, GraphQL documents,
    token synthesis and sharding, SSE chunk counting, connection bookkeeping.
  - `mqtt`: the MQTT 3.1.1 packets a subscriber sends and the framing of what it
    receives.
  - `benchmark_runner`, `runner_resource`, `history`, `best_results`: the test
    catalog, the runner's state machine and start plan, run history ordering and the
    choice of each test's best run.
  - `common`, `reporter`: the error-rate gates and the write check.
- `app/` is ordinary Rust around the library: HTTP and WebSocket I/O, the async
  drivers, floating-point statistics (quantiles, throughput, CV), JSON and the
  command-line parsers.
- `tests/` exercise the library on concrete values.
