//! Verified core of the benchmark suite: latency metrics, ramp planning, the
//! runner's state handling, and the text the load generators build.

pub mod histogram;
pub mod text;
pub mod metrics;
pub mod runner;
pub mod cli;
pub mod common;
pub mod reporter;
pub mod bin_load_realtime;
pub mod bin_load_streamlock;
pub mod mqtt;
pub mod bin_load_vector;
pub mod bin_load_blob;
pub mod bin_load_graphql;
pub mod bin_load_rest;
pub mod benchmark_runner;
pub mod runner_resource;
pub mod history;
pub mod best_results;
