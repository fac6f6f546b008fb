//! A load-generation engine: workers make calls against a service as fast
//! as a rate limiter lets them, until a budget of calls or of time is used
//! up, and what the calls come to is counted and summed up in a report.
//!
//! The run and its pace:
//! - [`bench_run`]: the budget of a run, and what a worker does next.
//! - [`rate_limiter`]: permits at a steady rate.
//!
//! The metrics:
//! - [`metrics`]: the counters of all calls and of each operation.
//! - [`counters`], [`aggregate`]: the counters as values of the contracts,
//!   and what holds of them after any number of calls.
//! - [`latency`], [`buckets`], [`rank`]: the histogram of latencies, its
//!   percentiles and truncated means.
//! - [`names`]: names in the order of first sight, found by a hashed index.
//! - [`builder`]: what a call came to, put together field by field.
//!
//! The report:
//! - [`report`], [`status_summary`]: rates, the summary of status labels and
//!   the summary of latencies.
//! - [`render`], [`text`]: the report as text.
//!
//! A benchmark of an object store:
//! - [`gcs_bench_adapter`]: which call a worker makes, and what its answer
//!   comes to.
//! - [`mini_client`], [`mini_client_wrapper`]: the calls and answers of the
//!   storage client as plain values.
//!
//! The clock is read in [`clock`]. Whoever changes a run, a rate limiter or
//! the metrics has them alone while it does (`&mut`): workers that share
//! them take turns, and every contract holds of each turn.

pub mod aggregate;
pub mod bench_run;
pub mod buckets;
pub mod builder;
pub mod clock;
pub mod counters;
pub mod gcs_bench_adapter;
pub mod latency;
pub mod metrics;
pub mod mini_client;
pub mod mini_client_wrapper;
pub mod names;
pub mod rank;
pub mod rate_limiter;
pub mod render;
pub mod report;
pub mod status_summary;
pub mod text;
