//! A verified core for a parallel benchmark runner.
//!
//! The crate models the decision logic of a contest benchmark harness: an
//! instance set with collision-free short names, per-job outcome
//! classification, the timeout escalation of a solver child process, a
//! bounded-parallelism permit limiter, an upload aggregator with per-digest reply
//! fan-out, and an append-only summary log in line-delimited JSON.
//!
//! The contest's solution validator is an external collaborator: the
//! library states how its verdicts classify, and the application shell
//! links it in. A build without it reports every check as a system error.

pub mod aggregator;
pub mod arguments;
pub mod counters;
pub mod digest;
pub mod display;
pub mod executor;
pub mod instances;
pub mod jobs;
pub mod paths;
pub mod processor;
pub mod profile;
pub mod protocol;
pub mod rundir;
pub mod scheduler;
pub mod strutil;
pub mod summary;
