//! A small toolkit library: a connect-scan port prober core (range parsing,
//! bounded-concurrency bookkeeping, result aggregation), a regional-division
//! lookup table, and an ID-string generator.

pub mod areas;
pub mod idgen;
pub mod portscan;
mod rng;
pub mod scan;
pub mod text;
