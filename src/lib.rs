//! Reconciliation engine of a merge-request bot: policy evaluation, status
//! report rendering, comment reconciliation, caching and pagination planning.
//! Network access, clocks and decoding of remote entities are supplied by the
//! caller; everything that decides what to do is verified here.

pub mod text;
pub mod types;
pub mod pattern;
pub mod config;
pub mod clock;
pub mod snapshot;
pub mod cache;
pub mod reconcile;
pub mod report;
pub mod client;
pub mod schedule;
pub mod phpunit;
