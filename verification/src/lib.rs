//! Relay fan-out and proposer-duty safety check for a PBS sidecar.
//!
//! The crate holds the decisions of the sidecar: how one relay reply is
//! classified, what is counted for it, how the replies of a relay set are
//! aggregated, and whether a claimed proposer is confirmed by the duties a
//! relay returned. Transport, clocks and serialisation are left to the caller,
//! which hands in plain values.

pub mod constants;
pub mod error;
pub mod fanout;
pub mod headers;
pub mod metrics;
pub mod mev_boost;
pub mod outcome;
pub mod proposer;
pub mod relay;
pub mod routes;
