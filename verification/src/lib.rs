//! A metrics relay: it records the outcome of polling a Push Gateway's
//! text-format metrics endpoint, caches the most recent successful fetch,
//! and re-serves a combined view (its own liveness gauge, a
//! gateway-reachability gauge, and the forwarded metric lines).

pub mod cache;
pub mod forward;
pub mod exporter;
pub mod render;
pub mod routes;
pub mod text;
