//! The decisions of a latency-aware load balancer for HTTP JSON-RPC
//! upstreams: which upstream serves the next request, how latencies are
//! booked, when a request is retried or given up, and how health probes move
//! upstreams between the active list and the poverty list.
//!
//! Nothing here touches the network: callers send the requests and probes,
//! hold the locks, and hand in what came back.

pub mod algo;
pub mod aptos;
mod clock;
pub mod document;
pub mod error;
pub mod forward;
pub mod health;
pub mod processing;
pub mod request;
pub mod rpc;
pub mod sanitize;
pub mod settings;
pub mod setup;
pub mod text;
