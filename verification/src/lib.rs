//! Keeps DNS records pointed at the host's current public IPv4 address.
//!
//! The crate holds the verified core of a dynamic-DNS daemon: the polling
//! state machine that detects address changes, the FIFO dispatcher that
//! carries change events, and the reconciliation algorithm that drives DNS
//! records toward the new address despite transient failures. Network and
//! timer plumbing live outside the crate and feed plain values in.

pub mod addr;
pub mod cli;
pub mod client;
pub mod dispatcher;
pub mod logger;
pub mod models;
pub mod mqtt;
pub mod poller;
pub mod reconciler;
