//! A verified core for a single-writer order poller.
//!
//! The library models the pipeline of a collector that periodically receives
//! a bounded batch of recent orders, decides which of them are new relative
//! to a baseline of previously observed orders, and appends the new ones to
//! an append-only store.  The pieces with real design content live here:
//! the order data model and its equality, the envelope interpretation of the
//! upstream response, the store bootstrap/append protocol, and the
//! change-detection state machine.  Network transport, command-line
//! handling and logging stay outside the verified boundary.

pub mod args;
pub mod envelope;
pub mod order;
pub mod poller;
pub mod store;
