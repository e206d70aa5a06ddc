//! Lifecycle management for ephemeral GPU nodes.
//!
//! - `state`: the collection of nodes and clusters and its keyed operations.
//! - `record`: the collection as the store file writes it, instants as RFC 3339 text.
//! - `time`: durations, instants and time left, read and written through chrono and humantime.
//! - `config`: provider credentials by provider name.
//! - `provider`: the capabilities of a cloud backend and the selection of one by name.
//! - `lambda`: requests to and answers from the Lambda Cloud API.
//! - `readiness`: the bounded poll that waits for a new instance to become usable.
//! - `node`: create, delete and expiry changes, the remote side always first.
//! - `daemon`: the reconciliation tick that tears down expired nodes.

pub mod config;
pub mod daemon;
pub mod error;
pub mod lambda;
pub mod node;
pub mod provider;
pub mod readiness;
pub mod record;
pub mod state;
pub mod time;
