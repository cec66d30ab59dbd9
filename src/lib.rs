//! Cluster state reconciliation for a key-value store sidecar: the membership
//! directory and its quorum arithmetic, the per-node state model, the peer
//! state aggregation with its seeder choice, and the handler decisions of the
//! sidecar's HTTP surface.

pub mod members;
pub mod order;
pub mod state;
pub mod config;
pub mod membership;
pub mod routes;
