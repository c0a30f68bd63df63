//! A distributed shortest-path query engine.
//!
//! A graph is statically partitioned across workers, each holding only its
//! own subgraph. A coordinating executer drives a distributed variant of
//! Dijkstra's algorithm: it repeatedly asks exactly one worker to expand its
//! local frontier, collects newly discovered foreign nodes, and decides which
//! worker to contact next from a global minimum-distance estimate, without
//! ever materializing the whole graph anywhere. Path backtracking replays
//! recorded parent pointers, possibly crossing worker boundaries.
//!
//! This crate holds the verified core: the graph partition store, the
//! per-worker query processor with its bounded relaxation step, the
//! busy/ready registries that enforce at most one in-flight operation per
//! query, the executer-side coordinator with its scheduling loop, and the
//! backtracking walk. Transport (how rounds travel between processes) is a
//! caller concern; every round here is a plain exchange of message values.

use vstd::prelude::*;

pub mod executer_service;
pub mod graph_receiver;
pub mod graph_store;
pub mod messages;
pub mod proto_helpers;
pub mod query_processor;
pub mod query_processor_holder;
pub mod query_realizator;
pub mod queries_manager;
pub mod query_coordinator;
pub mod worker_service;
pub mod workers_connection;

verus! {

/// The error kinds surfaced by the engine: an endpoint or parent that no
/// partition holds, a malformed or misused request, a broken internal
/// invariant, and a worker reference that resolves to no worker.
#[derive(Clone, Copy, Debug, PartialEq, Eq, Structural)]
pub enum Status {
    NotFound,
    InvalidArgument,
    Internal,
    OutOfRange,
}

/// Namespace for the error constructors that the components share.
pub struct ErrorCollection {}

} // verus!
