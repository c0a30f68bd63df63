//! The wire messages of the round protocol, as plain values. The schema is
//! transport-agnostic: a caller may carry these over any channel; in-process
//! exchanges pass them directly.

use vstd::prelude::*;

use crate::graph_store::NodeId;
use crate::graph_store::ShortestPathLen;
use crate::graph_store::WorkerId;
use crate::query_processor::QueryId;

verus! {

/// A reference to a node together with the worker owning it.
#[derive(Clone, Copy, Debug, PartialEq, Eq, Structural)]
pub struct NodePointerMessage {
    pub worker_id: WorkerId,
    pub node_id: NodeId,
}

/// The descriptor opening each round's outbound stream: which query the
/// round belongs to, the node the whole search is after, and the smallest
/// distance still pending on any other worker (absent on a first round or
/// when no other worker holds pending nodes).
#[derive(Clone, Copy, Debug, PartialEq, Eq, Structural)]
pub struct QueryData {
    pub query_id: QueryId,
    pub final_node_id: NodeId,
    pub smallest_foreign_node: Option<ShortestPathLen>,
}

/// A node this worker owns, discovered from another partition in an earlier
/// round; its parent points back into the partition that discovered it, or
/// is absent for the query's start node.
#[derive(Clone, Copy, Debug, PartialEq, Eq, Structural)]
pub struct NewDomesticNode {
    pub node_id: NodeId,
    pub shortest_path_len: ShortestPathLen,
    pub parent_node: Option<NodePointerMessage>,
}

/// One outbound message of a round: the descriptor first, then the new
/// domestic nodes.
#[derive(Clone, Copy, Debug, PartialEq, Eq, Structural)]
pub enum RequestDjikstra {
    QueryData(QueryData),
    NewDomesticNode(NewDomesticNode),
}

/// A node of another partition that this worker's relaxation reached, with
/// the domestic parent it was reached from.
#[derive(Clone, Copy, Debug, PartialEq, Eq, Structural)]
pub struct NewForeignNode {
    pub this_node: NodePointerMessage,
    pub parent_node_id: NodeId,
    pub shortest_path_len: ShortestPathLen,
}

/// The watermark a worker reports when it stops expanding because its
/// smallest pending distance cannot yet be proven optimal.
#[derive(Clone, Copy, Debug, PartialEq, Eq, Structural)]
pub struct SmallestDomesticNode {
    pub shortest_path_len: ShortestPathLen,
}

/// The terminal message: the final node was reached at this distance.
#[derive(Clone, Copy, Debug, PartialEq, Eq, Structural)]
pub struct Success {
    pub node_id: NodeId,
    pub shortest_path_len: ShortestPathLen,
}

/// One inbound message of a round: zero or more new foreign nodes, then at
/// most one of the watermark or the success report.
#[derive(Clone, Copy, Debug, PartialEq, Eq, Structural)]
pub enum ResponseDjikstra {
    NewForeignNode(NewForeignNode),
    SmallestDomesticNode(SmallestDomesticNode),
    Success(Success),
}

/// The presence check sent to every worker at query start.
#[derive(Clone, Copy, Debug, PartialEq, Eq, Structural)]
pub struct NodeIds {
    pub node_from_id: NodeId,
    pub node_to_id: NodeId,
}

/// A worker's answer to the presence check.
#[derive(Clone, Copy, Debug, PartialEq, Eq, Structural)]
pub struct ArePresent {
    pub node_from_present: bool,
    pub node_to_present: bool,
}

/// Tells a worker to drop everything it holds for a query.
#[derive(Clone, Copy, Debug, PartialEq, Eq, Structural)]
pub struct ForgetQueryMessage {
    pub query_id: QueryId,
}

/// Asks a worker to replay parent pointers starting from one of its nodes.
#[derive(Clone, Copy, Debug, PartialEq, Eq, Structural)]
pub struct RequestBacktrack {
    pub query_id: QueryId,
    pub from_node: NodeId,
}

/// One hop of a backtracking walk: the predecessor node, tagged with its
/// owning worker when the walk must continue on another partition.
#[derive(Clone, Copy, Debug, PartialEq, Eq, Structural)]
pub struct ResponseBacktrack {
    pub node_id: NodeId,
    pub worker_id: Option<WorkerId>,
}

/// The answer to a whole path query: the distance (absent when the
/// destination is unreachable) and the query identifier under which the
/// retained state can later be backtracked or forgotten (absent for the
/// trivial same-node query, which retains no state).
#[derive(Clone, Copy, Debug, PartialEq, Eq, Structural)]
pub struct QueryResults {
    pub shortest_path_len: Option<ShortestPathLen>,
    pub query_id: Option<QueryId>,
}

/// One node of a reconstructed path, tagged with the worker owning the hop.
#[derive(Clone, Copy, Debug, PartialEq, Eq, Structural)]
pub struct Node {
    pub node_id: NodeId,
    pub worker_id: WorkerId,
}

} // verus!
