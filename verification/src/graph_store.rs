//! The per-worker graph partition store: an immutable vector of node
//! payloads plus a mapping from global node identifiers to local indices.
//! Built once at startup, read-only afterwards.

use vstd::prelude::*;

use std::collections::HashMap;

use crate::ErrorCollection;
use crate::Status;

verus! {

broadcast use vstd::std_specs::hash::group_hash_axioms;

/// Global, stable node identifier, assigned at ingestion.
pub type NodeId = u64;

/// Position of a node within one worker's partition.
pub type NodeIdx = u32;

pub type EdgeWeight = u64;

pub type ShortestPathLen = u64;

/// Identifier of the partition/worker owning a node.
pub type WorkerId = u32;

/// Destination of an edge: either a node of this partition (by local index)
/// or a node owned by another worker (by global identifier and owner).
#[derive(Clone, Copy, Debug, PartialEq, Eq, Structural)]
pub enum NodePointer {
    Domestic(NodeIdx),
    Foreign(NodeId, WorkerId),
}

/// One outgoing edge: its weight and its destination.
#[derive(Clone, Copy, Debug, PartialEq, Eq, Structural)]
pub struct EdgePayload {
    pub weight: EdgeWeight,
    pub to: NodePointer,
}

/// One node of the partition: its global identifier and its outgoing edges.
#[derive(Debug)]
pub struct NodePayload {
    pub id: NodeId,
    pub edges: Vec<EdgePayload>,
}

/// A worker's subgraph, indexed by `NodeIdx`.
pub type SPQGraph = Vec<NodePayload>;

/// The worker's mapping from global node identifier to local index.
pub type IdIdxMapping = HashMap<NodeId, NodeIdx>;

/// The indices named by the graph's domestic edges stay inside the graph,
/// and distinct positions hold distinct node identifiers.
pub open spec fn graph_inv(g: Seq<NodePayload>) -> bool {
    &&& g.len() <= NodeIdx::MAX + 1
    &&& forall|i: int, j: int|
        0 <= i < g.len() && 0 <= j < g[i].edges.len()
            ==> (#[trigger] g[i].edges[j].to matches NodePointer::Domestic(t) ==> (t as int)
            < g.len())
    &&& forall|i: int, j: int| 0 <= i < j < g.len() ==> #[trigger] g[i].id != #[trigger] g[j].id
}

/// The mapping and the graph agree: every mapped identifier resolves to the
/// position holding it, and every node of the graph is mapped back to its
/// own position.
pub open spec fn store_wf(g: Seq<NodePayload>, m: Map<NodeId, NodeIdx>) -> bool {
    &&& graph_inv(g)
    &&& forall|id: NodeId| #[trigger]
        m.contains_key(id) ==> (m[id] as int) < g.len() && g[m[id] as int].id == id
    &&& forall|i: int| 0 <= i < g.len() ==> m.contains_key(#[trigger] g[i].id) && m[g[i].id] == i as NodeIdx
}

/// Looks a node identifier up in this partition's mapping; a node the
/// partition does not hold is not found.
pub fn get_mapping(mapping: &IdIdxMapping, id: NodeId) -> (r: Result<NodeIdx, Status>)
    ensures
        mapping@.contains_key(id) ==> r == Ok::<NodeIdx, Status>(mapping@[id]),
        !mapping@.contains_key(id) ==> r == Err::<NodeIdx, Status>(Status::NotFound),
{
    match mapping.get(&id) {
        Some(idx) => Ok(*idx),
        None => Err(ErrorCollection::cannot_find_node()),
    }
}

/// Reads one node payload of the partition.
pub fn get_node(graph: &SPQGraph, node: NodeIdx) -> (r: &NodePayload)
    requires
        (node as int) < graph@.len(),
    ensures
        *r == graph@[node as int],
{
    &graph[node as usize]
}

/// Reads the outgoing edges of one node of the partition.
pub fn edges(graph: &SPQGraph, node: NodeIdx) -> (r: &Vec<EdgePayload>)
    requires
        (node as int) < graph@.len(),
    ensures
        r@ == graph@[node as int].edges@,
{
    &graph[node as usize].edges
}

/// Appends a node with no edges yet and returns its local index.
pub fn add_node(graph: &mut SPQGraph, node_id: NodeId) -> (r: NodeIdx)
    requires
        old(graph)@.len() < NodeIdx::MAX + 1,
    ensures
        r as int == old(graph)@.len(),
        final(graph)@.len() == old(graph)@.len() + 1,
        final(graph)@[r as int].id == node_id,
        final(graph)@[r as int].edges@ == Seq::<EdgePayload>::empty(),
        forall|i: int| 0 <= i < old(graph)@.len() ==> final(graph)@[i] == old(graph)@[i],
{
    let node_idx = graph.len() as NodeIdx;
    graph.push(NodePayload { id: node_id, edges: Vec::new() });
    node_idx
}

/// Appends one outgoing edge to a node of the partition.
pub fn add_edge(graph: &mut SPQGraph, from: NodeIdx, to: NodePointer, weight: EdgeWeight)
    requires
        (from as int) < old(graph)@.len(),
    ensures
        final(graph)@.len() == old(graph)@.len(),
        final(graph)@[from as int].id == old(graph)@[from as int].id,
        final(graph)@[from as int].edges@ == old(graph)@[from as int].edges@.push(
            EdgePayload { weight, to },
        ),
        forall|i: int|
            0 <= i < old(graph)@.len() && i != from as int ==> final(graph)@[i] == old(graph)@[i],
{
    graph[from as usize].edges.push(EdgePayload { weight, to });
}

impl ErrorCollection {
    /// A node identifier that this partition's mapping does not hold.
    pub fn cannot_find_node() -> (r: Status)
        ensures
            r == Status::NotFound,
    {
        Status::NotFound
    }
}

} // verus!
