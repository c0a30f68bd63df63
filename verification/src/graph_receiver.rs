//! Building one worker's partition from an ingestion stream's plain
//! records: one node or one edge at a time, keeping the store consistent.
//! The stream itself (where the records come from) is a collaborator
//! concern; these functions are what each received record does to the
//! store.

use vstd::prelude::*;

use crate::graph_store::add_edge;
use crate::graph_store::add_node;
use crate::graph_store::get_mapping;
use crate::graph_store::store_wf;
use crate::graph_store::EdgePayload;
use crate::graph_store::EdgeWeight;
use crate::graph_store::IdIdxMapping;
use crate::graph_store::NodeId;
use crate::graph_store::NodeIdx;
use crate::graph_store::NodePointer;
use crate::graph_store::SPQGraph;
use crate::graph_store::WorkerId;
use crate::ErrorCollection;
use crate::Status;

verus! {

broadcast use vstd::std_specs::hash::group_hash_axioms;

/// Adds one received node to the partition and maps its identifier to its
/// new local index. A node identifier seen twice, or a partition grown past
/// the index type, is an internal error and changes nothing.
pub fn receive_node(graph: &mut SPQGraph, mapping: &mut IdIdxMapping, node_id: NodeId) -> (r:
    Result<NodeIdx, Status>)
    requires
        store_wf(old(graph)@, old(mapping)@),
    ensures
        store_wf(final(graph)@, final(mapping)@),
        old(mapping)@.contains_key(node_id) || old(graph)@.len() == NodeIdx::MAX + 1 ==> r
            == Err::<NodeIdx, Status>(Status::Internal) && final(graph)@ == old(graph)@
            && final(mapping)@ == old(mapping)@,
        !old(mapping)@.contains_key(node_id) && old(graph)@.len() < NodeIdx::MAX + 1 ==> (r
            matches Ok(idx) && idx as int == old(graph)@.len() && final(graph)@.len() == old(
            graph,
        )@.len() + 1 && final(graph)@[idx as int].id == node_id && final(graph)@[idx as int].edges@
            == Seq::<EdgePayload>::empty() && final(mapping)@ == old(mapping)@.insert(node_id, idx)
            && (forall|i: int| 0 <= i < old(graph)@.len() ==> final(graph)@[i] == old(graph)@[i])),
{
    if mapping.contains_key(&node_id) {
        return Err(ErrorCollection::node_received_twice());
    }
    if graph.len() > NodeIdx::MAX as usize {
        return Err(ErrorCollection::partition_full());
    }
    let node_idx = add_node(graph, node_id);
    mapping.insert(node_id, node_idx);
    Ok(node_idx)
}

/// Adds one received edge to the partition. Its source must already be a
/// node of this partition; its destination is domestic when no owning
/// worker is named, otherwise foreign. A source or domestic destination
/// this partition does not hold is not found, and changes nothing.
pub fn receive_edge(
    graph: &mut SPQGraph,
    mapping: &IdIdxMapping,
    node_from_id: NodeId,
    node_to_id: NodeId,
    node_to_worker_id: Option<WorkerId>,
    weight: EdgeWeight,
) -> (r: Result<(), Status>)
    requires
        store_wf(old(graph)@, mapping@),
    ensures
        store_wf(final(graph)@, mapping@),
        !mapping@.contains_key(node_from_id) ==> r == Err::<(), Status>(Status::NotFound)
            && final(graph)@ == old(graph)@,
        mapping@.contains_key(node_from_id) && node_to_worker_id is None && !mapping@.contains_key(
            node_to_id,
        ) ==> r == Err::<(), Status>(Status::NotFound) && final(graph)@ == old(graph)@,
        mapping@.contains_key(node_from_id) && (node_to_worker_id is Some || mapping@.contains_key(
            node_to_id,
        )) ==> ({
            let from = mapping@[node_from_id] as int;
            let to = match node_to_worker_id {
                Some(worker_id) => NodePointer::Foreign(node_to_id, worker_id),
                None => NodePointer::Domestic(mapping@[node_to_id]),
            };
            &&& r is Ok
            &&& final(graph)@.len() == old(graph)@.len()
            &&& final(graph)@[from].edges@ == old(graph)@[from].edges@.push(
                EdgePayload { weight, to },
            )
            &&& (forall|i: int|
                0 <= i < old(graph)@.len() && i != from ==> final(graph)@[i] == old(graph)@[i])
        }),
{
    let node_from_idx = match get_mapping(mapping, node_from_id) {
        Ok(idx) => idx,
        Err(e) => {
            return Err(e);
        },
    };
    // If an owning worker is named, the edge points to a foreign node that
    // belongs to some other worker.
    let pointer_to = match node_to_worker_id {
        Some(worker_id) => NodePointer::Foreign(node_to_id, worker_id),
        None => NodePointer::Domestic(
            match get_mapping(mapping, node_to_id) {
                Ok(idx) => idx,
                Err(e) => {
                    return Err(e);
                },
            },
        ),
    };
    add_edge(graph, node_from_idx, pointer_to, weight);
    Ok(())
}

impl ErrorCollection {
    /// The ingestion stream named one node identifier twice.
    pub fn node_received_twice() -> (r: Status)
        ensures
            r == Status::Internal,
    {
        Status::Internal
    }

    /// The partition cannot hold more nodes than its index type counts.
    pub fn partition_full() -> (r: Status)
        ensures
            r == Status::Internal,
    {
        Status::Internal
    }
}

} // verus!
