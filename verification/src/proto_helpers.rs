//! Constructors for the round protocol's messages.

use vstd::prelude::*;

use crate::graph_store::NodeId;
use crate::graph_store::ShortestPathLen;
use crate::graph_store::WorkerId;
use crate::messages::NewDomesticNode;
use crate::messages::NewForeignNode;
use crate::messages::NodePointerMessage;
use crate::messages::QueryData;
use crate::messages::RequestDjikstra;
use crate::messages::ResponseDjikstra;
use crate::messages::SmallestDomesticNode;
use crate::messages::Success;

verus! {

/// Packs a newly reached foreign node into an inbound message.
pub fn new_foreign_node(
    node_id: NodeId,
    worker_id: WorkerId,
    parent_node_id: NodeId,
    shortest_path_len: ShortestPathLen,
) -> (r: ResponseDjikstra)
    ensures
        r == ResponseDjikstra::NewForeignNode(
            NewForeignNode {
                this_node: NodePointerMessage { worker_id, node_id },
                parent_node_id,
                shortest_path_len,
            },
        ),
{
    ResponseDjikstra::NewForeignNode(
        NewForeignNode {
            this_node: NodePointerMessage { worker_id, node_id },
            parent_node_id,
            shortest_path_len,
        },
    )
}

/// Packs the watermark of a round that stopped at the foreign bound.
pub fn domestic_smallest_node(shortest_path_len: ShortestPathLen) -> (r: ResponseDjikstra)
    ensures
        r == ResponseDjikstra::SmallestDomesticNode(SmallestDomesticNode { shortest_path_len }),
{
    ResponseDjikstra::SmallestDomesticNode(SmallestDomesticNode { shortest_path_len })
}

/// Packs the terminal success message.
pub fn success(node_id: NodeId, shortest_path_len: ShortestPathLen) -> (r: ResponseDjikstra)
    ensures
        r == ResponseDjikstra::Success(Success { node_id, shortest_path_len }),
{
    ResponseDjikstra::Success(Success { node_id, shortest_path_len })
}

/// Packs a round's descriptor into an outbound message.
pub fn pack_query_data(data: QueryData) -> (r: RequestDjikstra)
    ensures
        r == RequestDjikstra::QueryData(data),
{
    RequestDjikstra::QueryData(data)
}

/// Packs one new domestic node into an outbound message.
pub fn pack_new_domestic_node(node: NewDomesticNode) -> (r: RequestDjikstra)
    ensures
        r == RequestDjikstra::NewDomesticNode(node),
{
    RequestDjikstra::NewDomesticNode(node)
}

} // verus!
