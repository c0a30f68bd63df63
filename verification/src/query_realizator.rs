//! One worker-side round: drain the inbound messages into the processor,
//! run one bounded relaxation pass, and park the processor again; and the
//! worker-side backtracking walk over recorded parent pointers.

use vstd::prelude::*;

use crate::graph_store::get_node;
use crate::graph_store::store_wf;
use crate::graph_store::IdIdxMapping;
use crate::graph_store::NodeId;
use crate::graph_store::NodeIdx;
use crate::graph_store::NodePayload;
use crate::graph_store::SPQGraph;
use crate::graph_store::WorkerId;
use crate::messages::NewDomesticNode;
use crate::messages::NodePointerMessage;
use crate::messages::QueryData;
use crate::messages::RequestBacktrack;
use crate::messages::RequestDjikstra;
use crate::messages::ResponseBacktrack;
use crate::messages::ResponseDjikstra;
use crate::proto_helpers;
use crate::query_processor::edge_target_id;
use crate::query_processor::parent_hop_consistent;
use crate::query_processor::parent_map_extends;
use crate::query_processor::processor_inv;
use crate::query_processor::responses_wf;
use crate::query_processor::NodeParent;
use crate::query_processor::ProcessorModel;
use crate::query_processor::QueryProcessor;
use crate::query_processor::QueueElement;
use crate::query_processor::StepResult;
use crate::query_processor_holder::checkout_refused;
use crate::query_processor_holder::holder_keyed;
use crate::query_processor_holder::QueryProcessorEntry;
use crate::query_processor_holder::QueryProcessorHolder;
use crate::query_processor::QueryId;
use crate::ErrorCollection;
use crate::Status;

verus! {

/// The parent pointer an inbound node carries: absent for the query's start
/// node, otherwise a hop back into the partition that discovered the node.
pub open spec fn merge_parent(parent_node: Option<NodePointerMessage>) -> NodeParent {
    match parent_node {
        None => NodeParent::Root,
        Some(p) => NodeParent::Foreign(p.node_id, p.worker_id),
    }
}

/// Merging one not-yet-visited inbound node: mark it visited under its
/// carried parent and queue its local index at the carried distance.
pub open spec fn merge_domestic(
    s: ProcessorModel,
    node: NewDomesticNode,
    m: Map<NodeId, NodeIdx>,
) -> ProcessorModel {
    ProcessorModel {
        parent_map: s.parent_map.insert(node.node_id, merge_parent(node.parent_node)),
        queue: s.queue.push(
            QueueElement { idx: m[node.node_id], shortest: node.shortest_path_len },
        ),
        dist: s.dist.insert(node.node_id, node.shortest_path_len),
        ..s
    }
}

/// Folding a round's remaining outbound messages into the processor: each
/// new domestic node is merged (already-visited ones are ignored), a node
/// this partition does not hold stops the round as not found, and a second
/// descriptor mid-stream is a protocol violation.
pub open spec fn apply_update_spec(
    s: ProcessorModel,
    msgs: Seq<RequestDjikstra>,
    m: Map<NodeId, NodeIdx>,
) -> (ProcessorModel, Result<(), Status>)
    decreases msgs.len(),
{
    if msgs.len() == 0 {
        (s, Ok(()))
    } else {
        match msgs[0] {
            RequestDjikstra::QueryData(_) => (s, Err(Status::InvalidArgument)),
            RequestDjikstra::NewDomesticNode(node) => {
                if !m.contains_key(node.node_id) {
                    (s, Err(Status::NotFound))
                } else if s.parent_map.contains_key(node.node_id) {
                    apply_update_spec(s, msgs.drop_first(), m)
                } else {
                    apply_update_spec(merge_domestic(s, node, m), msgs.drop_first(), m)
                }
            },
        }
    }
}

/// The merge fold preserves the processor's well-formedness and touches
/// neither the relaxed history nor the query's identity.
pub proof fn lemma_apply_update_spec_inv(
    s: ProcessorModel,
    msgs: Seq<RequestDjikstra>,
    g: Seq<NodePayload>,
    m: Map<NodeId, NodeIdx>,
)
    requires
        store_wf(g, m),
        processor_inv(s, g),
    ensures
        ({
            let s1 = apply_update_spec(s, msgs, m).0;
            &&& processor_inv(s1, g)
            &&& s1.query_id == s.query_id
            &&& s1.final_node == s.final_node
            &&& s1.relaxed == s.relaxed
            &&& s1.smallest_foreign == s.smallest_foreign
            &&& parent_map_extends(s.parent_map, s1.parent_map)
        }),
    decreases msgs.len(),
{
    if msgs.len() == 0 {
    } else {
        match msgs[0] {
            RequestDjikstra::QueryData(_) => {},
            RequestDjikstra::NewDomesticNode(node) => {
                if !m.contains_key(node.node_id) {
                } else if s.parent_map.contains_key(node.node_id) {
                    lemma_apply_update_spec_inv(s, msgs.drop_first(), g, m);
                } else {
                    let s1 = merge_domestic(s, node, m);
                    assert forall|i: int, j: int| 0 <= i < j < s1.queue.len() implies #[trigger] s1
                        .queue[i].idx != #[trigger] s1.queue[j].idx by {
                        if j == s1.queue.len() - 1 {
                            assert(s.parent_map.contains_key(g[s.queue[i].idx as int].id));
                        }
                    }
                    assert forall|id: NodeId| #[trigger]
                        s1.parent_map.contains_key(id) implies crate::query_processor::parent_hop_consistent(
                        s1,
                        g,
                        id,
                    ) by {
                        if id != node.node_id {
                            assert(s.parent_map.contains_key(id));
                            assert(crate::query_processor::parent_hop_consistent(s, g, id));
                        }
                    }
                    assert forall|i: int| 0 <= i < s1.queue.len() implies !s1.relaxed.contains(
                        g[#[trigger] s1.queue[i].idx as int].id,
                    ) by {
                        if i == s1.queue.len() - 1 {
                            if s1.relaxed.contains(g[s1.queue[i].idx as int].id) {
                                let k = choose|k: int|
                                    0 <= k < s.relaxed.len() && s.relaxed[k] == g[s1.queue[i].idx as int].id;
                                assert(s.parent_map.contains_key(s.relaxed[k]));
                            }
                        }
                    }
                    lemma_apply_update_spec_inv(s1, msgs.drop_first(), g, m);
                    let s_end = apply_update_spec(s1, msgs.drop_first(), m).0;
                    assert forall|id: NodeId| #[trigger]
                        s.parent_map.contains_key(id) implies s_end.parent_map.contains_key(id)
                        && s_end.parent_map[id] == s.parent_map[id] by {
                        assert(s1.parent_map.contains_key(id));
                        assert(s1.parent_map[id] == s.parent_map[id]);
                    }
                }
            },
        }
    }
}

/// Drains a round's outbound messages into the processor: sets the foreign
/// bound the coordinator supplied, then merges each new domestic node in
/// stream order. A duplicate descriptor mid-stream is a protocol violation.
pub fn apply_update(
    data: &QueryData,
    processor: &mut QueryProcessor,
    inbound: &Vec<RequestDjikstra>,
    mapping: &IdIdxMapping,
) -> (r: Result<(), Status>)
    ensures
        ({
            let s0 = ProcessorModel {
                smallest_foreign: data.smallest_foreign_node,
                ..old(processor)@
            };
            let folded = apply_update_spec(s0, inbound@, mapping@);
            final(processor)@ == folded.0 && r == folded.1
        }),
        r matches Err(e) ==> (e == Status::NotFound || e == Status::InvalidArgument),
{
    processor.update_smallest_foreign(data.smallest_foreign_node);
    let ghost s0 = processor@;
    proof {
        assert(inbound@.skip(0) =~= inbound@);
    }
    let mut i: usize = 0;
    while i < inbound.len()
        invariant
            0 <= i <= inbound@.len(),
            s0 == (ProcessorModel {
                smallest_foreign: data.smallest_foreign_node,
                ..old(processor)@
            }),
            apply_update_spec(s0, inbound@, mapping@) == apply_update_spec(
                processor@,
                inbound@.skip(i as int),
                mapping@,
            ),
        decreases inbound@.len() - i,
    {
        let ghost pre = processor@;
        proof {
            assert(inbound@.skip(i as int)[0] == inbound@[i as int]);
            assert(inbound@.skip(i as int).drop_first() =~= inbound@.skip(i as int + 1));
        }
        match &inbound[i] {
            RequestDjikstra::NewDomesticNode(node) => {
                let parent = match node.parent_node {
                    None => NodeParent::Root,
                    Some(p) => NodeParent::Foreign(p.node_id, p.worker_id),
                };
                match processor.add_new_domestic_node(
                    node.node_id,
                    node.shortest_path_len,
                    parent,
                    mapping,
                ) {
                    Ok(()) => {},
                    Err(e) => {
                        return Err(e);
                    },
                }
            },
            RequestDjikstra::QueryData(_) => {
                return Err(ErrorCollection::duplicated_query_data());
            },
        }
        i = i + 1;
    }
    proof {
        assert(inbound@.skip(inbound@.len() as int) =~= Seq::<RequestDjikstra>::empty());
    }
    Ok(())
}

/// How one round's parked processor relates to the state the merge left:
/// it is well-formed, still this query's, keeps the final node, and its
/// visited set and relaxed history only grew from the merged state.
pub open spec fn round_parked(
    p: QueryProcessor,
    merged: ProcessorModel,
    g: Seq<NodePayload>,
) -> bool {
    &&& p.inv(g)
    &&& p@.query_id == merged.query_id
    &&& p@.final_node == merged.final_node
    &&& parent_map_extends(merged.parent_map, p@.parent_map)
    &&& merged.relaxed.is_prefix_of(p@.relaxed)
}

/// A round's reply: either the single success message, naming the parked
/// processor's final node at its recorded distance, or the unfinished
/// pass's messages — every foreign discovery hop-consistent with the parked
/// state, and a watermark exactly when the parked frontier is non-empty,
/// last, equal to the smallest remaining frontier distance and above the
/// parked foreign bound.
pub open spec fn round_reply(p: QueryProcessor, g: Seq<NodePayload>, v: Seq<ResponseDjikstra>) -> bool {
    ||| (v.len() == 1 && (v[0] matches ResponseDjikstra::Success(s) && {
        &&& s.node_id == p@.final_node
        &&& p@.dist.contains_key(s.node_id)
        &&& p@.dist[s.node_id] == s.shortest_path_len
    }))
    ||| ({
        &&& responses_wf(v)
        &&& forall|i: int| 0 <= i < v.len() ==> !(#[trigger] v[i] matches ResponseDjikstra::Success(_))
        &&& (forall|i: int|
            0 <= i < v.len() ==> crate::query_processor::foreign_msg_consistent(
                p@,
                g,
                #[trigger] v[i],
            ))
        &&& (p@.queue.len() > 0 ==> {
            &&& p@.smallest_foreign is Some
            &&& v.len() > 0
            &&& (v.last() matches ResponseDjikstra::SmallestDomesticNode(m) && {
                &&& p@.smallest_foreign.unwrap() < m.shortest_path_len
                &&& (exists|i: int|
                    0 <= i < p@.queue.len() && (#[trigger] p@.queue[i].shortest)
                        == m.shortest_path_len)
                &&& (forall|i: int|
                    0 <= i < p@.queue.len() ==> m.shortest_path_len <= (
                    #[trigger] p@.queue[i].shortest))
            })
        })
        &&& (p@.queue.len() == 0 ==> forall|i: int|
            0 <= i < v.len() ==> !((#[trigger] v[i])
                matches ResponseDjikstra::SmallestDomesticNode(_)))
    })
}

/// Which error a round reports: exactly the merge fold's own error, or the
/// relaxation pass's internal overflow when the merge went through.
pub open spec fn round_error_source(
    merged_result: Result<(), Status>,
    e: Status,
) -> bool {
    &&& (merged_result matches Err(fe) ==> e == fe)
    &&& (merged_result is Ok ==> e == Status::Internal)
}

/// Runs one whole round against a checked-out processor: merge the inbound
/// nodes, run one relaxation pass, park the processor again, and reply with
/// either the pass's messages or the single success message. On an error the
/// registry is left untouched (still busy) for the caller to clean up.
pub fn update_djikstra(
    data: &QueryData,
    processor: QueryProcessor,
    inbound: &Vec<RequestDjikstra>,
    graph: &SPQGraph,
    mapping: &IdIdxMapping,
    holder: &mut QueryProcessorHolder,
) -> (r: Result<Vec<ResponseDjikstra>, Status>)
    requires
        store_wf(graph@, mapping@),
        processor.inv(graph@),
        processor@.query_id == data.query_id,
        checkout_refused(old(holder)@, data.query_id),
    ensures
        ({
            let s0 = ProcessorModel {
                smallest_foreign: data.smallest_foreign_node,
                ..processor@
            };
            let folded = apply_update_spec(s0, inbound@, mapping@);
            match r {
                Ok(v) => {
                    &&& folded.1 is Ok
                    &&& exists|p: QueryProcessor|
                        final(holder)@ == old(holder)@.insert(
                            data.query_id,
                            QueryProcessorEntry::Ready(p),
                        ) && #[trigger] round_parked(p, folded.0, graph@) && round_reply(
                            p,
                            graph@,
                            v@,
                        )
                },
                Err(e) => {
                    &&& final(holder)@ == old(holder)@
                    &&& round_error_source(folded.1, e)
                    &&& (e == Status::NotFound || e == Status::InvalidArgument || e
                        == Status::Internal)
                },
            }
        }),
{
    let mut proc = processor;
    match apply_update(data, &mut proc, inbound, mapping) {
        Ok(()) => {},
        Err(e) => {
            return Err(e);
        },
    }
    proof {
        lemma_apply_update_spec_inv(
            ProcessorModel { smallest_foreign: data.smallest_foreign_node, ..processor@ },
            inbound@,
            graph@,
            mapping@,
        );
    }
    let (proc, step) = proc.djikstra_step(graph);
    let result = match step {
        Ok(result) => result,
        Err(e) => {
            return Err(e);
        },
    };
    let ghost merged = apply_update_spec(
        ProcessorModel { smallest_foreign: data.smallest_foreign_node, ..processor@ },
        inbound@,
        mapping@,
    ).0;
    match result {
        StepResult::Finished(node_id, shortest) => {
            // The processor is parked in ready state so a later backtrack
            // request can replay the path.
            holder.put_back_query(proc);
            let mut out: Vec<ResponseDjikstra> = Vec::new();
            out.push(proto_helpers::success(node_id, shortest));
            proof {
                assert(round_parked(proc, merged, graph@));
                assert(round_reply(proc, graph@, out@));
            }
            Ok(out)
        },
        StepResult::Remaining(responses) => {
            holder.put_back_query(proc);
            proof {
                assert(round_parked(proc, merged, graph@));
                assert(round_reply(proc, graph@, responses@));
            }
            Ok(responses)
        },
    }
}

/// Walking parent pointers from a node: the walk yields one predecessor per
/// hop, stops silently at the query's start node, hands the walk over to the
/// owning worker on a cross-partition hop, fails when the current node has
/// no recorded parent, and fails as an internal error when the pointers form
/// a chain longer than the visited set (which well-formed state never does).
pub open spec fn backtrack_walk_spec(
    pm: Map<NodeId, NodeParent>,
    g: Seq<NodePayload>,
    current: NodeId,
    fuel: nat,
) -> Result<(Seq<ResponseBacktrack>, Option<(NodeId, WorkerId)>), Status>
    decreases fuel,
{
    if !pm.contains_key(current) {
        Err(Status::NotFound)
    } else {
        match pm[current] {
            NodeParent::Root => Ok((Seq::empty(), None::<(NodeId, WorkerId)>)),
            NodeParent::Foreign(id, w) => Ok(
                (seq![ResponseBacktrack { node_id: id, worker_id: Some(w) }], Some((id, w))),
            ),
            NodeParent::Domestic(idx) => {
                if fuel == 0 {
                    Err(Status::Internal)
                } else {
                    let pid = g[idx as int].id;
                    match backtrack_walk_spec(pm, g, pid, (fuel - 1) as nat) {
                        Ok(pair) => Ok(
                            (seq![ResponseBacktrack { node_id: pid, worker_id: None }] + pair.0, pair.1),
                        ),
                        Err(e) => Err(e),
                    }
                }
            },
        }
    }
}

/// A chain of nodes, destination first, in which each consecutive pair is
/// linked by an edge of the partition leading from the later node to the
/// earlier one, and the edges' weights sum to the given total.
pub open spec fn is_backtrack_chain(g: Seq<NodePayload>, nodes: Seq<NodeId>, total: int) -> bool
    decreases nodes.len(),
{
    if nodes.len() == 0 {
        false
    } else if nodes.len() == 1 {
        total == 0
    } else {
        exists|pidx: int, j: int|
            0 <= pidx < g.len() && #[trigger] g[pidx].id == nodes[1] && 0 <= j < g[pidx].edges.len()
                && edge_target_id(g, #[trigger] g[pidx].edges[j]) == nodes[0]
                && is_backtrack_chain(g, nodes.drop_first(), total - g[pidx].edges[j].weight)
    }
}

/// Backtracking reconstructs hops whose summed edge weights equal the
/// reported distance, within one partition: a walk over a well-formed
/// processor that ends at a node recorded as the path's start yields a
/// chain of edges of this partition whose total weight is the backtracked
/// node's recorded distance minus the start node's. A query seeded at
/// distance zero therefore backtracks, on its own worker, a chain weighing
/// exactly the recorded distance of the node it starts from.
pub proof fn lemma_backtrack_weights_telescope(
    s: ProcessorModel,
    g: Seq<NodePayload>,
    x: NodeId,
    fuel: nat,
)
    requires
        processor_inv(s, g),
    ensures
        match backtrack_walk_spec(s.parent_map, g, x, fuel) {
            Ok(pair) => pair.1 is None ==> {
                let nodes = seq![x] + pair.0.map_values(|item: ResponseBacktrack| item.node_id);
                &&& s.dist.contains_key(x)
                &&& s.dist.contains_key(nodes.last())
                &&& s.parent_map.contains_key(nodes.last())
                &&& s.parent_map[nodes.last()] is Root
                &&& is_backtrack_chain(g, nodes, s.dist[x] - s.dist[nodes.last()])
            },
            Err(_) => true,
        },
    decreases fuel,
{
    if !s.parent_map.contains_key(x) {
    } else {
        match s.parent_map[x] {
            NodeParent::Root => {
                assert(seq![x] + Seq::<ResponseBacktrack>::empty().map_values(
                    |item: ResponseBacktrack| item.node_id,
                ) =~= seq![x]);
            },
            NodeParent::Foreign(_, _) => {},
            NodeParent::Domestic(pidx) => {
                if fuel == 0 {
                } else {
                    let pid = g[pidx as int].id;
                    lemma_backtrack_weights_telescope(s, g, pid, (fuel - 1) as nat);
                    match backtrack_walk_spec(s.parent_map, g, pid, (fuel - 1) as nat) {
                        Ok(pair) => {
                            if pair.1 is None {
                                let to_id = |item: ResponseBacktrack| item.node_id;
                                let inner_nodes = seq![pid] + pair.0.map_values(to_id);
                                let outer_items = seq![
                                    ResponseBacktrack { node_id: pid, worker_id: None },
                                ] + pair.0;
                                let outer_nodes = seq![x] + outer_items.map_values(to_id);
                                assert(outer_nodes.drop_first() =~= inner_nodes);
                                assert(outer_nodes.last() == inner_nodes.last());
                                assert(parent_hop_consistent(s, g, x));
                                let j = choose|j: int|
                                    0 <= j < g[pidx as int].edges.len() && edge_target_id(
                                        g,
                                        #[trigger] g[pidx as int].edges[j],
                                    ) == x && s.dist[x] == s.dist[pid] + g[
                                        pidx as int
                                    ].edges[j].weight;
                                let total = s.dist[x] - s.dist[inner_nodes.last()];
                                assert(is_backtrack_chain(
                                    g,
                                    outer_nodes.drop_first(),
                                    total - g[pidx as int].edges[j].weight,
                                ));
                                assert(is_backtrack_chain(g, outer_nodes, total));
                            }
                        },
                        Err(_) => {},
                    }
                }
            },
        }
    }
}

/// Appends an already-walked prefix in front of a walk's outcome.
pub open spec fn walk_concat(
    prefix: Seq<ResponseBacktrack>,
    r: Result<(Seq<ResponseBacktrack>, Option<(NodeId, WorkerId)>), Status>,
) -> Result<(Seq<ResponseBacktrack>, Option<(NodeId, WorkerId)>), Status> {
    match r {
        Ok(pair) => Ok((prefix + pair.0, pair.1)),
        Err(e) => Err(e),
    }
}

/// Replays parent pointers from a node of this partition, yielding the
/// walk's hops in order.
fn backtrack_walk(processor: &QueryProcessor, graph: &SPQGraph, from_node: NodeId) -> (r: Result<
    Vec<ResponseBacktrack>,
    Status,
>)
    requires
        processor.inv(graph@),
    ensures
        ({
            let walked = backtrack_walk_spec(
                processor@.parent_map,
                graph@,
                from_node,
                processor@.parent_map.dom().len(),
            );
            match r {
                Ok(v) => walked matches Ok(pair) && pair.0 == v@,
                Err(e) => walked == Err::<
                    (Seq<ResponseBacktrack>, Option<(NodeId, WorkerId)>),
                    Status,
                >(e),
            }
        }),
{
    let ghost pm = processor@.parent_map;
    let fuel0 = processor.visited_count();
    let mut fuel = fuel0;
    let mut current = from_node;
    let mut out: Vec<ResponseBacktrack> = Vec::new();
    loop
        invariant
            processor.inv(graph@),
            pm == processor@.parent_map,
            fuel <= fuel0,
            fuel0 == pm.dom().len(),
            walk_concat(out@, backtrack_walk_spec(pm, graph@, current, fuel as nat))
                == backtrack_walk_spec(pm, graph@, from_node, fuel0 as nat),
        decreases fuel,
    {
        let ghost pre_out = out@;
        match processor.get_parent(current) {
            None => {
                return Err(ErrorCollection::cannot_find_parent());
            },
            Some(NodeParent::Root) => {
                proof {
                    assert(pre_out + Seq::<ResponseBacktrack>::empty() =~= pre_out);
                }
                return Ok(out);
            },
            Some(NodeParent::Foreign(id, w)) => {
                out.push(ResponseBacktrack { node_id: id, worker_id: Some(w) });
                proof {
                    assert(pre_out + seq![ResponseBacktrack { node_id: id, worker_id: Some(w) }]
                        =~= out@);
                }
                return Ok(out);
            },
            Some(NodeParent::Domestic(idx)) => {
                if fuel == 0 {
                    return Err(ErrorCollection::parent_chain_too_long());
                }
                fuel = fuel - 1;
                let pid = get_node(graph, idx).id;
                out.push(ResponseBacktrack { node_id: pid, worker_id: None });
                proof {
                    let rest = backtrack_walk_spec(pm, graph@, pid, fuel as nat);
                    if rest is Ok {
                        let pair = rest->Ok_0;
                        assert(pre_out + (seq![ResponseBacktrack { node_id: pid, worker_id: None }]
                            + pair.0) =~= out@ + pair.0);
                    }
                }
                current = pid;
            },
        }
    }
}

/// Answers a backtrack request: checks the query's processor out, replays
/// parent pointers from the requested node, and parks the processor again —
/// the registry is left exactly as it was. A missing parent aborts the walk
/// with an error rather than producing a partial path silently; an unknown
/// query is not found, and a busy one is a caller error.
pub fn get_backtrack_stream(
    request: RequestBacktrack,
    graph: &SPQGraph,
    holder: &mut QueryProcessorHolder,
) -> (r: Result<Vec<ResponseBacktrack>, Status>)
    requires
        holder_keyed(old(holder)@),
        forall|qid: QueryId| #[trigger]
            old(holder)@.contains_key(qid) ==> (old(
                holder,
            )@[qid] matches QueryProcessorEntry::Ready(p) ==> p.inv(graph@)),
    ensures
        final(holder)@ == old(holder)@,
        !old(holder)@.contains_key(request.query_id) ==> r == Err::<
            Vec<ResponseBacktrack>,
            Status,
        >(Status::NotFound),
        checkout_refused(old(holder)@, request.query_id) ==> r == Err::<
            Vec<ResponseBacktrack>,
            Status,
        >(Status::InvalidArgument),
        old(holder)@.contains_key(request.query_id) ==> match old(holder)@[request.query_id] {
            QueryProcessorEntry::Busy => true,
            QueryProcessorEntry::Ready(p) => ({
                let walked = backtrack_walk_spec(
                    p@.parent_map,
                    graph@,
                    request.from_node,
                    p@.parent_map.dom().len(),
                );
                match r {
                    Ok(v) => walked matches Ok(pair) && pair.0 == v@,
                    Err(e) => walked == Err::<
                        (Seq<ResponseBacktrack>, Option<(NodeId, WorkerId)>),
                        Status,
                    >(e),
                }
            }),
        },
{
    let processor = match holder.get_existing(request.query_id) {
        Ok(Some(processor)) => processor,
        Ok(None) => {
            return Err(ErrorCollection::query_not_found());
        },
        Err(e) => {
            return Err(e);
        },
    };
    let result = backtrack_walk(&processor, graph, request.from_node);
    holder.put_back_query(processor);
    proof {
        assert(final(holder)@ =~= old(holder)@);
    }
    result
}

impl ErrorCollection {
    /// No parent is recorded for the current node: the state was forgotten,
    /// or the query never reached that node.
    pub fn cannot_find_parent() -> (r: Status)
        ensures
            r == Status::NotFound,
    {
        Status::NotFound
    }

    /// A second descriptor appeared in the middle of a round's stream.
    pub fn duplicated_query_data() -> (r: Status)
        ensures
            r == Status::InvalidArgument,
    {
        Status::InvalidArgument
    }

    /// A backtrack was requested for a query this worker does not hold.
    pub fn query_not_found() -> (r: Status)
        ensures
            r == Status::NotFound,
    {
        Status::NotFound
    }

    /// Parent pointers formed a chain longer than the visited set.
    pub fn parent_chain_too_long() -> (r: Status)
        ensures
            r == Status::Internal,
    {
        Status::Internal
    }
}

} // verus!
