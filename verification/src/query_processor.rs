//! The worker-side local search state of one query: the visited set with its
//! parent pointers, the min-priority frontier queue, and the bounded
//! relaxation step that expands the frontier until it can no longer be
//! proven optimal relative to the other partitions.

use vstd::prelude::*;
use vstd::set_lib::lemma_len_subset;
use vstd::set_lib::lemma_int_range;
use vstd::set_lib::set_int_range;

use std::collections::HashMap;

use crate::graph_store::EdgePayload;
use crate::graph_store::IdIdxMapping;
use crate::graph_store::NodeId;
use crate::graph_store::NodeIdx;
use crate::graph_store::NodePayload;
use crate::graph_store::NodePointer;
use crate::graph_store::SPQGraph;
use crate::graph_store::ShortestPathLen;
use crate::graph_store::WorkerId;
use crate::graph_store::graph_inv;
use crate::graph_store::get_mapping;
use crate::messages::QueryData;
use crate::messages::ResponseDjikstra;
use crate::proto_helpers;
use crate::Status;

verus! {

broadcast use vstd::std_specs::hash::group_hash_axioms;

/// Identifies one path request; assigned by the executer.
pub type QueryId = u32;

/// One recorded hop of the eventual path: the query's start node, a
/// predecessor inside this partition, or a predecessor owned by another
/// worker.
#[derive(Clone, Copy, Debug, PartialEq, Eq, Structural)]
pub enum NodeParent {
    Root,
    Domestic(NodeIdx),
    Foreign(NodeId, WorkerId),
}

/// One frontier entry: a local node index and its best known distance.
#[derive(Clone, Copy, Debug, PartialEq, Eq, Structural)]
pub struct QueueElement {
    pub idx: NodeIdx,
    pub shortest: ShortestPathLen,
}

impl QueueElement {
    pub fn new(idx: NodeIdx, shortest: ShortestPathLen) -> (r: Self)
        ensures
            r == (QueueElement { idx, shortest }),
    {
        QueueElement { idx, shortest }
    }
}

/// The mathematical model of a query processor. Beside the executable
/// state it carries two histories that exist only for specification: the
/// sequence of relaxed nodes, and the distance at which each visited node
/// was first discovered.
pub struct ProcessorModel {
    pub parent_map: Map<NodeId, NodeParent>,
    pub queue: Seq<QueueElement>,
    pub smallest_foreign: Option<ShortestPathLen>,
    pub final_node: NodeId,
    pub query_id: QueryId,
    pub relaxed: Seq<NodeId>,
    pub dist: Map<NodeId, ShortestPathLen>,
}

/// Worker-side search state for one query on one worker. Persists between
/// rounds; at most one relaxation pass runs on it at a time.
pub struct QueryProcessor {
    parent_map: HashMap<NodeId, NodeParent>,
    queue: Vec<QueueElement>,
    smallest_foreign: Option<ShortestPathLen>,
    final_node: NodeId,
    query_id: QueryId,
    relaxed: Ghost<Seq<NodeId>>,
    dist: Ghost<Map<NodeId, ShortestPathLen>>,
}

/// What one relaxation pass hands back: either the messages of an
/// unfinished round, or the final node with its distance.
#[derive(Debug)]
pub enum StepResult {
    Remaining(Vec<ResponseDjikstra>),
    Finished(NodeId, ShortestPathLen),
}

impl View for QueryProcessor {
    type V = ProcessorModel;

    closed spec fn view(&self) -> ProcessorModel {
        ProcessorModel {
            parent_map: self.parent_map@,
            queue: self.queue@,
            smallest_foreign: self.smallest_foreign,
            final_node: self.final_node,
            query_id: self.query_id,
            relaxed: self.relaxed@,
            dist: self.dist@,
        }
    }
}

/// The positions of the partition whose node the query has not visited yet.
pub open spec fn unvisited_idxs(g: Seq<NodePayload>, pm: Map<NodeId, NodeParent>) -> Set<int> {
    Set::new(|i: int| 0 <= i < g.len() && !pm.contains_key(g[i].id))
}

/// The node an edge leads to, as a global identifier.
pub open spec fn edge_target_id(g: Seq<NodePayload>, e: EdgePayload) -> NodeId {
    match e.to {
        NodePointer::Domestic(t) => g[t as int].id,
        NodePointer::Foreign(foreign_id, _) => foreign_id,
    }
}

/// A visited node's recorded hop is consistent with the recorded distances:
/// a domestic parent is itself visited, an edge leads from it to the node,
/// and the node's distance is the parent's distance plus that edge's
/// weight.
pub open spec fn parent_hop_consistent(s: ProcessorModel, g: Seq<NodePayload>, id: NodeId) -> bool {
    s.parent_map[id] matches NodeParent::Domestic(pidx) ==> {
        let pid = g[pidx as int].id;
        &&& s.parent_map.contains_key(pid)
        &&& exists|j: int|
            0 <= j < g[pidx as int].edges.len() && edge_target_id(
                g,
                #[trigger] g[pidx as int].edges[j],
            ) == id && s.dist[id] == s.dist[pid] + g[pidx as int].edges[j].weight
    }
}

/// An emitted foreign discovery is consistent with the recorded distances:
/// its domestic parent is visited, an edge of this partition leads from the
/// parent to the discovered node, and the carried distance is the node's
/// recorded distance — the parent's recorded distance plus that edge's
/// weight.
pub open spec fn foreign_msg_consistent(
    s: ProcessorModel,
    g: Seq<NodePayload>,
    v: ResponseDjikstra,
) -> bool {
    v matches ResponseDjikstra::NewForeignNode(m) ==> {
        &&& s.parent_map.contains_key(m.parent_node_id)
        &&& s.dist.contains_key(m.parent_node_id)
        &&& s.dist.contains_key(m.this_node.node_id)
        &&& s.dist[m.this_node.node_id] == m.shortest_path_len
        &&& exists|pidx: int, j: int|
            0 <= pidx < g.len() && #[trigger] g[pidx].id == m.parent_node_id && 0 <= j < g[
                pidx
            ].edges.len() && edge_target_id(g, #[trigger] g[pidx].edges[j])
                == m.this_node.node_id && m.shortest_path_len == s.dist[m.parent_node_id] + g[
                pidx
            ].edges[j].weight
    }
}

/// No two messages of one reply announce the same foreign node: a foreign
/// node is emitted at most once per pass (and, since emission marks it
/// visited and only unvisited nodes are ever emitted, at most once per
/// query).
pub open spec fn foreign_targets_distinct(v: Seq<ResponseDjikstra>) -> bool {
    forall|i: int, j: int|
        #![trigger v[i], v[j]]
        0 <= i < j < v.len() ==> match (v[i], v[j]) {
            (
                ResponseDjikstra::NewForeignNode(a),
                ResponseDjikstra::NewForeignNode(b),
            ) => a.this_node.node_id != b.this_node.node_id,
            _ => true,
        }
}

/// Entries of the visited set and of the distance record are never changed
/// or dropped once written, so message consistency survives every later
/// step of the same pass.
pub proof fn lemma_foreign_msgs_stable(
    pre: ProcessorModel,
    post: ProcessorModel,
    g: Seq<NodePayload>,
    v: Seq<ResponseDjikstra>,
)
    requires
        forall|i: int| 0 <= i < v.len() ==> foreign_msg_consistent(pre, g, #[trigger] v[i]),
        parent_map_extends(pre.parent_map, post.parent_map),
        forall|id: NodeId| #[trigger]
            pre.dist.contains_key(id) ==> post.dist.contains_key(id) && post.dist[id]
                == pre.dist[id],
    ensures
        forall|i: int| 0 <= i < v.len() ==> foreign_msg_consistent(post, g, #[trigger] v[i]),
{
    assert forall|i: int| 0 <= i < v.len() implies foreign_msg_consistent(
        post,
        g,
        #[trigger] v[i],
    ) by {
        match v[i] {
            ResponseDjikstra::NewForeignNode(m) => {
                let (pidx, j) = choose|pidx: int, j: int|
                    0 <= pidx < g.len() && #[trigger] g[pidx].id == m.parent_node_id && 0 <= j < g[
                        pidx
                    ].edges.len() && edge_target_id(g, #[trigger] g[pidx].edges[j])
                        == m.this_node.node_id && m.shortest_path_len == pre.dist[m.parent_node_id]
                        + g[pidx].edges[j].weight;
                assert(g[pidx].id == m.parent_node_id && edge_target_id(g, g[pidx].edges[j])
                    == m.this_node.node_id);
            },
            _ => {},
        }
    }
}

/// The processor's well-formedness relative to its worker's graph: every
/// queued index lies inside the partition and belongs to a visited node, no
/// node has two live queue entries, no node was ever relaxed twice, every
/// relaxed node is visited, no relaxed node is still queued, and every
/// recorded domestic parent lies inside the partition. The recorded
/// distances cover exactly the visited nodes, agree with the queued
/// distances, and are hop-consistent along every recorded domestic parent.
pub open spec fn processor_inv(s: ProcessorModel, g: Seq<NodePayload>) -> bool {
    &&& forall|i: int| 0 <= i < s.queue.len() ==> (#[trigger] s.queue[i].idx as int) < g.len()
    &&& forall|i: int|
        0 <= i < s.queue.len() ==> s.parent_map.contains_key(g[#[trigger] s.queue[i].idx as int].id)
    &&& forall|i: int, j: int|
        0 <= i < j < s.queue.len() ==> #[trigger] s.queue[i].idx != #[trigger] s.queue[j].idx
    &&& s.relaxed.no_duplicates()
    &&& forall|i: int| 0 <= i < s.relaxed.len() ==> s.parent_map.contains_key(#[trigger] s.relaxed[i])
    &&& forall|i: int|
        0 <= i < s.queue.len() ==> !s.relaxed.contains(g[#[trigger] s.queue[i].idx as int].id)
    &&& forall|id: NodeId| #[trigger]
        s.parent_map.contains_key(id) ==> (s.parent_map[id] matches NodeParent::Domestic(idx)
            ==> (idx as int) < g.len())
    &&& forall|id: NodeId| s.parent_map.contains_key(id) <==> #[trigger] s.dist.contains_key(id)
    &&& forall|i: int|
        0 <= i < s.queue.len() ==> s.dist[g[#[trigger] s.queue[i].idx as int].id]
            == s.queue[i].shortest
    &&& forall|id: NodeId| #[trigger]
        s.parent_map.contains_key(id) ==> parent_hop_consistent(s, g, id)
}

/// The parent map only ever grows, and recorded hops never change.
pub open spec fn parent_map_extends(
    pre: Map<NodeId, NodeParent>,
    post: Map<NodeId, NodeParent>,
) -> bool {
    forall|id: NodeId| #[trigger]
        pre.contains_key(id) ==> post.contains_key(id) && post[id] == pre[id]
}

/// The shape of an unfinished round's reply: no success message, and a
/// watermark only as the very last message.
pub open spec fn responses_wf(v: Seq<ResponseDjikstra>) -> bool {
    &&& forall|i: int| 0 <= i < v.len() ==> !(#[trigger] v[i] matches ResponseDjikstra::Success(_))
    &&& forall|i: int|
        0 <= i < v.len() ==> ((#[trigger] v[i] matches ResponseDjikstra::SmallestDomesticNode(_))
            ==> i == v.len() - 1)
}

/// No terminal message at all: the shape the reply has while a pass is
/// still expanding.
pub open spec fn responses_open(v: Seq<ResponseDjikstra>) -> bool {
    &&& forall|i: int| 0 <= i < v.len() ==> !(#[trigger] v[i] matches ResponseDjikstra::Success(_))
    &&& forall|i: int|
        0 <= i < v.len() ==> !(#[trigger] v[i] matches ResponseDjikstra::SmallestDomesticNode(_))
}

/// The unvisited positions form a finite set no larger than the partition.
pub proof fn lemma_unvisited_finite(g: Seq<NodePayload>, pm: Map<NodeId, NodeParent>)
    ensures
        unvisited_idxs(g, pm).finite(),
        unvisited_idxs(g, pm).len() <= g.len(),
{
    lemma_int_range(0, g.len() as int);
    assert(unvisited_idxs(g, pm).subset_of(set_int_range(0, g.len() as int)));
    lemma_len_subset(unvisited_idxs(g, pm), set_int_range(0, g.len() as int));
}

/// Visiting one more node never grows the unvisited set; visiting a node the
/// partition holds and had not visited shrinks it strictly.
pub proof fn lemma_unvisited_insert(
    g: Seq<NodePayload>,
    pm: Map<NodeId, NodeParent>,
    id: NodeId,
    p: NodeParent,
)
    ensures
        unvisited_idxs(g, pm.insert(id, p)).len() <= unvisited_idxs(g, pm).len(),
        (exists|i: int| 0 <= i < g.len() && #[trigger] g[i].id == id && !pm.contains_key(id))
            ==> unvisited_idxs(g, pm.insert(id, p)).len() < unvisited_idxs(g, pm).len(),
{
    lemma_unvisited_finite(g, pm);
    assert(unvisited_idxs(g, pm.insert(id, p)).subset_of(unvisited_idxs(g, pm)));
    lemma_len_subset(unvisited_idxs(g, pm.insert(id, p)), unvisited_idxs(g, pm));
    if exists|i: int| 0 <= i < g.len() && #[trigger] g[i].id == id && !pm.contains_key(id) {
        let i = choose|i: int| 0 <= i < g.len() && #[trigger] g[i].id == id && !pm.contains_key(id);
        assert(unvisited_idxs(g, pm).contains(i));
        assert(unvisited_idxs(g, pm.insert(id, p)).subset_of(unvisited_idxs(g, pm).remove(i)));
        lemma_len_subset(unvisited_idxs(g, pm.insert(id, p)), unvisited_idxs(g, pm).remove(i));
    }
}

/// No node is ever relaxed (popped and edge-expanded) more than once within
/// a query's lifetime on a worker: a well-formed processor's relaxed
/// history holds each node at most once, and a relaxation pass only ever
/// appends to that history.
pub proof fn lemma_no_node_relaxed_twice(p: QueryProcessor, g: Seq<NodePayload>)
    requires
        processor_inv(p@, g),
    ensures
        forall|i: int, j: int|
            0 <= i < j < p@.relaxed.len() ==> #[trigger] p@.relaxed[i] != #[trigger] p@.relaxed[j],
{
}

/// Returns the position of the frontier's minimum-distance entry: the first
/// entry holding the smallest distance, so the tie-break is pinned.
fn min_index(queue: &Vec<QueueElement>) -> (r: usize)
    requires
        queue@.len() > 0,
    ensures
        r < queue@.len(),
        forall|i: int| 0 <= i < queue@.len() ==> queue@[r as int].shortest <= #[trigger] queue@[i].shortest,
        forall|i: int| 0 <= i < r ==> queue@[r as int].shortest < #[trigger] queue@[i].shortest,
{
    let mut best: usize = 0;
    let mut i: usize = 1;
    while i < queue.len()
        invariant
            0 < i <= queue@.len(),
            best < i,
            forall|j: int| 0 <= j < i ==> queue@[best as int].shortest <= #[trigger] queue@[j].shortest,
            forall|j: int| 0 <= j < best ==> queue@[best as int].shortest < #[trigger] queue@[j].shortest,
        decreases queue@.len() - i,
    {
        if queue[i].shortest < queue[best].shortest {
            best = i;
        }
        i = i + 1;
    }
    best
}

impl QueryProcessor {
    pub open spec fn inv(&self, g: Seq<NodePayload>) -> bool {
        processor_inv(self@, g)
    }

    pub fn query_id(&self) -> (r: QueryId)
        ensures
            r == self@.query_id,
    {
        self.query_id
    }

    /// Creates the processor for a query's first contact with this worker:
    /// nothing visited, nothing queued, no foreign bound yet.
    pub fn new(data: &QueryData) -> (r: Self)
        ensures
            r@.parent_map == Map::<NodeId, NodeParent>::empty(),
            r@.queue == Seq::<QueueElement>::empty(),
            r@.smallest_foreign is None,
            r@.final_node == data.final_node_id,
            r@.query_id == data.query_id,
            r@.relaxed == Seq::<NodeId>::empty(),
            r@.dist == Map::<NodeId, ShortestPathLen>::empty(),
            forall|g: Seq<NodePayload>| #[trigger] processor_inv(r@, g),
    {
        let r = QueryProcessor {
            parent_map: HashMap::new(),
            queue: Vec::new(),
            smallest_foreign: None,
            query_id: data.query_id,
            final_node: data.final_node_id,
            relaxed: Ghost(Seq::empty()),
            dist: Ghost(Map::empty()),
        };
        proof {
            assert forall|g: Seq<NodePayload>| #[trigger] processor_inv(r@, g) by {
                assert(r@.queue.len() == 0);
                assert(r@.relaxed.len() == 0);
            }
        }
        r
    }

    /// How many nodes the query has visited on this worker.
    pub fn visited_count(&self) -> (r: usize)
        ensures
            r == self@.parent_map.dom().len(),
    {
        self.parent_map.len()
    }

    /// Reads the recorded parent pointer of a node, if the query visited it
    /// on this worker.
    pub fn get_parent(&self, id: NodeId) -> (r: Option<NodeParent>)
        ensures
            self@.parent_map.contains_key(id) ==> r == Some(self@.parent_map[id]),
            !self@.parent_map.contains_key(id) ==> r is None,
    {
        match self.parent_map.get(&id) {
            Some(parent) => Some(*parent),
            None => None,
        }
    }

    /// Replaces the foreign bound with the one the coordinator supplied for
    /// this round.
    pub fn update_smallest_foreign(&mut self, smallest_foreign: Option<ShortestPathLen>)
        ensures
            final(self)@ == (ProcessorModel { smallest_foreign, ..old(self)@ }),
    {
        self.smallest_foreign = smallest_foreign;
    }

    /// Merges one inbound node into the frontier: a node not yet visited is
    /// marked visited, its parent recorded, and its local index queued; a
    /// node already visited is ignored. A node this partition does not hold
    /// is not found.
    pub fn add_new_domestic_node(
        &mut self,
        id: NodeId,
        shortest: ShortestPathLen,
        parent: NodeParent,
        mapping: &IdIdxMapping,
    ) -> (r: Result<(), Status>)
        ensures
            !mapping@.contains_key(id) ==> r == Err::<(), Status>(Status::NotFound)
                && final(self)@ == old(self)@,
            mapping@.contains_key(id) && old(self)@.parent_map.contains_key(id) ==> r == Ok::<
                (),
                Status,
            >(()) && final(self)@ == old(self)@,
            mapping@.contains_key(id) && !old(self)@.parent_map.contains_key(id) ==> r == Ok::<
                (),
                Status,
            >(()) && final(self)@ == (ProcessorModel {
                parent_map: old(self)@.parent_map.insert(id, parent),
                queue: old(self)@.queue.push(QueueElement { idx: mapping@[id], shortest }),
                dist: old(self)@.dist.insert(id, shortest),
                ..old(self)@
            }),
    {
        let idx = match get_mapping(mapping, id) {
            Ok(idx) => idx,
            Err(e) => {
                return Err(e);
            },
        };
        if !self.parent_map.contains_key(&id) {
            self.parent_map.insert(id, parent);
            self.queue.push(QueueElement { idx, shortest });
            self.dist = Ghost(self.dist@.insert(id, shortest));
        }
        Ok(())
    }

    /// One bounded relaxation pass. Repeatedly takes the minimum-distance
    /// frontier entry and relaxes its outgoing edges; stops when the foreign
    /// bound is smaller than the smallest pending distance (emitting that
    /// distance as the watermark), when the final node is reached (ending the
    /// pass with `Finished` at once), or when the frontier empties. Every
    /// node is relaxed at most once over the processor's whole lifetime: the
    /// relaxed history only grows and stays free of duplicates. A distance
    /// sum that exceeds the distance type is an internal error, witnessed by
    /// a visited node whose recorded distance plus an outgoing edge's weight
    /// no longer fits; the processor's state up to that point is returned
    /// alongside the error.
    pub fn djikstra_step(self, graph: &SPQGraph) -> (r: (Self, Result<StepResult, Status>))
        requires
            graph_inv(graph@),
            self.inv(graph@),
        ensures
            r.0.inv(graph@),
            r.0@.query_id == self@.query_id,
            r.0@.final_node == self@.final_node,
            self@.relaxed.is_prefix_of(r.0@.relaxed),
            parent_map_extends(self@.parent_map, r.0@.parent_map),
            self@.smallest_foreign matches Some(b) ==> (r.0@.smallest_foreign matches Some(b2)
                && b2 <= b),
            self@.smallest_foreign matches Some(b) ==> forall|i: int|
                self@.relaxed.len() <= i < r.0@.relaxed.len() ==> r.0@.dist[
                    #[trigger] r.0@.relaxed[i]
                ] <= b,
            match r.1 {
                Ok(step) => {
                    let pair = (r.0, step);
                    match pair.1 {
                        StepResult::Finished(n, d) => n == self@.final_node
                            && pair.0@.dist.contains_key(n) && pair.0@.dist[n] == d,
                        StepResult::Remaining(v) => {
                            &&& responses_wf(v@)
                            &&& (pair.0@.queue.len() > 0 ==> {
                                &&& pair.0@.smallest_foreign is Some
                                &&& v@.len() > 0
                                &&& (v@.last() matches ResponseDjikstra::SmallestDomesticNode(m)
                                    && {
                                    &&& pair.0@.smallest_foreign.unwrap() < m.shortest_path_len
                                    &&& (exists|i: int|
                                        0 <= i < pair.0@.queue.len() && (
                                        #[trigger] pair.0@.queue[i].shortest)
                                            == m.shortest_path_len)
                                    &&& (forall|i: int|
                                        0 <= i < pair.0@.queue.len() ==> m.shortest_path_len <= (
                                        #[trigger] pair.0@.queue[i].shortest))
                                })
                            })
                            &&& (pair.0@.queue.len() == 0 ==> forall|i: int|
                                0 <= i < v@.len() ==> !((#[trigger] v@[i])
                                    matches ResponseDjikstra::SmallestDomesticNode(_)))
                            &&& (forall|i: int|
                                0 <= i < v@.len() ==> foreign_msg_consistent(
                                    pair.0@,
                                    graph@,
                                    #[trigger] v@[i],
                                ))
                            &&& foreign_targets_distinct(v@)
                        },
                    }
                },
                Err(e) => e == Status::Internal && exists|pidx: int, j: int|
                    {
                        &&& 0 <= pidx < graph@.len()
                        &&& r.0@.dist.contains_key(#[trigger] graph@[pidx].id)
                        &&& 0 <= j < graph@[pidx].edges.len()
                        &&& r.0@.dist[graph@[pidx].id] + (#[trigger] graph@[pidx].edges[j]).weight
                            > ShortestPathLen::MAX
                    },
            },
    {
        let mut this = self;
        let mut responses: Vec<ResponseDjikstra> = Vec::new();
        loop
            invariant_except_break
                responses_open(responses@),
            invariant
                graph_inv(graph@),
                this.inv(graph@),
                this@.query_id == self@.query_id,
                this@.final_node == self@.final_node,
                self@.relaxed.is_prefix_of(this@.relaxed),
                parent_map_extends(self@.parent_map, this@.parent_map),
                self@.smallest_foreign matches Some(b) ==> (this@.smallest_foreign
                    matches Some(b2) && b2 <= b),
                self@.smallest_foreign matches Some(b) ==> forall|i: int|
                    self@.relaxed.len() <= i < this@.relaxed.len() ==> this@.dist[
                        #[trigger] this@.relaxed[i]
                    ] <= b,
                forall|i: int|
                    0 <= i < responses@.len() ==> foreign_msg_consistent(
                        this@,
                        graph@,
                        #[trigger] responses@[i],
                    ),
                foreign_targets_distinct(responses@),
            ensures
                responses_wf(responses@),
                this@.queue.len() > 0 ==> {
                    &&& this@.smallest_foreign is Some
                    &&& responses@.len() > 0
                    &&& (responses@.last() matches ResponseDjikstra::SmallestDomesticNode(m) && {
                        &&& this@.smallest_foreign.unwrap() < m.shortest_path_len
                        &&& (exists|i: int|
                            0 <= i < this@.queue.len() && (#[trigger] this@.queue[i].shortest)
                                == m.shortest_path_len)
                        &&& (forall|i: int|
                            0 <= i < this@.queue.len() ==> m.shortest_path_len <= (
                            #[trigger] this@.queue[i].shortest))
                    })
                },
                this@.queue.len() == 0 ==> forall|i: int|
                    0 <= i < responses@.len() ==> !((#[trigger] responses@[i])
                        matches ResponseDjikstra::SmallestDomesticNode(_)),
            decreases
                    unvisited_idxs(graph@, this@.parent_map).len(),
                    this@.queue.len(),
        {
            if this.queue.len() == 0 {
                break ;
            }
            let ghost u0 = unvisited_idxs(graph@, this@.parent_map).len();
            let ghost q0 = this@.queue.len();
            let ghost outer_pre = this@;
            let k = min_index(&this.queue);
            let peek_shortest = this.queue[k].shortest;
            let stop_here = match this.smallest_foreign {
                Some(smf) => smf < peek_shortest,
                None => false,
            };
            if stop_here {
                // This worker's remaining frontier cannot yet be proven
                // optimal relative to the other partitions.
                responses.push(proto_helpers::domestic_smallest_node(peek_shortest));
                break ;
            }
            let ghost pre_pop = this@.queue;
            let node = this.queue.remove(k);
            let ghost node_id = graph@[node.idx as int].id;
            proof {
                assert(pre_pop[k as int] == node);
                assert forall|i: int| 0 <= i < this@.queue.len() implies exists|i0: int|
                    0 <= i0 < pre_pop.len() && #[trigger] pre_pop[i0] == #[trigger] this@.queue[i]
                        && i0 != k by {
                    if i < k {
                        assert(pre_pop[i] == this@.queue[i]);
                    } else {
                        assert(pre_pop[i + 1] == this@.queue[i]);
                    }
                }
            }
            this.relaxed = Ghost(this.relaxed@.push(node_id));
            proof {
                // The popped node had never been relaxed, so appending it
                // keeps the relaxed history duplicate-free; the remaining
                // queue entries hold other indices, hence other identifiers.
                assert(!pre_pop.remove(k as int).contains(node));
                assert forall|i: int| 0 <= i < this@.queue.len() implies !this@.relaxed.contains(
                    graph@[#[trigger] this@.queue[i].idx as int].id,
                ) by {
                    let i0 = choose|i0: int|
                        0 <= i0 < pre_pop.len() && #[trigger] pre_pop[i0] == this@.queue[i] && i0
                            != k;
                    assert(0 <= i0 < pre_pop.len() && pre_pop[i0] == this@.queue[i] && i0 != k);
                    assert(pre_pop[i0].idx != pre_pop[k as int].idx);
                    assert(graph@[this@.queue[i].idx as int].id != node_id);
                }
                lemma_foreign_msgs_stable(outer_pre, this@, graph@, responses@);
            }
            let num_edges = graph[node.idx as usize].edges.len();
            let mut j: usize = 0;
            while j < num_edges
                invariant
                    graph_inv(graph@),
                    this.inv(graph@),
                    this@.query_id == self@.query_id,
                    this@.final_node == self@.final_node,
                    self@.relaxed.is_prefix_of(this@.relaxed),
                    parent_map_extends(self@.parent_map, this@.parent_map),
                    self@.smallest_foreign matches Some(b) ==> (this@.smallest_foreign
                        matches Some(b2) && b2 <= b),
                    self@.smallest_foreign matches Some(b) ==> forall|i: int|
                        self@.relaxed.len() <= i < this@.relaxed.len() ==> this@.dist[
                            #[trigger] this@.relaxed[i]
                        ] <= b,
                    responses_open(responses@),
                    forall|i: int|
                        0 <= i < responses@.len() ==> foreign_msg_consistent(
                            this@,
                            graph@,
                            #[trigger] responses@[i],
                        ),
                    foreign_targets_distinct(responses@),
                    (node.idx as int) < graph@.len(),
                    this@.parent_map.contains_key(graph@[node.idx as int].id),
                    this@.dist[graph@[node.idx as int].id] == node.shortest,
                    j <= num_edges,
                    num_edges == graph@[node.idx as int].edges.len(),
                    unvisited_idxs(graph@, this@.parent_map).len() + this@.queue.len() + 1 <= u0
                        + q0,
                    unvisited_idxs(graph@, this@.parent_map).len() <= u0,
                decreases num_edges - j,
            {
                let edge = graph[node.idx as usize].edges[j];
                let new_node_id = match edge.to {
                    NodePointer::Foreign(foreign_id, _) => foreign_id,
                    NodePointer::Domestic(new_node_idx) => graph[new_node_idx as usize].id,
                };
                let parent_idx = node.idx;
                if !this.parent_map.contains_key(&new_node_id) {
                    let ghost pre = this@;
                    if edge.weight > ShortestPathLen::MAX - node.shortest {
                        // The accumulated distance no longer fits the
                        // distance type; this node and edge witness it.
                        proof {
                            assert((node.idx as int) < graph@.len());
                            assert(graph@[node.idx as int].id == graph@[node.idx as int].id);
                            assert(this@.dist.contains_key(graph@[node.idx as int].id));
                            assert(this@.dist[graph@[node.idx as int].id]
                                + graph@[node.idx as int].edges[j as int].weight
                                > ShortestPathLen::MAX);
                        }
                        return (this, Err(Status::Internal));
                    }
                    let new_shortest = node.shortest + edge.weight;
                    this.parent_map.insert(new_node_id, NodeParent::Domestic(parent_idx));
                    this.dist = Ghost(this.dist@.insert(new_node_id, new_shortest));
                    proof {
                        lemma_unvisited_insert(
                            graph@,
                            pre.parent_map,
                            new_node_id,
                            NodeParent::Domestic(parent_idx),
                        );
                        // The relaxed edge itself witnesses hop consistency
                        // for the newly visited node.
                        assert(edge_target_id(graph@, graph@[node.idx as int].edges[j as int])
                            == new_node_id);
                        assert forall|id: NodeId| #[trigger]
                            this@.parent_map.contains_key(id) implies parent_hop_consistent(
                            this@,
                            graph@,
                            id,
                        ) by {
                            if id == new_node_id {
                                assert(0 <= j < graph@[node.idx as int].edges.len()
                                    && edge_target_id(
                                    graph@,
                                    graph@[node.idx as int].edges[j as int],
                                ) == id && this@.dist[id] == this@.dist[graph@[node.idx as int].id]
                                    + graph@[node.idx as int].edges[j as int].weight);
                            } else {
                                assert(pre.parent_map.contains_key(id));
                                assert(parent_hop_consistent(pre, graph@, id));
                            }
                        }
                        lemma_foreign_msgs_stable(pre, this@, graph@, responses@);
                    }
                    // Maybe we found the final node?
                    if new_node_id == this.final_node {
                        return (this, Ok(StepResult::Finished(new_node_id, new_shortest)));
                    }
                    match edge.to {
                        NodePointer::Foreign(_, worker_id) => {
                            let parent_id = graph[parent_idx as usize].id;
                            responses.push(
                                proto_helpers::new_foreign_node(
                                    new_node_id,
                                    worker_id,
                                    parent_id,
                                    new_shortest,
                                ),
                            );
                            proof {
                                // The relaxed edge witnesses the new
                                // message's hop consistency.
                                assert((node.idx as int) < graph@.len());
                                assert(graph@[node.idx as int].id == parent_id);
                                assert((j as int) < graph@[node.idx as int].edges.len());
                                assert(edge_target_id(
                                    graph@,
                                    graph@[node.idx as int].edges[j as int],
                                ) == new_node_id);
                                assert(new_shortest == this@.dist[parent_id]
                                    + graph@[node.idx as int].edges[j as int].weight);
                                assert(foreign_msg_consistent(
                                    this@,
                                    graph@,
                                    responses@.last(),
                                ));
                            }
                            // This worker must not expand past the new
                            // foreign distance in a later round.
                            this.smallest_foreign = match this.smallest_foreign {
                                Some(smallest) => if smallest < new_shortest {
                                    Some(smallest)
                                } else {
                                    Some(new_shortest)
                                },
                                None => Some(new_shortest),
                            };
                        },
                        NodePointer::Domestic(new_node_idx) => {
                            this.queue.push(QueueElement::new(new_node_idx, new_shortest));
                            proof {
                                assert(graph@[new_node_idx as int].id == new_node_id);
                                assert forall|i: int|
                                    0 <= i < this@.queue.len() - 1 implies #[trigger] this@
                                    .queue[i].idx != new_node_idx by {
                                    assert(pre.parent_map.contains_key(
                                        graph@[this@.queue[i].idx as int].id,
                                    ));
                                }
                            }
                        },
                    }
                }
                j = j + 1;
            }
        }
        (this, Ok(StepResult::Remaining(responses)))
    }
}

} // verus!
