//! The executer-side state of one in-flight query: a pending-node buffer
//! and a minimal-distance estimate per worker, and the scheduling loop that
//! drives relaxation rounds against one worker at a time until the search
//! succeeds or every estimate is exhausted.

use vstd::prelude::*;

use crate::graph_store::NodeId;
use crate::graph_store::ShortestPathLen;
use crate::graph_store::WorkerId;
use crate::messages::ArePresent;
use crate::messages::ForgetQueryMessage;
use crate::messages::NewDomesticNode;
use crate::messages::NodePointerMessage;
use crate::messages::QueryData;
use crate::messages::QueryResults;
use crate::messages::RequestDjikstra;
use crate::messages::ResponseDjikstra;
use crate::proto_helpers;
use crate::query_processor::QueryId;
use crate::query_processor_holder::QueryProcessorEntry;
use crate::workers_connection::workers_wf;
use crate::workers_connection::Worker;
use crate::ErrorCollection;
use crate::Status;

verus! {

/// Index of a worker in the executer's worker list.
pub type WorkerIdx = usize;

/// Per-worker bookkeeping of one query: the buffer of nodes discovered for
/// that worker in earlier rounds, the smallest distance still pending there,
/// and whether the worker was ever contacted for this query.
pub struct WorkerExtended {
    pub id: WorkerId,
    pub minimal: Option<ShortestPathLen>,
    pub new_nodes: Vec<NewDomesticNode>,
    pub is_involved: bool,
}

impl WorkerExtended {
    /// Fresh bookkeeping for one worker: nothing pending, never contacted.
    pub fn from(worker: &Worker) -> (r: Self)
        ensures
            r.id == worker.id,
            r.minimal is None,
            r.new_nodes@ == Seq::<NewDomesticNode>::empty(),
            !r.is_involved,
    {
        WorkerExtended { id: worker.id, minimal: None, new_nodes: Vec::new(), is_involved: false }
    }

    /// Buffers one node for this worker's next round and lowers the
    /// worker's minimal pending distance to the node's distance if it is
    /// smaller (or not yet set).
    pub fn push_new_domestic(
        &mut self,
        node_id: NodeId,
        shortest_path_len: ShortestPathLen,
        parent_node: Option<(NodeId, WorkerId)>,
    )
        ensures
            final(self).id == old(self).id,
            final(self).is_involved == old(self).is_involved,
            final(self).new_nodes@ == old(self).new_nodes@.push(
                NewDomesticNode {
                    node_id,
                    shortest_path_len,
                    parent_node: match parent_node {
                        None => None::<NodePointerMessage>,
                        Some(p) => Some(NodePointerMessage { worker_id: p.1, node_id: p.0 }),
                    },
                },
            ),
            final(self).minimal == (match old(self).minimal {
                None => Some(shortest_path_len),
                Some(m) => if m > shortest_path_len {
                    Some(shortest_path_len)
                } else {
                    Some(m)
                },
            }),
    {
        let parent_node = match parent_node {
            None => None,
            Some((node_id, worker_id)) => Some(NodePointerMessage { worker_id, node_id }),
        };
        self.new_nodes.push(NewDomesticNode { node_id, shortest_path_len, parent_node });
        let update = match self.minimal {
            None => true,
            Some(m) => m > shortest_path_len,
        };
        if update {
            self.minimal = Some(shortest_path_len);
        }
    }

    /// Takes this worker's buffered nodes, leaving the buffer empty.
    pub fn extract_new_domestic(&mut self) -> (r: Vec<NewDomesticNode>)
        ensures
            r@ == old(self).new_nodes@,
            final(self).new_nodes@ == Seq::<NewDomesticNode>::empty(),
            final(self).id == old(self).id,
            final(self).minimal == old(self).minimal,
            final(self).is_involved == old(self).is_involved,
    {
        let mut taken: Vec<NewDomesticNode> = Vec::new();
        std::mem::swap(&mut self.new_nodes, &mut taken);
        taken
    }
}

/// One recorded round of the scheduling loop: the per-worker bookkeeping
/// the selection saw, the worker contacted, and the bound the round's
/// descriptor carried. The history exists only for specification.
pub struct RoundRecord {
    pub workers: Seq<WorkerExtended>,
    pub current: int,
    pub bound: Option<ShortestPathLen>,
}

/// The per-round rule of the scheduling loop: the contacted worker held a
/// pending estimate no larger than any other worker's, and the round's
/// bound was the smallest estimate over every other worker.
pub open spec fn round_rule_held(r: RoundRecord) -> bool {
    &&& 0 <= r.current < r.workers.len()
    &&& r.workers[r.current].minimal is Some
    &&& (forall|i: int|
        0 <= i < r.workers.len() && (#[trigger] r.workers[i].minimal) is Some
            ==> r.workers[r.current].minimal.unwrap() <= r.workers[i].minimal.unwrap())
    &&& r.bound == min_other_minimal(r.workers, r.current)
}

/// The mathematical model of a query coordinator.
pub struct CoordinatorModel {
    pub workers: Seq<WorkerExtended>,
    pub query_id: QueryId,
    pub node_id_from: NodeId,
    pub node_id_to: NodeId,
    pub first_worker_idx: WorkerIdx,
    pub last_worker_idx: WorkerIdx,
    pub success_worker_idx: Option<WorkerIdx>,
    pub rounds: Seq<RoundRecord>,
}

/// Executer-side state of one in-flight query. Created on query start,
/// parked between operations, destroyed on forget.
pub struct QueryCoordinator {
    workers: Vec<WorkerExtended>,
    query_id: QueryId,
    node_id_from: NodeId,
    node_id_to: NodeId,
    first_worker_idx: WorkerIdx,
    last_worker_idx: WorkerIdx,
    success_worker_idx: Option<WorkerIdx>,
    rounds: Ghost<Seq<RoundRecord>>,
}

impl View for QueryCoordinator {
    type V = CoordinatorModel;

    closed spec fn view(&self) -> CoordinatorModel {
        CoordinatorModel {
            workers: self.workers@,
            query_id: self.query_id,
            node_id_from: self.node_id_from,
            node_id_to: self.node_id_to,
            first_worker_idx: self.first_worker_idx,
            last_worker_idx: self.last_worker_idx,
            success_worker_idx: self.success_worker_idx,
            rounds: self.rounds@,
        }
    }
}

/// The smallest minimal pending distance over every worker other than
/// `current`: the bound handed to `current` for its round.
pub open spec fn min_other_minimal(ws: Seq<WorkerExtended>, current: int) -> Option<
    ShortestPathLen,
> decreases ws.len() {
    if ws.len() == 0 {
        None::<ShortestPathLen>
    } else {
        let prefix = min_other_minimal(ws.drop_last(), current);
        if ws.len() - 1 == current {
            prefix
        } else {
            match (ws.last().minimal, prefix) {
                (Option::None, r) => r,
                (Option::Some(v), Option::None) => Some(v),
                (Option::Some(v), Option::Some(m)) => if v < m {
                    Some(v)
                } else {
                    Some(m)
                },
            }
        }
    }
}

/// Every success message of a round's reply names the final node of the
/// processor now parked at the contacted worker, at that node's recorded
/// distance.
pub open spec fn round_success_recorded(
    ws: Seq<Worker>,
    current: int,
    query_id: QueryId,
    v: Seq<ResponseDjikstra>,
) -> bool {
    forall|i: int|
        0 <= i < v.len() ==> (#[trigger] v[i] matches ResponseDjikstra::Success(s) ==> {
            &&& ws[current].service@.holder.contains_key(query_id)
            &&& (ws[current].service@.holder[query_id] matches QueryProcessorEntry::Ready(p) && {
                &&& p@.query_id == query_id
                &&& s.node_id == p@.final_node
                &&& p@.dist.contains_key(s.node_id)
                &&& p@.dist[s.node_id] == s.shortest_path_len
            })
        })
}

/// Two workers both claimed one of the query's endpoints: the partitions
/// are not disjoint.
pub open spec fn duplicate_claim(ps: Seq<ArePresent>) -> bool {
    ||| exists|i: int, j: int|
        0 <= i < j < ps.len() && #[trigger] ps[i].node_from_present && #[trigger] ps[j].node_from_present
    ||| exists|i: int, j: int|
        0 <= i < j < ps.len() && #[trigger] ps[i].node_to_present && #[trigger] ps[j].node_to_present
}

/// No worker claimed one of the query's endpoints.
pub open spec fn endpoint_missing(ps: Seq<ArePresent>) -> bool {
    ||| forall|i: int| 0 <= i < ps.len() ==> !(#[trigger] ps[i].node_from_present)
    ||| forall|i: int| 0 <= i < ps.len() ==> !(#[trigger] ps[i].node_to_present)
}

impl QueryCoordinator {
    /// This coordinator's per-worker bookkeeping lines up with the
    /// executer's worker list, entry by entry.
    pub open spec fn matches_workers(&self, ws: Seq<Worker>) -> bool {
        &&& self@.workers.len() == ws.len()
        &&& forall|i: int| 0 <= i < ws.len() ==> #[trigger] self@.workers[i].id == ws[i].id
    }

    /// The bound for `current`'s round: the smallest distance still pending
    /// on any other worker.
    fn find_shortest_foreign(&self, current: WorkerIdx) -> (r: Option<ShortestPathLen>)
        ensures
            r == min_other_minimal(self@.workers, current as int),
    {
        let mut acc: Option<ShortestPathLen> = None;
        let mut i: usize = 0;
        while i < self.workers.len()
            invariant
                i <= self@.workers.len(),
                acc == min_other_minimal(self@.workers.take(i as int), current as int),
            decreases self@.workers.len() - i,
        {
            proof {
                assert(self@.workers.take(i + 1).drop_last() =~= self@.workers.take(i as int));
                assert(self@.workers.take(i + 1).last() == self@.workers[i as int]);
            }
            if i != current {
                if let Some(v) = self.workers[i].minimal {
                    acc = match acc {
                        None => Some(v),
                        Some(m) => if v < m {
                            Some(v)
                        } else {
                            Some(m)
                        },
                    };
                }
            }
            i = i + 1;
        }
        proof {
            assert(self@.workers.take(self@.workers.len() as int) =~= self@.workers);
        }
        acc
    }

    /// The next worker to contact: the first worker holding the globally
    /// smallest minimal pending distance, or none when no worker has a
    /// pending estimate left.
    fn pick_next_worker(&self) -> (r: Option<WorkerIdx>)
        ensures
            match r {
                None => forall|i: int|
                    0 <= i < self@.workers.len() ==> (#[trigger] self@.workers[i].minimal)
                        is None,
                Some(k) => {
                    &&& (k as int) < self@.workers.len()
                    &&& self@.workers[k as int].minimal is Some
                    &&& forall|i: int|
                        0 <= i < self@.workers.len() && (#[trigger] self@.workers[i].minimal)
                            is Some ==> self@.workers[k as int].minimal.unwrap()
                            <= self@.workers[i].minimal.unwrap()
                    &&& forall|i: int|
                        0 <= i < k ==> ((#[trigger] self@.workers[i].minimal) is Some
                            ==> self@.workers[i].minimal.unwrap()
                            > self@.workers[k as int].minimal.unwrap())
                },
            },
    {
        let mut best: Option<WorkerIdx> = None;
        let mut i: usize = 0;
        while i < self.workers.len()
            invariant
                i <= self@.workers.len(),
                match best {
                    None => forall|j: int|
                        0 <= j < i ==> (#[trigger] self@.workers[j].minimal) is None,
                    Some(k) => {
                        &&& (k as int) < i
                        &&& self@.workers[k as int].minimal is Some
                        &&& forall|j: int|
                            0 <= j < i && (#[trigger] self@.workers[j].minimal) is Some
                                ==> self@.workers[k as int].minimal.unwrap()
                                <= self@.workers[j].minimal.unwrap()
                        &&& forall|j: int|
                            0 <= j < k ==> ((#[trigger] self@.workers[j].minimal) is Some
                                ==> self@.workers[j].minimal.unwrap()
                                > self@.workers[k as int].minimal.unwrap())
                    },
                },
            decreases self@.workers.len() - i,
        {
            if let Some(v) = self.workers[i].minimal {
                let replace = match best {
                    None => true,
                    Some(k) => {
                        let held = match self.workers[k].minimal {
                            Some(m) => m,
                            None => 0,
                        };
                        v < held
                    },
                };
                if replace {
                    best = Some(i);
                }
            }
            i = i + 1;
        }
        best
    }

    /// Resolves the owning worker of each endpoint from the presence
    /// answers: exactly one worker must claim each endpoint. Two claims are
    /// an internal partition-disjointness violation; no claim means the
    /// endpoint exists nowhere.
    fn find_workers(presence: &Vec<ArePresent>) -> (r: Result<(WorkerIdx, WorkerIdx), Status>)
        ensures
            duplicate_claim(presence@) ==> r == Err::<(WorkerIdx, WorkerIdx), Status>(
                Status::Internal,
            ),
            !duplicate_claim(presence@) && endpoint_missing(presence@) ==> r == Err::<
                (WorkerIdx, WorkerIdx),
                Status,
            >(Status::NotFound),
            !duplicate_claim(presence@) && !endpoint_missing(presence@) ==> (r matches Ok(pair) && {
                &&& (pair.0 as int) < presence@.len()
                &&& (pair.1 as int) < presence@.len()
                &&& presence@[pair.0 as int].node_from_present
                &&& presence@[pair.1 as int].node_to_present
            }),
    {
        let mut from_idx: Option<WorkerIdx> = None;
        let mut to_idx: Option<WorkerIdx> = None;
        let mut i: usize = 0;
        while i < presence.len()
            invariant
                i <= presence@.len(),
                match from_idx {
                    None => forall|k: int|
                        0 <= k < i ==> !(#[trigger] presence@[k].node_from_present),
                    Some(f) => (f as int) < i && presence@[f as int].node_from_present && forall|
                        k: int,
                    |
                        0 <= k < i && k != f ==> !(#[trigger] presence@[k].node_from_present),
                },
                match to_idx {
                    None => forall|k: int| 0 <= k < i ==> !(#[trigger] presence@[k].node_to_present),
                    Some(t) => (t as int) < i && presence@[t as int].node_to_present && forall|
                        k: int,
                    |
                        0 <= k < i && k != t ==> !(#[trigger] presence@[k].node_to_present),
                },
            decreases presence@.len() - i,
        {
            if presence[i].node_from_present {
                match from_idx {
                    Some(_) => {
                        return Err(ErrorCollection::overlapping_ownership());
                    },
                    None => {
                        from_idx = Some(i);
                    },
                }
            }
            if presence[i].node_to_present {
                match to_idx {
                    Some(_) => {
                        return Err(ErrorCollection::overlapping_ownership());
                    },
                    None => {
                        to_idx = Some(i);
                    },
                }
            }
            i = i + 1;
        }
        let from = match from_idx {
            Some(f) => f,
            None => {
                return Err(ErrorCollection::endpoint_not_found());
            },
        };
        let to = match to_idx {
            Some(t) => t,
            None => {
                return Err(ErrorCollection::endpoint_not_found());
            },
        };
        Ok((from, to))
    }

    /// Builds the coordinator for a fresh query from the workers' presence
    /// answers, locating the worker owning each endpoint.
    pub fn new(
        workers: &Vec<Worker>,
        presence: &Vec<ArePresent>,
        from: NodeId,
        to: NodeId,
        query_id: QueryId,
    ) -> (r: Result<Self, Status>)
        requires
            presence@.len() == workers@.len(),
        ensures
            duplicate_claim(presence@) ==> r is Err && (r matches Err(e) && e == Status::Internal),
            !duplicate_claim(presence@) && endpoint_missing(presence@) ==> (r matches Err(e) && e
                == Status::NotFound),
            !duplicate_claim(presence@) && !endpoint_missing(presence@) ==> (r matches Ok(c) && {
                &&& c.matches_workers(workers@)
                &&& forall|i: int|
                    0 <= i < workers@.len() ==> {
                        &&& (#[trigger] c@.workers[i]).id == workers@[i].id
                        &&& c@.workers[i].minimal is None
                        &&& c@.workers[i].new_nodes@ == Seq::<NewDomesticNode>::empty()
                        &&& !c@.workers[i].is_involved
                    }
                &&& c@.query_id == query_id
                &&& c@.node_id_from == from
                &&& c@.node_id_to == to
                &&& (c@.first_worker_idx as int) < workers@.len()
                &&& (c@.last_worker_idx as int) < workers@.len()
                &&& presence@[c@.first_worker_idx as int].node_from_present
                &&& presence@[c@.last_worker_idx as int].node_to_present
                &&& c@.success_worker_idx is None
                &&& c@.rounds == Seq::<RoundRecord>::empty()
            }),
    {
        let mut workers_extended: Vec<WorkerExtended> = Vec::new();
        let mut i: usize = 0;
        while i < workers.len()
            invariant
                i <= workers@.len(),
                workers_extended@.len() == i,
                forall|j: int|
                    0 <= j < i ==> {
                        &&& (#[trigger] workers_extended@[j]).id == workers@[j].id
                        &&& workers_extended@[j].minimal is None
                        &&& workers_extended@[j].new_nodes@ == Seq::<NewDomesticNode>::empty()
                        &&& !workers_extended@[j].is_involved
                    },
            decreases workers@.len() - i,
        {
            workers_extended.push(WorkerExtended::from(&workers[i]));
            i = i + 1;
        }
        let (worker_from, worker_to) = match Self::find_workers(presence) {
            Ok(pair) => pair,
            Err(e) => {
                return Err(e);
            },
        };
        Ok(
            QueryCoordinator {
                workers: workers_extended,
                query_id,
                node_id_from: from,
                node_id_to: to,
                first_worker_idx: worker_from,
                last_worker_idx: worker_to,
                success_worker_idx: None,
                rounds: Ghost(Seq::empty()),
            },
        )
    }

    /// The node the backtracking walk starts from, and the worker that
    /// reported success, once the query has succeeded.
    pub fn backtrack_start(&self) -> (r: Option<(WorkerIdx, NodeId)>)
        ensures
            match self@.success_worker_idx {
                Some(k) => r == Some((k, self@.node_id_to)),
                None => r is None,
            },
    {
        match self.success_worker_idx {
            Some(k) => Some((k, self.node_id_to)),
            None => None,
        }
    }

    /// Reads the identifier of one worker of this query.
    pub fn get_worker_id(&self, idx: WorkerIdx) -> (r: WorkerId)
        requires
            (idx as int) < self@.workers.len(),
        ensures
            r == self@.workers[idx as int].id,
    {
        self.workers[idx].id
    }

    /// The position of the worker carrying an identifier, scanning in list
    /// order: the first match wins.
    pub fn find_worker_by_id(&self, worker_id: WorkerId) -> (r: Result<WorkerIdx, Status>)
        ensures
            (exists|i: int|
                0 <= i < self@.workers.len() && (#[trigger] self@.workers[i].id) == worker_id)
                ==> (r matches Ok(k) && (k as int) < self@.workers.len()
                && self@.workers[k as int].id == worker_id && (forall|i: int|
                0 <= i < k ==> (#[trigger] self@.workers[i].id) != worker_id)),
            !(exists|i: int|
                0 <= i < self@.workers.len() && (#[trigger] self@.workers[i].id) == worker_id)
                ==> r == Err::<WorkerIdx, Status>(Status::OutOfRange),
    {
        let mut i: usize = 0;
        while i < self.workers.len()
            invariant
                i <= self@.workers.len(),
                forall|j: int| 0 <= j < i ==> (#[trigger] self@.workers[j].id) != worker_id,
            decreases self@.workers.len() - i,
        {
            if self.workers[i].id == worker_id {
                return Ok(i);
            }
            i = i + 1;
        }
        Err(ErrorCollection::worker_not_found(worker_id))
    }

    /// Builds one round's outbound stream for `current`: the descriptor
    /// first — carrying the query, the final node, and the bound computed
    /// over every other worker — then `current`'s drained pending buffer.
    pub fn prepare_outbound_stream(&mut self, current: WorkerIdx) -> (r: Vec<RequestDjikstra>)
        requires
            (current as int) < old(self)@.workers.len(),
        ensures
            r@.len() == 1 + old(self)@.workers[current as int].new_nodes@.len(),
            r@[0] == RequestDjikstra::QueryData(
                QueryData {
                    query_id: old(self)@.query_id,
                    final_node_id: old(self)@.node_id_to,
                    smallest_foreign_node: min_other_minimal(old(self)@.workers, current as int),
                },
            ),
            forall|i: int|
                0 <= i < old(self)@.workers[current as int].new_nodes@.len() ==> r@[1 + i]
                    == RequestDjikstra::NewDomesticNode(
                    old(self)@.workers[current as int].new_nodes@[i],
                ),
            final(self)@.workers.len() == old(self)@.workers.len(),
            forall|i: int|
                0 <= i < old(self)@.workers.len() && i != current as int ==> final(self)@.workers[i]
                    == old(self)@.workers[i],
            final(self)@.workers[current as int].id == old(self)@.workers[current as int].id,
            final(self)@.workers[current as int].minimal == old(
                self,
            )@.workers[current as int].minimal,
            final(self)@.workers[current as int].is_involved == old(
                self,
            )@.workers[current as int].is_involved,
            final(self)@.workers[current as int].new_nodes@ == Seq::<NewDomesticNode>::empty(),
            final(self)@.query_id == old(self)@.query_id,
            final(self)@.node_id_from == old(self)@.node_id_from,
            final(self)@.node_id_to == old(self)@.node_id_to,
            final(self)@.first_worker_idx == old(self)@.first_worker_idx,
            final(self)@.last_worker_idx == old(self)@.last_worker_idx,
            final(self)@.success_worker_idx == old(self)@.success_worker_idx,
            final(self)@.rounds == old(self)@.rounds,
    {
        let smallest_foreign_node = self.find_shortest_foreign(current);
        let query_data = QueryData {
            query_id: self.query_id,
            final_node_id: self.node_id_to,
            smallest_foreign_node,
        };
        let new_nodes = self.workers[current].extract_new_domestic();
        let mut out: Vec<RequestDjikstra> = Vec::new();
        out.push(proto_helpers::pack_query_data(query_data));
        let mut i: usize = 0;
        while i < new_nodes.len()
            invariant
                i <= new_nodes@.len(),
                out@.len() == 1 + i,
                out@[0] == RequestDjikstra::QueryData(query_data),
                forall|j: int|
                    0 <= j < i ==> out@[1 + j] == RequestDjikstra::NewDomesticNode(new_nodes@[j]),
            decreases new_nodes@.len() - i,
        {
            out.push(proto_helpers::pack_new_domestic_node(new_nodes[i]));
            i = i + 1;
        }
        out
    }

    /// Tells every worker that was involved in this query to drop its state
    /// for it. In-process delivery cannot fail; the query's bookkeeping on
    /// the executer is untouched and is discarded by the caller.
    pub fn send_forget_to_workers(&mut self, workers: &mut Vec<Worker>) -> (r: Result<(), Status>)
        requires
            workers_wf(old(workers)@),
            old(self).matches_workers(old(workers)@),
        ensures
            r is Ok,
            final(self)@ == old(self)@,
            workers_wf(final(workers)@),
            final(workers)@.len() == old(workers)@.len(),
            forall|i: int|
                0 <= i < old(workers)@.len() ==> {
                    &&& (#[trigger] final(workers)@[i]).id == old(workers)@[i].id
                    &&& final(workers)@[i].service@.graph == old(workers)@[i].service@.graph
                    &&& final(workers)@[i].service@.mapping == old(workers)@[i].service@.mapping
                    &&& (old(self)@.workers[i].is_involved ==> final(workers)@[i].service@.holder
                        == old(workers)@[i].service@.holder.remove(old(self)@.query_id))
                    &&& (!old(self)@.workers[i].is_involved ==> final(workers)@[i]
                        == old(workers)@[i])
                },
    {
        let query_id = self.query_id;
        let mut i: usize = 0;
        while i < workers.len()
            invariant
                i <= workers@.len(),
                workers@.len() == old(workers)@.len(),
                self@ == old(self)@,
                self@.workers.len() == workers@.len(),
                workers_wf(workers@),
                query_id == old(self)@.query_id,
                forall|j: int|
                    0 <= j < workers@.len() ==> {
                        &&& (#[trigger] workers@[j]).id == old(workers)@[j].id
                        &&& workers@[j].service@.graph == old(workers)@[j].service@.graph
                        &&& workers@[j].service@.mapping == old(workers)@[j].service@.mapping
                    },
                forall|j: int|
                    0 <= j < i ==> {
                        &&& ((#[trigger] old(self)@.workers[j]).is_involved ==> workers@[j].service@.holder
                            == old(workers)@[j].service@.holder.remove(old(self)@.query_id))
                        &&& (!old(self)@.workers[j].is_involved ==> workers@[j] == old(workers)@[j])
                    },
                forall|j: int| i <= j < workers@.len() ==> workers@[j] == old(workers)@[j],
            decreases workers@.len() - i,
        {
            if self.workers[i].is_involved {
                let worker = &mut workers[i];
                worker.service.forget_query(ForgetQueryMessage { query_id });
            }
            i = i + 1;
        }
        Ok(())
    }

    /// The scheduling loop. Seeds the start node into its owner's buffer,
    /// then repeatedly: builds the round's outbound stream for the chosen
    /// worker, runs the round, distributes every newly discovered foreign
    /// node into its owner's buffer, records the round's watermark, and
    /// picks the worker with the globally smallest pending estimate next.
    /// Every round is recorded in the coordinator's round history, each
    /// obeying the per-round rule, and at least one round always runs. Ends
    /// with the reported distance on success — the distance then recorded
    /// for the final node on the worker that reported it — with no distance
    /// when every estimate is exhausted (the destination is unreachable),
    /// with the first round error otherwise, and with an internal error if
    /// the round budget — generous beyond any run the partitions admit — is
    /// ever exhausted.
    pub fn shortest_path_query(&mut self, workers: &mut Vec<Worker>) -> (r: Result<
        QueryResults,
        Status,
    >)
        requires
            workers_wf(old(workers)@),
            old(self).matches_workers(old(workers)@),
            (old(self)@.first_worker_idx as int) < old(self)@.workers.len(),
            old(self)@.success_worker_idx is None,
        ensures
            workers_wf(final(workers)@),
            final(self).matches_workers(final(workers)@),
            final(workers)@.len() == old(workers)@.len(),
            forall|i: int|
                0 <= i < old(workers)@.len() ==> {
                    &&& (#[trigger] final(workers)@[i]).id == old(workers)@[i].id
                    &&& final(workers)@[i].service@.graph == old(workers)@[i].service@.graph
                    &&& final(workers)@[i].service@.mapping == old(workers)@[i].service@.mapping
                },
            final(self)@.query_id == old(self)@.query_id,
            final(self)@.node_id_from == old(self)@.node_id_from,
            final(self)@.node_id_to == old(self)@.node_id_to,
            final(self)@.last_worker_idx == old(self)@.last_worker_idx,
            final(self)@.workers.len() == old(self)@.workers.len(),
            old(self)@.rounds.is_prefix_of(final(self)@.rounds),
            final(self)@.rounds.len() > old(self)@.rounds.len(),
            forall|i: int|
                old(self)@.rounds.len() <= i < final(self)@.rounds.len() ==> round_rule_held(
                    #[trigger] final(self)@.rounds[i],
                ),
            match r {
                Ok(res) => {
                    &&& res.query_id == Some(old(self)@.query_id)
                    &&& (res.shortest_path_len is Some <==> final(self)@.success_worker_idx
                        is Some)
                    &&& (final(self)@.success_worker_idx matches Some(k) ==> (k as int) < final(self)@.workers.len())
                    &&& (res.shortest_path_len is None ==> forall|i: int|
                        0 <= i < final(self)@.workers.len()
                            ==> (#[trigger] final(self)@.workers[i].minimal) is None)
                    &&& (res.shortest_path_len matches Some(d) ==> (final(self)@.success_worker_idx
                        matches Some(k) && {
                        let ws = final(workers)@;
                        &&& (k as int) < ws.len()
                        &&& ws[k as int].service@.holder.contains_key(old(self)@.query_id)
                        &&& (ws[k as int].service@.holder[old(self)@.query_id]
                            matches QueryProcessorEntry::Ready(p) && p@.query_id == old(self)@.query_id
                            && p@.dist.contains_key(p@.final_node) && p@.dist[p@.final_node] == d)
                    }))
                },
                Err(e) => e == Status::NotFound || e == Status::Internal || e
                    == Status::InvalidArgument || e == Status::OutOfRange,
            },
    {
        // Push initial node.
        let node_id_from = self.node_id_from;
        let seed_target = self.first_worker_idx;
        let seed = &mut self.workers[seed_target];
        seed.push_new_domestic(node_id_from, 0, None);
        let mut next_worker: Option<WorkerIdx> = Some(self.first_worker_idx);
        proof {
            // The seeded worker holds distance zero: no estimate is smaller.
            assert(self@.workers[seed_target as int].minimal == Some(0u64));
        }
        // A round budget far beyond the number of rounds any run over these
        // partitions can take: every round either drains a pending buffer
        // or relaxes a node, and both are bounded by the partition sizes.
        let mut total_nodes: u64 = 2;
        let mut i: usize = 0;
        while i < workers.len()
            invariant
                i <= workers@.len(),
                workers_wf(workers@),
                workers@ == old(workers)@,
                total_nodes >= 2,
            decreases workers@.len() - i,
        {
            total_nodes = total_nodes.saturating_add(workers[i].service.node_count() as u64);
            i = i + 1;
        }
        let mut fuel: u64 = if total_nodes > 0xffff_ffff {
            u64::MAX
        } else {
            proof {
                assert(total_nodes * total_nodes <= 0xffff_ffff * 0xffff_ffff)
                    by (nonlinear_arith)
                    requires
                        total_nodes <= 0xffff_ffff,
                ;
            }
            proof {
                assert(total_nodes * total_nodes >= 4) by (nonlinear_arith)
                    requires
                        total_nodes >= 2,
                ;
            }
            total_nodes * total_nodes
        };
        let ghost initial_fuel = fuel;
        loop
            invariant
                workers_wf(workers@),
                self.matches_workers(workers@),
                workers@.len() == old(workers)@.len(),
                forall|i: int|
                    0 <= i < old(workers)@.len() ==> {
                        &&& (#[trigger] workers@[i]).id == old(workers)@[i].id
                        &&& workers@[i].service@.graph == old(workers)@[i].service@.graph
                        &&& workers@[i].service@.mapping == old(workers)@[i].service@.mapping
                    },
                self@.query_id == old(self)@.query_id,
                self@.node_id_from == old(self)@.node_id_from,
                self@.node_id_to == old(self)@.node_id_to,
                self@.last_worker_idx == old(self)@.last_worker_idx,
                self@.workers.len() == old(self)@.workers.len(),
                self@.success_worker_idx is None,
                next_worker matches Some(k) ==> ((k as int) < self@.workers.len()
                    && self@.workers[k as int].minimal is Some && (forall|i: int|
                    0 <= i < self@.workers.len() && (#[trigger] self@.workers[i].minimal) is Some
                        ==> self@.workers[k as int].minimal.unwrap()
                        <= self@.workers[i].minimal.unwrap())),
                next_worker is None ==> forall|i: int|
                    0 <= i < self@.workers.len() ==> (#[trigger] self@.workers[i].minimal)
                        is None,
                old(self)@.rounds.is_prefix_of(self@.rounds),
                initial_fuel >= 2,
                fuel == initial_fuel || self@.rounds.len() > old(self)@.rounds.len(),
                next_worker is None ==> self@.rounds.len() > old(self)@.rounds.len(),
                forall|i: int|
                    old(self)@.rounds.len() <= i < self@.rounds.len() ==> round_rule_held(
                        #[trigger] self@.rounds[i],
                    ),
            ensures
                next_worker is None,
                self@.rounds.len() > old(self)@.rounds.len(),
                forall|i: int|
                    0 <= i < self@.workers.len() ==> (#[trigger] self@.workers[i].minimal)
                        is None,
            decreases fuel,
        {
            let current = match next_worker {
                Some(current) => current,
                None => {
                    break ;
                },
            };
            if fuel == 0 {
                // The budget can only run out if a round neither drained a
                // buffer nor relaxed a node, which consistent partitions
                // never produce.
                return Err(ErrorCollection::round_budget_exhausted());
            }
            fuel = fuel - 1;
            let ghost record = RoundRecord {
                workers: self@.workers,
                current: current as int,
                bound: min_other_minimal(self@.workers, current as int),
            };
            proof {
                assert(round_rule_held(record));
            }
            self.rounds = Ghost(self.rounds@.push(record));
            let outbound = self.prepare_outbound_stream(current);
            let worker = &mut workers[current];
            let responses = match worker.service.update_djikstra(outbound) {
                Ok(responses) => responses,
                Err(e) => {
                    return Err(e);
                },
            };
            proof {
                assert(round_success_recorded(
                    workers@,
                    current as int,
                    self@.query_id,
                    responses@,
                ));
            }
            let current_state = &mut self.workers[current];
            current_state.minimal = None;
            current_state.is_involved = true;
            let current_worker_id = self.workers[current].id;
            let mut i: usize = 0;
            while i < responses.len()
                invariant
                    i <= responses@.len(),
                    workers_wf(workers@),
                    self.matches_workers(workers@),
                    workers@.len() == old(workers)@.len(),
                    forall|j: int|
                        0 <= j < old(workers)@.len() ==> {
                            &&& (#[trigger] workers@[j]).id == old(workers)@[j].id
                            &&& workers@[j].service@.graph == old(workers)@[j].service@.graph
                            &&& workers@[j].service@.mapping == old(workers)@[j].service@.mapping
                        },
                    self@.query_id == old(self)@.query_id,
                    self@.node_id_from == old(self)@.node_id_from,
                    self@.node_id_to == old(self)@.node_id_to,
                    self@.last_worker_idx == old(self)@.last_worker_idx,
                    self@.workers.len() == old(self)@.workers.len(),
                    self@.success_worker_idx is None,
                    (current as int) < self@.workers.len(),
                    current_worker_id == self@.workers[current as int].id,
                    round_success_recorded(workers@, current as int, self@.query_id, responses@),
                    old(self)@.rounds.is_prefix_of(self@.rounds),
                    self@.rounds.len() > old(self)@.rounds.len(),
                    forall|i2: int|
                        old(self)@.rounds.len() <= i2 < self@.rounds.len() ==> round_rule_held(
                            #[trigger] self@.rounds[i2],
                        ),
                decreases responses@.len() - i,
            {
                let response = responses[i];
                match response {
                    ResponseDjikstra::Success(s) => {
                        self.success_worker_idx = Some(current);
                        return Ok(
                            QueryResults {
                                shortest_path_len: Some(s.shortest_path_len),
                                query_id: Some(self.query_id),
                            },
                        );
                    },
                    ResponseDjikstra::NewForeignNode(node) => {
                        let worker_idx = match self.find_worker_by_id(node.this_node.worker_id) {
                            Ok(worker_idx) => worker_idx,
                            Err(e) => {
                                return Err(e);
                            },
                        };
                        let target = &mut self.workers[worker_idx];
                        target.push_new_domestic(
                            node.this_node.node_id,
                            node.shortest_path_len,
                            Some((node.parent_node_id, current_worker_id)),
                        );
                    },
                    ResponseDjikstra::SmallestDomesticNode(node) => {
                        let current_state = &mut self.workers[current];
                        current_state.minimal = Some(node.shortest_path_len);
                    },
                }
                i = i + 1;
            }
            next_worker = self.pick_next_worker();
        }
        // Path not found.
        Ok(QueryResults { shortest_path_len: None, query_id: Some(self.query_id) })
    }
}

impl ErrorCollection {
    /// Two workers both claimed ownership of one endpoint.
    pub fn overlapping_ownership() -> (r: Status)
        ensures
            r == Status::Internal,
    {
        Status::Internal
    }

    /// A requested endpoint was found in no partition.
    pub fn endpoint_not_found() -> (r: Status)
        ensures
            r == Status::NotFound,
    {
        Status::NotFound
    }

    /// The scheduling loop ran more rounds than any consistent set of
    /// partitions admits.
    pub fn round_budget_exhausted() -> (r: Status)
        ensures
            r == Status::Internal,
    {
        Status::Internal
    }

    /// A message referred to a worker identifier that no worker carries.
    pub fn worker_not_found(_id: WorkerId) -> (r: Status)
        ensures
            r == Status::OutOfRange,
    {
        Status::OutOfRange
    }
}

} // verus!
