//! The executer-side registry of query coordinators, and the top-level
//! operations of the engine: running a whole path query, backtracking a
//! finished one, and forgetting one. A coordinator entry is absent, checked
//! out (busy), or parked; a second concurrent operation on the same query
//! is rejected rather than queued.

use vstd::prelude::*;

use std::collections::HashMap;

use crate::graph_store::NodeId;
use crate::graph_store::WorkerId;
use crate::messages::ArePresent;
use crate::messages::ResponseBacktrack;
use crate::messages::Node;
use crate::messages::NodeIds;
use crate::messages::QueryResults;
use crate::messages::RequestBacktrack;
use crate::query_coordinator::duplicate_claim;
use crate::query_coordinator::endpoint_missing;
use crate::query_coordinator::QueryCoordinator;
use crate::query_coordinator::WorkerIdx;
use crate::query_processor_holder::QueryProcessorEntry;
use crate::query_realizator::backtrack_walk_spec;
use crate::query_processor::QueryId;
use crate::workers_connection::workers_wf;
use crate::workers_connection::Worker;
use crate::ErrorCollection;
use crate::Status;

verus! {

broadcast use vstd::std_specs::hash::group_hash_axioms;

/// The mathematical model of the queries manager.
pub struct QueriesManagerModel {
    pub workers: Seq<Worker>,
    pub query_id_counter: QueryId,
    pub query_coordinators: Map<QueryId, Option<QueryCoordinator>>,
}

/// Owns the executer's worker handles, assigns query identifiers, and
/// stores each in-flight query's coordinator between operations. An entry
/// holding `None` marks a query whose coordinator is checked out (busy) or
/// lost to an earlier error.
pub struct QueriesManager {
    workers: Vec<Worker>,
    query_id_counter: QueryId,
    query_coordinators: HashMap<QueryId, Option<QueryCoordinator>>,
}

/// A checkout of this query's coordinator would fail: the query is unknown,
/// busy, or orphaned by an earlier error.
pub open spec fn coordinator_unavailable(
    m: Map<QueryId, Option<QueryCoordinator>>,
    query_id: QueryId,
) -> bool {
    !m.contains_key(query_id) || m[query_id] is None
}

/// The answers the presence check collects: for each worker in order,
/// whether its partition holds each endpoint.
pub open spec fn presence_of(ws: Seq<Worker>, from: NodeId, to: NodeId) -> Seq<ArePresent> {
    Seq::new(
        ws.len(),
        |i: int|
            ArePresent {
                node_from_present: ws[i].service@.mapping.contains_key(from),
                node_to_present: ws[i].service@.mapping.contains_key(to),
            },
    )
}

/// What one backtrack request reads on one worker: nothing parked under
/// the query is not found, an in-flight entry is refused, and a parked
/// processor answers with its recorded-parent walk.
pub open spec fn worker_walk(w: Worker, query_id: QueryId, from: NodeId) -> Result<
    (Seq<ResponseBacktrack>, Option<(NodeId, WorkerId)>),
    Status,
> {
    if !w.service@.holder.contains_key(query_id) {
        Err(Status::NotFound)
    } else {
        match w.service@.holder[query_id] {
            QueryProcessorEntry::Busy => Err(Status::InvalidArgument),
            QueryProcessorEntry::Ready(p) => backtrack_walk_spec(
                p@.parent_map,
                w.service@.graph,
                from,
                p@.parent_map.dom().len(),
            ),
        }
    }
}

/// The position of the first worker carrying an identifier, in list order.
pub open spec fn find_worker_index(ws: Seq<Worker>, id: WorkerId) -> Result<int, Status>
    decreases ws.len(),
{
    if ws.len() == 0 {
        Err(Status::OutOfRange)
    } else if ws[0].id == id {
        Ok(0)
    } else {
        match find_worker_index(ws.drop_first(), id) {
            Ok(k) => Ok(k + 1),
            Err(e) => Err(e),
        }
    }
}

/// The first-match characterization of `find_worker_index`.
pub proof fn lemma_find_worker_index(ws: Seq<Worker>, id: WorkerId)
    ensures
        match find_worker_index(ws, id) {
            Ok(k) => 0 <= k < ws.len() && ws[k].id == id && (forall|i: int|
                0 <= i < k ==> (#[trigger] ws[i].id) != id),
            Err(e) => e == Status::OutOfRange && (forall|i: int|
                0 <= i < ws.len() ==> (#[trigger] ws[i].id) != id),
        },
    decreases ws.len(),
{
    if ws.len() == 0 {
    } else if ws[0].id == id {
    } else {
        lemma_find_worker_index(ws.drop_first(), id);
        assert forall|i: int| 0 <= i < ws.len() implies ws.drop_first()[i - 1] == ws[i] || i
            == 0 by {}
    }
}

/// Folding one worker round's items into the path: each item appends one
/// node — tagged with its own worker on a cross-partition hop, which also
/// moves the cursor to that worker, else tagged with the round's worker. A
/// hop naming a worker that does not exist stops the walk.
pub open spec fn absorb_backtrack_items(
    ws: Seq<Worker>,
    cur_worker_id: WorkerId,
    items: Seq<ResponseBacktrack>,
    path: Seq<Node>,
    cursor: Option<(int, NodeId)>,
) -> Result<(Seq<Node>, Option<(int, NodeId)>), Status>
    decreases items.len(),
{
    if items.len() == 0 {
        Ok((path, cursor))
    } else {
        match items[0].worker_id {
            Some(worker_id) => match find_worker_index(ws, worker_id) {
                Ok(widx) => absorb_backtrack_items(
                    ws,
                    cur_worker_id,
                    items.drop_first(),
                    path.push(Node { node_id: items[0].node_id, worker_id }),
                    Some((widx, items[0].node_id)),
                ),
                Err(e) => Err(e),
            },
            None => absorb_backtrack_items(
                ws,
                cur_worker_id,
                items.drop_first(),
                path.push(Node { node_id: items[0].node_id, worker_id: cur_worker_id }),
                cursor,
            ),
        }
    }
}

/// The whole cross-partition backtrack: from the cursor's worker and node,
/// replay that worker's recorded walk, absorb its hops into the path,
/// switch partitions where a hop says so, and stop when a round leaves no
/// continuation — within the hop budget.
pub open spec fn cross_backtrack_spec(
    ws: Seq<Worker>,
    query_id: QueryId,
    path: Seq<Node>,
    cursor: Option<(int, NodeId)>,
    fuel: nat,
) -> Result<Seq<Node>, Status>
    decreases fuel,
{
    match cursor {
        None => Ok(path),
        Some(cur) => {
            if fuel == 0 {
                Err(Status::Internal)
            } else {
                match worker_walk(ws[cur.0], query_id, cur.1) {
                    Err(e) => Err(e),
                    Ok(pair) => match absorb_backtrack_items(ws, ws[cur.0].id, pair.0, path, None) {
                        Err(e) => Err(e),
                        Ok(next) => cross_backtrack_spec(
                            ws,
                            query_id,
                            next.0,
                            next.1,
                            (fuel - 1) as nat,
                        ),
                    },
                }
            }
        },
    }
}

/// The spec-level reading of the walk's cursor: a worker position and the
/// node to continue from.
pub open spec fn cursor_model(c: Option<(WorkerIdx, NodeId)>) -> Option<(int, NodeId)> {
    match c {
        None => None,
        Some(p) => Some((p.0 as int, p.1)),
    }
}

/// The backtrack walk's hop budget: two more hops than the partitions hold
/// nodes in total (saturating).
pub open spec fn backtrack_fuel(ws: Seq<Worker>, n: int) -> u64
    decreases n,
{
    if n <= 0 {
        2u64
    } else {
        backtrack_fuel(ws, n - 1).saturating_add(ws[n - 1].service@.graph.len() as u64)
    }
}

/// Once a query is forgotten, both a backtrack and a second forget on its
/// identifier begin with a coordinator checkout that is refused.
pub proof fn lemma_forgotten_query_refused(
    m: Map<QueryId, Option<QueryCoordinator>>,
    query_id: QueryId,
)
    ensures
        coordinator_unavailable(m.remove(query_id), query_id),
{
}

impl View for QueriesManager {
    type V = QueriesManagerModel;

    closed spec fn view(&self) -> QueriesManagerModel {
        QueriesManagerModel {
            workers: self.workers@,
            query_id_counter: self.query_id_counter,
            query_coordinators: self.query_coordinators@,
        }
    }
}

impl QueriesManager {
    /// The manager's well-formedness: the worker list is sorted and
    /// well-formed, and every parked coordinator belongs to its key and
    /// lines up with the worker list.
    pub open spec fn wf(&self) -> bool {
        &&& workers_wf(self@.workers)
        &&& forall|qid: QueryId| #[trigger]
            self@.query_coordinators.contains_key(qid) ==> match self@.query_coordinators[qid] {
                None => true,
                Some(c) => {
                    &&& c.matches_workers(self@.workers)
                    &&& c@.query_id == qid
                    &&& (c@.success_worker_idx matches Some(k) ==> (k as int) < c@.workers.len())
                },
            }
    }

    /// Wraps an already-connected, sorted worker list; no query is known
    /// yet and identifiers start at zero.
    pub fn new(workers: Vec<Worker>) -> (r: Self)
        requires
            workers_wf(workers@),
        ensures
            r.wf(),
            r@.workers == workers@,
            r@.query_id_counter == 0u32,
            r@.query_coordinators == Map::<QueryId, Option<QueryCoordinator>>::empty(),
    {
        QueriesManager { workers, query_id_counter: 0, query_coordinators: HashMap::new() }
    }

    /// Hands out the next query identifier, wrapping around when the
    /// counter is exhausted.
    fn get_new_query_id(&mut self) -> (r: QueryId)
        ensures
            r == old(self)@.query_id_counter,
            final(self)@.query_id_counter == old(self)@.query_id_counter.wrapping_add(1),
            final(self)@.workers == old(self)@.workers,
            final(self)@.query_coordinators == old(self)@.query_coordinators,
    {
        let query_id = self.query_id_counter;
        self.query_id_counter = self.query_id_counter.wrapping_add(1);
        query_id
    }

    /// Checks a query's coordinator out, leaving the entry busy. An unknown
    /// query is not found; one on which some request is already pending (or
    /// that was orphaned by an earlier error) is a caller error.
    fn get_query_coordinator(&mut self, query_id: QueryId) -> (r: Result<QueryCoordinator, Status>)
        ensures
            final(self)@.workers == old(self)@.workers,
            final(self)@.query_id_counter == old(self)@.query_id_counter,
            !old(self)@.query_coordinators.contains_key(query_id) ==> r == Err::<
                QueryCoordinator,
                Status,
            >(Status::NotFound) && final(self)@.query_coordinators == old(
                self,
            )@.query_coordinators,
            old(self)@.query_coordinators.contains_key(query_id)
                && old(self)@.query_coordinators[query_id] is None ==> r == Err::<
                QueryCoordinator,
                Status,
            >(Status::InvalidArgument) && final(self)@.query_coordinators == old(
                self,
            )@.query_coordinators,
            !coordinator_unavailable(old(self)@.query_coordinators, query_id) ==> (old(
                self,
            )@.query_coordinators[query_id] matches Some(c) && r == Ok::<QueryCoordinator, Status>(
                c,
            ) && final(self)@.query_coordinators == old(self)@.query_coordinators.insert(
                query_id,
                None,
            )),
    {
        if !self.query_coordinators.contains_key(&query_id) {
            return Err(ErrorCollection::query_not_found());
        }
        match self.query_coordinators.insert(query_id, None) {
            Some(Some(coordinator)) => Ok(coordinator),
            Some(None) => {
                // Re-inserting the busy marker leaves the entry as it was.
                proof {
                    assert(self@.query_coordinators =~= old(self)@.query_coordinators);
                }
                Err(ErrorCollection::query_invalid_or_busy(query_id))
            },
            None => Err(ErrorCollection::query_invalid_or_busy(query_id)),
        }
    }

    /// Answers a whole path query, consuming one identifier from the
    /// wrapping counter. Two equal endpoints are the trivial zero-distance
    /// success, which contacts no worker and retains no query state (no
    /// query identifier is handed out in the result). Otherwise the
    /// endpoints are located — two partitions claiming one is an internal
    /// error, an endpoint nowhere is not found — the scheduling loop runs,
    /// and on a clean finish the coordinator is parked under the new query
    /// identifier for a later backtrack or forget, with the reported
    /// distance recorded for the final node on the worker that reported
    /// success; an error leaves no usable entry.
    pub fn shortest_path_query(&mut self, node_id_from: NodeId, node_id_to: NodeId) -> (r: Result<
        QueryResults,
        Status,
    >)
        requires
            old(self).wf(),
        ensures
            final(self).wf(),
            final(self)@.workers.len() == old(self)@.workers.len(),
            forall|i: int|
                0 <= i < old(self)@.workers.len() ==> {
                    &&& (#[trigger] final(self)@.workers[i]).id == old(self)@.workers[i].id
                    &&& final(self)@.workers[i].service@.graph == old(
                        self,
                    )@.workers[i].service@.graph
                    &&& final(self)@.workers[i].service@.mapping == old(
                        self,
                    )@.workers[i].service@.mapping
                },
            final(self)@.query_id_counter == old(self)@.query_id_counter.wrapping_add(1),
            node_id_from == node_id_to ==> r == Ok::<QueryResults, Status>(
                QueryResults { shortest_path_len: Some(0), query_id: None },
            ) && final(self)@.query_coordinators == old(self)@.query_coordinators
                && final(self)@.workers == old(self)@.workers,
            node_id_from != node_id_to && duplicate_claim(
                presence_of(old(self)@.workers, node_id_from, node_id_to),
            ) ==> r == Err::<QueryResults, Status>(Status::Internal),
            node_id_from != node_id_to && !duplicate_claim(
                presence_of(old(self)@.workers, node_id_from, node_id_to),
            ) && endpoint_missing(presence_of(old(self)@.workers, node_id_from, node_id_to)) ==> r
                == Err::<QueryResults, Status>(Status::NotFound),
            node_id_from != node_id_to ==> match r {
                Ok(res) => {
                    &&& res.query_id == Some(old(self)@.query_id_counter)
                    &&& exists|c: QueryCoordinator|
                        final(self)@.query_coordinators == old(
                            self,
                        )@.query_coordinators.insert(
                            old(self)@.query_id_counter,
                            Some(c),
                        ) && (#[trigger] c@.query_id) == old(self)@.query_id_counter
                    &&& (res.shortest_path_len matches Some(d) ==> exists|k: int|
                        {
                            &&& 0 <= k < final(self)@.workers.len()
                            &&& (#[trigger] final(self)@.workers[k]).service@.holder.contains_key(
                                old(self)@.query_id_counter,
                            )
                            &&& (final(self)@.workers[k].service@.holder[old(self)@.query_id_counter]
                                matches QueryProcessorEntry::Ready(p) && {
                                &&& p@.query_id == old(self)@.query_id_counter
                                &&& p@.dist.contains_key(p@.final_node)
                                &&& p@.dist[p@.final_node] == d
                            })
                        })
                },
                Err(_) => final(self)@.query_coordinators == old(self)@.query_coordinators,
            },
    {
        let query_id = self.get_new_query_id();
        if node_id_from == node_id_to {
            return Ok(QueryResults { shortest_path_len: Some(0), query_id: None });
        }
        let mut presence: Vec<ArePresent> = Vec::new();
        let mut i: usize = 0;
        while i < self.workers.len()
            invariant
                i <= self@.workers.len(),
                presence@.len() == i,
                self.wf(),
                self@.workers == old(self)@.workers,
                self@.query_coordinators == old(self)@.query_coordinators,
                self@.query_id_counter == old(self)@.query_id_counter.wrapping_add(1),
                forall|j: int|
                    0 <= j < i ==> #[trigger] presence@[j] == presence_of(
                        old(self)@.workers,
                        node_id_from,
                        node_id_to,
                    )[j],
            decreases self@.workers.len() - i,
        {
            let answer = self.workers[i].service.are_nodes_present(
                NodeIds { node_from_id: node_id_from, node_to_id: node_id_to },
            );
            presence.push(answer);
            i = i + 1;
        }
        proof {
            assert(presence@ =~= presence_of(old(self)@.workers, node_id_from, node_id_to));
        }
        let mut coordinator = match QueryCoordinator::new(
            &self.workers,
            &presence,
            node_id_from,
            node_id_to,
            query_id,
        ) {
            Ok(coordinator) => coordinator,
            Err(e) => {
                return Err(e);
            },
        };
        let results = match coordinator.shortest_path_query(&mut self.workers) {
            Ok(results) => results,
            Err(e) => {
                return Err(e);
            },
        };
        let ghost coord_model = coordinator@;
        self.query_coordinators.insert(query_id, Some(coordinator));
        proof {
            if results.shortest_path_len is Some {
                let k = coord_model.success_worker_idx.unwrap() as int;
                assert(self@.workers[k].service@.holder.contains_key(query_id));
            }
        }
        Ok(results)
    }

    /// Reconstructs the path of a successful query: starting from the
    /// destination on the worker that reported success, walks parent
    /// pointers worker by worker, switching partitions at each foreign hop,
    /// until the start node. The result lists the path from the destination
    /// back to the origin, each node tagged with its worker. On success the
    /// coordinator is parked again; an unknown query is not found, a busy
    /// one is refused, and any error during the walk orphans the query, to
    /// be cleaned up by an explicit forget.
    pub fn get_backtrack_stream(&mut self, query_id: QueryId) -> (r: Result<Vec<Node>, Status>)
        requires
            old(self).wf(),
        ensures
            final(self).wf(),
            final(self)@.workers.len() == old(self)@.workers.len(),
            forall|i: int|
                0 <= i < old(self)@.workers.len() ==> {
                    &&& (#[trigger] final(self)@.workers[i]).id == old(self)@.workers[i].id
                    &&& final(self)@.workers[i].service@ == old(self)@.workers[i].service@
                },
            final(self)@.query_id_counter == old(self)@.query_id_counter,
            !old(self)@.query_coordinators.contains_key(query_id) ==> r == Err::<
                Vec<Node>,
                Status,
            >(Status::NotFound) && final(self)@.query_coordinators == old(
                self,
            )@.query_coordinators,
            old(self)@.query_coordinators.contains_key(query_id)
                && old(self)@.query_coordinators[query_id] is None ==> r == Err::<
                Vec<Node>,
                Status,
            >(Status::InvalidArgument) && final(self)@.query_coordinators == old(
                self,
            )@.query_coordinators,
            r is Ok ==> final(self)@.query_coordinators == old(self)@.query_coordinators,
            !coordinator_unavailable(old(self)@.query_coordinators, query_id) ==> (old(
                self,
            )@.query_coordinators[query_id] matches Some(c) && {
                &&& (c@.success_worker_idx is None ==> r == Err::<Vec<Node>, Status>(
                    Status::NotFound,
                ))
                &&& (c@.success_worker_idx matches Some(k) ==> ({
                    let walked = cross_backtrack_spec(
                        old(self)@.workers,
                        query_id,
                        seq![
                            Node {
                                node_id: c@.node_id_to,
                                worker_id: c@.workers[k as int].id,
                            },
                        ],
                        Some((k as int, c@.node_id_to)),
                        backtrack_fuel(
                            old(self)@.workers,
                            old(self)@.workers.len() as int,
                        ) as nat,
                    );
                    match r {
                        Ok(v) => walked == Ok::<Seq<Node>, Status>(v@),
                        Err(e) => walked == Err::<Seq<Node>, Status>(e),
                    }
                }))
                &&& (r is Err ==> final(self)@.query_coordinators == old(
                    self,
                )@.query_coordinators.insert(query_id, None))
            }),
    {
        let ghost ws0 = old(self)@.workers;
        let coordinator = match self.get_query_coordinator(query_id) {
            Ok(coordinator) => coordinator,
            Err(e) => {
                return Err(e);
            },
        };
        let (start_worker, dest) = match coordinator.backtrack_start() {
            Some(pair) => pair,
            None => {
                // The query never succeeded: there is no recorded path to
                // replay.
                return Err(ErrorCollection::no_path_recorded());
            },
        };
        let mut path: Vec<Node> = Vec::new();
        path.push(Node { node_id: dest, worker_id: coordinator.get_worker_id(start_worker) });
        let mut cursor: Option<(WorkerIdx, NodeId)> = Some((start_worker, dest));
        // The walk visits each node of the path once; more hops than the
        // partitions hold nodes means a broken pointer chain.
        let mut fuel: u64 = 2;
        let mut i: usize = 0;
        while i < self.workers.len()
            invariant
                i <= self@.workers.len(),
                self.wf(),
                self@.workers == old(self)@.workers,
                self@.query_id_counter == old(self)@.query_id_counter,
                self@.query_coordinators == old(self)@.query_coordinators.insert(query_id, None),
                fuel == backtrack_fuel(ws0, i as int),
                ws0 == old(self)@.workers,
            decreases self@.workers.len() - i,
        {
            fuel = fuel.saturating_add(self.workers[i].service.node_count() as u64);
            i = i + 1;
        }
        let ghost target = cross_backtrack_spec(
            ws0,
            query_id,
            path@,
            Some((start_worker as int, dest)),
            fuel as nat,
        );
        proof {
            assert(path@ =~= seq![
                Node {
                    node_id: coordinator@.node_id_to,
                    worker_id: coordinator@.workers[start_worker as int].id,
                },
            ]);
        }
        loop
            invariant
                self.wf(),
                self@.workers.len() == old(self)@.workers.len(),
                forall|j: int|
                    0 <= j < old(self)@.workers.len() ==> {
                        &&& (#[trigger] self@.workers[j]).id == old(self)@.workers[j].id
                        &&& self@.workers[j].service@ == old(self)@.workers[j].service@
                    },
                self@.query_id_counter == old(self)@.query_id_counter,
                self@.query_coordinators == old(self)@.query_coordinators.insert(query_id, None),
                !coordinator_unavailable(old(self)@.query_coordinators, query_id),
                coordinator@.workers.len() == self@.workers.len(),
                coordinator.matches_workers(self@.workers),
                ws0 == old(self)@.workers,
                Some(coordinator) == old(self)@.query_coordinators[query_id],
                coordinator@.success_worker_idx == Some(start_worker),
                target == cross_backtrack_spec(
                    ws0,
                    query_id,
                    seq![
                        Node {
                            node_id: coordinator@.node_id_to,
                            worker_id: coordinator@.workers[start_worker as int].id,
                        },
                    ],
                    Some((start_worker as int, coordinator@.node_id_to)),
                    backtrack_fuel(ws0, ws0.len() as int) as nat,
                ),
                cursor matches Some(pair) ==> (pair.0 as int) < self@.workers.len(),
                cross_backtrack_spec(ws0, query_id, path@, cursor_model(cursor), fuel as nat)
                    == target,
            ensures
                cursor is None,
                cross_backtrack_spec(ws0, query_id, path@, cursor_model(cursor), fuel as nat)
                    == target,
            decreases fuel,
        {
            let (cur_worker_idx, current_node) = match cursor {
                Some(pair) => pair,
                None => {
                    break ;
                },
            };
            if fuel == 0 {
                proof {
                    assert(target == Err::<Seq<Node>, Status>(Status::Internal));
                }
                return Err(ErrorCollection::parent_chain_too_long());
            }
            fuel = fuel - 1;
            let request = RequestBacktrack { query_id, from_node: current_node };
            let worker = &mut self.workers[cur_worker_idx];
            let cur_worker_id = worker.id;
            let items = match worker.service.get_backtrack(request) {
                Ok(items) => items,
                Err(e) => {
                    proof {
                        assert(worker_walk(ws0[cur_worker_idx as int], query_id, current_node)
                            == Err::<
                            (Seq<ResponseBacktrack>, Option<(NodeId, WorkerId)>),
                            Status,
                        >(e));
                        assert(target == Err::<Seq<Node>, Status>(e));
                    }
                    return Err(e);
                },
            };
            proof {
                assert(worker_walk(ws0[cur_worker_idx as int], query_id, current_node)
                    matches Ok(pair) && pair.0 == items@);
            }
            cursor = None;
            let ghost inner_path0 = path@;
            proof {
                assert(items@.skip(0) =~= items@);
            }
            let mut j: usize = 0;
            while j < items.len()
                invariant
                    j <= items@.len(),
                    self.wf(),
                    self@.workers.len() == old(self)@.workers.len(),
                    forall|k: int|
                        0 <= k < old(self)@.workers.len() ==> {
                            &&& (#[trigger] self@.workers[k]).id == old(self)@.workers[k].id
                            &&& self@.workers[k].service@ == old(self)@.workers[k].service@
                        },
                    self@.query_id_counter == old(self)@.query_id_counter,
                    self@.query_coordinators == old(self)@.query_coordinators.insert(
                        query_id,
                        None,
                    ),
                    !coordinator_unavailable(old(self)@.query_coordinators, query_id),
                    coordinator@.workers.len() == self@.workers.len(),
                    coordinator.matches_workers(self@.workers),
                    ws0 == old(self)@.workers,
                    Some(coordinator) == old(self)@.query_coordinators[query_id],
                    coordinator@.success_worker_idx == Some(start_worker),
                    target == cross_backtrack_spec(
                        ws0,
                        query_id,
                        seq![
                            Node {
                                node_id: coordinator@.node_id_to,
                                worker_id: coordinator@.workers[start_worker as int].id,
                            },
                        ],
                        Some((start_worker as int, coordinator@.node_id_to)),
                        backtrack_fuel(ws0, ws0.len() as int) as nat,
                    ),
                    cursor matches Some(pair) ==> (pair.0 as int) < self@.workers.len(),
                    absorb_backtrack_items(
                        ws0,
                        cur_worker_id,
                        items@.skip(j as int),
                        path@,
                        cursor_model(cursor),
                    ) == absorb_backtrack_items(ws0, cur_worker_id, items@, inner_path0, None),
                    match absorb_backtrack_items(ws0, cur_worker_id, items@, inner_path0, None) {
                        Ok(next) => cross_backtrack_spec(
                            ws0,
                            query_id,
                            next.0,
                            next.1,
                            fuel as nat,
                        ) == target,
                        Err(e) => target == Err::<Seq<Node>, Status>(e),
                    },
                decreases items@.len() - j,
            {
                proof {
                    assert(items@.skip(j as int)[0] == items@[j as int]);
                    assert(items@.skip(j as int).drop_first() =~= items@.skip(j as int + 1));
                }
                let item = items[j];
                match item.worker_id {
                    Some(worker_id) => {
                        proof {
                            lemma_find_worker_index(ws0, worker_id);
                            assert forall|i2: int|
                                0 <= i2 < ws0.len() implies (#[trigger] coordinator@.workers[i2].id)
                                == ws0[i2].id by {
                                assert(coordinator@.workers[i2].id == self@.workers[i2].id);
                            }
                        }
                        let worker_idx = match coordinator.find_worker_by_id(worker_id) {
                            Ok(worker_idx) => worker_idx,
                            Err(e) => {
                                proof {
                                    match find_worker_index(ws0, worker_id) {
                                        Ok(k) => {
                                            assert(ws0[k].id == worker_id);
                                            assert(coordinator@.workers[k].id == worker_id);
                                            assert(false);
                                        },
                                        Err(_) => {},
                                    }
                                    assert(find_worker_index(ws0, worker_id) == Err::<
                                        int,
                                        Status,
                                    >(e));
                                    assert(target == Err::<Seq<Node>, Status>(e));
                                }
                                return Err(e);
                            },
                        };
                        proof {
                            match find_worker_index(ws0, worker_id) {
                                Ok(k) => {
                                    if k < worker_idx as int {
                                        assert(ws0[k].id == worker_id);
                                        assert(coordinator@.workers[k].id == worker_id);
                                        assert(false);
                                    }
                                    if k > worker_idx as int {
                                        assert(ws0[worker_idx as int].id == worker_id);
                                        assert(false);
                                    }
                                },
                                Err(_) => {
                                    assert(ws0[worker_idx as int].id == worker_id);
                                    assert(false);
                                },
                            }
                            assert(find_worker_index(ws0, worker_id) == Ok::<int, Status>(
                                worker_idx as int,
                            ));
                        }
                        cursor = Some((worker_idx, item.node_id));
                        path.push(Node { node_id: item.node_id, worker_id });
                    },
                    None => {
                        path.push(Node { node_id: item.node_id, worker_id: cur_worker_id });
                    },
                }
                j = j + 1;
            }
            proof {
                assert(items@.skip(items@.len() as int) =~= Seq::<ResponseBacktrack>::empty());
            }
        }
        self.query_coordinators.insert(query_id, Some(coordinator));
        proof {
            assert(self@.query_coordinators =~= old(self)@.query_coordinators);
        }
        Ok(path)
    }

    /// Forgets a query: its state is dropped from every worker that was
    /// involved in it and from this registry. An unknown query is not
    /// found; one on which some request is still pending is refused. After
    /// a successful forget, a backtrack or a second forget on the same
    /// identifier finds nothing.
    pub fn forget_query(&mut self, query_id: QueryId) -> (r: Result<(), Status>)
        requires
            old(self).wf(),
        ensures
            final(self).wf(),
            final(self)@.workers.len() == old(self)@.workers.len(),
            final(self)@.query_id_counter == old(self)@.query_id_counter,
            forall|i: int|
                0 <= i < old(self)@.workers.len() ==> {
                    &&& (#[trigger] final(self)@.workers[i]).id == old(self)@.workers[i].id
                    &&& final(self)@.workers[i].service@.graph == old(
                        self,
                    )@.workers[i].service@.graph
                    &&& final(self)@.workers[i].service@.mapping == old(
                        self,
                    )@.workers[i].service@.mapping
                },
            !old(self)@.query_coordinators.contains_key(query_id) ==> r == Err::<(), Status>(
                Status::NotFound,
            ) && final(self)@ == old(self)@,
            old(self)@.query_coordinators.contains_key(query_id)
                && old(self)@.query_coordinators[query_id] is None ==> r == Err::<(), Status>(
                Status::InvalidArgument,
            ) && final(self)@ == old(self)@,
            !coordinator_unavailable(old(self)@.query_coordinators, query_id) ==> {
                &&& r is Ok
                &&& final(self)@.query_coordinators == old(self)@.query_coordinators.remove(
                    query_id,
                )
                &&& coordinator_unavailable(final(self)@.query_coordinators, query_id)
                &&& (old(self)@.query_coordinators[query_id] matches Some(c) ==> forall|i: int|
                    0 <= i < old(self)@.workers.len() ==> {
                        &&& ((#[trigger] c@.workers[i]).is_involved
                            ==> final(self)@.workers[i].service@.holder
                            == old(self)@.workers[i].service@.holder.remove(query_id))
                        &&& (!c@.workers[i].is_involved
                            ==> final(self)@.workers[i] == old(self)@.workers[i])
                    })
            },
    {
        let mut coordinator = match self.get_query_coordinator(query_id) {
            Ok(coordinator) => coordinator,
            Err(e) => {
                return Err(e);
            },
        };
        // Delivery failures would only be logged: the query is being
        // discarded anyway. In-process delivery cannot fail.
        let _forget_result = coordinator.send_forget_to_workers(&mut self.workers);
        self.query_coordinators.remove(&query_id);
        proof {
            assert(final(self)@.query_coordinators =~= old(self)@.query_coordinators.remove(
                query_id,
            ));
        }
        Ok(())
    }
}

impl ErrorCollection {
    /// The query does not exist, or some request on it is already pending.
    pub fn query_invalid_or_busy(_query_id: QueryId) -> (r: Status)
        ensures
            r == Status::InvalidArgument,
    {
        Status::InvalidArgument
    }

    /// A backtrack was requested for a query that never reported success.
    pub fn no_path_recorded() -> (r: Status)
        ensures
            r == Status::NotFound,
    {
        Status::NotFound
    }
}

} // verus!
