//! The executer's client-facing surface: a thin shell over the queries
//! manager. A transport would unwrap its requests here; the verified core
//! takes and returns plain values.

use vstd::prelude::*;

use crate::graph_store::NodeId;
use crate::messages::Node;
use crate::messages::QueryResults;
use crate::queries_manager::backtrack_fuel;
use crate::queries_manager::coordinator_unavailable;
use crate::queries_manager::cross_backtrack_spec;
use crate::queries_manager::presence_of;
use crate::queries_manager::QueriesManager;
use crate::query_coordinator::duplicate_claim;
use crate::query_coordinator::endpoint_missing;
use crate::query_processor_holder::QueryProcessorEntry;
use crate::query_processor::QueryId;
use crate::Status;

verus! {

/// The client-facing service of the executer.
pub struct ExecuterService {
    queries_manager: QueriesManager,
}

impl ExecuterService {
    pub open spec fn wf(&self) -> bool {
        self.manager_view().wf()
    }

    pub closed spec fn manager_view(&self) -> QueriesManager {
        self.queries_manager
    }

    /// Wraps the queries manager that owns the worker connections.
    pub fn new(queries_manager: QueriesManager) -> (r: Self)
        requires
            queries_manager.wf(),
        ensures
            r.wf(),
            r.manager_view() == queries_manager,
    {
        ExecuterService { queries_manager }
    }

    /// Answers a path query; equal endpoints are the zero-distance success
    /// that retains no query state. Each call consumes one query identifier
    /// from the wrapping counter; a successful search parks its state so
    /// the reported distance is the recorded distance of the final node on
    /// the worker that reported success.
    pub fn shortest_path_query(&mut self, node_id_from: NodeId, node_id_to: NodeId) -> (r: Result<
        QueryResults,
        Status,
    >)
        requires
            old(self).wf(),
        ensures
            final(self).wf(),
            final(self).manager_view()@.query_id_counter == old(
                self,
            ).manager_view()@.query_id_counter.wrapping_add(1),
            node_id_from == node_id_to ==> r == Ok::<QueryResults, Status>(
                QueryResults { shortest_path_len: Some(0), query_id: None },
            ) && final(self).manager_view()@.query_coordinators == old(
                self,
            ).manager_view()@.query_coordinators,
            node_id_from != node_id_to && duplicate_claim(
                presence_of(old(self).manager_view()@.workers, node_id_from, node_id_to),
            ) ==> r == Err::<QueryResults, Status>(Status::Internal),
            node_id_from != node_id_to && !duplicate_claim(
                presence_of(old(self).manager_view()@.workers, node_id_from, node_id_to),
            ) && endpoint_missing(
                presence_of(old(self).manager_view()@.workers, node_id_from, node_id_to),
            ) ==> r == Err::<QueryResults, Status>(Status::NotFound),
            node_id_from != node_id_to ==> (r matches Ok(res) ==> res.query_id == Some(
                old(self).manager_view()@.query_id_counter,
            ) && (res.shortest_path_len matches Some(d) ==> exists|k: int|
                {
                    &&& 0 <= k < final(self).manager_view()@.workers.len()
                    &&& (#[trigger] final(self).manager_view()@.workers[k]).service@.holder.contains_key(
                        old(self).manager_view()@.query_id_counter,
                    )
                    &&& (final(self).manager_view()@.workers[k].service@.holder[old(
                        self,
                    ).manager_view()@.query_id_counter] matches QueryProcessorEntry::Ready(p) && {
                        &&& p@.query_id == old(self).manager_view()@.query_id_counter
                        &&& p@.dist.contains_key(p@.final_node)
                        &&& p@.dist[p@.final_node] == d
                    })
                })),
    {
        self.queries_manager.shortest_path_query(node_id_from, node_id_to)
    }

    /// Replays the path of a successful query: exactly the cross-partition
    /// walk over the recorded parent pointers, destination first.
    pub fn backtrack_path_for_query(&mut self, query_id: QueryId) -> (r: Result<Vec<Node>, Status>)
        requires
            old(self).wf(),
        ensures
            final(self).wf(),
            !old(self).manager_view()@.query_coordinators.contains_key(query_id) ==> r == Err::<
                Vec<Node>,
                Status,
            >(Status::NotFound),
            old(self).manager_view()@.query_coordinators.contains_key(query_id) && old(
                self,
            ).manager_view()@.query_coordinators[query_id] is None ==> r == Err::<
                Vec<Node>,
                Status,
            >(Status::InvalidArgument),
            !coordinator_unavailable(
                old(self).manager_view()@.query_coordinators,
                query_id,
            ) ==> (old(self).manager_view()@.query_coordinators[query_id] matches Some(c) && {
                &&& (c@.success_worker_idx is None ==> r == Err::<Vec<Node>, Status>(
                    Status::NotFound,
                ))
                &&& (c@.success_worker_idx matches Some(k) ==> ({
                    let walked = cross_backtrack_spec(
                        old(self).manager_view()@.workers,
                        query_id,
                        seq![
                            Node {
                                node_id: c@.node_id_to,
                                worker_id: c@.workers[k as int].id,
                            },
                        ],
                        Some((k as int, c@.node_id_to)),
                        backtrack_fuel(
                            old(self).manager_view()@.workers,
                            old(self).manager_view()@.workers.len() as int,
                        ) as nat,
                    );
                    match r {
                        Ok(v) => walked == Ok::<Seq<Node>, Status>(v@),
                        Err(e) => walked == Err::<Seq<Node>, Status>(e),
                    }
                }))
            }),
    {
        self.queries_manager.get_backtrack_stream(query_id)
    }

    /// Drops a query's state everywhere: the registry entry is removed and
    /// every worker that was involved in the query loses its state for it.
    /// An unknown query is not found; a busy one is refused.
    pub fn forget_query(&mut self, query_id: QueryId) -> (r: Result<(), Status>)
        requires
            old(self).wf(),
        ensures
            final(self).wf(),
            !old(self).manager_view()@.query_coordinators.contains_key(query_id) ==> r == Err::<
                (),
                Status,
            >(Status::NotFound),
            old(self).manager_view()@.query_coordinators.contains_key(query_id) && old(
                self,
            ).manager_view()@.query_coordinators[query_id] is None ==> r == Err::<(), Status>(
                Status::InvalidArgument,
            ),
            !coordinator_unavailable(old(self).manager_view()@.query_coordinators, query_id) ==> {
                &&& r is Ok
                &&& coordinator_unavailable(
                    final(self).manager_view()@.query_coordinators,
                    query_id,
                )
                &&& (old(self).manager_view()@.query_coordinators[query_id] matches Some(c)
                    ==> forall|i: int|
                    0 <= i < old(self).manager_view()@.workers.len() ==> {
                        &&& ((#[trigger] c@.workers[i]).is_involved
                            ==> final(self).manager_view()@.workers[i].service@.holder
                            == old(self).manager_view()@.workers[i].service@.holder.remove(
                            query_id,
                        ))
                        &&& (!c@.workers[i].is_involved
                            ==> final(self).manager_view()@.workers[i]
                            == old(self).manager_view()@.workers[i])
                    })
            },
    {
        self.queries_manager.forget_query(query_id)
    }
}

} // verus!
