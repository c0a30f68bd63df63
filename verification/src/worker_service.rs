//! The worker's service surface: the presence check, one round of the
//! search, the backtracking walk, and forgetting a query. Each operation is
//! a plain exchange of message values; a transport may carry them between
//! processes, and in-process callers invoke them directly.

use vstd::prelude::*;

use crate::graph_store::store_wf;
use crate::graph_store::IdIdxMapping;
use crate::graph_store::NodeId;
use crate::graph_store::NodeIdx;
use crate::graph_store::NodePayload;
use crate::graph_store::SPQGraph;
use crate::graph_store::WorkerId;
use crate::messages::ArePresent;
use crate::messages::ForgetQueryMessage;
use crate::messages::NodeIds;
use crate::messages::RequestBacktrack;
use crate::messages::RequestDjikstra;
use crate::messages::ResponseBacktrack;
use crate::messages::ResponseDjikstra;
use crate::messages::QueryData;
use crate::query_processor::processor_inv;
use crate::query_processor::QueryId;
use crate::query_processor_holder::checkout_refused;
use crate::query_processor_holder::holder_keyed;
use crate::query_processor_holder::QueryProcessorEntry;
use crate::query_processor_holder::QueryProcessorHolder;
use crate::query_processor::ProcessorModel;
use crate::query_realizator;
use crate::query_realizator::apply_update_spec;
use crate::query_realizator::backtrack_walk_spec;
use crate::query_realizator::round_error_source;
use crate::query_realizator::round_parked;
use crate::query_realizator::round_reply;
use crate::ErrorCollection;
use crate::Status;

verus! {

broadcast use vstd::std_specs::hash::group_hash_axioms;

/// The mathematical model of one worker: its immutable partition, the
/// identifier mapping, and the per-query processor registry.
pub struct WorkerServiceModel {
    pub graph: Seq<NodePayload>,
    pub mapping: Map<NodeId, NodeIdx>,
    pub holder: Map<QueryId, QueryProcessorEntry>,
}

/// One worker: its graph partition store (read-only after startup) and the
/// registry of per-query search state.
pub struct WorkerService {
    graph: SPQGraph,
    mapping: IdIdxMapping,
    holder: QueryProcessorHolder,
}

impl View for WorkerService {
    type V = WorkerServiceModel;

    closed spec fn view(&self) -> WorkerServiceModel {
        WorkerServiceModel { graph: self.graph@, mapping: self.mapping@, holder: self.holder@ }
    }
}

/// The search state a fresh query starts from on a worker: nothing
/// visited, nothing queued, no foreign bound.
pub open spec fn fresh_processor_model(data: QueryData) -> ProcessorModel {
    ProcessorModel {
        parent_map: Map::empty(),
        queue: Seq::empty(),
        smallest_foreign: None,
        final_node: data.final_node_id,
        query_id: data.query_id,
        relaxed: Seq::empty(),
        dist: Map::empty(),
    }
}

/// The state a round checks out: the query's parked processor, or the
/// fresh state on the query's first contact with this worker. (Meaningful
/// only when the entry is not busy.)
pub open spec fn checked_out_model(
    holder: Map<QueryId, QueryProcessorEntry>,
    data: QueryData,
) -> ProcessorModel {
    if holder.contains_key(data.query_id) {
        match holder[data.query_id] {
            QueryProcessorEntry::Ready(q) => q@,
            QueryProcessorEntry::Busy => fresh_processor_model(data),
        }
    } else {
        fresh_processor_model(data)
    }
}

impl WorkerService {
    /// The worker's well-formedness: the store is consistent, every parked
    /// processor sits under its own query identifier, and every parked
    /// processor is well-formed against this worker's partition.
    pub open spec fn wf(&self) -> bool {
        &&& store_wf(self@.graph, self@.mapping)
        &&& holder_keyed(self@.holder)
        &&& forall|qid: QueryId| #[trigger]
            self@.holder.contains_key(qid) ==> (self@.holder[qid]
                matches QueryProcessorEntry::Ready(p) ==> p.inv(self@.graph))
    }

    /// Wraps an already-built, immutable partition into a worker with no
    /// active queries.
    pub fn new(graph: SPQGraph, mapping: IdIdxMapping) -> (r: Self)
        requires
            store_wf(graph@, mapping@),
        ensures
            r.wf(),
            r@.graph == graph@,
            r@.mapping == mapping@,
            r@.holder == Map::<QueryId, QueryProcessorEntry>::empty(),
    {
        WorkerService { graph, mapping, holder: QueryProcessorHolder::new() }
    }

    /// How many nodes this worker's partition holds.
    pub fn node_count(&self) -> (r: usize)
        ensures
            r == self@.graph.len(),
    {
        self.graph.len()
    }

    /// Answers the coordinator's presence check: whether this partition
    /// holds each of the query's two endpoints.
    pub fn are_nodes_present(&self, request: NodeIds) -> (r: ArePresent)
        ensures
            r.node_from_present == self@.mapping.contains_key(request.node_from_id),
            r.node_to_present == self@.mapping.contains_key(request.node_to_id),
    {
        let node_from_present = self.mapping.contains_key(&request.node_from_id);
        let node_to_present = self.mapping.contains_key(&request.node_to_id);
        ArePresent { node_from_present, node_to_present }
    }

    /// Drops everything this worker holds for a query; forgetting a query
    /// it does not hold changes nothing.
    pub fn forget_query(&mut self, request: ForgetQueryMessage)
        requires
            old(self).wf(),
        ensures
            final(self).wf(),
            final(self)@.graph == old(self)@.graph,
            final(self)@.mapping == old(self)@.mapping,
            final(self)@.holder == old(self)@.holder.remove(request.query_id),
    {
        self.holder.forget_query(request.query_id);
    }

    /// Replays parent pointers for a backtrack request; the registry is left
    /// exactly as it was.
    pub fn get_backtrack(&mut self, request: RequestBacktrack) -> (r: Result<
        Vec<ResponseBacktrack>,
        Status,
    >)
        requires
            old(self).wf(),
        ensures
            final(self).wf(),
            final(self)@ == old(self)@,
            !old(self)@.holder.contains_key(request.query_id) ==> r == Err::<
                Vec<ResponseBacktrack>,
                Status,
            >(Status::NotFound),
            checkout_refused(old(self)@.holder, request.query_id) ==> r == Err::<
                Vec<ResponseBacktrack>,
                Status,
            >(Status::InvalidArgument),
            old(self)@.holder.contains_key(request.query_id) ==> match old(
                self,
            )@.holder[request.query_id] {
                QueryProcessorEntry::Busy => true,
                QueryProcessorEntry::Ready(p) => ({
                    let walked = backtrack_walk_spec(
                        p@.parent_map,
                        old(self)@.graph,
                        request.from_node,
                        p@.parent_map.dom().len(),
                    );
                    match r {
                        Ok(v) => walked matches Ok(pair) && pair.0 == v@,
                        Err(e) => walked == Err::<
                            (Seq<ResponseBacktrack>, Option<(NodeId, WorkerId)>),
                            Status,
                        >(e),
                    }
                }),
            },
    {
        query_realizator::get_backtrack_stream(request, &self.graph, &mut self.holder)
    }

    /// Runs one round of the search on this worker: the first message must
    /// be the round's descriptor; the remaining messages are merged into the
    /// checked-out state exactly as the merge fold says, one relaxation pass
    /// runs, and the reply is the pass's messages (or the single success
    /// message naming the parked state's final node at its recorded
    /// distance). A round for a query whose previous round is still in
    /// flight is refused and changes nothing. On any other error — the merge
    /// fold's own error, or the pass's overflow — the query is abandoned for
    /// safety: its state is dropped.
    pub fn update_djikstra(&mut self, messages: Vec<RequestDjikstra>) -> (r: Result<
        Vec<ResponseDjikstra>,
        Status,
    >)
        requires
            old(self).wf(),
        ensures
            final(self).wf(),
            final(self)@.graph == old(self)@.graph,
            final(self)@.mapping == old(self)@.mapping,
            r matches Err(e) ==> (e == Status::NotFound || e == Status::InvalidArgument || e
                == Status::Internal),
            messages@.len() == 0 ==> r == Err::<Vec<ResponseDjikstra>, Status>(
                Status::InvalidArgument,
            ) && final(self)@ == old(self)@,
            messages@.len() > 0 ==> match messages@[0] {
                RequestDjikstra::NewDomesticNode(_) => r == Err::<Vec<ResponseDjikstra>, Status>(
                    Status::InvalidArgument,
                ) && final(self)@ == old(self)@,
                RequestDjikstra::QueryData(data) => {
                    let start = ProcessorModel {
                        smallest_foreign: data.smallest_foreign_node,
                        ..checked_out_model(old(self)@.holder, data)
                    };
                    let folded = apply_update_spec(
                        start,
                        messages@.drop_first(),
                        old(self)@.mapping,
                    );
                    &&& (checkout_refused(old(self)@.holder, data.query_id) ==> r == Err::<
                        Vec<ResponseDjikstra>,
                        Status,
                    >(Status::InvalidArgument) && final(self)@ == old(self)@)
                    &&& (!checkout_refused(old(self)@.holder, data.query_id) ==> match r {
                        Ok(v) => {
                            &&& folded.1 is Ok
                            &&& exists|p: crate::query_processor::QueryProcessor|
                                final(self)@.holder == old(self)@.holder.insert(
                                    data.query_id,
                                    QueryProcessorEntry::Ready(p),
                                ) && #[trigger] round_parked(p, folded.0, old(self)@.graph)
                                    && round_reply(p, old(self)@.graph, v@)
                            &&& (forall|i: int|
                                0 <= i < v@.len() ==> (#[trigger] v@[i]
                                    matches ResponseDjikstra::Success(s) ==> {
                                    &&& final(self)@.holder.contains_key(data.query_id)
                                    &&& (final(self)@.holder[data.query_id]
                                        matches QueryProcessorEntry::Ready(p) && {
                                        &&& p@.query_id == data.query_id
                                        &&& s.node_id == p@.final_node
                                        &&& p@.dist.contains_key(s.node_id)
                                        &&& p@.dist[s.node_id] == s.shortest_path_len
                                    })
                                }))
                        },
                        Err(e) => {
                            &&& final(self)@.holder == old(self)@.holder.remove(data.query_id)
                            &&& round_error_source(folded.1, e)
                        },
                    })
                },
            },
    {
        let mut msgs = messages;
        if msgs.len() == 0 {
            return Err(ErrorCollection::wrong_first_message());
        }
        let query_data: QueryData = match msgs.remove(0) {
            RequestDjikstra::QueryData(data) => data,
            RequestDjikstra::NewDomesticNode(_) => {
                return Err(ErrorCollection::wrong_first_message());
            },
        };
        proof {
            assert(messages@.remove(0) =~= messages@.drop_first());
        }
        let processor = match self.holder.get_or_create(&query_data) {
            Ok(processor) => processor,
            Err(e) => {
                return Err(ErrorCollection::duplicated_request(e));
            },
        };
        proof {
            if !old(self)@.holder.contains_key(query_data.query_id) {
                assert(processor_inv(processor@, self@.graph));
                assert(processor@.queue =~= Seq::<crate::query_processor::QueueElement>::empty());
                assert(processor@.relaxed =~= Seq::<NodeId>::empty());
                assert(processor@ == fresh_processor_model(query_data));
            }
            assert(processor@ == checked_out_model(old(self)@.holder, query_data));
            let start = ProcessorModel {
                smallest_foreign: query_data.smallest_foreign_node,
                ..checked_out_model(old(self)@.holder, query_data)
            };
            assert(processor_inv(start, self@.graph));
            crate::query_realizator::lemma_apply_update_spec_inv(
                start,
                messages@.drop_first(),
                self@.graph,
                self@.mapping,
            );
        }
        let response = query_realizator::update_djikstra(
            &query_data,
            processor,
            &msgs,
            &self.graph,
            &self.mapping,
            &mut self.holder,
        );
        let ghost mid = old(self)@.holder.insert(query_data.query_id, QueryProcessorEntry::Busy);
        let ghost folded = apply_update_spec(
            ProcessorModel {
                smallest_foreign: query_data.smallest_foreign_node,
                ..checked_out_model(old(self)@.holder, query_data)
            },
            messages@.drop_first(),
            old(self)@.mapping,
        );
        match response {
            Ok(response) => {
                proof {
                    let p = choose|p: crate::query_processor::QueryProcessor|
                        self@.holder == mid.insert(
                            query_data.query_id,
                            QueryProcessorEntry::Ready(p),
                        ) && #[trigger] round_parked(p, folded.0, self@.graph) && round_reply(
                            p,
                            self@.graph,
                            response@,
                        );
                    assert(mid.insert(query_data.query_id, QueryProcessorEntry::Ready(p))
                        =~= old(self)@.holder.insert(
                        query_data.query_id,
                        QueryProcessorEntry::Ready(p),
                    ));
                    assert(p@.query_id == query_data.query_id);
                    assert forall|i: int|
                        0 <= i < response@.len() implies (#[trigger] response@[i]
                        matches ResponseDjikstra::Success(su) ==> {
                        &&& self@.holder.contains_key(query_data.query_id)
                        &&& (self@.holder[query_data.query_id]
                            matches QueryProcessorEntry::Ready(q2) && {
                            &&& q2@.query_id == query_data.query_id
                            &&& su.node_id == q2@.final_node
                            &&& q2@.dist.contains_key(su.node_id)
                            &&& q2@.dist[su.node_id] == su.shortest_path_len
                        })
                    }) by {
                        if response@[i] matches ResponseDjikstra::Success(su) {
                            assert(round_reply(p, self@.graph, response@));
                            assert(self@.holder[query_data.query_id]
                                == QueryProcessorEntry::Ready(p));
                        }
                    }
                    assert forall|qid: QueryId| #[trigger]
                        self@.holder.contains_key(qid) implies (self@.holder[qid]
                        matches QueryProcessorEntry::Ready(q) ==> q@.query_id == qid && q.inv(
                        self@.graph,
                    )) by {
                        if qid != query_data.query_id {
                            assert(old(self)@.holder.contains_key(qid));
                        }
                    }
                }
                Ok(response)
            },
            Err(error) => {
                self.holder.forget_query(query_data.query_id);
                proof {
                    assert(self@.holder =~= old(self)@.holder.remove(query_data.query_id));
                }
                Err(error)
            },
        }
    }
}

impl ErrorCollection {
    /// The first message of a round's stream was not the descriptor.
    pub fn wrong_first_message() -> (r: Status)
        ensures
            r == Status::InvalidArgument,
    {
        Status::InvalidArgument
    }

    /// A round arrived while another round on the same query was still
    /// pending.
    pub fn duplicated_request(_e: Status) -> (r: Status)
        ensures
            r == Status::InvalidArgument,
    {
        Status::InvalidArgument
    }
}

} // verus!
