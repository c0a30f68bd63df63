//! The worker-side registry of query processors. Each query's entry is
//! absent, busy, or ready; checking a processor out marks it busy, so a
//! second concurrent operation on the same query is rejected rather than
//! queued or merged.

use vstd::prelude::*;

use std::collections::HashMap;

use crate::messages::QueryData;
use crate::query_processor::QueryId;
use crate::query_processor::QueryProcessor;
use crate::ErrorCollection;
use crate::Status;

verus! {

broadcast use vstd::std_specs::hash::group_hash_axioms;

/// The state of one query on this worker: a relaxation pass is in flight
/// (busy), or the processor is parked between rounds (ready).
pub enum QueryProcessorEntry {
    Busy,
    Ready(QueryProcessor),
}

/// Concurrency-safe store of query processors, guaranteeing at most one
/// in-flight relaxation pass per query.
pub struct QueryProcessorHolder {
    processors_map: HashMap<QueryId, QueryProcessorEntry>,
}

/// A checkout against this registry state would be refused: the entry is
/// already busy.
pub open spec fn checkout_refused(m: Map<QueryId, QueryProcessorEntry>, query_id: QueryId) -> bool {
    m.contains_key(query_id) && m[query_id] is Busy
}

/// Every parked processor sits under its own query identifier. Holds of the
/// empty registry and is preserved by every operation on it, since a
/// processor is only ever parked back under the identifier it carries.
pub open spec fn holder_keyed(m: Map<QueryId, QueryProcessorEntry>) -> bool {
    forall|qid: QueryId| #[trigger]
        m.contains_key(qid) ==> (m[qid] matches QueryProcessorEntry::Ready(p) ==> p@.query_id
            == qid)
}

impl View for QueryProcessorHolder {
    type V = Map<QueryId, QueryProcessorEntry>;

    closed spec fn view(&self) -> Map<QueryId, QueryProcessorEntry> {
        self.processors_map@
    }
}

impl QueryProcessorHolder {
    pub fn new() -> (r: Self)
        ensures
            r@ == Map::<QueryId, QueryProcessorEntry>::empty(),
    {
        QueryProcessorHolder { processors_map: HashMap::new() }
    }

    /// Checks out the processor of a query that was already contacted,
    /// leaving the entry busy. An absent entry yields no processor and
    /// changes nothing; an entry already busy is a caller error — a second
    /// request arrived before the previous one finished.
    pub fn get_existing(&mut self, query_id: QueryId) -> (r: Result<
        Option<QueryProcessor>,
        Status,
    >)
        ensures
            !old(self)@.contains_key(query_id) ==> (r matches Ok(p) && p is None && final(self)@
                == old(self)@),
            old(self)@.contains_key(query_id) && old(self)@[query_id] is Busy ==> r == Err::<
                Option<QueryProcessor>,
                Status,
            >(Status::InvalidArgument) && final(self)@ == old(self)@,
            (old(self)@.contains_key(query_id) && old(self)@[query_id] matches QueryProcessorEntry::Ready(p))
                ==> (r matches Ok(Some(q)) && old(self)@[query_id] == QueryProcessorEntry::Ready(q)
                && final(self)@ == old(self)@.insert(query_id, QueryProcessorEntry::Busy)),
    {
        if !self.processors_map.contains_key(&query_id) {
            return Ok(None);
        }
        match self.processors_map.insert(query_id, QueryProcessorEntry::Busy) {
            Some(QueryProcessorEntry::Ready(processor)) => Ok(Some(processor)),
            Some(QueryProcessorEntry::Busy) => {
                // Re-inserting Busy over Busy leaves the entry as it was.
                Err(ErrorCollection::processor_busy())
            },
            None => Err(ErrorCollection::processor_busy()),
        }
    }

    /// Checks out the processor for a round, creating a fresh one on the
    /// query's first contact with this worker; either way the entry is left
    /// busy. An entry already busy is a caller error.
    pub fn get_or_create(&mut self, query_data: &QueryData) -> (r: Result<QueryProcessor, Status>)
        ensures
            checkout_refused(old(self)@, query_data.query_id) ==> r == Err::<
                QueryProcessor,
                Status,
            >(Status::InvalidArgument) && final(self)@ == old(self)@,
            !checkout_refused(old(self)@, query_data.query_id) ==> {
                &&& final(self)@ == old(self)@.insert(
                    query_data.query_id,
                    QueryProcessorEntry::Busy,
                )
                &&& r is Ok
                &&& (old(self)@.contains_key(query_data.query_id) ==> (old(
                    self,
                )@[query_data.query_id] matches QueryProcessorEntry::Ready(q) && r == Ok::<
                    QueryProcessor,
                    Status,
                >(q)))
                &&& (!old(self)@.contains_key(query_data.query_id) ==> (r matches Ok(p)
                    && p@.query_id == query_data.query_id && p@.final_node
                    == query_data.final_node_id && p@.parent_map == Map::<
                    crate::graph_store::NodeId,
                    crate::query_processor::NodeParent,
                >::empty() && p@.queue.len() == 0 && p@.smallest_foreign is None && p@.relaxed.len()
                    == 0 && p@.dist == Map::<
                    crate::graph_store::NodeId,
                    crate::graph_store::ShortestPathLen,
                >::empty()))
            },
    {
        match self.processors_map.insert(query_data.query_id, QueryProcessorEntry::Busy) {
            None => Ok(QueryProcessor::new(query_data)),
            Some(QueryProcessorEntry::Ready(processor)) => Ok(processor),
            Some(QueryProcessorEntry::Busy) => Err(ErrorCollection::processor_busy()),
        }
    }

    /// Parks a checked-out processor back under its query, marking the
    /// entry ready again.
    pub fn put_back_query(&mut self, processor: QueryProcessor)
        requires
            checkout_refused(old(self)@, processor@.query_id),
        ensures
            final(self)@ == old(self)@.insert(
                processor@.query_id,
                QueryProcessorEntry::Ready(processor),
            ),
    {
        let query_id = processor.query_id();
        self.processors_map.insert(query_id, QueryProcessorEntry::Ready(processor));
    }

    /// Drops the query's processor and all information about the query.
    /// Forgetting a query this worker does not hold changes nothing.
    pub fn forget_query(&mut self, query_id: QueryId)
        ensures
            final(self)@ == old(self)@.remove(query_id),
            !final(self)@.contains_key(query_id),
    {
        self.processors_map.remove(&query_id);
        proof {
            assert(final(self)@ =~= old(self)@.remove(query_id));
        }
    }
}

/// After a processor is checked out for a round, a second checkout of the
/// same query is refused until the first is parked back: the registry state
/// a successful checkout leaves behind refuses every further checkout of
/// that query.
pub proof fn lemma_second_checkout_refused(
    m: Map<QueryId, QueryProcessorEntry>,
    query_id: QueryId,
)
    ensures
        checkout_refused(m.insert(query_id, QueryProcessorEntry::Busy), query_id),
{
}

/// Forgetting a query removes its entry entirely, so a later checkout of
/// the same query finds no retained state: it is not refused as busy, and
/// holds no processor to hand out.
pub proof fn lemma_forget_clears_query(m: Map<QueryId, QueryProcessorEntry>, query_id: QueryId)
    ensures
        !m.remove(query_id).contains_key(query_id),
        !checkout_refused(m.remove(query_id), query_id),
{
}

impl ErrorCollection {
    /// A second request for a query arrived while a previous one was still
    /// in flight.
    pub fn processor_busy() -> (r: Status)
        ensures
            r == Status::InvalidArgument,
    {
        Status::InvalidArgument
    }
}

} // verus!
