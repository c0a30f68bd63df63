//! Tests of the worker-side components: the partition store, the query
//! processor's relaxation step, the busy/ready registry, and the round
//! protocol surface of one worker.

use spq::graph_receiver::{receive_edge, receive_node};
use spq::graph_store::{get_mapping, get_node, IdIdxMapping, SPQGraph};
use spq::messages::{
    NewDomesticNode, QueryData, RequestBacktrack, RequestDjikstra, ResponseDjikstra,
};
use spq::proto_helpers;
use spq::query_processor::{NodeParent, QueryProcessor, QueueElement, StepResult};
use spq::query_processor_holder::QueryProcessorHolder;
use spq::worker_service::WorkerService;
use spq::Status;

/// One partition: nodes 1 -> 2 -> 3 domestically (weights 4 and 5), plus a
/// foreign edge 2 -> 40 (weight 1) owned by worker 9.
fn small_partition() -> (SPQGraph, IdIdxMapping) {
    let mut graph = SPQGraph::new();
    let mut mapping = IdIdxMapping::new();
    for node in [1u64, 2, 3] {
        receive_node(&mut graph, &mut mapping, node).unwrap();
    }
    receive_edge(&mut graph, &mapping, 1, 2, None, 4).unwrap();
    receive_edge(&mut graph, &mapping, 2, 3, None, 5).unwrap();
    receive_edge(&mut graph, &mapping, 2, 40, Some(9), 1).unwrap();
    (graph, mapping)
}

fn query_data(query_id: u32, final_node_id: u64) -> QueryData {
    QueryData { query_id, final_node_id, smallest_foreign_node: None }
}

#[test]
fn receive_node_assigns_consecutive_indices() {
    let mut graph = SPQGraph::new();
    let mut mapping = IdIdxMapping::new();
    assert_eq!(receive_node(&mut graph, &mut mapping, 100), Ok(0));
    assert_eq!(receive_node(&mut graph, &mut mapping, 200), Ok(1));
    assert_eq!(get_mapping(&mapping, 200), Ok(1));
    assert_eq!(get_node(&graph, 1).id, 200);
}

#[test]
fn receive_node_rejects_duplicate_identifier() {
    let mut graph = SPQGraph::new();
    let mut mapping = IdIdxMapping::new();
    receive_node(&mut graph, &mut mapping, 100).unwrap();
    assert_eq!(receive_node(&mut graph, &mut mapping, 100), Err(Status::Internal));
    assert_eq!(graph.len(), 1);
}

#[test]
fn receive_edge_rejects_unknown_source() {
    let mut graph = SPQGraph::new();
    let mut mapping = IdIdxMapping::new();
    receive_node(&mut graph, &mut mapping, 1).unwrap();
    assert_eq!(
        receive_edge(&mut graph, &mapping, 5, 1, None, 2),
        Err(Status::NotFound)
    );
    assert_eq!(
        receive_edge(&mut graph, &mapping, 1, 5, None, 2),
        Err(Status::NotFound)
    );
}

#[test]
fn get_mapping_reports_missing_node() {
    let mapping = IdIdxMapping::new();
    assert_eq!(get_mapping(&mapping, 3), Err(Status::NotFound));
}

#[test]
fn queue_element_keeps_its_fields() {
    let element = QueueElement::new(4, 17);
    assert_eq!(element.idx, 4);
    assert_eq!(element.shortest, 17);
}

#[test]
fn processor_relaxes_a_whole_domestic_chain() {
    let (graph, mapping) = small_partition();
    let mut processor = QueryProcessor::new(&query_data(5, 3));
    assert_eq!(processor.query_id(), 5);
    processor
        .add_new_domestic_node(1, 0, NodeParent::Root, &mapping)
        .unwrap();
    let (processor, step) = processor.djikstra_step(&graph);
    let result = step.unwrap();
    match result {
        StepResult::Finished(node, distance) => {
            assert_eq!(node, 3);
            assert_eq!(distance, 9);
        }
        StepResult::Remaining(_) => panic!("expected the final node to be reached"),
    }
    // The path is recorded: 3's parent is 2 (index 1), 2's parent is 1
    // (index 0), 1 is the root.
    assert_eq!(processor.get_parent(3), Some(NodeParent::Domestic(1)));
    assert_eq!(processor.get_parent(2), Some(NodeParent::Domestic(0)));
    assert_eq!(processor.get_parent(1), Some(NodeParent::Root));
    // The pass short-circuited at the final node, so the foreign edge out
    // of node 2 was never relaxed.
    assert_eq!(processor.get_parent(40), None);
}

#[test]
fn processor_emits_foreign_node_and_watermark() {
    let (graph, mapping) = small_partition();
    // The query is after a node this partition never reaches, so the pass
    // runs until the frontier empties, reporting the foreign discovery.
    let mut processor = QueryProcessor::new(&query_data(5, 77));
    processor
        .add_new_domestic_node(1, 0, NodeParent::Root, &mapping)
        .unwrap();
    let (mut processor, step) = processor.djikstra_step(&graph);
    let result = step.unwrap();
    match result {
        StepResult::Remaining(responses) => {
            // Node 40 is discovered at distance 5 from parent 2; its
            // distance becomes the pass's own foreign bound, so the
            // remaining frontier entry (node 3 at distance 9) is reported
            // as the watermark.
            assert_eq!(
                responses,
                vec![
                    proto_helpers::new_foreign_node(40, 9, 2, 5),
                    proto_helpers::domestic_smallest_node(9),
                ]
            );
        }
        StepResult::Finished(_, _) => panic!("final node is not in this partition"),
    }
    // A later round with a still tighter foreign bound stops at once and
    // repeats the watermark.
    processor.update_smallest_foreign(Some(1));
    let (_, step) = processor.djikstra_step(&graph);
    let result = step.unwrap();
    match result {
        StepResult::Remaining(responses) => {
            assert_eq!(responses, vec![proto_helpers::domestic_smallest_node(9)]);
        }
        StepResult::Finished(_, _) => panic!("the bound must stop the pass"),
    }
    drop(mapping);
}

#[test]
fn processor_ignores_already_visited_inbound_nodes() {
    let (graph, mapping) = small_partition();
    let mut processor = QueryProcessor::new(&query_data(5, 77));
    processor
        .add_new_domestic_node(1, 0, NodeParent::Root, &mapping)
        .unwrap();
    processor
        .add_new_domestic_node(1, 3, NodeParent::Foreign(40, 9), &mapping)
        .unwrap();
    assert_eq!(processor.get_parent(1), Some(NodeParent::Root));
    assert_eq!(
        processor.add_new_domestic_node(99, 0, NodeParent::Root, &mapping),
        Err(Status::NotFound)
    );
    drop(graph);
}

#[test]
fn holder_refuses_second_checkout_until_put_back() {
    let mut holder = QueryProcessorHolder::new();
    let data = query_data(3, 10);
    let processor = holder.get_or_create(&data).unwrap();
    // The first round is in flight: a second request on the same query is
    // a caller error, while other queries are untouched.
    assert!(matches!(holder.get_or_create(&data), Err(Status::InvalidArgument)));
    assert!(matches!(holder.get_existing(3), Err(Status::InvalidArgument)));
    holder.put_back_query(processor);
    let processor = holder.get_existing(3).unwrap().expect("parked processor");
    assert_eq!(processor.query_id(), 3);
}

#[test]
fn holder_forget_clears_the_query() {
    let mut holder = QueryProcessorHolder::new();
    let data = query_data(3, 10);
    let processor = holder.get_or_create(&data).unwrap();
    holder.put_back_query(processor);
    holder.forget_query(3);
    // The entry is gone: a fresh checkout finds nothing retained.
    assert!(holder.get_existing(3).unwrap().is_none());
    // Forgetting an unknown query changes nothing and does not fail.
    holder.forget_query(44);
}

#[test]
fn worker_round_requires_descriptor_first() {
    let (graph, mapping) = small_partition();
    let mut worker = WorkerService::new(graph, mapping);
    assert_eq!(
        worker.update_djikstra(Vec::new()),
        Err(Status::InvalidArgument)
    );
    let stray = RequestDjikstra::NewDomesticNode(NewDomesticNode {
        node_id: 1,
        shortest_path_len: 0,
        parent_node: None,
    });
    assert_eq!(worker.update_djikstra(vec![stray]), Err(Status::InvalidArgument));
}

#[test]
fn worker_round_rejects_duplicate_descriptor_mid_stream() {
    let (graph, mapping) = small_partition();
    let mut worker = WorkerService::new(graph, mapping);
    let descriptor = proto_helpers::pack_query_data(query_data(8, 3));
    let duplicate = proto_helpers::pack_query_data(query_data(8, 3));
    assert_eq!(
        worker.update_djikstra(vec![descriptor, duplicate]),
        Err(Status::InvalidArgument)
    );
    // The malformed round abandoned the query: a backtrack finds nothing.
    assert_eq!(
        worker.get_backtrack(RequestBacktrack { query_id: 8, from_node: 3 }),
        Err(Status::NotFound)
    );
}

#[test]
fn worker_round_reports_success_message() {
    let (graph, mapping) = small_partition();
    let mut worker = WorkerService::new(graph, mapping);
    let descriptor = proto_helpers::pack_query_data(query_data(8, 3));
    let seed = proto_helpers::pack_new_domestic_node(NewDomesticNode {
        node_id: 1,
        shortest_path_len: 0,
        parent_node: None,
    });
    let responses = worker.update_djikstra(vec![descriptor, seed]).unwrap();
    assert_eq!(responses, vec![proto_helpers::success(3, 9)]);
    // The processor is parked, so the path can be replayed afterwards.
    let walk = worker
        .get_backtrack(RequestBacktrack { query_id: 8, from_node: 3 })
        .unwrap();
    let ids: Vec<u64> = walk.iter().map(|i| i.node_id).collect();
    assert_eq!(ids, vec![2, 1]);
    assert!(walk.iter().all(|i| i.worker_id.is_none()));
}

#[test]
fn worker_backtrack_fails_on_missing_parent() {
    let (graph, mapping) = small_partition();
    let mut worker = WorkerService::new(graph, mapping);
    let descriptor = proto_helpers::pack_query_data(query_data(8, 3));
    let seed = proto_helpers::pack_new_domestic_node(NewDomesticNode {
        node_id: 1,
        shortest_path_len: 0,
        parent_node: None,
    });
    worker.update_djikstra(vec![descriptor, seed]).unwrap();
    // Node 40 is foreign here; this worker never visited node 77 at all.
    assert_eq!(
        worker.get_backtrack(RequestBacktrack { query_id: 8, from_node: 77 }),
        Err(Status::NotFound)
    );
}

#[test]
fn presence_check_answers_per_endpoint() {
    let (graph, mapping) = small_partition();
    let worker = WorkerService::new(graph, mapping);
    let answer = worker.are_nodes_present(spq::messages::NodeIds {
        node_from_id: 1,
        node_to_id: 77,
    });
    assert!(answer.node_from_present);
    assert!(!answer.node_to_present);
}

#[test]
fn response_messages_carry_their_fields() {
    match proto_helpers::new_foreign_node(40, 9, 2, 5) {
        ResponseDjikstra::NewForeignNode(m) => {
            assert_eq!(m.this_node.node_id, 40);
            assert_eq!(m.this_node.worker_id, 9);
            assert_eq!(m.parent_node_id, 2);
            assert_eq!(m.shortest_path_len, 5);
        }
        _ => panic!("wrong message variant"),
    }
    match proto_helpers::domestic_smallest_node(6) {
        ResponseDjikstra::SmallestDomesticNode(m) => assert_eq!(m.shortest_path_len, 6),
        _ => panic!("wrong message variant"),
    }
    match proto_helpers::success(3, 9) {
        ResponseDjikstra::Success(m) => {
            assert_eq!(m.node_id, 3);
            assert_eq!(m.shortest_path_len, 9);
        }
        _ => panic!("wrong message variant"),
    }
}
