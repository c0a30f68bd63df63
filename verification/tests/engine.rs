//! End-to-end tests of the distributed shortest-path engine, including a
//! reference single-machine Dijkstra to compare distances against.

use spq::executer_service::ExecuterService;
use spq::graph_receiver::{receive_edge, receive_node};
use spq::graph_store::{IdIdxMapping, SPQGraph};
use spq::messages::Node;
use spq::queries_manager::QueriesManager;
use spq::worker_service::WorkerService;
use spq::workers_connection::Worker;
use spq::Status;
use std::collections::{BinaryHeap, HashMap, HashSet};

/// An edge of a whole (unpartitioned) test graph.
type Edge = (u64, u64, u64);

/// Builds one worker owning `nodes`, wiring every edge of `edges` whose
/// source it owns; a destination owned by another worker becomes a foreign
/// pointer to it.
fn build_worker(id: u32, nodes: &[u64], edges: &[Edge], ownership: &[(u64, u32)]) -> Worker {
    let mut graph = SPQGraph::new();
    let mut mapping = IdIdxMapping::new();
    for &node in nodes {
        receive_node(&mut graph, &mut mapping, node).unwrap();
    }
    for &(from, to, weight) in edges {
        if nodes.contains(&from) {
            let owner = ownership.iter().find(|&&(n, _)| n == to).map(|&(_, w)| w);
            let to_worker = match owner {
                Some(w) if w != id => Some(w),
                _ => None,
            };
            receive_edge(&mut graph, &mapping, from, to, to_worker, weight).unwrap();
        }
    }
    Worker { id, service: WorkerService::new(graph, mapping) }
}

/// Builds the whole engine over a partitioning of the graph: one worker per
/// entry of `partitions`, each owning its listed nodes.
fn build_manager(partitions: &[(u32, &[u64])], edges: &[Edge]) -> QueriesManager {
    let mut ownership: Vec<(u64, u32)> = Vec::new();
    for &(id, nodes) in partitions {
        for &n in nodes {
            ownership.push((n, id));
        }
    }
    let mut workers: Vec<Worker> = Vec::new();
    for &(id, nodes) in partitions {
        workers.push(build_worker(id, nodes, edges, &ownership));
    }
    workers.sort_by_key(|w| w.id);
    QueriesManager::new(workers)
}

/// Reference single-machine Dijkstra over the whole graph.
fn reference_dijkstra(edges: &[Edge], from: u64, to: u64) -> Option<u64> {
    let mut adjacency: HashMap<u64, Vec<(u64, u64)>> = HashMap::new();
    for &(a, b, w) in edges {
        adjacency.entry(a).or_default().push((b, w));
    }
    let mut done: HashSet<u64> = HashSet::new();
    let mut heap: BinaryHeap<std::cmp::Reverse<(u64, u64)>> = BinaryHeap::new();
    heap.push(std::cmp::Reverse((0, from)));
    while let Some(std::cmp::Reverse((dist, node))) = heap.pop() {
        if !done.insert(node) {
            continue;
        }
        if node == to {
            return Some(dist);
        }
        for &(next, weight) in adjacency.get(&node).into_iter().flatten() {
            if !done.contains(&next) {
                heap.push(std::cmp::Reverse((dist + weight, next)));
            }
        }
    }
    None
}

/// The graph of the worked example: worker A owns {1, 2}, worker B owns
/// {3, 4}; 1->2 (1), 2->3 (5, foreign), 3->4 (2).
fn example_edges() -> Vec<Edge> {
    vec![(1, 2, 1), (2, 3, 5), (3, 4, 2)]
}

fn example_manager() -> QueriesManager {
    let edges = example_edges();
    build_manager(&[(1, &[1, 2]), (2, &[3, 4])], &edges)
}

#[test]
fn same_node_query_is_trivial_success() {
    let mut manager = example_manager();
    let results = manager.shortest_path_query(3, 3).unwrap();
    assert_eq!(results.shortest_path_len, Some(0));
    assert_eq!(results.query_id, None);
}

#[test]
fn same_node_query_retains_no_state() {
    let mut manager = example_manager();
    let results = manager.shortest_path_query(2, 2).unwrap();
    assert_eq!(results.query_id, None);
    // The identifier that would have been used is handed to the next
    // query; nothing was stored under it.
    assert_eq!(manager.forget_query(0), Err(Status::NotFound));
    assert_eq!(manager.get_backtrack_stream(0), Err(Status::NotFound));
    assert_eq!(results.shortest_path_len, Some(0));
}

#[test]
fn example_query_returns_distance_8() {
    let mut manager = example_manager();
    let results = manager.shortest_path_query(1, 4).unwrap();
    assert_eq!(results.shortest_path_len, Some(8));
    assert_eq!(results.query_id, Some(0));
}

#[test]
fn example_backtrack_returns_path_1_2_3_4() {
    let mut manager = example_manager();
    let results = manager.shortest_path_query(1, 4).unwrap();
    let query_id = results.query_id.unwrap();
    let walk = manager.get_backtrack_stream(query_id).unwrap();
    let mut ids: Vec<u64> = walk.iter().map(|n| n.node_id).collect();
    ids.reverse();
    assert_eq!(ids, vec![1, 2, 3, 4]);
}

#[test]
fn example_backtrack_tags_owning_workers() {
    let mut manager = example_manager();
    let results = manager.shortest_path_query(1, 4).unwrap();
    let walk = manager.get_backtrack_stream(results.query_id.unwrap()).unwrap();
    let tagged: Vec<(u64, u32)> = walk.iter().map(|n| (n.node_id, n.worker_id)).collect();
    assert_eq!(tagged, vec![(4, 2), (3, 2), (2, 1), (1, 1)]);
}

#[test]
fn single_partition_matches_reference_dijkstra() {
    // A single worker holding a branching graph in which each node is
    // reachable along one path only, so the engine's first-discovery
    // distances coincide with the reference distances.
    let edges = vec![
        (10, 11, 4),
        (10, 12, 1),
        (11, 13, 3),
        (12, 14, 9),
        (14, 15, 2),
        (12, 16, 5),
        (16, 17, 50),
    ];
    let mut manager = build_manager(&[(7, &[10, 11, 12, 13, 14, 15, 16, 17])], &edges);
    for &(from, to) in &[(10u64, 15u64), (10, 13), (12, 15), (10, 17), (11, 16)] {
        let expected = reference_dijkstra(&edges, from, to);
        let results = manager.shortest_path_query(from, to).unwrap();
        assert_eq!(results.shortest_path_len, expected, "query {from} -> {to}");
    }
}

#[test]
fn split_graphs_match_reference_dijkstra_for_any_partitioning() {
    // The same unique-path graph split in several ways across one, two and
    // three workers: the result must not depend on the partitioning.
    let edges = vec![
        (1, 2, 2),
        (1, 3, 7),
        (2, 4, 3),
        (2, 5, 10),
        (4, 6, 1),
        (3, 7, 20),
    ];
    let nodes: Vec<u64> = vec![1, 2, 3, 4, 5, 6, 7];
    let splits: Vec<Vec<(u32, Vec<u64>)>> = vec![
        vec![(1, nodes.clone())],
        vec![(1, vec![1, 2, 3]), (2, vec![4, 5, 6, 7])],
        vec![(1, vec![1, 3, 5]), (2, vec![2, 4, 6, 7])],
        vec![(1, vec![1, 7]), (2, vec![2, 4, 6]), (3, vec![3, 5])],
        vec![(1, vec![1]), (2, vec![2, 3]), (3, vec![4, 5, 6, 7])],
    ];
    for split in &splits {
        let partitions: Vec<(u32, &[u64])> =
            split.iter().map(|(id, ns)| (*id, ns.as_slice())).collect();
        let mut manager = build_manager(&partitions, &edges);
        for &(from, to) in &[(1u64, 6u64), (1, 5), (2, 6), (1, 7), (3, 2)] {
            let expected = reference_dijkstra(&edges, from, to);
            let results = manager.shortest_path_query(from, to).unwrap();
            assert_eq!(
                results.shortest_path_len, expected,
                "query {from} -> {to} under split {split:?}"
            );
        }
    }
}

#[test]
fn zigzag_path_crosses_partitions_every_hop() {
    // The only path alternates between the two workers at every hop, so
    // the scheduling loop must bounce rounds between them to completion.
    let edges = vec![(1, 2, 1), (2, 3, 1), (3, 4, 1), (4, 5, 1), (5, 6, 1)];
    let mut manager = build_manager(&[(1, &[1, 3, 5]), (2, &[2, 4, 6])], &edges);
    let results = manager.shortest_path_query(1, 6).unwrap();
    assert_eq!(results.shortest_path_len, Some(5));
    let walk = manager.get_backtrack_stream(results.query_id.unwrap()).unwrap();
    let mut ids: Vec<u64> = walk.iter().map(|n| n.node_id).collect();
    ids.reverse();
    assert_eq!(ids, vec![1, 2, 3, 4, 5, 6]);
}

#[test]
fn binary_tree_across_three_partitions_matches_reference() {
    // A 31-node binary tree (unique paths) scattered over three workers by
    // node index, queried for many pairs.
    let mut edges: Vec<Edge> = Vec::new();
    for i in 0u64..15 {
        edges.push((i, 2 * i + 1, i % 7 + 1));
        edges.push((i, 2 * i + 2, (i + 3) % 5 + 1));
    }
    let mut partitions: Vec<(u32, Vec<u64>)> = vec![(1, vec![]), (2, vec![]), (3, vec![])];
    for i in 0u64..31 {
        partitions[(i % 3) as usize].1.push(i);
    }
    let parts: Vec<(u32, &[u64])> =
        partitions.iter().map(|(id, ns)| (*id, ns.as_slice())).collect();
    let mut manager = build_manager(&parts, &edges);
    for &(from, to) in &[
        (0u64, 30u64),
        (0, 17),
        (1, 8),
        (1, 24),
        (2, 23),
        (3, 15),
        (4, 20),
        (2, 5),
        (7, 0),
        (30, 0),
    ] {
        let expected = reference_dijkstra(&edges, from, to);
        let results = manager.shortest_path_query(from, to).unwrap();
        assert_eq!(results.shortest_path_len, expected, "query {from} -> {to}");
    }
}

#[test]
fn unreachable_destination_reports_no_distance() {
    let edges = vec![(1, 2, 1), (3, 4, 1)];
    let mut manager = build_manager(&[(1, &[1, 2]), (2, &[3, 4])], &edges);
    let results = manager.shortest_path_query(1, 4).unwrap();
    assert_eq!(results.shortest_path_len, None);
    assert_eq!(results.query_id, Some(0));
}

#[test]
fn backtrack_of_unsuccessful_query_is_not_found() {
    let edges = vec![(1, 2, 1), (3, 4, 1)];
    let mut manager = build_manager(&[(1, &[1, 2]), (2, &[3, 4])], &edges);
    let results = manager.shortest_path_query(1, 4).unwrap();
    assert_eq!(
        manager.get_backtrack_stream(results.query_id.unwrap()),
        Err(Status::NotFound)
    );
}

#[test]
fn missing_endpoint_is_not_found() {
    let mut manager = example_manager();
    assert_eq!(manager.shortest_path_query(1, 99), Err(Status::NotFound));
    assert_eq!(manager.shortest_path_query(99, 4), Err(Status::NotFound));
}

#[test]
fn overlapping_ownership_is_internal_error() {
    // Two workers both hold node 2: partition disjointness is violated.
    let edges = vec![(1, 2, 1)];
    let a = build_worker(1, &[1, 2], &edges, &[(1, 1), (2, 1)]);
    let b = build_worker(2, &[2, 3], &edges, &[(2, 2), (3, 2)]);
    let mut manager = QueriesManager::new(vec![a, b]);
    assert_eq!(manager.shortest_path_query(1, 2), Err(Status::Internal));
}

#[test]
fn backtracked_path_weights_sum_to_reported_distance() {
    // A path crossing two partition boundaries; summing the edge weights
    // along the reconstructed path reproduces the reported distance.
    let edges = vec![
        (1, 2, 2),
        (1, 3, 7),
        (2, 3, 3),
        (3, 4, 1),
        (4, 5, 2),
        (5, 6, 4),
        (2, 7, 1),
        (7, 5, 30),
    ];
    let mut manager = build_manager(&[(1, vec![1, 2].as_slice()), (2, &[3, 4, 7]), (3, &[5, 6])], &edges);
    let results = manager.shortest_path_query(1, 6).unwrap();
    let distance = results.shortest_path_len.unwrap();
    let walk: Vec<Node> = manager.get_backtrack_stream(results.query_id.unwrap()).unwrap();
    let mut ids: Vec<u64> = walk.iter().map(|n| n.node_id).collect();
    ids.reverse();
    assert_eq!(*ids.first().unwrap(), 1);
    assert_eq!(*ids.last().unwrap(), 6);
    let mut total: u64 = 0;
    for hop in ids.windows(2) {
        let weight = edges
            .iter()
            .find(|&&(a, b, _)| a == hop[0] && b == hop[1])
            .map(|&(_, _, w)| w)
            .expect("backtracked hop is an edge of the graph");
        total += weight;
    }
    assert_eq!(total, distance);
}

#[test]
fn foreign_edge_to_unknown_worker_is_out_of_range() {
    // Worker 1's partition names worker 99 as the owner of node 50, but no
    // such worker exists: the round's foreign discovery cannot be routed.
    let mut graph = SPQGraph::new();
    let mut mapping = IdIdxMapping::new();
    receive_node(&mut graph, &mut mapping, 1).unwrap();
    receive_edge(&mut graph, &mapping, 1, 50, Some(99), 1).unwrap();
    let a = Worker { id: 1, service: WorkerService::new(graph, mapping) };
    let b = build_worker(2, &[2], &[], &[(2, 2)]);
    let mut manager = QueriesManager::new(vec![a, b]);
    assert_eq!(manager.shortest_path_query(1, 2), Err(Status::OutOfRange));
}

#[test]
fn forget_removes_query_state() {
    let mut manager = example_manager();
    let results = manager.shortest_path_query(1, 4).unwrap();
    let query_id = results.query_id.unwrap();
    assert_eq!(manager.forget_query(query_id), Ok(()));
    assert_eq!(manager.get_backtrack_stream(query_id), Err(Status::NotFound));
    assert_eq!(manager.forget_query(query_id), Err(Status::NotFound));
}

#[test]
fn backtrack_can_be_repeated_until_forgotten() {
    let mut manager = example_manager();
    let results = manager.shortest_path_query(1, 4).unwrap();
    let query_id = results.query_id.unwrap();
    let first = manager.get_backtrack_stream(query_id).unwrap();
    let second = manager.get_backtrack_stream(query_id).unwrap();
    assert_eq!(first, second);
    assert_eq!(manager.forget_query(query_id), Ok(()));
    assert_eq!(manager.get_backtrack_stream(query_id), Err(Status::NotFound));
}

#[test]
fn query_identifiers_are_assigned_in_order() {
    let mut manager = example_manager();
    let first = manager.shortest_path_query(1, 4).unwrap();
    let second = manager.shortest_path_query(1, 2).unwrap();
    assert_eq!(first.query_id, Some(0));
    assert_eq!(second.query_id, Some(1));
}

#[test]
fn executer_service_delegates_to_manager() {
    let mut service = ExecuterService::new(example_manager());
    let trivial = service.shortest_path_query(4, 4).unwrap();
    assert_eq!(trivial.shortest_path_len, Some(0));
    assert_eq!(trivial.query_id, None);
    let results = service.shortest_path_query(1, 4).unwrap();
    assert_eq!(results.shortest_path_len, Some(8));
    let query_id = results.query_id.unwrap();
    let walk = service.backtrack_path_for_query(query_id).unwrap();
    assert_eq!(walk.len(), 4);
    assert_eq!(service.forget_query(query_id), Ok(()));
    assert_eq!(service.forget_query(query_id), Err(Status::NotFound));
}
