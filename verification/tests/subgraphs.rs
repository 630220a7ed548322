use onager::error::OnagerError;
use onager::subgraphs::compute_ego_graph;
use onager::subgraphs::compute_induced_subgraph;
use onager::subgraphs::compute_k_hop_neighbors;

fn star_graph() -> (Vec<i64>, Vec<i64>) {
    (vec![1, 1, 1], vec![2, 3, 4])
}

fn path_graph() -> (Vec<i64>, Vec<i64>) {
    (vec![1, 2, 3, 4], vec![2, 3, 4, 5])
}

#[test]
fn test_ego_graph_star_center() {
    let (src, dst) = star_graph();
    let result = compute_ego_graph(&src, &dst, 1, 1).unwrap();
    assert!(!result.src.is_empty());
    assert_eq!(result.src.len(), result.dst.len());
    assert_eq!(result.src, vec![1, 1, 1]);
    assert_eq!(result.dst, vec![2, 3, 4]);
}

#[test]
fn test_ego_graph_star_leaf() {
    let (src, dst) = star_graph();
    let result = compute_ego_graph(&src, &dst, 2, 1).unwrap();
    assert!(!result.src.is_empty());
    assert_eq!(result.src, vec![1]);
    assert_eq!(result.dst, vec![2]);
}

#[test]
fn ego_graph_on_a_path_keeps_the_edges_within_reach() {
    let (src, dst) = path_graph();
    let result = compute_ego_graph(&src, &dst, 3, 1).unwrap();
    assert_eq!(result.src, vec![2, 3]);
    assert_eq!(result.dst, vec![3, 4]);
}

#[test]
fn test_ego_graph_radius_zero() {
    let (src, dst) = star_graph();
    let result = compute_ego_graph(&src, &dst, 1, 0).unwrap();
    assert!(result.src.is_empty());
    assert!(result.dst.is_empty());
}

#[test]
fn ego_graph_of_radius_zero_keeps_a_self_loop() {
    let result = compute_ego_graph(&[1, 1], &[1, 2], 1, 0).unwrap();
    assert_eq!(result.src, vec![1]);
    assert_eq!(result.dst, vec![1]);
}

#[test]
fn test_ego_graph_invalid_center() {
    let (src, dst) = star_graph();
    let result = compute_ego_graph(&src, &dst, 999, 1);
    assert!(result.is_err());
    assert!(matches!(result, Err(OnagerError::NodeNotFound(999))));
}

#[test]
fn test_k_hop_neighbors_star_hub() {
    let (src, dst) = star_graph();
    let result = compute_k_hop_neighbors(&src, &dst, 1, 1).unwrap();
    assert!(!result.node_ids.is_empty());
    let mut found = result.node_ids.clone();
    found.sort();
    assert_eq!(found, vec![1, 2, 3, 4]);
    assert_eq!(result.node_ids[0], 1);
}

#[test]
fn test_k_hop_neighbors_path() {
    let (src, dst) = path_graph();
    let result = compute_k_hop_neighbors(&src, &dst, 1, 2).unwrap();
    assert!(!result.node_ids.is_empty());
    assert_eq!(result.node_ids, vec![1, 2, 3]);
}

#[test]
fn test_k_hop_neighbors_zero() {
    let (src, dst) = star_graph();
    let result = compute_k_hop_neighbors(&src, &dst, 1, 0).unwrap();
    assert_eq!(result.node_ids.len(), 1);
    assert!(result.node_ids.contains(&1));
    let leaf = compute_k_hop_neighbors(&src, &dst, 4, 0).unwrap();
    assert_eq!(leaf.node_ids, vec![4]);
}

#[test]
fn test_k_hop_neighbors_invalid_start() {
    let (src, dst) = star_graph();
    let result = compute_k_hop_neighbors(&src, &dst, 999, 1);
    assert!(result.is_err());
    assert!(matches!(result, Err(OnagerError::NodeNotFound(999))));
}

#[test]
fn test_induced_subgraph_basic() {
    let (src, dst) = path_graph();
    let node_ids = vec![2, 3, 4];
    let result = compute_induced_subgraph(&src, &dst, &node_ids).unwrap();
    assert!(!result.src.is_empty());
    assert_eq!(result.src.len(), result.dst.len());
    assert_eq!(result.src, vec![2, 3]);
    assert_eq!(result.dst, vec![3, 4]);
}

#[test]
fn test_induced_subgraph_single_node() {
    let (src, dst) = star_graph();
    let node_ids = vec![1];
    let result = compute_induced_subgraph(&src, &dst, &node_ids).unwrap();
    assert!(result.src.is_empty());
}

#[test]
fn test_induced_subgraph_disconnected_nodes() {
    let (src, dst) = star_graph();
    let node_ids = vec![2, 3, 4];
    let result = compute_induced_subgraph(&src, &dst, &node_ids).unwrap();
    assert!(result.src.is_empty());
}

#[test]
fn induced_subgraph_ignores_strangers_and_repeats() {
    let (src, dst) = path_graph();
    let result = compute_induced_subgraph(&src, &dst, &[4, 77, 5, 4]).unwrap();
    assert_eq!(result.src, vec![4]);
    assert_eq!(result.dst, vec![5]);
    let none = compute_induced_subgraph(&src, &dst, &[77]).unwrap();
    assert!(none.src.is_empty());
}

#[test]
fn induced_subgraph_keeps_repeated_edges_and_loops() {
    let result = compute_induced_subgraph(&[1, 1, 2, 2], &[2, 2, 2, 3], &[1, 2]).unwrap();
    assert_eq!(result.src, vec![1, 1, 2]);
    assert_eq!(result.dst, vec![2, 2, 2]);
}

#[test]
fn test_induced_subgraph_empty_nodes_error() {
    let (src, dst) = star_graph();
    let result = compute_induced_subgraph(&src, &dst, &[]);
    assert!(result.is_err());
    match result {
        Err(OnagerError::InvalidArgument(text)) => assert_eq!(text, "node_ids must not be empty"),
        _ => panic!("expected an invalid argument"),
    }
}

#[test]
fn subgraphs_test_empty_graph_errors() {
    assert!(compute_ego_graph(&[], &[], 1, 1).is_err());
    assert!(compute_k_hop_neighbors(&[], &[], 1, 1).is_err());
    assert!(compute_induced_subgraph(&[], &[], &[1]).is_err());
}

#[test]
fn subgraphs_test_mismatched_arrays_error() {
    assert!(compute_ego_graph(&[1, 2], &[2], 1, 1).is_err());
    assert!(compute_k_hop_neighbors(&[1, 2], &[2], 1, 1).is_err());
    assert!(compute_induced_subgraph(&[1, 2], &[2], &[1, 2]).is_err());
}
