use onager::centrality::compute_degree;
use onager::centrality::compute_node_degree;
use onager::centrality::compute_voterank;
use onager::error::OnagerError;

fn triangle_graph() -> (Vec<i64>, Vec<i64>) {
    (vec![1, 2, 3], vec![2, 3, 1])
}

fn star_graph() -> (Vec<i64>, Vec<i64>) {
    (vec![1, 1, 1], vec![2, 3, 4])
}

#[test]
fn test_degree_undirected() {
    let (src, dst) = star_graph();
    let result = compute_degree(&src, &dst, false).unwrap();

    assert_eq!(result.node_ids.len(), 4);
    assert_eq!(result.node_ids, vec![1, 2, 3, 4]);
    assert_eq!(result.in_degrees, vec![3, 1, 1, 1]);
    assert_eq!(result.out_degrees, vec![3, 1, 1, 1]);
}

#[test]
fn test_degree_directed() {
    let (src, dst) = star_graph();
    let result = compute_degree(&src, &dst, true).unwrap();

    assert_eq!(result.node_ids.len(), 4);
    assert_eq!(result.in_degrees.len(), 4);
    assert_eq!(result.out_degrees.len(), 4);
    assert_eq!(result.in_degrees, vec![0, 1, 1, 1]);
    assert_eq!(result.out_degrees, vec![3, 0, 0, 0]);
}

#[test]
fn degree_counts_a_self_loop_twice_when_undirected() {
    let result = compute_degree(&[7, 7], &[7, 8], false).unwrap();
    assert_eq!(result.node_ids, vec![7, 8]);
    assert_eq!(result.in_degrees, vec![3, 1]);
    let directed = compute_degree(&[7, 7], &[7, 8], true).unwrap();
    assert_eq!(directed.in_degrees, vec![1, 1]);
    assert_eq!(directed.out_degrees, vec![2, 0]);
}

#[test]
fn degree_of_empty_edge_list_is_empty() {
    let result = compute_degree(&[], &[], true).unwrap();
    assert!(result.node_ids.is_empty());
    assert!(result.in_degrees.is_empty());
    assert!(result.out_degrees.is_empty());
    assert!(compute_degree(&[1, 2], &[2], false).is_err());
}

#[test]
fn test_node_degree() {
    let (src, dst) = star_graph();
    let result = compute_node_degree(&src, &dst, 1).unwrap();

    assert!(result.out_degree >= 0);
    assert!(result.in_degree >= 0);
    assert_eq!(result.out_degree, 3);
    assert_eq!(result.in_degree, 0);
}

#[test]
fn node_degree_of_a_leaf_and_of_a_stranger() {
    let (src, dst) = star_graph();
    let leaf = compute_node_degree(&src, &dst, 3).unwrap();
    assert_eq!(leaf.in_degree, 1);
    assert_eq!(leaf.out_degree, 0);
    assert!(matches!(compute_node_degree(&src, &dst, 42), Err(OnagerError::NodeNotFound(42))));
    assert!(matches!(compute_node_degree(&src, &dst, 9), Err(OnagerError::NodeNotFound(9))));
    match compute_node_degree(&[], &[], 1) {
        Err(OnagerError::InvalidArgument(text)) => assert_eq!(text, "Cannot compute on empty graph"),
        _ => panic!("expected an invalid argument"),
    }
    assert!(compute_node_degree(&[1], &[], 1).is_err());
}

#[test]
fn test_voterank() {
    let (src, dst) = triangle_graph();
    let result = compute_voterank(&src, &dst, 2).unwrap();

    assert!(result.node_ids.len() <= 2);
}

#[test]
fn voterank_elects_the_hub_first() {
    let (src, dst) = star_graph();
    let result = compute_voterank(&src, &dst, 1).unwrap();
    assert_eq!(result.node_ids, vec![1]);
}

#[test]
fn voterank_on_empty_edge_list_elects_nobody() {
    let result = compute_voterank(&[], &[], 3).unwrap();
    assert!(result.node_ids.is_empty());
    assert!(matches!(compute_voterank(&[1, 2], &[2], 3), Err(OnagerError::InvalidArgument(_))));
}
