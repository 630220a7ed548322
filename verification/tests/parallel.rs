use onager::error::OnagerError;
use onager::parallel::compute_bfs_parallel;
use onager::parallel::compute_components_parallel;
use onager::parallel::compute_shortest_paths_parallel;
use onager::parallel::compute_triangles_parallel;
use onager::traversal::compute_bfs;

fn triangle_graph() -> (Vec<i64>, Vec<i64>) {
    (vec![1, 2, 3], vec![2, 3, 1])
}

fn connected_graph() -> (Vec<i64>, Vec<i64>) {
    (vec![1, 2, 3, 1], vec![2, 3, 4, 3])
}

#[test]
fn test_bfs_parallel() {
    let (src, dst) = connected_graph();
    let result = compute_bfs_parallel(&src, &dst, 1).unwrap();

    assert!(!result.order.is_empty());
    assert!(result.order.len() <= 4);
    assert_eq!(result.order[0], 1);
    assert_eq!(result.order.len(), 4);
}

#[test]
fn pooled_bfs_agrees_with_the_plain_one() {
    let (src, dst) = connected_graph();
    let pooled = compute_bfs_parallel(&src, &dst, 2).unwrap();
    let plain = compute_bfs(&src, &dst, 2).unwrap();
    assert_eq!(pooled.order, plain.order);
}

#[test]
fn test_bfs_parallel_source_not_found() {
    let (src, dst) = triangle_graph();
    let result = compute_bfs_parallel(&src, &dst, 999);
    assert!(result.is_err());
    assert!(matches!(result, Err(OnagerError::NodeNotFound(999))));
}

#[test]
fn test_shortest_paths_parallel() {
    let (src, dst) = connected_graph();
    let result = compute_shortest_paths_parallel(&src, &dst, 1).unwrap();

    assert!(!result.node_ids.is_empty());
    assert_eq!(result.node_ids.len(), result.distances.len());
    for &dist in &result.distances {
        assert!(dist >= 0);
    }
    assert_eq!(result.node_ids, vec![1, 2, 3, 4]);
    assert_eq!(result.distances, vec![0, 1, 1, 2]);
}

#[test]
fn pooled_shortest_paths_list_reachable_nodes_only() {
    let result = compute_shortest_paths_parallel(&[1, 3], &[2, 4], 3).unwrap();
    assert_eq!(result.node_ids, vec![3, 4]);
    assert_eq!(result.distances, vec![0, 1]);
    assert!(matches!(
        compute_shortest_paths_parallel(&[1, 3], &[2, 4], 5),
        Err(OnagerError::NodeNotFound(5))
    ));
}

#[test]
fn test_components_parallel_single_component() {
    let (src, dst) = triangle_graph();
    let result = compute_components_parallel(&src, &dst).unwrap();

    assert_eq!(result.node_ids.len(), 3);
    let unique_components: std::collections::HashSet<_> = result.component_ids.iter().collect();
    assert_eq!(unique_components.len(), 1);
}

#[test]
fn test_components_parallel_two_components() {
    let src = vec![1, 3];
    let dst = vec![2, 4];
    let result = compute_components_parallel(&src, &dst).unwrap();

    assert_eq!(result.node_ids.len(), 4);
    let unique_components: std::collections::HashSet<_> = result.component_ids.iter().collect();
    assert_eq!(unique_components.len(), 2);
    assert_eq!(result.node_ids, vec![1, 3, 2, 4]);
    assert_eq!(result.component_ids, vec![0, 1, 0, 1]);
}

#[test]
fn test_triangles_parallel() {
    let (src, dst) = triangle_graph();
    let result = compute_triangles_parallel(&src, &dst).unwrap();

    assert_eq!(result.node_ids.len(), 3);
    let total: i64 = result.triangle_counts.iter().sum();
    assert!(total > 0);
}

#[test]
fn parallel_test_empty_graph_errors() {
    assert!(compute_bfs_parallel(&[], &[], 1).is_err());
    assert!(compute_shortest_paths_parallel(&[], &[], 1).is_err());
    assert!(compute_components_parallel(&[], &[]).is_err());
    assert!(compute_triangles_parallel(&[], &[]).is_err());
}

#[test]
fn pooled_operations_refuse_mismatched_arrays() {
    assert!(compute_bfs_parallel(&[1, 2], &[2], 1).is_err());
    assert!(compute_shortest_paths_parallel(&[1, 2], &[2], 1).is_err());
    assert!(compute_components_parallel(&[1, 2], &[2]).is_err());
    assert!(compute_triangles_parallel(&[1, 2], &[2]).is_err());
}

#[test]
fn test_clustering_parallel() {
    let (src, dst) = triangle_graph();
    let result = onager::parallel::compute_clustering_parallel(&src, &dst).unwrap();

    assert_eq!(result.node_ids.len(), 3);
    assert_eq!(result.coefficients.len(), 3);
    for c in &result.coefficients {
        let coef = c.numerator as f64 / c.denominator as f64;
        assert!(coef >= 0.0 && coef <= 1.0);
        assert!((coef - 1.0).abs() < 0.01);
        assert_eq!((c.numerator, c.denominator), (1, 1));
    }
}

#[test]
fn clustering_of_a_triangle_with_a_tail() {
    let result =
        onager::parallel::compute_clustering_parallel(&[1, 2, 3, 3], &[2, 3, 1, 4]).unwrap();
    assert_eq!(result.node_ids, vec![1, 2, 3, 4]);
    let pairs: Vec<(u128, u128)> =
        result.coefficients.iter().map(|c| (c.numerator, c.denominator)).collect();
    assert_eq!(pairs, vec![(1, 1), (1, 1), (1, 3), (0, 1)]);
    assert!(onager::parallel::compute_clustering_parallel(&[], &[]).is_err());
    assert!(onager::parallel::compute_clustering_parallel(&[1], &[]).is_err());
}

#[test]
fn clustering_of_a_path_is_zero() {
    let result = onager::parallel::compute_clustering_parallel(&[1, 2, 3], &[2, 3, 4]).unwrap();
    assert_eq!(result.node_ids, vec![1, 2, 3, 4]);
    for c in &result.coefficients {
        assert_eq!(c.numerator, 0);
        assert!(c.denominator > 0);
    }
}
