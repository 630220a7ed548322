use onager::centrality::compute_laplacian;
use onager::centrality::compute_local_reaching;
use onager::links::compute_jaccard;
use onager::links::compute_preferential_attachment;

fn triangle_graph() -> (Vec<i64>, Vec<i64>) {
    (vec![1, 2, 3], vec![2, 3, 1])
}

fn triangle_with_extra() -> (Vec<i64>, Vec<i64>) {
    (vec![1, 2, 3, 3], vec![2, 3, 1, 4])
}

#[test]
fn test_jaccard_basic() {
    let (src, dst) = triangle_with_extra();
    let result = compute_jaccard(&src, &dst).unwrap();

    assert!(!result.node1.is_empty());
    assert_eq!(result.node1.len(), result.node2.len());
    assert_eq!(result.node1.len(), result.numerators.len());
    assert_eq!(result.node1.len(), result.denominators.len());

    for k in 0..result.node1.len() {
        let score = result.numerators[k] as f64 / result.denominators[k] as f64;
        assert!(score >= 0.0 && score <= 1.0);
    }
    assert_eq!(result.node1, vec![1, 1, 1, 2, 2, 3]);
    assert_eq!(result.node2, vec![2, 3, 4, 3, 4, 4]);
    assert_eq!(result.numerators, vec![1, 1, 1, 1, 1, 0]);
    assert_eq!(result.denominators, vec![3, 4, 2, 4, 2, 4]);
}

#[test]
fn test_preferential_attachment_basic() {
    let (src, dst) = triangle_with_extra();
    let result = compute_preferential_attachment(&src, &dst).unwrap();

    assert!(!result.node1.is_empty());
    assert_eq!(result.node1.len(), result.node2.len());
    assert_eq!(result.node1.len(), result.numerators.len());
    assert_eq!(result.node1, vec![1, 1, 1, 2, 2, 3]);
    assert_eq!(result.node2, vec![2, 3, 4, 3, 4, 4]);
    assert_eq!(result.numerators, vec![4, 6, 2, 6, 2, 3]);
    assert_eq!(result.denominators, vec![1, 1, 1, 1, 1, 1]);
}

#[test]
fn test_empty_graph_error() {
    let result = compute_jaccard(&[], &[]);
    assert!(result.is_err());
    assert!(compute_preferential_attachment(&[], &[]).is_err());
}

#[test]
fn links_test_mismatched_arrays_error() {
    let result = compute_jaccard(&[1, 2], &[2]);
    assert!(result.is_err());
    assert!(compute_preferential_attachment(&[1, 2], &[2]).is_err());
}

#[test]
fn test_jaccard_on_triangle() {
    let src = vec![1, 2, 3];
    let dst = vec![2, 3, 1];
    let result = compute_jaccard(&src, &dst).unwrap();

    assert!(!result.numerators.is_empty());
    assert_eq!(result.numerators, vec![1, 1, 1]);
    assert_eq!(result.denominators, vec![3, 3, 3]);
}

#[test]
fn jaccard_does_not_depend_on_the_naming_order() {
    let forward = compute_jaccard(&[1, 2, 3, 3], &[2, 3, 1, 4]).unwrap();
    let backward = compute_jaccard(&[4, 1, 3, 2], &[3, 3, 2, 1]).unwrap();
    for k in 0..forward.node1.len() {
        let (a, b) = (forward.node1[k], forward.node2[k]);
        let at = (0..backward.node1.len())
            .find(|&m| {
                (backward.node1[m], backward.node2[m]) == (a, b)
                    || (backward.node1[m], backward.node2[m]) == (b, a)
            })
            .unwrap();
        assert_eq!(forward.numerators[k], backward.numerators[at]);
        assert_eq!(forward.denominators[k], backward.denominators[at]);
    }
}

#[test]
fn jaccard_counts_a_self_loop_as_a_neighbour() {
    let result = compute_jaccard(&[1, 1], &[1, 2]).unwrap();
    assert_eq!(result.node1, vec![1]);
    assert_eq!(result.node2, vec![2]);
    assert_eq!(result.numerators, vec![1]);
    assert_eq!(result.denominators, vec![2]);
}

#[test]
fn test_local_reaching() {
    let (src, dst) = triangle_graph();
    let result = compute_local_reaching(&src, &dst, 2).unwrap();

    assert_eq!(result.node_ids.len(), 3);
    assert!(!result.centrality.is_empty());
    for &c in &result.centrality {
        assert!(c >= 1);
    }
    assert_eq!(result.centrality, vec![3, 3, 3]);
}

#[test]
fn local_reaching_on_a_path_grows_with_the_distance() {
    let src = vec![1, 2, 3];
    let dst = vec![2, 3, 4];
    assert_eq!(compute_local_reaching(&src, &dst, 0).unwrap().centrality, vec![1, 1, 1, 1]);
    assert_eq!(compute_local_reaching(&src, &dst, 1).unwrap().centrality, vec![2, 3, 3, 2]);
    assert_eq!(compute_local_reaching(&src, &dst, 3).unwrap().centrality, vec![4, 4, 4, 4]);
    assert!(compute_local_reaching(&[1, 2], &[2], 1).is_err());
}

#[test]
fn test_local_reaching_empty() {
    let result = compute_local_reaching(&[], &[], 2).unwrap();
    assert!(result.node_ids.is_empty());
}

#[test]
fn test_laplacian() {
    let (src, dst) = triangle_graph();
    let result = compute_laplacian(&src, &dst).unwrap();

    assert_eq!(result.node_ids.len(), 3);
    assert!(!result.centrality.is_empty());
    assert_eq!(result.centrality, vec![14, 14, 14]);
}

#[test]
fn laplacian_of_a_star() {
    let result = compute_laplacian(&[1, 1, 1], &[2, 3, 4]).unwrap();
    assert_eq!(result.node_ids, vec![1, 2, 3, 4]);
    assert_eq!(result.centrality, vec![18, 8, 8, 8]);
    assert!(compute_laplacian(&[1, 2], &[2]).is_err());
}

#[test]
fn test_laplacian_empty() {
    let result = compute_laplacian(&[], &[]).unwrap();
    assert!(result.node_ids.is_empty());
}

#[test]
fn test_closeness() {
    let (src, dst) = triangle_graph();
    let result = onager::centrality::compute_closeness(&src, &dst).unwrap();

    assert_eq!(result.node_ids.len(), 3);
    for c in &result.centralities {
        assert_eq!(c.numerator, 2);
        assert_eq!(c.denominator, 2);
    }
}

#[test]
fn closeness_on_a_path_and_across_components() {
    let result = onager::centrality::compute_closeness(&[0, 1], &[1, 2]).unwrap();
    assert_eq!(result.node_ids, vec![0, 1, 2]);
    let pairs: Vec<(u128, u128)> =
        result.centralities.iter().map(|c| (c.numerator, c.denominator)).collect();
    assert_eq!(pairs, vec![(2, 3), (2, 2), (2, 3)]);
    let split = onager::centrality::compute_closeness(&[1, 3], &[2, 4]).unwrap();
    let pairs: Vec<(u128, u128)> =
        split.centralities.iter().map(|c| (c.numerator, c.denominator)).collect();
    assert_eq!(pairs, vec![(1, 1), (1, 1), (1, 1), (1, 1)]);
    assert!(onager::centrality::compute_closeness(&[], &[]).is_err());
    assert!(onager::centrality::compute_closeness(&[1], &[]).is_err());
}

#[test]
fn closeness_of_a_lone_self_loop_is_zero() {
    let result = onager::centrality::compute_closeness(&[9], &[9]).unwrap();
    assert_eq!(result.node_ids, vec![9]);
    assert_eq!(result.centralities[0].numerator, 0);
    assert_eq!(result.centralities[0].denominator, 1);
    let direct = onager::centrality::closeness_from(&vec![Some(0), Some(2), None, Some(1)], 0);
    assert_eq!((direct.numerator, direct.denominator), (2, 3));
}
