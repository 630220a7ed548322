use onager::community::compute_connected_components;
use onager::community::compute_girvan_newman;
use onager::community::compute_infomap;
use onager::community::compute_label_propagation;
use onager::community::compute_spectral_clustering;
use onager::community::louvain_communities;
use onager::error::OnagerError;

#[test]
fn test_girvan_newman_two_communities() {
    let src = vec![1, 2, 3, 4, 5, 6, 3];
    let dst = vec![2, 3, 1, 5, 6, 4, 4];

    let result = compute_girvan_newman(&src, &dst, 2).unwrap();

    assert_eq!(result.node_ids.len(), 6);
    let unique_comms: std::collections::HashSet<_> = result.community_ids.iter().collect();
    assert_eq!(unique_comms.len(), 2);
}

#[test]
fn test_girvan_newman_invalid_communities() {
    let src = vec![1, 2];
    let dst = vec![2, 3];

    let result = compute_girvan_newman(&src, &dst, 0);
    assert!(result.is_err());
    match compute_girvan_newman(&src, &dst, -4) {
        Err(OnagerError::InvalidArgument(text)) => {
            assert_eq!(text, "target_communities must be positive")
        }
        _ => panic!("expected an invalid argument"),
    }
}

#[test]
fn girvan_newman_cannot_split_beyond_the_nodes() {
    let result = compute_girvan_newman(&[1, 2], &[2, 3], 4);
    match result {
        Err(OnagerError::GraphError(text)) => assert!(text.contains("Girvan-Newman")),
        _ => panic!("expected a failure of the engine"),
    }
}

#[test]
fn test_connected_components() {
    let src = vec![1, 3];
    let dst = vec![2, 4];

    let result = compute_connected_components(&src, &dst).unwrap();

    assert_eq!(result.node_ids.len(), 4);
    assert_eq!(result.component_ids.len(), 4);
    let of = |id: i64| {
        let at = result.node_ids.iter().position(|&n| n == id).unwrap();
        result.component_ids[at]
    };
    assert_eq!(of(1), of(2));
    assert_eq!(of(3), of(4));
    assert_ne!(of(1), of(3));
}

#[test]
fn test_label_propagation() {
    let src = vec![1, 2, 3];
    let dst = vec![2, 3, 1];

    let result = compute_label_propagation(&src, &dst).unwrap();

    assert_eq!(result.node_ids.len(), 3);
    assert_eq!(result.labels.len(), 3);
    assert_eq!(result.node_ids, vec![1, 2, 3]);
    assert!(result.labels.iter().all(|&l| (0..3).contains(&l)));
}

#[test]
fn test_spectral_clustering() {
    let src = vec![1, 2, 3, 4, 5, 6, 3];
    let dst = vec![2, 3, 1, 5, 6, 4, 4];

    let result = compute_spectral_clustering(&src, &dst, 2, Some(42)).unwrap();

    assert_eq!(result.node_ids.len(), 6);
    let unique_comms: std::collections::HashSet<_> = result.community_ids.iter().collect();
    assert!(unique_comms.len() <= 2);
}

#[test]
fn test_spectral_clustering_invalid_k() {
    let src = vec![1, 2];
    let dst = vec![2, 3];

    let result = compute_spectral_clustering(&src, &dst, 0, None);
    assert!(result.is_err());
    match result {
        Err(OnagerError::InvalidArgument(text)) => assert_eq!(text, "k must be positive"),
        _ => panic!("expected an invalid argument"),
    }
}

#[test]
fn spectral_clustering_is_reproducible_from_its_seed() {
    let src = vec![1, 2, 3, 4, 5, 6, 3];
    let dst = vec![2, 3, 1, 5, 6, 4, 4];
    let first = compute_spectral_clustering(&src, &dst, 2, Some(7)).unwrap();
    let second = compute_spectral_clustering(&src, &dst, 2, Some(7)).unwrap();
    assert_eq!(first.node_ids, second.node_ids);
    assert_eq!(first.community_ids, second.community_ids);
    let mut listed = first.node_ids.clone();
    listed.sort();
    assert_eq!(listed, vec![1, 2, 3, 4, 5, 6]);
}

#[test]
fn girvan_newman_succeeds_up_to_the_number_of_nodes() {
    let src = vec![1, 2, 2];
    let dst = vec![2, 3, 2];
    for target in 1..=3 {
        let result = compute_girvan_newman(&src, &dst, target).unwrap();
        let mut listed = result.node_ids.clone();
        listed.sort();
        assert_eq!(listed, vec![1, 2, 3]);
        let groups: std::collections::HashSet<_> = result.community_ids.iter().collect();
        assert!(groups.len() as i64 >= target);
    }
    assert!(matches!(compute_girvan_newman(&src, &dst, 4), Err(OnagerError::GraphError(_))));
    assert!(matches!(compute_girvan_newman(&[5], &[5], 2), Err(OnagerError::GraphError(_))));
    assert!(compute_girvan_newman(&[5], &[5], 1).is_ok());
}

#[test]
fn rounds_must_be_positive() {
    assert!(onager::community::check_rounds(1).is_ok());
    match onager::community::check_rounds(0) {
        Err(OnagerError::InvalidArgument(text)) => assert_eq!(text, "max_iter must be positive"),
        _ => panic!("expected an invalid argument"),
    }
}

#[test]
fn spectral_clustering_refuses_more_clusters_than_nodes() {
    let result = compute_spectral_clustering(&[1, 2], &[2, 3], 4, Some(1));
    assert!(matches!(result, Err(OnagerError::GraphError(_))));
}

#[test]
fn test_infomap() {
    let src = vec![1, 2, 3];
    let dst = vec![2, 3, 1];

    let result = compute_infomap(&src, &dst, 10, Some(42)).unwrap();

    assert_eq!(result.node_ids.len(), 3);
    assert_eq!(result.community_ids.len(), 3);
    assert!(result.community_ids.iter().all(|&m| (0..3).contains(&m)));
}

#[test]
fn test_infomap_invalid_max_iter() {
    let src = vec![1, 2];
    let dst = vec![2, 3];

    let result = compute_infomap(&src, &dst, 0, None);
    assert!(result.is_err());
    match result {
        Err(OnagerError::InvalidArgument(text)) => assert_eq!(text, "max_iter must be positive"),
        _ => panic!("expected an invalid argument"),
    }
}

#[test]
fn community_test_empty_graph_errors() {
    assert!(compute_connected_components(&[], &[]).is_err());
    assert!(compute_label_propagation(&[], &[]).is_err());
    assert!(compute_girvan_newman(&[], &[], 2).is_err());
    assert!(compute_spectral_clustering(&[], &[], 2, None).is_err());
    assert!(compute_infomap(&[], &[], 10, None).is_err());
}

#[test]
fn community_refuses_mismatched_arrays() {
    assert!(compute_connected_components(&[1, 2], &[2]).is_err());
    assert!(compute_label_propagation(&[1, 2], &[2]).is_err());
    assert!(compute_girvan_newman(&[1, 2], &[2], 2).is_err());
    assert!(compute_spectral_clustering(&[1, 2], &[2], 2, None).is_err());
    assert!(compute_infomap(&[1, 2], &[2], 10, None).is_err());
}

#[test]
fn louvain_communities_are_listed_group_by_group() {
    let ids = vec![10, 20, 30, 40];
    let groups = vec![vec![2, 0], vec![], vec![3, 9, 1]];
    let result = louvain_communities(&ids, &groups);
    assert_eq!(result.node_ids, vec![30, 10, 40, 20]);
    assert_eq!(result.community_ids, vec![0, 0, 2, 2]);
}
