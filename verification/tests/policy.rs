use onager::admission::check_lengths;
use onager::admission::Admission;
use onager::admission::EmptyRule;
use onager::admission::Operation;
use onager::admission::WeightRule;
use onager::error::OnagerError;

fn refusal(outcome: Result<Admission, OnagerError>) -> String {
    match outcome {
        Err(OnagerError::InvalidArgument(text)) => text,
        _ => panic!("expected an invalid argument"),
    }
}

#[test]
fn mismatched_endpoints_are_refused_for_every_kind_of_operation() {
    for op in [Operation::Bfs, Operation::PageRank, Operation::MaxClique, Operation::Jaccard] {
        assert_eq!(refusal(check_lengths(op, 2, 1, 0)), "src and dst arrays must have same length");
    }
    for op in [Operation::Tsp, Operation::PrimMst, Operation::BellmanFord] {
        assert_eq!(
            refusal(check_lengths(op, 2, 1, 2)),
            "src, dst, and weights arrays must have same length"
        );
        assert_eq!(
            refusal(check_lengths(op, 2, 2, 1)),
            "src, dst, and weights arrays must have same length"
        );
    }
}

#[test]
fn optional_weights_are_empty_or_complete() {
    let op = Operation::PageRankParallel;
    assert_eq!(op.weights(), WeightRule::Optional);
    assert_eq!(check_lengths(op, 2, 2, 0).unwrap(), Admission::Proceed);
    assert_eq!(check_lengths(op, 2, 2, 2).unwrap(), Admission::Proceed);
    assert_eq!(
        refusal(check_lengths(op, 2, 2, 1)),
        "weights must be empty or same length as edges"
    );
    assert_eq!(refusal(check_lengths(op, 2, 3, 1)), "src and dst arrays must have same length");
    assert_eq!(refusal(check_lengths(op, 0, 0, 0)), "Cannot compute on empty graph");
}

#[test]
fn empty_edge_list_policy_by_family() {
    for op in [Operation::MaxClique, Operation::IndependentSet, Operation::VertexCover] {
        assert_eq!(op.on_empty(), EmptyRule::EmptyAnswer);
        assert_eq!(check_lengths(op, 0, 0, 0).unwrap(), Admission::EmptyAnswer);
    }
    for op in [Operation::VoteRank, Operation::LocalReaching, Operation::Laplacian] {
        assert_eq!(check_lengths(op, 0, 0, 0).unwrap(), Admission::EmptyAnswer);
    }
    for op in [Operation::PageRank, Operation::Degree] {
        assert_eq!(op.on_empty(), EmptyRule::Computed);
        assert_eq!(check_lengths(op, 0, 0, 0).unwrap(), Admission::Proceed);
    }
    for op in [
        Operation::Bfs,
        Operation::Dijkstra,
        Operation::Louvain,
        Operation::KruskalMst,
        Operation::Jaccard,
        Operation::EgoGraph,
        Operation::GraphDensity,
    ] {
        assert_eq!(refusal(check_lengths(op, 0, 0, 0)), "Cannot compute on empty graph");
    }
    assert_eq!(refusal(check_lengths(Operation::Tsp, 0, 0, 0)), "Cannot compute TSP on empty graph");
    assert_eq!(
        refusal(check_lengths(Operation::Betweenness, 0, 0, 0)),
        "Cannot compute betweenness on empty graph"
    );
    assert_eq!(
        refusal(check_lengths(Operation::Katz, 0, 0, 0)),
        "Cannot compute Katz on empty graph"
    );
    assert_eq!(Operation::Harmonic.empty_message(), "Cannot compute harmonic on empty graph");
    assert_eq!(Operation::Closeness.empty_message(), "Cannot compute closeness on empty graph");
    assert_eq!(Operation::Eigenvector.empty_message(), "Cannot compute eigenvector on empty graph");
}

#[test]
fn admitted_input_proceeds() {
    assert_eq!(check_lengths(Operation::Dfs, 3, 3, 0).unwrap(), Admission::Proceed);
    assert_eq!(check_lengths(Operation::Dfs, 3, 3, 17).unwrap(), Admission::Proceed);
    assert_eq!(check_lengths(Operation::FloydWarshall, 3, 3, 3).unwrap(), Admission::Proceed);
}

#[test]
fn test_tsp_empty_error() {
    let result = check_lengths(Operation::Tsp, 0, 0, 0);
    assert!(result.is_err());
}

#[test]
fn centrality_test_mismatched_arrays_error() {
    let result = check_lengths(Operation::PageRank, 2, 1, 0);
    assert!(result.is_err());
}

#[test]
fn community_test_mismatched_arrays_error() {
    assert!(check_lengths(Operation::Louvain, 2, 1, 0).is_err());
}

#[test]
fn test_mst_empty_graph() {
    let result = check_lengths(Operation::PrimMst, 0, 0, 0);
    assert!(result.is_err());
    assert!(check_lengths(Operation::KruskalMst, 0, 0, 0).is_err());
}

#[test]
fn test_mst_mismatched_arrays() {
    let result = check_lengths(Operation::PrimMst, 2, 1, 2);
    assert!(result.is_err());
    assert!(check_lengths(Operation::KruskalMst, 2, 1, 2).is_err());
}

#[test]
fn parallel_test_mismatched_arrays_error() {
    assert!(check_lengths(Operation::PageRankParallel, 2, 1, 0).is_err());
}

#[test]
fn test_mismatched_weights_error() {
    assert!(check_lengths(Operation::PageRankParallel, 2, 2, 1).is_err());
}

#[test]
fn test_personalized_pagerank_empty_graph_error() {
    let result = check_lengths(Operation::PersonalizedPageRank, 0, 0, 0);
    assert!(result.is_err());
}

#[test]
fn test_personalized_pagerank_mismatched_arrays() {
    let result = check_lengths(Operation::PersonalizedPageRank, 2, 1, 0);
    assert!(result.is_err());
}

#[test]
fn test_erdos_renyi_invalid_n() {
    let result = onager::generators::check_node_count(0);
    assert!(result.is_err());
}

#[test]
fn test_personalized_pagerank_invalid_max_iter() {
    let result = onager::community::check_rounds(0);
    assert!(result.is_err());
}
