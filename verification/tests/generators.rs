use onager::error::OnagerError;
use onager::generators::edge_list;
use onager::generators::generate_barabasi_albert;

#[test]
fn test_barabasi_albert_basic() {
    let result = generate_barabasi_albert(20, 2, 42).unwrap();
    assert!(!result.src.is_empty());
    assert_eq!(result.src.len(), result.dst.len());
    assert!(result.src.iter().chain(result.dst.iter()).all(|&v| (0..20).contains(&v)));
}

#[test]
fn test_barabasi_albert_invalid_params() {
    let result = generate_barabasi_albert(0, 2, 42);
    assert!(result.is_err());

    let result2 = generate_barabasi_albert(10, 0, 42);
    assert!(result2.is_err());

    let result3 = generate_barabasi_albert(5, 10, 42);
    assert!(result3.is_err());
    match result3 {
        Err(OnagerError::InvalidArgument(text)) => assert_eq!(text, "m must be <= n"),
        _ => panic!("expected an invalid argument"),
    }
    match generate_barabasi_albert(0, 0, 1) {
        Err(OnagerError::InvalidArgument(text)) => assert_eq!(text, "n and m must be > 0"),
        _ => panic!("expected an invalid argument"),
    }
}

#[test]
fn barabasi_albert_is_reproducible_from_its_seed() {
    let first = generate_barabasi_albert(30, 3, 12345).unwrap();
    let second = generate_barabasi_albert(30, 3, 12345).unwrap();
    assert_eq!(first.src, second.src);
    assert_eq!(first.dst, second.dst);
}

#[test]
fn barabasi_albert_refuses_a_graph_beyond_the_engine() {
    let result = generate_barabasi_albert(usize::MAX, 2, 1);
    assert!(matches!(result, Err(OnagerError::GraphError(_))));
    let result = generate_barabasi_albert(1 << 31, 4, 1);
    assert!(matches!(result, Err(OnagerError::GraphError(_))));
}

#[test]
fn edge_list_splits_pairs() {
    let result = edge_list(&vec![(0, 1), (2, 0)]);
    assert_eq!(result.src, vec![0, 2]);
    assert_eq!(result.dst, vec![1, 0]);
}
