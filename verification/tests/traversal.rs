use onager::error::OnagerError;
use onager::traversal::compute_bfs;
use onager::traversal::compute_dfs;
use onager::traversal::compute_dijkstra;
use onager::traversal::compute_shortest_distance;

fn star_graph() -> (Vec<i64>, Vec<i64>) {
    (vec![1, 1, 1], vec![2, 3, 4])
}

#[test]
fn test_bfs_simple() {
    let src = vec![1, 2, 3];
    let dst = vec![2, 3, 4];

    let result = compute_bfs(&src, &dst, 1).unwrap();

    assert!(!result.node_ids.is_empty());
    assert_eq!(result.order, vec![1, 2, 3, 4]);
    assert_eq!(result.node_ids, result.order);
}

#[test]
fn test_dfs_simple() {
    let src = vec![1, 2, 3];
    let dst = vec![2, 3, 4];

    let result = compute_dfs(&src, &dst, 1).unwrap();

    assert!(!result.node_ids.is_empty());
    assert_eq!(result.order, vec![1, 2, 3, 4]);
    assert_eq!(result.node_ids, result.order);
}

#[test]
fn test_dijkstra_simple() {
    let src = vec![1, 2, 3];
    let dst = vec![2, 3, 4];

    let result = compute_dijkstra(&src, &dst, 1).unwrap();

    assert_eq!(result.node_ids.len(), 4);
    assert_eq!(result.node_ids, vec![1, 2, 3, 4]);
    assert_eq!(result.distances, vec![Some(0), Some(1), Some(2), Some(3)]);
}

#[test]
fn searches_cover_a_star_from_its_hub() {
    let (src, dst) = star_graph();
    let bfs = compute_bfs(&src, &dst, 1).unwrap();
    assert_eq!(bfs.order.len(), 4);
    assert_eq!(bfs.order[0], 1);
    let dfs = compute_dfs(&src, &dst, 1).unwrap();
    assert_eq!(dfs.order.len(), 4);
    assert_eq!(dfs.order[0], 1);
    let distances = compute_dijkstra(&src, &dst, 1).unwrap();
    assert_eq!(distances.node_ids, vec![1, 2, 3, 4]);
    assert_eq!(distances.distances, vec![Some(0), Some(1), Some(1), Some(1)]);
}

#[test]
fn dijkstra_lists_unreachable_nodes() {
    let result = compute_dijkstra(&[1, 3], &[2, 4], 1).unwrap();
    assert_eq!(result.node_ids, vec![1, 3, 2, 4]);
    assert_eq!(result.distances, vec![Some(0), None, Some(1), None]);
}

#[test]
fn shortest_distance_on_a_path() {
    let src = vec![1, 2, 3];
    let dst = vec![2, 3, 4];
    assert_eq!(compute_shortest_distance(&src, &dst, 1, 4).unwrap(), Some(3));
    assert_eq!(compute_shortest_distance(&src, &dst, 4, 2).unwrap(), Some(2));
    assert_eq!(compute_shortest_distance(&[1, 3], &[2, 4], 1, 4).unwrap(), None);
}

#[test]
fn traversal_reports_an_absent_node_as_not_found() {
    let src = vec![1, 2, 3];
    let dst = vec![2, 3, 4];
    assert!(matches!(compute_bfs(&src, &dst, 99), Err(OnagerError::NodeNotFound(99))));
    assert!(matches!(compute_dfs(&src, &dst, 99), Err(OnagerError::NodeNotFound(99))));
    assert!(matches!(compute_dijkstra(&src, &dst, -5), Err(OnagerError::NodeNotFound(-5))));
    assert!(matches!(
        compute_shortest_distance(&src, &dst, 99, 1),
        Err(OnagerError::NodeNotFound(99))
    ));
    assert!(matches!(
        compute_shortest_distance(&src, &dst, 1, -7),
        Err(OnagerError::NodeNotFound(-7))
    ));
    assert!(matches!(
        compute_shortest_distance(&src, &dst, 98, 99),
        Err(OnagerError::NodeNotFound(98))
    ));
}

#[test]
fn depth_first_search_is_bounded_by_the_node_limit() {
    let most = onager::traversal::DFS_NODE_LIMIT as i64;
    let src: Vec<i64> = (0..most - 1).collect();
    let dst: Vec<i64> = (1..most).collect();
    let walked = compute_dfs(&src, &dst, 0).unwrap();
    assert_eq!(walked.order.len() as i64, most);
    assert_eq!(walked.order[walked.order.len() - 1], most - 1);
    let src: Vec<i64> = (0..most).collect();
    let dst: Vec<i64> = (1..most + 1).collect();
    match compute_dfs(&src, &dst, 0) {
        Err(OnagerError::GraphError(text)) => {
            assert_eq!(text, "Graph has too many nodes for a depth-first search")
        }
        _ => panic!("expected a failure of the engine"),
    }
    assert!(matches!(compute_dfs(&src, &dst, -1), Err(OnagerError::NodeNotFound(-1))));
    assert_eq!(compute_bfs(&src, &dst, 0).unwrap().order.len() as i64, most + 1);
}

#[test]
fn traversal_refuses_empty_and_mismatched_input() {
    match compute_bfs(&[], &[], 1) {
        Err(OnagerError::InvalidArgument(text)) => assert_eq!(text, "Cannot compute on empty graph"),
        _ => panic!("expected an invalid argument"),
    }
    match compute_dijkstra(&[1, 2], &[2], 1) {
        Err(OnagerError::InvalidArgument(text)) => {
            assert_eq!(text, "src and dst arrays must have same length")
        }
        _ => panic!("expected an invalid argument"),
    }
}

#[test]
fn searches_walk_a_path_in_order() {
    let src = vec![1, 2, 3];
    let dst = vec![2, 3, 4];
    assert_eq!(compute_bfs(&src, &dst, 1).unwrap().order, vec![1, 2, 3, 4]);
    assert_eq!(compute_dfs(&src, &dst, 1).unwrap().order, vec![1, 2, 3, 4]);
    assert_eq!(compute_dfs(&src, &dst, 4).unwrap().order, vec![4, 3, 2, 1]);
    let bfs = compute_bfs(&src, &dst, 2).unwrap();
    assert_eq!(bfs.order[0], 2);
    assert_eq!(bfs.order[3], 4);
    assert_eq!(bfs.node_ids, bfs.order);
}

#[test]
fn searches_stay_within_the_component_of_the_source() {
    let src = vec![1, 3];
    let dst = vec![2, 4];
    assert_eq!(compute_bfs(&src, &dst, 3).unwrap().order, vec![3, 4]);
    assert_eq!(compute_dfs(&src, &dst, 2).unwrap().order, vec![2, 1]);
}
