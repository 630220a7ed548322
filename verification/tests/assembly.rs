use onager::approximation::selected_nodes;
use onager::approximation::CliqueResult;
use onager::approximation::IndependentSetResult;
use onager::approximation::VertexCoverResult;
use onager::assembly::flatten_groups;
use onager::assembly::label_nodes;
use onager::assembly::list_values;
use onager::edges::external_ids;
use onager::error::OnagerError;
use onager::generators::check_node_count;
use onager::generators::check_ring_lattice;
use onager::index::NodeTable;
use onager::metrics::answer_measure;
use onager::subgraphs::split_pairs;

#[test]
fn node_table_numbers_by_first_appearance() {
    let table = NodeTable::from_edges(&[5, 3, 5], &[3, 9, 1]);
    assert_eq!(table.ids(), &vec![5, 3, 9, 1]);
    assert_eq!(table.len(), 4);
    assert_eq!(table.position(9), Some(2));
    assert_eq!(table.position(5), Some(0));
    assert_eq!(table.position(4), None);
    assert!(table.contains(1));
    assert!(!table.contains(0));
    assert_eq!(table.id_at(3), 1);
}

#[test]
fn node_table_insert_is_idempotent() {
    let mut table = NodeTable::new();
    assert_eq!(table.insert(-3), 0);
    assert_eq!(table.insert(8), 1);
    assert_eq!(table.insert(-3), 0);
    assert_eq!(table.len(), 2);
    assert_eq!(table.ids(), &vec![-3, 8]);
}

#[test]
fn external_ids_skip_unknown_indices() {
    let ids = vec![10, 20, 30];
    assert_eq!(external_ids(&ids, &vec![2, 0, 3, 1, 0]), vec![30, 10, 20, 10]);
    assert!(external_ids(&ids, &vec![]).is_empty());
}

#[test]
fn groups_are_flattened_with_their_numbers() {
    let ids = vec![10, 20, 30];
    let (nodes, tags) = flatten_groups(&ids, &vec![vec![1], vec![0, 2]]);
    assert_eq!(nodes, vec![20, 10, 30]);
    assert_eq!(tags, vec![0, 1, 1]);
}

#[test]
fn labels_follow_node_indices() {
    let ids = vec![10, 20, 30];
    let (nodes, labels) = label_nodes(&ids, &vec![2, 2, 0]);
    assert_eq!(nodes, vec![10, 20, 30]);
    assert_eq!(labels, vec![2, 2, 0]);
    let (short, few) = label_nodes(&ids, &vec![1]);
    assert_eq!(short, vec![10]);
    assert_eq!(few, vec![1]);
    let (capped, many) = label_nodes(&ids, &vec![0, 1, 2, 3]);
    assert_eq!(capped, vec![10, 20, 30]);
    assert_eq!(many, vec![0, 1, 2]);
}

#[test]
fn values_are_listed_where_present() {
    let ids = vec![10, 20, 30];
    let (nodes, values) = list_values(&ids, &vec![Some(4), None, Some(0), Some(9)]);
    assert_eq!(nodes, vec![10, 30]);
    assert_eq!(values, vec![4, 0]);
}

#[test]
fn selections_are_answered_in_ascending_order() {
    let ids = vec![40, 10, 30, 20];
    assert_eq!(selected_nodes(&ids, &vec![0, 3, 1]), vec![10, 20, 40]);
    assert_eq!(CliqueResult::from_selection(&ids, &vec![2, 0]).node_ids, vec![30, 40]);
    assert_eq!(IndependentSetResult::from_selection(&ids, &vec![3, 7, 1]).node_ids, vec![10, 20]);
    assert!(VertexCoverResult::from_selection(&ids, &vec![]).node_ids.is_empty());
}

#[test]
fn measures_are_answered_as_numbers() {
    assert_eq!(answer_measure(Some(3)), 3);
    assert_eq!(answer_measure(Some(0)), 0);
    assert_eq!(answer_measure(None), -1);
}

#[test]
fn pairs_are_split_into_two_arrays() {
    let (first, second) = split_pairs(&vec![(1, 2), (3, 4)]);
    assert_eq!(first, vec![1, 3]);
    assert_eq!(second, vec![2, 4]);
}

#[test]
fn errors_render_with_their_heading() {
    assert_eq!(OnagerError::GraphNotFound("g".to_string()).message(), "Graph not found: g");
    assert_eq!(
        OnagerError::GraphAlreadyExists("g".to_string()).message(),
        "Graph already exists: g"
    );
    assert_eq!(OnagerError::NodeNotFound(-12).message(), "Node not found: -12");
    assert_eq!(OnagerError::InvalidArgument("x".to_string()).message(), "Invalid argument: x");
    assert_eq!(OnagerError::GraphError("y".to_string()).message(), "Graph error: y");
    assert_eq!(
        OnagerError::SerializationError("z".to_string()).message(),
        "Serialization error: z"
    );
    assert!(OnagerError::InvalidArgument(String::new()).is_invalid_argument());
    assert!(!OnagerError::NodeNotFound(1).is_invalid_argument());
}

#[test]
fn values_are_completed_per_node() {
    let values = vec![Some(0.5), None, Some(2.0)];
    assert_eq!(onager::assembly::node_values(4, &values, 0.0), vec![0.5, 0.0, 2.0, 0.0]);
    assert_eq!(onager::assembly::node_values(2, &values, 9.0), vec![0.5, 9.0]);
    assert!(onager::assembly::node_values(0, &values, 0.0).is_empty());
}

#[test]
fn values_are_scattered_by_identifier() {
    let table = NodeTable::from_edges(&[10, 20], &[20, 30]);
    let spread = onager::assembly::scatter(&table, &[(30, 0.75), (99, 5.0), (10, 0.25)], 0.0);
    assert_eq!(spread, vec![0.25, 0.0, 0.75]);
    let overridden = onager::assembly::scatter(&table, &[(20, 1.0), (20, 2.0)], 0.0);
    assert_eq!(overridden, vec![0.0, 2.0, 0.0]);
    let none: Vec<f64> = onager::assembly::scatter(&table, &[], 0.5);
    assert_eq!(none, vec![0.5, 0.5, 0.5]);
}

#[test]
fn rows_are_listed_in_identifiers() {
    let ids = vec![10, 20, 30];
    let rows = vec![(0, 1, 1.5), (1, 1, 0.0), (2, 7, 3.0), (2, 0, 4.5)];
    let (first, second, third) = onager::assembly::list_rows(&ids, &rows, false);
    assert_eq!(first, vec![10, 20, 30]);
    assert_eq!(second, vec![20, 20, 10]);
    assert_eq!(third, vec![1.5, 0.0, 4.5]);
    let (first, second, third) = onager::assembly::list_rows(&ids, &rows, true);
    assert_eq!(first, vec![10, 30]);
    assert_eq!(second, vec![20, 10]);
    assert_eq!(third, vec![1.5, 4.5]);
}

#[test]
fn generator_shapes_are_checked() {
    assert!(check_node_count(1).is_ok());
    match check_node_count(0) {
        Err(OnagerError::InvalidArgument(text)) => assert_eq!(text, "n must be > 0"),
        _ => panic!("expected an invalid argument"),
    }
    assert!(check_ring_lattice(10, 4).is_ok());
    assert!(check_ring_lattice(10, 0).is_ok());
    for (n, k) in [(10, 3), (10, 10), (10, 12)] {
        match check_ring_lattice(n, k) {
            Err(OnagerError::InvalidArgument(text)) => assert_eq!(text, "k must be even and < n"),
            _ => panic!("expected an invalid argument"),
        }
    }
    match check_ring_lattice(0, 4) {
        Err(OnagerError::InvalidArgument(text)) => assert_eq!(text, "n must be > 0"),
        _ => panic!("expected an invalid argument"),
    }
}
