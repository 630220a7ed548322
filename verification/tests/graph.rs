use onager::error::OnagerError;
use onager::graph::GraphType;
use onager::registry::add_edge;
use onager::registry::add_node;
use onager::registry::create_graph;
use onager::registry::drop_graph;
use onager::registry::edge_count;
use onager::registry::get_node_in_degree;
use onager::registry::get_node_out_degree;
use onager::registry::list_graphs;
use onager::registry::node_count;
use onager::registry::GraphRegistry;

#[test]
fn test_create_and_drop_graph() {
    let mut registry = GraphRegistry::new();
    let name = "test_graph_1";
    assert!(create_graph(&mut registry, name, false).is_ok());
    assert!(create_graph(&mut registry, name, false).is_err());
    assert!(drop_graph(&mut registry, name).is_ok());
    assert!(drop_graph(&mut registry, name).is_err());
}

#[test]
fn test_add_nodes_and_edges() {
    let mut registry = GraphRegistry::new();
    let name = "test_graph_2";
    create_graph(&mut registry, name, false).unwrap();

    add_node(&mut registry, name, 0).unwrap();
    add_node(&mut registry, name, 1).unwrap();
    add_node(&mut registry, name, 2).unwrap();

    assert_eq!(node_count(&registry, name).unwrap(), 3);

    add_edge(&mut registry, name, 0, 1, 1.0f64.to_bits()).unwrap();
    add_edge(&mut registry, name, 1, 2, 2.0f64.to_bits()).unwrap();

    assert_eq!(edge_count(&registry, name).unwrap(), 2);

    drop_graph(&mut registry, name).unwrap();
}

#[test]
fn registry_reports_its_errors_by_name() {
    let mut registry = GraphRegistry::new();
    create_graph(&mut registry, "a", true).unwrap();
    match create_graph(&mut registry, "a", false) {
        Err(OnagerError::GraphAlreadyExists(name)) => assert_eq!(name, "a"),
        _ => panic!("expected an existing graph"),
    }
    match drop_graph(&mut registry, "A") {
        Err(OnagerError::GraphNotFound(name)) => assert_eq!(name, "A"),
        _ => panic!("expected a missing graph"),
    }
    assert!(matches!(add_node(&mut registry, "b", 1), Err(OnagerError::GraphNotFound(_))));
    assert!(matches!(add_edge(&mut registry, "b", 1, 2, 0), Err(OnagerError::GraphNotFound(_))));
    assert!(matches!(node_count(&registry, "b"), Err(OnagerError::GraphNotFound(_))));
    assert!(matches!(edge_count(&registry, "b"), Err(OnagerError::GraphNotFound(_))));
    assert!(matches!(get_node_in_degree(&registry, "b", 1), Err(OnagerError::GraphNotFound(_))));
    assert!(matches!(get_node_out_degree(&registry, "b", 1), Err(OnagerError::GraphNotFound(_))));
}

#[test]
fn registry_lists_graphs_in_order_of_creation() {
    let mut registry = GraphRegistry::new();
    assert!(list_graphs(&registry).is_empty());
    create_graph(&mut registry, "zeta", true).unwrap();
    create_graph(&mut registry, "alpha", false).unwrap();
    create_graph(&mut registry, "mid", false).unwrap();
    assert_eq!(list_graphs(&registry), vec!["zeta", "alpha", "mid"]);
    drop_graph(&mut registry, "alpha").unwrap();
    assert_eq!(list_graphs(&registry), vec!["zeta", "mid"]);
    create_graph(&mut registry, "alpha", true).unwrap();
    assert_eq!(list_graphs(&registry), vec!["zeta", "mid", "alpha"]);
    assert_eq!(node_count(&registry, "alpha").unwrap(), 0);
}

#[test]
fn registry_degrees_follow_the_direction() {
    let mut registry = GraphRegistry::new();
    create_graph(&mut registry, "d", true).unwrap();
    create_graph(&mut registry, "u", false).unwrap();
    for name in ["d", "u"] {
        for id in [10, 20, 30] {
            add_node(&mut registry, name, id).unwrap();
        }
        add_edge(&mut registry, name, 10, 20, 0).unwrap();
        add_edge(&mut registry, name, 10, 30, 0).unwrap();
        add_edge(&mut registry, name, 30, 10, 0).unwrap();
        add_edge(&mut registry, name, 20, 20, 0).unwrap();
    }
    assert_eq!(get_node_out_degree(&registry, "d", 10).unwrap(), 2);
    assert_eq!(get_node_in_degree(&registry, "d", 10).unwrap(), 1);
    assert_eq!(get_node_out_degree(&registry, "d", 20).unwrap(), 1);
    assert_eq!(get_node_in_degree(&registry, "d", 20).unwrap(), 2);
    assert_eq!(get_node_out_degree(&registry, "u", 10).unwrap(), 3);
    assert_eq!(get_node_in_degree(&registry, "u", 10).unwrap(), 3);
    assert_eq!(get_node_in_degree(&registry, "u", 20).unwrap(), 2);
    assert!(matches!(
        get_node_in_degree(&registry, "u", 40),
        Err(OnagerError::NodeNotFound(40))
    ));
    assert!(matches!(
        get_node_out_degree(&registry, "d", 40),
        Err(OnagerError::NodeNotFound(40))
    ));
}

#[test]
fn graph_refuses_duplicate_nodes_and_unknown_endpoints() {
    let mut g = GraphType::new(false);
    assert!(!g.is_directed());
    assert!(GraphType::new(true).is_directed());
    assert_eq!(g.add_node(5).unwrap(), 0);
    assert_eq!(g.add_node(-8).unwrap(), 1);
    match g.add_node(5) {
        Err(OnagerError::InvalidArgument(text)) => assert_eq!(text, "Node 5 already exists"),
        _ => panic!("expected an invalid argument"),
    }
    assert_eq!(g.node_count(), 2);
    assert!(matches!(g.add_edge(6, 5, 0), Err(OnagerError::NodeNotFound(6))));
    assert!(matches!(g.add_edge(5, 7, 0), Err(OnagerError::NodeNotFound(7))));
    assert!(matches!(g.add_edge(8, 9, 0), Err(OnagerError::NodeNotFound(8))));
    assert_eq!(g.edge_count(), 0);
    g.add_edge(5, 5, 0).unwrap();
    g.add_edge(5, 5, 0).unwrap();
    assert_eq!(g.edge_count(), 2);
    assert_eq!(g.in_degree(5).unwrap(), 2);
    assert_eq!(g.out_degree(5).unwrap(), 2);
}
