//! Graphs that are built step by step, and the registry that holds them by
//! name.
//!
//! A graph is directed or undirected from its creation on. Nodes are added
//! under the caller's identifiers, edges between nodes that are already there.
//! Edge weights are kept as the raw 64 bits that the caller hands in.

use vstd::prelude::*;
use vstd::string::StringExecFns;
use crate::admission::refused_with;
use crate::engine::CAPACITY;
use crate::engine::DirectedStore;
use crate::engine::UndirectedStore;
use crate::engine::directed_edges;
use crate::engine::directed_nodes;
use crate::engine::incident_count;
use crate::engine::incoming_count;
use crate::engine::outgoing_count;
use crate::engine::undirected_edges;
use crate::engine::undirected_nodes;
use crate::engine::within;
use crate::error::OnagerError;
use crate::error::decimal;
use crate::error::decimal_text;
use crate::index::NodeTable;
use crate::index::position_of;

verus! {

/// An undirected graph with its table of external identifiers.
pub struct UndirectedGraphWrapper {
    graph: UndirectedStore,
    node_mapping: NodeTable,
    weights: Vec<u64>,
}

/// A directed graph with its table of external identifiers.
pub struct DirectedGraphWrapper {
    graph: DirectedStore,
    node_mapping: NodeTable,
    weights: Vec<u64>,
}

/// A graph that is either directed or undirected.
pub enum GraphType {
    /// Edges lead from their first node to their second.
    Directed(DirectedGraphWrapper),
    /// Edges join their two nodes symmetrically.
    Undirected(UndirectedGraphWrapper),
}

/// The text with which a second node of the same identifier is refused.
pub open spec fn duplicate_node_text(id: i64) -> Seq<char> {
    "Node "@ + decimal_text(id as int) + " already exists"@
}

/// The text of the failure when the engine has no index left.
pub open spec fn capacity_text() -> Seq<char> {
    "Graph has reached the capacity of the engine"@
}

/// Whether `outcome` is the failure `GraphError` with exactly `text`.
pub open spec fn engine_failure<T>(outcome: Result<T, OnagerError>, text: Seq<char>) -> bool {
    match outcome {
        Err(OnagerError::GraphError(t)) => t@ == text,
        _ => false,
    }
}

/// What adding a node under `id` does to a graph: `before` becomes `after`
/// with `outcome`. A known identifier is refused as an invalid argument, a
/// node beyond the capacity of the engine as an engine failure, and in both
/// cases nothing changes; otherwise the identifier is appended to the nodes.
/// Direction, edges and weights never change.
pub open spec fn node_added<T>(
    before: GraphType,
    after: GraphType,
    id: i64,
    outcome: Result<T, OnagerError>,
) -> bool {
    &&& after.directed() == before.directed()
    &&& after.edges() == before.edges()
    &&& after.weights() == before.weights()
    &&& if before.nodes().contains(id) {
        refused_with(outcome, duplicate_node_text(id)) && after.nodes() == before.nodes()
    } else if before.nodes().len() >= CAPACITY {
        engine_failure(outcome, capacity_text()) && after.nodes() == before.nodes()
    } else {
        outcome is Ok && after.nodes() == before.nodes().push(id)
    }
}

/// What adding an edge from `src` to `dst` does to a graph: `before` becomes
/// `after` with `outcome`. An unknown source is reported as not found, then an
/// unknown target, then an edge beyond the capacity of the engine as an engine
/// failure, and in these cases nothing changes; otherwise the edge and its
/// weight are appended. Direction and nodes never change.
pub open spec fn edge_added(
    before: GraphType,
    after: GraphType,
    src: i64,
    dst: i64,
    weight: u64,
    outcome: Result<(), OnagerError>,
) -> bool {
    &&& after.directed() == before.directed()
    &&& after.nodes() == before.nodes()
    &&& if !before.nodes().contains(src) {
        outcome == Err::<(), OnagerError>(OnagerError::NodeNotFound(src)) && after.edges()
            == before.edges() && after.weights() == before.weights()
    } else if !before.nodes().contains(dst) {
        outcome == Err::<(), OnagerError>(OnagerError::NodeNotFound(dst)) && after.edges()
            == before.edges() && after.weights() == before.weights()
    } else if before.edges().len() >= CAPACITY {
        engine_failure(outcome, capacity_text()) && after.edges() == before.edges()
            && after.weights() == before.weights()
    } else {
        outcome is Ok && after.edges() == before.edges().push(
            (position_of(before.nodes(), src), position_of(before.nodes(), dst)),
        ) && after.weights() == before.weights().push(weight)
    }
}

/// The degree that a lookup of `id` answers with: the count given by
/// `degree_of` at the node's index, or the failure that the node is not found.
pub open spec fn degree_answer(g: GraphType, id: i64, incoming: bool) -> Result<
    usize,
    OnagerError,
> {
    if g.nodes().contains(id) {
        let v = position_of(g.nodes(), id);
        Ok(
            if incoming {
                g.in_degree_of(v) as usize
            } else {
                g.out_degree_of(v) as usize
            },
        )
    } else {
        Err(OnagerError::NodeNotFound(id))
    }
}

impl UndirectedGraphWrapper {
    /// The external identifiers of the nodes, by node index.
    pub closed spec fn nodes(&self) -> Seq<i64> {
        self.node_mapping@
    }

    /// The edges in the order of their insertion, as pairs of node indices.
    pub closed spec fn edges(&self) -> Seq<(int, int)> {
        undirected_edges(self.graph)
    }

    /// The weights of the edges, in the order of the edges.
    pub closed spec fn weights(&self) -> Seq<u64> {
        self.weights@
    }

    /// The table of identifiers and the engine agree, every edge joins nodes
    /// of the graph and has its weight, and the engine can index it all.
    pub closed spec fn well_formed(&self) -> bool {
        &&& self.node_mapping.well_formed()
        &&& undirected_nodes(self.graph) == self.node_mapping@
        &&& self.weights@.len() == undirected_edges(self.graph).len()
        &&& self.node_mapping@.len() <= CAPACITY
        &&& undirected_edges(self.graph).len() <= CAPACITY
        &&& within(undirected_edges(self.graph), self.node_mapping@.len())
    }
}

impl DirectedGraphWrapper {
    /// The external identifiers of the nodes, by node index.
    pub closed spec fn nodes(&self) -> Seq<i64> {
        self.node_mapping@
    }

    /// The edges in the order of their insertion, each as the node indices of
    /// its source and its target.
    pub closed spec fn edges(&self) -> Seq<(int, int)> {
        directed_edges(self.graph)
    }

    /// The weights of the edges, in the order of the edges.
    pub closed spec fn weights(&self) -> Seq<u64> {
        self.weights@
    }

    /// The table of identifiers and the engine agree, every edge joins nodes
    /// of the graph and has its weight, and the engine can index it all.
    pub closed spec fn well_formed(&self) -> bool {
        &&& self.node_mapping.well_formed()
        &&& directed_nodes(self.graph) == self.node_mapping@
        &&& self.weights@.len() == directed_edges(self.graph).len()
        &&& self.node_mapping@.len() <= CAPACITY
        &&& directed_edges(self.graph).len() <= CAPACITY
        &&& within(directed_edges(self.graph), self.node_mapping@.len())
    }
}

impl GraphType {
    /// The invariant of the graph: the identifier table and the engine agree
    /// on the nodes, and every edge has its weight.
    pub open spec fn well_formed(&self) -> bool {
        match self {
            GraphType::Directed(w) => w.well_formed(),
            GraphType::Undirected(w) => w.well_formed(),
        }
    }

    /// Whether the graph is directed.
    pub open spec fn directed(&self) -> bool {
        self is Directed
    }

    /// The external identifiers of the nodes in the order of their insertion;
    /// the position of an identifier is the internal index of its node.
    pub open spec fn nodes(&self) -> Seq<i64> {
        match self {
            GraphType::Directed(w) => w.nodes(),
            GraphType::Undirected(w) => w.nodes(),
        }
    }

    /// The edges in the order of their insertion, each as the internal
    /// indices of its endpoints in the order given at insertion.
    pub open spec fn edges(&self) -> Seq<(int, int)> {
        match self {
            GraphType::Directed(w) => w.edges(),
            GraphType::Undirected(w) => w.edges(),
        }
    }

    /// The weights of the edges, in the order of the edges.
    pub open spec fn weights(&self) -> Seq<u64> {
        match self {
            GraphType::Directed(w) => w.weights(),
            GraphType::Undirected(w) => w.weights(),
        }
    }

    /// The number of edges at node `v` that count towards the graph's
    /// in-degree: the entering edges of a directed graph, all incident edges
    /// of an undirected one.
    pub open spec fn in_degree_of(&self, v: int) -> nat {
        if self.directed() {
            incoming_count(self.edges(), v)
        } else {
            incident_count(self.edges(), v)
        }
    }

    /// The number of edges at node `v` that count towards the graph's
    /// out-degree: the leaving edges of a directed graph, all incident edges
    /// of an undirected one.
    pub open spec fn out_degree_of(&self, v: int) -> nat {
        if self.directed() {
            outgoing_count(self.edges(), v)
        } else {
            incident_count(self.edges(), v)
        }
    }

    /// The invariants of a graph: no identifier names two nodes, so that
    /// identifiers and node indices correspond one to one; every edge joins
    /// two nodes of the graph; every edge has its weight; and neither the
    /// nodes nor the edges outnumber the capacity of the engine.
    pub proof fn law_graph_invariants(&self)
        requires
            self.well_formed(),
        ensures
            crate::index::distinct(self.nodes()),
            within(self.edges(), self.nodes().len()),
            self.weights().len() == self.edges().len(),
            self.nodes().len() <= CAPACITY,
            self.edges().len() <= CAPACITY,
    {
        match self {
            GraphType::Directed(w) => w.node_mapping.lemma_distinct(),
            GraphType::Undirected(w) => w.node_mapping.lemma_distinct(),
        }
    }

    /// Creates a graph without nodes, directed or not as asked.
    pub fn new(directed: bool) -> (g: GraphType)
        ensures
            g.well_formed(),
            g.directed() == directed,
            g.nodes() == Seq::<i64>::empty(),
            g.edges() == Seq::<(int, int)>::empty(),
            g.weights() == Seq::<u64>::empty(),
    {
        if directed {
            GraphType::Directed(
                DirectedGraphWrapper {
                    graph: DirectedStore::new(),
                    node_mapping: NodeTable::new(),
                    weights: Vec::new(),
                },
            )
        } else {
            GraphType::Undirected(
                UndirectedGraphWrapper {
                    graph: UndirectedStore::new(),
                    node_mapping: NodeTable::new(),
                    weights: Vec::new(),
                },
            )
        }
    }

    /// Returns true if the graph is directed.
    pub fn is_directed(&self) -> (b: bool)
        ensures
            b == self.directed(),
    {
        match self {
            GraphType::Directed(_) => true,
            GraphType::Undirected(_) => false,
        }
    }

    /// Returns the number of nodes in the graph.
    pub fn node_count(&self) -> (n: usize)
        requires
            self.well_formed(),
        ensures
            n == self.nodes().len(),
    {
        match self {
            GraphType::Directed(w) => w.graph.node_count(),
            GraphType::Undirected(w) => w.graph.node_count(),
        }
    }

    /// Returns the number of edges in the graph.
    pub fn edge_count(&self) -> (n: usize)
        requires
            self.well_formed(),
        ensures
            n == self.edges().len(),
    {
        match self {
            GraphType::Directed(w) => w.graph.edge_count(),
            GraphType::Undirected(w) => w.graph.edge_count(),
        }
    }

    /// Adds a node under the external identifier `node_id` and returns its
    /// internal index, which is the number of nodes that were there before.
    /// An identifier that the graph holds already is refused, and so is a
    /// node beyond the capacity of the engine; the graph is then left as it
    /// was.
    pub fn add_node(&mut self, node_id: i64) -> (outcome: Result<usize, OnagerError>)
        requires
            old(self).well_formed(),
        ensures
            final(self).well_formed(),
            node_added(*old(self), *final(self), node_id, outcome),
            outcome matches Ok(index) ==> index == old(self).nodes().len(),
    {
        match self {
            GraphType::Directed(w) => {
                if w.node_mapping.contains(node_id) {
                    return Err(OnagerError::InvalidArgument(duplicate_node_message(node_id)));
                }
                if w.node_mapping.len() >= CAPACITY {
                    return Err(
                        OnagerError::GraphError(
                            String::from_str("Graph has reached the capacity of the engine"),
                        ),
                    );
                }
                w.graph.add_node(node_id);
                Ok(w.node_mapping.insert(node_id))
            },
            GraphType::Undirected(w) => {
                if w.node_mapping.contains(node_id) {
                    return Err(OnagerError::InvalidArgument(duplicate_node_message(node_id)));
                }
                if w.node_mapping.len() >= CAPACITY {
                    return Err(
                        OnagerError::GraphError(
                            String::from_str("Graph has reached the capacity of the engine"),
                        ),
                    );
                }
                w.graph.add_node(node_id);
                Ok(w.node_mapping.insert(node_id))
            },
        }
    }

    /// Adds an edge between two nodes that the graph holds, with the given
    /// weight bits. An unknown source is reported before an unknown target;
    /// an edge beyond the capacity of the engine is refused. On failure the
    /// graph is left as it was.
    pub fn add_edge(&mut self, src: i64, dst: i64, weight: u64) -> (outcome: Result<
        (),
        OnagerError,
    >)
        requires
            old(self).well_formed(),
        ensures
            final(self).well_formed(),
            edge_added(*old(self), *final(self), src, dst, weight, outcome),
    {
        match self {
            GraphType::Directed(w) => {
                let a = match w.node_mapping.position(src) {
                    Some(a) => a,
                    None => { return Err(OnagerError::NodeNotFound(src)); },
                };
                let b = match w.node_mapping.position(dst) {
                    Some(b) => b,
                    None => { return Err(OnagerError::NodeNotFound(dst)); },
                };
                if w.graph.edge_count() >= CAPACITY {
                    return Err(
                        OnagerError::GraphError(
                            String::from_str("Graph has reached the capacity of the engine"),
                        ),
                    );
                }
                w.graph.add_edge(a, b);
                w.weights.push(weight);
                Ok(())
            },
            GraphType::Undirected(w) => {
                let a = match w.node_mapping.position(src) {
                    Some(a) => a,
                    None => { return Err(OnagerError::NodeNotFound(src)); },
                };
                let b = match w.node_mapping.position(dst) {
                    Some(b) => b,
                    None => { return Err(OnagerError::NodeNotFound(dst)); },
                };
                if w.graph.edge_count() >= CAPACITY {
                    return Err(
                        OnagerError::GraphError(
                            String::from_str("Graph has reached the capacity of the engine"),
                        ),
                    );
                }
                w.graph.add_edge(a, b);
                w.weights.push(weight);
                Ok(())
            },
        }
    }

    /// The in-degree of the node with the given identifier: the number of
    /// entering edges in a directed graph, of incident edges in an undirected
    /// one.
    pub fn in_degree(&self, node_id: i64) -> (outcome: Result<usize, OnagerError>)
        requires
            self.well_formed(),
        ensures
            outcome == degree_answer(*self, node_id, true),
    {
        match self {
            GraphType::Directed(w) => {
                let v = match w.node_mapping.position(node_id) {
                    Some(v) => v,
                    None => { return Err(OnagerError::NodeNotFound(node_id)); },
                };
                match w.graph.in_degree(v) {
                    Some(d) => Ok(d),
                    None => Err(OnagerError::NodeNotFound(node_id)),
                }
            },
            GraphType::Undirected(w) => {
                let v = match w.node_mapping.position(node_id) {
                    Some(v) => v,
                    None => { return Err(OnagerError::NodeNotFound(node_id)); },
                };
                match w.graph.degree(v) {
                    Some(d) => Ok(d),
                    None => Err(OnagerError::NodeNotFound(node_id)),
                }
            },
        }
    }

    /// The out-degree of the node with the given identifier: the number of
    /// leaving edges in a directed graph, of incident edges in an undirected
    /// one.
    pub fn out_degree(&self, node_id: i64) -> (outcome: Result<usize, OnagerError>)
        requires
            self.well_formed(),
        ensures
            outcome == degree_answer(*self, node_id, false),
    {
        match self {
            GraphType::Directed(w) => {
                let v = match w.node_mapping.position(node_id) {
                    Some(v) => v,
                    None => { return Err(OnagerError::NodeNotFound(node_id)); },
                };
                match w.graph.out_degree(v) {
                    Some(d) => Ok(d),
                    None => Err(OnagerError::NodeNotFound(node_id)),
                }
            },
            GraphType::Undirected(w) => {
                let v = match w.node_mapping.position(node_id) {
                    Some(v) => v,
                    None => { return Err(OnagerError::NodeNotFound(node_id)); },
                };
                match w.graph.degree(v) {
                    Some(d) => Ok(d),
                    None => Err(OnagerError::NodeNotFound(node_id)),
                }
            },
        }
    }
}

/// The message for a node that is added twice.
fn duplicate_node_message(node_id: i64) -> (text: String)
    ensures
        text@ == duplicate_node_text(node_id),
{
    let digits = decimal(node_id);
    String::from_str("Node ").concat(digits.as_str()).concat(" already exists")
}

} // verus!
