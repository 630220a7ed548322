//! The registry of graphs by name.
//!
//! Names are case-sensitive and unique. A graph lives in the registry from
//! its creation until it is dropped. The registry is an ordinary value: a
//! process that wants one shared registry puts it behind a lock of its own.

use vstd::prelude::*;
use vstd::string::StringExecFns;
use crate::error::OnagerError;
use crate::graph::GraphType;
use crate::graph::degree_answer;
use crate::graph::edge_added;
use crate::graph::node_added;

verus! {

/// Graphs held by name, in the order of their creation.
pub struct GraphRegistry {
    names: Vec<String>,
    graphs: Vec<GraphType>,
}

/// Whether `outcome` is the failure that no graph has the name `name`.
pub open spec fn graph_not_found<T>(outcome: Result<T, OnagerError>, name: Seq<char>) -> bool {
    match outcome {
        Err(OnagerError::GraphNotFound(n)) => n@ == name,
        _ => false,
    }
}

/// Whether `outcome` is the failure that a graph has the name `name` already.
pub open spec fn graph_already_exists<T>(outcome: Result<T, OnagerError>, name: Seq<char>) -> bool {
    match outcome {
        Err(OnagerError::GraphAlreadyExists(n)) => n@ == name,
        _ => false,
    }
}

impl GraphRegistry {
    /// The names of the graphs, in the order of their creation.
    pub closed spec fn names(&self) -> Seq<Seq<char>> {
        self.names@.map_values(|s: String| s@)
    }

    /// The graphs, in the order of their names.
    pub closed spec fn graphs(&self) -> Seq<GraphType> {
        self.graphs@
    }

    /// Whether a graph has the name `name`.
    pub open spec fn contains(&self, name: Seq<char>) -> bool {
        self.names().contains(name)
    }

    /// The place of the graph named `name` among the graphs; meaningful when
    /// there is one.
    pub open spec fn slot(&self, name: Seq<char>) -> int {
        self.names().index_of(name)
    }

    /// The graph named `name`; meaningful when there is one.
    pub open spec fn graph(&self, name: Seq<char>) -> GraphType {
        self.graphs()[self.slot(name)]
    }

    /// The invariant of the registry: every name has its graph, no name is
    /// used twice, and every graph is well formed.
    pub closed spec fn well_formed(&self) -> bool {
        &&& self.names@.len() == self.graphs@.len()
        &&& forall|i: int, j: int|
            0 <= i < j < self.names@.len() ==> self.names@[i]@ != self.names@[j]@
        &&& forall|i: int|
            0 <= i < self.graphs@.len() ==> (#[trigger] self.graphs@[i]).well_formed()
    }

    /// The invariants of a registry: names and graphs are equally many, no
    /// name occurs twice, and every graph is well formed; so every name that
    /// the registry holds finds its own graph.
    pub proof fn law_registry_invariants(&self)
        requires
            self.well_formed(),
        ensures
            self.names().len() == self.graphs().len(),
            forall|i: int, j: int|
                0 <= i < j < self.names().len() ==> self.names()[i] != self.names()[j],
            forall|i: int| 0 <= i < self.graphs().len() ==> (#[trigger] self.graphs()[i]).well_formed(),
            forall|name: Seq<char>| #[trigger]
                self.contains(name) ==> 0 <= self.slot(name) < self.graphs().len()
                    && self.names()[self.slot(name)] == name && self.graph(name).well_formed(),
    {
        assert forall|name: Seq<char>| #[trigger] self.contains(name) implies 0 <= self.slot(name)
            < self.graphs().len() && self.names()[self.slot(name)] == name && self.graph(
            name,
        ).well_formed() by {
            let i = self.names().index_of(name);
            assert(self.graphs@[i].well_formed());
        }
    }

    /// A registry without graphs: it holds no name and no graph, so that no
    /// name finds a graph in it.
    pub fn new() -> (registry: GraphRegistry)
        ensures
            registry.well_formed(),
            registry.names() == Seq::<Seq<char>>::empty(),
            registry.graphs() == Seq::<GraphType>::empty(),
            forall|name: Seq<char>| !registry.contains(name),
    {
        let registry = GraphRegistry { names: Vec::new(), graphs: Vec::new() };
        assert(registry.names() =~= Seq::<Seq<char>>::empty());
        assert(registry.graphs() =~= Seq::<GraphType>::empty());
        registry
    }

    /// The place of the graph named `name`, if there is one.
    fn find(&self, name: &str) -> (found: Option<usize>)
        requires
            self.well_formed(),
        ensures
            match found {
                Some(i) => self.contains(name@) && i == self.slot(name@) && i
                    < self.graphs@.len() && self.names()[i as int] == name@,
                None => !self.contains(name@),
            },
    {
        let key = String::from_str(name);
        let mut i: usize = 0;
        while i < self.names.len()
            invariant
                i <= self.names@.len(),
                key@ == name@,
                self.well_formed(),
                forall|k: int| 0 <= k < i ==> self.names()[k] != name@,
            decreases self.names@.len() - i,
        {
            if self.names[i] == key {
                proof {
                    assert(self.names()[i as int] == name@);
                    let p = self.names().index_of(name@);
                    assert(self.names()[p] == name@);
                    if p < i {
                        assert(self.names@[p]@ != self.names@[i as int]@);
                    } else if p > i {
                        assert(self.names@[i as int]@ != self.names@[p]@);
                    }
                }
                return Some(i);
            }
            i += 1;
        }
        None
    }
}

/// Creates an empty graph under a name that is still free. A name that is
/// taken is refused and nothing changes.
pub fn create_graph(registry: &mut GraphRegistry, name: &str, directed: bool) -> (outcome: Result<
    (),
    OnagerError,
>)
    requires
        old(registry).well_formed(),
    ensures
        final(registry).well_formed(),
        if old(registry).contains(name@) {
            graph_already_exists(outcome, name@) && final(registry).names() == old(
                registry,
            ).names() && final(registry).graphs() == old(registry).graphs()
        } else {
            let g = final(registry).graphs().last();
            outcome is Ok && final(registry).names() == old(registry).names().push(name@)
                && final(registry).graphs() == old(registry).graphs().push(g) && g.directed()
                == directed && g.nodes() == Seq::<i64>::empty() && g.edges() == Seq::<
                (int, int),
            >::empty() && g.weights() == Seq::<u64>::empty()
        },
{
    if registry.find(name).is_some() {
        return Err(OnagerError::GraphAlreadyExists(String::from_str(name)));
    }
    let g = GraphType::new(directed);
    registry.names.push(String::from_str(name));
    registry.graphs.push(g);
    proof {
        assert(registry.names() =~= old(registry).names().push(name@));
        assert forall|i: int, j: int| 0 <= i < j < registry.names@.len() implies registry.names@[i]@
            != registry.names@[j]@ by {
            if j == registry.names@.len() - 1 {
                assert(old(registry).names()[i] == registry.names@[i]@);
                assert(old(registry).names().contains(registry.names@[i]@));
            } else {
                assert(old(registry).names@[i]@ != old(registry).names@[j]@);
            }
        }
    }
    Ok(())
}

/// Removes the graph of the given name. An unknown name is reported and
/// nothing changes.
pub fn drop_graph(registry: &mut GraphRegistry, name: &str) -> (outcome: Result<(), OnagerError>)
    requires
        old(registry).well_formed(),
    ensures
        final(registry).well_formed(),
        if old(registry).contains(name@) {
            outcome is Ok && final(registry).names() == old(registry).names().remove(
                old(registry).slot(name@),
            ) && final(registry).graphs() == old(registry).graphs().remove(
                old(registry).slot(name@),
            ) && !final(registry).contains(name@)
        } else {
            graph_not_found(outcome, name@) && final(registry).names() == old(registry).names()
                && final(registry).graphs() == old(registry).graphs()
        },
{
    match registry.find(name) {
        None => Err(OnagerError::GraphNotFound(String::from_str(name))),
        Some(i) => {
            registry.names.remove(i);
            registry.graphs.remove(i);
            proof {
                assert(registry.names() =~= old(registry).names().remove(i as int));
                assert forall|a: int, b: int| 0 <= a < b < registry.names@.len() implies registry.names@[a]@
                    != registry.names@[b]@ by {
                    let a0 = if a < i { a } else { a + 1 };
                    let b0 = if b < i { b } else { b + 1 };
                    assert(old(registry).names@[a0]@ != old(registry).names@[b0]@);
                }
                assert forall|k: int| 0 <= k < registry.graphs@.len() implies (
                #[trigger] registry.graphs@[k]).well_formed() by {
                    let k0 = if k < i { k } else { k + 1 };
                    assert(old(registry).graphs@[k0].well_formed());
                }
                if registry.contains(name@) {
                    let k = registry.names().index_of(name@);
                    let k0 = if k < i { k } else { k + 1 };
                    assert(old(registry).names@[k0]@ == name@);
                    if k0 < i {
                        assert(old(registry).names@[k0]@ != old(registry).names@[i as int]@);
                    } else {
                        assert(old(registry).names@[i as int]@ != old(registry).names@[k0]@);
                    }
                }
            }
            Ok(())
        },
    }
}

/// Returns the names of all graphs, in the order of their creation.
pub fn list_graphs(registry: &GraphRegistry) -> (names: Vec<String>)
    ensures
        names@.map_values(|s: String| s@) == registry.names(),
{
    let mut names: Vec<String> = Vec::new();
    let mut i: usize = 0;
    while i < registry.names.len()
        invariant
            i <= registry.names@.len(),
            names@.len() == i,
            forall|k: int| 0 <= k < i ==> names@[k]@ == registry.names@[k]@,
        decreases registry.names@.len() - i,
    {
        names.push(registry.names[i].clone());
        i += 1;
    }
    assert(names@.map_values(|s: String| s@) =~= registry.names());
    names
}

/// Adds a node to the graph of the given name; see [`node_added`] for what
/// the graph does with it. An unknown name is reported and nothing changes.
pub fn add_node(registry: &mut GraphRegistry, graph_name: &str, node_id: i64) -> (outcome: Result<
    (),
    OnagerError,
>)
    requires
        old(registry).well_formed(),
    ensures
        final(registry).well_formed(),
        final(registry).names() == old(registry).names(),
        if old(registry).contains(graph_name@) {
            let i = old(registry).slot(graph_name@);
            final(registry).graphs() == old(registry).graphs().update(
                i,
                final(registry).graphs()[i],
            ) && node_added(
                old(registry).graphs()[i],
                final(registry).graphs()[i],
                node_id,
                outcome,
            )
        } else {
            graph_not_found(outcome, graph_name@) && final(registry).graphs() == old(
                registry,
            ).graphs()
        },
{
    match registry.find(graph_name) {
        None => Err(OnagerError::GraphNotFound(String::from_str(graph_name))),
        Some(i) => {
            let outcome = registry.graphs[i].add_node(node_id);
            proof {
                assert(registry.graphs() =~= old(registry).graphs().update(
                    i as int,
                    registry.graphs()[i as int],
                ));
            }
            match outcome {
                Ok(_) => Ok(()),
                Err(e) => Err(e),
            }
        },
    }
}

/// Adds an edge to the graph of the given name; see [`edge_added`] for what
/// the graph does with it. An unknown name is reported and nothing changes.
pub fn add_edge(
    registry: &mut GraphRegistry,
    graph_name: &str,
    src: i64,
    dst: i64,
    weight: u64,
) -> (outcome: Result<(), OnagerError>)
    requires
        old(registry).well_formed(),
    ensures
        final(registry).well_formed(),
        final(registry).names() == old(registry).names(),
        if old(registry).contains(graph_name@) {
            let i = old(registry).slot(graph_name@);
            final(registry).graphs() == old(registry).graphs().update(
                i,
                final(registry).graphs()[i],
            ) && edge_added(
                old(registry).graphs()[i],
                final(registry).graphs()[i],
                src,
                dst,
                weight,
                outcome,
            )
        } else {
            graph_not_found(outcome, graph_name@) && final(registry).graphs() == old(
                registry,
            ).graphs()
        },
{
    match registry.find(graph_name) {
        None => Err(OnagerError::GraphNotFound(String::from_str(graph_name))),
        Some(i) => {
            let outcome = registry.graphs[i].add_edge(src, dst, weight);
            proof {
                assert(registry.graphs() =~= old(registry).graphs().update(
                    i as int,
                    registry.graphs()[i as int],
                ));
            }
            outcome
        },
    }
}

/// Returns the number of nodes of the graph of the given name.
pub fn node_count(registry: &GraphRegistry, graph_name: &str) -> (outcome: Result<
    usize,
    OnagerError,
>)
    requires
        registry.well_formed(),
    ensures
        if registry.contains(graph_name@) {
            outcome == Ok::<usize, OnagerError>(registry.graph(graph_name@).nodes().len() as usize)
        } else {
            graph_not_found(outcome, graph_name@)
        },
{
    match registry.find(graph_name) {
        None => Err(OnagerError::GraphNotFound(String::from_str(graph_name))),
        Some(i) => Ok(registry.graphs[i].node_count()),
    }
}

/// Returns the number of edges of the graph of the given name.
pub fn edge_count(registry: &GraphRegistry, graph_name: &str) -> (outcome: Result<
    usize,
    OnagerError,
>)
    requires
        registry.well_formed(),
    ensures
        if registry.contains(graph_name@) {
            outcome == Ok::<usize, OnagerError>(registry.graph(graph_name@).edges().len() as usize)
        } else {
            graph_not_found(outcome, graph_name@)
        },
{
    match registry.find(graph_name) {
        None => Err(OnagerError::GraphNotFound(String::from_str(graph_name))),
        Some(i) => Ok(registry.graphs[i].edge_count()),
    }
}

/// Returns the in-degree of a node in the graph of the given name: the
/// entering edges in a directed graph, all incident edges in an undirected one.
pub fn get_node_in_degree(
    registry: &GraphRegistry,
    graph_name: &str,
    external_node_id: i64,
) -> (outcome: Result<usize, OnagerError>)
    requires
        registry.well_formed(),
    ensures
        if registry.contains(graph_name@) {
            outcome == degree_answer(registry.graph(graph_name@), external_node_id, true)
        } else {
            graph_not_found(outcome, graph_name@)
        },
{
    match registry.find(graph_name) {
        None => Err(OnagerError::GraphNotFound(String::from_str(graph_name))),
        Some(i) => registry.graphs[i].in_degree(external_node_id),
    }
}

/// Returns the out-degree of a node in the graph of the given name: the
/// leaving edges in a directed graph, all incident edges in an undirected one.
pub fn get_node_out_degree(
    registry: &GraphRegistry,
    graph_name: &str,
    external_node_id: i64,
) -> (outcome: Result<usize, OnagerError>)
    requires
        registry.well_formed(),
    ensures
        if registry.contains(graph_name@) {
            outcome == degree_answer(registry.graph(graph_name@), external_node_id, false)
        } else {
            graph_not_found(outcome, graph_name@)
        },
{
    match registry.find(graph_name) {
        None => Err(OnagerError::GraphNotFound(String::from_str(graph_name))),
        Some(i) => registry.graphs[i].out_degree(external_node_id),
    }
}

} // verus!
