//! The graph engine underneath: storage of nodes and edges.
//!
//! Nodes and edges live in graphs of the `graphina` crate. Verus does not look
//! inside them; each function here makes one call into the crate and states
//! what that call does to the node sequence and to the edge sequence of the
//! graph. Those statements are believed, not proved.
//!
//! The graph type of the crate has parameters that are bound by traits of the
//! crate, which Verus cannot take in a declaration of the type. So a graph is
//! kept in a struct of this module that Verus does not look into, beside the
//! handles of its nodes in the order of their insertion.

use vstd::prelude::*;
use crate::error::OnagerError;

verus! {

/// The largest number of nodes, and of edges, that a graph of the engine
/// holds: its indices are 32 bits wide and the last one is reserved.
pub const CAPACITY: usize = 0xffff_fffe;

/// Whether every edge joins two of the nodes `0 .. n`.
pub open spec fn within(edges: Seq<(int, int)>, n: nat) -> bool {
    forall|i: int|
        0 <= i < edges.len() ==> 0 <= (#[trigger] edges[i]).0 < n && 0 <= edges[i].1 < n
}

/// The number of edges of `edges` that touch node `v`; a self-loop counts once.
pub open spec fn incident_count(edges: Seq<(int, int)>, v: int) -> nat
    decreases edges.len(),
{
    if edges.len() == 0 {
        0
    } else {
        let rest = incident_count(edges.drop_last(), v);
        if edges.last().0 == v || edges.last().1 == v {
            rest + 1
        } else {
            rest
        }
    }
}

/// The number of edges of `edges` that leave node `v`.
pub open spec fn outgoing_count(edges: Seq<(int, int)>, v: int) -> nat
    decreases edges.len(),
{
    if edges.len() == 0 {
        0
    } else {
        let rest = outgoing_count(edges.drop_last(), v);
        if edges.last().0 == v {
            rest + 1
        } else {
            rest
        }
    }
}

/// The number of edges of `edges` that enter node `v`.
pub open spec fn incoming_count(edges: Seq<(int, int)>, v: int) -> nat
    decreases edges.len(),
{
    if edges.len() == 0 {
        0
    } else {
        let rest = incoming_count(edges.drop_last(), v);
        if edges.last().1 == v {
            rest + 1
        } else {
            rest
        }
    }
}

/// An undirected multigraph of the engine. Its nodes carry the caller's
/// identifiers; its edges carry the weight one.
#[verifier::external_body]
pub struct UndirectedStore {
    pub(crate) inner: graphina::core::types::Graph<i64, u32>,
    pub(crate) handles: Vec<graphina::core::types::NodeId>,
}

/// A directed multigraph of the engine, otherwise like [`UndirectedStore`].
#[verifier::external_body]
pub struct DirectedStore {
    pub(crate) inner: graphina::core::types::Digraph<i64, u32>,
    pub(crate) handles: Vec<graphina::core::types::NodeId>,
}

/// The error type of the engine.
#[verifier::external_type_specification]
#[verifier::external_body]
pub struct ExGraphinaError(graphina::core::error::GraphinaError);

/// Renders an error of the engine with its `Display`. Nothing is claimed
/// about the text.
#[verifier::external_body]
pub(crate) fn failure_text(e: &graphina::core::error::GraphinaError) -> (text: String) {
    e.to_string()
}

/// Turns an error of the engine into the library's `GraphError`, carrying the
/// engine's own text.
pub fn engine_error(e: graphina::core::error::GraphinaError) -> (err: OnagerError)
    ensures
        err is GraphError,
{
    OnagerError::GraphError(failure_text(&e))
}

/// The identifiers on the nodes of an undirected graph, by node index.
pub uninterp spec fn undirected_nodes(g: UndirectedStore) -> Seq<i64>;

/// The edges of an undirected graph in the order of their insertion, each as
/// the indices of its two endpoints in the order given at insertion.
pub uninterp spec fn undirected_edges(g: UndirectedStore) -> Seq<(int, int)>;

/// The identifiers on the nodes of a directed graph, by node index.
pub uninterp spec fn directed_nodes(g: DirectedStore) -> Seq<i64>;

/// The edges of a directed graph in the order of their insertion, each as the
/// indices of its source and its target.
pub uninterp spec fn directed_edges(g: DirectedStore) -> Seq<(int, int)>;

impl UndirectedStore {
    /// Calls `BaseGraph::new`: the new graph has no node and no edge.
    #[verifier::external_body]
    pub(crate) fn new() -> (g: UndirectedStore)
        ensures
            undirected_nodes(g) == Seq::<i64>::empty(),
            undirected_edges(g) == Seq::<(int, int)>::empty(),
    {
        UndirectedStore { inner: graphina::core::types::BaseGraph::new(), handles: Vec::new() }
    }

    /// Calls `BaseGraph::add_node`: the node is appended with the next free
    /// index, which is returned; the edges stay. The underlying storage panics
    /// when its 32-bit index space is used up, which the bound excludes.
    #[verifier::external_body]
    pub(crate) fn add_node(&mut self, id: i64) -> (index: usize)
        requires
            undirected_nodes(*old(self)).len() < CAPACITY,
        ensures
            undirected_nodes(*final(self)) == undirected_nodes(*old(self)).push(id),
            undirected_edges(*final(self)) == undirected_edges(*old(self)),
            index == undirected_nodes(*old(self)).len(),
    {
        let handle = self.inner.add_node(id);
        self.handles.push(handle);
        handle.index()
    }

    /// Calls `BaseGraph::add_edge` with weight one: the edge is appended, also
    /// when the same pair is joined already or when both ends are one node; the
    /// nodes stay. The underlying storage panics on an unknown endpoint and when
    /// its 32-bit index space is used up, which the bounds exclude.
    #[verifier::external_body]
    pub(crate) fn add_edge(&mut self, a: usize, b: usize)
        requires
            a < undirected_nodes(*old(self)).len(),
            b < undirected_nodes(*old(self)).len(),
            undirected_edges(*old(self)).len() < CAPACITY,
        ensures
            undirected_nodes(*final(self)) == undirected_nodes(*old(self)),
            undirected_edges(*final(self)) == undirected_edges(*old(self)).push(
                (a as int, b as int),
            ),
    {
        self.inner.add_edge(self.handles[a], self.handles[b], 1u32);
    }

    /// Calls `BaseGraph::node_count`.
    #[verifier::external_body]
    pub(crate) fn node_count(&self) -> (n: usize)
        ensures
            n == undirected_nodes(*self).len(),
    {
        self.inner.node_count()
    }

    /// Calls `BaseGraph::edge_count`.
    #[verifier::external_body]
    pub(crate) fn edge_count(&self) -> (n: usize)
        ensures
            n == undirected_edges(*self).len(),
    {
        self.inner.edge_count()
    }

    /// Calls `BaseGraph::degree`, which on an undirected graph walks the edges
    /// at the node and counts a self-loop once. `None` is returned for a node
    /// that the graph does not hold, which the bound excludes.
    #[verifier::external_body]
    pub(crate) fn degree(&self, v: usize) -> (d: Option<usize>)
        requires
            v < undirected_nodes(*self).len(),
        ensures
            d == Some(incident_count(undirected_edges(*self), v as int) as usize),
    {
        self.inner.degree(self.handles[v])
    }
}

impl DirectedStore {
    /// Calls `BaseGraph::new`: the new graph has no node and no edge.
    #[verifier::external_body]
    pub(crate) fn new() -> (g: DirectedStore)
        ensures
            directed_nodes(g) == Seq::<i64>::empty(),
            directed_edges(g) == Seq::<(int, int)>::empty(),
    {
        DirectedStore { inner: graphina::core::types::BaseGraph::new(), handles: Vec::new() }
    }

    /// Calls `BaseGraph::add_node`: the node is appended with the next free
    /// index, which is returned; the edges stay. The underlying storage panics
    /// when its 32-bit index space is used up, which the bound excludes.
    #[verifier::external_body]
    pub(crate) fn add_node(&mut self, id: i64) -> (index: usize)
        requires
            directed_nodes(*old(self)).len() < CAPACITY,
        ensures
            directed_nodes(*final(self)) == directed_nodes(*old(self)).push(id),
            directed_edges(*final(self)) == directed_edges(*old(self)),
            index == directed_nodes(*old(self)).len(),
    {
        let handle = self.inner.add_node(id);
        self.handles.push(handle);
        handle.index()
    }

    /// Calls `BaseGraph::add_edge` with weight one: the edge from `a` to `b` is
    /// appended, also when it is there already; the nodes stay. The underlying
    /// storage panics on an unknown endpoint and when its 32-bit index space is
    /// used up, which the bounds exclude.
    #[verifier::external_body]
    pub(crate) fn add_edge(&mut self, a: usize, b: usize)
        requires
            a < directed_nodes(*old(self)).len(),
            b < directed_nodes(*old(self)).len(),
            directed_edges(*old(self)).len() < CAPACITY,
        ensures
            directed_nodes(*final(self)) == directed_nodes(*old(self)),
            directed_edges(*final(self)) == directed_edges(*old(self)).push((a as int, b as int)),
    {
        self.inner.add_edge(self.handles[a], self.handles[b], 1u32);
    }

    /// Calls `BaseGraph::node_count`.
    #[verifier::external_body]
    pub(crate) fn node_count(&self) -> (n: usize)
        ensures
            n == directed_nodes(*self).len(),
    {
        self.inner.node_count()
    }

    /// Calls `BaseGraph::edge_count`.
    #[verifier::external_body]
    pub(crate) fn edge_count(&self) -> (n: usize)
        ensures
            n == directed_edges(*self).len(),
    {
        self.inner.edge_count()
    }

    /// Calls `BaseGraph::in_degree`, which on a directed graph counts the edges
    /// that enter the node. `None` is returned for a node that the graph does
    /// not hold, which the bound excludes.
    #[verifier::external_body]
    pub(crate) fn in_degree(&self, v: usize) -> (d: Option<usize>)
        requires
            v < directed_nodes(*self).len(),
        ensures
            d == Some(incoming_count(directed_edges(*self), v as int) as usize),
    {
        self.inner.in_degree(self.handles[v])
    }

    /// Calls `BaseGraph::out_degree`, which on a directed graph counts the
    /// edges that leave the node. `None` is returned for a node that the graph
    /// does not hold, which the bound excludes.
    #[verifier::external_body]
    pub(crate) fn out_degree(&self, v: usize) -> (d: Option<usize>)
        requires
            v < directed_nodes(*self).len(),
        ensures
            d == Some(outgoing_count(directed_edges(*self), v as int) as usize),
    {
        self.inner.out_degree(self.handles[v])
    }
}

} // verus!
