//! Visiting orders and hop distances from a source node.
//!
//! The graph of the edge list is undirected: an edge can be followed from
//! either end. Every edge counts one hop.

use vstd::prelude::*;
use vstd::string::StringExecFns;
use crate::admission::Operation;
use crate::admission::Verdict;
use crate::admission::check_lengths;
use crate::admission::refused_with;
use crate::admission::verdict;
use crate::edges::EdgeGraph;
use crate::edges::MAX_EDGES;
use crate::edges::external_ids;
use crate::edges::lemma_translated_total;
use crate::edges::too_long_text;
use crate::edges::translated;
use crate::engine::UndirectedStore;
use crate::engine::engine_error;
use crate::engine::undirected_edges;
use crate::engine::undirected_nodes;
use crate::engine::within;
use crate::error::OnagerError;
use crate::graph::engine_failure;
use crate::index::edge_pairs_of;
use crate::index::lemma_edge_pairs_in_range;
use crate::index::node_ids_of;
use crate::index::position_of;
use crate::subgraphs::index_set;
use crate::subgraphs::lemma_within_hops_in_range;
use crate::subgraphs::within_hops;

verus! {

/// The node indices in the order in which the engine's breadth-first search
/// from `start` visits them.
pub uninterp spec fn bfs_order(nodes: Seq<i64>, edges: Seq<(int, int)>, start: int) -> Seq<usize>;

/// The node indices in the order in which the engine's depth-first search
/// from `start` first visits them.
pub uninterp spec fn dfs_order(nodes: Seq<i64>, edges: Seq<(int, int)>, start: int) -> Seq<usize>;

/// Whether `k` is the hop distance from `s` to `v`: `v` is within `k` hops of
/// `s` and not within fewer.
pub open spec fn is_hop_distance(edges: Seq<(int, int)>, s: int, v: int, k: nat) -> bool {
    within_hops(edges, s, k).contains(v) && forall|j: nat|
        j < k ==> !(#[trigger] within_hops(edges, s, j)).contains(v)
}

/// The hop distance from `s` to `v`: the least number of edges on a path from
/// the one to the other, or `None` where there is no path.
pub open spec fn hop_distance(edges: Seq<(int, int)>, s: int, v: int) -> Option<nat> {
    if exists|k: nat| is_hop_distance(edges, s, v, k) {
        Some(choose|k: nat| is_hop_distance(edges, s, v, k))
    } else {
        None
    }
}

/// Every node is at distance zero from itself.
pub proof fn law_distance_to_self(edges: Seq<(int, int)>, s: int)
    ensures
        hop_distance(edges, s, s) == Some(0nat),
{
    assert(within_hops(edges, s, 0).contains(s));
    assert(is_hop_distance(edges, s, s, 0));
    let k = choose|k: nat| is_hop_distance(edges, s, s, k);
    if k > 0 {
        assert(!within_hops(edges, s, 0nat).contains(s));
    }
}

/// Whether `order` is a visiting order of a search from `start`: it begins
/// with `start` and lists, each once, exactly the nodes that have a path from
/// `start`.
pub open spec fn is_search_order(order: Seq<usize>, edges: Seq<(int, int)>, start: int) -> bool {
    &&& order.len() > 0
    &&& order[0] == start
    &&& order.no_duplicates()
    &&& forall|v: int| #[trigger]
        index_set(order).contains(v) <==> hop_distance(edges, start, v) is Some
}

/// In a graph whose edges join nodes below `n`, a visiting order from such a
/// node lists nodes below `n` only.
pub proof fn lemma_search_order_in_range(
    order: Seq<usize>,
    edges: Seq<(int, int)>,
    n: nat,
    start: int,
)
    requires
        is_search_order(order, edges, start),
        within(edges, n),
        0 <= start < n,
    ensures
        forall|k: int| 0 <= k < order.len() ==> (#[trigger] order[k]) < n,
{
    assert forall|k: int| 0 <= k < order.len() implies (#[trigger] order[k]) < n by {
        let v = order[k] as int;
        assert(index_set(order).contains(v));
        assert(hop_distance(edges, start, v) is Some);
        let d = choose|d: nat| is_hop_distance(edges, start, v, d);
        lemma_within_hops_in_range(edges, n, start, d);
    }
}

/// For every node index the hop distance from `source`.
pub open spec fn hop_distances(nodes: Seq<i64>, edges: Seq<(int, int)>, source: int) -> Seq<
    Option<u32>,
> {
    Seq::new(
        nodes.len(),
        |v: int|
            match hop_distance(edges, source, v) {
                Some(k) => Some(k as u32),
                None => None,
            },
    )
}

/// Calls `graphina::traversal::algorithms::bfs`. The search walks the graph
/// alone, so its order is a function of the graph and the start node, which
/// gets its name. It visits the start node first and then, each once, every
/// node that it reaches along the edges, followed from either end.
#[verifier::external_body]
pub(crate) fn engine_bfs(g: &UndirectedStore, start: usize) -> (order: Vec<usize>)
    requires
        start < undirected_nodes(*g).len(),
    ensures
        order@ == bfs_order(undirected_nodes(*g), undirected_edges(*g), start as int),
        is_search_order(order@, undirected_edges(*g), start as int),
{
    let visited = graphina::traversal::algorithms::bfs(&g.inner, g.handles[start]);
    visited.into_iter().map(|node| node.index()).collect()
}

/// The largest number of nodes of a graph that is searched depth first. The
/// engine's search calls itself once for every node on the way down, so on a
/// graph shaped like a path its depth is the number of nodes; this many calls
/// fit several times into a thread's stack of two mebibytes.
pub const DFS_NODE_LIMIT: usize = 4096;

/// The text of the failure for a graph of more than [`DFS_NODE_LIMIT`] nodes.
pub open spec fn depth_text() -> Seq<char> {
    "Graph has too many nodes for a depth-first search"@
}

/// Calls `graphina::traversal::algorithms::dfs`. The search walks the graph
/// alone, so its order is a function of the graph and the start node, which
/// gets its name. It visits the start node first and then, each once, every
/// node that it reaches along the edges, followed from either end. The search
/// calls itself once for every node on the way down and would run out of
/// stack on a long path, which the bound on the nodes excludes.
#[verifier::external_body]
pub(crate) fn engine_dfs(g: &UndirectedStore, start: usize) -> (order: Vec<usize>)
    requires
        start < undirected_nodes(*g).len(),
        undirected_nodes(*g).len() <= DFS_NODE_LIMIT,
    ensures
        order@ == dfs_order(undirected_nodes(*g), undirected_edges(*g), start as int),
        is_search_order(order@, undirected_edges(*g), start as int),
{
    let visited = graphina::traversal::algorithms::dfs(&g.inner, g.handles[start]);
    visited.into_iter().map(|node| node.index()).collect()
}

/// Calls `graphina::core::paths::dijkstra` and lists its answer by node index.
/// The function fails only on a negative weight, and the weights here are
/// unsigned, so success is claimed. Every edge weighs one and is followed
/// from either end, so the shortest distance to a node is its hop distance;
/// a node without a path has no distance.
#[verifier::external_body]
pub(crate) fn engine_dijkstra(g: &UndirectedStore, source: usize) -> (outcome: Result<
    Vec<Option<u32>>,
    graphina::core::error::GraphinaError,
>)
    requires
        source < undirected_nodes(*g).len(),
    ensures
        match outcome {
            Ok(d) => d@ == hop_distances(
                undirected_nodes(*g),
                undirected_edges(*g),
                source as int,
            ) && d@.len() == undirected_nodes(*g).len(),
            Err(_) => false,
        },
{
    let found = graphina::core::paths::dijkstra(&g.inner, g.handles[source])?;
    Ok(g.handles.iter().map(|node| found.get(node).and_then(|d| *d)).collect())
}

/// Result of a breadth-first traversal.
pub struct BfsResult {
    /// The visited nodes, in visiting order.
    pub node_ids: Vec<i64>,
    /// The visiting order; the same sequence as `node_ids`.
    pub order: Vec<i64>,
}

/// Result of a depth-first traversal.
pub struct DfsResult {
    /// The visited nodes, in visiting order.
    pub node_ids: Vec<i64>,
    /// The visiting order; the same sequence as `node_ids`.
    pub order: Vec<i64>,
}

/// Result of a single-source shortest path computation.
pub struct DijkstraResult {
    /// Every node of the graph, in order of first appearance in the edge list.
    pub node_ids: Vec<i64>,
    /// For each node the number of hops from the source, `None` where the
    /// node cannot be reached.
    pub distances: Vec<Option<u32>>,
}

/// The breadth-first visiting order from `source` in external identifiers.
pub open spec fn bfs_answer(src: Seq<i64>, dst: Seq<i64>, source: i64) -> Seq<i64> {
    let ids = node_ids_of(src, dst);
    translated(ids, bfs_order(ids, edge_pairs_of(src, dst), position_of(ids, source)))
}

/// The depth-first visiting order from `source` in external identifiers.
pub open spec fn dfs_answer(src: Seq<i64>, dst: Seq<i64>, source: i64) -> Seq<i64> {
    let ids = node_ids_of(src, dst);
    translated(ids, dfs_order(ids, edge_pairs_of(src, dst), position_of(ids, source)))
}

/// The hop distances from `source` to every node, by node index.
pub open spec fn dijkstra_answer(src: Seq<i64>, dst: Seq<i64>, source: i64) -> Seq<Option<u32>> {
    let ids = node_ids_of(src, dst);
    hop_distances(ids, edge_pairs_of(src, dst), position_of(ids, source))
}

/// Compute BFS traversal from a source node.
///
/// Arrays of different lengths and an empty edge list are refused; a source
/// that no edge mentions is reported as not found. Otherwise the answer is
/// the engine's visiting order, in external identifiers.
pub fn compute_bfs(src: &[i64], dst: &[i64], source_node: i64) -> (outcome: Result<
    BfsResult,
    OnagerError,
>)
    ensures
        match verdict(Operation::Bfs, src@.len(), dst@.len(), 0) {
            Verdict::Refused(text) => refused_with(outcome, text),
            _ => if src@.len() > MAX_EDGES {
                engine_failure(outcome, too_long_text())
            } else if !node_ids_of(src@, dst@).contains(source_node) {
                outcome matches Err(e) && e == OnagerError::NodeNotFound(source_node)
            } else {
                let ids = node_ids_of(src@, dst@);
                let edges = edge_pairs_of(src@, dst@);
                let visited = bfs_order(ids, edges, position_of(ids, source_node));
                match outcome {
                    Ok(r) => r.order@ == bfs_answer(src@, dst@, source_node) && r.node_ids@
                        == r.order@ && is_search_order(
                        visited,
                        edges,
                        position_of(ids, source_node),
                    ) && r.order@.len() == visited.len() && r.order@[0] == source_node,
                    Err(_) => false,
                }
            },
        },
{
    check_lengths(Operation::Bfs, src.len(), dst.len(), 0)?;
    let g = EdgeGraph::build(src, dst)?;
    let start = match g.position(source_node) {
        Some(start) => start,
        None => { return Err(OnagerError::NodeNotFound(source_node)); },
    };
    let visited = engine_bfs(&g.store, start);
    let order = external_ids(g.table.ids(), &visited);
    proof {
        lemma_edge_pairs_in_range(src@, dst@);
        lemma_search_order_in_range(visited@, g.edges(), g.table@.len(), start as int);
        lemma_translated_total(g.table@, visited@);
    }
    Ok(BfsResult { node_ids: order.clone(), order })
}

/// Compute DFS traversal from a source node.
///
/// Arrays of different lengths and an empty edge list are refused; a source
/// that no edge mentions is reported as not found; a graph of more than
/// [`DFS_NODE_LIMIT`] nodes fails, because the engine's search could run out
/// of stack on it. Otherwise the answer is the engine's visiting order, in
/// external identifiers.
pub fn compute_dfs(src: &[i64], dst: &[i64], source_node: i64) -> (outcome: Result<
    DfsResult,
    OnagerError,
>)
    ensures
        match verdict(Operation::Dfs, src@.len(), dst@.len(), 0) {
            Verdict::Refused(text) => refused_with(outcome, text),
            _ => if src@.len() > MAX_EDGES {
                engine_failure(outcome, too_long_text())
            } else if !node_ids_of(src@, dst@).contains(source_node) {
                outcome matches Err(e) && e == OnagerError::NodeNotFound(source_node)
            } else if node_ids_of(src@, dst@).len() > DFS_NODE_LIMIT {
                engine_failure(outcome, depth_text())
            } else {
                let ids = node_ids_of(src@, dst@);
                let edges = edge_pairs_of(src@, dst@);
                let visited = dfs_order(ids, edges, position_of(ids, source_node));
                match outcome {
                    Ok(r) => r.order@ == dfs_answer(src@, dst@, source_node) && r.node_ids@
                        == r.order@ && is_search_order(
                        visited,
                        edges,
                        position_of(ids, source_node),
                    ) && r.order@.len() == visited.len() && r.order@[0] == source_node,
                    Err(_) => false,
                }
            },
        },
{
    check_lengths(Operation::Dfs, src.len(), dst.len(), 0)?;
    let g = EdgeGraph::build(src, dst)?;
    let start = match g.position(source_node) {
        Some(start) => start,
        None => { return Err(OnagerError::NodeNotFound(source_node)); },
    };
    if g.node_count() > DFS_NODE_LIMIT {
        return Err(
            OnagerError::GraphError(
                String::from_str("Graph has too many nodes for a depth-first search"),
            ),
        );
    }
    let visited = engine_dfs(&g.store, start);
    let order = external_ids(g.table.ids(), &visited);
    proof {
        lemma_edge_pairs_in_range(src@, dst@);
        lemma_search_order_in_range(visited@, g.edges(), g.table@.len(), start as int);
        lemma_translated_total(g.table@, visited@);
    }
    Ok(DfsResult { node_ids: order.clone(), order })
}

/// Compute shortest distances from a source node, every edge counting one.
///
/// Arrays of different lengths and an empty edge list are refused; a source
/// that no edge mentions is reported as not found. Otherwise every node of
/// the graph is listed with its distance, unreachable nodes with `None`.
pub fn compute_dijkstra(src: &[i64], dst: &[i64], source_node: i64) -> (outcome: Result<
    DijkstraResult,
    OnagerError,
>)
    ensures
        match verdict(Operation::Dijkstra, src@.len(), dst@.len(), 0) {
            Verdict::Refused(text) => refused_with(outcome, text),
            _ => if src@.len() > MAX_EDGES {
                engine_failure(outcome, too_long_text())
            } else if !node_ids_of(src@, dst@).contains(source_node) {
                outcome matches Err(e) && e == OnagerError::NodeNotFound(source_node)
            } else {
                match outcome {
                    Ok(r) => r.node_ids@ == node_ids_of(src@, dst@) && r.distances@
                        == dijkstra_answer(src@, dst@, source_node) && r.distances@.len()
                        == r.node_ids@.len(),
                    Err(_) => false,
                }
            },
        },
{
    check_lengths(Operation::Dijkstra, src.len(), dst.len(), 0)?;
    let g = EdgeGraph::build(src, dst)?;
    let source = match g.position(source_node) {
        Some(source) => source,
        None => { return Err(OnagerError::NodeNotFound(source_node)); },
    };
    match engine_dijkstra(&g.store, source) {
        Ok(distances) => Ok(DijkstraResult { node_ids: g.table.ids().clone(), distances }),
        Err(e) => Err(engine_error(e)),
    }
}

/// Compute shortest distance between two specific nodes, every edge counting
/// one. Returns `None` if the target cannot be reached.
///
/// Arrays of different lengths and an empty edge list are refused; a source
/// that no edge mentions is reported as not found, and then a target that no
/// edge mentions.
pub fn compute_shortest_distance(
    src: &[i64],
    dst: &[i64],
    source_node: i64,
    target_node: i64,
) -> (outcome: Result<Option<u32>, OnagerError>)
    ensures
        match verdict(Operation::ShortestDistance, src@.len(), dst@.len(), 0) {
            Verdict::Refused(text) => refused_with(outcome, text),
            _ => if src@.len() > MAX_EDGES {
                engine_failure(outcome, too_long_text())
            } else if !node_ids_of(src@, dst@).contains(source_node) {
                outcome matches Err(e) && e == OnagerError::NodeNotFound(source_node)
            } else if !node_ids_of(src@, dst@).contains(target_node) {
                outcome matches Err(e) && e == OnagerError::NodeNotFound(target_node)
            } else {
                outcome == Ok::<Option<u32>, OnagerError>(
                    dijkstra_answer(src@, dst@, source_node)[position_of(
                        node_ids_of(src@, dst@),
                        target_node,
                    )],
                )
            },
        },
{
    check_lengths(Operation::ShortestDistance, src.len(), dst.len(), 0)?;
    let g = EdgeGraph::build(src, dst)?;
    let source = match g.position(source_node) {
        Some(source) => source,
        None => { return Err(OnagerError::NodeNotFound(source_node)); },
    };
    let target = match g.position(target_node) {
        Some(target) => target,
        None => { return Err(OnagerError::NodeNotFound(target_node)); },
    };
    match engine_dijkstra(&g.store, source) {
        Ok(distances) => Ok(distances[target]),
        Err(e) => Err(engine_error(e)),
    }
}

} // verus!
