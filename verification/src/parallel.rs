//! The operations that the engine runs on its worker pool.
//!
//! The pool changes how long a call takes, not what it answers: every answer
//! here is listed by node index, so that no order of completion shows.

use vstd::prelude::*;
use crate::admission::Operation;
use crate::admission::Verdict;
use crate::admission::check_lengths;
use crate::admission::refused_with;
use crate::admission::verdict;
use crate::assembly::lemma_listed_total;
use crate::assembly::list_values;
use crate::assembly::listed_ids;
use crate::assembly::listed_values;
use crate::centrality::lemma_incident_bound;
use crate::community::ConnectedComponentsResult;
use crate::edges::EdgeGraph;
use crate::edges::MAX_EDGES;
use crate::edges::external_ids;
use crate::edges::too_long_text;
use crate::edges::translated;
use crate::engine::UndirectedStore;
use crate::engine::incident_count;
use crate::engine::undirected_edges;
use crate::engine::undirected_nodes;
use crate::error::OnagerError;
use crate::fraction::Fraction;
use crate::graph::engine_failure;
use crate::index::edge_pairs_of;
use crate::index::node_ids_of;
use crate::index::position_of;
use crate::metrics::TriangleResult;
use crate::metrics::clustering_of;
use crate::metrics::engine_triangles;
use crate::metrics::pairs_among;
use crate::metrics::triangle_counts;
use crate::traversal::BfsResult;
use crate::traversal::bfs_answer;
use crate::traversal::bfs_order;
use crate::traversal::hop_distance;
use crate::traversal::is_search_order;
use crate::traversal::lemma_search_order_in_range;

verus! {

/// For every node index the hop distance from `source`, `None` for a node
/// without a path from it.
pub open spec fn pooled_hop_distances(
    nodes: Seq<i64>,
    edges: Seq<(int, int)>,
    source: int,
) -> Seq<Option<usize>> {
    Seq::new(
        nodes.len(),
        |v: int|
            match hop_distance(edges, source, v) {
                Some(k) => Some(k as usize),
                None => None,
            },
    )
}

/// For every node index the number of its connected component as the pooled
/// search numbers them.
pub uninterp spec fn pooled_component_ids(nodes: Seq<i64>, edges: Seq<(int, int)>) -> Seq<
    Option<usize>,
>;

/// Calls `graphina::parallel::bfs_parallel` with one start node and takes the
/// one visiting order that comes back. For each start node the function runs
/// the same search over a queue as the engine's plain breadth-first search,
/// taking the neighbours of a node in the same order, so the order is the one
/// that the plain search gives. The search visits the start node first and
/// then, each once, every node that it reaches along the edges, followed from
/// either end.
#[verifier::external_body]
pub(crate) fn engine_bfs_parallel(g: &UndirectedStore, start: usize) -> (order: Vec<usize>)
    requires
        start < undirected_nodes(*g).len(),
    ensures
        order@ == bfs_order(undirected_nodes(*g), undirected_edges(*g), start as int),
        is_search_order(order@, undirected_edges(*g), start as int),
{
    let runs = graphina::parallel::bfs_parallel(&g.inner, &[g.handles[start]]);
    let visited = runs.into_iter().next().unwrap_or_default();
    visited.into_iter().map(|node| node.index()).collect()
}

/// Calls `graphina::parallel::shortest_paths_parallel` with one source and
/// lists the one table of distances that comes back by node index. The
/// search is breadth first and follows every edge from either end, so it
/// finds for every node that it reaches the hop distance, and no entry for a
/// node without a path.
#[verifier::external_body]
pub(crate) fn engine_shortest_paths_parallel(g: &UndirectedStore, source: usize) -> (distances:
    Vec<Option<usize>>)
    requires
        source < undirected_nodes(*g).len(),
    ensures
        distances@ == pooled_hop_distances(
            undirected_nodes(*g),
            undirected_edges(*g),
            source as int,
        ),
        distances@.len() == undirected_nodes(*g).len(),
{
    let runs = graphina::parallel::shortest_paths_parallel(&g.inner, &[g.handles[source]]);
    let found = runs.into_iter().next().unwrap_or_default();
    g.handles.iter().map(|node| found.get(node).copied()).collect()
}

/// The pooled search and the plain one agree on the distances: a node has a
/// distance in the one exactly if it has one in the other, and then it is the
/// hop distance in both, as long as that fits the plain one's 32 bits.
pub proof fn law_pooled_distances_agree(nodes: Seq<i64>, edges: Seq<(int, int)>, source: int, v: int)
    requires
        0 <= v < nodes.len(),
    ensures
        pooled_hop_distances(nodes, edges, source)[v] is Some <==> crate::traversal::hop_distances(
            nodes,
            edges,
            source,
        )[v] is Some,
        hop_distance(edges, source, v) is Some && hop_distance(edges, source, v)->Some_0
            <= u32::MAX ==> pooled_hop_distances(nodes, edges, source)[v] == Some(
            hop_distance(edges, source, v)->Some_0 as usize,
        ) && crate::traversal::hop_distances(nodes, edges, source)[v] == Some(
            hop_distance(edges, source, v)->Some_0 as u32,
        ),
{
}

/// Whether the numbers tell the connected components apart: two nodes have
/// the same number exactly if there is a path between them.
pub open spec fn numbers_components(numbers: Seq<Option<usize>>, edges: Seq<(int, int)>) -> bool {
    forall|u: int, v: int|
        0 <= u < numbers.len() && 0 <= v < numbers.len() ==> (#[trigger] numbers[u]
            == #[trigger] numbers[v] <==> hop_distance(edges, u, v) is Some)
}

/// Calls `graphina::parallel::connected_components_parallel` and lists its
/// answer by node index. The numbering is a function of the graph and gets
/// its name; the engine numbers every node, so there is one entry per node
/// and none is missing. A number is given to what one breadth-first search
/// reaches along the edges, followed from either end.
#[verifier::external_body]
pub(crate) fn engine_components_parallel(g: &UndirectedStore) -> (components: Vec<Option<usize>>)
    ensures
        components@ == pooled_component_ids(undirected_nodes(*g), undirected_edges(*g)),
        components@.len() == undirected_nodes(*g).len(),
        forall|i: int| 0 <= i < components@.len() ==> (#[trigger] components@[i]) is Some,
        numbers_components(components@, undirected_edges(*g)),
{
    let found = graphina::parallel::connected_components_parallel(&g.inner);
    g.handles.iter().map(|node| found.get(node).copied()).collect()
}

/// Result of parallel shortest paths.
pub struct ShortestPathsParallelResult {
    /// The nodes that the source reaches, by node index.
    pub node_ids: Vec<i64>,
    /// For each listed node its distance from the source, in hops.
    pub distances: Vec<i64>,
}

/// Compute parallel BFS traversal from a single source. The answer is the
/// one of the plain breadth-first traversal.
///
/// Arrays of different lengths and an empty edge list are refused; a source
/// that no edge mentions is reported as not found.
pub fn compute_bfs_parallel(src: &[i64], dst: &[i64], source: i64) -> (outcome: Result<
    BfsResult,
    OnagerError,
>)
    ensures
        match verdict(Operation::BfsParallel, src@.len(), dst@.len(), 0) {
            Verdict::Refused(text) => refused_with(outcome, text),
            _ => if src@.len() > MAX_EDGES {
                engine_failure(outcome, too_long_text())
            } else if !node_ids_of(src@, dst@).contains(source) {
                outcome matches Err(e) && e == OnagerError::NodeNotFound(source)
            } else {
                let ids = node_ids_of(src@, dst@);
                let edges = edge_pairs_of(src@, dst@);
                let visited = bfs_order(ids, edges, position_of(ids, source));
                match outcome {
                    Ok(r) => r.order@ == bfs_answer(src@, dst@, source) && r.order@
                        == translated(ids, visited) && r.node_ids@ == r.order@
                        && is_search_order(visited, edges, position_of(ids, source))
                        && r.order@.len() == visited.len() && r.order@[0] == source,
                    Err(_) => false,
                }
            },
        },
{
    check_lengths(Operation::BfsParallel, src.len(), dst.len(), 0)?;
    let g = EdgeGraph::build(src, dst)?;
    let start = match g.position(source) {
        Some(start) => start,
        None => { return Err(OnagerError::NodeNotFound(source)); },
    };
    let visited = engine_bfs_parallel(&g.store, start);
    let order = external_ids(g.table.ids(), &visited);
    proof {
        crate::index::lemma_edge_pairs_in_range(src@, dst@);
        lemma_search_order_in_range(visited@, g.edges(), g.table@.len(), start as int);
        crate::edges::lemma_translated_total(g.table@, visited@);
    }
    Ok(BfsResult { node_ids: order.clone(), order })
}

/// Compute parallel shortest paths from a single source, in hops.
///
/// Arrays of different lengths and an empty edge list are refused; a source
/// that no edge mentions is reported as not found. Only the nodes that the
/// source reaches are listed.
pub fn compute_shortest_paths_parallel(src: &[i64], dst: &[i64], source: i64) -> (outcome: Result<
    ShortestPathsParallelResult,
    OnagerError,
>)
    ensures
        match verdict(Operation::ShortestPathsParallel, src@.len(), dst@.len(), 0) {
            Verdict::Refused(text) => refused_with(outcome, text),
            _ => if src@.len() > MAX_EDGES {
                engine_failure(outcome, too_long_text())
            } else if !node_ids_of(src@, dst@).contains(source) {
                outcome matches Err(e) && e == OnagerError::NodeNotFound(source)
            } else {
                let ids = node_ids_of(src@, dst@);
                let found = pooled_hop_distances(
                    ids,
                    edge_pairs_of(src@, dst@),
                    position_of(ids, source),
                );
                match outcome {
                    Ok(r) => r.node_ids@ == listed_ids(ids, found) && r.distances@
                        == listed_values(ids, found),
                    Err(_) => false,
                }
            },
        },
{
    check_lengths(Operation::ShortestPathsParallel, src.len(), dst.len(), 0)?;
    let g = EdgeGraph::build(src, dst)?;
    let s = match g.position(source) {
        Some(s) => s,
        None => { return Err(OnagerError::NodeNotFound(source)); },
    };
    let found = engine_shortest_paths_parallel(&g.store, s);
    let (node_ids, distances) = list_values(g.table.ids(), &found);
    Ok(ShortestPathsParallelResult { node_ids, distances })
}

/// Compute parallel connected components.
///
/// Arrays of different lengths and an empty edge list are refused. Otherwise
/// every node is listed with the number of its component.
pub fn compute_components_parallel(src: &[i64], dst: &[i64]) -> (outcome: Result<
    ConnectedComponentsResult,
    OnagerError,
>)
    ensures
        match verdict(Operation::ComponentsParallel, src@.len(), dst@.len(), 0) {
            Verdict::Refused(text) => refused_with(outcome, text),
            _ => if src@.len() > MAX_EDGES {
                engine_failure(outcome, too_long_text())
            } else {
                let ids = node_ids_of(src@, dst@);
                let found = pooled_component_ids(ids, edge_pairs_of(src@, dst@));
                match outcome {
                    Ok(r) => r.node_ids@ == listed_ids(ids, found) && r.component_ids@
                        == listed_values(ids, found) && r.node_ids@ == ids
                        && r.component_ids@.len() == ids.len() && numbers_components(
                        found,
                        edge_pairs_of(src@, dst@),
                    ),
                    Err(_) => false,
                }
            },
        },
{
    check_lengths(Operation::ComponentsParallel, src.len(), dst.len(), 0)?;
    let g = EdgeGraph::build(src, dst)?;
    let found = engine_components_parallel(&g.store);
    let (node_ids, component_ids) = list_values(g.table.ids(), &found);
    proof {
        lemma_listed_total(g.table@, found@);
        assert(g.table@.take(found@.len() as int) =~= g.table@);
    }
    Ok(ConnectedComponentsResult { node_ids, component_ids })
}

/// Result of parallel clustering coefficients.
pub struct ClusteringParallelResult {
    /// Every node, in order of first appearance in the edge list.
    pub node_ids: Vec<i64>,
    /// For each node its clustering coefficient.
    pub coefficients: Vec<Fraction>,
}

/// Compute parallel clustering coefficients: for every node the share of the
/// pairs of its neighbours that are joined by an edge, over the triangle
/// counts of the engine.
///
/// Arrays of different lengths and an empty edge list are refused.
pub fn compute_clustering_parallel(src: &[i64], dst: &[i64]) -> (outcome: Result<
    ClusteringParallelResult,
    OnagerError,
>)
    ensures
        match verdict(Operation::ClusteringParallel, src@.len(), dst@.len(), 0) {
            Verdict::Refused(text) => refused_with(outcome, text),
            _ => if src@.len() > MAX_EDGES {
                engine_failure(outcome, too_long_text())
            } else {
                let ids = node_ids_of(src@, dst@);
                let edges = edge_pairs_of(src@, dst@);
                let counts = triangle_counts(ids, edges);
                match outcome {
                    Ok(r) => r.node_ids@ == ids && r.coefficients@.len() == ids.len() && forall|
                        p: int,
                    |
                        0 <= p < ids.len() ==> (#[trigger] r.coefficients@[p]).pair()
                            == clustering_of(counts[p], incident_count(edges, p)),
                    Err(_) => false,
                }
            },
        },
{
    check_lengths(Operation::ClusteringParallel, src.len(), dst.len(), 0)?;
    let g = EdgeGraph::build(src, dst)?;
    let ghost ids = g.table@;
    let ghost edges = edge_pairs_of(src@, dst@);
    let n = g.node_count();
    let counts = engine_triangles(&g.store);
    let mut coefficients: Vec<Fraction> = Vec::new();
    let mut v: usize = 0;
    while v < n
        invariant
            v <= n,
            n == ids.len(),
            g.well_formed(),
            ids == g.table@,
            edges == g.edges(),
            edges.len() <= MAX_EDGES,
            counts@.len() == n,
            coefficients@.len() == v,
            forall|p: int|
                0 <= p < v ==> (#[trigger] coefficients@[p]).pair() == clustering_of(
                    counts@[p],
                    incident_count(edges, p),
                ),
        decreases n - v,
    {
        proof {
            lemma_incident_bound(edges, v as int);
        }
        let degree: u64 = match g.store.degree(v) {
            Some(d) => d as u64,
            None => 0,
        };
        let coefficient = if degree < 2 {
            Fraction::zero()
        } else {
            let closed: u128 = match counts[v] {
                Some(c) => c as u128,
                None => 0,
            };
            Fraction { numerator: closed, denominator: pairs_among(degree) }
        };
        coefficients.push(coefficient);
        v += 1;
    }
    Ok(ClusteringParallelResult { node_ids: g.table.ids().clone(), coefficients })
}

/// Compute parallel triangle counting.
///
/// Arrays of different lengths and an empty edge list are refused. Otherwise
/// every node is listed with the number of triangles through it.
pub fn compute_triangles_parallel(src: &[i64], dst: &[i64]) -> (outcome: Result<
    TriangleResult,
    OnagerError,
>)
    ensures
        match verdict(Operation::TrianglesParallel, src@.len(), dst@.len(), 0) {
            Verdict::Refused(text) => refused_with(outcome, text),
            _ => if src@.len() > MAX_EDGES {
                engine_failure(outcome, too_long_text())
            } else {
                let ids = node_ids_of(src@, dst@);
                let counts = triangle_counts(ids, edge_pairs_of(src@, dst@));
                match outcome {
                    Ok(r) => r.node_ids@ == listed_ids(ids, counts) && r.triangle_counts@
                        == listed_values(ids, counts) && r.node_ids@ == ids
                        && r.triangle_counts@.len() == ids.len(),
                    Err(_) => false,
                }
            },
        },
{
    check_lengths(Operation::TrianglesParallel, src.len(), dst.len(), 0)?;
    let g = EdgeGraph::build(src, dst)?;
    let counts = engine_triangles(&g.store);
    let (node_ids, triangle_counts) = list_values(g.table.ids(), &counts);
    proof {
        lemma_listed_total(g.table@, counts@);
        assert(g.table@.take(counts@.len() as int) =~= g.table@);
    }
    Ok(TriangleResult { node_ids, triangle_counts })
}

} // verus!
