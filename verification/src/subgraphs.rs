//! Parts of a graph: the neighbourhood of a node and the subgraph induced by
//! a set of nodes.
//!
//! An extracted subgraph is answered as the edges of the edge list, in the
//! order of the list, whose two endpoints both belong to the chosen nodes. A
//! self-loop at a chosen node is such an edge.

use vstd::prelude::*;
use vstd::string::StringExecFns;
use crate::admission::Operation;
use crate::admission::Verdict;
use crate::admission::check_lengths;
use crate::admission::refused_with;
use crate::admission::verdict;
use crate::edges::EdgeGraph;
use crate::edges::MAX_EDGES;
use crate::edges::external_ids;
use crate::edges::too_long_text;
use crate::edges::translated;
use crate::engine::UndirectedStore;
use crate::engine::engine_error;
use crate::engine::undirected_edges;
use crate::engine::undirected_nodes;
use crate::engine::within;
use crate::error::OnagerError;
use crate::graph::engine_failure;
use crate::index::edge_pairs_of;
use crate::index::node_ids_of;
use crate::index::position_of;

verus! {

/// Whether an edge joins `u` and `v`, in either order.
pub open spec fn adjacent(edges: Seq<(int, int)>, u: int, v: int) -> bool {
    exists|i: int| 0 <= i < edges.len() && (#[trigger] edges[i] == (u, v) || edges[i] == (v, u))
}

/// The nodes that are at most `radius` hops away from `center`.
pub open spec fn within_hops(edges: Seq<(int, int)>, center: int, radius: nat) -> Set<int>
    decreases radius,
{
    if radius == 0 {
        set![center]
    } else {
        let inner = within_hops(edges, center, (radius - 1) as nat);
        Set::new(|v: int| inner.contains(v) || exists|u: int| inner.contains(u) && adjacent(edges, u, v))
    }
}

/// In a graph whose edges join nodes below `n`, everything within reach of
/// such a node is a node below `n`.
pub proof fn lemma_within_hops_in_range(edges: Seq<(int, int)>, n: nat, center: int, radius: nat)
    requires
        within(edges, n),
        0 <= center < n,
    ensures
        forall|v: int| within_hops(edges, center, radius).contains(v) ==> 0 <= v < n,
    decreases radius,
{
    if radius > 0 {
        lemma_within_hops_in_range(edges, n, center, (radius - 1) as nat);
        let inner = within_hops(edges, center, (radius - 1) as nat);
        assert forall|v: int| within_hops(edges, center, radius).contains(v) implies 0 <= v < n by {
            if !inner.contains(v) {
                let u = choose|u: int| inner.contains(u) && adjacent(edges, u, v);
                let i = choose|i: int|
                    0 <= i < edges.len() && (#[trigger] edges[i] == (u, v) || edges[i] == (v, u));
                assert(0 <= edges[i].0 < n && 0 <= edges[i].1 < n);
            }
        }
    }
}

/// The edges whose endpoints both belong to `chosen`, in the order of
/// `edges`, each as the identifiers of its endpoints.
pub open spec fn kept(nodes: Seq<i64>, edges: Seq<(int, int)>, chosen: Set<int>) -> Seq<(i64, i64)>
    decreases edges.len(),
{
    if edges.len() == 0 {
        Seq::empty()
    } else {
        let front = kept(nodes, edges.drop_last(), chosen);
        let (a, b) = edges.last();
        if chosen.contains(a) && chosen.contains(b) && 0 <= a < nodes.len() && 0 <= b
            < nodes.len() {
            front.push((nodes[a], nodes[b]))
        } else {
            front
        }
    }
}

/// The set of the indices that a sequence lists.
pub open spec fn index_set(s: Seq<usize>) -> Set<int> {
    Set::new(|p: int| exists|k: int| 0 <= k < s.len() && #[trigger] s[k] == p)
}

/// The indices of the nodes whose identifier is among `wanted`.
pub open spec fn chosen_positions(ids: Seq<i64>, wanted: Seq<i64>) -> Set<int> {
    Set::new(|p: int| 0 <= p < ids.len() && wanted.contains(ids[p]))
}

/// The node indices within `k` hops of `start`, in the order in which the
/// engine's search reaches them.
pub uninterp spec fn k_hop_order(nodes: Seq<i64>, edges: Seq<(int, int)>, start: int, k: nat) -> Seq<
    usize,
>;

/// Calls `SubgraphOps::induced_subgraph` of graphina and reads the edges of
/// the subgraph by the identifiers on their endpoints. The call fails only for
/// a node outside the graph, which the bound excludes. It copies, in their
/// order, the edges whose two endpoints are both chosen.
#[verifier::external_body]
pub(crate) fn engine_induced_subgraph(g: &UndirectedStore, chosen: &Vec<usize>) -> (outcome:
    Result<Vec<(i64, i64)>, graphina::core::error::GraphinaError>)
    requires
        forall|k: int| 0 <= k < chosen@.len() ==> chosen@[k] < undirected_nodes(*g).len(),
    ensures
        match outcome {
            Ok(pairs) => pairs@ == kept(
                undirected_nodes(*g),
                undirected_edges(*g),
                index_set(chosen@),
            ),
            Err(_) => false,
        },
{
    let set: std::collections::HashSet<_> = chosen.iter().map(|&p| g.handles[p]).collect();
    let sub = graphina::subgraphs::SubgraphOps::induced_subgraph(&g.inner, &set)?;
    Ok(sub.edges().map(|(u, v, _)| (sub[u], sub[v])).collect())
}

/// Calls `SubgraphOps::ego_graph` of graphina and reads the edges of the
/// subgraph by the identifiers on their endpoints. The call fails only for a
/// centre outside the graph, which the bound excludes. It searches breadth
/// first to the given depth and copies, in their order, the edges whose two
/// endpoints were both reached.
#[verifier::external_body]
pub(crate) fn engine_ego_graph(g: &UndirectedStore, center: usize, radius: usize) -> (outcome:
    Result<Vec<(i64, i64)>, graphina::core::error::GraphinaError>)
    requires
        center < undirected_nodes(*g).len(),
    ensures
        match outcome {
            Ok(pairs) => pairs@ == kept(
                undirected_nodes(*g),
                undirected_edges(*g),
                within_hops(undirected_edges(*g), center as int, radius as nat),
            ),
            Err(_) => false,
        },
{
    let sub = graphina::subgraphs::SubgraphOps::ego_graph(&g.inner, g.handles[center], radius)?;
    Ok(sub.edges().map(|(u, v, _)| (sub[u], sub[v])).collect())
}

/// Calls `SubgraphOps::k_hop_neighbors` of graphina. The search is breadth
/// first to depth `k`: it lists the start node first and then every node that
/// it reaches, each once, so the listed nodes are those within `k` hops and
/// as many; with `k == 0` the start node is all there is. The order gets its
/// name.
#[verifier::external_body]
pub(crate) fn engine_k_hop_neighbors(g: &UndirectedStore, start: usize, k: usize) -> (found: Vec<
    usize,
>)
    requires
        start < undirected_nodes(*g).len(),
    ensures
        found@ == k_hop_order(
            undirected_nodes(*g),
            undirected_edges(*g),
            start as int,
            k as nat,
        ),
        k == 0 ==> found@ == seq![start],
        index_set(found@) == within_hops(undirected_edges(*g), start as int, k as nat),
        found@.len() == within_hops(undirected_edges(*g), start as int, k as nat).len(),
{
    let found = graphina::subgraphs::SubgraphOps::k_hop_neighbors(&g.inner, g.handles[start], k);
    found.into_iter().map(|node| node.index()).collect()
}

/// Result of ego graph extraction.
pub struct EgoGraphResult {
    /// The first endpoints of the edges.
    pub src: Vec<i64>,
    /// The second endpoints of the edges.
    pub dst: Vec<i64>,
}

/// Result of k-hop neighbor computation.
pub struct KHopNeighborsResult {
    /// The nodes within reach, the start node first.
    pub node_ids: Vec<i64>,
}

/// Result of induced subgraph extraction.
pub struct InducedSubgraphResult {
    /// The first endpoints of the edges.
    pub src: Vec<i64>,
    /// The second endpoints of the edges.
    pub dst: Vec<i64>,
}

/// The text with which an empty node selection is refused.
pub open spec fn selection_text() -> Seq<char> {
    "node_ids must not be empty"@
}

/// Splits pairs of endpoints into the array of first and the array of second
/// endpoints.
pub fn split_pairs(pairs: &Vec<(i64, i64)>) -> (out: (Vec<i64>, Vec<i64>))
    ensures
        out.0@ == pairs@.map_values(|p: (i64, i64)| p.0),
        out.1@ == pairs@.map_values(|p: (i64, i64)| p.1),
{
    let mut first: Vec<i64> = Vec::new();
    let mut second: Vec<i64> = Vec::new();
    let mut i: usize = 0;
    while i < pairs.len()
        invariant
            i <= pairs@.len(),
            first@ == pairs@.take(i as int).map_values(|p: (i64, i64)| p.0),
            second@ == pairs@.take(i as int).map_values(|p: (i64, i64)| p.1),
        decreases pairs@.len() - i,
    {
        let p = pairs[i];
        first.push(p.0);
        second.push(p.1);
        proof {
            assert(first@ =~= pairs@.take(i + 1).map_values(|p: (i64, i64)| p.0));
            assert(second@ =~= pairs@.take(i + 1).map_values(|p: (i64, i64)| p.1));
        }
        i += 1;
    }
    proof {
        assert(pairs@.take(pairs@.len() as int) =~= pairs@);
    }
    (first, second)
}

/// The edges of the ego graph around `center`, as pairs of identifiers.
pub open spec fn ego_edges(src: Seq<i64>, dst: Seq<i64>, center: i64, radius: nat) -> Seq<
    (i64, i64),
> {
    let ids = node_ids_of(src, dst);
    let edges = edge_pairs_of(src, dst);
    kept(ids, edges, within_hops(edges, position_of(ids, center), radius))
}

/// The edges of the subgraph induced by `wanted`, as pairs of identifiers.
pub open spec fn induced_edges(src: Seq<i64>, dst: Seq<i64>, wanted: Seq<i64>) -> Seq<(i64, i64)> {
    let ids = node_ids_of(src, dst);
    kept(ids, edge_pairs_of(src, dst), chosen_positions(ids, wanted))
}

/// Extract an ego graph centered on a node with a given radius: the edges
/// among all nodes within `radius` hops of `center`.
///
/// Arrays of different lengths and an empty edge list are refused; a centre
/// that no edge mentions is reported as not found. With radius zero the
/// centre is the only node, so that the answer holds its self-loops and has
/// no edge where it has none.
pub fn compute_ego_graph(src: &[i64], dst: &[i64], center: i64, radius: usize) -> (outcome: Result<
    EgoGraphResult,
    OnagerError,
>)
    ensures
        match verdict(Operation::EgoGraph, src@.len(), dst@.len(), 0) {
            Verdict::Refused(text) => refused_with(outcome, text),
            _ => if src@.len() > MAX_EDGES {
                engine_failure(outcome, too_long_text())
            } else if !node_ids_of(src@, dst@).contains(center) {
                outcome matches Err(e) && e == OnagerError::NodeNotFound(center)
            } else {
                let edges = ego_edges(src@, dst@, center, radius as nat);
                match outcome {
                    Ok(r) => r.src@ == edges.map_values(|p: (i64, i64)| p.0) && r.dst@
                        == edges.map_values(|p: (i64, i64)| p.1) && (radius == 0 && (forall|
                        i: int,
                    |
                        0 <= i < src@.len() ==> !(src@[i] == center && dst@[i] == center))
                        ==> r.src@.len() == 0 && r.dst@.len() == 0),
                    Err(_) => false,
                }
            },
        },
{
    check_lengths(Operation::EgoGraph, src.len(), dst.len(), 0)?;
    let g = EdgeGraph::build(src, dst)?;
    let c = match g.position(center) {
        Some(c) => c,
        None => { return Err(OnagerError::NodeNotFound(center)); },
    };
    match engine_ego_graph(&g.store, c, radius) {
        Ok(pairs) => {
            let (first, second) = split_pairs(&pairs);
            proof {
                if radius == 0 && (forall|i: int|
                    0 <= i < src@.len() ==> !(src@[i] == center && dst@[i] == center)) {
                    law_ego_radius_zero(src@, dst@, center);
                }
            }
            Ok(EgoGraphResult { src: first, dst: second })
        },
        Err(e) => Err(engine_error(e)),
    }
}

/// Find all nodes within k hops of a start node, the start node included.
///
/// Arrays of different lengths and an empty edge list are refused; a start
/// node that no edge mentions is reported as not found. With `k == 0` the
/// answer is the start node alone.
pub fn compute_k_hop_neighbors(src: &[i64], dst: &[i64], start: i64, k: usize) -> (outcome: Result<
    KHopNeighborsResult,
    OnagerError,
>)
    ensures
        match verdict(Operation::KHopNeighbors, src@.len(), dst@.len(), 0) {
            Verdict::Refused(text) => refused_with(outcome, text),
            _ => if src@.len() > MAX_EDGES {
                engine_failure(outcome, too_long_text())
            } else if !node_ids_of(src@, dst@).contains(start) {
                outcome matches Err(e) && e == OnagerError::NodeNotFound(start)
            } else {
                let ids = node_ids_of(src@, dst@);
                let edges = edge_pairs_of(src@, dst@);
                let order = k_hop_order(ids, edges, position_of(ids, start), k as nat);
                match outcome {
                    Ok(r) => r.node_ids@ == translated(ids, order) && index_set(order)
                        == within_hops(edges, position_of(ids, start), k as nat) && (k == 0
                        ==> r.node_ids@ == seq![start]),
                    Err(_) => false,
                }
            },
        },
{
    check_lengths(Operation::KHopNeighbors, src.len(), dst.len(), 0)?;
    let g = EdgeGraph::build(src, dst)?;
    let s = match g.position(start) {
        Some(s) => s,
        None => { return Err(OnagerError::NodeNotFound(start)); },
    };
    let found = engine_k_hop_neighbors(&g.store, s, k);
    let node_ids = external_ids(g.table.ids(), &found);
    proof {
        if k == 0 {
            assert(found@.drop_last() =~= Seq::<usize>::empty());
            assert(translated(g.table@, found@.drop_last()) =~= Seq::<i64>::empty());
            assert(node_ids@ =~= seq![start]);
        }
    }
    Ok(KHopNeighborsResult { node_ids })
}

/// Extract an induced subgraph containing only the specified nodes and the
/// edges between them. Identifiers that no edge mentions select nothing.
///
/// Arrays of different lengths and an empty edge list are refused, then an
/// empty selection. A single selected node gives its self-loops, and no edge
/// where it has none.
pub fn compute_induced_subgraph(src: &[i64], dst: &[i64], node_ids: &[i64]) -> (outcome: Result<
    InducedSubgraphResult,
    OnagerError,
>)
    ensures
        match verdict(Operation::InducedSubgraph, src@.len(), dst@.len(), 0) {
            Verdict::Refused(text) => refused_with(outcome, text),
            _ => if node_ids@.len() == 0 {
                refused_with(outcome, selection_text())
            } else if src@.len() > MAX_EDGES {
                engine_failure(outcome, too_long_text())
            } else {
                let edges = induced_edges(src@, dst@, node_ids@);
                match outcome {
                    Ok(r) => r.src@ == edges.map_values(|p: (i64, i64)| p.0) && r.dst@
                        == edges.map_values(|p: (i64, i64)| p.1) && (node_ids@.len() == 1 && (
                    forall|i: int|
                        0 <= i < src@.len() ==> !(src@[i] == node_ids@[0] && dst@[i]
                            == node_ids@[0])) ==> r.src@.len() == 0 && r.dst@.len() == 0),
                    Err(_) => false,
                }
            },
        },
{
    check_lengths(Operation::InducedSubgraph, src.len(), dst.len(), 0)?;
    if node_ids.len() == 0 {
        return Err(OnagerError::InvalidArgument(String::from_str("node_ids must not be empty")));
    }
    let g = EdgeGraph::build(src, dst)?;
    let ghost ids = g.table@;
    let mut chosen: Vec<usize> = Vec::new();
    let mut j: usize = 0;
    while j < node_ids.len()
        invariant
            j <= node_ids@.len(),
            g.well_formed(),
            ids == g.table@,
            forall|k: int| 0 <= k < chosen@.len() ==> chosen@[k] < ids.len(),
            forall|k: int|
                0 <= k < chosen@.len() ==> node_ids@.take(j as int).contains(
                    ids[#[trigger] chosen@[k] as int],
                ),
            forall|m: int|
                0 <= m < j && ids.contains(#[trigger] node_ids@[m]) ==> index_set(chosen@).contains(
                    position_of(ids, node_ids@[m]),
                ),
        decreases node_ids@.len() - j,
    {
        let ghost before = chosen@;
        match g.position(node_ids[j]) {
            Some(p) => {
                chosen.push(p);
                proof {
                    assert(chosen@[before.len() as int] == p);
                    assert(node_ids@.take(j + 1)[j as int] == node_ids@[j as int]);
                }
            },
            None => {},
        }
        proof {
            assert forall|k: int| 0 <= k < chosen@.len() implies node_ids@.take(j + 1).contains(
                ids[#[trigger] chosen@[k] as int],
            ) by {
                if k < before.len() {
                    let x = ids[before[k] as int];
                    let w = choose|w: int|
                        0 <= w < node_ids@.take(j as int).len() && node_ids@.take(j as int)[w]
                            == x;
                    assert(node_ids@.take(j + 1)[w] == x);
                } else {
                    assert(node_ids@.take(j + 1)[j as int] == ids[chosen@[k] as int]);
                }
            }
            assert forall|m: int|
                0 <= m < j + 1 && ids.contains(#[trigger] node_ids@[m]) implies index_set(
                chosen@,
            ).contains(position_of(ids, node_ids@[m])) by {
                if m < j {
                    assert(index_set(before).contains(position_of(ids, node_ids@[m])));
                    let k = choose|k: int|
                        0 <= k < before.len() && #[trigger] before[k] == position_of(
                            ids,
                            node_ids@[m],
                        );
                    assert(chosen@[k] == before[k]);
                } else {
                    assert(chosen@[before.len() as int] == position_of(ids, node_ids@[m]));
                }
            }
        }
        j += 1;
    }
    proof {
        g.table.lemma_distinct();
        assert(node_ids@.take(node_ids@.len() as int) =~= node_ids@);
        assert forall|p: int| index_set(chosen@).contains(p) <==> chosen_positions(
            ids,
            node_ids@,
        ).contains(p) by {
            if index_set(chosen@).contains(p) {
                let k = choose|k: int| 0 <= k < chosen@.len() && #[trigger] chosen@[k] == p;
                assert(node_ids@.contains(ids[chosen@[k] as int]));
            }
            if chosen_positions(ids, node_ids@).contains(p) {
                let x = ids[p];
                let m = choose|m: int| 0 <= m < node_ids@.len() && node_ids@[m] == x;
                assert(ids.contains(x));
                let q = ids.index_of(x);
                assert(ids[q] == x);
                if q < p {
                    assert(ids[q] != ids[p]);
                } else if p < q {
                    assert(ids[p] != ids[q]);
                }
                assert(ids.contains(node_ids@[m]));
            }
        }
        assert(index_set(chosen@) =~= chosen_positions(ids, node_ids@));
    }
    match engine_induced_subgraph(&g.store, &chosen) {
        Ok(pairs) => {
            let (first, second) = split_pairs(&pairs);
            proof {
                if node_ids@.len() == 1 && (forall|i: int|
                    0 <= i < src@.len() ==> !(src@[i] == node_ids@[0] && dst@[i]
                        == node_ids@[0])) {
                    assert(node_ids@ =~= seq![node_ids@[0]]);
                    law_induced_single_node(src@, dst@, node_ids@[0]);
                }
            }
            Ok(InducedSubgraphResult { src: first, dst: second })
        },
        Err(e) => Err(engine_error(e)),
    }
}

/// Among nodes of which only `c` is chosen, the kept edges are the self-loops
/// at `c`: without such a loop nothing is kept.
pub proof fn lemma_kept_single(nodes: Seq<i64>, edges: Seq<(int, int)>, chosen: Set<int>, c: int)
    requires
        forall|p: int| chosen.contains(p) ==> p == c,
        forall|i: int| 0 <= i < edges.len() ==> #[trigger] edges[i] != (c, c),
    ensures
        kept(nodes, edges, chosen) == Seq::<(i64, i64)>::empty(),
    decreases edges.len(),
{
    if edges.len() > 0 {
        assert forall|i: int| 0 <= i < edges.drop_last().len() implies #[trigger] edges.drop_last()[i]
            != (c, c) by {
            assert(edges.drop_last()[i] == edges[i]);
        }
        lemma_kept_single(nodes, edges.drop_last(), chosen, c);
        assert(edges[edges.len() - 1] != (c, c));
    }
}

/// An ego graph of radius zero has no edges, provided the edge list has no
/// self-loop at the centre.
pub proof fn law_ego_radius_zero(src: Seq<i64>, dst: Seq<i64>, center: i64)
    requires
        src.len() == dst.len(),
        node_ids_of(src, dst).contains(center),
        forall|i: int| 0 <= i < src.len() ==> !(src[i] == center && dst[i] == center),
    ensures
        ego_edges(src, dst, center, 0) == Seq::<(i64, i64)>::empty(),
{
    let ids = node_ids_of(src, dst);
    let edges = edge_pairs_of(src, dst);
    let c = position_of(ids, center);
    lemma_no_loop_at(src, dst, center);
    lemma_kept_single(ids, edges, within_hops(edges, c, 0), c);
}

/// The subgraph induced by a single node has no edges, provided the edge list
/// has no self-loop at that node.
pub proof fn law_induced_single_node(src: Seq<i64>, dst: Seq<i64>, node: i64)
    requires
        src.len() == dst.len(),
        forall|i: int| 0 <= i < src.len() ==> !(src[i] == node && dst[i] == node),
    ensures
        induced_edges(src, dst, seq![node]) == Seq::<(i64, i64)>::empty(),
{
    let ids = node_ids_of(src, dst);
    let edges = edge_pairs_of(src, dst);
    crate::index::lemma_first_occurrences(src + dst);
    if ids.contains(node) {
        let c = position_of(ids, node);
        lemma_no_loop_at(src, dst, node);
        assert forall|p: int| chosen_positions(ids, seq![node]).contains(p) implies p == c by {
            assert(seq![node].contains(ids[p]));
            let w = choose|w: int| 0 <= w < seq![node].len() && seq![node][w] == ids[p];
            assert(ids[p] == node);
            assert(ids[c] == node);
            if p < c {
                assert(ids[p] != ids[c]);
            } else if c < p {
                assert(ids[c] != ids[p]);
            }
        }
        lemma_kept_single(ids, edges, chosen_positions(ids, seq![node]), c);
    } else {
        assert forall|p: int| chosen_positions(ids, seq![node]).contains(p) implies p == -1 by {
            let w = choose|w: int| 0 <= w < seq![node].len() && seq![node][w] == ids[p];
            assert(ids[p] == node);
            assert(ids.contains(node));
        }
        assert forall|i: int| 0 <= i < edges.len() implies #[trigger] edges[i] != (-1int, -1int) by {
            let x = src[i];
            assert((src + dst)[i] == x);
            assert((src + dst).contains(x));
            assert(ids.contains(x));
        }
        lemma_kept_single(ids, edges, chosen_positions(ids, seq![node]), -1);
    }
}

/// Without a self-loop at `node` in the edge list, no edge of the graph joins
/// the index of `node` to itself.
pub proof fn lemma_no_loop_at(src: Seq<i64>, dst: Seq<i64>, node: i64)
    requires
        src.len() == dst.len(),
        node_ids_of(src, dst).contains(node),
        forall|i: int| 0 <= i < src.len() ==> !(src[i] == node && dst[i] == node),
    ensures
        forall|i: int|
            0 <= i < edge_pairs_of(src, dst).len() ==> #[trigger] edge_pairs_of(src, dst)[i] != (
                position_of(node_ids_of(src, dst), node),
                position_of(node_ids_of(src, dst), node),
            ),
{
    let ids = node_ids_of(src, dst);
    let c = position_of(ids, node);
    crate::index::lemma_first_occurrences(src + dst);
    assert forall|i: int| 0 <= i < edge_pairs_of(src, dst).len() implies #[trigger] edge_pairs_of(
        src,
        dst,
    )[i] != (c, c) by {
        assert((src + dst)[i] == src[i]);
        assert((src + dst)[src.len() + i] == dst[i]);
        assert((src + dst).contains(src[i]));
        assert((src + dst).contains(dst[i]));
        assert(ids.contains(src[i]));
        assert(ids.contains(dst[i]));
        let a = position_of(ids, src[i]);
        let b = position_of(ids, dst[i]);
        assert(ids[a] == src[i]);
        assert(ids[b] == dst[i]);
        assert(ids[c] == node);
    }
}

} // verus!
