//! Scores per node: degrees, closeness, reach, Laplacian centrality and the
//! election of influential spreaders.
//!
//! Every score here is a count or a fraction of counts, and is answered
//! exactly.

use vstd::prelude::*;
use vstd::string::StringExecFns;
use crate::admission::Admission;
use crate::admission::Operation;
use crate::admission::Verdict;
use crate::admission::check_lengths;
use crate::admission::refused_with;
use crate::admission::verdict;
use crate::edges::EdgeGraph;
use crate::edges::MAX_EDGES;
use crate::edges::external_ids;
use crate::edges::too_long_text;
use crate::edges::translated;
use crate::engine::CAPACITY;
use crate::engine::UndirectedStore;
use crate::engine::engine_error;
use crate::engine::incident_count;
use crate::engine::undirected_edges;
use crate::engine::undirected_nodes;
use crate::error::OnagerError;
use crate::fraction::Fraction;
use crate::graph::engine_failure;
use crate::index::NodeTable;
use crate::index::edge_pairs_of;
use crate::index::lemma_first_occurrences;
use crate::index::node_ids_of;
use crate::subgraphs::engine_k_hop_neighbors;
use crate::subgraphs::within_hops;
use crate::traversal::engine_dijkstra;
use crate::traversal::hop_distances;

verus! {

/// How often `x` occurs in `s`.
pub open spec fn occurrences(s: Seq<i64>, x: i64) -> nat
    decreases s.len(),
{
    if s.len() == 0 {
        0
    } else {
        occurrences(s.drop_last(), x) + if s.last() == x {
            1nat
        } else {
            0nat
        }
    }
}

/// An identifier occurs at most as often as the sequence is long, and at
/// least once exactly if the sequence holds it.
pub proof fn lemma_occurrences(s: Seq<i64>, x: i64)
    ensures
        occurrences(s, x) <= s.len(),
        occurrences(s, x) > 0 <==> s.contains(x),
    decreases s.len(),
{
    if s.len() > 0 {
        lemma_occurrences(s.drop_last(), x);
        if s.contains(x) {
            let k = choose|k: int| 0 <= k < s.len() && s[k] == x;
            if k < s.len() - 1 {
                assert(s.drop_last()[k] == x);
            }
        }
        if s.drop_last().contains(x) {
            let k = choose|k: int| 0 <= k < s.drop_last().len() && s.drop_last()[k] == x;
            assert(s[k] == x);
        }
        if s.last() == x {
            assert(s[s.len() - 1] == x);
        }
    }
}

/// The nodes that the engine's vote rank elects, in the order of their
/// election, as node indices.
pub uninterp spec fn voterank_seeds(nodes: Seq<i64>, edges: Seq<(int, int)>, num_seeds: nat) -> Seq<
    usize,
>;

/// Calls `graphina::centrality::other::voterank`. Ties are broken by node
/// order, so the election is a function of the graph and the number of seats,
/// which gets its name. Every round elects at most one node that was not
/// elected before, and there are no more rounds than seats.
#[verifier::external_body]
pub(crate) fn engine_voterank(g: &UndirectedStore, num_seeds: usize) -> (seeds: Vec<usize>)
    ensures
        seeds@ == voterank_seeds(undirected_nodes(*g), undirected_edges(*g), num_seeds as nat),
        seeds@.len() <= num_seeds,
        seeds@.no_duplicates(),
        forall|k: int| 0 <= k < seeds@.len() ==> (#[trigger] seeds@[k]) < undirected_nodes(*g).len(),
{
    let elected = graphina::centrality::other::voterank(&g.inner, num_seeds);
    elected.into_iter().map(|node| node.index()).collect()
}

/// Result of degree centrality computation.
pub struct DegreeResult {
    /// Every node, in order of first appearance in the edge list.
    pub node_ids: Vec<i64>,
    /// For each node the number of edge ends that count as entering it.
    pub in_degrees: Vec<u64>,
    /// For each node the number of edge ends that count as leaving it.
    pub out_degrees: Vec<u64>,
}

/// The degree of the node `id` that counts as entering: in a directed graph
/// the edges that point to it, in an undirected graph every edge end at it,
/// so that a self-loop counts twice.
pub open spec fn in_degree_of(src: Seq<i64>, dst: Seq<i64>, directed: bool, id: i64) -> nat {
    if directed {
        occurrences(dst, id)
    } else {
        occurrences(src, id) + occurrences(dst, id)
    }
}

/// The degree of the node `id` that counts as leaving: in a directed graph
/// the edges that start at it, in an undirected graph every edge end at it.
pub open spec fn out_degree_of(src: Seq<i64>, dst: Seq<i64>, directed: bool, id: i64) -> nat {
    if directed {
        occurrences(src, id)
    } else {
        occurrences(src, id) + occurrences(dst, id)
    }
}

/// Result of closeness centrality computation.
pub struct ClosenessResult {
    /// Every node, in order of first appearance in the edge list.
    pub node_ids: Vec<i64>,
    /// For each node its closeness.
    pub centralities: Vec<Fraction>,
}

/// Whether node `i` counts towards the closeness of `v`: it is another node,
/// and it is reached over a positive distance.
pub open spec fn counted(d: Seq<Option<u32>>, v: int, i: int) -> bool {
    i != v && d[i] is Some && d[i]->Some_0 > 0
}

/// How many of the first `upto` nodes count towards the closeness of `v`.
pub open spec fn reached(d: Seq<Option<u32>>, v: int, upto: nat) -> nat
    decreases upto,
{
    if upto == 0 {
        0
    } else {
        reached(d, v, (upto - 1) as nat) + if counted(d, v, upto - 1) {
            1nat
        } else {
            0nat
        }
    }
}

/// The sum of the distances to those of the first `upto` nodes that count
/// towards the closeness of `v`.
pub open spec fn distance_total(d: Seq<Option<u32>>, v: int, upto: nat) -> nat
    decreases upto,
{
    if upto == 0 {
        0
    } else {
        distance_total(d, v, (upto - 1) as nat) + if counted(d, v, upto - 1) {
            d[upto - 1]->Some_0 as nat
        } else {
            0nat
        }
    }
}

/// The closeness of node `v` from its distances `d` to all nodes: the
/// reciprocal of the mean distance to the nodes that it reaches, which is
/// their number over the sum of their distances. It is zero for a node that
/// reaches no other node.
pub open spec fn closeness_of(d: Seq<Option<u32>>, v: int) -> (nat, nat) {
    let r = reached(d, v, d.len());
    let s = distance_total(d, v, d.len());
    if s > 0 {
        (r, s)
    } else {
        (0, 1)
    }
}

/// A closeness is a fraction of counts: it is not negative, and its
/// denominator is positive.
pub proof fn law_closeness_not_negative(d: Seq<Option<u32>>, v: int)
    ensures
        closeness_of(d, v).0 >= 0,
        closeness_of(d, v).1 > 0,
{
}

/// The closeness of node `node` from its distances to all nodes.
pub fn closeness_from(distances: &Vec<Option<u32>>, node: usize) -> (f: Fraction)
    ensures
        f.pair() == closeness_of(distances@, node as int),
{
    let (total, count, _) = crate::metrics::tally_distances(distances, node);
    if total > 0 {
        Fraction { numerator: count, denominator: total }
    } else {
        Fraction::zero()
    }
}

/// Result of local reaching centrality computation.
pub struct LocalReachingResult {
    /// Every node, in order of first appearance in the edge list.
    pub node_ids: Vec<i64>,
    /// For each node the number of nodes within reach, itself included.
    pub centrality: Vec<u64>,
}

/// Result of Laplacian centrality computation.
pub struct LaplacianResult {
    /// Every node, in order of first appearance in the edge list.
    pub node_ids: Vec<i64>,
    /// For each node its Laplacian centrality.
    pub centrality: Vec<u128>,
}

/// The sum, over the edges of `part` that touch `v`, of the degree in `all`
/// of the node at the other end; a self-loop adds the degree of `v` once.
pub open spec fn neighbor_degree_sum(all: Seq<(int, int)>, part: Seq<(int, int)>, v: int) -> nat
    decreases part.len(),
{
    if part.len() == 0 {
        0
    } else {
        let rest = neighbor_degree_sum(all, part.drop_last(), v);
        let (a, b) = part.last();
        if a == v {
            rest + incident_count(all, b)
        } else if b == v {
            rest + incident_count(all, a)
        } else {
            rest
        }
    }
}

/// The Laplacian centrality of node `v` in an unweighted graph: with `d` the
/// degree of `v`, it is `d * d + d` plus twice the degrees of its neighbours,
/// a neighbour counting once for every edge that leads to it.
pub open spec fn laplacian_of(edges: Seq<(int, int)>, v: int) -> nat {
    let d = incident_count(edges, v);
    d * d + d + 2 * neighbor_degree_sum(edges, edges, v)
}

/// A node has at most as many incident edges as there are edges.
pub proof fn lemma_incident_bound(edges: Seq<(int, int)>, v: int)
    ensures
        incident_count(edges, v) <= edges.len(),
    decreases edges.len(),
{
    if edges.len() > 0 {
        lemma_incident_bound(edges.drop_last(), v);
    }
}

/// Result of single-node degree computation.
#[derive(Clone, Copy, Debug, PartialEq, Eq, Structural)]
pub struct NodeDegreeResult {
    /// The number of edges that point to the node.
    pub in_degree: i64,
    /// The number of edges that leave the node.
    pub out_degree: i64,
}

/// Result of VoteRank computation.
pub struct VoteRankResult {
    /// The elected nodes, in the order of their election.
    pub node_ids: Vec<i64>,
}

/// The longest edge list whose degrees fit the result.
pub const MAX_COUNTED: u64 = 0x7fff_ffff_ffff_ffff;

/// Compute degree for a single node: how many edges of the list leave it and
/// how many point to it. A self-loop counts for both.
///
/// Arrays of different lengths and an empty edge list are refused; a node
/// that no edge mentions is reported as not found. An edge list too long for
/// its degrees to be counted fails.
pub fn compute_node_degree(src: &[i64], dst: &[i64], node: i64) -> (outcome: Result<
    NodeDegreeResult,
    OnagerError,
>)
    ensures
        match verdict(Operation::NodeDegree, src@.len(), dst@.len(), 0) {
            Verdict::Refused(text) => refused_with(outcome, text),
            _ => if src@.len() > MAX_COUNTED {
                engine_failure(outcome, too_long_text())
            } else if !src@.contains(node) && !dst@.contains(node) {
                outcome matches Err(e) && e == OnagerError::NodeNotFound(node)
            } else {
                outcome == Ok::<NodeDegreeResult, OnagerError>(
                    NodeDegreeResult {
                        in_degree: occurrences(dst@, node) as i64,
                        out_degree: occurrences(src@, node) as i64,
                    },
                )
            },
        },
{
    check_lengths(Operation::NodeDegree, src.len(), dst.len(), 0)?;
    if src.len() as u64 > MAX_COUNTED {
        return Err(
            OnagerError::GraphError(
                String::from_str("Edge list exceeds the capacity of the engine"),
            ),
        );
    }
    let mut in_degree: i64 = 0;
    let mut out_degree: i64 = 0;
    let mut i: usize = 0;
    while i < src.len()
        invariant
            i <= src@.len(),
            src@.len() == dst@.len(),
            src@.len() <= MAX_COUNTED,
            in_degree == occurrences(dst@.take(i as int), node),
            out_degree == occurrences(src@.take(i as int), node),
            in_degree <= i,
            out_degree <= i,
        decreases src@.len() - i,
    {
        proof {
            assert(src@.take(i + 1).drop_last() =~= src@.take(i as int));
            assert(dst@.take(i + 1).drop_last() =~= dst@.take(i as int));
        }
        if src[i] == node {
            out_degree += 1;
        }
        if dst[i] == node {
            in_degree += 1;
        }
        i += 1;
    }
    proof {
        assert(src@.take(src@.len() as int) =~= src@);
        assert(dst@.take(dst@.len() as int) =~= dst@);
        lemma_occurrences(src@, node);
        lemma_occurrences(dst@, node);
    }
    if in_degree == 0 && out_degree == 0 {
        return Err(OnagerError::NodeNotFound(node));
    }
    Ok(NodeDegreeResult { in_degree, out_degree })
}

/// Compute degree centrality as raw counts, for every node of the edge list.
/// In a directed graph the edges that enter and that leave a node are counted
/// apart; in an undirected graph both arrays hold the same count of edge ends.
///
/// Arrays of different lengths are refused; an empty edge list gives empty
/// arrays. An edge list too long for its degrees to be counted fails.
pub fn compute_degree(src: &[i64], dst: &[i64], directed: bool) -> (outcome: Result<
    DegreeResult,
    OnagerError,
>)
    ensures
        match verdict(Operation::Degree, src@.len(), dst@.len(), 0) {
            Verdict::Refused(text) => refused_with(outcome, text),
            _ => if src@.len() > MAX_COUNTED {
                engine_failure(outcome, too_long_text())
            } else {
                let ids = node_ids_of(src@, dst@);
                match outcome {
                    Ok(r) => r.node_ids@ == ids && r.in_degrees@.len() == ids.len()
                        && r.out_degrees@.len() == ids.len() && forall|p: int|
                        0 <= p < ids.len() ==> #[trigger] r.in_degrees@[p] == in_degree_of(
                            src@,
                            dst@,
                            directed,
                            ids[p],
                        ) && r.out_degrees@[p] == out_degree_of(src@, dst@, directed, ids[p]),
                    Err(_) => false,
                }
            },
        },
{
    check_lengths(Operation::Degree, src.len(), dst.len(), 0)?;
    if src.len() as u64 > MAX_COUNTED {
        return Err(
            OnagerError::GraphError(
                String::from_str("Edge list exceeds the capacity of the engine"),
            ),
        );
    }
    let table = NodeTable::from_edges(src, dst);
    let ghost ids = table@;
    let n = table.len();
    let mut ins: Vec<u64> = vec![0u64; n];
    let mut outs: Vec<u64> = vec![0u64; n];
    proof {
        lemma_first_occurrences(src@ + dst@);
        table.lemma_distinct();
        assert(src@.take(0) =~= Seq::<i64>::empty());
        assert(dst@.take(0) =~= Seq::<i64>::empty());
    }
    let mut i: usize = 0;
    while i < src.len()
        invariant
            i <= src@.len(),
            src@.len() == dst@.len(),
            src@.len() <= MAX_COUNTED,
            table.well_formed(),
            ids == table@,
            ids == node_ids_of(src@, dst@),
            crate::index::distinct(ids),
            forall|x: i64| ids.contains(x) <==> (src@ + dst@).contains(x),
            ins@.len() == ids.len(),
            outs@.len() == ids.len(),
            forall|p: int|
                0 <= p < ids.len() ==> #[trigger] ins@[p] == occurrences(
                    dst@.take(i as int),
                    ids[p],
                ) && ins@[p] <= i,
            forall|p: int|
                0 <= p < ids.len() ==> #[trigger] outs@[p] == occurrences(
                    src@.take(i as int),
                    ids[p],
                ) && outs@[p] <= i,
        decreases src@.len() - i,
    {
        proof {
            assert((src@ + dst@)[i as int] == src@[i as int]);
            assert((src@ + dst@)[src@.len() + i] == dst@[i as int]);
            assert((src@ + dst@).contains(src@[i as int]));
            assert((src@ + dst@).contains(dst@[i as int]));
            assert(src@.take(i + 1).drop_last() =~= src@.take(i as int));
            assert(dst@.take(i + 1).drop_last() =~= dst@.take(i as int));
        }
        let a = match table.position(src[i]) {
            Some(a) => a,
            None => { return Err(OnagerError::NodeNotFound(src[i])); },
        };
        let b = match table.position(dst[i]) {
            Some(b) => b,
            None => { return Err(OnagerError::NodeNotFound(dst[i])); },
        };
        let ghost ins_before = ins@;
        let ghost outs_before = outs@;
        let leaving = outs[a];
        outs.set(a, leaving + 1);
        let entering = ins[b];
        ins.set(b, entering + 1);
        proof {
            assert forall|p: int| 0 <= p < ids.len() implies #[trigger] outs@[p] == occurrences(
                src@.take(i + 1),
                ids[p],
            ) && outs@[p] <= i + 1 by {
                assert(outs_before[p] == occurrences(src@.take(i as int), ids[p]));
                if p != a {
                    if p < a {
                        assert(ids[p] != ids[a as int]);
                    } else {
                        assert(ids[a as int] != ids[p]);
                    }
                }
            }
            assert forall|p: int| 0 <= p < ids.len() implies #[trigger] ins@[p] == occurrences(
                dst@.take(i + 1),
                ids[p],
            ) && ins@[p] <= i + 1 by {
                assert(ins_before[p] == occurrences(dst@.take(i as int), ids[p]));
                if p != b {
                    if p < b {
                        assert(ids[p] != ids[b as int]);
                    } else {
                        assert(ids[b as int] != ids[p]);
                    }
                }
            }
        }
        i += 1;
    }
    proof {
        assert(src@.take(src@.len() as int) =~= src@);
        assert(dst@.take(dst@.len() as int) =~= dst@);
    }
    if directed {
        return Ok(DegreeResult { node_ids: table.ids().clone(), in_degrees: ins, out_degrees: outs });
    }
    let mut totals: Vec<u64> = Vec::new();
    let mut p: usize = 0;
    while p < n
        invariant
            p <= n,
            n == ids.len(),
            ins@.len() == n,
            outs@.len() == n,
            src@.len() <= MAX_COUNTED,
            forall|q: int| 0 <= q < n ==> #[trigger] ins@[q] <= src@.len(),
            forall|q: int| 0 <= q < n ==> #[trigger] outs@[q] <= src@.len(),
            totals@.len() == p,
            forall|q: int| 0 <= q < p ==> #[trigger] totals@[q] == ins@[q] + outs@[q],
        decreases n - p,
    {
        totals.push(ins[p] + outs[p]);
        p += 1;
    }
    let in_degrees = totals.clone();
    proof {
        assert(in_degrees@ =~= totals@);
    }
    Ok(DegreeResult { node_ids: table.ids().clone(), in_degrees, out_degrees: totals })
}

/// Compute closeness centrality of every node of the undirected graph, every
/// edge counting one: see [`closeness_of`].
///
/// Arrays of different lengths and an empty edge list are refused.
pub fn compute_closeness(src: &[i64], dst: &[i64]) -> (outcome: Result<ClosenessResult, OnagerError>)
    ensures
        match verdict(Operation::Closeness, src@.len(), dst@.len(), 0) {
            Verdict::Refused(text) => refused_with(outcome, text),
            _ => if src@.len() > MAX_EDGES {
                engine_failure(outcome, too_long_text())
            } else {
                let ids = node_ids_of(src@, dst@);
                let edges = edge_pairs_of(src@, dst@);
                match outcome {
                    Ok(r) => r.node_ids@ == ids && r.centralities@.len() == ids.len() && forall|
                        p: int,
                    |
                        0 <= p < ids.len() ==> (#[trigger] r.centralities@[p]).pair()
                            == closeness_of(hop_distances(ids, edges, p), p),
                    Err(_) => false,
                }
            },
        },
{
    check_lengths(Operation::Closeness, src.len(), dst.len(), 0)?;
    let g = EdgeGraph::build(src, dst)?;
    let ghost ids = g.table@;
    let ghost edges = edge_pairs_of(src@, dst@);
    let n = g.node_count();
    proof {
        lemma_first_occurrences(src@ + dst@);
    }
    let mut centralities: Vec<Fraction> = Vec::new();
    let mut p: usize = 0;
    while p < n
        invariant
            p <= n,
            n == ids.len(),
            n <= CAPACITY,
            g.well_formed(),
            ids == g.table@,
            edges == g.edges(),
            centralities@.len() == p,
            forall|q: int|
                0 <= q < p ==> (#[trigger] centralities@[q]).pair() == closeness_of(
                    hop_distances(ids, edges, q),
                    q,
                ),
        decreases n - p,
    {
        match engine_dijkstra(&g.store, p) {
            Ok(distances) => {
                centralities.push(closeness_from(&distances, p));
            },
            Err(e) => { return Err(engine_error(e)); },
        }
        p += 1;
    }
    Ok(ClosenessResult { node_ids: g.table.ids().clone(), centralities })
}

/// Compute Local Reaching Centrality: for every node the number of nodes that
/// are at most `distance` hops away from it, the node itself included.
///
/// Arrays of different lengths are refused; an empty edge list gives empty
/// arrays.
pub fn compute_local_reaching(src: &[i64], dst: &[i64], distance: usize) -> (outcome: Result<
    LocalReachingResult,
    OnagerError,
>)
    ensures
        match verdict(Operation::LocalReaching, src@.len(), dst@.len(), 0) {
            Verdict::Refused(text) => refused_with(outcome, text),
            Verdict::EmptyAnswer => outcome matches Ok(r) && r.node_ids@ == Seq::<i64>::empty()
                && r.centrality@ == Seq::<u64>::empty(),
            Verdict::Proceed => if src@.len() > MAX_EDGES {
                engine_failure(outcome, too_long_text())
            } else {
                let ids = node_ids_of(src@, dst@);
                let edges = edge_pairs_of(src@, dst@);
                match outcome {
                    Ok(r) => r.node_ids@ == ids && r.centrality@.len() == ids.len() && forall|
                        p: int,
                    |
                        0 <= p < ids.len() ==> #[trigger] r.centrality@[p] == within_hops(
                            edges,
                            p,
                            distance as nat,
                        ).len(),
                    Err(_) => false,
                }
            },
        },
{
    match check_lengths(Operation::LocalReaching, src.len(), dst.len(), 0)? {
        Admission::EmptyAnswer => {
            return Ok(LocalReachingResult { node_ids: Vec::new(), centrality: Vec::new() });
        },
        Admission::Proceed => {},
    }
    let g = EdgeGraph::build(src, dst)?;
    let ghost ids = g.table@;
    let ghost edges = edge_pairs_of(src@, dst@);
    let n = g.node_count();
    let mut centrality: Vec<u64> = Vec::new();
    let mut p: usize = 0;
    while p < n
        invariant
            p <= n,
            n == ids.len(),
            g.well_formed(),
            ids == g.table@,
            edges == g.edges(),
            centrality@.len() == p,
            forall|q: int|
                0 <= q < p ==> #[trigger] centrality@[q] == within_hops(
                    edges,
                    q,
                    distance as nat,
                ).len(),
        decreases n - p,
    {
        let found = engine_k_hop_neighbors(&g.store, p, distance);
        centrality.push(found.len() as u64);
        p += 1;
    }
    Ok(LocalReachingResult { node_ids: g.table.ids().clone(), centrality })
}

/// Compute Laplacian Centrality of every node of the undirected graph: the
/// drop in the energy of the graph Laplacian when the node is removed.
///
/// Arrays of different lengths are refused; an empty edge list gives empty
/// arrays.
pub fn compute_laplacian(src: &[i64], dst: &[i64]) -> (outcome: Result<LaplacianResult, OnagerError>)
    ensures
        match verdict(Operation::Laplacian, src@.len(), dst@.len(), 0) {
            Verdict::Refused(text) => refused_with(outcome, text),
            Verdict::EmptyAnswer => outcome matches Ok(r) && r.node_ids@ == Seq::<i64>::empty()
                && r.centrality@ == Seq::<u128>::empty(),
            Verdict::Proceed => if src@.len() > MAX_EDGES {
                engine_failure(outcome, too_long_text())
            } else {
                let ids = node_ids_of(src@, dst@);
                let edges = edge_pairs_of(src@, dst@);
                match outcome {
                    Ok(r) => r.node_ids@ == ids && r.centrality@.len() == ids.len() && forall|
                        p: int,
                    |
                        0 <= p < ids.len() ==> #[trigger] r.centrality@[p] == laplacian_of(
                            edges,
                            p,
                        ),
                    Err(_) => false,
                }
            },
        },
{
    match check_lengths(Operation::Laplacian, src.len(), dst.len(), 0)? {
        Admission::EmptyAnswer => {
            return Ok(LaplacianResult { node_ids: Vec::new(), centrality: Vec::new() });
        },
        Admission::Proceed => {},
    }
    let g = EdgeGraph::build(src, dst)?;
    let ghost ids = g.table@;
    let ghost edges = edge_pairs_of(src@, dst@);
    let n = g.node_count();
    proof {
        lemma_first_occurrences(src@ + dst@);
    }
    let mut degrees: Vec<u64> = Vec::new();
    let mut v: usize = 0;
    while v < n
        invariant
            v <= n,
            n == ids.len(),
            g.well_formed(),
            ids == g.table@,
            edges == g.edges(),
            edges.len() <= MAX_EDGES,
            degrees@.len() == v,
            forall|p: int| 0 <= p < v ==> #[trigger] degrees@[p] == incident_count(edges, p),
        decreases n - v,
    {
        proof {
            lemma_incident_bound(edges, v as int);
        }
        let d: u64 = match g.store.degree(v) {
            Some(d) => d as u64,
            None => 0,
        };
        degrees.push(d);
        v += 1;
    }
    let mut sums: Vec<u128> = vec![0u128; n];
    proof {
        assert(edges.take(0) =~= Seq::<(int, int)>::empty());
        assert forall|p: int| 0 <= p < n implies #[trigger] degrees@[p] <= MAX_EDGES by {
            lemma_incident_bound(edges, p);
        }
    }
    let mut i: usize = 0;
    while i < src.len()
        invariant
            i <= src@.len(),
            src@.len() == dst@.len(),
            src@.len() <= MAX_EDGES,
            n == ids.len(),
            g.well_formed(),
            ids == g.table@,
            ids == node_ids_of(src@, dst@),
            edges == edge_pairs_of(src@, dst@),
            forall|x: i64| ids.contains(x) <==> (src@ + dst@).contains(x),
            degrees@.len() == n,
            forall|p: int| 0 <= p < n ==> #[trigger] degrees@[p] == incident_count(edges, p),
            forall|p: int| 0 <= p < n ==> #[trigger] degrees@[p] <= MAX_EDGES,
            sums@.len() == n,
            forall|p: int|
                0 <= p < n ==> #[trigger] sums@[p] == neighbor_degree_sum(
                    edges,
                    edges.take(i as int),
                    p,
                ) && sums@[p] <= i * MAX_EDGES,
        decreases src@.len() - i,
    {
        proof {
            assert((src@ + dst@)[i as int] == src@[i as int]);
            assert((src@ + dst@)[src@.len() + i] == dst@[i as int]);
            assert((src@ + dst@).contains(src@[i as int]));
            assert((src@ + dst@).contains(dst@[i as int]));
            assert(edges.take(i + 1).drop_last() =~= edges.take(i as int));
            assert(edges.take(i + 1).last() == edges[i as int]);
            assert(i * MAX_EDGES + MAX_EDGES == (i + 1) * MAX_EDGES) by (nonlinear_arith);
            assert(i * MAX_EDGES <= MAX_EDGES * MAX_EDGES) by (nonlinear_arith)
                requires
                    i <= MAX_EDGES,
            ;
        }
        let a = match g.position(src[i]) {
            Some(a) => a,
            None => { return Err(OnagerError::NodeNotFound(src[i])); },
        };
        let b = match g.position(dst[i]) {
            Some(b) => b,
            None => { return Err(OnagerError::NodeNotFound(dst[i])); },
        };
        let ghost before = sums@;
        let at_a: u128 = sums[a];
        sums.set(a, at_a + degrees[b] as u128);
        if a != b {
            let at_b: u128 = sums[b];
            sums.set(b, at_b + degrees[a] as u128);
        }
        proof {
            assert forall|p: int| 0 <= p < n implies #[trigger] sums@[p] == neighbor_degree_sum(
                edges,
                edges.take(i + 1),
                p,
            ) && sums@[p] <= (i + 1) * MAX_EDGES by {
                assert(before[p] == neighbor_degree_sum(edges, edges.take(i as int), p));
                assert(degrees@[a as int] == incident_count(edges, a as int));
                assert(degrees@[b as int] == incident_count(edges, b as int));
            }
        }
        i += 1;
    }
    proof {
        assert(edges.take(src@.len() as int) =~= edges);
        assert(src@.len() * MAX_EDGES <= MAX_EDGES * MAX_EDGES) by (nonlinear_arith)
            requires
                src@.len() <= MAX_EDGES,
        ;
    }
    let mut centrality: Vec<u128> = Vec::new();
    let mut p: usize = 0;
    while p < n
        invariant
            p <= n,
            degrees@.len() == n,
            sums@.len() == n,
            forall|q: int| 0 <= q < n ==> #[trigger] degrees@[q] == incident_count(edges, q),
            forall|q: int| 0 <= q < n ==> #[trigger] degrees@[q] <= MAX_EDGES,
            forall|q: int|
                0 <= q < n ==> #[trigger] sums@[q] == neighbor_degree_sum(edges, edges, q)
                    && sums@[q] <= MAX_EDGES * MAX_EDGES,
            centrality@.len() == p,
            forall|q: int| 0 <= q < p ==> #[trigger] centrality@[q] == laplacian_of(edges, q),
        decreases n - p,
    {
        let d: u128 = degrees[p] as u128;
        proof {
            assert(d * d <= MAX_EDGES * MAX_EDGES) by (nonlinear_arith)
                requires
                    d <= MAX_EDGES,
            ;
        }
        centrality.push(d * d + d + 2 * sums[p]);
        p += 1;
    }
    Ok(LaplacianResult { node_ids: g.table.ids().clone(), centrality })
}

/// Compute VoteRank to find influential spreaders: at most `num_seeds` nodes,
/// in the order of their election.
///
/// Arrays of different lengths are refused; an empty edge list elects nobody.
pub fn compute_voterank(src: &[i64], dst: &[i64], num_seeds: usize) -> (outcome: Result<
    VoteRankResult,
    OnagerError,
>)
    ensures
        match verdict(Operation::VoteRank, src@.len(), dst@.len(), 0) {
            Verdict::Refused(text) => refused_with(outcome, text),
            Verdict::EmptyAnswer => outcome matches Ok(r) && r.node_ids@ == Seq::<i64>::empty(),
            Verdict::Proceed => if src@.len() > MAX_EDGES {
                engine_failure(outcome, too_long_text())
            } else {
                let ids = node_ids_of(src@, dst@);
                let seeds = voterank_seeds(ids, edge_pairs_of(src@, dst@), num_seeds as nat);
                match outcome {
                    Ok(r) => r.node_ids@ == translated(ids, seeds) && r.node_ids@.len()
                        == seeds.len() && seeds.len() <= num_seeds && seeds.no_duplicates(),
                    Err(_) => false,
                }
            },
        },
{
    match check_lengths(Operation::VoteRank, src.len(), dst.len(), 0)? {
        Admission::EmptyAnswer => { return Ok(VoteRankResult { node_ids: Vec::new() }); },
        Admission::Proceed => {},
    }
    let g = EdgeGraph::build(src, dst)?;
    let seeds = engine_voterank(&g.store, num_seeds);
    proof {
        crate::edges::lemma_translated_total(g.table@, seeds@);
    }
    Ok(VoteRankResult { node_ids: external_ids(g.table.ids(), &seeds) })
}

} // verus!
