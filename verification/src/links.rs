//! Link prediction: a score for every pair of distinct nodes.
//!
//! Every unordered pair of nodes is scored once. It is listed with the node of
//! the smaller index first, the pairs in the order of the first node and then
//! of the second. A score is an exact fraction and does not depend on the
//! order in which the two nodes are named.

use vstd::prelude::*;
use vstd::set_lib::*;
use crate::admission::Operation;
use crate::admission::Verdict;
use crate::admission::check_lengths;
use crate::admission::refused_with;
use crate::admission::verdict;
use crate::centrality::lemma_incident_bound;
use crate::edges::EdgeGraph;
use crate::edges::MAX_EDGES;
use crate::edges::too_long_text;
use crate::engine::UndirectedStore;
use crate::engine::incident_count;
use crate::engine::undirected_edges;
use crate::engine::undirected_nodes;
use crate::engine::within;
use crate::error::OnagerError;
use crate::graph::engine_failure;
use crate::index::edge_pairs_of;
use crate::index::lemma_edge_pairs_in_range;
use crate::index::lemma_first_occurrences;
use crate::index::node_ids_of;
use crate::subgraphs::adjacent;

verus! {

/// The nodes that an edge joins to `u`; `u` itself where it has a self-loop.
pub open spec fn neighbor_set(edges: Seq<(int, int)>, u: int) -> Set<int> {
    Set::new(|v: int| adjacent(edges, u, v))
}

/// The nodes that are neighbours of both `u` and `v`.
pub open spec fn common_neighbors(edges: Seq<(int, int)>, u: int, v: int) -> Set<int> {
    neighbor_set(edges, u).intersect(neighbor_set(edges, v))
}

/// The Jaccard coefficient of `u` and `v` as a fraction: the common
/// neighbours over all neighbours of the two; zero over one where neither has
/// a neighbour.
pub open spec fn jaccard_of(edges: Seq<(int, int)>, u: int, v: int) -> (nat, nat) {
    let all = (neighbor_set(edges, u) + neighbor_set(edges, v)).len();
    if all > 0 {
        (common_neighbors(edges, u, v).len(), all)
    } else {
        (0, 1)
    }
}

/// The preferential attachment score of `u` and `v`: the product of their
/// degrees, over one.
pub open spec fn attachment_of(edges: Seq<(int, int)>, u: int, v: int) -> (nat, nat) {
    (incident_count(edges, u) * incident_count(edges, v), 1)
}

/// The pairs whose first node is `i`, in the order of their second node.
pub open spec fn pairs_from(i: int, n: int) -> Seq<(int, int)> {
    Seq::new((n - i - 1) as nat, |k: int| (i, i + 1 + k))
}

/// The pairs whose first node is below `rows`.
pub open spec fn pairs_below(rows: nat, n: int) -> Seq<(int, int)>
    decreases rows,
{
    if rows == 0 {
        Seq::empty()
    } else {
        pairs_below((rows - 1) as nat, n) + pairs_from(rows - 1, n)
    }
}

/// All pairs `(i, j)` with `0 <= i < j < n`, by `i` and then by `j`.
pub open spec fn all_pairs(n: nat) -> Seq<(int, int)> {
    pairs_below(n, n as int)
}

/// Every listed pair names two different nodes below `n`, the one of the
/// smaller index first.
pub proof fn law_pair_order(rows: nat, n: int)
    requires
        rows <= n,
    ensures
        forall|k: int|
            0 <= k < pairs_below(rows, n).len() ==> 0 <= (#[trigger] pairs_below(rows, n)[k]).0
                < pairs_below(rows, n)[k].1 < n,
    decreases rows,
{
    if rows > 0 {
        law_pair_order((rows - 1) as nat, n);
        let front = pairs_below((rows - 1) as nat, n);
        assert forall|k: int| 0 <= k < pairs_below(rows, n).len() implies 0 <= (
        #[trigger] pairs_below(rows, n)[k]).0 < pairs_below(rows, n)[k].1 < n by {
            if k < front.len() {
                assert(pairs_below(rows, n)[k] == front[k]);
            } else {
                assert(pairs_below(rows, n)[k] == pairs_from(rows - 1, n)[k - front.len()]);
            }
        }
    }
}

/// The neighbours of a node are among the nodes of the graph, so they are
/// finitely many, and no more than the nodes.
pub proof fn lemma_neighbors_finite(edges: Seq<(int, int)>, n: nat, u: int)
    requires
        within(edges, n),
    ensures
        neighbor_set(edges, u).finite(),
        neighbor_set(edges, u).len() <= n,
{
    let range = set_int_range(0, n as int);
    lemma_int_range(0, n as int);
    assert forall|v: int| neighbor_set(edges, u).contains(v) implies range.contains(v) by {
        let i = choose|i: int|
            0 <= i < edges.len() && (#[trigger] edges[i] == (u, v) || edges[i] == (v, u));
        assert(0 <= edges[i].0 < n && 0 <= edges[i].1 < n);
    }
    lemma_len_subset(neighbor_set(edges, u), range);
}

/// A Jaccard coefficient lies between zero and one: its numerator does not
/// exceed its denominator, and the denominator is positive.
pub proof fn law_jaccard_bounded(edges: Seq<(int, int)>, n: nat, u: int, v: int)
    requires
        within(edges, n),
    ensures
        0 <= jaccard_of(edges, u, v).0 <= jaccard_of(edges, u, v).1,
        jaccard_of(edges, u, v).1 > 0,
        jaccard_of(edges, u, v).1 <= 2 * n + 1,
{
    let a = neighbor_set(edges, u);
    let b = neighbor_set(edges, v);
    lemma_neighbors_finite(edges, n, u);
    lemma_neighbors_finite(edges, n, v);
    lemma_set_intersect_union_lens(a, b);
    lemma_len_intersect(a, b);
    lemma_len_intersect(b, a);
    assert(b.intersect(a) =~= a.intersect(b));
}

/// The Jaccard coefficient of two nodes does not depend on their order.
pub proof fn law_jaccard_symmetric(edges: Seq<(int, int)>, u: int, v: int)
    ensures
        jaccard_of(edges, u, v) == jaccard_of(edges, v, u),
{
    let a = neighbor_set(edges, u);
    let b = neighbor_set(edges, v);
    assert(a + b =~= b + a);
    assert(a.intersect(b) =~= b.intersect(a));
}

/// The preferential attachment score of two nodes does not depend on their
/// order, and it is not negative.
pub proof fn law_attachment_symmetric(edges: Seq<(int, int)>, u: int, v: int)
    ensures
        attachment_of(edges, u, v) == attachment_of(edges, v, u),
        attachment_of(edges, u, v).0 >= 0,
{
    assert(incident_count(edges, u) * incident_count(edges, v) == incident_count(edges, v)
        * incident_count(edges, u)) by (nonlinear_arith);
}

/// Calls `graphina::links::similarity::common_neighbors`, which collects the
/// neighbours of each of the two nodes into a set and counts the nodes that
/// are in both.
#[verifier::external_body]
pub(crate) fn engine_common_neighbors(g: &UndirectedStore, u: usize, v: usize) -> (count: usize)
    requires
        u < undirected_nodes(*g).len(),
        v < undirected_nodes(*g).len(),
    ensures
        count == common_neighbors(undirected_edges(*g), u as int, v as int).len(),
{
    graphina::links::similarity::common_neighbors(&g.inner, g.handles[u], g.handles[v])
}

/// Result of a link prediction: one score per pair of nodes.
pub struct LinkPredictionResult {
    /// The first node of each pair.
    pub node1: Vec<i64>,
    /// The second node of each pair.
    pub node2: Vec<i64>,
    /// The numerator of the score of each pair.
    pub numerators: Vec<u64>,
    /// The denominator of the score of each pair; never zero.
    pub denominators: Vec<u64>,
}

impl LinkPredictionResult {
    /// Whether the result lists exactly the pairs `pairs` of the nodes `ids`,
    /// each with the score that `score` gives it.
    pub open spec fn lists(
        self,
        ids: Seq<i64>,
        pairs: Seq<(int, int)>,
        score: spec_fn(int, int) -> (nat, nat),
    ) -> bool {
        &&& self.node1@.len() == pairs.len()
        &&& self.node2@.len() == pairs.len()
        &&& self.numerators@.len() == pairs.len()
        &&& self.denominators@.len() == pairs.len()
        &&& forall|k: int|
            0 <= k < pairs.len() ==> {
                let (u, v) = #[trigger] pairs[k];
                &&& self.node1@[k] == ids[u]
                &&& self.node2@[k] == ids[v]
                &&& (self.numerators@[k] as nat, self.denominators@[k] as nat) == score(u, v)
            }
    }
}

/// Compute the Jaccard coefficient for all node pairs, each as the fraction
/// of the common neighbours among all neighbours of the two nodes.
///
/// Arrays of different lengths and an empty edge list are refused.
pub fn compute_jaccard(src: &[i64], dst: &[i64]) -> (outcome: Result<
    LinkPredictionResult,
    OnagerError,
>)
    ensures
        match verdict(Operation::Jaccard, src@.len(), dst@.len(), 0) {
            Verdict::Refused(text) => refused_with(outcome, text),
            _ => if src@.len() > MAX_EDGES {
                engine_failure(outcome, too_long_text())
            } else {
                let ids = node_ids_of(src@, dst@);
                let edges = edge_pairs_of(src@, dst@);
                match outcome {
                    Ok(r) => r.lists(ids, all_pairs(ids.len()), |u: int, v: int| jaccard_of(edges, u, v)),
                    Err(_) => false,
                }
            },
        },
{
    check_lengths(Operation::Jaccard, src.len(), dst.len(), 0)?;
    let g = EdgeGraph::build(src, dst)?;
    let ghost ids = g.table@;
    let ghost edges = edge_pairs_of(src@, dst@);
    let ghost score = |u: int, v: int| jaccard_of(edges, u, v);
    let n = g.node_count();
    proof {
        lemma_first_occurrences(src@ + dst@);
        lemma_edge_pairs_in_range(src@, dst@);
        assert(within(edges, n as nat));
    }
    let mut sizes: Vec<usize> = Vec::new();
    let mut v: usize = 0;
    while v < n
        invariant
            v <= n,
            n == ids.len(),
            g.well_formed(),
            ids == g.table@,
            edges == g.edges(),
            sizes@.len() == v,
            forall|p: int| 0 <= p < v ==> #[trigger] sizes@[p] == neighbor_set(edges, p).len(),
        decreases n - v,
    {
        let size = engine_common_neighbors(&g.store, v, v);
        proof {
            assert(common_neighbors(edges, v as int, v as int) =~= neighbor_set(edges, v as int));
        }
        sizes.push(size);
        v += 1;
    }
    let mut r = LinkPredictionResult {
        node1: Vec::new(),
        node2: Vec::new(),
        numerators: Vec::new(),
        denominators: Vec::new(),
    };
    let mut i: usize = 0;
    while i < n
        invariant
            i <= n,
            n == ids.len(),
            n <= 2 * MAX_EDGES,
            g.well_formed(),
            ids == g.table@,
            edges == g.edges(),
            within(edges, n as nat),
            score == |u: int, v: int| jaccard_of(edges, u, v),
            sizes@.len() == n,
            forall|p: int| 0 <= p < n ==> #[trigger] sizes@[p] == neighbor_set(edges, p).len(),
            r.lists(ids, pairs_below(i as nat, n as int), score),
        decreases n - i,
    {
        let ghost base = pairs_below(i as nat, n as int);
        let mut j: usize = i + 1;
        proof {
            assert(base + pairs_from(i as int, n as int).take(0) =~= base);
        }
        while j < n
            invariant
                i < j <= n,
                n == ids.len(),
                n <= 2 * MAX_EDGES,
                g.well_formed(),
                ids == g.table@,
                edges == g.edges(),
                within(edges, n as nat),
                score == |u: int, v: int| jaccard_of(edges, u, v),
                sizes@.len() == n,
                forall|p: int| 0 <= p < n ==> #[trigger] sizes@[p] == neighbor_set(edges, p).len(),
                base == pairs_below(i as nat, n as int),
                r.lists(ids, base + pairs_from(i as int, n as int).take(j - i - 1), score),
            decreases n - j,
        {
            let ghost done = base + pairs_from(i as int, n as int).take(j - i - 1);
            let common = engine_common_neighbors(&g.store, i, j);
            proof {
                law_jaccard_bounded(edges, n as nat, i as int, j as int);
                lemma_neighbors_finite(edges, n as nat, i as int);
                lemma_neighbors_finite(edges, n as nat, j as int);
                lemma_set_intersect_union_lens(
                    neighbor_set(edges, i as int),
                    neighbor_set(edges, j as int),
                );
                lemma_len_intersect(neighbor_set(edges, i as int), neighbor_set(edges, j as int));
            }
            let all: u64 = sizes[i] as u64 + sizes[j] as u64 - common as u64;
            r.node1.push(g.table.id_at(i));
            r.node2.push(g.table.id_at(j));
            if all > 0 {
                r.numerators.push(common as u64);
                r.denominators.push(all);
            } else {
                r.numerators.push(0);
                r.denominators.push(1);
            }
            proof {
                let next = base + pairs_from(i as int, n as int).take(j - i);
                assert(next =~= done.push((i as int, j as int)));
                assert forall|k: int| 0 <= k < next.len() implies {
                    let (u, v) = #[trigger] next[k];
                    &&& r.node1@[k] == ids[u]
                    &&& r.node2@[k] == ids[v]
                    &&& (r.numerators@[k] as nat, r.denominators@[k] as nat) == score(u, v)
                } by {
                    if k < done.len() {
                        assert(next[k] == done[k]);
                    }
                }
            }
            j += 1;
        }
        proof {
            assert(pairs_from(i as int, n as int).take(n - i - 1) =~= pairs_from(
                i as int,
                n as int,
            ));
        }
        i += 1;
    }
    Ok(r)
}

/// Compute the preferential attachment score for all node pairs: the product
/// of the degrees of the two nodes, over one.
///
/// Arrays of different lengths and an empty edge list are refused.
pub fn compute_preferential_attachment(src: &[i64], dst: &[i64]) -> (outcome: Result<
    LinkPredictionResult,
    OnagerError,
>)
    ensures
        match verdict(Operation::PreferentialAttachment, src@.len(), dst@.len(), 0) {
            Verdict::Refused(text) => refused_with(outcome, text),
            _ => if src@.len() > MAX_EDGES {
                engine_failure(outcome, too_long_text())
            } else {
                let ids = node_ids_of(src@, dst@);
                let edges = edge_pairs_of(src@, dst@);
                match outcome {
                    Ok(r) => r.lists(
                        ids,
                        all_pairs(ids.len()),
                        |u: int, v: int| attachment_of(edges, u, v),
                    ),
                    Err(_) => false,
                }
            },
        },
{
    check_lengths(Operation::PreferentialAttachment, src.len(), dst.len(), 0)?;
    let g = EdgeGraph::build(src, dst)?;
    let ghost ids = g.table@;
    let ghost edges = edge_pairs_of(src@, dst@);
    let ghost score = |u: int, v: int| attachment_of(edges, u, v);
    let n = g.node_count();
    proof {
        lemma_first_occurrences(src@ + dst@);
    }
    let mut degrees: Vec<u64> = Vec::new();
    let mut v: usize = 0;
    while v < n
        invariant
            v <= n,
            n == ids.len(),
            g.well_formed(),
            ids == g.table@,
            edges == g.edges(),
            edges.len() <= MAX_EDGES,
            degrees@.len() == v,
            forall|p: int|
                0 <= p < v ==> #[trigger] degrees@[p] == incident_count(edges, p) && degrees@[p]
                    <= MAX_EDGES,
        decreases n - v,
    {
        proof {
            lemma_incident_bound(edges, v as int);
        }
        let d: u64 = match g.store.degree(v) {
            Some(d) => d as u64,
            None => 0,
        };
        degrees.push(d);
        v += 1;
    }
    let mut r = LinkPredictionResult {
        node1: Vec::new(),
        node2: Vec::new(),
        numerators: Vec::new(),
        denominators: Vec::new(),
    };
    let mut i: usize = 0;
    while i < n
        invariant
            i <= n,
            n == ids.len(),
            ids == g.table@,
            score == |u: int, v: int| attachment_of(edges, u, v),
            degrees@.len() == n,
            forall|p: int|
                0 <= p < n ==> #[trigger] degrees@[p] == incident_count(edges, p) && degrees@[p]
                    <= MAX_EDGES,
            r.lists(ids, pairs_below(i as nat, n as int), score),
        decreases n - i,
    {
        let ghost base = pairs_below(i as nat, n as int);
        let mut j: usize = i + 1;
        proof {
            assert(base + pairs_from(i as int, n as int).take(0) =~= base);
        }
        while j < n
            invariant
                i < j <= n,
                n == ids.len(),
                ids == g.table@,
                score == |u: int, v: int| attachment_of(edges, u, v),
                degrees@.len() == n,
                forall|p: int|
                    0 <= p < n ==> #[trigger] degrees@[p] == incident_count(edges, p)
                        && degrees@[p] <= MAX_EDGES,
                base == pairs_below(i as nat, n as int),
                r.lists(ids, base + pairs_from(i as int, n as int).take(j - i - 1), score),
            decreases n - j,
        {
            let ghost done = base + pairs_from(i as int, n as int).take(j - i - 1);
            let a: u64 = degrees[i];
            let b: u64 = degrees[j];
            proof {
                assert(a * b <= MAX_EDGES * MAX_EDGES) by (nonlinear_arith)
                    requires
                        a <= MAX_EDGES,
                        b <= MAX_EDGES,
                ;
            }
            r.node1.push(g.table.id_at(i));
            r.node2.push(g.table.id_at(j));
            r.numerators.push(a * b);
            r.denominators.push(1);
            proof {
                let next = base + pairs_from(i as int, n as int).take(j - i);
                assert(next =~= done.push((i as int, j as int)));
                assert forall|k: int| 0 <= k < next.len() implies {
                    let (u, v) = #[trigger] next[k];
                    &&& r.node1@[k] == ids[u]
                    &&& r.node2@[k] == ids[v]
                    &&& (r.numerators@[k] as nat, r.denominators@[k] as nat) == score(u, v)
                } by {
                    if k < done.len() {
                        assert(next[k] == done[k]);
                    }
                }
            }
            j += 1;
        }
        proof {
            assert(pairs_from(i as int, n as int).take(n - i - 1) =~= pairs_from(
                i as int,
                n as int,
            ));
        }
        i += 1;
    }
    Ok(r)
}

} // verus!
