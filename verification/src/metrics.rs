//! Measurements of a whole graph.
//!
//! Distances are counted in hops on the undirected graph of the edge list.
//! Ratios are answered as exact fractions.

use vstd::prelude::*;
use crate::admission::Operation;
use crate::admission::Verdict;
use crate::admission::check_lengths;
use crate::admission::refused_with;
use crate::admission::verdict;
use crate::assembly::lemma_listed_total;
use crate::assembly::list_values;
use crate::assembly::listed_ids;
use crate::assembly::listed_values;
use crate::centrality::distance_total;
use crate::centrality::lemma_incident_bound;
use crate::centrality::reached;
use crate::edges::EdgeGraph;
use crate::edges::MAX_EDGES;
use crate::edges::too_long_text;
use crate::engine::CAPACITY;
use crate::engine::UndirectedStore;
use crate::engine::engine_error;
use crate::engine::incident_count;
use crate::engine::undirected_edges;
use crate::engine::undirected_nodes;
use crate::error::OnagerError;
use crate::fraction::Fraction;
use crate::graph::engine_failure;
use crate::index::NodeTable;
use crate::index::edge_pairs_of;
use crate::index::node_ids_of;
use crate::traversal::engine_dijkstra;
use crate::traversal::hop_distance;
use crate::traversal::hop_distances;

verus! {

/// Whether every node is reached from every node.
pub open spec fn connected(edges: Seq<(int, int)>, n: nat) -> bool {
    forall|u: int, v: int|
        0 <= u < n && 0 <= v < n ==> (#[trigger] hop_distance(edges, u, v)) is Some
}

/// Whether `e` is the eccentricity of node `u`: the hop distance to a node
/// that is farthest from it.
pub open spec fn is_eccentricity(edges: Seq<(int, int)>, n: nat, u: int, e: nat) -> bool {
    &&& exists|v: int| 0 <= v < n && #[trigger] hop_distance(edges, u, v) == Some(e)
    &&& forall|v: int|
        0 <= v < n && (#[trigger] hop_distance(edges, u, v)) is Some ==> hop_distance(
            edges,
            u,
            v,
        )->Some_0 <= e
}

/// Whether `d` is the diameter of the graph: the largest eccentricity of a
/// node, which is the largest hop distance between two nodes.
pub open spec fn is_diameter(edges: Seq<(int, int)>, n: nat, d: nat) -> bool {
    &&& exists|u: int| 0 <= u < n && #[trigger] is_eccentricity(edges, n, u, d)
    &&& forall|u: int, e: nat| 0 <= u < n && #[trigger] is_eccentricity(edges, n, u, e) ==> e <= d
}

/// Whether `r` is the radius of the graph: the smallest eccentricity of a
/// node.
pub open spec fn is_radius(edges: Seq<(int, int)>, n: nat, r: nat) -> bool {
    &&& exists|u: int| 0 <= u < n && #[trigger] is_eccentricity(edges, n, u, r)
    &&& forall|u: int, e: nat| 0 <= u < n && #[trigger] is_eccentricity(edges, n, u, e) ==> r <= e
}

/// For every node index the number of triangles through the node as the
/// engine counts them.
pub uninterp spec fn triangle_counts(nodes: Seq<i64>, edges: Seq<(int, int)>) -> Seq<Option<usize>>;

/// Calls `graphina::metrics::diameter`, which searches breadth first from
/// every node and follows every edge from either end. Where some search
/// misses a node there is no answer; otherwise the answer is the largest
/// distance that any search found, which is smaller than the number of nodes.
#[verifier::external_body]
pub(crate) fn engine_diameter(g: &UndirectedStore) -> (d: Option<usize>)
    requires
        undirected_nodes(*g).len() > 0,
    ensures
        match d {
            Some(x) => connected(undirected_edges(*g), undirected_nodes(*g).len()) && is_diameter(
                undirected_edges(*g),
                undirected_nodes(*g).len(),
                x as nat,
            ) && x < undirected_nodes(*g).len(),
            None => !connected(undirected_edges(*g), undirected_nodes(*g).len()),
        },
{
    graphina::metrics::diameter(&g.inner)
}

/// Calls `graphina::metrics::radius`, which searches breadth first from every
/// node and follows every edge from either end. Where some search misses a
/// node there is no answer; otherwise the answer is the smallest, over the
/// searches, of the largest distance that the search found, which is smaller
/// than the number of nodes.
#[verifier::external_body]
pub(crate) fn engine_radius(g: &UndirectedStore) -> (r: Option<usize>)
    requires
        undirected_nodes(*g).len() > 0,
    ensures
        match r {
            Some(x) => connected(undirected_edges(*g), undirected_nodes(*g).len()) && is_radius(
                undirected_edges(*g),
                undirected_nodes(*g).len(),
                x as nat,
            ) && x < undirected_nodes(*g).len(),
            None => !connected(undirected_edges(*g), undirected_nodes(*g).len()),
        },
{
    graphina::metrics::radius(&g.inner)
}

/// Calls `graphina::parallel::triangles_parallel` and lists its answer by
/// node index. The counts are a function of the graph and get their name;
/// the engine counts at every node, so there is one entry per node and none
/// is missing.
#[verifier::external_body]
pub(crate) fn engine_triangles(g: &UndirectedStore) -> (counts: Vec<Option<usize>>)
    ensures
        counts@ == triangle_counts(undirected_nodes(*g), undirected_edges(*g)),
        counts@.len() == undirected_nodes(*g).len(),
        forall|i: int| 0 <= i < counts@.len() ==> (#[trigger] counts@[i]) is Some,
{
    let found = graphina::parallel::triangles_parallel(&g.inner);
    g.handles.iter().map(|node| found.get(node).copied()).collect()
}

/// Result of triangle counting.
pub struct TriangleResult {
    /// The nodes that have a count, by node index.
    pub node_ids: Vec<i64>,
    /// For each listed node the number of triangles through it.
    pub triangle_counts: Vec<i64>,
}

/// Whether `value` answers for the diameter: the diameter of a connected
/// graph, minus one for a graph that is not connected.
pub open spec fn diameter_answer(edges: Seq<(int, int)>, n: nat, value: i64) -> bool {
    if connected(edges, n) {
        value >= 0 && is_diameter(edges, n, value as nat)
    } else {
        value == -1
    }
}

/// Whether `value` answers for the radius: the radius of a connected graph,
/// minus one for a graph that is not connected.
pub open spec fn radius_answer(edges: Seq<(int, int)>, n: nat, value: i64) -> bool {
    if connected(edges, n) {
        value >= 0 && is_radius(edges, n, value as nat)
    } else {
        value == -1
    }
}

/// The number that the engine's optional measure is answered with: the
/// measure itself, or minus one where there is none.
pub open spec fn measure_or_minus_one(m: Option<usize>) -> i64 {
    match m {
        Some(d) => d as i64,
        None => -1i64,
    }
}

/// The density of a graph of `n` nodes and `m` edges: `m / (n (n - 1))` when
/// directed, `2 m / (n (n - 1))` when not, and zero for fewer than two nodes.
pub open spec fn density_of(n: nat, m: nat, directed: bool) -> (nat, nat) {
    if n < 2 {
        (0, 1)
    } else if directed {
        (m, (n * (n - 1)) as nat)
    } else {
        (2 * m, (n * (n - 1)) as nat)
    }
}

/// The number of unordered pairs among `k` things.
pub open spec fn choose_two(k: nat) -> nat {
    if k < 2 {
        0
    } else {
        ((k * (k - 1)) / 2) as nat
    }
}

/// The triangle count that enters a clustering measure: the count at a node
/// of degree two or more, nothing at a node of smaller degree or without a
/// count.
pub open spec fn closed_pairs(count: Option<usize>, degree: nat) -> nat {
    if degree >= 2 && count is Some {
        count->Some_0 as nat
    } else {
        0
    }
}

/// The clustering coefficient of a node: of the pairs of its neighbours, the
/// share that is joined by an edge. It is zero for a node of degree below two.
pub open spec fn clustering_of(count: Option<usize>, degree: nat) -> (nat, nat) {
    if degree < 2 {
        (0, 1)
    } else {
        (closed_pairs(count, degree), choose_two(degree))
    }
}

/// The closed pairs of neighbours at the first `upto` nodes, added up.
pub open spec fn closed_total(counts: Seq<Option<usize>>, edges: Seq<(int, int)>, upto: nat) -> nat
    decreases upto,
{
    if upto == 0 {
        0
    } else {
        closed_total(counts, edges, (upto - 1) as nat) + closed_pairs(
            counts[upto - 1],
            incident_count(edges, upto - 1),
        )
    }
}

/// The pairs of neighbours at the first `upto` nodes, added up.
pub open spec fn triple_total(edges: Seq<(int, int)>, upto: nat) -> nat
    decreases upto,
{
    if upto == 0 {
        0
    } else {
        triple_total(edges, (upto - 1) as nat) + choose_two(incident_count(edges, upto - 1))
    }
}

/// The transitivity of a graph: of all pairs of neighbours of a common node,
/// the share that is joined by an edge; zero where no node has two neighbours.
pub open spec fn transitivity_of(counts: Seq<Option<usize>>, edges: Seq<(int, int)>, n: nat) -> (
    nat,
    nat,
) {
    if triple_total(edges, n) == 0 {
        (0, 1)
    } else {
        (closed_total(counts, edges, n), triple_total(edges, n))
    }
}

/// The number of unordered pairs among `k` things.
pub fn pairs_among(k: u64) -> (pairs: u128)
    ensures
        pairs == choose_two(k as nat),
        k <= MAX_EDGES ==> pairs <= MAX_EDGES * MAX_EDGES,
{
    if k < 2 {
        return 0;
    }
    let wide: u128 = k as u128;
    proof {
        assert(wide * (wide - 1) <= 0xffff_ffff_ffff_ffff * 0xffff_ffff_ffff_ffff)
            by (nonlinear_arith)
            requires
                2 <= wide <= 0xffff_ffff_ffff_ffff,
        ;
        if k <= MAX_EDGES {
            assert(wide * (wide - 1) <= MAX_EDGES * MAX_EDGES) by (nonlinear_arith)
                requires
                    2 <= wide <= MAX_EDGES,
            ;
        }
    }
    wide * (wide - 1) / 2
}

/// Compute transitivity (the global clustering coefficient) as a fraction:
/// see [`transitivity_of`], over the triangle counts of the engine.
///
/// Arrays of different lengths and an empty edge list are refused.
pub fn compute_transitivity(src: &[i64], dst: &[i64]) -> (outcome: Result<Fraction, OnagerError>)
    ensures
        match verdict(Operation::Transitivity, src@.len(), dst@.len(), 0) {
            Verdict::Refused(text) => refused_with(outcome, text),
            _ => if src@.len() > MAX_EDGES {
                engine_failure(outcome, too_long_text())
            } else {
                let ids = node_ids_of(src@, dst@);
                let edges = edge_pairs_of(src@, dst@);
                match outcome {
                    Ok(f) => f.pair() == transitivity_of(
                        triangle_counts(ids, edges),
                        edges,
                        ids.len(),
                    ),
                    Err(_) => false,
                }
            },
        },
{
    check_lengths(Operation::Transitivity, src.len(), dst.len(), 0)?;
    let g = EdgeGraph::build(src, dst)?;
    let ghost ids = g.table@;
    let ghost edges = edge_pairs_of(src@, dst@);
    let n = g.node_count();
    proof {
        crate::index::lemma_first_occurrences(src@ + dst@);
    }
    let counts = engine_triangles(&g.store);
    let mut closed: u128 = 0;
    let mut triples: u128 = 0;
    let mut v: usize = 0;
    while v < n
        invariant
            v <= n,
            n == ids.len(),
            n <= CAPACITY,
            g.well_formed(),
            ids == g.table@,
            edges == g.edges(),
            edges.len() <= MAX_EDGES,
            counts@.len() == n,
            closed == closed_total(counts@, edges, v as nat),
            triples == triple_total(edges, v as nat),
            closed <= v * usize::MAX,
            triples <= v * (MAX_EDGES * MAX_EDGES),
        decreases n - v,
    {
        proof {
            lemma_incident_bound(edges, v as int);
            assert(v * usize::MAX + usize::MAX == (v + 1) * usize::MAX) by (nonlinear_arith);
            assert(v * usize::MAX <= CAPACITY * usize::MAX) by (nonlinear_arith)
                requires
                    v <= CAPACITY,
            ;
            assert(CAPACITY * usize::MAX <= CAPACITY * 0xffff_ffff_ffff_ffff) by (nonlinear_arith)
                requires
                    usize::MAX <= 0xffff_ffff_ffff_ffff,
            ;
            assert(v * (MAX_EDGES * MAX_EDGES) + MAX_EDGES * MAX_EDGES == (v + 1) * (MAX_EDGES
                * MAX_EDGES)) by (nonlinear_arith);
            assert(v * (MAX_EDGES * MAX_EDGES) <= CAPACITY * (MAX_EDGES * MAX_EDGES))
                by (nonlinear_arith)
                requires
                    v <= CAPACITY,
            ;
        }
        let degree: u64 = match g.store.degree(v) {
            Some(d) => d as u64,
            None => 0,
        };
        if degree >= 2 {
            match counts[v] {
                Some(c) => {
                    closed = closed + c as u128;
                },
                None => {},
            }
        }
        triples = triples + pairs_among(degree);
        v += 1;
    }
    if triples == 0 {
        Ok(Fraction::zero())
    } else {
        Ok(Fraction { numerator: closed, denominator: triples })
    }
}

/// Whether every node has a distance.
pub open spec fn all_reached(d: Seq<Option<u32>>) -> bool {
    forall|i: int| 0 <= i < d.len() ==> (#[trigger] d[i]) is Some
}

/// The sum, over the first `upto` nodes as sources, of the distances to the
/// nodes that each of them reaches over a positive distance.
pub open spec fn path_total(nodes: Seq<i64>, edges: Seq<(int, int)>, upto: nat) -> nat
    decreases upto,
{
    if upto == 0 {
        0
    } else {
        let d = hop_distances(nodes, edges, upto - 1);
        path_total(nodes, edges, (upto - 1) as nat) + distance_total(d, upto - 1, d.len())
    }
}

/// The number of ordered pairs, with one of the first `upto` nodes as source,
/// that are joined over a positive distance.
pub open spec fn path_count(nodes: Seq<i64>, edges: Seq<(int, int)>, upto: nat) -> nat
    decreases upto,
{
    if upto == 0 {
        0
    } else {
        let d = hop_distances(nodes, edges, upto - 1);
        path_count(nodes, edges, (upto - 1) as nat) + reached(d, upto - 1, d.len())
    }
}

/// Whether each of the first `upto` nodes reaches every node.
pub open spec fn connected_upto(nodes: Seq<i64>, edges: Seq<(int, int)>, upto: nat) -> bool {
    forall|v: int| 0 <= v < upto ==> all_reached(#[trigger] hop_distances(nodes, edges, v))
}

/// The average length of a shortest path between two different nodes: the
/// total over the count, zero over one where no two nodes are joined, and
/// nothing for a graph that is not connected.
pub open spec fn average_path_of(nodes: Seq<i64>, edges: Seq<(int, int)>) -> Option<(nat, nat)> {
    if !connected_upto(nodes, edges, nodes.len()) {
        None
    } else if path_count(nodes, edges, nodes.len()) == 0 {
        Some((0, 1))
    } else {
        Some((path_total(nodes, edges, nodes.len()), path_count(nodes, edges, nodes.len())))
    }
}

/// The total of the positive distances to other nodes, their number, and
/// whether every node has a distance.
pub fn tally_distances(distances: &Vec<Option<u32>>, node: usize) -> (out: (u128, u128, bool))
    ensures
        out.0 == distance_total(distances@, node as int, distances@.len()),
        out.1 == reached(distances@, node as int, distances@.len()),
        out.2 == all_reached(distances@),
        out.0 <= distances@.len() * 0xffff_ffff,
        out.1 <= distances@.len(),
{
    let n = distances.len();
    let mut total: u128 = 0;
    let mut count: u128 = 0;
    let mut complete = true;
    let mut i: usize = 0;
    while i < n
        invariant
            i <= n,
            n == distances@.len(),
            count == reached(distances@, node as int, i as nat),
            total == distance_total(distances@, node as int, i as nat),
            complete == (forall|k: int| 0 <= k < i ==> (#[trigger] distances@[k]) is Some),
            count <= i,
            total <= i * 0xffff_ffff,
        decreases n - i,
    {
        proof {
            assert(i * 0xffff_ffff + 0xffff_ffff == (i + 1) * 0xffff_ffff) by (nonlinear_arith);
            assert(i * 0xffff_ffff <= 0xffff_ffff_ffff_ffff * 0xffff_ffff) by (nonlinear_arith)
                requires
                    i <= 0xffff_ffff_ffff_ffff,
            ;
        }
        match distances[i] {
            Some(d) => {
                if i != node && d > 0 {
                    count = count + 1;
                    total = total + d as u128;
                }
            },
            None => {
                complete = false;
            },
        }
        i += 1;
    }
    (total, count, complete)
}

/// Compute the average shortest path length between two different nodes, in
/// hops, as a fraction; `None` for a graph that is not connected.
///
/// Arrays of different lengths and an empty edge list are refused.
pub fn compute_avg_path_length(src: &[i64], dst: &[i64]) -> (outcome: Result<
    Option<Fraction>,
    OnagerError,
>)
    ensures
        match verdict(Operation::AvgPathLength, src@.len(), dst@.len(), 0) {
            Verdict::Refused(text) => refused_with(outcome, text),
            _ => if src@.len() > MAX_EDGES {
                engine_failure(outcome, too_long_text())
            } else {
                let average = average_path_of(
                    node_ids_of(src@, dst@),
                    edge_pairs_of(src@, dst@),
                );
                match outcome {
                    Ok(Some(f)) => average == Some(f.pair()),
                    Ok(None) => average is None,
                    Err(_) => false,
                }
            },
        },
{
    check_lengths(Operation::AvgPathLength, src.len(), dst.len(), 0)?;
    let g = EdgeGraph::build(src, dst)?;
    let ghost ids = g.table@;
    let ghost edges = edge_pairs_of(src@, dst@);
    let n = g.node_count();
    proof {
        crate::index::lemma_first_occurrences(src@ + dst@);
    }
    let mut total: u128 = 0;
    let mut count: u128 = 0;
    let mut v: usize = 0;
    while v < n
        invariant
            v <= n,
            n == ids.len(),
            n <= CAPACITY,
            g.well_formed(),
            ids == g.table@,
            edges == g.edges(),
            src@.len() <= MAX_EDGES,
            verdict(Operation::AvgPathLength, src@.len(), dst@.len(), 0) is Proceed,
            ids == node_ids_of(src@, dst@),
            edges == edge_pairs_of(src@, dst@),
            total == path_total(ids, edges, v as nat),
            count == path_count(ids, edges, v as nat),
            connected_upto(ids, edges, v as nat),
            total <= v * (CAPACITY * 0xffff_ffff),
            count <= v * CAPACITY,
        decreases n - v,
    {
        match engine_dijkstra(&g.store, v) {
            Ok(distances) => {
                let (sum, reached_here, complete) = tally_distances(&distances, v);
                if !complete {
                    proof {
                        assert(!all_reached(hop_distances(ids, edges, v as int)));
                    }
                    return Ok(None);
                }
                proof {
                    assert(n * 0xffff_ffff <= CAPACITY * 0xffff_ffff) by (nonlinear_arith)
                        requires
                            n <= CAPACITY,
                    ;
                    assert(v * (CAPACITY * 0xffff_ffff) + CAPACITY * 0xffff_ffff == (v + 1) * (
                    CAPACITY * 0xffff_ffff)) by (nonlinear_arith);
                    assert(v * CAPACITY + CAPACITY == (v + 1) * CAPACITY) by (nonlinear_arith);
                    assert(v * (CAPACITY * 0xffff_ffff) <= CAPACITY * (CAPACITY * 0xffff_ffff))
                        by (nonlinear_arith)
                        requires
                            v <= CAPACITY,
                    ;
                    assert(v * CAPACITY <= CAPACITY * CAPACITY) by (nonlinear_arith)
                        requires
                            v <= CAPACITY,
                    ;
                }
                total = total + sum;
                count = count + reached_here;
            },
            Err(e) => { return Err(engine_error(e)); },
        }
        v += 1;
    }
    if count == 0 {
        Ok(Some(Fraction::zero()))
    } else {
        Ok(Some(Fraction { numerator: total, denominator: count }))
    }
}

/// Compute graph diameter, in hops; minus one for a graph that is not
/// connected.
///
/// Arrays of different lengths and an empty edge list are refused.
pub fn compute_diameter(src: &[i64], dst: &[i64]) -> (outcome: Result<i64, OnagerError>)
    ensures
        match verdict(Operation::Diameter, src@.len(), dst@.len(), 0) {
            Verdict::Refused(text) => refused_with(outcome, text),
            _ => if src@.len() > MAX_EDGES {
                engine_failure(outcome, too_long_text())
            } else {
                match outcome {
                    Ok(value) => diameter_answer(
                        edge_pairs_of(src@, dst@),
                        node_ids_of(src@, dst@).len(),
                        value,
                    ),
                    Err(_) => false,
                }
            },
        },
{
    check_lengths(Operation::Diameter, src.len(), dst.len(), 0)?;
    let g = EdgeGraph::build(src, dst)?;
    proof {
        crate::community::lemma_has_nodes(src@, dst@);
        crate::index::lemma_first_occurrences(src@ + dst@);
    }
    Ok(answer_measure(engine_diameter(&g.store)))
}

/// Compute graph radius, in hops; minus one for a graph that is not connected.
///
/// Arrays of different lengths and an empty edge list are refused.
pub fn compute_radius(src: &[i64], dst: &[i64]) -> (outcome: Result<i64, OnagerError>)
    ensures
        match verdict(Operation::Radius, src@.len(), dst@.len(), 0) {
            Verdict::Refused(text) => refused_with(outcome, text),
            _ => if src@.len() > MAX_EDGES {
                engine_failure(outcome, too_long_text())
            } else {
                match outcome {
                    Ok(value) => radius_answer(
                        edge_pairs_of(src@, dst@),
                        node_ids_of(src@, dst@).len(),
                        value,
                    ),
                    Err(_) => false,
                }
            },
        },
{
    check_lengths(Operation::Radius, src.len(), dst.len(), 0)?;
    let g = EdgeGraph::build(src, dst)?;
    proof {
        crate::community::lemma_has_nodes(src@, dst@);
        crate::index::lemma_first_occurrences(src@ + dst@);
    }
    Ok(answer_measure(engine_radius(&g.store)))
}

/// Answers an optional measure of the engine as a number: the measure, or
/// minus one where there is none.
pub fn answer_measure(m: Option<usize>) -> (d: i64)
    ensures
        d == measure_or_minus_one(m),
{
    match m {
        Some(d) => d as i64,
        None => -1,
    }
}

/// Compute triangle count for each node.
///
/// Arrays of different lengths and an empty edge list are refused. Otherwise
/// every node is listed with the number of triangles through it.
pub fn compute_triangle_count(src: &[i64], dst: &[i64]) -> (outcome: Result<
    TriangleResult,
    OnagerError,
>)
    ensures
        match verdict(Operation::TriangleCount, src@.len(), dst@.len(), 0) {
            Verdict::Refused(text) => refused_with(outcome, text),
            _ => if src@.len() > MAX_EDGES {
                engine_failure(outcome, too_long_text())
            } else {
                let ids = node_ids_of(src@, dst@);
                let counts = triangle_counts(ids, edge_pairs_of(src@, dst@));
                match outcome {
                    Ok(r) => r.node_ids@ == listed_ids(ids, counts) && r.triangle_counts@
                        == listed_values(ids, counts) && r.node_ids@ == ids
                        && r.triangle_counts@.len() == ids.len(),
                    Err(_) => false,
                }
            },
        },
{
    check_lengths(Operation::TriangleCount, src.len(), dst.len(), 0)?;
    let g = EdgeGraph::build(src, dst)?;
    let counts = engine_triangles(&g.store);
    let (node_ids, triangle_counts) = list_values(g.table.ids(), &counts);
    proof {
        lemma_listed_total(g.table@, counts@);
        assert(g.table@.take(counts@.len() as int) =~= g.table@);
    }
    Ok(TriangleResult { node_ids, triangle_counts })
}

/// Compute graph density as a fraction: the edges of the list over the
/// ordered pairs of distinct nodes, an undirected edge counting for both of
/// its directions. Repeated edges and self-loops count like any other edge.
///
/// Arrays of different lengths and an empty edge list are refused.
pub fn compute_graph_density(src: &[i64], dst: &[i64], directed: bool) -> (outcome: Result<
    Fraction,
    OnagerError,
>)
    ensures
        match verdict(Operation::GraphDensity, src@.len(), dst@.len(), 0) {
            Verdict::Refused(text) => refused_with(outcome, text),
            _ => match outcome {
                Ok(d) => d.pair() == density_of(
                    node_ids_of(src@, dst@).len(),
                    src@.len(),
                    directed,
                ),
                Err(_) => false,
            },
        },
{
    check_lengths(Operation::GraphDensity, src.len(), dst.len(), 0)?;
    let table = NodeTable::from_edges(src, dst);
    let n: u128 = table.len() as u128;
    let m: u128 = src.len() as u128;
    if n < 2 {
        return Ok(Fraction::zero());
    }
    assert(n * (n - 1) <= 0xffff_ffff_ffff_ffff * 0xffff_ffff_ffff_ffff) by (nonlinear_arith)
        requires
            2 <= n <= 0xffff_ffff_ffff_ffff,
    ;
    let pairs: u128 = n * (n - 1);
    if directed {
        Ok(Fraction { numerator: m, denominator: pairs })
    } else {
        Ok(Fraction { numerator: 2 * m, denominator: pairs })
    }
}

/// An undirected edge list with as many edges as there are unordered pairs
/// of its nodes, as the edge list of a complete graph has, has density one;
/// read as a directed edge list it has density one half.
pub proof fn law_complete_graph_density(n: nat, m: nat)
    requires
        n >= 2,
        2 * m == n * (n - 1),
    ensures
        density_of(n, m, false).0 == density_of(n, m, false).1,
        2 * density_of(n, m, true).0 == density_of(n, m, true).1,
        density_of(n, m, false).1 > 0,
{
    assert(n * (n - 1) > 0) by (nonlinear_arith)
        requires
            n >= 2,
    ;
}

} // verus!
